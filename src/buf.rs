use std::collections::VecDeque;
use vstd::prelude::*;

verus! {

/// A capacity-limited buffer of values, filled at the back and drained
/// whole.
pub struct DataBuffer<T> {
    data: VecDeque<T>,
    capacity: usize,
}

impl<T> DataBuffer<T> {
    pub closed spec fn view(&self) -> Seq<T> {
        self.data@
    }

    pub closed spec fn spec_capacity(&self) -> nat {
        self.capacity as nat
    }

    /// The buffer holds no more than its capacity, which is positive.
    pub closed spec fn wf(&self) -> bool {
        self.capacity > 0 && self.data@.len() <= self.capacity
    }

    /// An empty buffer of the given capacity.
    pub fn bounded(capacity: usize) -> (r: Self)
        requires
            capacity > 0,
        ensures
            r.wf(),
            r.view() == Seq::<T>::empty(),
            r.spec_capacity() == capacity,
    {
        DataBuffer { data: VecDeque::new(), capacity }
    }

    /// Appends the value if there is room; otherwise hands it back.
    pub fn try_push(&mut self, value: T) -> (r: Option<T>)
        requires
            old(self).wf(),
        ensures
            final(self).wf(),
            final(self).spec_capacity() == old(self).spec_capacity(),
            old(self).view().len() < old(self).spec_capacity() ==> r is None && final(self).view()
                == old(self).view().push(value),
            old(self).view().len() >= old(self).spec_capacity() ==> r == Some(value)
                && final(self).view() == old(self).view(),
    {
        if self.data.len() >= self.capacity {
            return Some(value);
        }
        self.data.push_back(value);
        None
    }

    /// Appends the value, removing the oldest one if the buffer is full.
    /// True if nothing had to be removed.
    pub fn force_push(&mut self, value: T) -> (r: bool)
        requires
            old(self).wf(),
        ensures
            final(self).wf(),
            final(self).spec_capacity() == old(self).spec_capacity(),
            r == (old(self).view().len() < old(self).spec_capacity()),
            r ==> final(self).view() == old(self).view().push(value),
            !r ==> final(self).view() == old(self).view().drop_first().push(value),
    {
        let mut res = true;
        if self.data.len() >= self.capacity {
            self.data.pop_front();
            res = false;
        }
        self.data.push_back(value);
        res
    }

    /// The number of values held.
    pub fn len(&self) -> (r: usize)
        ensures
            r == self.view().len(),
    {
        self.data.len()
    }

    /// Whether the buffer is empty.
    pub fn is_empty(&self) -> (r: bool)
        ensures
            r == (self.view().len() == 0),
    {
        self.data.len() == 0
    }

    /// Takes every value, leaving the buffer empty.
    pub fn take(&mut self) -> (r: VecDeque<T>)
        requires
            old(self).wf(),
        ensures
            final(self).wf(),
            final(self).spec_capacity() == old(self).spec_capacity(),
            r@ == old(self).view(),
            final(self).view() == Seq::<T>::empty(),
    {
        let mut out: VecDeque<T> = VecDeque::new();
        std::mem::swap(&mut self.data, &mut out);
        out
    }
}

} // verus!
