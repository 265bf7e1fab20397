use vstd::prelude::*;

verus! {

/// The count behind a semaphore: how many of its permits are held.
pub struct PermitCount {
    used: usize,
    capacity: usize,
}

impl PermitCount {
    pub closed spec fn spec_used(&self) -> nat {
        self.used as nat
    }

    pub closed spec fn spec_capacity(&self) -> nat {
        self.capacity as nat
    }

    /// No more permits are held than there are.
    pub closed spec fn wf(&self) -> bool {
        self.used <= self.capacity
    }

    /// A count of `capacity` permits, none held.
    pub fn new(capacity: usize) -> (r: Self)
        ensures
            r.wf(),
            r.spec_used() == 0,
            r.spec_capacity() == capacity,
    {
        PermitCount { used: 0, capacity }
    }

    /// Takes a permit if one is free.
    pub fn try_acquire(&mut self) -> (r: bool)
        requires
            old(self).wf(),
        ensures
            final(self).wf(),
            final(self).spec_capacity() == old(self).spec_capacity(),
            r == (old(self).spec_used() < old(self).spec_capacity()),
            r ==> final(self).spec_used() == old(self).spec_used() + 1,
            !r ==> final(self).spec_used() == old(self).spec_used(),
    {
        if self.used == self.capacity {
            return false;
        }
        self.used = self.used + 1;
        true
    }

    /// Gives a permit back.
    pub fn release(&mut self)
        requires
            old(self).wf(),
            old(self).spec_used() > 0,
        ensures
            final(self).wf(),
            final(self).spec_capacity() == old(self).spec_capacity(),
            final(self).spec_used() == old(self).spec_used() - 1,
    {
        self.used = self.used - 1;
    }

    /// The number of permits.
    pub fn capacity(&self) -> (r: usize)
        ensures
            r == self.spec_capacity(),
    {
        self.capacity
    }

    /// The number of free permits.
    pub fn available(&self) -> (r: usize)
        requires
            self.wf(),
        ensures
            r == self.spec_capacity() - self.spec_used(),
    {
        self.capacity - self.used
    }

    /// The number of held permits.
    pub fn used(&self) -> (r: usize)
        ensures
            r == self.spec_used(),
    {
        self.used
    }
}

} // verus!
