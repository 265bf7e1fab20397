use crate::error::Error;
use crate::pchannel::{after_recv, has_live, recv_result, PolicyChannel, SendAttempt};
use crate::pdeque::push_outcome;
use crate::policy::DataDeliveryPolicy;
use std::collections::VecDeque;
use vstd::prelude::*;

verus! {

/// What the caller does, once the channel lock is released, to hand on a
/// wake-up.
pub enum WakeAction<W> {
    /// Nobody waits.
    Nothing,
    /// A blocking waiter waits: notify one waiter of the condition variable.
    NotifyOne,
    /// A task waits: wake it.
    Wake(W),
}

/// The wake-up of the oldest waiter in `e`, the waiters left, and the ids
/// of the tasks that were woken but have not polled yet.
pub open spec fn wake_next_outcome<W>(e: Seq<Option<(W, usize)>>, p: Set<usize>) -> (
    WakeAction<W>,
    Seq<Option<(W, usize)>>,
    Set<usize>,
) {
    if e.len() == 0 {
        (WakeAction::Nothing, e, p)
    } else {
        match e[0] {
            None => (WakeAction::NotifyOne, e.drop_first(), p),
            Some((w, id)) => (WakeAction::Wake(w), e.drop_first(), p.insert(id)),
        }
    }
}

/// Whether a waiter is the task of operation `id`.
pub open spec fn is_waiter_of<W>(x: Option<(W, usize)>, id: usize) -> bool {
    match x {
        Some((_, i)) => i == id,
        None => false,
    }
}

/// The position of the waiter of task `id`, or `e.len()`.
pub open spec fn waiter_index<W>(e: Seq<Option<(W, usize)>>, id: usize) -> int {
    crate::pdeque::first_index(e, |x: Option<(W, usize)>| is_waiter_of(x, id))
}

/// The wakers of the tasks among `e`, in order.
pub open spec fn task_wakers<W>(e: Seq<Option<(W, usize)>>) -> Seq<W>
    decreases e.len(),
{
    if e.len() == 0 {
        Seq::empty()
    } else {
        match e.last() {
            Some((w, _)) => task_wakers(e.drop_last()).push(w),
            None => task_wakers(e.drop_last()),
        }
    }
}

/// A FIFO of waiters (tasks with their wakers and operation ids, or
/// blocking callers), and the ids of tasks that were woken but have not
/// polled yet. A task that goes away after being woken passes its wake-up
/// on, so that none is lost.
pub struct WakerQueue<W> {
    entries: VecDeque<Option<(W, usize)>>,
    pending: Vec<usize>,
}

impl<W> WakerQueue<W> {
    /// The waiters, oldest first.
    pub closed spec fn spec_entries(&self) -> Seq<Option<(W, usize)>> {
        self.entries@
    }

    /// The ids of tasks woken that have not polled yet.
    pub closed spec fn spec_pending(&self) -> Set<usize> {
        self.pending@.to_set()
    }

    pub closed spec fn wf(&self) -> bool {
        self.pending@.no_duplicates()
    }

    /// No waiter and no pending wake-up.
    pub fn new() -> (r: Self)
        ensures
            r.wf(),
            r.spec_entries() == Seq::<Option<(W, usize)>>::empty(),
            r.spec_pending() == Set::<usize>::empty(),
    {
        let r = WakerQueue { entries: VecDeque::new(), pending: Vec::new() };
        proof {
            assert(r.pending@.to_set() =~= Set::<usize>::empty());
        }
        r
    }

    /// Whether nobody waits.
    pub fn is_empty(&self) -> (r: bool)
        ensures
            r == (self.spec_entries().len() == 0),
    {
        self.entries.len() == 0
    }

    /// Queues a task waiting under operation `id`.
    pub fn append_task(&mut self, waker: W, id: usize)
        ensures
            final(self).spec_entries() == old(self).spec_entries().push(Some((waker, id))),
            final(self).spec_pending() == old(self).spec_pending(),
            final(self).wf() == old(self).wf(),
    {
        self.entries.push_back(Some((waker, id)));
    }

    /// Queues a blocking caller.
    pub fn append_blocking(&mut self)
        ensures
            final(self).spec_entries() == old(self).spec_entries().push(None),
            final(self).spec_pending() == old(self).spec_pending(),
            final(self).wf() == old(self).wf(),
    {
        self.entries.push_back(None);
    }

    fn add_pending(&mut self, id: usize)
        requires
            old(self).wf(),
        ensures
            final(self).wf(),
            final(self).spec_pending() == old(self).spec_pending().insert(id),
            final(self).spec_entries() == old(self).spec_entries(),
    {
        if !contains_id(&self.pending, id) {
            let ghost s = self.pending@;
            self.pending.push(id);
            proof {
                assert(self.pending@.to_set() =~= s.to_set().insert(id)) by {
                    assert forall|x: usize| self.pending@.contains(x) <==> s.contains(x) || x == id by {
                        if s.contains(x) {
                            let i = choose|i: int| 0 <= i < s.len() && s[i] == x;
                            assert(self.pending@[i] == x);
                        }
                        if x == id {
                            assert(self.pending@[s.len() as int] == id);
                        }
                    }
                }
                assert forall|a: int, b: int| 0 <= a < b < self.pending@.len() implies self.pending@[a]
                    != self.pending@[b] by {
                    if b == s.len() {
                        assert(s.contains(s[a]));
                    }
                }
            }
        } else {
            proof {
                assert(self.pending@.to_set() =~= self.pending@.to_set().insert(id));
            }
        }
    }

    /// Forgets that task `id` was woken; true if it was.
    pub fn confirm_waked(&mut self, id: usize) -> (r: bool)
        requires
            old(self).wf(),
        ensures
            final(self).wf(),
            r == old(self).spec_pending().contains(id),
            final(self).spec_pending() == old(self).spec_pending().remove(id),
            final(self).spec_entries() == old(self).spec_entries(),
    {
        let ghost s = self.pending@;
        let n = self.pending.len();
        let mut i: usize = 0;
        while i < n
            invariant
                n == self.pending@.len(),
                s == self.pending@,
                s == old(self).pending@,
                s.no_duplicates(),
                self.entries == old(self).entries,
                i <= n,
                forall|j: int| 0 <= j < i ==> self.pending@[j] != id,
            decreases n - i,
        {
            if self.pending[i] == id {
                self.pending.remove(i);
                proof {
                    let t = self.pending@;
                    assert(t =~= s.remove(i as int));
                    assert forall|x: usize| t.contains(x) <==> (s.contains(x) && x != id) by {
                        if t.contains(x) {
                            let k = choose|k: int| 0 <= k < t.len() && t[k] == x;
                            let k0 = if k < i { k } else { k + 1 };
                            assert(s[k0] == x);
                            assert(k0 != i);
                            assert(s[i as int] == id);
                        }
                        if s.contains(x) && x != id {
                            let k = choose|k: int| 0 <= k < s.len() && s[k] == x;
                            if k < i {
                                assert(t[k] == x);
                            } else {
                                assert(k != i);
                                assert(t[k - 1] == x);
                            }
                        }
                    }
                    assert(t.to_set() =~= s.to_set().remove(id));
                    assert forall|a: int, b: int| 0 <= a < b < t.len() implies t[a] != t[b] by {
                        let a0 = if a < i { a } else { a + 1 };
                        let b0 = if b < i { b } else { b + 1 };
                        assert(t[a] == s[a0] && t[b] == s[b0]);
                    }
                    assert(s[i as int] == id);
                    assert(s.to_set().contains(id));
                }
                return true;
            }
            i += 1;
        }
        proof {
            assert(!s.contains(id));
            assert(s.to_set() =~= s.to_set().remove(id));
        }
        false
    }

    /// Wakes the oldest waiter: a task is recorded as woken and its waker
    /// handed back; a blocking caller is woken through the condition
    /// variable.
    pub fn wake_next(&mut self) -> (r: WakeAction<W>)
        requires
            old(self).wf(),
        ensures
            final(self).wf(),
            ({
                let (a, e, p) = wake_next_outcome(old(self).spec_entries(), old(self).spec_pending());
                &&& r == a
                &&& final(self).spec_entries() == e
                &&& final(self).spec_pending() == p
            }),
    {
        match self.entries.pop_front() {
            None => WakeAction::Nothing,
            Some(None) => WakeAction::NotifyOne,
            Some(Some((w, id))) => {
                self.add_pending(id);
                WakeAction::Wake(w)
            },
        }
    }

    /// Removes every waiter and hands back the wakers of the tasks among
    /// them, oldest first; blocking callers are woken through the
    /// condition variable.
    pub fn take_all(&mut self) -> (r: Vec<W>)
        requires
            old(self).wf(),
        ensures
            final(self).wf(),
            r@ == task_wakers(old(self).spec_entries()),
            final(self).spec_entries() == Seq::<Option<(W, usize)>>::empty(),
            final(self).spec_pending() == old(self).spec_pending(),
    {
        let ghost e = self.entries@;
        let n = self.entries.len();
        let mut out: Vec<W> = Vec::new();
        let mut i: usize = 0;
        while i < n
            invariant
                n == e.len(),
                i <= n,
                self.entries@ == e.subrange(i as int, n as int),
                out@ == task_wakers(e.subrange(0, i as int)),
                self.pending == old(self).pending,
            decreases n - i,
        {
            let x = self.entries.pop_front().unwrap();
            proof {
                assert(e.subrange(0, i + 1).drop_last() =~= e.subrange(0, i as int));
                assert(e.subrange(0, i + 1).last() == x);
                assert(self.entries@ =~= e.subrange(i + 1, n as int));
            }
            match x {
                Some((w, _)) => out.push(w),
                None => {},
            }
            i += 1;
        }
        proof {
            assert(e.subrange(0, n as int) =~= e);
        }
        out
    }

    /// Task `id` goes away: its waiter is removed, and if it had been
    /// woken without polling, the wake-up passes to the next waiter.
    pub fn remove_task(&mut self, id: usize) -> (r: WakeAction<W>)
        requires
            old(self).wf(),
        ensures
            final(self).wf(),
            ({
                let e0 = old(self).spec_entries();
                let k = waiter_index(e0, id);
                let e1 = if k < e0.len() {
                    e0.remove(k)
                } else {
                    e0
                };
                let p1 = old(self).spec_pending().remove(id);
                if old(self).spec_pending().contains(id) {
                    let (a, e, p) = wake_next_outcome(e1, p1);
                    &&& r == a
                    &&& final(self).spec_entries() == e
                    &&& final(self).spec_pending() == p
                } else {
                    &&& r is Nothing
                    &&& final(self).spec_entries() == e1
                    &&& final(self).spec_pending() == p1
                }
            }),
    {
        let ghost e0 = self.entries@;
        let n = self.entries.len();
        let mut k: usize = 0;
        while k < n && !is_task(&self.entries[k], id)
            invariant
                n == self.entries@.len(),
                e0 == self.entries@,
                k <= n,
                forall|j: int|
                    0 <= j < k ==> !((|x: Option<(W, usize)>| is_waiter_of(x, id))(
                        #[trigger] e0[j],
                    )),
            decreases n - k,
        {
            k += 1;
        }
        proof {
            crate::pdeque::lemma_first_index(
                e0,
                |x: Option<(W, usize)>| is_waiter_of(x, id),
                k as int,
            );
        }
        if k < n {
            self.entries.remove(k);
        }
        if self.confirm_waked(id) {
            self.wake_next()
        } else {
            WakeAction::Nothing
        }
    }
}

/// The result of polling a send operation.
pub enum SendPoll<T, W> {
    /// The operation is over, with its result and the wake-up to hand on.
    Ready(Result<(), Error>, WakeAction<W>),
    /// The task waits for room; it keeps the value.
    Pending(T),
}

/// The result of polling a receive operation.
pub enum RecvPoll<T, W> {
    /// The operation is over, with its result and the wake-up to hand on.
    Ready(Result<T, Error>, WakeAction<W>),
    /// The task waits for data.
    Pending,
}

/// The shared state of an asynchronous policy channel: the channel state,
/// the waiters for room and for data, and the next operation id. Tasks
/// and blocking callers wait in one FIFO per direction, so that both are
/// served in their order of arrival.
pub struct AsyncChannelState<T: DataDeliveryPolicy, W> {
    chan: PolicyChannel<T>,
    send_wakers: WakerQueue<W>,
    recv_wakers: WakerQueue<W>,
    next_op_id: usize,
}

impl<T: DataDeliveryPolicy, W> AsyncChannelState<T, W> {
    pub closed spec fn spec_chan(&self) -> PolicyChannel<T> {
        self.chan
    }

    pub closed spec fn spec_send_wakers(&self) -> WakerQueue<W> {
        self.send_wakers
    }

    pub closed spec fn spec_recv_wakers(&self) -> WakerQueue<W> {
        self.recv_wakers
    }

    pub closed spec fn spec_next_op_id(&self) -> usize {
        self.next_op_id
    }

    pub closed spec fn wf(&self) -> bool {
        &&& self.chan.wf()
        &&& self.send_wakers.wf()
        &&& self.recv_wakers.wf()
    }

    /// A channel of the given capacity with one sender, one receiver and
    /// nobody waiting.
    pub fn new(capacity: usize, ordering: bool) -> (r: Self)
        requires
            capacity > 0,
        ensures
            r.wf(),
            r.spec_chan().spec_queue()@ == Seq::<T>::empty(),
            r.spec_chan().spec_queue().spec_capacity() == capacity,
            r.spec_chan().spec_queue().spec_ordered() == ordering,
            r.spec_chan().spec_senders() == 1,
            r.spec_chan().spec_receivers() == 1,
            r.spec_send_wakers().spec_entries().len() == 0,
            r.spec_recv_wakers().spec_entries().len() == 0,
            r.spec_next_op_id() == 0,
    {
        AsyncChannelState {
            chan: PolicyChannel::new(capacity, ordering),
            send_wakers: WakerQueue::new(),
            recv_wakers: WakerQueue::new(),
            next_op_id: 0,
        }
    }

    /// A fresh operation id: ids count up from zero, wrapping around.
    pub fn op_id(&mut self) -> (r: usize)
        ensures
            r == old(self).spec_next_op_id(),
            final(self).spec_next_op_id() == (if r == usize::MAX {
                0
            } else {
                (r + 1) as usize
            }),
            final(self).spec_chan() == old(self).spec_chan(),
            final(self).spec_send_wakers() == old(self).spec_send_wakers(),
            final(self).spec_recv_wakers() == old(self).spec_recv_wakers(),
    {
        let r = self.next_op_id;
        self.next_op_id = if r == usize::MAX {
            0
        } else {
            r + 1
        };
        r
    }

    /// Polls the send of `value` by task `id`; `queued` tells whether the
    /// task already waits. A task may try to store the value when nobody
    /// waits before it or when it was woken; otherwise, or when there is no
    /// room, it queues (again) and keeps the value. A stored or skipped
    /// value wakes the oldest receiver.
    pub fn poll_send(&mut self, queued: bool, id: usize, value: T, waker: W) -> (r: SendPoll<T, W>)
        requires
            old(self).wf(),
        ensures
            final(self).wf(),
            final(self).spec_chan().spec_senders() == old(self).spec_chan().spec_senders(),
            final(self).spec_chan().spec_receivers() == old(self).spec_chan().spec_receivers(),
            final(self).spec_next_op_id() == old(self).spec_next_op_id(),
            ({
                let q = old(self).spec_chan().spec_queue();
                let sw = old(self).spec_send_wakers();
                let rw = old(self).spec_recv_wakers();
                let p1 = if queued {
                    sw.spec_pending().remove(id)
                } else {
                    sw.spec_pending()
                };
                let (pushed, back, data) = push_outcome(
                    q@,
                    q.spec_capacity(),
                    q.spec_ordered(),
                    value,
                );
                let (a, re, rp) = wake_next_outcome(rw.spec_entries(), rw.spec_pending());
                let tries = sw.spec_entries().len() == 0 || queued;
                &&& final(self).spec_send_wakers().spec_pending() == p1
                &&& old(self).spec_chan().spec_receivers() == 0 ==> r == SendPoll::<T, W>::Ready(
                    Err(Error::ChannelClosed),
                    WakeAction::Nothing,
                ) && final(self).spec_chan().spec_queue()@ == q@
                &&& old(self).spec_chan().spec_receivers() > 0 && tries && !back ==> r
                    == SendPoll::<T, W>::Ready(
                    if pushed {
                        Ok(())
                    } else {
                        Err(Error::ChannelSkipped)
                    },
                    a,
                ) && final(self).spec_chan().spec_queue()@ == data
                    && final(self).spec_recv_wakers().spec_entries() == re
                    && final(self).spec_recv_wakers().spec_pending() == rp
                    && final(self).spec_send_wakers().spec_entries() == sw.spec_entries()
                &&& old(self).spec_chan().spec_receivers() > 0 && tries && back ==> r
                    == SendPoll::<T, W>::Pending(value) && final(self).spec_chan().spec_queue()@
                    == data && final(self).spec_send_wakers().spec_entries()
                    == sw.spec_entries().push(Some((waker, id)))
                &&& old(self).spec_chan().spec_receivers() > 0 && !tries ==> r == SendPoll::<
                    T,
                    W,
                >::Pending(value) && final(self).spec_chan().spec_queue()@ == q@
                    && final(self).spec_send_wakers().spec_entries() == sw.spec_entries().push(
                    Some((waker, id)),
                )
            }),
    {
        if queued {
            self.send_wakers.confirm_waked(id);
        } else {
            proof {
                assert(self.send_wakers.spec_pending() == old(self).send_wakers.spec_pending());
            }
        }
        if !self.chan.has_receivers() {
            return SendPoll::Ready(Err(Error::ChannelClosed), WakeAction::Nothing);
        }
        if self.send_wakers.is_empty() || queued {
            match self.chan.try_send(value) {
                SendAttempt::Pushed => {
                    let a = self.recv_wakers.wake_next();
                    return SendPoll::Ready(Ok(()), a);
                },
                SendAttempt::Skipped => {
                    let a = self.recv_wakers.wake_next();
                    return SendPoll::Ready(Err(Error::ChannelSkipped), a);
                },
                SendAttempt::Full(v) => {
                    self.send_wakers.append_task(waker, id);
                    return SendPoll::Pending(v);
                },
                SendAttempt::Closed => {
                    return SendPoll::Ready(Err(Error::ChannelClosed), WakeAction::Nothing);
                },
            }
        }
        self.send_wakers.append_task(waker, id);
        SendPoll::Pending(value)
    }

    /// Polls a receive by task `id`; `queued` tells whether the task
    /// already waits. A task may take a value when nobody waits before it
    /// or when it was woken; a taken value wakes the oldest sender. With
    /// nothing to take, the channel is closed once every sender is gone;
    /// otherwise the task queues (again).
    pub fn poll_recv(&mut self, queued: bool, id: usize, waker: W) -> (r: RecvPoll<T, W>)
        requires
            old(self).wf(),
        ensures
            final(self).wf(),
            final(self).spec_chan().spec_senders() == old(self).spec_chan().spec_senders(),
            final(self).spec_chan().spec_receivers() == old(self).spec_chan().spec_receivers(),
            final(self).spec_next_op_id() == old(self).spec_next_op_id(),
            ({
                let d = old(self).spec_chan().spec_queue()@;
                let senders = old(self).spec_chan().spec_senders();
                let sw = old(self).spec_send_wakers();
                let rw = old(self).spec_recv_wakers();
                let p1 = if queued {
                    rw.spec_pending().remove(id)
                } else {
                    rw.spec_pending()
                };
                let (a, se, sp) = wake_next_outcome(sw.spec_entries(), sw.spec_pending());
                let tries = rw.spec_entries().len() == 0 || queued;
                &&& final(self).spec_recv_wakers().spec_pending() == p1
                &&& tries && has_live(d) ==> r == RecvPoll::<T, W>::Ready(
                    recv_result(d, senders),
                    a,
                ) && final(self).spec_chan().spec_queue()@ == after_recv(d)
                    && final(self).spec_send_wakers().spec_entries() == se
                    && final(self).spec_send_wakers().spec_pending() == sp
                &&& tries && !has_live(d) && senders == 0 ==> r == RecvPoll::<T, W>::Ready(
                    Err(Error::ChannelClosed),
                    WakeAction::Nothing,
                )
                &&& tries && !has_live(d) && senders > 0 ==> r is Pending
                    && final(self).spec_recv_wakers().spec_entries() == rw.spec_entries().push(
                    Some((waker, id)),
                )
                &&& !tries ==> r is Pending && final(self).spec_chan().spec_queue()@ == d
                    && final(self).spec_recv_wakers().spec_entries() == rw.spec_entries().push(
                    Some((waker, id)),
                )
            }),
    {
        if queued {
            self.recv_wakers.confirm_waked(id);
        } else {
            proof {
                assert(self.recv_wakers.spec_pending() == old(self).recv_wakers.spec_pending());
            }
        }
        if self.recv_wakers.is_empty() || queued {
            match self.chan.try_recv() {
                Ok(v) => {
                    let a = self.send_wakers.wake_next();
                    return RecvPoll::Ready(Ok(v), a);
                },
                Err(Error::ChannelClosed) => {
                    return RecvPoll::Ready(Err(Error::ChannelClosed), WakeAction::Nothing);
                },
                Err(_) => {},
            }
        }
        self.recv_wakers.append_task(waker, id);
        RecvPoll::Pending
    }

    /// A send task that goes away: see [`WakerQueue::remove_task`].
    pub fn drop_send_task(&mut self, id: usize) -> (r: WakeAction<W>)
        requires
            old(self).wf(),
        ensures
            final(self).wf(),
            final(self).spec_chan() == old(self).spec_chan(),
            final(self).spec_recv_wakers() == old(self).spec_recv_wakers(),
    {
        self.send_wakers.remove_task(id)
    }

    /// A receive task that goes away: see [`WakerQueue::remove_task`].
    pub fn drop_recv_task(&mut self, id: usize) -> (r: WakeAction<W>)
        requires
            old(self).wf(),
        ensures
            final(self).wf(),
            final(self).spec_chan() == old(self).spec_chan(),
            final(self).spec_send_wakers() == old(self).spec_send_wakers(),
    {
        self.recv_wakers.remove_task(id)
    }

    /// A blocking sender tries to store a value; a stored or skipped value
    /// wakes the oldest receiver.
    pub fn try_send(&mut self, value: T) -> (r: (SendAttempt<T>, WakeAction<W>))
        requires
            old(self).wf(),
        ensures
            final(self).wf(),
            final(self).spec_send_wakers() == old(self).spec_send_wakers(),
            old(self).spec_chan().spec_receivers() == 0 ==> r.0 is Closed,
            old(self).spec_chan().spec_receivers() > 0 ==> ({
                let q = old(self).spec_chan().spec_queue();
                let (pushed, back, data) = push_outcome(
                    q@,
                    q.spec_capacity(),
                    q.spec_ordered(),
                    value,
                );
                &&& final(self).spec_chan().spec_queue()@ == data
                &&& pushed ==> r.0 is Pushed
                &&& !pushed && back ==> r.0 == SendAttempt::Full(value)
                &&& !pushed && !back ==> r.0 is Skipped
            }),
            (r.0 is Pushed || r.0 is Skipped) ==> ({
                let (a, e, p) = wake_next_outcome(
                    old(self).spec_recv_wakers().spec_entries(),
                    old(self).spec_recv_wakers().spec_pending(),
                );
                &&& r.1 == a
                &&& final(self).spec_recv_wakers().spec_entries() == e
                &&& final(self).spec_recv_wakers().spec_pending() == p
            }),
            !(r.0 is Pushed || r.0 is Skipped) ==> r.1 is Nothing && final(self).spec_recv_wakers()
                == old(self).spec_recv_wakers(),
    {
        let attempt = self.chan.try_send(value);
        match attempt {
            SendAttempt::Pushed | SendAttempt::Skipped => {
                let a = self.recv_wakers.wake_next();
                (attempt, a)
            },
            _ => (attempt, WakeAction::Nothing),
        }
    }

    /// A blocking receiver tries to take a value; a taken value wakes the
    /// oldest sender.
    pub fn try_recv(&mut self) -> (r: (Result<T, Error>, WakeAction<W>))
        requires
            old(self).wf(),
        ensures
            final(self).wf(),
            final(self).spec_recv_wakers() == old(self).spec_recv_wakers(),
            r.0 == recv_result(old(self).spec_chan().spec_queue()@, old(self).spec_chan().spec_senders()),
            final(self).spec_chan().spec_queue()@ == after_recv(old(self).spec_chan().spec_queue()@),
            r.0 is Ok ==> ({
                let (a, e, p) = wake_next_outcome(
                    old(self).spec_send_wakers().spec_entries(),
                    old(self).spec_send_wakers().spec_pending(),
                );
                &&& r.1 == a
                &&& final(self).spec_send_wakers().spec_entries() == e
                &&& final(self).spec_send_wakers().spec_pending() == p
            }),
            r.0 is Err ==> r.1 is Nothing && final(self).spec_send_wakers()
                == old(self).spec_send_wakers(),
    {
        match self.chan.try_recv() {
            Ok(v) => {
                let a = self.send_wakers.wake_next();
                (Ok(v), a)
            },
            Err(e) => (Err(e), WakeAction::Nothing),
        }
    }

    /// A blocking sender waits for room on the condition variable.
    pub fn wait_for_space(&mut self)
        ensures
            final(self).spec_send_wakers().spec_entries() == old(self).spec_send_wakers().spec_entries().push(None),
            final(self).spec_send_wakers().spec_pending() == old(self).spec_send_wakers().spec_pending(),
            final(self).spec_chan() == old(self).spec_chan(),
            final(self).spec_recv_wakers() == old(self).spec_recv_wakers(),
            final(self).wf() == old(self).wf(),
    {
        self.send_wakers.append_blocking();
    }

    /// A blocking receiver waits for data on the condition variable.
    pub fn wait_for_data(&mut self)
        ensures
            final(self).spec_recv_wakers().spec_entries() == old(self).spec_recv_wakers().spec_entries().push(None),
            final(self).spec_recv_wakers().spec_pending() == old(self).spec_recv_wakers().spec_pending(),
            final(self).spec_chan() == old(self).spec_chan(),
            final(self).spec_send_wakers() == old(self).spec_send_wakers(),
            final(self).wf() == old(self).wf(),
    {
        self.recv_wakers.append_blocking();
    }

    /// A sender is dropped. When it was the last one every waiting
    /// receiver must learn of the closure: their task wakers are handed
    /// back (blocking ones are woken through the condition variable).
    pub fn drop_sender(&mut self) -> (r: Vec<W>)
        requires
            old(self).wf(),
            old(self).spec_chan().spec_senders() > 0,
        ensures
            final(self).wf(),
            final(self).spec_chan().spec_senders() == old(self).spec_chan().spec_senders() - 1,
            final(self).spec_chan().spec_receivers() == old(self).spec_chan().spec_receivers(),
            final(self).spec_chan().spec_senders() == 0 ==> r@ == task_wakers(
                old(self).spec_recv_wakers().spec_entries(),
            ) && final(self).spec_recv_wakers().spec_entries().len() == 0,
            final(self).spec_chan().spec_senders() > 0 ==> r@.len() == 0
                && final(self).spec_recv_wakers() == old(self).spec_recv_wakers(),
    {
        if self.chan.remove_sender() {
            self.recv_wakers.take_all()
        } else {
            Vec::new()
        }
    }

    /// A receiver is dropped. When it was the last one every waiting
    /// sender must learn of the closure: their task wakers are handed back
    /// (blocking ones are woken through the condition variable).
    pub fn drop_receiver(&mut self) -> (r: Vec<W>)
        requires
            old(self).wf(),
            old(self).spec_chan().spec_receivers() > 0,
        ensures
            final(self).wf(),
            final(self).spec_chan().spec_receivers() == old(self).spec_chan().spec_receivers() - 1,
            final(self).spec_chan().spec_senders() == old(self).spec_chan().spec_senders(),
            final(self).spec_chan().spec_receivers() == 0 ==> r@ == task_wakers(
                old(self).spec_send_wakers().spec_entries(),
            ) && final(self).spec_send_wakers().spec_entries().len() == 0,
            final(self).spec_chan().spec_receivers() > 0 ==> r@.len() == 0
                && final(self).spec_send_wakers() == old(self).spec_send_wakers(),
    {
        if self.chan.remove_receiver() {
            self.send_wakers.take_all()
        } else {
            Vec::new()
        }
    }

    /// Records one more sender.
    pub fn add_sender(&mut self)
        requires
            old(self).spec_chan().spec_senders() < usize::MAX,
        ensures
            final(self).spec_chan().spec_senders() == old(self).spec_chan().spec_senders() + 1,
            final(self).spec_chan().spec_receivers() == old(self).spec_chan().spec_receivers(),
            final(self).wf() == old(self).wf(),
    {
        self.chan.add_sender();
    }

    /// Records one more receiver.
    pub fn add_receiver(&mut self)
        requires
            old(self).spec_chan().spec_receivers() < usize::MAX,
        ensures
            final(self).spec_chan().spec_receivers() == old(self).spec_chan().spec_receivers() + 1,
            final(self).spec_chan().spec_senders() == old(self).spec_chan().spec_senders(),
            final(self).wf() == old(self).wf(),
    {
        self.chan.add_receiver();
    }

    /// The channel state.
    pub fn channel(&self) -> (r: &PolicyChannel<T>)
        ensures
            *r == self.spec_chan(),
    {
        &self.chan
    }
}

fn is_task<W>(x: &Option<(W, usize)>, id: usize) -> (r: bool)
    ensures
        r == is_waiter_of(*x, id),
{
    match x {
        Some((_, i)) => *i == id,
        None => false,
    }
}

fn contains_id(v: &Vec<usize>, id: usize) -> (r: bool)
    ensures
        r == v@.contains(id),
{
    let n = v.len();
    let mut i: usize = 0;
    while i < n
        invariant
            n == v@.len(),
            i <= n,
            forall|j: int| 0 <= j < i ==> v@[j] != id,
        decreases n - i,
    {
        if v[i] == id {
            return true;
        }
        i += 1;
    }
    false
}

} // verus!
