use crate::error::Error;
use crate::pdeque::{first_index, lemma_first_index_bound, live, push_outcome, Deque};
use crate::policy::DataDeliveryPolicy;
use vstd::prelude::*;

verus! {

/// The common interface of data channels and hubs: endpoints that do not
/// support an operation answer it with `Error::Unimplemented`.
pub trait DataChannel<T: DataDeliveryPolicy> {
    /// Sends a value, waiting for room if the policy requires it.
    fn send(&self, value: T) -> Result<(), Error>;

    /// Sends a value without waiting.
    fn try_send(&self, value: T) -> Result<(), Error>;

    /// Receives a value, waiting for one.
    fn recv(&self) -> Result<T, Error>;

    /// Receives a value without waiting.
    fn try_recv(&self) -> Result<T, Error>;

    /// Whether the other side of the channel is still there.
    fn is_alive(&self) -> bool {
        true
    }
}

/// What a send attempt did with the value.
pub enum SendAttempt<T> {
    /// The value was stored (or had expired and was dropped).
    Pushed,
    /// The value was dropped by its policy because the queue is full.
    Skipped,
    /// The queue is full: the value is handed back to wait for room.
    Full(T),
    /// Every receiver is gone; the value is dropped.
    Closed,
}

/// Whether a queue content still holds a value that a receiver would get.
pub open spec fn has_live<T: DataDeliveryPolicy>(d: Seq<T>) -> bool {
    first_index(d, live()) < d.len()
}

/// What a receive attempt returns on a queue holding `d` with `senders`
/// live senders: the first live value; without one, `ChannelClosed` once
/// every sender is gone and `ChannelEmpty` before.
pub open spec fn recv_result<T: DataDeliveryPolicy>(d: Seq<T>, senders: nat) -> Result<T, Error> {
    if has_live(d) {
        Ok(d[first_index(d, live())])
    } else if senders == 0 {
        Err(Error::ChannelClosed)
    } else {
        Err(Error::ChannelEmpty)
    }
}

/// The queue after a receive attempt: what follows the value taken, or
/// nothing when only expired values were left.
pub open spec fn after_recv<T: DataDeliveryPolicy>(d: Seq<T>) -> Seq<T> {
    if has_live(d) {
        d.subrange(first_index(d, live()) + 1, d.len() as int)
    } else {
        Seq::empty()
    }
}

/// The queue after `n` receive attempts.
pub open spec fn after_recvs<T: DataDeliveryPolicy>(d: Seq<T>, n: nat) -> Seq<T>
    decreases n,
{
    if n == 0 {
        d
    } else {
        after_recvs(after_recv(d), (n - 1) as nat)
    }
}

/// Once every sender is gone, receivers drain what is queued and then get
/// `ChannelClosed`: after as many receive attempts as there were queued
/// values, every further attempt reports the closure.
pub proof fn lemma_receivers_see_closure<T: DataDeliveryPolicy>(d: Seq<T>, n: nat)
    requires
        n >= d.len(),
    ensures
        recv_result(after_recvs(d, n), 0) == Err::<T, Error>(Error::ChannelClosed),
        after_recvs(d, n) == Seq::<T>::empty(),
    decreases n,
{
    lemma_first_index_bound(d, live::<T>());
    if n == 0 {
        assert(d =~= Seq::<T>::empty());
    } else {
        lemma_receivers_see_closure(after_recv(d), (n - 1) as nat);
    }
    lemma_first_index_bound(after_recvs(d, n), live::<T>());
}

/// The shared state of a policy channel: the queue and the numbers of live
/// senders and receivers. Blocking endpoints keep it under a lock and wait
/// on condition variables; each decision is made here.
pub struct PolicyChannel<T: DataDeliveryPolicy> {
    queue: Deque<T>,
    senders: usize,
    receivers: usize,
}

impl<T: DataDeliveryPolicy> PolicyChannel<T> {
    /// The queue.
    pub closed spec fn spec_queue(&self) -> Deque<T> {
        self.queue
    }

    /// The number of live senders.
    pub closed spec fn spec_senders(&self) -> nat {
        self.senders as nat
    }

    /// The number of live receivers.
    pub closed spec fn spec_receivers(&self) -> nat {
        self.receivers as nat
    }

    pub closed spec fn wf(&self) -> bool {
        self.queue.wf()
    }

    /// A channel of the given capacity with one sender and one receiver.
    pub fn new(capacity: usize, ordering: bool) -> (r: Self)
        requires
            capacity > 0,
        ensures
            r.wf(),
            r.spec_queue()@ == Seq::<T>::empty(),
            r.spec_queue().spec_capacity() == capacity,
            r.spec_queue().spec_ordered() == ordering,
            r.spec_senders() == 1,
            r.spec_receivers() == 1,
    {
        PolicyChannel {
            queue: Deque::bounded(capacity).set_ordering(ordering),
            senders: 1,
            receivers: 1,
        }
    }

    /// Tries to store a value. With no receiver left the channel is closed;
    /// otherwise the queue's policy rules decide.
    pub fn try_send(&mut self, value: T) -> (r: SendAttempt<T>)
        requires
            old(self).wf(),
        ensures
            final(self).wf(),
            final(self).spec_senders() == old(self).spec_senders(),
            final(self).spec_receivers() == old(self).spec_receivers(),
            final(self).spec_queue().spec_capacity() == old(self).spec_queue().spec_capacity(),
            final(self).spec_queue().spec_ordered() == old(self).spec_queue().spec_ordered(),
            old(self).spec_receivers() == 0 ==> r is Closed && final(self).spec_queue()@
                == old(self).spec_queue()@,
            old(self).spec_receivers() > 0 ==> ({
                let q = old(self).spec_queue();
                let (pushed, back, data) = push_outcome(
                    q@,
                    q.spec_capacity(),
                    q.spec_ordered(),
                    value,
                );
                &&& final(self).spec_queue()@ == data
                &&& pushed ==> r is Pushed
                &&& !pushed && back ==> r == SendAttempt::Full(value)
                &&& !pushed && !back ==> r is Skipped
            }),
    {
        if self.receivers == 0 {
            return SendAttempt::Closed;
        }
        let out = self.queue.try_push(value);
        if out.pushed {
            SendAttempt::Pushed
        } else {
            match out.value {
                Some(v) => SendAttempt::Full(v),
                None => SendAttempt::Skipped,
            }
        }
    }

    /// Takes the next live value. Without one, the channel is closed once
    /// every sender is gone, and empty before that.
    pub fn try_recv(&mut self) -> (r: Result<T, Error>)
        requires
            old(self).wf(),
        ensures
            final(self).wf(),
            final(self).spec_senders() == old(self).spec_senders(),
            final(self).spec_receivers() == old(self).spec_receivers(),
            final(self).spec_queue().spec_capacity() == old(self).spec_queue().spec_capacity(),
            final(self).spec_queue().spec_ordered() == old(self).spec_queue().spec_ordered(),
            r == recv_result(old(self).spec_queue()@, old(self).spec_senders()),
            final(self).spec_queue()@ == after_recv(old(self).spec_queue()@),
    {
        proof {
            lemma_first_index_bound(self.queue@, live::<T>());
        }
        match self.queue.get() {
            Some(v) => Ok(v),
            None => {
                if self.senders == 0 {
                    Err(Error::ChannelClosed)
                } else {
                    Err(Error::ChannelEmpty)
                }
            },
        }
    }

    /// Records one more sender.
    pub fn add_sender(&mut self)
        requires
            old(self).spec_senders() < usize::MAX,
        ensures
            final(self).spec_senders() == old(self).spec_senders() + 1,
            final(self).spec_receivers() == old(self).spec_receivers(),
            final(self).spec_queue() == old(self).spec_queue(),
            final(self).wf() == old(self).wf(),
    {
        self.senders = self.senders + 1;
    }

    /// Records one more receiver.
    pub fn add_receiver(&mut self)
        requires
            old(self).spec_receivers() < usize::MAX,
        ensures
            final(self).spec_receivers() == old(self).spec_receivers() + 1,
            final(self).spec_senders() == old(self).spec_senders(),
            final(self).spec_queue() == old(self).spec_queue(),
            final(self).wf() == old(self).wf(),
    {
        self.receivers = self.receivers + 1;
    }

    /// Records a dropped sender; true when it was the last one, so that
    /// every waiter must be woken.
    pub fn remove_sender(&mut self) -> (last: bool)
        requires
            old(self).spec_senders() > 0,
        ensures
            final(self).spec_senders() == old(self).spec_senders() - 1,
            final(self).spec_receivers() == old(self).spec_receivers(),
            final(self).spec_queue() == old(self).spec_queue(),
            final(self).wf() == old(self).wf(),
            last == (final(self).spec_senders() == 0),
    {
        self.senders = self.senders - 1;
        self.senders == 0
    }

    /// Records a dropped receiver; true when it was the last one, so that
    /// every waiter must be woken.
    pub fn remove_receiver(&mut self) -> (last: bool)
        requires
            old(self).spec_receivers() > 0,
        ensures
            final(self).spec_receivers() == old(self).spec_receivers() - 1,
            final(self).spec_senders() == old(self).spec_senders(),
            final(self).spec_queue() == old(self).spec_queue(),
            final(self).wf() == old(self).wf(),
            last == (final(self).spec_receivers() == 0),
    {
        self.receivers = self.receivers - 1;
        self.receivers == 0
    }

    /// The number of live senders.
    pub fn senders(&self) -> (r: usize)
        ensures
            r == self.spec_senders(),
    {
        self.senders
    }

    /// The number of live receivers.
    pub fn receivers(&self) -> (r: usize)
        ensures
            r == self.spec_receivers(),
    {
        self.receivers
    }

    /// Whether a sender still has a receiver to reach.
    pub fn has_receivers(&self) -> (r: bool)
        ensures
            r == (self.spec_receivers() > 0),
    {
        self.receivers > 0
    }

    /// Whether a receiver can still get values from a sender.
    pub fn has_senders(&self) -> (r: bool)
        ensures
            r == (self.spec_senders() > 0),
    {
        self.senders > 0
    }

    /// The number of queued values.
    pub fn len(&self) -> (r: usize)
        ensures
            r == self.spec_queue()@.len(),
    {
        self.queue.len()
    }

    /// Whether the queue is full.
    pub fn is_full(&self) -> (r: bool)
        ensures
            r == (self.spec_queue()@.len() == self.spec_queue().spec_capacity()),
    {
        self.queue.is_full()
    }

    /// Whether the queue is empty.
    pub fn is_empty(&self) -> (r: bool)
        ensures
            r == (self.spec_queue()@.len() == 0),
    {
        self.queue.is_empty()
    }
}

} // verus!
