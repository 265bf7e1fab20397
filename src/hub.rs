use crate::error::Error;
use crate::pdeque::{first_index, lemma_first_index};
use vstd::prelude::*;

verus! {

/// The priority a subscription gets unless another one is given.
pub const DEFAULT_PRIORITY: usize = 100;

/// The capacity of a subscriber's channel unless another one is given.
pub const DEFAULT_CHANNEL_CAPACITY: usize = 1024;

/// A hub entry: the subscriber's name, its priority (lower is served
/// first) and its endpoint, which carries the sending side of the
/// subscriber's channel and its message filter.
pub struct Subscription<S> {
    pub name: String,
    pub priority: usize,
    pub sink: S,
}

/// One delivery of a dispatch: the subscription it goes to, and whether
/// the message itself is moved there (true for the last delivery only) or
/// a clone is sent.
#[derive(Debug, Clone, Copy, PartialEq, Eq, Structural)]
pub struct Delivery {
    pub index: usize,
    pub by_move: bool,
}

/// The indices at which `m` holds true, in ascending order.
pub open spec fn matched(m: Seq<bool>) -> Seq<int>
    decreases m.len(),
{
    if m.len() == 0 {
        Seq::empty()
    } else if m.last() {
        matched(m.drop_last()).push(m.len() - 1)
    } else {
        matched(m.drop_last())
    }
}

/// The deliveries of one message to the subscriptions whose filters match
/// (`m[i]` for the `i`-th subscription): one per match, in the order of the
/// subscriptions, a clone for each but the last, which gets the message.
pub open spec fn planned(m: Seq<bool>) -> Seq<Delivery> {
    let t = matched(m);
    Seq::new(t.len(), |j: int| Delivery { index: t[j] as usize, by_move: j == t.len() - 1 })
}

/// The number of clones a dispatch makes.
pub open spec fn clones(p: Seq<Delivery>) -> nat {
    p.filter(|d: Delivery| !d.by_move).len()
}

/// The matched indices are valid, ascending, and exactly the true ones.
pub proof fn lemma_matched(m: Seq<bool>)
    ensures
        forall|j: int| 0 <= j < matched(m).len() ==> 0 <= #[trigger] matched(m)[j] < m.len(),
        forall|j: int| 0 <= j < matched(m).len() ==> m[#[trigger] matched(m)[j]],
        forall|a: int, b: int|
            0 <= a < b < matched(m).len() ==> #[trigger] matched(m)[a] < #[trigger] matched(m)[b],
        matched(m).len() <= m.len(),
    decreases m.len(),
{
    if m.len() > 0 {
        lemma_matched(m.drop_last());
        let t = matched(m.drop_last());
        assert forall|j: int| 0 <= j < t.len() implies m[#[trigger] t[j]] by {
            assert(m.drop_last()[t[j]] == m[t[j]]);
        }
    }
}

/// Every matching subscription gets exactly one delivery, and the message
/// is cloned once for each matching subscription but the last.
pub proof fn lemma_fan_out_count(m: Seq<bool>)
    ensures
        planned(m).len() == matched(m).len(),
        matched(m).len() > 0 ==> clones(planned(m)) == matched(m).len() - 1,
        matched(m).len() == 0 ==> clones(planned(m)) == 0,
{
    let p = planned(m);
    let f = |d: Delivery| !d.by_move;
    if p.len() > 0 {
        let q = p.drop_last();
        lemma_filter_all(q, f);
        assert(q.push(p.last()) =~= p);
        q.lemma_filter_push(p.last(), f);
    } else {
        lemma_filter_all(p, f);
    }
}

/// Filtering by a predicate that every element meets keeps everything.
proof fn lemma_filter_all<A>(s: Seq<A>, f: spec_fn(A) -> bool)
    requires
        forall|i: int| 0 <= i < s.len() ==> f(#[trigger] s[i]),
    ensures
        s.filter(f) == s,
    decreases s.len(),
{
    if s.len() > 0 {
        let q = s.drop_last();
        lemma_filter_all(q, f);
        assert(q.push(s.last()) =~= s);
        q.lemma_filter_push(s.last(), f);
    } else {
        reveal(Seq::filter);
    }
}

/// Priorities in ascending order.
pub open spec fn sorted_priorities<S>(s: Seq<Subscription<S>>) -> bool {
    forall|a: int, b: int| 0 <= a < b < s.len() ==> s[a].priority <= s[b].priority
}

/// No two subscriptions share a name.
pub open spec fn unique_names<S>(s: Seq<Subscription<S>>) -> bool {
    forall|a: int, b: int| 0 <= a < s.len() && 0 <= b < s.len() && a != b ==> s[a].name@ != s[b].name@
}

/// Whether some subscription has the given name.
pub open spec fn has_name<S>(s: Seq<Subscription<S>>, name: Seq<char>) -> bool {
    exists|i: int| 0 <= i < s.len() && s[i].name@ == name
}

/// The position of the first subscription served after priority `p`.
pub open spec fn insert_position<S>(s: Seq<Subscription<S>>, p: usize) -> int {
    first_index(s, |x: Subscription<S>| x.priority > p)
}

/// In a hub whose subscriptions are sorted by priority, the deliveries of
/// one message reach the subscribers in ascending order of priority.
pub proof fn lemma_dispatch_in_priority_order<S>(s: Seq<Subscription<S>>, m: Seq<bool>)
    requires
        sorted_priorities(s),
        m.len() == s.len(),
        s.len() <= usize::MAX,
    ensures
        forall|a: int, b: int|
            0 <= a < b < planned(m).len() ==> (s[planned(m)[a].index as int].priority <= s[planned(
                m,
            )[b].index as int].priority),
{
    lemma_matched(m);
    let t = matched(m);
    assert forall|a: int, b: int| 0 <= a < b < planned(m).len() implies (s[planned(
        m,
    )[a].index as int].priority <= s[planned(m)[b].index as int].priority) by {
        assert(t[a] < t[b]);
        assert(0 <= t[a] < m.len());
        assert(0 <= t[b] < m.len());
        assert(planned(m)[a].index as int == t[a]);
        assert(planned(m)[b].index as int == t[b]);
        assert(s[t[a]].priority <= s[t[b]].priority);
    }
}

/// Computes the deliveries of a message from which subscriptions match it
/// (see [`planned`]).
pub fn plan_dispatch(matches: &Vec<bool>) -> (r: Vec<Delivery>)
    ensures
        r@ == planned(matches@),
{
    let ghost m = matches@;
    let n = matches.len();
    let mut idx: Vec<usize> = Vec::new();
    let mut i: usize = 0;
    while i < n
        invariant
            n == m.len(),
            m == matches@,
            i <= n,
            idx@.len() == matched(m.subrange(0, i as int)).len(),
            forall|j: int|
                0 <= j < idx@.len() ==> idx@[j] as int == #[trigger] matched(
                    m.subrange(0, i as int),
                )[j],
        decreases n - i,
    {
        proof {
            assert(m.subrange(0, i + 1).drop_last() =~= m.subrange(0, i as int));
            lemma_matched(m.subrange(0, i as int));
        }
        if matches[i] {
            idx.push(i);
        }
        i += 1;
    }
    proof {
        assert(m.subrange(0, n as int) =~= m);
    }
    let k = idx.len();
    let mut r: Vec<Delivery> = Vec::new();
    let mut j: usize = 0;
    while j < k
        invariant
            k == idx@.len(),
            k == matched(m).len(),
            j <= k,
            r@.len() == j,
            forall|a: int| 0 <= a < k ==> idx@[a] as int == #[trigger] matched(m)[a],
            forall|a: int| 0 <= a < j ==> #[trigger] r@[a] == planned(m)[a],
        decreases k - j,
    {
        r.push(Delivery { index: idx[j], by_move: j + 1 == k });
        j += 1;
    }
    proof {
        assert(r@ =~= planned(m));
    }
    r
}

/// The subscriptions of a hub, sorted by priority, with unique names.
pub struct HubInner<S> {
    default_channel_capacity: usize,
    subscriptions: Vec<Subscription<S>>,
}

impl<S> HubInner<S> {
    /// The subscriptions in dispatch order.
    pub closed spec fn spec_subscriptions(&self) -> Seq<Subscription<S>> {
        self.subscriptions@
    }

    /// The channel capacity of a subscription that names none.
    pub closed spec fn spec_default_capacity(&self) -> usize {
        self.default_channel_capacity
    }

    /// Subscriptions are sorted by priority and their names are unique.
    pub open spec fn wf(&self) -> bool {
        &&& sorted_priorities(self.spec_subscriptions())
        &&& unique_names(self.spec_subscriptions())
    }

    /// A hub with no subscription and the default channel capacity.
    pub fn new() -> (r: Self)
        ensures
            r.wf(),
            r.spec_subscriptions() == Seq::<Subscription<S>>::empty(),
            r.spec_default_capacity() == DEFAULT_CHANNEL_CAPACITY,
    {
        HubInner { default_channel_capacity: DEFAULT_CHANNEL_CAPACITY, subscriptions: Vec::new() }
    }

    /// Sets the channel capacity of subscriptions that name none.
    pub fn set_default_channel_capacity(&mut self, capacity: usize)
        ensures
            final(self).spec_default_capacity() == capacity,
            final(self).spec_subscriptions() == old(self).spec_subscriptions(),
    {
        self.default_channel_capacity = capacity;
    }

    /// The channel capacity for a new subscription: the requested one, or
    /// the default.
    pub fn channel_capacity(&self, requested: Option<usize>) -> (r: usize)
        ensures
            r == (match requested {
                Some(c) => c,
                None => self.spec_default_capacity(),
            }),
    {
        match requested {
            Some(c) => c,
            None => self.default_channel_capacity,
        }
    }

    /// The subscriptions in dispatch order.
    pub fn subscriptions(&self) -> (r: &Vec<Subscription<S>>)
        ensures
            r@ == self.spec_subscriptions(),
    {
        &self.subscriptions
    }

    /// Whether a subscription has this name.
    pub fn contains(&self, name: &String) -> (r: bool)
        ensures
            r == has_name(self.spec_subscriptions(), name@),
    {
        let n = self.subscriptions.len();
        let mut i: usize = 0;
        while i < n
            invariant
                n == self.subscriptions@.len(),
                i <= n,
                forall|j: int| 0 <= j < i ==> (#[trigger] self.subscriptions@[j]).name@ != name@,
            decreases n - i,
        {
            if self.subscriptions[i].name == *name {
                return true;
            }
            i += 1;
        }
        false
    }

    /// Adds a subscription after every one of the same or a better
    /// priority. Fails if the name is taken.
    pub fn register(&mut self, sub: Subscription<S>) -> (r: Result<(), Error>)
        requires
            old(self).wf(),
        ensures
            final(self).wf(),
            final(self).spec_default_capacity() == old(self).spec_default_capacity(),
            has_name(old(self).spec_subscriptions(), sub.name@) ==> r == Err::<(), Error>(
                Error::HubAlreadyRegistered(sub.name),
            ) && final(self).spec_subscriptions() == old(self).spec_subscriptions(),
            !has_name(old(self).spec_subscriptions(), sub.name@) ==> r is Ok
                && final(self).spec_subscriptions() == old(self).spec_subscriptions().insert(
                insert_position(old(self).spec_subscriptions(), sub.priority),
                sub,
            ),
    {
        if self.contains(&sub.name) {
            return Err(Error::HubAlreadyRegistered(sub.name));
        }
        let ghost s = self.subscriptions@;
        let ghost after = |x: Subscription<S>| x.priority > sub.priority;
        let n = self.subscriptions.len();
        let mut k: usize = 0;
        while k < n && self.subscriptions[k].priority <= sub.priority
            invariant
                n == self.subscriptions@.len(),
                s == self.subscriptions@,
                k <= n,
                forall|j: int| 0 <= j < k ==> (#[trigger] s[j]).priority <= sub.priority,
            decreases n - k,
        {
            k += 1;
        }
        proof {
            assert forall|j: int| 0 <= j < k implies !after(#[trigger] s[j]) by {}
            lemma_first_index(s, after, k as int);
            assert(insert_position(s, sub.priority) == k);
        }
        self.subscriptions.insert(k, sub);
        proof {
            let t = self.subscriptions@;
            assert forall|a: int, b: int| 0 <= a < b < t.len() implies t[a].priority
                <= t[b].priority by {
                if k < n {
                    assert(s[k as int].priority > sub.priority);
                }
            }
            assert forall|a: int, b: int|
                0 <= a < t.len() && 0 <= b < t.len() && a != b implies t[a].name@
                != t[b].name@ by {
                if a == k {
                    if b < k {
                        assert(t[b] == s[b]);
                    } else {
                        assert(t[b] == s[b - 1]);
                    }
                } else if b == k {
                    if a < k {
                        assert(t[a] == s[a]);
                    } else {
                        assert(t[a] == s[a - 1]);
                    }
                }
            }
        }
        Ok(())
    }

    /// Removes the subscription of this name, if there is one.
    pub fn unregister(&mut self, name: &String)
        requires
            old(self).wf(),
        ensures
            final(self).wf(),
            final(self).spec_default_capacity() == old(self).spec_default_capacity(),
            !has_name(old(self).spec_subscriptions(), name@) ==> final(self).spec_subscriptions()
                == old(self).spec_subscriptions(),
            has_name(old(self).spec_subscriptions(), name@) ==> exists|i: int|
                0 <= i < old(self).spec_subscriptions().len()
                    && old(self).spec_subscriptions()[i].name@ == name@
                    && final(self).spec_subscriptions() == old(self).spec_subscriptions().remove(i),
            !has_name(final(self).spec_subscriptions(), name@),
    {
        let ghost s = self.subscriptions@;
        let n = self.subscriptions.len();
        let mut i: usize = 0;
        while i < n
            invariant
                n == self.subscriptions@.len(),
                s == self.subscriptions@,
                s == old(self).subscriptions@,
                self.default_channel_capacity == old(self).default_channel_capacity,
                sorted_priorities(s),
                unique_names(s),
                i <= n,
                forall|j: int| 0 <= j < i ==> (#[trigger] s[j]).name@ != name@,
            decreases n - i,
        {
            if self.subscriptions[i].name == *name {
                self.subscriptions.remove(i);
                proof {
                    let t = self.subscriptions@;
                    assert forall|a: int, b: int| 0 <= a < b < t.len() implies t[a].priority
                        <= t[b].priority by {
                        let a0 = if a < i { a } else { a + 1 };
                        let b0 = if b < i { b } else { b + 1 };
                        assert(t[a] == s[a0]);
                        assert(t[b] == s[b0]);
                    }
                    assert forall|a: int, b: int|
                        0 <= a < t.len() && 0 <= b < t.len() && a != b implies t[a].name@
                        != t[b].name@ by {
                        let a0 = if a < i { a } else { a + 1 };
                        let b0 = if b < i { b } else { b + 1 };
                        assert(t[a] == s[a0]);
                        assert(t[b] == s[b0]);
                    }
                    if has_name(t, name@) {
                        let j = choose|j: int| 0 <= j < t.len() && t[j].name@ == name@;
                        let j0 = if j < i { j } else { j + 1 };
                        assert(t[j] == s[j0]);
                    }
                }
                return;
            }
            i += 1;
        }
    }
}

} // verus!
