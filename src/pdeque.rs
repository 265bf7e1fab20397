use crate::policy::{spec_is_optional, spec_is_single, DataDeliveryPolicy, DeliveryPolicy};
use std::collections::VecDeque;
use vstd::prelude::*;
use vstd::seq_lib::{to_multiset_build, to_multiset_insert, to_multiset_remove};

verus! {

/// Index of the first element of `s` that satisfies `p`, or `s.len()` if
/// there is none.
pub open spec fn first_index<T>(s: Seq<T>, p: spec_fn(T) -> bool) -> int
    decreases s.len(),
{
    if s.len() == 0 {
        0
    } else if p(s[0]) {
        0
    } else {
        1 + first_index(s.drop_first(), p)
    }
}

/// A scan that stops at `i` finds the first index.
pub proof fn lemma_first_index<T>(s: Seq<T>, p: spec_fn(T) -> bool, i: int)
    requires
        0 <= i <= s.len(),
        forall|j: int| 0 <= j < i ==> !p(#[trigger] s[j]),
        i == s.len() || p(s[i]),
    ensures
        first_index(s, p) == i,
    decreases i,
{
    if i > 0 {
        let t = s.drop_first();
        assert forall|j: int| 0 <= j < i - 1 implies !p(#[trigger] t[j]) by {
            assert(t[j] == s[j + 1]);
        }
        if i < s.len() {
            assert(t[i - 1] == s[i]);
        }
        lemma_first_index(t, p, i - 1);
    }
}

/// Entries that a `Single`-class value `v` leaves in place: those of another
/// kind that have not expired.
pub open spec fn kept_beside<T: DataDeliveryPolicy>(v: T) -> spec_fn(T) -> bool {
    |x: T| !x.spec_eq_kind(&v) && !x.spec_is_expired()
}

/// Entries that may be evicted to make room: expired or optional ones.
pub open spec fn evictable<T: DataDeliveryPolicy>() -> spec_fn(T) -> bool {
    |x: T| x.spec_is_expired() || spec_is_optional(x.spec_delivery_policy())
}

/// Entries that can still be delivered.
pub open spec fn live<T: DataDeliveryPolicy>() -> spec_fn(T) -> bool {
    |x: T| !x.spec_is_expired()
}

/// Entries that an ordered deque places after a value of priority `p`.
pub open spec fn served_after<T: DataDeliveryPolicy>(p: usize) -> spec_fn(T) -> bool {
    |x: T| x.spec_priority() > p
}

/// Inserts `v` after every entry whose priority is not greater than its own.
pub open spec fn insert_by_priority<T: DataDeliveryPolicy>(s: Seq<T>, v: T) -> Seq<T> {
    s.insert(first_index(s, served_after(v.spec_priority())), v)
}

/// The stable sort of `s` by ascending priority (an insertion sort, which
/// keeps entries of equal priority in their order of arrival).
pub open spec fn sorted_by_priority<T: DataDeliveryPolicy>(s: Seq<T>) -> Seq<T>
    decreases s.len(),
{
    if s.len() == 0 {
        s
    } else {
        insert_by_priority(sorted_by_priority(s.drop_last()), s.last())
    }
}

/// What the deque holds after the single-policy cleanup for an incoming `v`.
pub open spec fn cleaned_for<T: DataDeliveryPolicy>(d: Seq<T>, v: T) -> Seq<T> {
    if spec_is_single(v.spec_delivery_policy()) {
        d.filter(kept_beside(v))
    } else {
        d
    }
}

/// `v` appended to `d`, then sorted by priority when the deque is ordered.
pub open spec fn placed<T: DataDeliveryPolicy>(d: Seq<T>, v: T, ordered: bool) -> Seq<T> {
    if ordered {
        sorted_by_priority(d.push(v))
    } else {
        d.push(v)
    }
}

/// The entry that a `Latest` value pushes out of a full deque: the oldest
/// one, or in an ordered deque the one served last.
pub open spec fn without_stalest<T>(d: Seq<T>, ordered: bool) -> Seq<T> {
    if ordered {
        d.drop_last()
    } else {
        d.drop_first()
    }
}

/// The outcome of pushing `v` into a deque holding `d`: whether the value
/// was stored, whether it is handed back to the caller, and the new content.
pub open spec fn push_outcome<T: DataDeliveryPolicy>(
    d: Seq<T>,
    capacity: nat,
    ordered: bool,
    v: T,
) -> (bool, bool, Seq<T>) {
    let d1 = cleaned_for(d, v);
    let policy = v.spec_delivery_policy();
    if v.spec_is_expired() {
        (true, false, d)
    } else if d1.len() < capacity {
        (true, false, placed(d1, v, ordered))
    } else if spec_is_optional(policy) {
        (false, false, d1)
    } else if policy == DeliveryPolicy::Latest {
        (true, false, placed(without_stalest(d1, ordered), v, ordered))
    } else {
        let k = first_index(d1, evictable());
        if k < d1.len() {
            (true, false, placed(d1.remove(k), v, ordered))
        } else {
            (false, true, d1)
        }
    }
}

/// Sorting by priority keeps the length.
pub proof fn lemma_sorted_len<T: DataDeliveryPolicy>(s: Seq<T>)
    ensures
        sorted_by_priority(s).len() == s.len(),
    decreases s.len(),
{
    if s.len() > 0 {
        let r = sorted_by_priority(s.drop_last());
        lemma_sorted_len(s.drop_last());
        lemma_first_index_bound(r, served_after(s.last().spec_priority()));
    }
}

/// The first index lies within the sequence, or just past it.
pub proof fn lemma_first_index_bound<T>(s: Seq<T>, p: spec_fn(T) -> bool)
    ensures
        0 <= first_index(s, p) <= s.len(),
    decreases s.len(),
{
    if s.len() > 0 {
        lemma_first_index_bound(s.drop_first(), p);
    }
}

/// Sorting by priority keeps the same entries.
pub proof fn lemma_sorted_multiset<T: DataDeliveryPolicy>(s: Seq<T>)
    ensures
        sorted_by_priority(s).to_multiset() == s.to_multiset(),
    decreases s.len(),
{
    if s.len() > 0 {
        let r = sorted_by_priority(s.drop_last());
        let k = first_index(r, served_after(s.last().spec_priority()));
        lemma_sorted_multiset(s.drop_last());
        lemma_sorted_len(s.drop_last());
        lemma_first_index_bound(r, served_after(s.last().spec_priority()));
        to_multiset_insert(r, k, s.last());
        to_multiset_build(s.drop_last(), s.last());
        assert(s.drop_last().push(s.last()) =~= s);
    }
}

/// Priorities ascend along `s`.
pub open spec fn priorities_ascend<T: DataDeliveryPolicy>(s: Seq<T>) -> bool {
    forall|a: int, b: int| 0 <= a < b < s.len() ==> s[a].spec_priority() <= s[b].spec_priority()
}

/// Entries before the first index fail the predicate.
pub proof fn lemma_before_first_index<T>(s: Seq<T>, p: spec_fn(T) -> bool, j: int)
    requires
        0 <= j < first_index(s, p),
        first_index(s, p) <= s.len(),
    ensures
        !p(s[j]),
    decreases j,
{
    if j > 0 {
        let t = s.drop_first();
        lemma_first_index_bound(t, p);
        lemma_before_first_index(t, p, j - 1);
        assert(t[j - 1] == s[j]);
    }
}

/// The first index, when inside the sequence, satisfies the predicate.
pub proof fn lemma_first_index_hit<T>(s: Seq<T>, p: spec_fn(T) -> bool)
    requires
        first_index(s, p) < s.len(),
    ensures
        p(s[first_index(s, p)]),
    decreases s.len(),
{
    if s.len() > 0 && !p(s[0]) {
        let t = s.drop_first();
        lemma_first_index_hit(t, p);
        lemma_first_index_bound(t, p);
        assert(t[first_index(t, p)] == s[1 + first_index(t, p)]);
    }
}

/// An ordered deque is sorted by ascending priority, so the value taken
/// first is one of the best priority.
pub proof fn lemma_sorted_ascends<T: DataDeliveryPolicy>(s: Seq<T>)
    ensures
        priorities_ascend(sorted_by_priority(s)),
    decreases s.len(),
{
    if s.len() > 0 {
        let r = sorted_by_priority(s.drop_last());
        let v = s.last();
        let f = served_after::<T>(v.spec_priority());
        let k = first_index(r, f);
        lemma_sorted_ascends(s.drop_last());
        lemma_first_index_bound(r, f);
        let t = r.insert(k, v);
        assert forall|a: int, b: int| 0 <= a < b < t.len() implies t[a].spec_priority()
            <= t[b].spec_priority() by {
            if a < k {
                lemma_before_first_index(r, f, a);
                assert(t[a] == r[a]);
            }
            if b > k {
                assert(t[b] == r[b - 1]);
                if k < r.len() {
                    lemma_first_index_hit(r, f);
                    if b - 1 > k {
                        assert(r[k].spec_priority() <= r[b - 1].spec_priority());
                    }
                }
            }
            if a > k {
                assert(t[a] == r[a - 1]);
            }
            if b < k {
                assert(t[b] == r[b]);
            }
        }
    }
}

/// After a value is stored in an ordered deque, the content ascends by
/// priority.
pub proof fn lemma_ordered_push_ascends<T: DataDeliveryPolicy>(d: Seq<T>, capacity: nat, v: T)
    requires
        capacity > 0,
    ensures
        ({
            let (pushed, back, out) = push_outcome(d, capacity, true, v);
            pushed && !v.spec_is_expired() ==> priorities_ascend(out)
        }),
{
    let d1 = cleaned_for(d, v);
    lemma_sorted_ascends(d1.push(v));
    if d1.len() > 0 {
        lemma_sorted_ascends(d1.drop_last().push(v));
    }
    let k = first_index(d1, evictable());
    lemma_first_index_bound(d1, evictable::<T>());
    if k < d1.len() {
        lemma_sorted_ascends(d1.remove(k).push(v));
    }
}

/// Placing a value adds exactly that value to the entries.
pub proof fn lemma_placed_multiset<T: DataDeliveryPolicy>(d: Seq<T>, v: T, ordered: bool)
    ensures
        placed(d, v, ordered).to_multiset() == d.to_multiset().insert(v),
        placed(d, v, ordered).len() == d.len() + 1,
{
    to_multiset_build(d, v);
    lemma_sorted_multiset(d.push(v));
    lemma_sorted_len(d.push(v));
}

/// Every entry left by the single-policy cleanup differs in kind from `v`.
proof fn lemma_cleaned_other_kind<T: DataDeliveryPolicy>(d: Seq<T>, v: T, x: T)
    requires
        spec_is_single(v.spec_delivery_policy()),
        cleaned_for(d, v).to_multiset().count(x) > 0,
    ensures
        !x.spec_eq_kind(&v),
{
    let f = d.filter(kept_beside(v));
    f.to_multiset_ensures();
    let i = f.lemma_contains_to_index(x);
    d.lemma_filter_pred(kept_beside(v), i);
}

/// A `Single`-class value that gets stored is afterwards the only entry of
/// its kind; one that does not get stored leaves no entry of its kind.
pub proof fn lemma_single_coalesces<T: DataDeliveryPolicy>(
    d: Seq<T>,
    capacity: nat,
    ordered: bool,
    v: T,
)
    requires
        spec_is_single(v.spec_delivery_policy()),
        !v.spec_is_expired(),
        v.spec_eq_kind(&v),
        d.len() <= capacity,
        capacity > 0,
    ensures
        ({
            let (pushed, back, out) = push_outcome(d, capacity, ordered, v);
            &&& out.to_multiset().count(v) == (if pushed { 1nat } else { 0nat })
            &&& forall|x: T|
                #![trigger out.to_multiset().count(x)]
                out.to_multiset().count(x) > 0 && x.spec_eq_kind(&v) ==> x == v
        }),
{
    let d1 = cleaned_for(d, v);
    let (pushed, back, out) = push_outcome(d, capacity, ordered, v);
    if d1.to_multiset().count(v) > 0 {
        lemma_cleaned_other_kind(d, v, v);
    }
    assert forall|x: T| #![trigger d1.to_multiset().count(x)]
        d1.to_multiset().count(x) > 0 implies !x.spec_eq_kind(&v) by {
        lemma_cleaned_other_kind(d, v, x);
    }
    if d1.len() < capacity {
        lemma_placed_multiset(d1, v, ordered);
    } else if spec_is_optional(v.spec_delivery_policy()) {
    } else {
        let k = first_index(d1, evictable());
        lemma_first_index_bound(d1, evictable::<T>());
        if k < d1.len() {
            to_multiset_remove(d1, k);
            lemma_placed_multiset(d1.remove(k), v, ordered);
            assert forall|x: T| #![trigger out.to_multiset().count(x)]
                out.to_multiset().count(x) > 0 && x.spec_eq_kind(&v) implies x == v by {
                if x != v {
                    assert(d1.to_multiset().count(x) > 0);
                }
            }
        }
    }
}

/// An optional value never displaces anything: pushed into a full deque it
/// is skipped and the content stays as it was.
pub proof fn lemma_optional_skipped_when_full<T: DataDeliveryPolicy>(
    d: Seq<T>,
    capacity: nat,
    ordered: bool,
    v: T,
)
    requires
        v.spec_delivery_policy() == DeliveryPolicy::Optional,
        !v.spec_is_expired(),
        d.len() == capacity,
    ensures
        push_outcome(d, capacity, ordered, v) == (false, false, d),
{
}

/// A value of the `Always` policy pushed into a full deque that holds an
/// optional or expired entry is stored in place of the first such entry.
pub proof fn lemma_always_evicts_optional<T: DataDeliveryPolicy>(
    d: Seq<T>,
    capacity: nat,
    ordered: bool,
    v: T,
    i: int,
)
    requires
        v.spec_delivery_policy() == DeliveryPolicy::Always,
        !v.spec_is_expired(),
        d.len() == capacity,
        0 <= i < d.len(),
        (evictable::<T>())(d[i]),
    ensures
        ({
            let k = first_index(d, evictable());
            let (pushed, back, out) = push_outcome(d, capacity, ordered, v);
            &&& pushed && !back
            &&& k <= i
            &&& (evictable::<T>())(d[k])
            &&& out.to_multiset() == d.to_multiset().remove(d[k]).insert(v)
            &&& out.len() == capacity
        }),
{
    let k = first_index(d, evictable());
    lemma_first_index_bound(d, evictable::<T>());
    lemma_first_index_finds(d, evictable::<T>(), i);
    to_multiset_remove(d, k);
    lemma_placed_multiset(d.remove(k), v, ordered);
}

/// The first index is no later than any satisfying index, and satisfies.
pub proof fn lemma_first_index_finds<T>(s: Seq<T>, p: spec_fn(T) -> bool, i: int)
    requires
        0 <= i < s.len(),
        p(s[i]),
    ensures
        first_index(s, p) <= i,
        p(s[first_index(s, p)]),
    decreases i,
{
    if !p(s[0]) {
        let t = s.drop_first();
        assert(t[i - 1] == s[i]);
        lemma_first_index_finds(t, p, i - 1);
        let j = first_index(t, p);
        lemma_first_index_bound(t, p);
        assert(first_index(s, p) == 1 + j);
        assert(t[j] == s[1 + j]);
    }
}

/// A bounded deque that stores values with respect to their delivery
/// policy, optionally ordered by priority.
#[derive(Clone, Debug)]
pub struct Deque<T: DataDeliveryPolicy> {
    data: VecDeque<T>,
    capacity: usize,
    ordered: bool,
}

/// The result of [`Deque::try_push`].
pub struct TryPushOutput<T> {
    /// Whether the value has been stored (an expired value counts as stored).
    pub pushed: bool,
    /// The value, handed back when it could not be stored and may not be
    /// dropped.
    pub value: Option<T>,
}

impl<T: DataDeliveryPolicy> View for Deque<T> {
    type V = Seq<T>;

    closed spec fn view(&self) -> Seq<T> {
        self.data@
    }
}

impl<T: DataDeliveryPolicy> Deque<T> {
    /// The number of values the deque can hold.
    pub closed spec fn spec_capacity(&self) -> nat {
        self.capacity as nat
    }

    /// Whether values are kept sorted by priority.
    pub closed spec fn spec_ordered(&self) -> bool {
        self.ordered
    }

    /// The deque holds no more than its capacity, which is positive.
    pub closed spec fn wf(&self) -> bool {
        &&& self.capacity > 0
        &&& self.data@.len() <= self.capacity
    }

    /// Creates an empty, unordered deque of the given capacity.
    pub fn bounded(capacity: usize) -> (r: Self)
        requires
            capacity > 0,
        ensures
            r.wf(),
            r@ == Seq::<T>::empty(),
            r.spec_capacity() == capacity,
            !r.spec_ordered(),
    {
        Deque { data: VecDeque::with_capacity(capacity), capacity, ordered: false }
    }

    /// Enables or disables priority ordering; usable as a builder step.
    pub fn set_ordering(self, v: bool) -> (r: Self)
        requires
            self.wf(),
        ensures
            r.wf(),
            r@ == self@,
            r.spec_capacity() == self.spec_capacity(),
            r.spec_ordered() == v,
    {
        let mut d = self;
        d.ordered = v;
        d
    }

    /// Appends the value and restores the priority order if the deque is
    /// ordered.
    fn place(&mut self, value: T)
        requires
            old(self).data@.len() < old(self).capacity,
            old(self).capacity > 0,
        ensures
            final(self).wf(),
            final(self)@ == placed(old(self)@, value, old(self).ordered),
            final(self).capacity == old(self).capacity,
            final(self).ordered == old(self).ordered,
    {
        self.data.push_back(value);
        if self.ordered {
            sort_by_priority(&mut self.data);
        }
        proof {
            lemma_sorted_len(old(self)@.push(value));
        }
    }

    /// Tries to store the value, applying the delivery policy rules.
    ///
    /// An expired value is dropped and reported as stored. A `Single`-class
    /// value first removes every queued value of its kind and every expired
    /// one. When the deque is full, an optional value is skipped; a `Latest`
    /// value pushes out the stalest entry; any other value evicts the first
    /// expired or optional entry, and is handed back if there is none.
    pub fn try_push(&mut self, value: T) -> (r: TryPushOutput<T>)
        requires
            old(self).wf(),
        ensures
            final(self).wf(),
            final(self).spec_capacity() == old(self).spec_capacity(),
            final(self).spec_ordered() == old(self).spec_ordered(),
            ({
                let (pushed, back, data) = push_outcome(
                    old(self)@,
                    old(self).spec_capacity(),
                    old(self).spec_ordered(),
                    value,
                );
                &&& r.pushed == pushed
                &&& r.value == (if back { Some(value) } else { None::<T> })
                &&& final(self)@ == data
            }),
    {
        if value.is_expired() {
            return TryPushOutput { pushed: true, value: None };
        }
        let policy = value.delivery_policy();
        if policy.is_single() {
            retain_for_single(&mut self.data, &value);
            proof {
                old(self)@.lemma_filter_len(kept_beside(value));
            }
        }
        let ghost d1 = self.data@;
        if self.data.len() < self.capacity {
            self.place(value);
            return TryPushOutput { pushed: true, value: None };
        }
        if policy.is_optional() {
            return TryPushOutput { pushed: false, value: None };
        }
        if policy == DeliveryPolicy::Latest {
            if self.ordered {
                self.data.pop_back();
            } else {
                self.data.pop_front();
            }
            self.place(value);
            return TryPushOutput { pushed: true, value: None };
        }
        let n = self.data.len();
        let mut k: usize = 0;
        while k < n && !(self.data[k].is_expired() || self.data[k].delivery_policy().is_optional())
            invariant
                n == self.data@.len(),
                self.data@ == d1,
                k <= n,
                forall|j: int| 0 <= j < k ==> !(evictable::<T>())(#[trigger] d1[j]),
            decreases n - k,
        {
            k += 1;
        }
        proof {
            lemma_first_index(d1, evictable::<T>(), k as int);
        }
        if k < n {
            self.data.remove(k);
            self.place(value);
            TryPushOutput { pushed: true, value: None }
        } else {
            TryPushOutput { pushed: false, value: Some(value) }
        }
    }

    /// Takes the first value that has not expired, dropping the expired ones
    /// in front of it.
    pub fn get(&mut self) -> (r: Option<T>)
        requires
            old(self).wf(),
        ensures
            final(self).wf(),
            final(self).spec_capacity() == old(self).spec_capacity(),
            final(self).spec_ordered() == old(self).spec_ordered(),
            ({
                let d = old(self)@;
                let k = first_index(d, live());
                &&& k == d.len() ==> r.is_none() && final(self)@ == Seq::<T>::empty()
                &&& k < d.len() ==> r == Some(d[k]) && final(self)@ == d.subrange(k + 1, d.len() as int)
            }),
    {
        let ghost d = self.data@;
        let n = self.data.len();
        let mut i: usize = 0;
        while i < n
            invariant
                n == d.len(),
                d == old(self)@,
                i <= n,
                self.data@ == d.subrange(i as int, n as int),
                self.capacity == old(self).capacity,
                self.ordered == old(self).ordered,
                self.capacity > 0,
                d.len() <= self.capacity,
                forall|j: int| 0 <= j < i ==> !(live::<T>())(#[trigger] d[j]),
            decreases n - i,
        {
            let v = self.data.pop_front();
            match v {
                Some(x) => {
                    if !x.is_expired() {
                        proof {
                            assert(x == d[i as int]);
                            lemma_first_index(d, live::<T>(), i as int);
                            assert(self.data@ =~= d.subrange(i + 1, n as int));
                        }
                        return Some(x);
                    }
                },
                None => {},
            }
            proof {
                assert(self.data@ =~= d.subrange(i + 1, n as int));
            }
            i += 1;
        }
        proof {
            lemma_first_index(d, live::<T>(), i as int);
            assert(self.data@ =~= Seq::<T>::empty());
        }
        None
    }

    /// Removes every value.
    pub fn clear(&mut self)
        requires
            old(self).wf(),
        ensures
            final(self).wf(),
            final(self)@ == Seq::<T>::empty(),
            final(self).spec_capacity() == old(self).spec_capacity(),
            final(self).spec_ordered() == old(self).spec_ordered(),
    {
        self.data.clear();
    }

    /// The number of values held.
    pub fn len(&self) -> (r: usize)
        ensures
            r == self@.len(),
    {
        self.data.len()
    }

    /// Whether the deque holds as many values as its capacity.
    pub fn is_full(&self) -> (r: bool)
        ensures
            r == (self@.len() == self.spec_capacity()),
    {
        self.data.len() == self.capacity
    }

    /// Whether the deque holds no value.
    pub fn is_empty(&self) -> (r: bool)
        ensures
            r == (self@.len() == 0),
    {
        self.data.len() == 0
    }
}

/// Removes the entries of `value`'s kind and the expired ones.
fn retain_for_single<T: DataDeliveryPolicy>(data: &mut VecDeque<T>, value: &T)
    ensures
        final(data)@ == old(data)@.filter(kept_beside(*value)),
{
    let ghost orig = data@;
    let n = data.len();
    let mut kept: VecDeque<T> = VecDeque::with_capacity(n);
    let mut i: usize = 0;
    while i < n
        invariant
            n == orig.len(),
            i <= n,
            data@ == orig.subrange(i as int, n as int),
            kept@ == orig.subrange(0, i as int).filter(kept_beside(*value)),
        decreases n - i,
    {
        let x = data.pop_front().unwrap();
        proof {
            assert(orig.subrange(0, i + 1) =~= orig.subrange(0, i as int).push(x));
            orig.subrange(0, i as int).lemma_filter_push(x, kept_beside(*value));
        }
        if !x.eq_kind(value) && !x.is_expired() {
            kept.push_back(x);
        }
        i += 1;
    }
    proof {
        assert(orig.subrange(0, n as int) =~= orig);
    }
    *data = kept;
}

/// Sorts the entries by ascending priority, keeping the order of arrival
/// among entries of equal priority.
pub fn sort_by_priority<T: DataDeliveryPolicy>(v: &mut VecDeque<T>)
    ensures
        final(v)@ == sorted_by_priority(old(v)@),
{
    let ghost orig = v@;
    let n = v.len();
    let mut out: VecDeque<T> = VecDeque::with_capacity(n);
    let mut i: usize = 0;
    while i < n
        invariant
            n == orig.len(),
            i <= n,
            v@ == orig.subrange(i as int, n as int),
            out@ == sorted_by_priority(orig.subrange(0, i as int)),
        decreases n - i,
    {
        let x = v.pop_front().unwrap();
        let p = x.priority();
        proof {
            lemma_sorted_len(orig.subrange(0, i as int));
        }
        let m = out.len();
        let mut k: usize = 0;
        while k < m && out[k].priority() <= p
            invariant
                m == out@.len(),
                k <= m,
                forall|j: int| 0 <= j < k ==> !(served_after::<T>(p))(#[trigger] out@[j]),
            decreases m - k,
        {
            k += 1;
        }
        proof {
            lemma_first_index(out@, served_after::<T>(p), k as int);
            assert(orig.subrange(0, i + 1).drop_last() =~= orig.subrange(0, i as int));
            assert(orig.subrange(0, i + 1).last() == x);
        }
        out.insert(k, x);
        i += 1;
    }
    proof {
        assert(orig.subrange(0, n as int) =~= orig);
    }
    *v = out;
}

} // verus!
