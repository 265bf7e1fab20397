use vstd::prelude::*;

verus! {

/// How a value is treated by a bounded policy queue when it is pushed.
#[derive(Debug, Clone, Copy, PartialEq, Eq, Structural)]
pub enum DeliveryPolicy {
    /// Always delivered; the sender waits while the queue is full.
    Always,
    /// Always delivered; when full, the oldest evictable entry makes room.
    Latest,
    /// Skipped silently when the queue is full.
    Optional,
    /// At most one value of this kind is queued: a new one replaces the old.
    Single,
    /// Like `Single`, and skipped silently when the queue is full.
    SingleOptional,
}

/// Values of these policies replace queued values of the same kind.
pub open spec fn spec_is_single(p: DeliveryPolicy) -> bool {
    p == DeliveryPolicy::Single || p == DeliveryPolicy::SingleOptional
}

/// Values of these policies may be dropped under pressure.
pub open spec fn spec_is_optional(p: DeliveryPolicy) -> bool {
    p == DeliveryPolicy::Optional || p == DeliveryPolicy::SingleOptional
}

impl DeliveryPolicy {
    /// True for `Single` and `SingleOptional`.
    pub fn is_single(&self) -> (r: bool)
        ensures
            r == spec_is_single(*self),
    {
        match self {
            DeliveryPolicy::Single | DeliveryPolicy::SingleOptional => true,
            _ => false,
        }
    }

    /// True for `Optional` and `SingleOptional`.
    pub fn is_optional(&self) -> (r: bool)
        ensures
            r == spec_is_optional(*self),
    {
        match self {
            DeliveryPolicy::Optional | DeliveryPolicy::SingleOptional => true,
            _ => false,
        }
    }
}

/// The default priority of a message (lower is served first).
pub const DEFAULT_PRIORITY: usize = 100;

/// What a message carried by a policy deque, a channel or the hub provides:
/// its delivery policy, its priority (lower is better), a kind-equality
/// relation and an expiration predicate.
///
/// Each executable method answers what its specification function states,
/// so the behaviour of the queues is stated over those functions. An
/// implementation must make each method agree with its specification
/// function; the defaults of the latter are `Always`, priority
/// [`DEFAULT_PRIORITY`], one kind for all values, and never expired.
pub trait DataDeliveryPolicy: Sized {
    /// The delivery policy of this value (`Always` unless an implementation
    /// says otherwise).
    open spec fn spec_delivery_policy(&self) -> DeliveryPolicy {
        DeliveryPolicy::Always
    }

    /// The priority of this value ([`DEFAULT_PRIORITY`] unless an
    /// implementation says otherwise).
    open spec fn spec_priority(&self) -> usize {
        DEFAULT_PRIORITY
    }

    /// Whether this value and `other` are of the same kind.
    open spec fn spec_eq_kind(&self, other: &Self) -> bool {
        true
    }

    /// Whether this value has expired (never, unless an implementation says
    /// otherwise).
    open spec fn spec_is_expired(&self) -> bool {
        false
    }

    /// The delivery policy of this value.
    fn delivery_policy(&self) -> (r: DeliveryPolicy)
        ensures
            r == self.spec_delivery_policy(),
    ;

    /// The priority of this value; lower values are delivered first by
    /// ordered queues.
    fn priority(&self) -> (r: usize)
        ensures
            r == self.spec_priority(),
    ;

    /// Whether this value and `other` are of the same kind.
    fn eq_kind(&self, other: &Self) -> (r: bool)
        ensures
            r == self.spec_eq_kind(other),
    ;

    /// Whether this value has expired and must not be delivered.
    fn is_expired(&self) -> (r: bool)
        ensures
            r == self.spec_is_expired(),
    ;
}

} // verus!
