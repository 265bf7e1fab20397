use vstd::prelude::*;

verus! {

/// Nanoseconds from `from` to `to` on a monotonic clock, zero if `to` is
/// earlier.
pub open spec fn elapsed(from: u64, to: u64) -> int {
    if to >= from {
        to - from
    } else {
        0
    }
}

/// The distance between two instants.
pub open spec fn abs_diff(a: u64, b: u64) -> int {
    if a >= b {
        a - b
    } else {
        b - a
    }
}

/// A cell whose value is only seen within a time to live after it was
/// set. Times are nanoseconds on a monotonic clock, given by the caller.
pub struct TtlCell<T> {
    value: Option<T>,
    ttl: u64,
    set_at: u64,
}

impl<T> TtlCell<T> {
    pub closed spec fn spec_value(&self) -> Option<T> {
        self.value
    }

    pub closed spec fn spec_ttl(&self) -> u64 {
        self.ttl
    }

    pub closed spec fn spec_set_at(&self) -> u64 {
        self.set_at
    }

    /// Whether the cell shows nothing at time `now`: it is empty, or its
    /// value is older than the time to live.
    pub open spec fn spec_expired(&self, now: u64) -> bool {
        elapsed(self.spec_set_at(), now) > self.spec_ttl() || self.spec_value() is None
    }

    /// An empty cell.
    pub fn new(ttl: u64, now: u64) -> (r: Self)
        ensures
            r.spec_value() is None,
            r.spec_ttl() == ttl,
            r.spec_set_at() == now,
    {
        TtlCell { value: None, ttl, set_at: now }
    }

    /// A cell holding `value`, set at `now`.
    pub fn new_with_value(ttl: u64, value: T, now: u64) -> (r: Self)
        ensures
            r.spec_value() == Some(value),
            r.spec_ttl() == ttl,
            r.spec_set_at() == now,
    {
        TtlCell { value: Some(value), ttl, set_at: now }
    }

    /// Whether the cell shows nothing at time `now`.
    pub fn is_expired(&self, now: u64) -> (r: bool)
        ensures
            r == self.spec_expired(now),
    {
        let age = if now >= self.set_at {
            now - self.set_at
        } else {
            0
        };
        age > self.ttl || self.value.is_none()
    }

    /// Stores a new value at `now` and returns the previous one if it was
    /// still alive.
    pub fn replace(&mut self, value: T, now: u64) -> (r: Option<T>)
        ensures
            final(self).spec_value() == Some(value),
            final(self).spec_ttl() == old(self).spec_ttl(),
            final(self).spec_set_at() == now,
            elapsed(old(self).spec_set_at(), now) > old(self).spec_ttl() ==> r is None,
            elapsed(old(self).spec_set_at(), now) <= old(self).spec_ttl() ==> r == old(self).spec_value(),
    {
        let prev = self.value.take();
        self.value = Some(value);
        let result = if self.is_expired(now) {
            None
        } else {
            prev
        };
        self.set_at = now;
        result
    }

    /// Stores a new value at `now`.
    pub fn set(&mut self, value: T, now: u64)
        ensures
            final(self).spec_value() == Some(value),
            final(self).spec_ttl() == old(self).spec_ttl(),
            final(self).spec_set_at() == now,
    {
        self.value = Some(value);
        self.set_at = now;
    }

    /// Empties the cell.
    pub fn clear(&mut self)
        ensures
            final(self).spec_value() is None,
            final(self).spec_ttl() == old(self).spec_ttl(),
            final(self).spec_set_at() == old(self).spec_set_at(),
    {
        self.value = None;
    }

    /// The value, if alive at `now`.
    pub fn as_ref(&self, now: u64) -> (r: Option<&T>)
        ensures
            self.spec_expired(now) ==> r is None,
            !self.spec_expired(now) ==> r is Some && *r->0 == self.spec_value()->0,
    {
        if self.is_expired(now) {
            None
        } else {
            self.value.as_ref()
        }
    }

    /// Both values, if both are alive at `now` and were set within
    /// `max_time_delta` of each other.
    pub fn as_ref_with<'a, O>(&'a self, other: &'a TtlCell<O>, max_time_delta: u64, now: u64) -> (r:
        Option<(&'a T, &'a O)>)
        ensures
            (!self.spec_expired(now) && !other.spec_expired(now) && abs_diff(
                self.spec_set_at(),
                other.spec_set_at(),
            ) <= max_time_delta) ==> r is Some && *(r->0).0 == self.spec_value()->0 && *(r->0).1
                == other.spec_value()->0,
            !(!self.spec_expired(now) && !other.spec_expired(now) && abs_diff(
                self.spec_set_at(),
                other.spec_set_at(),
            ) <= max_time_delta) ==> r is None,
    {
        let maybe_first = self.as_ref(now);
        let maybe_second = other.as_ref(now);
        match (maybe_first, maybe_second) {
            (Some(first), Some(second)) => {
                let d = if self.set_at >= other.set_at {
                    self.set_at - other.set_at
                } else {
                    other.set_at - self.set_at
                };
                if d <= max_time_delta {
                    Some((first, second))
                } else {
                    None
                }
            },
            _ => None,
        }
    }

    /// Takes the value if alive at `now`; an expired value stays.
    pub fn take(&mut self, now: u64) -> (r: Option<T>)
        ensures
            final(self).spec_ttl() == old(self).spec_ttl(),
            final(self).spec_set_at() == old(self).spec_set_at(),
            old(self).spec_expired(now) ==> r is None && final(self).spec_value() == old(self).spec_value(),
            !old(self).spec_expired(now) ==> r == old(self).spec_value() && final(self).spec_value() is None,
    {
        if self.is_expired(now) {
            None
        } else {
            self.value.take()
        }
    }

    /// Takes both values if alive at `now`; they are returned together only
    /// if they were set within `max_time_delta` of each other (both are
    /// taken either way).
    pub fn take_with<O>(&mut self, other: &mut TtlCell<O>, max_time_delta: u64, now: u64) -> (r:
        Option<(T, O)>)
        ensures
            final(self).spec_set_at() == old(self).spec_set_at(),
            final(other).spec_set_at() == old(other).spec_set_at(),
            !old(self).spec_expired(now) ==> final(self).spec_value() is None,
            !old(other).spec_expired(now) ==> final(other).spec_value() is None,
            (!old(self).spec_expired(now) && !old(other).spec_expired(now) && abs_diff(
                old(self).spec_set_at(),
                old(other).spec_set_at(),
            ) <= max_time_delta) ==> r == Some((old(self).spec_value()->0, old(other).spec_value()->0)),
            !(!old(self).spec_expired(now) && !old(other).spec_expired(now) && abs_diff(
                old(self).spec_set_at(),
                old(other).spec_set_at(),
            ) <= max_time_delta) ==> r is None,
    {
        let maybe_first = self.take(now);
        let maybe_second = other.take(now);
        match (maybe_first, maybe_second) {
            (Some(first), Some(second)) => {
                let d = if self.set_at >= other.set_at {
                    self.set_at - other.set_at
                } else {
                    other.set_at - self.set_at
                };
                if d <= max_time_delta {
                    Some((first, second))
                } else {
                    None
                }
            },
            _ => None,
        }
    }

    /// Marks the value as set at `now`.
    pub fn touch(&mut self, now: u64)
        ensures
            final(self).spec_value() == old(self).spec_value(),
            final(self).spec_ttl() == old(self).spec_ttl(),
            final(self).spec_set_at() == now,
    {
        self.set_at = now;
    }

    /// When the value was set.
    pub fn set_at(&self) -> (r: u64)
        ensures
            r == self.spec_set_at(),
    {
        self.set_at
    }
}

} // verus!
