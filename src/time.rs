use vstd::prelude::*;

verus! {

/// What an interval does when a tick comes after its deadline.
#[derive(Debug, Clone, Copy, PartialEq, Eq, Structural)]
pub enum MissedTickBehavior {
    /// The deadline moves by one period, so missed ticks fire at once, one
    /// per call, until the interval has caught up.
    Burst,
    /// The interval restarts from the moment of the late tick.
    Delay,
    /// Missed deadlines are skipped: the next one is the first deadline
    /// of the same phase that lies after the late tick.
    Skip,
}

impl MissedTickBehavior {
    /// The default behavior, `Burst`.
    pub fn default_behavior() -> (r: Self)
        ensures
            r == MissedTickBehavior::Burst,
    {
        MissedTickBehavior::Burst
    }
}

/// `a + b`, or the largest `u64` if that does not fit.
pub open spec fn sat_add(a: u64, b: u64) -> u64 {
    if a + b > u64::MAX {
        u64::MAX
    } else {
        (a + b) as u64
    }
}

/// The first deadline of the phase of `d` (steps of `period`) that lies
/// after `now`.
pub open spec fn next_in_phase(d: u64, period: u64, now: u64) -> int
    recommends
        period > 0,
        d < now,
{
    d + ((now - d) / (period as int) + 1) * period
}

/// The result of one tick at time `now` (nanoseconds on a monotonic clock):
/// whether the tick was on time, how long to sleep before returning, and
/// the next deadline.
pub open spec fn tick_outcome(
    next: Option<u64>,
    period: u64,
    behavior: MissedTickBehavior,
    now: u64,
) -> (bool, u64, u64) {
    match next {
        None => (true, 0, (now + period) as u64),
        Some(d) => if now < d {
            (true, (d - now) as u64, sat_add(d, period))
        } else if now == d {
            (true, 0, sat_add(d, period))
        } else {
            match behavior {
                MissedTickBehavior::Burst => (false, 0, sat_add(d, period)),
                MissedTickBehavior::Delay => (false, 0, (now + period) as u64),
                MissedTickBehavior::Skip => (false, 0, next_in_phase(d, period, now) as u64),
            }
        },
    }
}

/// What a caller of [`Interval::tick_at`] does next.
#[derive(Debug, Clone, Copy, PartialEq, Eq, Structural)]
pub struct TickDecision {
    /// False when the deadline had already passed.
    pub honored: bool,
    /// Nanoseconds to sleep before the tick returns.
    pub sleep_nanos: u64,
}

/// A periodic timer: each tick waits for the next deadline, and a tick
/// that comes late is reported and handled by the missed-tick behavior.
pub struct Interval {
    next_tick: Option<u64>,
    period: u64,
    missing_tick_behavior: MissedTickBehavior,
}

impl Interval {
    /// The next deadline, if a tick has been made.
    pub closed spec fn spec_next_tick(&self) -> Option<u64> {
        self.next_tick
    }

    /// The period in nanoseconds.
    pub closed spec fn spec_period(&self) -> u64 {
        self.period
    }

    /// The missed-tick behavior.
    pub closed spec fn spec_behavior(&self) -> MissedTickBehavior {
        self.missing_tick_behavior
    }

    /// An interval of `period` nanoseconds that has not ticked yet.
    pub fn new(period: u64) -> (r: Self)
        requires
            period > 0,
        ensures
            r.spec_next_tick() is None,
            r.spec_period() == period,
            r.spec_behavior() == MissedTickBehavior::Burst,
    {
        Interval { next_tick: None, period, missing_tick_behavior: MissedTickBehavior::Burst }
    }

    /// Sets the missed-tick behavior; usable as a builder step.
    pub fn set_missing_tick_behavior(self, missing_tick_behavior: MissedTickBehavior) -> (r: Self)
        ensures
            r.spec_next_tick() == self.spec_next_tick(),
            r.spec_period() == self.spec_period(),
            r.spec_behavior() == missing_tick_behavior,
    {
        Interval { missing_tick_behavior, ..self }
    }

    /// The period in nanoseconds.
    pub fn period(&self) -> (r: u64)
        ensures
            r == self.spec_period(),
    {
        self.period
    }

    /// Makes a tick at time `now` (nanoseconds on a monotonic clock) and
    /// tells the caller whether it was on time and how long to sleep.
    pub fn tick_at(&mut self, now: u64) -> (r: TickDecision)
        requires
            old(self).spec_period() > 0,
            now <= u64::MAX - old(self).spec_period(),
        ensures
            final(self).spec_period() == old(self).spec_period(),
            final(self).spec_behavior() == old(self).spec_behavior(),
            ({
                let (honored, sleep, next) = tick_outcome(
                    old(self).spec_next_tick(),
                    old(self).spec_period(),
                    old(self).spec_behavior(),
                    now,
                );
                &&& r.honored == honored
                &&& r.sleep_nanos == sleep
                &&& final(self).spec_next_tick() == Some(next)
            }),
    {
        let period = self.period;
        match self.next_tick {
            None => {
                self.next_tick = Some(now + period);
                TickDecision { honored: true, sleep_nanos: 0 }
            },
            Some(d) => {
                if now < d {
                    self.next_tick = Some(d.saturating_add(period));
                    TickDecision { honored: true, sleep_nanos: d - now }
                } else if now == d {
                    self.next_tick = Some(d.saturating_add(period));
                    TickDecision { honored: true, sleep_nanos: 0 }
                } else {
                    match self.missing_tick_behavior {
                        MissedTickBehavior::Burst => {
                            self.next_tick = Some(d.saturating_add(period));
                        },
                        MissedTickBehavior::Delay => {
                            self.next_tick = Some(now + period);
                        },
                        MissedTickBehavior::Skip => {
                            let q = (now - d) / period;
                            proof {
                                lemma_next_in_phase(d, period, now);
                            }
                            let next = d + (q + 1) * period;
                            self.next_tick = Some(next);
                        },
                    }
                    TickDecision { honored: false, sleep_nanos: 0 }
                }
            },
        }
    }
}

/// The next deadline in phase lies after `now` and at most one period
/// later, a whole number of periods after `d`.
pub proof fn lemma_next_in_phase(d: u64, period: u64, now: u64)
    requires
        period > 0,
        d < now,
    ensures
        now < next_in_phase(d, period, now) <= now + period,
        (next_in_phase(d, period, now) - d) % (period as int) == 0,
        ((now - d) / (period as int) + 1) * period <= now - d + period,
{
    let x = now - d;
    let q = x / (period as int);
    let r = x % (period as int);
    assert(x == q * period + r && 0 <= r < period) by (nonlinear_arith)
        requires
            period > 0,
            q == x / (period as int),
            r == x % (period as int),
    ;
    assert((q + 1) * period == q * period + period) by (nonlinear_arith);
    assert(((q + 1) * period) % (period as int) == 0) by (nonlinear_arith)
        requires
            period > 0,
    ;
}

/// A late tick under `Burst` moves the deadline by one period only: after
/// a stall that passes three deadlines, the next three ticks report the
/// miss without sleeping, and the fourth, made before the deadline it has
/// caught up to, is on time again and sleeps until that deadline.
pub proof fn lemma_burst_catches_up(d: u64, period: u64, t1: u64, t2: u64, t3: u64, t4: u64)
    requires
        period > 0,
        d + 3 * period <= u64::MAX,
        d + 2 * period < t1 <= t2 <= t3 <= t4 < d + 3 * period,
    ensures
        ({
            let b = MissedTickBehavior::Burst;
            let o1 = tick_outcome(Some(d), period, b, t1);
            let o2 = tick_outcome(Some(o1.2), period, b, t2);
            let o3 = tick_outcome(Some(o2.2), period, b, t3);
            let o4 = tick_outcome(Some(o3.2), period, b, t4);
            &&& !o1.0 && o1.1 == 0 && o1.2 == d + period
            &&& !o2.0 && o2.1 == 0 && o2.2 == d + 2 * period
            &&& !o3.0 && o3.1 == 0 && o3.2 == d + 3 * period
            &&& o4.0 && o4.1 == d + 3 * period - t4
        }),
{
}

/// A late tick under `Skip` is the only one reported: the next deadline
/// keeps its phase, lies within one period after the late tick,
/// and a tick made by then is on time.
pub proof fn lemma_skip_single_miss(d: u64, period: u64, now: u64, later: u64)
    requires
        period > 0,
        d < now,
        now <= u64::MAX - period,
        now <= later <= next_in_phase(d, period, now),
    ensures
        ({
            let b = MissedTickBehavior::Skip;
            let o1 = tick_outcome(Some(d), period, b, now);
            let o2 = tick_outcome(Some(o1.2), period, b, later);
            &&& !o1.0
            &&& now < o1.2 <= now + period
            &&& (o1.2 - d) % (period as int) == 0
            &&& o2.0
        }),
{
    lemma_next_in_phase(d, period, now);
}

/// A late tick under `Delay` restarts the interval: the next deadline is
/// one period after the late tick, and a tick made by then is on time.
pub proof fn lemma_delay_restarts(d: u64, period: u64, now: u64, later: u64)
    requires
        period > 0,
        d < now,
        now <= u64::MAX - period,
        now <= later <= now + period,
    ensures
        ({
            let b = MissedTickBehavior::Delay;
            let o1 = tick_outcome(Some(d), period, b, now);
            let o2 = tick_outcome(Some(o1.2), period, b, later);
            &&& !o1.0
            &&& o1.2 == now + period
            &&& o2.0
        }),
{
}

/// Whether every time in `t` lies within `duration` of every other one.
pub open spec fn spec_fits(duration: u64, t: Seq<u64>) -> bool {
    forall|i: int, j: int| 0 <= i < t.len() && 0 <= j < t.len() ==> t[i] - t[j] <= duration
}

/// True if all the given times fit in `duration`: the latest is no more
/// than `duration` after the earliest.
pub fn fits(duration: u64, t: &Vec<u64>) -> (r: bool)
    ensures
        r == spec_fits(duration, t@),
{
    if t.len() == 0 {
        return true;
    }
    let mut lo: u64 = t[0];
    let mut hi: u64 = t[0];
    let mut i: usize = 1;
    while i < t.len()
        invariant
            1 <= i <= t@.len(),
            lo <= hi,
            exists|a: int| 0 <= a < i && t@[a] == lo,
            exists|b: int| 0 <= b < i && t@[b] == hi,
            forall|k: int| 0 <= k < i ==> lo <= #[trigger] t@[k] <= hi,
        decreases t@.len() - i,
    {
        if t[i] < lo {
            lo = t[i];
        }
        if t[i] > hi {
            hi = t[i];
        }
        i += 1;
    }
    let r = hi - lo <= duration;
    proof {
        let a = choose|a: int| 0 <= a < t@.len() && t@[a] == lo;
        let b = choose|b: int| 0 <= b < t@.len() && t@[b] == hi;
        if !r {
            assert(t@[b] - t@[a] > duration);
        }
    }
    r
}

} // verus!
