use roboplc::time::{fits, Interval, MissedTickBehavior, TickDecision};

const MS: u64 = 1_000_000;

#[test]
fn first_tick_is_honored() {
    let mut i = Interval::new(100 * MS);
    assert_eq!(i.tick_at(5 * MS), TickDecision { honored: true, sleep_nanos: 0 });
    assert_eq!(i.tick_at(50 * MS), TickDecision { honored: true, sleep_nanos: 55 * MS });
    assert_eq!(i.tick_at(205 * MS), TickDecision { honored: true, sleep_nanos: 0 });
}

#[test]
fn missed_tick_skip() {
    let mut i = Interval::new(100 * MS).set_missing_tick_behavior(MissedTickBehavior::Skip);
    assert!(i.tick_at(0).honored);
    // the caller slept until the first deadline, then stalled 350 ms
    let now = 100 * MS + 350 * MS;
    assert!(!i.tick_at(now).honored);
    let d = i.tick_at(now);
    assert!(d.honored);
    assert_eq!(d.sleep_nanos, 50 * MS);
    assert_eq!(i.tick_at(500 * MS), TickDecision { honored: true, sleep_nanos: 100 * MS });
    assert_eq!(i.tick_at(600 * MS), TickDecision { honored: true, sleep_nanos: 100 * MS });
}

#[test]
fn missed_tick_burst() {
    let mut i = Interval::new(100 * MS);
    assert!(i.tick_at(0).honored);
    let t = 350 * MS;
    assert_eq!(i.tick_at(t), TickDecision { honored: false, sleep_nanos: 0 });
    assert_eq!(i.tick_at(t), TickDecision { honored: false, sleep_nanos: 0 });
    assert_eq!(i.tick_at(t), TickDecision { honored: false, sleep_nanos: 0 });
    assert_eq!(i.tick_at(t), TickDecision { honored: true, sleep_nanos: 50 * MS });
}

#[test]
fn missed_tick_delay() {
    let mut i = Interval::new(100 * MS).set_missing_tick_behavior(MissedTickBehavior::Delay);
    assert!(i.tick_at(0).honored);
    assert!(!i.tick_at(330 * MS).honored);
    assert_eq!(i.tick_at(400 * MS), TickDecision { honored: true, sleep_nanos: 30 * MS });
}

#[test]
fn test_fits() {
    let first = 0;
    let second = 10 * MS;
    let third = 20 * MS;
    assert!(fits(100 * MS, &vec![first, second, third]));
    assert!(fits(25 * MS, &vec![first, second, third]));
    assert!(!fits(15 * MS, &vec![third, first, second]));
    assert!(fits(0, &vec![]));
}
