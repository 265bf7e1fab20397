use roboplc::semaphore::PermitCount;
use roboplc::ttlcell::TtlCell;

const MS: u64 = 1_000_000;

#[test]
fn test_get_set() {
    let ttl = 10 * MS;
    let mut opt = TtlCell::new_with_value(ttl, 25, 0);
    assert_eq!(opt.as_ref(ttl / 2).copied(), Some(25));
    assert_eq!(opt.as_ref(ttl / 2 + ttl + 1).copied(), None);
    let t = ttl / 2 + ttl + 1;
    opt.set(30, t);
    assert_eq!(opt.as_ref(t + ttl / 2).copied(), Some(30));
    assert_eq!(opt.as_ref(t + ttl / 2 + ttl + 1).copied(), None);
}

#[test]
fn test_take_replace() {
    let ttl = 10 * MS;
    let mut opt = TtlCell::new_with_value(ttl, 25, 0);
    assert_eq!(opt.take(ttl / 2), Some(25));
    assert_eq!(opt.as_ref(ttl / 2).copied(), None);
    opt.set(30, ttl / 2);
    assert_eq!(opt.replace(29, ttl), Some(30));
    assert_eq!(opt.as_ref(2 * ttl + 1).copied(), None);
}

#[test]
fn test_take_with() {
    let mut first = TtlCell::new_with_value(1000 * MS, 25, 0);
    let mut second = TtlCell::new_with_value(1000 * MS, 25, 10 * MS);
    assert_eq!(first.take_with(&mut second, 100 * MS, 10 * MS), Some((25, 25)));
    let mut first = TtlCell::new_with_value(1000 * MS, 25, 0);
    let mut second = TtlCell::new_with_value(1000 * MS, 25, 100 * MS);
    assert_eq!(first.take_with(&mut second, 50 * MS, 100 * MS), None);
}

#[test]
fn ttl_cell_edges() {
    let mut c: TtlCell<u8> = TtlCell::new(5, 100);
    assert!(c.is_expired(100));
    c.set(1, 100);
    assert!(!c.is_expired(105));
    assert!(c.is_expired(106));
    assert_eq!(c.replace(2, 200), None);
    c.touch(300);
    assert_eq!(c.set_at(), 300);
    let other = TtlCell::new_with_value(5, 9u8, 302);
    assert_eq!(c.as_ref_with(&other, 2, 303), Some((&2, &9)));
    assert_eq!(c.as_ref_with(&other, 1, 303), None);
    c.clear();
    assert_eq!(c.take(300), None);
}

#[test]
fn test_semaphore() {
    let mut sem = PermitCount::new(2);
    assert_eq!(sem.capacity(), 2);
    assert_eq!(sem.available(), 2);
    assert_eq!(sem.used(), 0);
    assert!(sem.try_acquire());
    assert_eq!(sem.available(), 1);
    assert_eq!(sem.used(), 1);
    assert!(sem.try_acquire());
    assert_eq!(sem.available(), 0);
    assert_eq!(sem.used(), 2);
    assert!(!sem.try_acquire());
    sem.release();
    assert_eq!(sem.available(), 1);
    assert_eq!(sem.used(), 1);
    assert!(sem.try_acquire());
    assert_eq!(sem.available(), 0);
    assert_eq!(sem.used(), 2);
}
