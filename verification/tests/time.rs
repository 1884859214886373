use security_core::time::{Duration, Timestamp};

#[test]
fn timestamp_orders_by_total_nanoseconds() {
    let a = Timestamp::new(1, 999_999_999);
    let b = Timestamp::new(2, 0);
    assert!(a.is_before(&b));
    assert!(!b.is_before(&a));
    assert!(b.is_after(&a));
    assert_eq!(b.nanos_since(&a), 1);
    assert_eq!(a.nanos_since(&b), -1);
    assert_eq!(a.to_nanos(), 1_999_999_999);
}

#[test]
fn timestamp_before_the_epoch() {
    let t = Timestamp::new(-1, 500_000_000);
    assert_eq!(t.to_nanos(), -500_000_000);
    assert!(t.is_before(&Timestamp::new(0, 0)));
}

#[test]
fn duration_constructors() {
    assert_eq!(Duration::seconds(5), Duration { secs: 5, nanos: 0 });
    assert_eq!(Duration::minutes(1), Duration { secs: 60, nanos: 0 });
    assert_eq!(Duration::hours(1), Duration { secs: 3600, nanos: 0 });
    assert_eq!(Duration::hours(1).to_nanos(), 3_600_000_000_000);
    assert_eq!(Duration::zero().to_nanos(), 0);
    assert_eq!(Duration::checked_hours(2), Some(Duration { secs: 7200, nanos: 0 }));
    assert_eq!(Duration::checked_hours(i64::MAX), None);
    assert_eq!(Duration::checked_hours(i64::MIN), None);
}

#[test]
fn checked_add_carries_nanoseconds() {
    let t = Timestamp::new(10, 900_000_000);
    let d = Duration { secs: 1, nanos: 200_000_000 };
    assert_eq!(t.checked_add(&d), Some(Timestamp::new(12, 100_000_000)));
    let back = Duration::seconds(-11);
    assert_eq!(t.checked_add(&back), Some(Timestamp::new(-1, 900_000_000)));
}

#[test]
fn checked_add_refuses_overflow() {
    let t = Timestamp::new(i64::MAX, 999_999_999);
    assert_eq!(t.checked_add(&Duration { secs: 0, nanos: 1 }), None);
    assert_eq!(t.checked_add(&Duration::zero()), Some(t));
    let low = Timestamp::new(i64::MIN, 0);
    assert_eq!(low.checked_add(&Duration::seconds(-1)), None);
}

#[test]
fn now_does_not_run_backwards_by_much() {
    let a = Timestamp::now();
    let b = Timestamp::now();
    assert!(a.secs > 1_600_000_000);
    assert!(a.nanos < 2_000_000_000);
    assert!(b.nanos_since(&a) > -1_000_000_000);
}

#[test]
fn now_lies_within_the_range_of_the_clock() {
    let t = Timestamp::now();
    assert!(t.secs.abs() <= security_core::time::CLOCK_LIMIT_SECS);
    assert!(t.nanos < 2_000_000_000);
}
