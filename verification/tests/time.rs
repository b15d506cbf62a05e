use chrono::{DateTime, Datelike, Utc};
use hermes::time::Instant;

#[test]
fn instants_cover_what_chrono_can_name() {
    let (first, last): (DateTime<Utc>, DateTime<Utc>) = (DateTime::<Utc>::MIN_UTC, DateTime::<Utc>::MAX_UTC);
    assert!(Instant::new(first.timestamp(), 0).is_some());
    assert!(Instant::new(first.timestamp() - 1, 999_999_999).is_none());
    assert!(DateTime::from_timestamp(first.timestamp(), 0).is_some());
    assert!(DateTime::from_timestamp(first.timestamp() - 1, 0).is_none());
    assert!(Instant::new(last.timestamp(), 999_999_999).is_some());
    assert!(Instant::new(last.timestamp() + 1, 0).is_none());
    assert!(DateTime::from_timestamp(last.timestamp() + 1, 0).is_none());
    assert_eq!(last.date_naive().num_days_from_ce(), (last.timestamp().div_euclid(86_400) + 719_163) as i32);
    assert_eq!(first.date_naive().num_days_from_ce(), (first.timestamp().div_euclid(86_400) + 719_163) as i32);
}

#[test]
fn leap_seconds_end_a_minute() {
    assert!(Instant::new(59, 1_500_000_000).is_some());
    assert!(Instant::new(58, 1_500_000_000).is_none());
    assert!(Instant::new(-1, 1_999_999_999).is_some());
    assert!(Instant::new(59, 2_000_000_000).is_none());
    assert!(DateTime::from_timestamp(59, 1_500_000_000).is_some());
    assert!(DateTime::from_timestamp(58, 1_500_000_000).is_none());
}

#[test]
fn instants_are_ordered_by_seconds_then_nanoseconds() {
    let t = |s: i64, n: u32| Instant::new(s, n).unwrap();
    assert!(t(5, 0).at_or_before(&t(5, 0)));
    assert!(t(5, 0).at_or_before(&t(5, 1)));
    assert!(!t(5, 1).at_or_before(&t(5, 0)));
    assert!(t(4, 999).at_or_before(&t(5, 0)));
    assert!(!t(6, 0).at_or_before(&t(5, 999)));
    assert_eq!(t(6, 7).secs(), 6);
    assert_eq!(t(6, 7).nanos(), 7);
}
