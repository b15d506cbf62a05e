use chrono::TimeZone;
use hermes::killzone::{in_killzone, parse_killzone_windows};
use hermes::time::Instant;

fn make_utc(h: u32, m: u32) -> Instant {
    let t = chrono::Utc.with_ymd_and_hms(2026, 1, 1, h, m, 0).unwrap();
    Instant::new(t.timestamp(), t.timestamp_subsec_nanos()).unwrap()
}

#[test]
fn empty_windows_passes_all() {
    let windows = parse_killzone_windows("").unwrap();
    assert!(in_killzone(&make_utc(0, 0), &windows));
    assert!(in_killzone(&make_utc(3, 30), &windows));
    assert!(in_killzone(&make_utc(23, 59), &windows));
}

#[test]
fn single_window_inside_outside() {
    let windows = parse_killzone_windows("10:00-13:00").unwrap();
    assert!(in_killzone(&make_utc(10, 0), &windows)); // boundary start
    assert!(in_killzone(&make_utc(11, 30), &windows)); // inside
    assert!(!in_killzone(&make_utc(13, 0), &windows)); // boundary end (exclusive)
    assert!(!in_killzone(&make_utc(9, 59), &windows)); // before
    assert!(!in_killzone(&make_utc(14, 0), &windows)); // after
}

#[test]
fn two_windows_union() {
    let windows = parse_killzone_windows("10:00-13:00,15:00-18:00").unwrap();
    assert!(in_killzone(&make_utc(10, 30), &windows));
    assert!(!in_killzone(&make_utc(13, 30), &windows)); // gap between windows
    assert!(in_killzone(&make_utc(16, 0), &windows));
    assert!(!in_killzone(&make_utc(18, 0), &windows)); // end exclusive
}

#[test]
fn parse_invalid_format_errors() {
    assert!(parse_killzone_windows("bad").is_err());
    assert!(parse_killzone_windows("10:00").is_err()); // no range
    assert!(parse_killzone_windows("13:00-10:00").is_err()); // end <= start
    assert!(parse_killzone_windows("25:00-26:00").is_err()); // hour out of range
}
