use hermes::killzone::{in_killzone, killzone_label, parse_hhmm, parse_killzone_windows};
use hermes::killzone::KillzoneWindow;
use hermes::time::Instant;

fn message(s: &str) -> String {
    parse_killzone_windows(s).unwrap_err().message
}

#[test]
fn windows_are_read_in_order() {
    let w = parse_killzone_windows(" 08:00 - 13:00 ,, +9:5-23:59,").unwrap();
    assert_eq!(w, [
        KillzoneWindow { start_min: 480, end_min: 780 },
        KillzoneWindow { start_min: 545, end_min: 1439 },
    ]);
    assert!(parse_killzone_windows(" \t\n").unwrap().is_empty());
    assert!(parse_killzone_windows(",").unwrap().is_empty());
}

#[test]
fn window_failures_say_why() {
    assert_eq!(message("bad"), "invalid killzone window 'bad': expected HH:MM-HH:MM");
    assert_eq!(message("10-11:00"), "expected HH:MM, got '10'");
    assert_eq!(message("10:00-x1:00"), "bad hour in 'x1:00'");
    assert_eq!(message("10:-11:00"), "bad minute in '10:'");
    assert_eq!(message("24:00-25:00"), "hour > 23 in '24:00'");
    assert_eq!(message("10:60-11:00"), "minute > 59 in '10:60'");
    assert_eq!(message("10:00-10:00"), "killzone window '10:00-10:00': start must be before end");
    assert_eq!(message("01:00-02:00,oops"), "invalid killzone window 'oops': expected HH:MM-HH:MM");
}

#[test]
fn times_of_day() {
    assert_eq!(parse_hhmm("23:59").unwrap(), 1439);
    assert_eq!(parse_hhmm("0:0").unwrap(), 0);
    assert_eq!(parse_hhmm("4294967296:00").unwrap_err().message, "bad hour in '4294967296:00'");
    assert_eq!(parse_hhmm("").unwrap_err().message, "expected HH:MM, got ''");
}

#[test]
fn minutes_before_the_epoch_are_those_of_the_day() {
    let windows = parse_killzone_windows("22:00-23:00").unwrap();
    assert!(in_killzone(&Instant::new(-2 * 3600, 0).unwrap(), &windows));
    assert!(!in_killzone(&Instant::new(-1, 0).unwrap(), &windows));
}

#[test]
fn labels_write_windows_back() {
    let text = "08:00-13:00, 15:05-18:00";
    let windows = parse_killzone_windows(text).unwrap();
    assert_eq!(killzone_label(&windows), text);
    assert_eq!(killzone_label(&[]), "all hours (no filter)");
    let w = KillzoneWindow { start_min: 6000, end_min: 7 };
    assert_eq!(killzone_label(&[w]), "100:00-00:07");
}
