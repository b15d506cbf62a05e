use hermes::decimal::Decimal;
use hermes::domain::Candle;
use hermes::indicators::{compute_atr, count_until, ema_step, rolling_ema};
use hermes::time::Instant;

fn d(s: &str) -> Decimal {
    let x: rust_decimal::Decimal = s.parse().unwrap();
    Decimal::from_parts(x.is_sign_negative(), x.mantissa().unsigned_abs(), x.scale()).unwrap()
}

fn candle(secs: i64, high: &str, low: &str, close: &str) -> Candle {
    Candle {
        time: Instant::new(secs, 0).unwrap(),
        open: d(close),
        high: d(high),
        low: d(low),
        close: d(close),
        tick_volume: 0,
        spread: 0,
        real_volume: 0,
    }
}

#[test]
fn atr_averages_true_ranges() {
    let candles = [
        candle(0, "10", "8", "9"),
        candle(1, "11", "9", "10"),   // own range 2
        candle(2, "14", "12", "13"),  // gap up: 14 - 10 = 4
        candle(3, "11", "10", "10"),  // gap down: |10 - 13| = 3
    ];
    assert_eq!(compute_atr(&candles, 14).unwrap(), d("3"));
    assert_eq!(compute_atr(&candles, 2).unwrap(), d("3.5"));
    assert_eq!(compute_atr(&candles, 1).unwrap(), d("3"));
    assert_eq!(compute_atr(&candles, 0).unwrap(), d("0"));
    assert_eq!(compute_atr(&candles[..1], 14).unwrap(), d("0"));
    assert_eq!(compute_atr(&[], 14).unwrap(), d("0"));
}

#[test]
fn atr_overflow_is_none() {
    let max = Decimal::max_value();
    let mut huge = candle(1, "1", "1", "1");
    huge.high = max;
    huge.low = max.negated();
    assert!(compute_atr(&[candle(0, "1", "1", "1"), huge], 14).is_none());
}

#[test]
fn ema_starts_with_the_plain_average() {
    let prices = [d("1"), d("2"), d("3"), d("4"), d("8")];
    let emas = rolling_ema(&prices, 3).unwrap();
    assert_eq!(emas, [None, None, Some(d("2")), Some(d("3")), Some(d("5.5"))]);
    let emas = rolling_ema(&prices, 1).unwrap();
    assert_eq!(emas, [Some(d("1")), Some(d("2")), Some(d("3")), Some(d("4")), Some(d("8"))]);
}

#[test]
fn ema_needs_enough_prices() {
    assert_eq!(rolling_ema(&[d("1"), d("2")], 3).unwrap(), [None, None]);
    assert_eq!(rolling_ema(&[], 3).unwrap(), []);
    assert!(rolling_ema(&[d("1")], 0).is_none());
    assert!(rolling_ema(&[d("1")], usize::MAX).is_none());
}

#[test]
fn candles_up_to_a_time_are_counted() {
    let candles = [candle(10, "1", "1", "1"), candle(20, "1", "1", "1"), candle(30, "1", "1", "1")];
    let at = |s: i64| count_until(&candles, &Instant::new(s, 0).unwrap());
    assert_eq!([at(9), at(10), at(19), at(20), at(30), at(31)], [0, 1, 1, 2, 3, 3]);
}

#[test]
fn atr_looks_at_the_last_ranges_only() {
    let mut candles = vec![
        candle(0, "90", "1", "50"),
        candle(1, "11", "9", "10"),
        candle(2, "14", "12", "13"),
        candle(3, "11", "10", "10"),
    ];
    let atr = compute_atr(&candles, 2).unwrap();
    assert_eq!(atr, d("3.5"));
    assert_eq!(compute_atr(&candles[1..], 2).unwrap(), atr);
    assert_eq!(compute_atr(&candles, 3).unwrap(), compute_atr(&candles, 99).unwrap());
    candles[0] = candle(7, "2", "2", "2");
    candles[1].high = d("500");
    candles[1].open = d("400");
    candles[3].close = d("70");
    candles[3].time = Instant::new(0, 0).unwrap();
    candles[3].tick_volume = 9;
    assert_eq!(compute_atr(&candles, 2).unwrap(), atr);
}

#[test]
fn atr_is_never_negative() {
    // a candle written upside down, and one without any range
    let candles = [candle(0, "5", "5", "5"), candle(1, "4", "6", "5"), candle(2, "5", "5", "5")];
    assert_eq!(compute_atr(&candles, 14).unwrap(), d("0.5"));
    let rounded = [
        candle(0, "1", "1", "0"),
        candle(1, "7.9228162514264337593543950335", "0", "0"),
        candle(2, "7.9228162514264337593543950335", "0", "0"),
        candle(3, "7.9228162514264337593543950335", "0", "0"),
    ];
    assert!(compute_atr(&rounded, 14).unwrap() >= d("0"));
}

#[test]
fn ema_does_not_look_ahead() {
    let prices = [d("1"), d("2"), d("3"), d("4"), d("8"), d("2.5")];
    let all = rolling_ema(&prices, 3).unwrap();
    for m in 0..=prices.len() {
        assert_eq!(rolling_ema(&prices[..m], 3).unwrap(), all[..m]);
    }
}

#[test]
fn ema_steps_towards_the_price() {
    assert_eq!(ema_step(d("2"), d("4"), d("0.5")), Some(d("3")));
    assert_eq!(ema_step(d("2"), d("4"), d("0")), Some(d("2")));
    assert_eq!(ema_step(d("2"), d("4"), d("1")), Some(d("4")));
    assert_eq!(ema_step(d("1"), Decimal::max_value(), d("2")), None);
}
