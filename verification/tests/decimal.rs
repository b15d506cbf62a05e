use hermes::decimal::Decimal;
use hermes::domain::{RiskConfig, Side};
use hermes::entry::sizing_config;
use hermes::friction::{actual_entry_price, actual_exit_price, gross_pnl, profit_rate};
use hermes::report::{fmt_pnl, fmt_price};
use hermes::rules::Rules;

fn d(s: &str) -> Decimal {
    from(s.parse().unwrap())
}

fn from(x: rust_decimal::Decimal) -> Decimal {
    Decimal::from_parts(x.is_sign_negative(), x.mantissa().unsigned_abs(), x.scale()).unwrap()
}

fn same_parts(a: Decimal, b: Decimal) -> bool {
    a.is_negative() == b.is_negative() && a.magnitude() == b.magnitude() && a.scale() == b.scale()
}

#[test]
fn parts_must_be_in_range() {
    assert!(Decimal::from_parts(false, 1u128 << 96, 0).is_none());
    assert!(Decimal::from_parts(false, (1u128 << 96) - 1, 28).is_some());
    assert!(Decimal::from_parts(true, 5, 29).is_none());
    assert!(same_parts(Decimal::max_value(), from(rust_decimal::Decimal::MAX)));
    assert!(same_parts(Decimal::zero(), from(rust_decimal::Decimal::ZERO)));
    assert!(same_parts(Decimal::one(), from(rust_decimal::Decimal::ONE)));
    assert!(same_parts(Decimal::from_signed(-7), from(rust_decimal::Decimal::from(-7i32))));
    assert!(same_parts(Decimal::from_unsigned(1_000_000), from(rust_decimal::Decimal::from(1_000_000u32))));
    assert!(same_parts(Decimal::new(25, 5), from(rust_decimal::Decimal::new(25, 5))));
}

#[test]
fn order_is_by_value() {
    assert_eq!(d("1.10"), d("1.1"));
    assert_eq!(d("-0.00"), d("0"));
    assert!(d("-1") < d("0.5"));
    assert!(d("2") > d("1.9999"));
    assert!(d("2.50") >= d("2.5"));
    assert!(same_parts(d("3.0").max(d("3.00")), d("3.0")));
    assert!(same_parts(d("3.0").max(d("3.01")), d("3.01")));
}

/// The sum of an entry and a spread is the outside crate's own sum.
#[test]
fn sums_and_differences_are_those_of_the_crate() {
    let values = ["0", "-0.0", "1.5", "-2.25", "79228162514264337593543950335", "0.0000000000000000000000000001", "7.9228162514264337593543950335", "123456789.987654321"];
    for x in values {
        for y in values {
            let (a, b): (rust_decimal::Decimal, rust_decimal::Decimal) = (x.parse().unwrap(), y.parse().unwrap());
            let sum = actual_entry_price(Side::Long, from(a), from(b));
            match a.checked_add(b) {
                Some(r) => assert!(same_parts(sum.unwrap(), from(r)), "{x} + {y}"),
                None => assert!(sum.is_none(), "{x} + {y}"),
            }
            let difference = actual_exit_price(Side::Long, from(a), true, Decimal::zero(), from(b));
            match a.checked_sub(b) {
                Some(r) => assert!(same_parts(difference.unwrap(), from(r)), "{x} - {y}"),
                None => assert!(difference.is_none(), "{x} - {y}"),
            }
        }
    }
}

/// Where no rounding is needed, sums come out at the larger scale, and a zero
/// gives back the other number as it is written.
#[test]
fn exact_sums_are_written_at_the_larger_scale() {
    let add = |x: &str, y: &str| actual_entry_price(Side::Long, d(x), d(y)).unwrap();
    assert!(same_parts(add("1.5", "2.25"), d("3.75")));
    assert!(same_parts(add("1.50", "1.5"), d("3.00")));
    assert!(same_parts(add("1.5", "0.000"), d("1.5")));
    assert!(same_parts(add("0.000", "1.5"), d("1.5")));
    assert!(same_parts(add("1.5", "-1.5"), d("0.0")));
    let sub = |x: &str, y: &str| actual_exit_price(Side::Long, d(x), true, d("0"), d(y)).unwrap();
    assert!(same_parts(sub("0", "1.5"), d("-1.5")));
    assert!(same_parts(sub("1.5", "0.00"), d("1.5")));
    assert!(same_parts(sub("2.5", "0.25"), d("2.25")));
    assert!(same_parts(sub("2.5", "2.50"), d("0.00")));
}

#[test]
fn exact_products_add_their_scales() {
    let mul = |x: &str, y: &str| gross_pnl(Side::Long, d("0"), d(x), d(y), d("1")).unwrap();
    assert!(same_parts(mul("1.5", "-2.25"), d("-3.375")));
    assert!(same_parts(mul("-1.5", "0.00"), d("0")));
    assert!(same_parts(mul("0.000", "4"), d("0")));
    let third: rust_decimal::Decimal = "0.3333333333333333333333333333".parse().unwrap();
    let rounded = mul("0.3333333333333333333333333333", "0.3333333333333333333333333333");
    assert!(same_parts(rounded, from(third * third)));
}

#[test]
fn quotients_divide_evenly_or_round() {
    assert!(same_parts(profit_rate(false, d("1")).unwrap(), d("1")));
    let sixth: rust_decimal::Decimal = rust_decimal::Decimal::ONE / rust_decimal::Decimal::from(6);
    assert!(same_parts(profit_rate(false, d("6")).unwrap(), from(sixth)));
    let tiny = d("0.0000000000000000000000000001");
    assert_eq!(profit_rate(false, tiny).unwrap(), d("10000000000000000000000000000"));
}

/// A product whose coefficient and scale fit is the plain product of the parts;
/// any product is the outside crate's own.
#[test]
fn products_are_those_of_the_crate() {
    let values = ["1", "-3", "2.50", "0.001", "-7.0", "123456789012345678", "0.00000000000001", "79228162514264337593543950335"];
    for x in values {
        for y in values {
            let (a, b): (rust_decimal::Decimal, rust_decimal::Decimal) = (x.parse().unwrap(), y.parse().unwrap());
            let got = gross_pnl(Side::Long, Decimal::zero(), from(a), from(b), Decimal::one());
            match a.checked_mul(b) {
                Some(r) => assert!(same_parts(got.unwrap(), from(r)), "{x} * {y}"),
                None => assert!(got.is_none(), "{x} * {y}"),
            }
            let full = a.mantissa().unsigned_abs().checked_mul(b.mantissa().unsigned_abs());
            if let Some(m) = full {
                if m < 1u128 << 96 && a.scale() + b.scale() <= 28 {
                    let negative = a.is_sign_negative() != b.is_sign_negative();
                    let plain = Decimal::from_parts(negative, m, a.scale() + b.scale()).unwrap();
                    assert!(same_parts(got.unwrap(), plain), "{x} * {y}");
                }
            }
        }
    }
}

/// A quotient whose coefficients divide evenly is the plain quotient of the
/// parts; any quotient is the outside crate's own.
#[test]
fn quotients_are_those_of_the_crate() {
    let values = ["1", "10.0", "2", "0.50", "100.00", "7", "1234.5600", "0.0003", "79228162514264337593543950335"];
    for x in values {
        for y in values {
            let (a, b): (rust_decimal::Decimal, rust_decimal::Decimal) = (x.parse().unwrap(), y.parse().unwrap());
            let got = per_lot(from(a), from(b));
            match a.checked_div(b) {
                Some(r) => assert!(same_parts(got.unwrap(), from(r)), "{x} / {y}"),
                None => assert!(got.is_none(), "{x} / {y}"),
            }
            let (m, n) = (a.mantissa().unsigned_abs(), b.mantissa().unsigned_abs());
            if m % n == 0 && a.scale() >= b.scale() {
                let plain = Decimal::from_parts(false, m / n, a.scale() - b.scale()).unwrap();
                assert!(same_parts(got.unwrap(), plain), "{x} / {y}");
            }
        }
    }
    assert!(same_parts(per_lot(d("0.00"), d("3")).unwrap(), d("0")));
}

/// `size / close`, as the value of a lot in another currency.
fn per_lot(size: Decimal, close: Decimal) -> Option<Decimal> {
    let one = Decimal::one();
    let rules = Rules {
        spread_price: one,
        slippage_price: one,
        commission_per_lot: one,
        contract_size: size,
        profit_is_usd: false,
        risk: RiskConfig { risk_pct: one, value_per_lot: one, min_volume: one, max_volume: one, volume_step: one },
        min_rr: one,
        min_sl_distance: one,
        atr_sl_mult: None,
        atr_min_price: None,
        killzone_windows: vec![],
        dow_filter: false,
        date_from: None,
        date_to: None,
        trend_ema_period: 0,
        trend_tf_h1: false,
        trend_h4_confirm: false,
        breakeven_sl_1r: false,
        partial_tp_1r: false,
        trailing_2r: false,
        partial_tp_2r: false,
        timeout_candles: 0,
        friday_close_hour: None,
    };
    sizing_config(&rules, close).map(|c| c.value_per_lot)
}

#[test]
fn prices_are_cut_off_not_rounded() {
    assert_eq!(fmt_price(d("1.239"), 2).unwrap(), "1.23");
    assert_eq!(fmt_price(d("-1.239"), 2).unwrap(), "-1.23");
    assert_eq!(fmt_price(d("5"), 3).unwrap(), "5.000");
    assert_eq!(fmt_price(d("5.75"), 0).unwrap(), "5");
    assert_eq!(fmt_price(d("0.004"), 2).unwrap(), "0.00");
    assert_eq!(fmt_price(d("-0.004"), 2).unwrap(), "-0.00");
    assert_eq!(fmt_price(d("1.5"), 30).unwrap(), "1.500000000000000000000000000000");
    assert_eq!(d("-12.340").plain(), "-12.340");
    assert_eq!(d("0.00").plain(), "0.00");
}

#[test]
fn signs_of_amounts() {
    assert_eq!(fmt_pnl(d("12.345")).unwrap(), "+12.34");
    assert_eq!(fmt_pnl(d("-12.345")).unwrap(), "-12.34");
    assert_eq!(fmt_pnl(d("0")).unwrap(), "+0.00");
    assert_eq!(fmt_pnl(Decimal::zero().negated()).unwrap(), "+-0.00");
}

#[test]
fn long_numbers_cannot_take_many_digits() {
    let max = Decimal::max_value();
    assert!(max.shows(2));
    assert_eq!(fmt_price(max, 2).unwrap(), "79228162514264337593543950335.00");
    assert!(!max.shows(3));
    assert!(fmt_price(max, 3).is_none());
    assert!(fmt_price(d("1234.5"), 28).is_none());
    assert!(fmt_price(d("123.5"), 28).is_some());
    assert!(!Decimal::one().shows(0x1_0000));
}

#[test]
fn decimal_laws_on_values() {
    // order is by value and transitive
    let (a, b, c) = (d("1.1"), d("1.10001"), d("2"));
    assert!(a < b && b <= c && a < c);
    // multiplying by a number that is not negative keeps the order
    let worth = |x: Decimal| gross_pnl(Side::Long, Decimal::zero(), x, d("0.5"), d("100")).unwrap();
    assert!(worth(a) <= worth(b) && worth(b) <= worth(c));
}
