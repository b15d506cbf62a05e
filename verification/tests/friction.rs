use hermes::decimal::Decimal;
use hermes::domain::Side;
use hermes::friction::{actual_entry_price, actual_exit_price, fill_ok, gross_pnl, profit_rate};

fn d(s: &str) -> Decimal {
    let x: rust_decimal::Decimal = s.parse().unwrap();
    Decimal::from_parts(x.is_sign_negative(), x.mantissa().unsigned_abs(), x.scale()).unwrap()
}

// --- actual_entry_price ---

#[test]
fn long_entry_pays_spread() {
    let price = actual_entry_price(Side::Long, d("1.3000"), d("0.0002")).unwrap();
    assert_eq!(price, d("1.3002"));
}

#[test]
fn short_entry_no_spread_adjustment() {
    // OHLC is bid-based; Short sells at BID = no adjustment
    let price = actual_entry_price(Side::Short, d("1.3000"), d("0.0002")).unwrap();
    assert_eq!(price, d("1.3000"));
}

#[test]
fn zero_spread_entry_unchanged() {
    let long = actual_entry_price(Side::Long, d("1.3000"), Decimal::zero()).unwrap();
    let short = actual_entry_price(Side::Short, d("1.3000"), Decimal::zero()).unwrap();
    assert_eq!(long, d("1.3000"));
    assert_eq!(short, d("1.3000"));
}

// --- actual_exit_price ---

#[test]
fn long_tp_exit_exact() {
    // Long TP: sell at BID = exact TP level
    let price = actual_exit_price(Side::Long, d("1.3100"), false, d("0.0002"), d("0.0001")).unwrap();
    assert_eq!(price, d("1.3100"));
}

#[test]
fn long_sl_exit_loses_slippage() {
    // Long SL: market sell, get SL - slippage
    let price = actual_exit_price(Side::Long, d("1.2900"), true, d("0.0002"), d("0.0001")).unwrap();
    assert_eq!(price, d("1.2899"));
}

#[test]
fn short_tp_exit_pays_spread() {
    // Short TP: buy to close at ASK = TP_bid + spread
    let price = actual_exit_price(Side::Short, d("1.2900"), false, d("0.0002"), d("0.0001")).unwrap();
    assert_eq!(price, d("1.2902"));
}

#[test]
fn short_sl_exit_pays_spread_and_slippage() {
    // Short SL: market buy at ASK + slippage
    let price = actual_exit_price(Side::Short, d("1.3200"), true, d("0.0002"), d("0.0001")).unwrap();
    assert_eq!(price, d("1.3203"));
}

#[test]
fn zero_friction_exit_matches_level() {
    let zero = Decimal::zero();
    let long_tp = actual_exit_price(Side::Long, d("1.3100"), false, zero, zero).unwrap();
    let long_sl = actual_exit_price(Side::Long, d("1.2900"), true, zero, zero).unwrap();
    let short_tp = actual_exit_price(Side::Short, d("1.2900"), false, zero, zero).unwrap();
    let short_sl = actual_exit_price(Side::Short, d("1.3200"), true, zero, zero).unwrap();
    assert_eq!(long_tp, d("1.3100"));
    assert_eq!(long_sl, d("1.2900"));
    assert_eq!(short_tp, d("1.2900"));
    assert_eq!(short_sl, d("1.3200"));
}

// --- fill_ok logic ---

#[test]
fn long_fill_when_candle_touches_entry() {
    assert!(fill_ok(Side::Long, d("1.3000"), d("1.2990"), d("1.3050"))); // low<=entry
    assert!(!fill_ok(Side::Long, d("1.3000"), d("1.3010"), d("1.3050"))); // gap: low>entry
}

#[test]
fn short_fill_when_candle_touches_entry() {
    assert!(fill_ok(Side::Short, d("1.3000"), d("1.2950"), d("1.3010"))); // high>=entry
    assert!(!fill_ok(Side::Short, d("1.3000"), d("1.2900"), d("1.2990"))); // gap: high<entry
}

#[test]
fn fill_at_exact_boundary() {
    assert!(fill_ok(Side::Long, d("1.3000"), d("1.3000"), d("1.3050"))); // low==entry
    assert!(fill_ok(Side::Short, d("1.3000"), d("1.2950"), d("1.3000"))); // high==entry
}

// --- PnL direction sanity ---

#[test]
fn long_tp_pnl_positive_with_spread() {
    // Long: entry=1.3002 (after spread), tp_exit=1.3100
    let ae = actual_entry_price(Side::Long, d("1.3000"), d("0.0002")).unwrap();
    let exit = actual_exit_price(Side::Long, d("1.3100"), false, d("0.0002"), d("0.0001")).unwrap();
    let pnl = gross_pnl(Side::Long, ae, exit, d("0.10"), d("100000")).unwrap();
    assert!(pnl > Decimal::zero(), "long TP should be profitable: {pnl:?}");
    assert_eq!(pnl, d("98"));
}

#[test]
fn short_sl_pnl_negative_and_worse_than_frictionless() {
    // Short: entry=1.3000 (bid), sl=1.3100 (above entry = loss), with friction
    let ae = actual_entry_price(Side::Short, d("1.3000"), d("0.0002")).unwrap();
    let exit = actual_exit_price(Side::Short, d("1.3100"), true, d("0.0002"), d("0.0001")).unwrap();
    let pnl = gross_pnl(Side::Short, ae, exit, d("0.10"), d("100000")).unwrap();
    let frictionless =
        gross_pnl(Side::Short, d("1.3000"), d("1.3100"), d("0.10"), d("100000")).unwrap();
    assert!(pnl < Decimal::zero(), "short SL must be a loss: {pnl:?}");
    assert!(pnl < frictionless, "friction must make loss larger");
    assert_eq!(pnl, d("-103"));
    assert_eq!(frictionless, d("-100"));
}

#[test]
fn fills_overflow_to_none() {
    let max = Decimal::max_value();
    assert!(actual_entry_price(Side::Long, max, Decimal::one()).is_none());
    assert!(actual_entry_price(Side::Short, max, Decimal::one()).is_some());
    assert!(actual_exit_price(Side::Long, max.negated(), true, d("0"), Decimal::one()).is_none());
    assert!(gross_pnl(Side::Long, Decimal::zero(), max, d("2"), d("1")).is_none());
}

#[test]
fn profit_rate_inverts_the_price() {
    assert_eq!(profit_rate(true, d("150")).unwrap(), d("1"));
    assert_eq!(profit_rate(false, d("0")).unwrap(), d("1"));
    assert_eq!(profit_rate(false, d("-3")).unwrap(), d("1"));
    assert_eq!(profit_rate(false, d("160")).unwrap(), d("0.00625"));
    assert_eq!(profit_rate(false, d("3")).unwrap(), d("0.3333333333333333333333333333"));
}

#[test]
fn friction_never_improves_these_fills() {
    let (spread, slippage) = (d("0.0002"), d("0.0001"));
    for side in [Side::Long, Side::Short] {
        for is_sl in [false, true] {
            let level = d("1.25");
            let entry = actual_entry_price(side, level, spread).unwrap();
            let exit = actual_exit_price(side, level, is_sl, spread, slippage).unwrap();
            match side {
                Side::Long => assert!(entry >= level && exit <= level),
                Side::Short => assert!(entry <= level && exit >= level),
            }
        }
    }
}

#[test]
fn a_stop_costs_the_slippage_and_a_round_trip_the_spread() {
    let (p, s, k) = (d("1.25"), d("0.0002"), d("0.0001"));
    let gap = |from: Decimal, to: Decimal| gross_pnl(Side::Long, from, to, Decimal::one(), Decimal::one()).unwrap();
    let exit = |side: Side, is_sl: bool| actual_exit_price(side, p, is_sl, s, k).unwrap();
    assert_eq!(gap(exit(Side::Long, true), exit(Side::Long, false)), k);
    assert_eq!(gap(exit(Side::Short, false), exit(Side::Short, true)), k);
    let bought = actual_entry_price(Side::Long, p, s).unwrap();
    let sold = actual_entry_price(Side::Short, p, s).unwrap();
    for (is_sl, cost) in [(false, d("0.0002")), (true, d("0.0003"))] {
        assert_eq!(gap(exit(Side::Long, is_sl), bought), cost);
        assert_eq!(gap(sold, exit(Side::Short, is_sl)), cost);
    }
    // a long does not pay the spread on leaving, and a target does not slip
    assert_eq!(actual_exit_price(Side::Long, p, true, d("9"), k).unwrap(), exit(Side::Long, true));
    assert_eq!(actual_exit_price(Side::Short, p, false, s, d("9")).unwrap(), exit(Side::Short, false));
}
