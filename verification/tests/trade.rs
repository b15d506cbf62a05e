use hermes::decimal::Decimal;
use hermes::domain::{Candle, RiskConfig, Side, TradeSignal};
use hermes::ledger::Ledger;
use hermes::manage::{close_at_market, manage, ExitReason, Management};
use hermes::rules::Rules;
use hermes::time::Instant;
use hermes::trade::{close, one_r_event, two_r_event, SimTrade};

fn d(s: &str) -> Decimal {
    let x: rust_decimal::Decimal = s.parse().unwrap();
    Decimal::from_parts(x.is_sign_negative(), x.mantissa().unsigned_abs(), x.scale()).unwrap()
}

/// Monday 2024-01-01.
const MONDAY: i64 = 1_704_067_200;
const HOUR: i64 = 3_600;
const DAY: i64 = 86_400;

fn candle(secs: i64, high: &str, low: &str, close: &str) -> Candle {
    Candle {
        time: Instant::new(secs, 0).unwrap(),
        open: d(close),
        high: d(high),
        low: d(low),
        close: d(close),
        tick_volume: 0,
        spread: 0,
        real_volume: 0,
    }
}

fn rules() -> Rules {
    Rules {
        spread_price: d("0.5"),
        slippage_price: d("0.2"),
        commission_per_lot: d("2"),
        contract_size: d("10"),
        profit_is_usd: true,
        risk: RiskConfig {
            risk_pct: d("0.01"),
            value_per_lot: d("10"),
            min_volume: d("0.01"),
            max_volume: d("100"),
            volume_step: d("0.01"),
        },
        min_rr: d("0"),
        min_sl_distance: d("0"),
        atr_sl_mult: None,
        atr_min_price: None,
        killzone_windows: vec![],
        dow_filter: false,
        date_from: None,
        date_to: None,
        trend_ema_period: 0,
        trend_tf_h1: false,
        trend_h4_confirm: false,
        breakeven_sl_1r: true,
        partial_tp_1r: true,
        trailing_2r: true,
        partial_tp_2r: true,
        timeout_candles: 0,
        friday_close_hour: None,
    }
}

fn free_rules() -> Rules {
    let mut r = rules();
    r.spread_price = d("0");
    r.slippage_price = d("0");
    r.commission_per_lot = d("0");
    r
}

fn trade(side: Side, entry: &str, sl: &str, tp: &str, actual: &str) -> SimTrade {
    SimTrade {
        open_time_str: "2024-01-01 00:00".to_string(),
        signal: TradeSignal { side, entry: d(entry), sl: d(sl), tp: d(tp) },
        volume: d("1.00"),
        actual_entry: d(actual),
        current_sl: d(sl),
        remaining_volume: d("1.00"),
        partial_pnl: d("0"),
        half_closed: false,
        two_r_hit: false,
        open_candle_idx: 5,
    }
}

fn long() -> SimTrade {
    trade(Side::Long, "100", "90", "130", "100.5")
}

fn short() -> SimTrade {
    trade(Side::Short, "100", "110", "80", "100")
}

#[test]
fn closing_counts_every_cost() {
    let c = close(&rules(), &long(), d("130"), false).unwrap();
    assert_eq!((c.exit, c.pnl, c.friction), (d("130"), d("293"), d("7")));
    let c = close(&rules(), &long(), d("90"), true).unwrap();
    assert_eq!((c.exit, c.pnl, c.friction), (d("89.8"), d("-109"), d("9")));
    let c = close(&rules(), &short(), d("80"), false).unwrap();
    assert_eq!((c.exit, c.pnl, c.friction), (d("80.5"), d("193"), d("7")));
    let c = close(&rules(), &short(), d("110"), true).unwrap();
    assert_eq!((c.exit, c.pnl, c.friction), (d("110.7"), d("-109"), d("9")));
}

#[test]
fn closing_converts_the_profit() {
    let mut r = free_rules();
    r.profit_is_usd = false;
    let t = trade(Side::Long, "100", "90", "125", "100");
    let c = close(&r, &t, d("125"), false).unwrap();
    assert_eq!((c.exit, c.pnl, c.friction), (d("125"), d("2"), d("0")));
}

#[test]
fn closing_adds_what_was_banked() {
    let mut t = long();
    t.partial_pnl = d("46.5");
    t.remaining_volume = d("0.5");
    let c = close(&rules(), &t, d("130"), false).unwrap();
    assert_eq!((c.pnl, c.friction), (d("193"), d("3.5")));
}

#[test]
fn closing_overflow_is_none() {
    let mut t = long();
    t.remaining_volume = Decimal::max_value();
    assert!(close(&rules(), &t, d("130"), false).is_none());
}

#[test]
fn nothing_costs_nothing() {
    let t = trade(Side::Short, "100", "110", "80", "100");
    for (level, is_sl) in [("80", false), ("110", true), ("93.25", false)] {
        let c = close(&free_rules(), &t, d(level), is_sl).unwrap();
        assert_eq!(c.exit, d(level));
        assert_eq!(c.friction, d("0"));
    }
}

#[test]
fn costs_never_help_these_trades() {
    for t in [long(), short()] {
        for (level, is_sl) in [("80", false), ("110", true), ("93.25", false)] {
            let c = close(&rules(), &t, d(level), is_sl).unwrap();
            assert!(c.friction >= d("0"));
        }
    }
}

#[test]
fn one_r_banks_half_and_moves_the_stop() {
    let mut t = long();
    assert!(one_r_event(&rules(), &candle(MONDAY, "109.9", "99", "105"), &mut t).unwrap().is_none());
    assert!(!t.half_closed);
    let p = one_r_event(&rules(), &candle(MONDAY, "110", "99", "105"), &mut t).unwrap().unwrap();
    assert_eq!((p.exit, p.volume, p.pnl, p.remaining), (d("110"), d("0.5"), d("46.5"), d("0.5")));
    assert_eq!(p.open_time_str, "2024-01-01 00:00");
    assert_eq!(t.current_sl, d("100"));
    assert_eq!(t.partial_pnl, d("46.5"));
    assert_eq!(t.remaining_volume, d("0.5"));
    assert!(t.half_closed);
    // once only
    assert!(one_r_event(&rules(), &candle(MONDAY, "150", "99", "105"), &mut t).unwrap().is_none());
    assert_eq!(t.remaining_volume, d("0.5"));
}

#[test]
fn one_r_of_a_short_is_below() {
    let mut t = short();
    assert!(one_r_event(&rules(), &candle(MONDAY, "101", "90.1", "95"), &mut t).unwrap().is_none());
    let p = one_r_event(&rules(), &candle(MONDAY, "101", "90", "95"), &mut t).unwrap().unwrap();
    assert_eq!((p.exit, p.pnl), (d("90.5"), d("46.5")));
    assert_eq!(t.current_sl, d("100"));
}

#[test]
fn one_r_does_only_what_is_asked() {
    let up = candle(MONDAY, "150", "99", "105");
    let mut r = rules();
    r.partial_tp_1r = false;
    let mut t = long();
    assert!(one_r_event(&r, &up, &mut t).unwrap().is_none());
    assert!(t.half_closed && t.current_sl == d("100") && t.remaining_volume == d("1"));
    r.partial_tp_1r = true;
    r.breakeven_sl_1r = false;
    let mut t = long();
    assert!(one_r_event(&r, &up, &mut t).unwrap().is_some());
    assert!(t.half_closed && t.current_sl == d("90"));
    r.partial_tp_1r = false;
    let mut t = long();
    assert!(one_r_event(&r, &up, &mut t).unwrap().is_none());
    assert!(!t.half_closed);
}

#[test]
fn partial_volumes_are_whole_steps() {
    let mut r = rules();
    r.risk.volume_step = d("0.3");
    let mut t = long();
    let p = one_r_event(&r, &candle(MONDAY, "150", "99", "105"), &mut t).unwrap().unwrap();
    assert_eq!((p.volume, p.remaining), (d("0.3"), d("0.7")));
    // too small a share is not closed, but the event has fired
    r.risk.min_volume = d("0.4");
    let mut t = long();
    assert!(one_r_event(&r, &candle(MONDAY, "150", "99", "105"), &mut t).unwrap().is_none());
    assert!(t.half_closed && t.remaining_volume == d("1"));
    // a step of zero cannot be divided by
    r.risk.volume_step = d("0");
    assert!(one_r_event(&r, &candle(MONDAY, "150", "99", "105"), &mut long()).is_none());
}

#[test]
fn two_r_banks_a_quarter_and_trails() {
    let mut t = long();
    t.half_closed = true;
    t.remaining_volume = d("0.5");
    t.partial_pnl = d("46.5");
    t.current_sl = d("100");
    assert!(two_r_event(&rules(), &candle(MONDAY, "119.9", "99", "105"), &mut t).unwrap().is_none());
    let p = two_r_event(&rules(), &candle(MONDAY, "120", "99", "105"), &mut t).unwrap().unwrap();
    assert_eq!((p.exit, p.volume, p.pnl, p.remaining), (d("120"), d("0.25"), d("48.25"), d("0.25")));
    assert_eq!(t.current_sl, d("110"));
    assert_eq!(t.partial_pnl, d("94.75"));
    assert!(t.two_r_hit);
    assert!(two_r_event(&rules(), &candle(MONDAY, "150", "99", "105"), &mut t).unwrap().is_none());
    assert_eq!(t.remaining_volume, d("0.25"));
}

#[test]
fn trailing_never_loosens() {
    let mut t = long();
    t.current_sl = d("115");
    two_r_event(&rules(), &candle(MONDAY, "120", "99", "105"), &mut t).unwrap();
    assert_eq!(t.current_sl, d("115"));
    let mut t = short();
    t.current_sl = d("85");
    two_r_event(&rules(), &candle(MONDAY, "101", "80", "105"), &mut t).unwrap();
    assert_eq!(t.current_sl, d("85"));
    let mut t = short();
    two_r_event(&rules(), &candle(MONDAY, "101", "80", "105"), &mut t).unwrap();
    assert_eq!(t.current_sl, d("90"));
    let mut r = rules();
    r.trailing_2r = false;
    let mut t = short();
    two_r_event(&r, &candle(MONDAY, "101", "80", "105"), &mut t).unwrap();
    assert!(t.two_r_hit && t.current_sl == d("110"));
}

fn managed(r: &Rules, c: &Candle, idx: usize, t: SimTrade) -> (Management, Ledger) {
    let mut ledger = Ledger::new(d("1000"));
    let m = manage(r, c, idx, t, &mut ledger).unwrap();
    (m, ledger)
}

#[test]
fn a_quiet_candle_leaves_the_trade_open() {
    let (m, ledger) = managed(&rules(), &candle(MONDAY, "105", "95", "100"), 6, long());
    assert!(m.open.is_some() && m.closed.is_none() && m.one_r.is_none() && m.two_r.is_none());
    assert_eq!(ledger.trades, 0);
    assert_eq!(ledger.balance, d("1000"));
}

#[test]
fn a_big_candle_brings_everything_at_once() {
    let (m, ledger) = managed(&rules(), &candle(MONDAY, "131", "111", "130"), 6, long());
    assert_eq!(m.one_r.unwrap().pnl, d("46.5"));
    assert_eq!(m.two_r.unwrap().pnl, d("48.25"));
    let c = m.closed.unwrap();
    assert!(m.open.is_none());
    assert_eq!(c.reason, ExitReason::TakeProfit);
    assert_eq!((c.exit, c.pnl, c.friction, c.balance), (d("130"), d("168"), d("1.75"), d("1168")));
    assert_eq!((ledger.trades, ledger.wins, ledger.be_sl_exits), (1, 1, 0));
    assert_eq!(ledger.sum_wins, d("168"));
}

#[test]
fn the_stop_takes_priority_over_the_target() {
    let mut r = rules();
    r.partial_tp_1r = false;
    r.breakeven_sl_1r = false;
    r.trailing_2r = false;
    r.partial_tp_2r = false;
    let (m, ledger) = managed(&r, &candle(MONDAY, "131", "89", "130"), 6, long());
    let c = m.closed.unwrap();
    assert_eq!((c.exit, c.pnl), (d("89.8"), d("-109")));
    assert_eq!(c.reason, ExitReason::TakeProfit);
    assert_eq!((ledger.losses, ledger.be_sl_exits, ledger.max_consec_loss), (1, 0, 1));
    assert_eq!(ledger.sum_losses, d("109"));
}

#[test]
fn stops_are_told_apart() {
    let (m, _) = managed(&rules(), &candle(MONDAY, "105", "90", "95"), 6, long());
    assert_eq!(m.closed.unwrap().reason, ExitReason::StopLoss);
    let mut t = long();
    t.half_closed = true;
    t.current_sl = d("100");
    let (m, ledger) = managed(&rules(), &candle(MONDAY, "105", "99", "101"), 6, t);
    let c = m.closed.unwrap();
    assert_eq!(c.reason, ExitReason::MovedStop);
    assert_eq!(c.exit, d("99.8"));
    assert_eq!(ledger.be_sl_exits, 1);
    let (m, _) = managed(&rules(), &candle(MONDAY, "110", "105", "108"), 6, short());
    assert_eq!(m.closed.unwrap().reason, ExitReason::StopLoss);
    let (m, _) = managed(&free_rules(), &candle(MONDAY, "89", "80", "85"), 6, short());
    assert_eq!(m.closed.unwrap().reason, ExitReason::TakeProfit);
}

#[test]
fn fridays_close_trades_at_the_market() {
    let mut r = rules();
    r.friday_close_hour = Some(21);
    let friday = MONDAY + 4 * DAY;
    let (m, ledger) = managed(&r, &candle(friday + 21 * HOUR, "131", "89", "104"), 6, long());
    let c = m.closed.unwrap();
    assert_eq!(c.reason, ExitReason::FridayClose);
    assert_eq!((c.exit, c.pnl), (d("104"), d("33")));
    assert!(m.one_r.is_none() && m.two_r.is_none());
    assert_eq!((ledger.trades, ledger.timeouts, ledger.wins), (1, 1, 0));
    let (m, _) = managed(&r, &candle(friday + 21 * HOUR - 1, "105", "95", "104"), 6, long());
    assert!(m.open.is_some());
    let (m, _) = managed(&r, &candle(friday - DAY + 22 * HOUR, "105", "95", "104"), 6, long());
    assert!(m.open.is_some());
}

#[test]
fn old_trades_time_out() {
    let mut r = rules();
    r.timeout_candles = 3;
    let quiet = candle(MONDAY, "105", "95", "104");
    let (m, _) = managed(&r, &quiet, 7, long());
    assert!(m.open.is_some());
    let (m, ledger) = managed(&r, &quiet, 8, long());
    assert_eq!(m.closed.unwrap().reason, ExitReason::Timeout);
    assert_eq!(ledger.timeouts, 1);
    r.timeout_candles = usize::MAX;
    let (m, _) = managed(&r, &quiet, 8, long());
    assert!(m.open.is_some());
}

#[test]
fn market_closes_are_booked_as_timeouts() {
    let mut ledger = Ledger::new(d("1000"));
    let m = close_at_market(&rules(), long(), d("95"), ExitReason::Timeout, &mut ledger).unwrap();
    let c = m.closed.unwrap();
    assert_eq!((c.pnl, c.balance), (d("-57"), d("943")));
    assert_eq!((ledger.timeouts, ledger.losses), (1, 0));
    assert_eq!(ledger.max_drawdown, d("-57"));
}

#[test]
fn entry_filters_do_not_touch_open_trades() {
    let c = candle(MONDAY, "131", "111", "130");
    let (m, ledger) = managed(&rules(), &c, 6, long());
    let mut r = rules();
    r.date_from = Some(i32::MAX);
    r.dow_filter = true;
    r.atr_min_price = Some(d("1000"));
    r.min_rr = d("50");
    let (m2, ledger2) = managed(&r, &c, 6, long());
    assert_eq!(m.closed.unwrap().pnl, m2.closed.unwrap().pnl);
    assert_eq!(ledger.balance, ledger2.balance);
}
