use chrono::{Datelike, NaiveDate};
use hermes::decimal::Decimal;
use hermes::domain::{Candle, RiskConfig, RiskDecision, Side, TradeSignal};
use hermes::entry::{entry_gate, place_order, reward_filter, screen, sizing_config, EntryGate, Order};
use hermes::killzone::parse_killzone_windows;
use hermes::rules::Rules;
use hermes::time::Instant;
use hermes::trend::{closing_prices, h4_count, trend_filter, Trend};

fn d(s: &str) -> Decimal {
    let x: rust_decimal::Decimal = s.parse().unwrap();
    Decimal::from_parts(x.is_sign_negative(), x.mantissa().unsigned_abs(), x.scale()).unwrap()
}

/// Tuesday 2024-01-02 10:00.
const TUESDAY: i64 = 1_704_189_600;
const DAY: i64 = 86_400;

fn candle(secs: i64, high: &str, low: &str, close: &str) -> Candle {
    Candle {
        time: Instant::new(secs, 0).unwrap(),
        open: d(close),
        high: d(high),
        low: d(low),
        close: d(close),
        tick_volume: 0,
        spread: 0,
        real_volume: 0,
    }
}

fn rules() -> Rules {
    Rules {
        spread_price: d("0.5"),
        slippage_price: d("0.2"),
        commission_per_lot: d("2"),
        contract_size: d("10"),
        profit_is_usd: true,
        risk: RiskConfig {
            risk_pct: d("0.01"),
            value_per_lot: d("10"),
            min_volume: d("0.01"),
            max_volume: d("100"),
            volume_step: d("0.01"),
        },
        min_rr: d("0"),
        min_sl_distance: d("0.25"),
        atr_sl_mult: None,
        atr_min_price: None,
        killzone_windows: vec![],
        dow_filter: false,
        date_from: None,
        date_to: None,
        trend_ema_period: 0,
        trend_tf_h1: false,
        trend_h4_confirm: false,
        breakeven_sl_1r: false,
        partial_tp_1r: false,
        trailing_2r: false,
        partial_tp_2r: false,
        timeout_candles: 0,
        friday_close_hour: None,
    }
}

fn window() -> Vec<Candle> {
    vec![candle(0, "10", "8", "9"), candle(1, "11", "9", "10"), candle(2, "14", "12", "13")]
}

fn day(y: i32, m: u32, day: u32) -> i32 {
    NaiveDate::from_ymd_opt(y, m, day).unwrap().num_days_from_ce()
}

fn gate(r: &Rules, secs: i64) -> &'static str {
    match entry_gate(r, &candle(secs, "2", "1", "1"), &window()) {
        None => "overflow",
        Some(EntryGate::Shut) => "shut",
        Some(EntryGate::OutsideKillzone) => "outside",
        Some(EntryGate::Open { .. }) => "open",
    }
}

#[test]
fn dates_bound_entries() {
    let mut r = rules();
    r.date_from = Some(day(2024, 1, 2));
    r.date_to = Some(day(2024, 1, 3));
    assert_eq!(gate(&r, TUESDAY - DAY), "shut");
    assert_eq!(gate(&r, TUESDAY), "open");
    assert_eq!(gate(&r, TUESDAY + DAY), "open");
    assert_eq!(gate(&r, TUESDAY + 2 * DAY), "shut");
    // the dates come before the killzone
    r.killzone_windows = parse_killzone_windows("01:00-02:00").unwrap();
    assert_eq!(gate(&r, TUESDAY - DAY), "shut");
    assert_eq!(gate(&r, TUESDAY), "outside");
}

#[test]
fn mondays_and_fridays_are_left_out() {
    let mut r = rules();
    r.dow_filter = true;
    let week: Vec<&str> = (0..7).map(|i| gate(&r, TUESDAY + i * DAY)).collect();
    assert_eq!(week, ["open", "open", "open", "shut", "open", "open", "shut"]);
    // the killzone comes before the weekday
    r.killzone_windows = parse_killzone_windows("01:00-02:00").unwrap();
    assert_eq!(gate(&r, TUESDAY - DAY), "outside");
}

fn min_sl(r: &Rules) -> Option<Decimal> {
    match entry_gate(r, &candle(TUESDAY, "2", "1", "1"), &window()) {
        Some(EntryGate::Open { min_sl }) => Some(min_sl),
        _ => None,
    }
}

#[test]
fn volatility_sets_the_stop_distance() {
    let mut r = rules();
    assert_eq!(min_sl(&r), Some(d("0.25")));
    // true ranges 2 and 4, average 3
    r.atr_sl_mult = Some(d("1.5"));
    assert_eq!(min_sl(&r), Some(d("4.5")));
    r.atr_min_price = Some(d("3"));
    assert_eq!(min_sl(&r), Some(d("4.5")));
    r.atr_min_price = Some(d("3.01"));
    assert_eq!(gate(&r, TUESDAY), "shut");
    r.atr_sl_mult = Some(Decimal::max_value());
    assert_eq!(gate(&r, TUESDAY), "overflow");
}

fn signal(side: Side, entry: &str, sl: &str, tp: &str) -> TradeSignal {
    TradeSignal { side, entry: d(entry), sl: d(sl), tp: d(tp) }
}

#[test]
fn rewards_must_be_worth_the_risk() {
    let s = signal(Side::Long, "100", "90", "125");
    assert_eq!(reward_filter(&s, d("0")), Some(true));
    assert_eq!(reward_filter(&s, d("2.5")), Some(true));
    assert_eq!(reward_filter(&s, d("2.51")), Some(false));
    let no_risk = signal(Side::Long, "100", "100.0", "125");
    assert_eq!(reward_filter(&no_risk, d("0")), Some(true));
    assert_eq!(reward_filter(&no_risk, d("2.5")), Some(false));
    let mut huge = signal(Side::Short, "-1", "1", "1");
    huge.tp = Decimal::max_value();
    assert_eq!(reward_filter(&huge, d("2.5")), None);
}

#[test]
fn lots_are_valued_in_the_account_currency() {
    let mut r = rules();
    assert_eq!(sizing_config(&r, d("150")).unwrap().value_per_lot, d("10"));
    r.profit_is_usd = false;
    let c = sizing_config(&r, d("160")).unwrap();
    assert_eq!(c.value_per_lot, d("0.0625"));
    assert_eq!((c.risk_pct, c.min_volume, c.max_volume, c.volume_step), (d("0.01"), d("0.01"), d("100"), d("0.01")));
    assert_eq!(sizing_config(&r, d("0")).unwrap().value_per_lot, d("10"));
    assert_eq!(sizing_config(&r, d("-1")).unwrap().value_per_lot, d("10"));
}

#[test]
fn own_trend_follows_the_index() {
    let candles = window();
    assert_eq!(closing_prices(&candles), [d("9"), d("10"), d("13")]);
    let trend = Trend::own(&candles, 2).unwrap();
    assert!(trend.candles.is_empty());
    assert_eq!(trend.emas[1], Some(d("9.5")));
    assert!(Trend::own(&candles, 0).is_none());
    let mut r = rules();
    r.trend_ema_period = 2;
    r.trend_tf_h1 = true;
    let none = Trend::none();
    let up = candle(TUESDAY, "20", "1", "9.6");
    let down = candle(TUESDAY, "20", "1", "9.5");
    assert!(trend_filter(&r, &trend, &none, &up, 1, Side::Long));
    assert!(!trend_filter(&r, &trend, &none, &up, 1, Side::Short));
    assert!(!trend_filter(&r, &trend, &none, &down, 1, Side::Long));
    assert!(trend_filter(&r, &trend, &none, &down, 1, Side::Short));
    // no average yet, or none at all
    assert!(trend_filter(&r, &trend, &none, &up, 0, Side::Short));
    assert!(trend_filter(&r, &trend, &none, &up, 99, Side::Short));
}

#[test]
fn separate_trend_follows_the_time() {
    let h4 = vec![candle(100, "1", "1", "5"), candle(200, "1", "1", "7"), candle(300, "1", "1", "1")];
    let trend = Trend::separate(h4, 2).unwrap();
    assert_eq!(trend.emas[1], Some(d("6")));
    let none = Trend::none();
    let mut r = rules();
    r.trend_ema_period = 2;
    let at = |s: i64| candle(s, "1", "1", "1");
    // before the first candle no trade goes
    assert!(!trend_filter(&r, &trend, &none, &at(99), 0, Side::Long));
    assert!(!trend_filter(&r, &trend, &none, &at(99), 0, Side::Short));
    // no average yet
    assert!(trend_filter(&r, &trend, &none, &at(100), 0, Side::Long));
    // close 7 above average 6
    assert!(trend_filter(&r, &trend, &none, &at(299), 0, Side::Long));
    assert!(!trend_filter(&r, &trend, &none, &at(299), 0, Side::Short));
    // close 1 below its average
    assert!(!trend_filter(&r, &trend, &none, &at(300), 0, Side::Long));
    // without a period there is no filter
    r.trend_ema_period = 0;
    assert!(trend_filter(&r, &trend, &none, &at(99), 0, Side::Long));
    // the same candles as a confirmation
    r.trend_h4_confirm = true;
    assert!(!trend_filter(&r, &none, &trend, &at(99), 0, Side::Long));
    assert!(trend_filter(&r, &none, &trend, &at(200), 0, Side::Long));
    assert!(!trend_filter(&r, &none, &trend, &at(200), 0, Side::Short));
    assert!(trend_filter(&r, &none, &none, &at(99), 0, Side::Long));
    assert_eq!(h4_count(50_000), 12_700);
    assert_eq!(h4_count(u32::MAX), 1_073_742_023);
}

#[test]
fn screened_signals() {
    let mut r = rules();
    let none = Trend::none();
    let c = candle(TUESDAY, "2", "1", "1");
    let s = signal(Side::Long, "100", "90", "125");
    assert_eq!(screen(&r, &none, &none, &c, 3, &s).unwrap().unwrap().value_per_lot, d("10"));
    r.min_rr = d("3");
    assert!(screen(&r, &none, &none, &c, 3, &s).unwrap().is_none());
    r.trend_ema_period = 5;
    let mut huge = s;
    huge.tp = Decimal::max_value();
    huge.entry = Decimal::max_value().negated();
    // the trend comes before the reward
    assert!(screen(&r, &none, &none, &c, 3, &huge).unwrap().is_none());
    r.trend_ema_period = 0;
    assert!(screen(&r, &none, &none, &c, 3, &huge).is_none());
}

#[test]
fn orders_fill_at_their_limit() {
    let r = rules();
    let s = signal(Side::Long, "100", "90", "125");
    let yes = RiskDecision { approved: true, volume: d("0.3") };
    let no = RiskDecision { approved: false, volume: d("0.3") };
    let touched = candle(TUESDAY + 5 * 60 + 59, "101", "100", "101");
    let above = candle(TUESDAY, "110", "100.1", "101");
    assert!(matches!(place_order(&r, &touched, 7, &s, &no), Some(Order::Rejected)));
    assert!(matches!(place_order(&r, &above, 7, &s, &yes), Some(Order::Missed)));
    match place_order(&r, &touched, 7, &s, &yes) {
        Some(Order::Opened(t)) => {
            assert_eq!(t.open_time_str, "2024-01-02 10:05");
            assert_eq!((t.volume, t.remaining_volume, t.partial_pnl), (d("0.3"), d("0.3"), d("0")));
            assert_eq!((t.actual_entry, t.current_sl), (d("100.5"), d("90")));
            assert_eq!((t.half_closed, t.two_r_hit, t.open_candle_idx), (false, false, 7));
            assert_eq!(t.signal.tp, d("125"));
        }
        other => panic!("{other:?}"),
    }
    let mut far = s;
    far.entry = Decimal::max_value();
    assert!(place_order(&r, &touched, 7, &far, &yes).is_none());
}
