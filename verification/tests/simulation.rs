use hermes::decimal::Decimal;
use hermes::domain::{Candle, RiskConfig, RiskDecision, Side, TradeSignal};
use hermes::killzone::parse_killzone_windows;
use hermes::manage::ExitReason;
use hermes::rules::Rules;
use hermes::simulation::{enough_candles, Fate, Phase, Simulation, Step};
use hermes::time::Instant;
use hermes::trend::Trend;

fn d(s: &str) -> Decimal {
    let x: rust_decimal::Decimal = s.parse().unwrap();
    Decimal::from_parts(x.is_sign_negative(), x.mantissa().unsigned_abs(), x.scale()).unwrap()
}

/// Tuesday 2024-01-02 10:00.
const TUESDAY: i64 = 1_704_189_600;

fn candle(hour: i64, high: &str, low: &str, close: &str) -> Candle {
    Candle {
        time: Instant::new(TUESDAY + hour * 3_600, 0).unwrap(),
        open: d(close),
        high: d(high),
        low: d(low),
        close: d(close),
        tick_volume: 0,
        spread: 0,
        real_volume: 0,
    }
}

fn rules() -> Rules {
    Rules {
        spread_price: d("0.5"),
        slippage_price: d("0.2"),
        commission_per_lot: d("2"),
        contract_size: d("10"),
        profit_is_usd: true,
        risk: RiskConfig {
            risk_pct: d("0.01"),
            value_per_lot: d("10"),
            min_volume: d("0.01"),
            max_volume: d("100"),
            volume_step: d("0.01"),
        },
        min_rr: d("0"),
        min_sl_distance: d("0.25"),
        atr_sl_mult: None,
        atr_min_price: None,
        killzone_windows: vec![],
        dow_filter: false,
        date_from: None,
        date_to: None,
        trend_ema_period: 0,
        trend_tf_h1: false,
        trend_h4_confirm: false,
        breakeven_sl_1r: false,
        partial_tp_1r: false,
        trailing_2r: false,
        partial_tp_2r: false,
        timeout_candles: 0,
        friday_close_hour: None,
    }
}

fn start(rules: Rules, candles: Vec<Candle>) -> Simulation {
    Simulation::new(rules, candles, 2, Trend::none(), Trend::none(), d("1000")).unwrap()
}

fn long() -> TradeSignal {
    TradeSignal { side: Side::Long, entry: d("100"), sl: d("90"), tp: d("130") }
}

const YES: bool = true;

fn sized(approved: bool) -> RiskDecision {
    RiskDecision { approved, volume: d("1") }
}

#[test]
fn too_few_candles_are_refused() {
    let c = vec![candle(0, "1", "1", "1"), candle(1, "1", "1", "1")];
    let e = Simulation::new(rules(), c, 2, Trend::none(), Trend::none(), d("1000")).unwrap_err();
    assert_eq!(e.message, "not enough candles: got 2, need more than 2");
    assert!(e.cause.is_none());
    assert_eq!(enough_candles(2, 2).unwrap_err().message, e.message);
    assert!(enough_candles(3, 2).is_ok());
}

#[test]
fn a_trade_from_signal_to_target() {
    let candles = vec![
        candle(0, "101", "99", "100"),
        candle(1, "101", "99", "100"),
        candle(2, "102", "100", "101"), // signal, filled
        candle(3, "120", "101", "119"), // quiet
        candle(4, "130", "118", "130"), // target
        candle(5, "131", "129", "130"), // next signal, unfilled
        candle(6, "131", "129", "130"), // turned down
    ];
    let mut sim = start(rules(), candles);
    match sim.step().unwrap() {
        Step::Analyze { from, to, min_sl } => assert_eq!((from, to, min_sl), (0, 2, d("0.25"))),
        other => panic!("{other:?}"),
    }
    assert_eq!(sim.screen(&long()).unwrap().unwrap().value_per_lot, d("10"));
    assert_eq!(sim.place(&sized(YES)), Some(Fate::Opened));
    assert_eq!(sim.open_trade.as_ref().unwrap().open_time_str, "2024-01-02 12:00");
    match sim.step().unwrap() {
        Step::Managed { closed, .. } => assert!(closed.is_none()),
        other => panic!("{other:?}"),
    }
    match sim.step().unwrap() {
        Step::Managed { closed: Some(c), .. } => {
            assert_eq!(c.reason, ExitReason::TakeProfit);
            assert_eq!((c.pnl, c.balance), (d("293"), d("1293")));
        }
        other => panic!("{other:?}"),
    }
    assert!(matches!(sim.step().unwrap(), Step::Analyze { from: 3, to: 5, .. }));
    sim.screen(&long()).unwrap().unwrap();
    assert_eq!(sim.place(&sized(YES)), Some(Fate::Missed));
    assert!(matches!(sim.step().unwrap(), Step::Analyze { from: 4, to: 6, .. }));
    sim.screen(&long()).unwrap().unwrap();
    assert_eq!(sim.place(&sized(!YES)), Some(Fate::Rejected));
    assert!(matches!(sim.step().unwrap(), Step::Done));
    assert!(matches!(sim.step().unwrap(), Step::Done));
    assert!(sim.finish().unwrap().is_none());
    assert_eq!((sim.ledger.trades, sim.ledger.wins, sim.ledger.missed_fills), (1, 1, 1));
    assert_eq!(sim.ledger.balance, d("1293"));
}

#[test]
fn an_open_trade_leaves_at_the_last_close() {
    let candles = vec![
        candle(0, "101", "99", "100"),
        candle(1, "101", "99", "100"),
        candle(2, "102", "100", "101"),
        candle(3, "106", "101", "105"),
    ];
    let mut sim = start(rules(), candles);
    sim.step().unwrap();
    sim.screen(&long()).unwrap().unwrap();
    sim.place(&sized(YES)).unwrap();
    sim.step().unwrap();
    assert!(matches!(sim.step().unwrap(), Step::Done));
    let c = sim.finish().unwrap().unwrap();
    assert_eq!(c.reason, ExitReason::Timeout);
    assert_eq!((c.exit, c.pnl), (d("105"), d("43")));
    assert!(sim.open_trade.is_none());
    assert_eq!((sim.ledger.trades, sim.ledger.timeouts), (1, 1));
    assert!(sim.finish().unwrap().is_none());
}

#[test]
fn candles_outside_the_killzone_are_counted() {
    let mut r = rules();
    r.killzone_windows = parse_killzone_windows("13:00-14:00").unwrap();
    let candles: Vec<Candle> = (0..5).map(|i| candle(i, "2", "1", "1")).collect();
    let mut sim = start(r, candles);
    assert!(matches!(sim.step().unwrap(), Step::Skipped)); // 12:00
    assert!(matches!(sim.step().unwrap(), Step::Analyze { .. })); // 13:00
    assert!(matches!(sim.step().unwrap(), Step::Skipped)); // 14:00
    assert_eq!(sim.ledger.skipped_kz, 2);
}

#[test]
fn unanswered_signals_are_dropped() {
    let candles: Vec<Candle> = (0..4).map(|i| candle(i, "2", "1", "1")).collect();
    let mut sim = start(rules(), candles);
    assert!(matches!(sim.step().unwrap(), Step::Analyze { .. }));
    assert!(matches!(sim.phase, Phase::Signal));
    assert!(matches!(sim.step().unwrap(), Step::Analyze { .. }));
    assert!(matches!(sim.step().unwrap(), Step::Done));
    assert!(matches!(sim.phase, Phase::Idle));
    assert_eq!(sim.ledger.trades, 0);
}

#[test]
fn later_candles_do_not_change_a_step() {
    let mut candles = vec![
        candle(0, "101", "99", "100"),
        candle(1, "104", "99", "100"),
        candle(2, "102", "100", "101"),
        candle(3, "106", "101", "105"),
    ];
    let mut r = rules();
    r.atr_sl_mult = Some(d("1"));
    let mut a = start(r, candles.clone());
    candles[3] = candle(3, "900", "1", "5");
    let mut r = rules();
    r.atr_sl_mult = Some(d("1"));
    let mut b = start(r, candles);
    match (a.step().unwrap(), b.step().unwrap()) {
        (Step::Analyze { min_sl: x, .. }, Step::Analyze { min_sl: y, .. }) => {
            assert_eq!((x, y), (d("5"), d("5")));
        }
        other => panic!("{other:?}"),
    }
}

#[test]
fn an_overflow_stops_the_walk() {
    let candles = vec![
        candle(0, "101", "99", "100"),
        candle(1, "101", "99", "100"),
        candle(2, "102", "100", "101"),
        candle(3, "140", "101", "105"),
    ];
    let mut sim = start(rules(), candles);
    sim.step().unwrap();
    let size = RiskDecision { approved: true, volume: Decimal::max_value() };
    sim.screen(&long()).unwrap().unwrap();
    assert_eq!(sim.place(&size), Some(Fate::Opened));
    assert!(sim.step().is_none());
}

#[test]
fn filtered_signals_are_not_sized() {
    let mut r = rules();
    r.min_rr = d("4");
    let candles: Vec<Candle> = (0..4).map(|i| candle(i, "2", "1", "1")).collect();
    let mut sim = start(r, candles);
    sim.step().unwrap();
    assert!(sim.screen(&long()).unwrap().is_none());
    assert!(matches!(sim.phase, Phase::Idle));
    assert_eq!(sim.ledger.trades + sim.ledger.missed_fills, 0);
}
