use hermes::decimal::Decimal;
use hermes::domain::{RiskConfig, Side, TradeSignal};
use hermes::killzone::parse_killzone_windows;
use hermes::ledger::{metrics, Ledger};
use hermes::manage::{ClosedTrade, ExitReason};
use hermes::report::{closed_trade_line, one_r_line, summary, two_r_line, Heading};
use hermes::rules::Rules;
use hermes::trade::{Closing, PartialClose, SimTrade};

fn d(s: &str) -> Decimal {
    let x: rust_decimal::Decimal = s.parse().unwrap();
    Decimal::from_parts(x.is_sign_negative(), x.mantissa().unsigned_abs(), x.scale()).unwrap()
}

fn closed(reason: ExitReason, side: Side) -> ClosedTrade {
    ClosedTrade {
        reason,
        trade: SimTrade {
            open_time_str: "2024-01-02 12:00".to_string(),
            signal: TradeSignal { side, entry: d("1.3"), sl: d("1.29"), tp: d("1.32") },
            volume: d("0.125"),
            actual_entry: d("1.3002"),
            current_sl: d("1.3"),
            remaining_volume: d("0.05"),
            partial_pnl: d("5"),
            half_closed: true,
            two_r_hit: false,
            open_candle_idx: 3,
        },
        exit: d("1.319999"),
        friction: d("1.5"),
        pnl: d("-20.999"),
        balance: d("4979.001"),
    }
}

#[test]
fn lines_of_closed_trades() {
    assert_eq!(
        closed_trade_line("M15", "EURUSD", 5, &closed(ExitReason::TakeProfit, Side::Long)).unwrap(),
        "[2024-01-02 12:00 M15] EURUSD LONG  entry=1.30020 tp=1.32000 sl=1.29000 vol=0.12 → TP      exit=1.31999 friction=-1.50 pnl=-20.99 bal=4979.00"
    );
    let label = |r: ExitReason| closed_trade_line("M15", "X", 2, &closed(r, Side::Short)).unwrap();
    for (reason, text) in [
        (ExitReason::FridayClose, "→ FRI_CLS exit="),
        (ExitReason::Timeout, "→ TIMEOUT exit="),
        (ExitReason::TakeProfit, "→ TP      exit="),
        (ExitReason::MovedStop, "→ BE_SL   exit="),
        (ExitReason::StopLoss, "→ SL      exit="),
    ] {
        let line = label(reason);
        assert!(line.contains(text), "{line}");
        assert!(line.contains(" X SHORT entry=1.30 "), "{line}");
    }
    let mut free = closed(ExitReason::Timeout, Side::Long);
    free.friction = d("0");
    assert!(closed_trade_line("M15", "X", 2, &free).unwrap().contains(" friction=+-0.00 "));
}

#[test]
fn unwritable_numbers_have_no_line() {
    let mut c = closed(ExitReason::Timeout, Side::Long);
    c.exit = Decimal::max_value();
    assert!(closed_trade_line("M15", "X", 2, &c).is_some());
    assert!(closed_trade_line("M15", "X", 5, &c).is_none());
}

#[test]
fn lines_of_partial_closes() {
    let p = PartialClose {
        open_time_str: "2024-01-02 12:00".to_string(),
        side: Side::Short,
        actual_entry: d("1.3"),
        exit: d("1.2902"),
        volume: d("0.5"),
        pnl: d("490"),
        remaining: d("0.5"),
    };
    assert_eq!(
        one_r_line("H1", "EURUSD", 4, &p).unwrap(),
        "[2024-01-02 12:00 H1] EURUSD SHORT entry=1.3000 → PARTIAL1R exit=1.2902 vol=0.50 pnl=+490.00 (rem=0.50)"
    );
    assert_eq!(
        two_r_line("H1", "EURUSD", 4, &p).unwrap(),
        "[2024-01-02 12:00 H1] EURUSD SHORT entry=1.3000 → PARTIAL2R exit=1.2902 vol=0.50 pnl=+490.00 (rem=0.50)"
    );
}

fn rules(breakeven: bool) -> Rules {
    Rules {
        spread_price: d("0.0002"),
        slippage_price: d("0.00005"),
        commission_per_lot: d("7"),
        contract_size: d("100000"),
        profit_is_usd: true,
        risk: RiskConfig {
            risk_pct: d("0.01"),
            value_per_lot: d("100000"),
            min_volume: d("0.01"),
            max_volume: d("100"),
            volume_step: d("0.01"),
        },
        min_rr: d("0"),
        min_sl_distance: d("0"),
        atr_sl_mult: None,
        atr_min_price: None,
        killzone_windows: parse_killzone_windows("08:00-13:00,15:00-18:00").unwrap(),
        dow_filter: false,
        date_from: None,
        date_to: None,
        trend_ema_period: 0,
        trend_tf_h1: false,
        trend_h4_confirm: false,
        breakeven_sl_1r: breakeven,
        partial_tp_1r: false,
        trailing_2r: false,
        partial_tp_2r: false,
        timeout_candles: 0,
        friday_close_hour: None,
    }
}

fn book() -> Ledger {
    let c = |pnl: &str, friction: &str| Closing { exit: d("1"), pnl: d(pnl), friction: d(friction) };
    let mut l = Ledger::new(d("1000"));
    l.record_exit(&c("100", "1"), false).unwrap();
    l.record_exit(&c("-30", "2"), false).unwrap();
    l.record_timeout(&c("-20", "3")).unwrap();
    l.skipped_kz = 12;
    l.missed_fills = 4;
    l
}

fn heading() -> Heading {
    Heading {
        symbol: "EURUSD".to_string(),
        tf_short: "M15".to_string(),
        total: 5000,
        prec: 5,
        win_pct: "33.3".to_string(),
        loss_pct: "33.3".to_string(),
        timeout_pct: "33.3".to_string(),
    }
}

#[test]
fn the_summary_lists_everything() {
    let l = book();
    let m = metrics(&l, d("1000")).unwrap();
    let lines = summary(&heading(), &rules(false), &l, &m).unwrap();
    let ruler = "─────────────────────────────────────────";
    assert_eq!(lines, [
        ruler,
        "Backtest: EURUSD M15 | 5000 candles",
        "Friction: spread=0.00020 slippage=0.00005 commission/lot=7.00 (per trade avg=2.00)",
        ruler,
        "Killzone filter: 08:00-13:00, 15:00-18:00",
        "Skipped (KZ)   : 12",
        ruler,
        "Trades         : 3",
        "Win            : 1  (33.3%)",
        "Loss           : 1  (33.3%)",
        "Timeout        : 1  (33.3%)",
        "Missed fills   : 4",
        "Max consec loss: 1",
        ruler,
        "Avg win        : +100.00",
        "Avg loss       : -30.00",
        "Expectancy     : +16.66",
        "Profit factor  : 3.33",
        "Total friction : -6.00",
        ruler,
        "Total PnL      : +50.00",
        "Max Drawdown   : -50.00",
        "Return         : 5.0%",
        "Final Balance  : 1050.00",
        ruler,
    ]);
}

#[test]
fn the_summary_tells_of_moved_stops() {
    let mut l = book();
    let m = metrics(&l, d("1000")).unwrap();
    let lines = summary(&heading(), &rules(true), &l, &m).unwrap();
    assert_eq!(lines[11], "BE-SL exits    : 0");
    assert_eq!(lines.len(), 26);
    l.be_sl_exits = 1;
    let lines = summary(&heading(), &rules(false), &l, &m).unwrap();
    assert_eq!(lines[11], "BE-SL exits    : 1");
}

#[test]
fn the_summary_needs_writable_numbers() {
    let l = book();
    let m = metrics(&l, d("1000")).unwrap();
    let mut r = rules(false);
    r.spread_price = Decimal::max_value();
    assert!(summary(&heading(), &r, &l, &m).is_none());
}
