use chrono::{Datelike, NaiveDate};
use hermes::config::{confirm_source, trading_rules, trend_source};
use hermes::config::{Environment, Settings, TrendSource};
use hermes::decimal::Decimal;
use hermes::domain::Symbol;
use hermes::killzone::KillzoneWindow;

fn d(s: &str) -> Decimal {
    let x: rust_decimal::Decimal = s.parse().unwrap();
    Decimal::from_parts(x.is_sign_negative(), x.mantissa().unsigned_abs(), x.scale()).unwrap()
}

const UNSET: &str = "environment variable not found";

fn set(s: &str) -> Result<String, String> {
    Ok(s.to_string())
}

fn unset() -> Result<String, String> {
    Err(UNSET.to_string())
}

fn empty() -> Environment {
    Environment {
        symbol: unset(),
        timeframe: unset(),
        candle_count: unset(),
        risk_pct: unset(),
        backtest_candles: unset(),
        backtest_balance: unset(),
        min_sl_distance: unset(),
        slippage_points: unset(),
        spread_override: unset(),
        commission_per_lot: unset(),
        swing_period: unset(),
        min_rr: unset(),
        killzone_windows: unset(),
        atr_sl_mult: unset(),
        breakeven_sl_1r: unset(),
        partial_tp_1r: unset(),
        timeout_candles: unset(),
        trend_ema_period: unset(),
        trend_tf: unset(),
        trend_h4_confirm: unset(),
        trend_h4_period: unset(),
        dow_filter: unset(),
        trailing_2r: unset(),
        partial_tp_2r: unset(),
        friday_close_hour: unset(),
        atr_min_price: unset(),
        date_from: unset(),
        date_to: unset(),
    }
}

fn minimal() -> Environment {
    Environment {
        symbol: set("XAUUSDm"),
        timeframe: set("M15"),
        candle_count: set("200"),
        backtest_candles: set("50000"),
        backtest_balance: set("5000"),
        ..empty()
    }
}

#[test]
fn defaults_are_the_documented_ones() {
    let s = Settings::read(&minimal()).unwrap();
    assert_eq!((s.scope.symbol.as_str(), s.scope.timeframe.as_str()), ("XAUUSDm", "M15"));
    assert_eq!((s.scope.window_size, s.scope.backtest_candles), (200, 50_000));
    assert_eq!((s.scope.risk_pct, s.scope.backtest_balance), (d("0.01"), d("5000")));
    assert_eq!((s.pricing.min_sl_distance, s.pricing.slippage_points), (d("0"), d("5")));
    assert!(s.pricing.spread_override.is_none());
    assert_eq!((s.pricing.commission_per_lot, s.pricing.min_rr), (d("0"), d("2.5")));
    assert_eq!(s.pricing.swing_period, 2);
    assert_eq!(s.pricing.killzone_windows, [
        KillzoneWindow { start_min: 480, end_min: 780 },
        KillzoneWindow { start_min: 900, end_min: 1080 },
    ]);
    let h = s.handling;
    assert!(h.atr_sl_mult.is_none() && !h.breakeven_sl_1r && h.partial_tp_1r);
    assert_eq!((h.timeout_candles, h.trend_ema_period, h.trend_h4_period), (0, 0, 20));
    assert!(!h.trend_tf_h1 && h.trend_h4_confirm);
    let c = s.calendar;
    assert!(c.dow_filter && !c.trailing_2r && c.partial_tp_2r);
    assert_eq!(c.friday_close_hour, 21);
    assert!(c.atr_min_price.is_none() && c.date_from.is_none() && c.date_to.is_none());
}

#[test]
fn every_variable_is_read() {
    let env = Environment {
        risk_pct: set("0.02"),
        min_sl_distance: set("0.001"),
        slippage_points: set("3.5"),
        spread_override: set("0"),
        commission_per_lot: set("7.0"),
        swing_period: set("4"),
        min_rr: set("0"),
        killzone_windows: set(""),
        atr_sl_mult: set("1.5"),
        breakeven_sl_1r: set(" TRUE "),
        partial_tp_1r: set("no"),
        timeout_candles: set("48"),
        trend_ema_period: set("+20"),
        trend_tf: set(" h1"),
        trend_h4_confirm: set("false"),
        trend_h4_period: set("50"),
        dow_filter: set("0"),
        trailing_2r: set("True"),
        partial_tp_2r: set(""),
        friday_close_hour: set("23"),
        atr_min_price: set("0.5"),
        date_from: set("2024-01-31"),
        date_to: set("2024-12-01"),
        ..minimal()
    };
    let s = Settings::read(&env).unwrap();
    assert_eq!(s.scope.risk_pct, d("0.02"));
    assert_eq!((s.pricing.min_sl_distance, s.pricing.slippage_points), (d("0.001"), d("3.5")));
    assert_eq!(s.pricing.spread_override, Some(d("0")));
    assert_eq!((s.pricing.commission_per_lot, s.pricing.min_rr), (d("7"), d("0")));
    assert_eq!(s.pricing.swing_period, 4);
    assert!(s.pricing.killzone_windows.is_empty());
    let h = s.handling;
    assert_eq!(h.atr_sl_mult, Some(d("1.5")));
    assert!(h.breakeven_sl_1r && !h.partial_tp_1r);
    assert_eq!((h.timeout_candles, h.trend_ema_period, h.trend_h4_period), (48, 20, 50));
    assert!(h.trend_tf_h1 && !h.trend_h4_confirm);
    let c = s.calendar;
    assert!(!c.dow_filter && c.trailing_2r && !c.partial_tp_2r);
    assert_eq!(c.friday_close_hour, 23);
    assert_eq!(c.atr_min_price, Some(d("0.5")));
    let day = |y: i32, m: u32, d: u32| NaiveDate::from_ymd_opt(y, m, d).unwrap().num_days_from_ce();
    assert_eq!((c.date_from, c.date_to), (Some(day(2024, 1, 31)), Some(day(2024, 12, 1))));
}

#[test]
fn multiples_that_are_not_positive_switch_off() {
    let env = Environment { atr_sl_mult: set("0"), atr_min_price: set("-1"), ..minimal() };
    let s = Settings::read(&env).unwrap();
    assert!(s.handling.atr_sl_mult.is_none());
    assert!(s.calendar.atr_min_price.is_none());
}

fn message(env: Environment) -> String {
    Settings::read(&env).unwrap_err().message
}

#[test]
fn missing_variables_in_order() {
    let mut env = empty();
    assert_eq!(message(empty()), "SYMBOL missing");
    env.symbol = set("X");
    assert_eq!(message(Environment { symbol: set("X"), ..empty() }), "TIMEFRAME missing");
    env.timeframe = set("M15");
    assert_eq!(Settings::read(&env).unwrap_err().message, "CANDLE_COUNT missing");
    env.candle_count = set("1");
    assert_eq!(Settings::read(&env).unwrap_err().message, "BACKTEST_CANDLES missing");
    env.backtest_candles = set("1");
    assert_eq!(Settings::read(&env).unwrap_err().message, "BACKTEST_BALANCE missing");
    env.backtest_balance = set("1");
    assert!(Settings::read(&env).is_ok());
}

#[test]
fn each_bad_variable_is_named() {
    let cases: Vec<(Environment, &str)> = vec![
        (Environment { candle_count: set("x"), ..minimal() }, "CANDLE_COUNT must be a positive integer"),
        (Environment { candle_count: set("0"), ..minimal() }, "CANDLE_COUNT must be at least 1"),
        (Environment { risk_pct: set("1%"), ..minimal() }, "RISK_PCT must be a decimal (e.g. 0.01)"),
        (Environment { backtest_candles: set("4294967296"), ..minimal() }, "BACKTEST_CANDLES must be a u32"),
        (Environment { backtest_balance: set(""), ..minimal() }, "BACKTEST_BALANCE must be a decimal (e.g. 5000)"),
        (Environment { min_sl_distance: set("x"), ..minimal() }, "MIN_SL_DISTANCE must be a decimal (e.g. 0.0010)"),
        (Environment { min_sl_distance: set("-0.50"), ..minimal() }, "MIN_SL_DISTANCE must be >= 0, got -0.50"),
        (Environment { slippage_points: set("x"), ..minimal() }, "SLIPPAGE_POINTS must be a decimal (e.g. 5)"),
        (Environment { slippage_points: set("-1"), ..minimal() }, "SLIPPAGE_POINTS must be >= 0"),
        (Environment { spread_override: set("x"), ..minimal() }, "SPREAD_OVERRIDE must be a decimal (e.g. 0 or 0.00002)"),
        (Environment { commission_per_lot: set("x"), ..minimal() }, "COMMISSION_PER_LOT must be a decimal (e.g. 7.0)"),
        (Environment { swing_period: set("-1"), ..minimal() }, "SWING_PERIOD must be a positive integer"),
        (Environment { swing_period: set("0"), ..minimal() }, "SWING_PERIOD must be >= 1"),
        (Environment { min_rr: set("x"), ..minimal() }, "MIN_RR must be a decimal (e.g. 2.0)"),
        (Environment { min_rr: set("-2"), ..minimal() }, "MIN_RR must be >= 0"),
        (Environment { atr_sl_mult: set("x"), ..minimal() }, "ATR_SL_MULT must be a decimal (e.g. 1.0)"),
        (Environment { timeout_candles: set("x"), ..minimal() }, "TIMEOUT_CANDLES must be a non-negative integer"),
        (Environment { trend_ema_period: set("1.5"), ..minimal() }, "TREND_EMA_PERIOD must be a non-negative integer"),
        (Environment { trend_h4_period: set(" 5"), ..minimal() }, "TREND_H4_PERIOD must be a positive integer"),
        (Environment { trend_h4_period: set("0"), ..minimal() }, "TREND_H4_PERIOD must be a positive integer"),
        (Environment { friday_close_hour: set("nine"), ..minimal() }, "FRIDAY_CLOSE_HOUR must be 0-23"),
        (Environment { friday_close_hour: set("24"), ..minimal() }, "FRIDAY_CLOSE_HOUR must be 0-23"),
        (Environment { atr_min_price: set("x"), ..minimal() }, "ATR_MIN_PRICE must be a decimal"),
        (Environment { date_from: set("2024-02-30"), ..minimal() }, "DATE_FROM must be YYYY-MM-DD"),
        (Environment { date_to: set("01/02/2024"), ..minimal() }, "DATE_TO must be YYYY-MM-DD"),
    ];
    for (env, expected) in cases {
        assert_eq!(message(env), expected);
    }
    let e = Settings::read(&Environment { killzone_windows: set("25:00-26:00"), ..minimal() }).unwrap_err();
    assert_eq!(e.message, "KILLZONE_WINDOWS parse error");
    assert_eq!(e.cause.as_deref(), Some("hour > 23 in '25:00'"));
}

fn cause(env: Environment) -> Option<String> {
    Settings::read(&env).unwrap_err().cause
}

#[test]
fn a_missing_variable_has_its_reason() {
    assert_eq!(cause(empty()).as_deref(), Some(UNSET));
    let reason = "environment variable was not valid unicode: \"\\xFF\"";
    let env = Environment { backtest_balance: Err(reason.to_string()), ..minimal() };
    assert_eq!(cause(env).as_deref(), Some(reason));
    let env = Environment { min_rr: Err(reason.to_string()), date_to: Err(reason.to_string()), ..minimal() };
    let s = Settings::read(&env).unwrap();
    assert_eq!((s.pricing.min_rr, s.calendar.date_to), (d("2.5"), None));
}

#[test]
fn bad_integers_have_the_reason_of_the_standard_library() {
    let texts = [
        "", "+", "-", "-1", "+1x", " 5", "1.5", "x", "4294967296", "4294967296x", "429496729x", "99999999999",
        "00000000000000000004294967296", "\u{0665}", "++1",
    ];
    for text in texts {
        let expected = text.parse::<u32>().unwrap_err().to_string();
        assert_eq!(cause(Environment { backtest_candles: set(text), ..minimal() }), Some(expected.clone()), "{text}");
        assert_eq!(cause(Environment { friday_close_hour: set(text), ..minimal() }), Some(expected), "{text}");
    }
    for text in ["", "18446744073709551616", "1844674407370955161x"] {
        let expected = text.parse::<usize>().unwrap_err().to_string();
        for env in [
            Environment { candle_count: set(text), ..minimal() },
            Environment { swing_period: set(text), ..minimal() },
            Environment { timeout_candles: set(text), ..minimal() },
            Environment { trend_ema_period: set(text), ..minimal() },
            Environment { trend_h4_period: set(text), ..minimal() },
        ] {
            assert_eq!(cause(env), Some(expected.clone()));
        }
    }
    let env = Environment { backtest_candles: set("0000000000004294967295"), ..minimal() };
    assert_eq!(Settings::read(&env).unwrap().scope.backtest_candles, u32::MAX);
}

#[test]
fn bad_decimals_and_days_have_the_reason_of_their_crates() {
    for text in ["", "x", "1%", "1.2.3", "79228162514264337593543950336"] {
        let expected = text.parse::<rust_decimal::Decimal>().unwrap_err().to_string();
        for env in [
            Environment { risk_pct: set(text), ..minimal() },
            Environment { backtest_balance: set(text), ..minimal() },
            Environment { spread_override: set(text), ..minimal() },
            Environment { atr_sl_mult: set(text), ..minimal() },
            Environment { atr_min_price: set(text), ..minimal() },
        ] {
            assert_eq!(cause(env), Some(expected.clone()), "{text}");
        }
    }
    for text in ["", "2024-02-30", "01/02/2024", "2024-01-01x"] {
        let expected = text.parse::<NaiveDate>().unwrap_err().to_string();
        assert_eq!(cause(Environment { date_from: set(text), ..minimal() }), Some(expected.clone()));
        assert_eq!(cause(Environment { date_to: set(text), ..minimal() }), Some(expected));
    }
}

#[test]
fn values_out_of_bounds_have_no_further_reason() {
    for env in [
        Environment { candle_count: set("0"), ..minimal() },
        Environment { min_sl_distance: set("-0.50"), ..minimal() },
        Environment { slippage_points: set("-1"), ..minimal() },
        Environment { swing_period: set("0"), ..minimal() },
        Environment { min_rr: set("-2"), ..minimal() },
        Environment { trend_h4_period: set("0"), ..minimal() },
        Environment { friday_close_hour: set("24"), ..minimal() },
    ] {
        assert_eq!(cause(env), None);
    }
}

#[test]
fn the_first_fault_is_told() {
    let env = Environment { min_rr: set("x"), candle_count: set("0"), date_to: set("x"), ..minimal() };
    assert_eq!(message(env), "CANDLE_COUNT must be at least 1");
    let env = Environment { min_rr: set("x"), date_to: set("x"), ..minimal() };
    assert_eq!(message(env), "MIN_RR must be a decimal (e.g. 2.0)");
}

fn symbol(currency: &str) -> Symbol {
    Symbol {
        name: "EURUSD".to_string(),
        description: String::new(),
        digits: 5,
        point: d("0.00001"),
        bid: d("1"),
        ask: d("1"),
        spread: 12,
        spread_float: true,
        volume_min: d("0.01"),
        volume_max: d("200"),
        volume_step: d("0.01"),
        trade_contract_size: d("100000"),
        currency_base: "EUR".to_string(),
        currency_profit: currency.to_string(),
        category: String::new(),
    }
}

#[test]
fn rules_follow_settings_and_symbol() {
    let s = Settings::read(&minimal()).unwrap();
    let r = trading_rules(&s, &symbol("usd")).unwrap();
    assert_eq!((r.spread_price, r.slippage_price), (d("0.00012"), d("0.00005")));
    assert_eq!(r.contract_size, d("100000"));
    assert!(r.profit_is_usd);
    assert_eq!((r.risk.risk_pct, r.risk.value_per_lot), (d("0.01"), d("100000")));
    assert_eq!((r.risk.min_volume, r.risk.max_volume, r.risk.volume_step), (d("0.01"), d("200"), d("0.01")));
    assert_eq!(r.killzone_windows.len(), 2);
    assert_eq!((r.min_rr, r.friday_close_hour), (d("2.5"), Some(21)));
    assert!(!trading_rules(&s, &symbol("JPY")).unwrap().profit_is_usd);
    let s = Settings::read(&Environment { spread_override: set("0.5"), ..minimal() }).unwrap();
    assert_eq!(trading_rules(&s, &symbol("USD")).unwrap().spread_price, d("0.5"));
    let mut far = symbol("USD");
    far.point = Decimal::max_value();
    assert!(trading_rules(&s, &far).is_none());
}

#[test]
fn trend_candles_come_from_where_the_settings_say() {
    let source = |period: &str, tf: &str| {
        let env = Environment { trend_ema_period: set(period), trend_tf: set(tf), ..minimal() };
        trend_source(&Settings::read(&env).unwrap().handling)
    };
    assert_eq!(source("0", "H1"), TrendSource::Off);
    assert_eq!(source("20", "H1"), TrendSource::Own);
    assert_eq!(source("20", "H4"), TrendSource::H4);
    assert_eq!(source("20", "M5"), TrendSource::H4);
    let confirmed = |on: &str| {
        let env = Environment { trend_h4_confirm: set(on), ..minimal() };
        confirm_source(&Settings::read(&env).unwrap().handling)
    };
    assert_eq!(confirmed("true"), TrendSource::H4);
    assert_eq!(confirmed("false"), TrendSource::Off);
}
