use hermes::alpaca::bars::{bars_of_symbol, raw_to_candle};
use hermes::alpaca::client::{alpaca_timeframe, answer_text, estimated_lookback, tf_minutes};
use hermes::alpaca::client::{AlpacaClient, DEFAULT_DATA_URL};
use hermes::alpaca::error::AlpacaError;
use hermes::alpaca::types::{AlpacaConfig, AssetClass, RawBar};
use hermes::decimal::Decimal;
use hermes::domain::Timeframe;
use hermes::time::Instant;
use std::str::FromStr;

fn from(x: rust_decimal::Decimal) -> Decimal {
    Decimal::from_parts(x.is_sign_negative(), x.mantissa().unsigned_abs(), x.scale()).unwrap()
}

fn d(s: &str) -> Decimal {
    from(s.parse().unwrap())
}

fn price(v: f64) -> Result<Decimal, String> {
    match rust_decimal::Decimal::try_from(v) {
        Ok(x) => Ok(from(x)),
        Err(e) => Err(format!("{v}: {e}")),
    }
}

fn raw_bar(v: &serde_json::Value) -> RawBar {
    RawBar {
        t: v["t"].as_str().unwrap().to_string(),
        o: price(v["o"].as_f64().unwrap()),
        h: price(v["h"].as_f64().unwrap()),
        l: price(v["l"].as_f64().unwrap()),
        c: price(v["c"].as_f64().unwrap()),
        v: v["v"].as_f64().unwrap().max(0.0) as u64,
        n: v["n"].as_u64().unwrap_or(0),
    }
}

fn raw_bars(v: &serde_json::Value) -> Vec<RawBar> {
    match v.as_array() {
        Some(a) => a.iter().map(raw_bar).collect(),
        None => vec![],
    }
}

fn plain_bar(t: &str, close: &str) -> RawBar {
    RawBar { t: t.to_string(), o: Ok(d("1")), h: Ok(d("2")), l: Ok(d("0.5")), c: Ok(d(close)), v: 3, n: 4 }
}

fn config(asset_class: AssetClass) -> AlpacaConfig {
    AlpacaConfig {
        base_url: DEFAULT_DATA_URL.into(),
        api_key: "k".into(),
        api_secret: "s".into(),
        asset_class,
        feed: "iex".into(),
        crypto_loc: "us".into(),
        digits: 2,
    }
}

#[test]
fn timeframe_mapping_spot_check() {
    assert_eq!(alpaca_timeframe(Timeframe::M15), "15Min");
    assert_eq!(alpaca_timeframe(Timeframe::H4), "4Hour");
    assert_eq!(alpaca_timeframe(Timeframe::D1), "1Day");
}

#[test]
fn parse_stock_bars() {
    let raw = r#"{"bars":[{"t":"2024-01-03T09:00:00Z","o":185.0,"h":186.5,"l":184.2,"c":185.9,"v":120345,"n":982,"vw":185.4}],"symbol":"AAPL","next_page_token":"abc"}"#;
    let r: serde_json::Value = serde_json::from_str(raw).unwrap();
    let bars = raw_bars(&r["bars"]);
    assert_eq!(bars.len(), 1);
    assert_eq!(r["next_page_token"].as_str(), Some("abc"));
    let c = raw_to_candle(&bars[0]).unwrap();
    assert_eq!(c.close, d("185.9"));
    assert_eq!(c.tick_volume, 982);
    assert_eq!(c.real_volume, 120345);
    assert_eq!(c.time, Instant::new(1_704_272_400, 0).unwrap());
    assert_eq!(c.open, d("185"));
    assert_eq!(c.high, d("186.5"));
    assert_eq!(c.low, d("184.2"));
    assert_eq!(c.spread, 0);
}

#[test]
fn parse_crypto_bars_keyed_by_symbol() {
    let raw = r#"{"bars":{"BTC/USD":[{"t":"2024-01-03T09:00:00Z","o":42000.0,"h":42500.0,"l":41800.0,"c":42250.0,"v":12.5,"n":340,"vw":42100.0}]},"next_page_token":null}"#;
    let r: serde_json::Value = serde_json::from_str(raw).unwrap();
    let keyed: Vec<(String, Vec<RawBar>)> =
        r["bars"].as_object().unwrap().iter().map(|(k, v)| (k.clone(), raw_bars(v))).collect();
    assert!(keyed.iter().any(|(k, _)| k == "BTC/USD"));
    assert!(r["next_page_token"].as_str().is_none());
    let bars = bars_of_symbol(keyed, "btc/usd");
    assert_eq!(bars.len(), 1);
    let c = raw_to_candle(&bars[0]).unwrap();
    assert_eq!(c.close, d("42250"));
    assert_eq!(c.real_volume, 12);
}

#[test]
fn empty_bars_field_defaults() {
    let r: serde_json::Value = serde_json::from_str(r#"{"symbol":"AAPL","next_page_token":null}"#).unwrap();
    let bars = raw_bars(&r["bars"]);
    let next = r["next_page_token"].as_str().map(|s| s.to_string());
    assert!(bars.is_empty());
    assert!(next.is_none());
    let t = Instant::new(0, 0).unwrap();
    let mut fetch = AlpacaClient::new(config(AssetClass::Stock)).bars("AAPL", Timeframe::H1, &t, &t);
    fetch.accept(&bars, next).unwrap();
    assert!(fetch.done);
    assert!(fetch.finish().is_empty());
}

#[test]
fn lookback_pads_intraday_more_than_daily() {
    // 100 x 15Min raw span = 1500 min; intraday pads x4.
    assert_eq!(
        chrono::Duration::minutes(estimated_lookback(Timeframe::M15, 100)),
        chrono::Duration::minutes(1500 * 4)
    );
    // 100 x 1Day raw span = 144000 min; daily pads x2.
    assert_eq!(
        chrono::Duration::minutes(estimated_lookback(Timeframe::D1, 100)),
        chrono::Duration::minutes(144_000 * 2)
    );
}

#[test]
fn synth_symbol_derives_point_from_digits() {
    let s = AlpacaClient::new(config(AssetClass::Stock)).synth_symbol("AAPL");
    assert_eq!(s.digits, 2);
    assert_eq!(s.point, d("0.01"));
    assert_eq!(s.volume_step, Decimal::one());
    assert_eq!(s.currency_profit, "USD");
}

#[test]
fn synth_symbol_has_plain_defaults() {
    let s = AlpacaClient::new(config(AssetClass::Crypto)).synth_symbol("BTC/USD");
    assert_eq!(s.name, "BTC/USD");
    assert_eq!(s.description, "Alpaca Crypto BTC/USD");
    assert_eq!(s.category, "Crypto");
    assert_eq!(s.currency_base, "BTC/USD");
    assert_eq!(s.spread, 0);
    assert!(!s.spread_float);
    assert_eq!(s.volume_min, d("1"));
    assert_eq!(s.volume_max, d("1000000"));
    assert_eq!(s.trade_contract_size, d("1"));
    assert_eq!(s.bid, d("0"));
    assert_eq!(s.ask, d("0"));
}

const TIMEFRAMES: [Timeframe; 21] = [
    Timeframe::M1, Timeframe::M2, Timeframe::M3, Timeframe::M4, Timeframe::M5, Timeframe::M6,
    Timeframe::M10, Timeframe::M12, Timeframe::M15, Timeframe::M20, Timeframe::M30, Timeframe::H1,
    Timeframe::H2, Timeframe::H3, Timeframe::H4, Timeframe::H6, Timeframe::H8, Timeframe::H12,
    Timeframe::D1, Timeframe::W1, Timeframe::Mn1,
];

#[test]
fn timeframes_have_distinct_names_and_spans() {
    let names: Vec<String> = TIMEFRAMES.iter().map(|tf| alpaca_timeframe(*tf)).collect();
    assert_eq!(names, ["1Min", "2Min", "3Min", "4Min", "5Min", "6Min", "10Min", "12Min", "15Min", "20Min", "30Min", "1Hour", "2Hour", "3Hour", "4Hour", "6Hour", "8Hour", "12Hour", "1Day", "1Week", "1Month"]);
    let minutes: Vec<i64> = TIMEFRAMES.iter().map(|tf| tf_minutes(*tf)).collect();
    assert_eq!(minutes, [1, 2, 3, 4, 5, 6, 10, 12, 15, 20, 30, 60, 120, 180, 240, 360, 480, 720, 1440, 10080, 43200]);
}

#[test]
fn lookback_covers_at_least_one_bar() {
    assert_eq!(estimated_lookback(Timeframe::H1, 0), 240);
    assert_eq!(estimated_lookback(Timeframe::Mn1, u32::MAX), 43_200 * 4_294_967_295 * 2);
    for tf in TIMEFRAMES {
        assert!(estimated_lookback(tf, 7) >= 2 * 7 * tf_minutes(tf));
    }
}

#[test]
fn asset_class_names() {
    for name in ["stock", " Stocks ", "EQUITY", "us_equity"] {
        assert_eq!(AssetClass::from_str(name), Ok(AssetClass::Stock));
        assert_eq!(<AssetClass as FromStr>::from_str(name), Ok(AssetClass::Stock));
    }
    for name in ["crypto", "CryptoCurrency\n"] {
        assert_eq!(name.parse::<AssetClass>(), Ok(AssetClass::Crypto));
    }
    assert_eq!(
        AssetClass::from_str(" Forex"),
        Err("unknown ALPACA_ASSET_CLASS: forex (expected 'stock' or 'crypto')".to_string())
    );
    assert_eq!(
        AssetClass::from_str("ÄKTIE"),
        Err("unknown ALPACA_ASSET_CLASS: äktie (expected 'stock' or 'crypto')".to_string())
    );
}

#[test]
fn bad_bars_are_named() {
    let mut bar = plain_bar("yesterday", "1.5");
    let e = raw_to_candle(&bar).unwrap_err().message();
    assert!(e.starts_with("invalid configuration: bad bar timestamp 'yesterday': "), "{e}");
    bar = plain_bar("2024-01-03T09:00:00Z", "1.5");
    bar.l = price(f64::NAN);
    let e = raw_to_candle(&bar).unwrap_err().message();
    assert!(e.starts_with("invalid configuration: bad low=NaN: "), "{e}");
    bar.o = Err("x".to_string());
    assert_eq!(raw_to_candle(&bar).unwrap_err().message(), "invalid configuration: bad open=x");
    bar = plain_bar("2024-01-03T09:00:00Z", "1.5");
    bar.h = Err("y".to_string());
    assert_eq!(raw_to_candle(&bar).unwrap_err().message(), "invalid configuration: bad high=y");
    bar = plain_bar("2024-01-03T09:00:00Z", "1.5");
    bar.c = Err("z".to_string());
    assert_eq!(raw_to_candle(&bar).unwrap_err().message(), "invalid configuration: bad close=z");
}

#[test]
fn timestamps_are_read_with_their_offset() {
    let c = raw_to_candle(&plain_bar("2024-01-03T10:30:00.25+01:30", "1")).unwrap();
    assert_eq!(c.time, Instant::new(1_704_272_400, 250_000_000).unwrap());
}

#[test]
fn error_messages() {
    assert_eq!(AlpacaError::Http("timeout".into()).message(), "request failed: timeout");
    assert_eq!(
        AlpacaError::Api { status: 403, detail: "forbidden".into() }.message(),
        "alpaca api error (403): forbidden"
    );
    assert_eq!(AlpacaError::Parse("eof".into()).message(), "response parse failed: eof");
    assert_eq!(AlpacaError::Config("bad".into()).message(), "invalid configuration: bad");
}

#[test]
fn answers_by_status() {
    assert_eq!(answer_text(200, "ok".into(), None).unwrap(), "ok");
    assert_eq!(answer_text(299, "ok".into(), Some("m".into())).unwrap(), "ok");
    let e = answer_text(300, "body".into(), None).unwrap_err().message();
    assert_eq!(e, "alpaca api error (300): body");
    let e = answer_text(199, "body".into(), Some("message".into())).unwrap_err().message();
    assert_eq!(e, "alpaca api error (199): message");
}

fn query(v: &[(String, String)]) -> Vec<(&str, &str)> {
    v.iter().map(|(a, b)| (a.as_str(), b.as_str())).collect()
}

#[test]
fn stock_pages_are_asked_for() {
    let client = AlpacaClient::new(config(AssetClass::Stock));
    let now = Instant::new(1_704_272_400, 0).unwrap();
    let mut fetch = client.recent_bars("AAPL", Timeframe::H1, 3, &now).unwrap();
    let r = client.page_request(&fetch);
    assert_eq!(r.url, "https://data.alpaca.markets/v2/stocks/AAPL/bars");
    assert_eq!(query(&r.headers), [("APCA-API-KEY-ID", "k"), ("APCA-API-SECRET-KEY", "s")]);
    assert_eq!(query(&r.query), [
        ("timeframe", "1Hour"),
        ("start", "2024-01-02T21:00:00+00:00"),
        ("end", "2024-01-03T09:00:00+00:00"),
        ("limit", "10000"),
        ("adjustment", "all"),
        ("feed", "iex"),
        ("sort", "asc"),
    ]);
    fetch.accept(&vec![], Some("tok".into())).unwrap();
    assert!(!fetch.done);
    let r = client.page_request(&fetch);
    assert_eq!(r.query.len(), 8);
    assert_eq!(query(&r.query)[7], ("page_token", "tok"));
}

#[test]
fn crypto_pages_are_asked_for() {
    let client = AlpacaClient::new(config(AssetClass::Crypto));
    let t = Instant::new(1_704_272_400, 500_000_000).unwrap();
    let fetch = client.bars("BTC/USD", Timeframe::D1, &t, &t);
    assert!(fetch.keep.is_none());
    let r = client.page_request(&fetch);
    assert_eq!(r.url, "https://data.alpaca.markets/v1beta3/crypto/us/bars");
    assert_eq!(query(&r.query), [
        ("symbols", "BTC/USD"),
        ("timeframe", "1Day"),
        ("start", "2024-01-03T09:00:00.500+00:00"),
        ("end", "2024-01-03T09:00:00.500+00:00"),
        ("limit", "10000"),
        ("sort", "asc"),
    ]);
}

#[test]
fn looking_back_too_far_has_no_start() {
    let client = AlpacaClient::new(config(AssetClass::Stock));
    let now = Instant::new(1_704_272_400, 0).unwrap();
    assert!(client.recent_bars("AAPL", Timeframe::Mn1, u32::MAX, &now).is_none());
    assert!(client.recent_bars("AAPL", Timeframe::M1, u32::MAX, &now).is_some());
}

#[test]
fn pages_join_in_order_and_the_last_are_kept() {
    let client = AlpacaClient::new(config(AssetClass::Stock));
    let now = Instant::new(1_704_272_400, 0).unwrap();
    let mut fetch = client.recent_bars("AAPL", Timeframe::H1, 2, &now).unwrap();
    let first = vec![plain_bar("2024-01-03T06:00:00Z", "1"), plain_bar("2024-01-03T07:00:00Z", "2")];
    let second = vec![plain_bar("2024-01-03T08:00:00Z", "3")];
    fetch.accept(&first, Some("tok".into())).unwrap();
    assert_eq!(fetch.page_token.as_deref(), Some("tok"));
    fetch.accept(&second, None).unwrap();
    assert!(fetch.done);
    let closes: Vec<Decimal> = fetch.out.iter().map(|c| c.close).collect();
    assert_eq!(closes, [d("1"), d("2"), d("3")]);
    let kept: Vec<Decimal> = fetch.finish().iter().map(|c| c.close).collect();
    assert_eq!(kept, [d("2"), d("3")]);
}

#[test]
fn fewer_bars_than_asked_for_are_all_kept() {
    let client = AlpacaClient::new(config(AssetClass::Stock));
    let now = Instant::new(1_704_272_400, 0).unwrap();
    let mut fetch = client.recent_bars("AAPL", Timeframe::H1, 9, &now).unwrap();
    fetch.accept(&vec![plain_bar("2024-01-03T06:00:00Z", "1")], None).unwrap();
    assert_eq!(fetch.finish().len(), 1);
}

#[test]
fn a_bad_bar_ends_the_fetch() {
    let client = AlpacaClient::new(config(AssetClass::Stock));
    let t = Instant::new(0, 0).unwrap();
    let mut fetch = client.bars("AAPL", Timeframe::H1, &t, &t);
    let page = vec![plain_bar("2024-01-03T06:00:00Z", "1"), plain_bar("never", "1"), plain_bar("no", "1")];
    let e = fetch.accept(&page, None).unwrap_err().message();
    assert!(e.contains("'never'"), "{e}");
    assert!(!fetch.done);
    assert_eq!(fetch.out.len(), 1);
}

#[test]
fn bars_of_a_symbol_prefer_the_exact_key() {
    let keyed = || vec![
        ("btc/usd".to_string(), vec![plain_bar("a", "1")]),
        ("BTC/USD".to_string(), vec![plain_bar("b", "1"), plain_bar("c", "1")]),
    ];
    assert_eq!(bars_of_symbol(keyed(), "BTC/USD").len(), 2);
    assert_eq!(bars_of_symbol(keyed(), "Btc/Usd").len(), 1);
    assert!(bars_of_symbol(keyed(), "ETH/USD").is_empty());
    assert!(bars_of_symbol(vec![], "ETH/USD").is_empty());
}

#[test]
fn order_of_keys_is_immaterial() {
    let pair = |key: &str, bars: usize| {
        (key.to_string(), (0..bars).map(|_| plain_bar("a", "1")).collect::<Vec<RawBar>>())
    };
    for symbol in ["BTC/USD", "btc/usd", "ETH/USD", "eth/usd", "X"] {
        let one = bars_of_symbol(vec![pair("BTC/USD", 1), pair("ETH/USD", 2)], symbol);
        let other = bars_of_symbol(vec![pair("ETH/USD", 2), pair("BTC/USD", 1)], symbol);
        assert_eq!(one.len(), other.len());
    }
}

#[test]
fn a_configuration_can_be_copied() {
    let cfg = config(AssetClass::Crypto);
    let copy = cfg.clone();
    assert_eq!((copy.api_key, copy.digits, copy.asset_class), (cfg.api_key, cfg.digits, cfg.asset_class));
}

#[test]
fn looking_back_ends_with_the_calendar() {
    let client = AlpacaClient::new(config(AssetClass::Stock));
    let first = chrono::DateTime::<chrono::Utc>::MIN_UTC.timestamp();
    let at = |s: i64| client.recent_bars("AAPL", Timeframe::M1, 1, &Instant::new(s, 5).unwrap());
    assert_eq!(at(first + 240).unwrap().start, chrono::DateTime::from_timestamp(first, 5).unwrap().to_rfc3339());
    assert!(at(first + 239).is_none());
}
