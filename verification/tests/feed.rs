use hermes::alpaca::types::AssetClass;
use hermes::feed::{Feed, FeedEnvironment};

const UNSET: &str = "environment variable not found";

fn set(s: &str) -> Result<String, String> {
    Ok(s.to_string())
}

fn unset() -> Result<String, String> {
    Err(UNSET.to_string())
}

fn empty() -> FeedEnvironment {
    FeedEnvironment {
        data_source: unset(),
        mt5_base_url: unset(),
        alpaca_api_key: unset(),
        alpaca_api_secret: unset(),
        alpaca_asset_class: unset(),
        alpaca_feed: unset(),
        alpaca_crypto_loc: unset(),
        alpaca_digits: unset(),
        alpaca_data_url: unset(),
    }
}

fn alpaca() -> FeedEnvironment {
    FeedEnvironment {
        data_source: set(" Alpaca "),
        alpaca_api_key: set("k"),
        alpaca_api_secret: set("s"),
        ..empty()
    }
}

fn message(env: FeedEnvironment) -> String {
    Feed::from_env(&env).unwrap_err().message
}

#[test]
fn mt5_is_the_default() {
    let feed = Feed::from_env(&FeedEnvironment { mt5_base_url: set("http://x"), ..empty() }).unwrap();
    assert_eq!(feed.name(), "mt5");
    assert!(matches!(feed, Feed::Mt5(url) if url == "http://x"));
    assert_eq!(message(empty()), "MT5_BASE_URL missing");
}

#[test]
fn alpaca_defaults() {
    let feed = Feed::from_env(&alpaca()).unwrap();
    assert_eq!(feed.name(), "alpaca");
    match feed {
        Feed::Alpaca(client) => {
            let c = client.cfg;
            assert_eq!((c.api_key.as_str(), c.api_secret.as_str()), ("k", "s"));
            assert_eq!(c.asset_class, AssetClass::Stock);
            assert_eq!((c.feed.as_str(), c.crypto_loc.as_str(), c.digits), ("iex", "us", 2));
            assert_eq!(c.base_url, "https://data.alpaca.markets");
        }
        other => panic!("{other:?}"),
    }
}

#[test]
fn alpaca_options() {
    let env = FeedEnvironment {
        alpaca_asset_class: set("Crypto"),
        alpaca_feed: set("sip"),
        alpaca_crypto_loc: set("eu"),
        alpaca_digits: set("28"),
        alpaca_data_url: set("http://y"),
        ..alpaca()
    };
    match Feed::from_env(&env).unwrap() {
        Feed::Alpaca(client) => {
            let c = client.cfg;
            assert_eq!(c.asset_class, AssetClass::Crypto);
            assert_eq!((c.feed.as_str(), c.crypto_loc.as_str(), c.digits), ("sip", "eu", 28));
            assert_eq!(c.base_url, "http://y");
        }
        other => panic!("{other:?}"),
    }
}

#[test]
fn feed_failures_say_why() {
    assert_eq!(
        message(FeedEnvironment { alpaca_api_key: unset(), ..alpaca() }),
        "ALPACA_API_KEY missing (required for DATA_SOURCE=alpaca)"
    );
    assert_eq!(
        message(FeedEnvironment { alpaca_api_secret: unset(), ..alpaca() }),
        "ALPACA_API_SECRET missing (required for DATA_SOURCE=alpaca)"
    );
    assert_eq!(
        message(FeedEnvironment { alpaca_asset_class: set("bonds"), ..alpaca() }),
        "unknown ALPACA_ASSET_CLASS: bonds (expected 'stock' or 'crypto')"
    );
    assert_eq!(
        message(FeedEnvironment { alpaca_digits: set("256"), ..alpaca() }),
        "ALPACA_DIGITS must be 0-28"
    );
    assert_eq!(
        message(FeedEnvironment { alpaca_digits: set("29"), ..alpaca() }),
        "ALPACA_DIGITS must be 0-28"
    );
    assert_eq!(
        message(FeedEnvironment { alpaca_digits: set("two"), ..alpaca() }),
        "ALPACA_DIGITS must be 0-28"
    );
    assert_eq!(
        message(FeedEnvironment { data_source: set(" CSV"), ..alpaca() }),
        "unknown DATA_SOURCE 'csv' (expected 'mt5' or 'alpaca')"
    );
}

fn cause(env: FeedEnvironment) -> Option<String> {
    Feed::from_env(&env).unwrap_err().cause
}

#[test]
fn feed_failures_have_their_reasons() {
    assert_eq!(cause(empty()).as_deref(), Some(UNSET));
    assert_eq!(cause(FeedEnvironment { alpaca_api_key: unset(), ..alpaca() }).as_deref(), Some(UNSET));
    assert_eq!(cause(FeedEnvironment { alpaca_api_secret: unset(), ..alpaca() }).as_deref(), Some(UNSET));
    for text in ["", "+", "two", "256", "-1"] {
        let expected = text.parse::<u8>().unwrap_err().to_string();
        assert_eq!(cause(FeedEnvironment { alpaca_digits: set(text), ..alpaca() }), Some(expected));
    }
    for text in ["29", "255"] {
        assert_eq!(cause(FeedEnvironment { alpaca_digits: set(text), ..alpaca() }), None);
    }
    assert_eq!(cause(FeedEnvironment { alpaca_asset_class: set("bonds"), ..alpaca() }), None);
    assert_eq!(cause(FeedEnvironment { data_source: set("csv"), ..alpaca() }), None);
}

#[test]
fn every_accepted_precision_makes_a_symbol() {
    for digits in ["0", "2", "28"] {
        match Feed::from_env(&FeedEnvironment { alpaca_digits: set(digits), ..alpaca() }).unwrap() {
            Feed::Alpaca(client) => {
                assert!(client.cfg.digits <= 28);
                let point = client.synth_symbol("AAPL").point;
                assert_eq!((point.magnitude(), point.scale().to_string()), (1, digits.to_string()));
            }
            other => panic!("{other:?}"),
        }
    }
}
