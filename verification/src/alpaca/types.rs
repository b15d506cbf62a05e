//! What the API serves.

use std::str::FromStr;
use vstd::prelude::*;
use vstd::string::*;

use crate::decimal::Decimal;
use crate::text::{lowercased, same_text, trimmed, trimmed_lowercase};

verus! {

/// Asset class served by Alpaca Market Data. Selects the endpoint and the
/// shape of the bars response.
#[derive(Debug, Clone, Copy, PartialEq, Eq, Structural)]
pub enum AssetClass {
    /// US equities: `/v2/stocks/{symbol}/bars`.
    Stock,
    /// Crypto: `/v1beta3/crypto/{loc}/bars`.
    Crypto,
}

/// The asset class that a text names, in any case and with white space round
/// it, or what is wrong with it.
pub open spec fn asset_class_of(s: Seq<char>) -> Result<AssetClass, Seq<char>> {
    let name = lowercased(trimmed(s));
    if name == "stock"@ || name == "stocks"@ || name == "equity"@ || name == "us_equity"@ {
        Ok(AssetClass::Stock)
    } else if name == "crypto"@ || name == "cryptocurrency"@ {
        Ok(AssetClass::Crypto)
    } else {
        Err("unknown ALPACA_ASSET_CLASS: "@ + name + " (expected 'stock' or 'crypto')"@)
    }
}

impl AssetClass {
    /// Reads the name of an asset class.
    pub fn from_str(s: &str) -> (res: Result<AssetClass, String>)
        ensures
            match res {
                Ok(class) => asset_class_of(s@) == Ok::<AssetClass, Seq<char>>(class),
                Err(e) => asset_class_of(s@) == Err::<AssetClass, Seq<char>>(e@),
            },
    {
        let name = trimmed_lowercase(s);
        let n = name.as_str();
        if same_text(n, "stock") || same_text(n, "stocks") || same_text(n, "equity") || same_text(
            n,
            "us_equity",
        ) {
            Ok(AssetClass::Stock)
        } else if same_text(n, "crypto") || same_text(n, "cryptocurrency") {
            Ok(AssetClass::Crypto)
        } else {
            let mut message = "unknown ALPACA_ASSET_CLASS: ".to_owned();
            message.append(n);
            message.append(" (expected 'stock' or 'crypto')");
            Err(message)
        }
    }
}

impl FromStr for AssetClass {
    type Err = String;

    /// Reads the name of an asset class.
    fn from_str(s: &str) -> (res: Result<AssetClass, String>)
        ensures
            match res {
                Ok(class) => asset_class_of(s@) == Ok::<AssetClass, Seq<char>>(class),
                Err(e) => asset_class_of(s@) == Err::<AssetClass, Seq<char>>(e@),
            },
    {
        AssetClass::from_str(s)
    }
}

/// A single OHLCV bar as the API returns it (stock and crypto share this
/// shape), each price with the reason where it is no decimal.
#[derive(Debug)]
pub struct RawBar {
    /// RFC 3339 timestamp, e.g. "2024-01-03T09:00:00Z".
    pub t: String,
    pub o: Result<Decimal, String>,
    pub h: Result<Decimal, String>,
    pub l: Result<Decimal, String>,
    pub c: Result<Decimal, String>,
    /// Volume (shares / coins), in whole units.
    pub v: u64,
    /// Trade count.
    pub n: u64,
}

/// Configuration for the Alpaca historical-data client.
#[derive(Debug, Clone)]
pub struct AlpacaConfig {
    pub base_url: String,
    pub api_key: String,
    pub api_secret: String,
    pub asset_class: AssetClass,
    /// Data feed for stocks (`iex` free / `sip` paid). Ignored for crypto.
    pub feed: String,
    /// Crypto location (e.g. "us"). Ignored for stocks.
    pub crypto_loc: String,
    /// Price precision used to synthesize the `Symbol` (digits + derived point).
    pub digits: u8,
}

} // verus!
