//! Where historical data comes from.

use vstd::prelude::*;
use vstd::string::*;

use crate::alpaca::client::{AlpacaClient, DEFAULT_DATA_URL};
use crate::alpaca::types::{asset_class_of, AlpacaConfig, AssetClass};
use crate::config::{fault_of, first, not_above, or_default, required, unsigned_in};
use crate::config::{read_unsigned, required_text, text_or};
use crate::decimal::SCALE_MAX;
use crate::failure::{fault, Failure, Fault};
use crate::text::{all_ascii, law_numbers_are_read_back, lemma_nothing_to_trim, nat_text};
use crate::text::{lowercased, parsed_unsigned, same_text, trimmed, trimmed_lowercase};

verus! {

/// The environment variables that choose a data source, each with the reason
/// where it cannot be had.
#[derive(Debug)]
pub struct FeedEnvironment {
    pub data_source: Result<String, String>,
    pub mt5_base_url: Result<String, String>,
    pub alpaca_api_key: Result<String, String>,
    pub alpaca_api_secret: Result<String, String>,
    pub alpaca_asset_class: Result<String, String>,
    pub alpaca_feed: Result<String, String>,
    pub alpaca_crypto_loc: Result<String, String>,
    pub alpaca_digits: Result<String, String>,
    pub alpaca_data_url: Result<String, String>,
}

/// Historical-data backend. Selected by `DATA_SOURCE` (default `mt5`).
///
/// Both backends yield the same candles and symbols, so the rest of the
/// backtester does not ask where the data came from.
#[derive(Debug)]
pub enum Feed {
    /// The MT5 bridge at this URL.
    Mt5(String),
    Alpaca(AlpacaClient),
}

/// The data source that is asked for.
pub open spec fn source_name(env: FeedEnvironment) -> Seq<char> {
    lowercased(trimmed(or_default(env.data_source, "mt5"@)))
}

/// The asset class that is asked for.
pub open spec fn class_setting(env: FeedEnvironment) -> Result<AssetClass, Fault> {
    match asset_class_of(or_default(env.alpaca_asset_class, "stock"@)) {
        Ok(class) => Ok(class),
        Err(e) => Err(fault(e)),
    }
}

/// The price precision that is asked for.
pub open spec fn digits_setting(env: FeedEnvironment) -> Result<nat, Fault> {
    not_above(
        unsigned_in(
            or_default(env.alpaca_digits, "2"@),
            u8::MAX as nat,
            "ALPACA_DIGITS must be 0-28"@,
        ),
        SCALE_MAX as nat,
        "ALPACA_DIGITS must be 0-28"@,
    )
}

/// The first thing that is wrong with the environment. A source is only held to
/// its own variables.
pub open spec fn feed_fault(env: FeedEnvironment) -> Option<Fault> {
    let source = source_name(env);
    if source == "mt5"@ {
        fault_of(required(env.mt5_base_url, "MT5_BASE_URL missing"@))
    } else if source == "alpaca"@ {
        first(
            fault_of(
                required(
                    env.alpaca_api_key,
                    "ALPACA_API_KEY missing (required for DATA_SOURCE=alpaca)"@,
                ),
            ),
            first(
                fault_of(
                    required(
                        env.alpaca_api_secret,
                        "ALPACA_API_SECRET missing (required for DATA_SOURCE=alpaca)"@,
                    ),
                ),
                first(fault_of(class_setting(env)), fault_of(digits_setting(env))),
            ),
        )
    } else {
        Some(fault("unknown DATA_SOURCE '"@ + source + "' (expected 'mt5' or 'alpaca')"@))
    }
}

/// The configuration is the one in the environment.
pub open spec fn config_reads(cfg: AlpacaConfig, env: FeedEnvironment) -> bool {
    &&& env.alpaca_api_key == Ok::<String, String>(cfg.api_key)
    &&& env.alpaca_api_secret == Ok::<String, String>(cfg.api_secret)
    &&& class_setting(env) == Ok::<AssetClass, Fault>(cfg.asset_class)
    &&& cfg.feed@ == or_default(env.alpaca_feed, "iex"@)
    &&& cfg.crypto_loc@ == or_default(env.alpaca_crypto_loc, "us"@)
    &&& digits_setting(env) == Ok::<nat, Fault>(cfg.digits as nat)
    &&& cfg.base_url@ == or_default(env.alpaca_data_url, DEFAULT_DATA_URL@)
}

impl Feed {
    /// The feed is the one that the environment asks for.
    pub open spec fn reads(self, env: FeedEnvironment) -> bool {
        match self {
            Feed::Mt5(url) => source_name(env) == "mt5"@ && env.mt5_base_url == Ok::<
                String,
                String,
            >(url),
            Feed::Alpaca(client) => source_name(env) == "alpaca"@ && config_reads(client.cfg, env),
        }
    }

    /// Builds the feed from environment variables.
    ///
    /// `DATA_SOURCE=mt5` requires `MT5_BASE_URL`.
    /// `DATA_SOURCE=alpaca` requires `ALPACA_API_KEY` and `ALPACA_API_SECRET`;
    /// optional are `ALPACA_ASSET_CLASS` (stock|crypto), `ALPACA_FEED`
    /// (iex|sip), `ALPACA_CRYPTO_LOC`, `ALPACA_DIGITS` and `ALPACA_DATA_URL`.
    pub fn from_env(env: &FeedEnvironment) -> (res: Result<Feed, Failure>)
        ensures
            match res {
                Ok(feed) => {
                    &&& feed_fault(*env) is None
                    &&& feed.reads(*env)
                    &&& feed matches Feed::Alpaca(client) ==> client.cfg.digits <= SCALE_MAX
                },
                Err(e) => feed_fault(*env) == Some(e@),
            },
    {
        proof {
            reveal_strlit("mt5");
            reveal_strlit("alpaca");
            assert("mt5"@.len() != "alpaca"@.len());
        }
        let source = trimmed_lowercase(text_or(&env.data_source, "mt5"));
        if same_text(source.as_str(), "mt5") {
            let base = required_text(&env.mt5_base_url, "MT5_BASE_URL missing")?;
            Ok(Feed::Mt5(base.clone()))
        } else if same_text(source.as_str(), "alpaca") {
            let cfg = Feed::alpaca_config(env)?;
            Ok(Feed::Alpaca(AlpacaClient::new(cfg)))
        } else {
            let mut message = "unknown DATA_SOURCE '".to_owned();
            message.append(source.as_str());
            message.append("' (expected 'mt5' or 'alpaca')");
            Err(Failure { message, cause: None })
        }
    }

    fn alpaca_config(env: &FeedEnvironment) -> (res: Result<AlpacaConfig, Failure>)
        requires
            source_name(*env) == "alpaca"@,
            "mt5"@ != "alpaca"@,
        ensures
            match res {
                Ok(cfg) => feed_fault(*env) is None && config_reads(cfg, *env),
                Err(e) => feed_fault(*env) == Some(e@),
            },
    {
        let api_key = required_text(
            &env.alpaca_api_key,
            "ALPACA_API_KEY missing (required for DATA_SOURCE=alpaca)",
        )?;
        let api_secret = required_text(
            &env.alpaca_api_secret,
            "ALPACA_API_SECRET missing (required for DATA_SOURCE=alpaca)",
        )?;
        let asset_class = match AssetClass::from_str(text_or(&env.alpaca_asset_class, "stock")) {
            Ok(class) => class,
            Err(message) => return Err(Failure { message, cause: None }),
        };
        let digits: u64 = read_unsigned(
            text_or(&env.alpaca_digits, "2"),
            u8::MAX as u64,
            "ALPACA_DIGITS must be 0-28",
        )?;
        if digits > SCALE_MAX as u64 {
            return Err(Failure::new("ALPACA_DIGITS must be 0-28"));
        }
        Ok(
            AlpacaConfig {
                base_url: text_or(&env.alpaca_data_url, DEFAULT_DATA_URL).to_owned(),
                api_key: api_key.clone(),
                api_secret: api_secret.clone(),
                asset_class,
                feed: text_or(&env.alpaca_feed, "iex").to_owned(),
                crypto_loc: text_or(&env.alpaca_crypto_loc, "us").to_owned(),
                digits: digits as u8,
            },
        )
    }

    /// The name of the data source.
    pub fn name(&self) -> (res: &'static str)
        ensures
            res@ == match self {
                Feed::Mt5(_) => "mt5"@,
                Feed::Alpaca(_) => "alpaca"@,
            },
    {
        match self {
            Feed::Mt5(_) => "mt5",
            Feed::Alpaca(_) => "alpaca",
        }
    }
}

/// A feed that was built has the name of the source that was asked for.
pub proof fn law_feed_is_the_source_asked_for(feed: Feed, env: FeedEnvironment)
    requires
        feed.reads(env),
    ensures
        source_name(env) == match feed {
            Feed::Mt5(_) => "mt5"@,
            Feed::Alpaca(_) => "alpaca"@,
        },
{
}

/// Every client that a feed holds has a price precision that a decimal can
/// have, so that its symbols can be synthesized.
pub proof fn law_feed_precision_is_in_range(feed: Feed, env: FeedEnvironment)
    requires
        feed.reads(env),
    ensures
        feed matches Feed::Alpaca(client) ==> client.cfg.digits <= SCALE_MAX,
{
}

/// Each part of an Alpaca configuration is read from its own variable where that
/// is set, and is otherwise the free feed, the location `us`, stocks, two digits
/// and the public address. Key and secret have to be set.
pub proof fn law_configurations_are_read_from_their_own_variables(
    cfg: AlpacaConfig,
    env: FeedEnvironment,
)
    requires
        config_reads(cfg, env),
    ensures
        env.alpaca_api_key == Ok::<String, String>(cfg.api_key),
        env.alpaca_api_secret == Ok::<String, String>(cfg.api_secret),
        env.alpaca_feed matches Ok(text) ==> cfg.feed@ == text@,
        env.alpaca_feed is Err ==> cfg.feed@ == "iex"@,
        env.alpaca_crypto_loc matches Ok(text) ==> cfg.crypto_loc@ == text@,
        env.alpaca_crypto_loc is Err ==> cfg.crypto_loc@ == "us"@,
        env.alpaca_data_url matches Ok(text) ==> cfg.base_url@ == text@,
        env.alpaca_data_url is Err ==> cfg.base_url@ == "https://data.alpaca.markets"@,
        env.alpaca_digits matches Ok(text) ==> parsed_unsigned(text@, u8::MAX as nat) == Some(
            cfg.digits as nat,
        ),
        env.alpaca_digits is Err ==> cfg.digits == 2,
        env.alpaca_asset_class matches Ok(text) ==> asset_class_of(text@) == Ok::<
            AssetClass,
            Seq<char>,
        >(cfg.asset_class),
        env.alpaca_asset_class is Err ==> cfg.asset_class == AssetClass::Stock,
{
    law_numbers_are_read_back(2, u8::MAX as nat);
    reveal_strlit("2");
    reveal_with_fuel(nat_text, 2);
    assert("2"@ =~= nat_text(2));
    reveal_strlit("stock");
    let s = "stock"@;
    lemma_nothing_to_trim(s);
    assert(all_ascii(s));
    assert(lowercased(s) =~= s);
}

/// The source is `mt5` where none is asked for, and its name is read in any case
/// and with white space round it; any other name than the two is a failure.
pub proof fn law_sources_are_named_in_any_case(env: FeedEnvironment)
    ensures
        env.data_source is Err ==> source_name(env) == "mt5"@,
        env.data_source matches Ok(text) ==> source_name(env) == lowercased(trimmed(text@)),
        source_name(env) != "mt5"@ && source_name(env) != "alpaca"@ ==> feed_fault(env) is Some,
        source_name(env) == "mt5"@ ==> (feed_fault(env) is None <==> env.mt5_base_url is Ok),
        source_name(env) == "alpaca"@ && (env.alpaca_api_key is Err || env.alpaca_api_secret is Err)
            ==> feed_fault(env) is Some,
{
    reveal_strlit("mt5");
    reveal_strlit("alpaca");
    assert("mt5"@.len() != "alpaca"@.len());
    let s = "mt5"@;
    lemma_nothing_to_trim(s);
    assert(all_ascii(s));
    assert(lowercased(s) =~= s);
}

} // verus!
