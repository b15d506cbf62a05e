//! The historical-data client: what it asks for, and what it makes of the
//! answers.

use vstd::prelude::*;
use vstd::string::*;

use crate::alpaca::error::{AlpacaError, Trouble};
use crate::alpaca::types::{AlpacaConfig, AssetClass};
use crate::decimal::{one_number, whole_number, zero_number, Decimal, Number};
use crate::domain::{Candle, Symbol, Timeframe};
use crate::text::{nat_text, number_text};
use crate::time::{rfc3339_stamp, Instant, TimePoint};
use crate::time::{FIRST_SECOND, LAST_SECOND};

verus! {

/// Default Alpaca Market Data base URL.
pub const DEFAULT_DATA_URL: &'static str = "https://data.alpaca.markets";

/// Maximum bars Alpaca returns per page.
pub const PAGE_LIMIT: u32 = 10_000;

/// The name that the API has for a timeframe.
pub open spec fn timeframe_name(tf: Timeframe) -> Seq<char> {
    match tf {
        Timeframe::M1 => "1Min"@,
        Timeframe::M2 => "2Min"@,
        Timeframe::M3 => "3Min"@,
        Timeframe::M4 => "4Min"@,
        Timeframe::M5 => "5Min"@,
        Timeframe::M6 => "6Min"@,
        Timeframe::M10 => "10Min"@,
        Timeframe::M12 => "12Min"@,
        Timeframe::M15 => "15Min"@,
        Timeframe::M20 => "20Min"@,
        Timeframe::M30 => "30Min"@,
        Timeframe::H1 => "1Hour"@,
        Timeframe::H2 => "2Hour"@,
        Timeframe::H3 => "3Hour"@,
        Timeframe::H4 => "4Hour"@,
        Timeframe::H6 => "6Hour"@,
        Timeframe::H8 => "8Hour"@,
        Timeframe::H12 => "12Hour"@,
        Timeframe::D1 => "1Day"@,
        Timeframe::W1 => "1Week"@,
        Timeframe::Mn1 => "1Month"@,
    }
}

/// The minutes that one bar covers; a month counts as thirty days.
pub open spec fn bar_minutes(tf: Timeframe) -> int {
    match tf {
        Timeframe::M1 => 1,
        Timeframe::M2 => 2,
        Timeframe::M3 => 3,
        Timeframe::M4 => 4,
        Timeframe::M5 => 5,
        Timeframe::M6 => 6,
        Timeframe::M10 => 10,
        Timeframe::M12 => 12,
        Timeframe::M15 => 15,
        Timeframe::M20 => 20,
        Timeframe::M30 => 30,
        Timeframe::H1 => 60,
        Timeframe::H2 => 120,
        Timeframe::H3 => 180,
        Timeframe::H4 => 240,
        Timeframe::H6 => 360,
        Timeframe::H8 => 480,
        Timeframe::H12 => 720,
        Timeframe::D1 => 1_440,
        Timeframe::W1 => 10_080,
        Timeframe::Mn1 => 43_200,
    }
}

/// How many minutes to look back for `count` bars: twice their span for bars of
/// a day and more, four times for shorter ones, which have gaps at nights and
/// weekends. At least one bar is looked for.
pub open spec fn lookback_minutes(tf: Timeframe, count: nat) -> int {
    bar_minutes(tf) * (if count < 1 {
        1
    } else {
        count as int
    }) * (if bar_minutes(tf) >= 1_440 {
        2int
    } else {
        4
    })
}

/// The name that the API has for a timeframe: `<n>Min`, `<n>Hour`, `1Day`,
/// `1Week` or `1Month`.
pub fn alpaca_timeframe(tf: Timeframe) -> (res: String)
    ensures
        res@ == timeframe_name(tf),
{
    let name = match tf {
        Timeframe::M1 => "1Min",
        Timeframe::M2 => "2Min",
        Timeframe::M3 => "3Min",
        Timeframe::M4 => "4Min",
        Timeframe::M5 => "5Min",
        Timeframe::M6 => "6Min",
        Timeframe::M10 => "10Min",
        Timeframe::M12 => "12Min",
        Timeframe::M15 => "15Min",
        Timeframe::M20 => "20Min",
        Timeframe::M30 => "30Min",
        Timeframe::H1 => "1Hour",
        Timeframe::H2 => "2Hour",
        Timeframe::H3 => "3Hour",
        Timeframe::H4 => "4Hour",
        Timeframe::H6 => "6Hour",
        Timeframe::H8 => "8Hour",
        Timeframe::H12 => "12Hour",
        Timeframe::D1 => "1Day",
        Timeframe::W1 => "1Week",
        Timeframe::Mn1 => "1Month",
    };
    name.to_owned()
}

/// Whole minutes covered by one bar of `tf`.
pub fn tf_minutes(tf: Timeframe) -> (res: i64)
    ensures
        res == bar_minutes(tf),
{
    match tf {
        Timeframe::M1 => 1,
        Timeframe::M2 => 2,
        Timeframe::M3 => 3,
        Timeframe::M4 => 4,
        Timeframe::M5 => 5,
        Timeframe::M6 => 6,
        Timeframe::M10 => 10,
        Timeframe::M12 => 12,
        Timeframe::M15 => 15,
        Timeframe::M20 => 20,
        Timeframe::M30 => 30,
        Timeframe::H1 => 60,
        Timeframe::H2 => 120,
        Timeframe::H3 => 180,
        Timeframe::H4 => 240,
        Timeframe::H6 => 360,
        Timeframe::H8 => 480,
        Timeframe::H12 => 720,
        Timeframe::D1 => 1_440,
        Timeframe::W1 => 10_080,
        Timeframe::Mn1 => 43_200,
    }
}

/// Estimates how many minutes to look back to collect `count` bars. Intraday
/// bars only print during market hours, so the span is padded generously;
/// fetching too much is harmless because only the last `count` are kept.
pub fn estimated_lookback(tf: Timeframe, count: u32) -> (res: i64)
    ensures
        res == lookback_minutes(tf, count as nat),
{
    let minutes: i64 = tf_minutes(tf);
    let bars: i64 = if count < 1 {
        1
    } else {
        count as i64
    };
    assert(0 < minutes * bars <= 43_200 * 0x1_0000_0000) by (nonlinear_arith)
        requires
            0 < minutes <= 43_200,
            0 < bars <= 0x1_0000_0000,
    ;
    let raw_minutes: i64 = minutes * bars;
    if minutes >= 1_440 {
        raw_minutes * 2
    } else {
        raw_minutes * 4
    }
}

/// Pairs of texts.
pub open spec fn pairs(v: Seq<(String, String)>) -> Seq<(Seq<char>, Seq<char>)> {
    v.map_values(|p: (String, String)| (p.0@, p.1@))
}

/// What is asked of the API: a URL, the query and the headers.
#[derive(Debug)]
pub struct PageRequest {
    pub url: String,
    pub query: Vec<(String, String)>,
    pub headers: Vec<(String, String)>,
}

/// The bars that are being fetched, page by page.
#[derive(Debug)]
pub struct BarsFetch {
    pub symbol: String,
    /// The API's name of the timeframe.
    pub tf: String,
    pub start: String,
    pub end: String,
    /// How many of the last bars are kept; all where it is not set.
    pub keep: Option<u32>,
    pub out: Vec<Candle>,
    pub page_token: Option<String>,
    /// The last page has come.
    pub done: bool,
}

impl BarsFetch {
    /// Nothing has come yet of the bars of `symbol` between `start` and `end`.
    pub open spec fn starts(
        self,
        symbol: Seq<char>,
        tf: Timeframe,
        start: TimePoint,
        end: TimePoint,
    ) -> bool {
        &&& self.symbol@ == symbol
        &&& self.tf@ == timeframe_name(tf)
        &&& self.start@ == rfc3339_stamp(start.secs, start.nanos)
        &&& self.end@ == rfc3339_stamp(end.secs, end.nanos)
        &&& self.out@.len() == 0
        &&& self.page_token is None
        &&& !self.done
    }
}

/// The query of a page of stock bars.
pub open spec fn stock_query(cfg: AlpacaConfig, f: BarsFetch) -> Seq<(Seq<char>, Seq<char>)> {
    seq![
        ("timeframe"@, f.tf@),
        ("start"@, f.start@),
        ("end"@, f.end@),
        ("limit"@, nat_text(PAGE_LIMIT as nat)),
        ("adjustment"@, "all"@),
        ("feed"@, cfg.feed@),
        ("sort"@, "asc"@),
    ] + token_query(f)
}

/// The query of a page of crypto bars.
pub open spec fn crypto_query(f: BarsFetch) -> Seq<(Seq<char>, Seq<char>)> {
    seq![
        ("symbols"@, f.symbol@),
        ("timeframe"@, f.tf@),
        ("start"@, f.start@),
        ("end"@, f.end@),
        ("limit"@, nat_text(PAGE_LIMIT as nat)),
        ("sort"@, "asc"@),
    ] + token_query(f)
}

/// The part of a query that asks for the next page.
pub open spec fn token_query(f: BarsFetch) -> Seq<(Seq<char>, Seq<char>)> {
    match f.page_token {
        Some(token) => seq![("page_token"@, token@)],
        None => seq![],
    }
}

/// The endpoint of stock bars.
pub open spec fn stock_url(cfg: AlpacaConfig, symbol: Seq<char>) -> Seq<char> {
    cfg.base_url@ + "/v2/stocks/"@ + symbol + "/bars"@
}

/// The endpoint of crypto bars.
pub open spec fn crypto_url(cfg: AlpacaConfig) -> Seq<char> {
    cfg.base_url@ + "/v1beta3/crypto/"@ + cfg.crypto_loc@ + "/bars"@
}

/// The headers that authorise a request.
pub open spec fn auth_headers(cfg: AlpacaConfig) -> Seq<(Seq<char>, Seq<char>)> {
    seq![("APCA-API-KEY-ID"@, cfg.api_key@), ("APCA-API-SECRET-KEY"@, cfg.api_secret@)]
}

/// What the market is called in a symbol's category.
pub open spec fn category_name(class: AssetClass) -> Seq<char> {
    match class {
        AssetClass::Stock => "Stocks"@,
        AssetClass::Crypto => "Crypto"@,
    }
}

/// The client, without the connection.
#[derive(Debug)]
pub struct AlpacaClient {
    pub cfg: AlpacaConfig,
}

fn entry(name: &str, value: &str) -> (res: (String, String))
    ensures
        res.0@ == name@,
        res.1@ == value@,
{
    (name.to_owned(), value.to_owned())
}

impl AlpacaClient {
    pub fn new(cfg: AlpacaConfig) -> (res: AlpacaClient)
        ensures
            res.cfg == cfg,
    {
        AlpacaClient { cfg }
    }

    /// Synthesizes a `Symbol` for the backtester. Alpaca has no symbol metadata,
    /// so there are sensible defaults: 1 unit = 1 share/coin, USD-quoted, no
    /// broker spread (Alpaca bars are trade-based, not bid/ask).
    pub fn synth_symbol(&self, name: &str) -> (res: Symbol)
        requires
            self.cfg.digits <= 28,
        ensures
            res.name@ == name@,
            res.description@ == "Alpaca "@ + category_name(self.cfg.asset_class) + " "@ + name@,
            res.digits == self.cfg.digits,
            res.point@ == (Number { negative: false, magnitude: 1, scale: self.cfg.digits as nat }),
            res.bid@ == zero_number(),
            res.ask@ == zero_number(),
            res.spread == 0,
            !res.spread_float,
            res.volume_min@ == one_number(),
            res.volume_max@ == whole_number(1_000_000),
            res.volume_step@ == one_number(),
            res.trade_contract_size@ == one_number(),
            res.currency_base@ == name@,
            res.currency_profit@ == "USD"@,
            res.category@ == category_name(self.cfg.asset_class),
    {
        let category = match self.cfg.asset_class {
            AssetClass::Stock => "Stocks",
            AssetClass::Crypto => "Crypto",
        };
        let mut description = "Alpaca ".to_owned();
        description.append(category);
        description.append(" ");
        description.append(name);
        Symbol {
            name: name.to_owned(),
            description,
            digits: self.cfg.digits,
            point: Decimal::new(1, self.cfg.digits),
            bid: Decimal::zero(),
            ask: Decimal::zero(),
            spread: 0,
            spread_float: false,
            volume_min: Decimal::one(),
            volume_max: Decimal::from_unsigned(1_000_000),
            volume_step: Decimal::one(),
            trade_contract_size: Decimal::one(),
            currency_base: name.to_owned(),
            currency_profit: "USD".to_owned(),
            category: category.to_owned(),
        }
    }

    /// Starts to fetch the most recent `count` bars for `symbol` at `timeframe`;
    /// `None` where the time to look back to lies before all that can be named.
    ///
    /// The API pages forward from a start, so the start is far enough back to
    /// cover `count` bars (allowing for nights/weekends/holidays), and the last
    /// `count` are kept.
    pub fn recent_bars(&self, symbol: &str, timeframe: Timeframe, count: u32, now: &Instant) -> (res:
        Option<BarsFetch>)
        requires
            now@.regular(),
        ensures
            ({
                let start = now@.secs - 60 * lookback_minutes(timeframe, count as nat);
                match res {
                    Some(f) => {
                        &&& FIRST_SECOND <= start <= LAST_SECOND
                        &&& f.starts(
                            symbol@,
                            timeframe,
                            TimePoint { secs: start, nanos: now@.nanos },
                            now@,
                        )
                        &&& f.keep == Some(count)
                    },
                    None => !(FIRST_SECOND <= start <= LAST_SECOND),
                }
            }),
    {
        let start = now.minutes_earlier(estimated_lookback(timeframe, count))?;
        let mut fetch = self.bars(symbol, timeframe, &start, now);
        fetch.keep = Some(count);
        Some(fetch)
    }

    /// Starts to fetch all bars in `[start, end]` for `symbol` at `timeframe`,
    /// ascending by time.
    pub fn bars(&self, symbol: &str, timeframe: Timeframe, start: &Instant, end: &Instant) -> (res:
        BarsFetch)
        ensures
            res.starts(symbol@, timeframe, start@, end@),
            res.keep is None,
    {
        BarsFetch {
            symbol: symbol.to_owned(),
            tf: alpaca_timeframe(timeframe),
            start: start.to_rfc3339(),
            end: end.to_rfc3339(),
            keep: None,
            out: Vec::new(),
            page_token: None,
            done: false,
        }
    }

    /// What to ask for next.
    pub fn page_request(&self, fetch: &BarsFetch) -> (res: PageRequest)
        ensures
            match self.cfg.asset_class {
                AssetClass::Stock => {
                    &&& res.url@ == stock_url(self.cfg, fetch.symbol@)
                    &&& pairs(res.query@) == stock_query(self.cfg, *fetch)
                },
                AssetClass::Crypto => {
                    &&& res.url@ == crypto_url(self.cfg)
                    &&& pairs(res.query@) == crypto_query(*fetch)
                },
            },
            pairs(res.headers@) == auth_headers(self.cfg),
    {
        let headers: Vec<(String, String)> = vec![
            entry("APCA-API-KEY-ID", self.cfg.api_key.as_str()),
            entry("APCA-API-SECRET-KEY", self.cfg.api_secret.as_str()),
        ];
        assert(pairs(headers@) =~= auth_headers(self.cfg));
        match self.cfg.asset_class {
            AssetClass::Stock => self.stock_page(fetch, headers),
            AssetClass::Crypto => self.crypto_page(fetch, headers),
        }
    }

    fn stock_page(&self, fetch: &BarsFetch, headers: Vec<(String, String)>) -> (res: PageRequest)
        ensures
            res.url@ == stock_url(self.cfg, fetch.symbol@),
            pairs(res.query@) == stock_query(self.cfg, *fetch),
            res.headers == headers,
    {
        let mut url = self.cfg.base_url.clone();
        url.append("/v2/stocks/");
        url.append(fetch.symbol.as_str());
        url.append("/bars");
        let limit = number_text(PAGE_LIMIT as u64);
        let mut query: Vec<(String, String)> = vec![
            entry("timeframe", fetch.tf.as_str()),
            entry("start", fetch.start.as_str()),
            entry("end", fetch.end.as_str()),
            entry("limit", limit.as_str()),
            entry("adjustment", "all"),
            entry("feed", self.cfg.feed.as_str()),
            entry("sort", "asc"),
        ];
        if let Some(token) = &fetch.page_token {
            query.push(entry("page_token", token.as_str()));
        }
        assert(pairs(query@) =~= stock_query(self.cfg, *fetch));
        PageRequest { url, query, headers }
    }

    fn crypto_page(&self, fetch: &BarsFetch, headers: Vec<(String, String)>) -> (res: PageRequest)
        ensures
            res.url@ == crypto_url(self.cfg),
            pairs(res.query@) == crypto_query(*fetch),
            res.headers == headers,
    {
        let mut url = self.cfg.base_url.clone();
        url.append("/v1beta3/crypto/");
        url.append(self.cfg.crypto_loc.as_str());
        url.append("/bars");
        let limit = number_text(PAGE_LIMIT as u64);
        let mut query: Vec<(String, String)> = vec![
            entry("symbols", fetch.symbol.as_str()),
            entry("timeframe", fetch.tf.as_str()),
            entry("start", fetch.start.as_str()),
            entry("end", fetch.end.as_str()),
            entry("limit", limit.as_str()),
            entry("sort", "asc"),
        ];
        if let Some(token) = &fetch.page_token {
            query.push(entry("page_token", token.as_str()));
        }
        assert(pairs(query@) =~= crypto_query(*fetch));
        PageRequest { url, query, headers }
    }
}

/// The body of an answer with this status, or the error that it is: the message
/// that the API gives, or the body where it gives none.
pub fn answer_text(status: u16, body: String, api_message: Option<String>) -> (res: Result<
    String,
    AlpacaError,
>)
    ensures
        match res {
            Ok(text) => 200 <= status <= 299 && text == body,
            Err(e) => !(200 <= status <= 299) && e@ == (Trouble::Api {
                status: status as nat,
                detail: match api_message {
                    Some(m) => m@,
                    None => body@,
                },
            }),
        },
{
    if 200 <= status && status <= 299 {
        Ok(body)
    } else {
        let detail = match api_message {
            Some(m) => m,
            None => body,
        };
        Err(AlpacaError::Api { status, detail })
    }
}

/// A later page is asked for like the first one, with nothing but its token
/// added at the end.
pub proof fn law_later_pages_add_their_token(
    cfg: AlpacaConfig,
    first: BarsFetch,
    later: BarsFetch,
    token: String,
)
    requires
        first.page_token is None,
        later.page_token == Some(token),
        first.symbol@ == later.symbol@,
        first.tf@ == later.tf@,
        first.start@ == later.start@,
        first.end@ == later.end@,
    ensures
        stock_query(cfg, later) == stock_query(cfg, first).push(("page_token"@, token@)),
        crypto_query(later) == crypto_query(first).push(("page_token"@, token@)),
{
    assert(stock_query(cfg, later) =~= stock_query(cfg, first).push(("page_token"@, token@)));
    assert(crypto_query(later) =~= crypto_query(first).push(("page_token"@, token@)));
}

/// Both kinds of bars are asked for with the timeframe and the span of the fetch,
/// in full pages and in ascending order; stock bars with all adjustments and from
/// the configured feed, crypto bars by their symbol.
pub proof fn law_requests_name_the_span_and_the_order(cfg: AlpacaConfig, f: BarsFetch)
    ensures
        stock_query(cfg, f).contains(("timeframe"@, f.tf@)),
        stock_query(cfg, f).contains(("start"@, f.start@)),
        stock_query(cfg, f).contains(("end"@, f.end@)),
        stock_query(cfg, f).contains(("limit"@, nat_text(10_000))),
        stock_query(cfg, f).contains(("adjustment"@, "all"@)),
        stock_query(cfg, f).contains(("feed"@, cfg.feed@)),
        stock_query(cfg, f).contains(("sort"@, "asc"@)),
        crypto_query(f).contains(("symbols"@, f.symbol@)),
        crypto_query(f).contains(("timeframe"@, f.tf@)),
        crypto_query(f).contains(("start"@, f.start@)),
        crypto_query(f).contains(("end"@, f.end@)),
        crypto_query(f).contains(("limit"@, nat_text(10_000))),
        crypto_query(f).contains(("sort"@, "asc"@)),
        f.page_token is None ==> stock_query(cfg, f).len() == 7 && crypto_query(f).len() == 6,
{
    let (s, c) = (stock_query(cfg, f), crypto_query(f));
    assert(s[0] == ("timeframe"@, f.tf@) && s[1] == ("start"@, f.start@) && s[2] == (
        "end"@,
        f.end@,
    ) && s[3] == ("limit"@, nat_text(10_000)) && s[4] == ("adjustment"@, "all"@) && s[5] == (
        "feed"@,
        cfg.feed@,
    ) && s[6] == ("sort"@, "asc"@));
    assert(c[0] == ("symbols"@, f.symbol@) && c[1] == ("timeframe"@, f.tf@) && c[2] == (
        "start"@,
        f.start@,
    ) && c[3] == ("end"@, f.end@) && c[4] == ("limit"@, nat_text(10_000)) && c[5] == (
        "sort"@,
        "asc"@,
    ));
}

/// A bar of so many hours lasts as long as that many bars of one hour, and so on:
/// the minutes of the timeframes are in the proportions of their names.
pub proof fn law_timeframes_are_in_proportion()
    ensures
        bar_minutes(Timeframe::M1) == 1,
        bar_minutes(Timeframe::H1) == 60 * bar_minutes(Timeframe::M1),
        bar_minutes(Timeframe::D1) == 24 * bar_minutes(Timeframe::H1),
        bar_minutes(Timeframe::W1) == 7 * bar_minutes(Timeframe::D1),
        bar_minutes(Timeframe::Mn1) == 30 * bar_minutes(Timeframe::D1),
        2 * bar_minutes(Timeframe::M30) == bar_minutes(Timeframe::H1),
        3 * bar_minutes(Timeframe::M20) == bar_minutes(Timeframe::H1),
        4 * bar_minutes(Timeframe::M15) == bar_minutes(Timeframe::H1),
        5 * bar_minutes(Timeframe::M12) == bar_minutes(Timeframe::H1),
        6 * bar_minutes(Timeframe::M10) == bar_minutes(Timeframe::H1),
        10 * bar_minutes(Timeframe::M6) == bar_minutes(Timeframe::H1),
        12 * bar_minutes(Timeframe::M5) == bar_minutes(Timeframe::H1),
        15 * bar_minutes(Timeframe::M4) == bar_minutes(Timeframe::H1),
        20 * bar_minutes(Timeframe::M3) == bar_minutes(Timeframe::H1),
        30 * bar_minutes(Timeframe::M2) == bar_minutes(Timeframe::H1),
        bar_minutes(Timeframe::H2) == 2 * bar_minutes(Timeframe::H1),
        bar_minutes(Timeframe::H3) == 3 * bar_minutes(Timeframe::H1),
        bar_minutes(Timeframe::H4) == 4 * bar_minutes(Timeframe::H1),
        bar_minutes(Timeframe::H6) == 6 * bar_minutes(Timeframe::H1),
        bar_minutes(Timeframe::H8) == 8 * bar_minutes(Timeframe::H1),
        bar_minutes(Timeframe::H12) == 12 * bar_minutes(Timeframe::H1),
{
}

/// For no bars as far back is looked as for one. For more, it is twice their
/// span where a bar is of a day or longer, and four times where it is shorter.
pub proof fn law_lookback_is_twice_or_four_times_the_span(tf: Timeframe, count: nat)
    ensures
        lookback_minutes(tf, 0) == lookback_minutes(tf, 1),
        count > 0 && bar_minutes(tf) >= 24 * 60 ==> lookback_minutes(tf, count) == 2 * (bar_minutes(
            tf,
        ) * count),
        count > 0 && bar_minutes(tf) < 24 * 60 ==> lookback_minutes(tf, count) == 4 * (bar_minutes(
            tf,
        ) * count),
{
    let m = bar_minutes(tf);
    let n = count as int;
    assert(m * n * 2 == 2 * (m * n) && m * n * 4 == 4 * (m * n)) by (nonlinear_arith);
}

} // verus!
