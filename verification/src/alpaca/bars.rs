//! Bars as they come from the API, turned into candles.

use vstd::prelude::*;
use vstd::string::*;

use crate::alpaca::client::{lookback_minutes, timeframe_name, bar_minutes, BarsFetch};
use crate::alpaca::error::{AlpacaError, Trouble};
use crate::alpaca::types::RawBar;
use crate::decimal::Decimal;
use crate::domain::{Candle, Timeframe};
use crate::indicators::ascending;
use crate::text::{equal_ignoring_case, same_ignoring_case, same_text};
use crate::time::{read_rfc3339, Instant};

verus! {

/// What is wrong with a price of a bar.
pub open spec fn price_trouble(field: Seq<char>, price: Result<Decimal, String>) -> Option<Trouble> {
    match price {
        Ok(_) => None,
        Err(e) => Some(Trouble::Config("bad "@ + field + "="@ + e@)),
    }
}

/// The first of two troubles.
pub open spec fn sooner(a: Option<Trouble>, b: Option<Trouble>) -> Option<Trouble> {
    match a {
        Some(t) => Some(t),
        None => b,
    }
}

/// What is wrong with the time of a bar, where `e` is.
pub open spec fn time_trouble(b: RawBar, e: Seq<char>) -> Trouble {
    Trouble::Config("bad bar timestamp '"@ + b.t@ + "': "@ + e)
}

/// The first thing that is wrong with the prices of a bar.
pub open spec fn prices_trouble(b: RawBar) -> Option<Trouble> {
    sooner(
        price_trouble("open"@, b.o),
        sooner(
            price_trouble("high"@, b.h),
            sooner(price_trouble("low"@, b.l), price_trouble("close"@, b.c)),
        ),
    )
}

/// The first thing that is wrong with a bar: its time, then its prices.
pub open spec fn bar_trouble(b: RawBar) -> Option<Trouble> {
    match read_rfc3339(b.t@) {
        Err(e) => Some(time_trouble(b, e)),
        Ok(_) => prices_trouble(b),
    }
}

/// The candle is the bar.
pub open spec fn is_bar(c: Candle, b: RawBar) -> bool {
    &&& read_rfc3339(b.t@) == Ok::<(int, nat), Seq<char>>((c.time@.secs, c.time@.nanos))
    &&& has_figures(c, b)
}

/// The candle has the prices and the volumes of the bar.
pub open spec fn has_figures(c: Candle, b: RawBar) -> bool {
    &&& b.o == Ok::<Decimal, String>(c.open)
    &&& b.h == Ok::<Decimal, String>(c.high)
    &&& b.l == Ok::<Decimal, String>(c.low)
    &&& b.c == Ok::<Decimal, String>(c.close)
    &&& c.tick_volume == b.n
    &&& c.spread == 0
    &&& c.real_volume == b.v
}

/// The candles are the bars, in their order.
pub open spec fn are_bars(candles: Seq<Candle>, bars: Seq<RawBar>) -> bool {
    &&& candles.len() == bars.len()
    &&& forall|i: int|
        #![trigger candles[i]]
        #![trigger bars[i]]
        0 <= i < candles.len() ==> is_bar(candles[i], bars[i])
}

/// The first thing that is wrong with any of the bars.
pub open spec fn bars_trouble(bars: Seq<RawBar>) -> Option<Trouble>
    decreases bars.len(),
{
    if bars.len() == 0 {
        None
    } else {
        sooner(bars_trouble(bars.drop_last()), bar_trouble(bars.last()))
    }
}

fn price_of(field: &str, price: &Result<Decimal, String>) -> (res: Result<Decimal, AlpacaError>)
    ensures
        match res {
            Ok(d) => price_trouble(field@, *price) is None && *price == Ok::<Decimal, String>(d),
            Err(e) => price_trouble(field@, *price) == Some(e@),
        },
{
    match price {
        Ok(d) => Ok(*d),
        Err(e) => {
            let mut message = "bad ".to_owned();
            message.append(field);
            message.append("=");
            message.append(e.as_str());
            Err(AlpacaError::Config(message))
        },
    }
}

/// Turns a bar into a candle at `time`, which was read from the bar, or was not
/// for the reason given.
pub fn candle_at(time: Result<Instant, String>, b: &RawBar) -> (res: Result<Candle, AlpacaError>)
    ensures
        match (time, res) {
            (Err(e), Err(trouble)) => trouble@ == time_trouble(*b, e@),
            (Err(_), Ok(_)) => false,
            (Ok(t), Ok(c)) => prices_trouble(*b) is None && c.time == t && has_figures(c, *b),
            (Ok(_), Err(trouble)) => prices_trouble(*b) == Some(trouble@),
        },
{
    let time = match time {
        Ok(time) => time,
        Err(e) => {
            let mut message = "bad bar timestamp '".to_owned();
            message.append(b.t.as_str());
            message.append("': ");
            message.append(e.as_str());
            return Err(AlpacaError::Config(message));
        },
    };
    Ok(
        Candle {
            time,
            open: price_of("open", &b.o)?,
            high: price_of("high", &b.h)?,
            low: price_of("low", &b.l)?,
            close: price_of("close", &b.c)?,
            tick_volume: b.n,
            spread: 0,
            real_volume: b.v,
        },
    )
}

/// Turns a bar into a candle.
pub fn raw_to_candle(b: &RawBar) -> (res: Result<Candle, AlpacaError>)
    ensures
        match res {
            Ok(c) => bar_trouble(*b) is None && is_bar(c, *b),
            Err(e) => bar_trouble(*b) == Some(e@),
        },
{
    candle_at(Instant::parse_rfc3339(b.t.as_str()), b)
}

/// The last `n` of the candles, or all where there are fewer.
pub open spec fn last_of(candles: Seq<Candle>, n: nat) -> Seq<Candle> {
    if candles.len() > n {
        candles.skip(candles.len() - n)
    } else {
        candles
    }
}

impl BarsFetch {
    /// Takes a page of bars, and the token of the next page where there is one.
    /// A bad bar ends the fetch with an error; the bars before it stay.
    pub fn accept(&mut self, bars: &Vec<RawBar>, next: Option<String>) -> (res: Result<
        (),
        AlpacaError,
    >)
        ensures
            match res {
                Ok(_) => {
                    &&& bars_trouble(bars@) is None
                    &&& final(self).out@.len() == old(self).out@.len() + bars@.len()
                    &&& final(self).out@.take(old(self).out@.len() as int) == old(self).out@
                    &&& are_bars(final(self).out@.skip(old(self).out@.len() as int), bars@)
                    &&& final(self).page_token == next
                    &&& final(self).done == (next is None)
                },
                Err(e) => {
                    let n = old(self).out@.len() as int;
                    let good = final(self).out@.len() - n;
                    &&& bars_trouble(bars@) == Some(e@)
                    &&& 0 <= good < bars@.len()
                    &&& bar_trouble(bars@[good]) == Some(e@)
                    &&& final(self).out@.take(n) == old(self).out@
                    &&& are_bars(final(self).out@.skip(n), bars@.take(good))
                    &&& final(self).page_token == old(self).page_token
                    &&& final(self).done == old(self).done
                },
            },
            final(self).symbol == old(self).symbol,
            final(self).tf == old(self).tf,
            final(self).start == old(self).start,
            final(self).end == old(self).end,
            final(self).keep == old(self).keep,
    {
        let ghost before = self.out@;
        let mut i: usize = 0;
        assert(self.out@.take(before.len() as int) =~= before);
        assert(self.out@.skip(before.len() as int) =~= Seq::<Candle>::empty());
        assert(bars@.take(0) =~= Seq::<RawBar>::empty());
        while i < bars.len()
            invariant
                i <= bars.len(),
                before == old(self).out@,
                self.out@.len() == before.len() + i,
                self.out@.take(before.len() as int) == before,
                are_bars(self.out@.skip(before.len() as int), bars@.take(i as int)),
                bars_trouble(bars@.take(i as int)) is None,
                self.symbol == old(self).symbol,
                self.tf == old(self).tf,
                self.start == old(self).start,
                self.end == old(self).end,
                self.keep == old(self).keep,
                self.page_token == old(self).page_token,
                self.done == old(self).done,
            decreases bars.len() - i,
        {
            let ghost so_far = self.out@;
            assert(bars@.take(i + 1).drop_last() =~= bars@.take(i as int));
            assert(bars@.take(i + 1).last() == bars@[i as int]);
            let candle = match raw_to_candle(&bars[i]) {
                Ok(c) => c,
                Err(e) => {
                    proof {
                        lemma_trouble_stays(bars@, i + 1);
                    }
                    return Err(e);
                },
            };
            self.out.push(candle);
            i += 1;
            proof {
                let n = before.len() as int;
                assert(self.out@.take(n) =~= so_far.take(n));
                assert(self.out@.skip(n) =~= so_far.skip(n).push(candle));
                assert(bars@.take(i as int) =~= bars@.take(i - 1).push(bars@[i - 1]));
                lemma_one_more_bar(so_far.skip(n), bars@.take(i - 1), candle, bars@[i - 1]);
            }
        }
        assert(bars@.take(i as int) =~= bars@);
        self.done = next.is_none();
        self.page_token = next;
        Ok(())
    }

    /// The candles that were fetched: all, or the last of them where only those
    /// are wanted.
    pub fn finish(self) -> (res: Vec<Candle>)
        ensures
            res@ == match self.keep {
                None => self.out@,
                Some(n) => last_of(self.out@, n as nat),
            },
    {
        let n: usize = match self.keep {
            None => return self.out,
            Some(n) => n as usize,
        };
        if self.out.len() <= n {
            return self.out;
        }
        let first: usize = self.out.len() - n;
        let mut kept: Vec<Candle> = Vec::new();
        let mut i: usize = first;
        while i < self.out.len()
            invariant
                first <= i <= self.out.len(),
                kept@ =~= self.out@.subrange(first as int, i as int),
            decreases self.out.len() - i,
        {
            kept.push(self.out[i]);
            i += 1;
        }
        assert(kept@ =~= self.out@.skip(first as int));
        kept
    }
}

proof fn lemma_one_more_bar(candles: Seq<Candle>, bars: Seq<RawBar>, c: Candle, b: RawBar)
    requires
        are_bars(candles, bars),
        is_bar(c, b),
    ensures
        are_bars(candles.push(c), bars.push(b)),
{
    let (cs, bs) = (candles.push(c), bars.push(b));
    assert forall|i: int| 0 <= i < cs.len() implies is_bar(#[trigger] cs[i], bs[i]) by {
        if i < candles.len() {
            assert(is_bar(candles[i], bars[i]));
        }
    }
    assert forall|i: int| 0 <= i < cs.len() implies is_bar(cs[i], #[trigger] bs[i]) by {
        assert(is_bar(cs[i], bs[i]));
    }
}

/// What is wrong with the first bars is wrong with all of them.
proof fn lemma_trouble_stays(bars: Seq<RawBar>, n: int)
    requires
        0 <= n <= bars.len(),
        bars_trouble(bars.take(n)) is Some,
    ensures
        bars_trouble(bars) == bars_trouble(bars.take(n)),
    decreases bars.len() - n,
{
    if n < bars.len() {
        assert(bars.take(n + 1).drop_last() =~= bars.take(n));
        lemma_trouble_stays(bars, n + 1);
    } else {
        assert(bars.take(n) =~= bars);
    }
}

/// The position of the first key that is `symbol`, or that many as there are.
pub open spec fn exact_key(keyed: Seq<(String, Vec<RawBar>)>, symbol: Seq<char>) -> nat
    decreases keyed.len(),
{
    if keyed.len() == 0 || keyed[0].0@ == symbol {
        0
    } else {
        1 + exact_key(keyed.drop_first(), symbol)
    }
}

/// The position of the first key that is `symbol` but for the case of letters,
/// or that many as there are.
pub open spec fn similar_key(keyed: Seq<(String, Vec<RawBar>)>, symbol: Seq<char>) -> nat
    decreases keyed.len(),
{
    if keyed.len() == 0 || same_ignoring_case(keyed[0].0@, symbol) {
        0
    } else {
        1 + similar_key(keyed.drop_first(), symbol)
    }
}

/// The bars under the key `symbol`; without that key, those under a key that
/// differs from it only in case; without that, none.
pub open spec fn bars_under(keyed: Seq<(String, Vec<RawBar>)>, symbol: Seq<char>) -> Seq<RawBar> {
    let exact = exact_key(keyed, symbol) as int;
    let similar = similar_key(keyed, symbol) as int;
    if exact < keyed.len() {
        keyed[exact].1@
    } else if similar < keyed.len() {
        keyed[similar].1@
    } else {
        Seq::<RawBar>::empty()
    }
}

fn find_key(keyed: &Vec<(String, Vec<RawBar>)>, symbol: &str) -> (res: usize)
    ensures
        res == exact_key(keyed@, symbol@),
        res <= keyed.len(),
{
    let mut i: usize = 0;
    assert(keyed@.skip(0) =~= keyed@);
    while i < keyed.len() && !same_text(keyed[i].0.as_str(), symbol)
        invariant
            i <= keyed.len(),
            exact_key(keyed@, symbol@) == i + exact_key(keyed@.skip(i as int), symbol@),
        decreases keyed.len() - i,
    {
        assert(keyed@.skip(i as int).drop_first() =~= keyed@.skip(i + 1));
        i += 1;
    }
    i
}

fn find_similar_key(keyed: &Vec<(String, Vec<RawBar>)>, symbol: &str) -> (res: usize)
    ensures
        res == similar_key(keyed@, symbol@),
        res <= keyed.len(),
{
    let mut i: usize = 0;
    assert(keyed@.skip(0) =~= keyed@);
    while i < keyed.len() && !equal_ignoring_case(keyed[i].0.as_str(), symbol)
        invariant
            i <= keyed.len(),
            similar_key(keyed@, symbol@) == i + similar_key(keyed@.skip(i as int), symbol@),
        decreases keyed.len() - i,
    {
        assert(keyed@.skip(i as int).drop_first() =~= keyed@.skip(i + 1));
        i += 1;
    }
    i
}

/// Picks the bars of `symbol` out of bars keyed by symbol, in the order in which
/// the map that held them was walked.
pub fn bars_of_symbol(keyed: Vec<(String, Vec<RawBar>)>, symbol: &str) -> (res: Vec<RawBar>)
    ensures
        res@ == bars_under(keyed@, symbol@),
{
    let mut keyed = keyed;
    let exact: usize = find_key(&keyed, symbol);
    if exact < keyed.len() {
        return keyed.swap_remove(exact).1;
    }
    let similar: usize = find_similar_key(&keyed, symbol);
    if similar < keyed.len() {
        return keyed.swap_remove(similar).1;
    }
    Vec::new()
}

proof fn lemma_exact_key(keyed: Seq<(String, Vec<RawBar>)>, symbol: Seq<char>)
    ensures
        exact_key(keyed, symbol) <= keyed.len(),
        exact_key(keyed, symbol) < keyed.len() ==> keyed[exact_key(keyed, symbol) as int].0@
            == symbol,
        exact_key(keyed, symbol) == keyed.len() ==> forall|i: int|
            0 <= i < keyed.len() ==> (#[trigger] keyed[i]).0@ != symbol,
    decreases keyed.len(),
{
    if keyed.len() > 0 && keyed[0].0@ != symbol {
        let rest = keyed.drop_first();
        lemma_exact_key(rest, symbol);
        assert forall|i: int|
            0 <= i < keyed.len() && exact_key(keyed, symbol) == keyed.len() implies (
        #[trigger] keyed[i]).0@ != symbol by {
            if i > 0 {
                assert(keyed[i] == rest[i - 1]);
            }
        }
    }
}

proof fn lemma_similar_key(keyed: Seq<(String, Vec<RawBar>)>, symbol: Seq<char>)
    ensures
        similar_key(keyed, symbol) <= keyed.len(),
        similar_key(keyed, symbol) < keyed.len() ==> same_ignoring_case(
            keyed[similar_key(keyed, symbol) as int].0@,
            symbol,
        ),
        similar_key(keyed, symbol) == keyed.len() ==> forall|i: int|
            0 <= i < keyed.len() ==> !same_ignoring_case((#[trigger] keyed[i]).0@, symbol),
    decreases keyed.len(),
{
    if keyed.len() > 0 && !same_ignoring_case(keyed[0].0@, symbol) {
        let rest = keyed.drop_first();
        lemma_similar_key(rest, symbol);
        assert forall|i: int|
            0 <= i < keyed.len() && similar_key(keyed, symbol)
                == keyed.len() implies !same_ignoring_case((#[trigger] keyed[i]).0@, symbol) by {
            if i > 0 {
                assert(keyed[i] == rest[i - 1]);
            }
        }
    }
}

/// No key is `symbol` itself.
pub open spec fn lacks_key(keyed: Seq<(String, Vec<RawBar>)>, symbol: Seq<char>) -> bool {
    forall|i: int| 0 <= i < keyed.len() ==> (#[trigger] keyed[i]).0@ != symbol
}

/// The key at `i` is `symbol`; or none is, and this one differs from it only in
/// case.
pub open spec fn key_fits(keyed: Seq<(String, Vec<RawBar>)>, symbol: Seq<char>, i: int) -> bool {
    keyed[i].0@ == symbol || (lacks_key(keyed, symbol) && same_ignoring_case(keyed[i].0@, symbol))
}

/// In what order the keys come makes no difference where only one of them fits.
pub proof fn law_order_of_keys_is_immaterial(
    keyed: Seq<(String, Vec<RawBar>)>,
    other: Seq<(String, Vec<RawBar>)>,
    symbol: Seq<char>,
)
    requires
        keyed.to_multiset() == other.to_multiset(),
        forall|i: int, j: int|
            0 <= i < keyed.len() && 0 <= j < keyed.len() && #[trigger] key_fits(keyed, symbol, i)
                && #[trigger] key_fits(keyed, symbol, j) ==> i == j,
    ensures
        bars_under(keyed, symbol) == bars_under(other, symbol),
{
    lemma_exact_key(keyed, symbol);
    lemma_exact_key(other, symbol);
    lemma_similar_key(keyed, symbol);
    lemma_similar_key(other, symbol);
    keyed.to_multiset_ensures();
    other.to_multiset_ensures();
    assert forall|i: int| 0 <= i < other.len() implies exists|j: int|
        0 <= j < keyed.len() && keyed[j] == #[trigger] other[i] by {
        assert(other.contains(other[i]));
        assert(keyed.to_multiset().count(other[i]) > 0);
        assert(keyed.contains(other[i]));
    }
    assert forall|i: int| 0 <= i < keyed.len() implies exists|j: int|
        0 <= j < other.len() && other[j] == #[trigger] keyed[i] by {
        assert(keyed.contains(keyed[i]));
        assert(other.to_multiset().count(keyed[i]) > 0);
        assert(other.contains(keyed[i]));
    }
    let (a, b) = (exact_key(keyed, symbol) as int, exact_key(other, symbol) as int);
    if b < other.len() {
        let i = choose|i: int| 0 <= i < keyed.len() && keyed[i] == other[b];
        assert(key_fits(keyed, symbol, i) && key_fits(keyed, symbol, a));
    } else {
        if a < keyed.len() {
            let i = choose|i: int| 0 <= i < other.len() && other[i] == keyed[a];
            assert(other[i].0@ == symbol);
        }
        let (c, d) = (similar_key(keyed, symbol) as int, similar_key(other, symbol) as int);
        if d < other.len() {
            let i = choose|i: int| 0 <= i < keyed.len() && keyed[i] == other[d];
            assert(key_fits(keyed, symbol, i) && key_fits(keyed, symbol, c));
        } else if c < keyed.len() {
            let i = choose|i: int| 0 <= i < other.len() && other[i] == keyed[c];
            assert(same_ignoring_case(other[i].0@, symbol));
        }
    }
}

/// Where one page ends and the next begins makes no difference: pages one after
/// the other are the candles of their bars one after the other.
pub proof fn law_pages_join(
    first: Seq<Candle>,
    first_page: Seq<RawBar>,
    second: Seq<Candle>,
    second_page: Seq<RawBar>,
)
    requires
        are_bars(first, first_page),
        are_bars(second, second_page),
    ensures
        are_bars(first + second, first_page + second_page),
{
    let (cs, bs) = (first + second, first_page + second_page);
    assert forall|i: int| 0 <= i < cs.len() implies is_bar(#[trigger] cs[i], bs[i]) by {
        if i < first.len() {
            assert(is_bar(first[i], first_page[i]));
        } else {
            assert(is_bar(second[i - first.len()], second_page[i - first.len()]));
        }
    }
    assert forall|i: int| 0 <= i < cs.len() implies is_bar(cs[i], #[trigger] bs[i]) by {
        assert(is_bar(cs[i], bs[i]));
    }
}

/// The last candles of an ascending series are the most recent: there are as
/// many as asked for, or all; they ascend; and none that was left out is after
/// any that was kept.
pub proof fn law_the_last_are_the_most_recent(candles: Seq<Candle>, n: nat)
    requires
        ascending(candles),
    ensures
        last_of(candles, n).len() == (if candles.len() < n {
            candles.len()
        } else {
            n
        }),
        ascending(last_of(candles, n)),
        forall|i: int, j: int|
            #![trigger candles[i], last_of(candles, n)[j]]
            0 <= i < candles.len() - n && 0 <= j < last_of(candles, n).len()
                ==> candles[i].time@.at_or_before(last_of(candles, n)[j].time@),
{
    if candles.len() > n {
        let kept = last_of(candles, n);
        let k = candles.len() - n;
        assert forall|i: int, j: int|
            #![trigger kept[i], kept[j]]
            0 <= i <= j < kept.len() implies kept[i].time@.at_or_before(kept[j].time@) by {
            assert(kept[i] == candles[k + i] && kept[j] == candles[k + j]);
        }
        assert forall|i: int, j: int|
            #![trigger candles[i], kept[j]]
            0 <= i < k && 0 <= j < kept.len() implies candles[i].time@.at_or_before(
            kept[j].time@,
        ) by {
            assert(kept[j] == candles[k + j]);
        }
    }
}

/// Fetching too far back is harmless: older candles in front change nothing of
/// the last ones that are kept.
pub proof fn law_fetching_too_much_is_harmless(older: Seq<Candle>, candles: Seq<Candle>, n: nat)
    requires
        candles.len() >= n,
    ensures
        last_of(older + candles, n) == last_of(candles, n),
{
    assert(last_of(older + candles, n) =~= last_of(candles, n));
}

/// The span that is looked back covers the bars that are wanted at least twice
/// over, and intraday bars four times.
pub proof fn law_lookback_is_padded(tf: Timeframe, count: nat)
    ensures
        lookback_minutes(tf, count) >= 2 * (bar_minutes(tf) * count),
        bar_minutes(tf) < 1_440 ==> lookback_minutes(tf, count) >= 4 * (bar_minutes(tf) * count),
        lookback_minutes(tf, count) > 0,
{
    let m = bar_minutes(tf);
    let bars = if count < 1 {
        1int
    } else {
        count as int
    };
    assert(m * bars >= m * count && m * bars > 0 && (m * bars) * 2 == 2 * (m * bars) && (m * bars)
        * 4 == 4 * (m * bars)) by (nonlinear_arith)
        requires
            m > 0,
            bars >= count,
            bars > 0,
            count >= 0,
    ;
}

/// No two timeframes have the same name.
pub proof fn law_timeframe_names_differ(a: Timeframe, b: Timeframe)
    requires
        timeframe_name(a) == timeframe_name(b),
    ensures
        a == b,
{
    reveal_strlit("1Min");
    reveal_strlit("2Min");
    reveal_strlit("3Min");
    reveal_strlit("4Min");
    reveal_strlit("5Min");
    reveal_strlit("6Min");
    reveal_strlit("10Min");
    reveal_strlit("12Min");
    reveal_strlit("15Min");
    reveal_strlit("20Min");
    reveal_strlit("30Min");
    reveal_strlit("1Hour");
    reveal_strlit("2Hour");
    reveal_strlit("3Hour");
    reveal_strlit("4Hour");
    reveal_strlit("6Hour");
    reveal_strlit("8Hour");
    reveal_strlit("12Hour");
    reveal_strlit("1Day");
    reveal_strlit("1Week");
    reveal_strlit("1Month");
    let (x, y) = (timeframe_name(a), timeframe_name(b));
    assert(x.len() == y.len() && x[0] == y[0] && x[1] == y[1] && x[2] == y[2]);
}

/// A candle made of a bar has the bar's prices, each as its own, its volume as
/// the real one and its count of trades as the volume in ticks, and no spread;
/// and only a bar with a time and four good prices is made one.
pub proof fn law_candles_have_the_figures_of_their_bars(c: Candle, b: RawBar)
    requires
        is_bar(c, b),
    ensures
        b.o == Ok::<Decimal, String>(c.open),
        b.h == Ok::<Decimal, String>(c.high),
        b.l == Ok::<Decimal, String>(c.low),
        b.c == Ok::<Decimal, String>(c.close),
        c.real_volume == b.v,
        c.tick_volume == b.n,
        c.spread == 0,
        read_rfc3339(b.t@) == Ok::<(int, nat), Seq<char>>((c.time@.secs, c.time@.nanos)),
        bar_trouble(b) is None,
{
}

/// What is wrong with a bar: its time before its prices, and those in the order
/// of open, high, low and close. Nothing is wrong exactly where all are good.
pub proof fn law_the_first_bad_figure_is_told(b: RawBar)
    ensures
        bar_trouble(b) is None <==> read_rfc3339(b.t@) is Ok && b.o is Ok && b.h is Ok && b.l is Ok
            && b.c is Ok,
        read_rfc3339(b.t@) matches Err(e) ==> bar_trouble(b) == Some(
            Trouble::Config("bad bar timestamp '"@ + b.t@ + "': "@ + e),
        ),
        read_rfc3339(b.t@) is Ok && b.o is Err ==> bar_trouble(b) == Some(
            Trouble::Config("bad "@ + "open"@ + "="@ + b.o->Err_0@),
        ),
        read_rfc3339(b.t@) is Ok && b.o is Ok && b.h is Err ==> bar_trouble(b) == Some(
            Trouble::Config("bad "@ + "high"@ + "="@ + b.h->Err_0@),
        ),
        read_rfc3339(b.t@) is Ok && b.o is Ok && b.h is Ok && b.l is Err ==> bar_trouble(b)
            == Some(Trouble::Config("bad "@ + "low"@ + "="@ + b.l->Err_0@)),
        read_rfc3339(b.t@) is Ok && b.o is Ok && b.h is Ok && b.l is Ok && b.c is Err
            ==> bar_trouble(b) == Some(Trouble::Config("bad "@ + "close"@ + "="@ + b.c->Err_0@)),
{
}

/// What is wrong with bars is what is wrong with the first bad one of them.
pub proof fn law_the_first_bad_bar_is_told(bars: Seq<RawBar>, k: int)
    requires
        0 <= k < bars.len(),
        bar_trouble(bars[k]) is Some,
        forall|i: int| 0 <= i < k ==> bar_trouble(#[trigger] bars[i]) is None,
    ensures
        bars_trouble(bars) == bar_trouble(bars[k]),
{
    lemma_good_bars(bars.take(k));
    let upto = bars.take(k + 1);
    assert(upto.drop_last() =~= bars.take(k));
    assert(upto.last() == bars[k]);
    lemma_trouble_stays(bars, k + 1);
}

proof fn lemma_good_bars(bars: Seq<RawBar>)
    requires
        forall|i: int| 0 <= i < bars.len() ==> bar_trouble(#[trigger] bars[i]) is None,
    ensures
        bars_trouble(bars) is None,
    decreases bars.len(),
{
    if bars.len() > 0 {
        let front = bars.drop_last();
        assert forall|i: int| 0 <= i < front.len() implies bar_trouble(#[trigger] front[i]) is None
            by {
            assert(front[i] == bars[i]);
        }
        lemma_good_bars(front);
        assert(bar_trouble(bars[bars.len() - 1]) is None);
    }
}

/// The bars are those under the key that is the symbol; without such a key, those
/// under the one key that differs from it only in case; and none where no key
/// fits.
pub proof fn law_bars_are_those_of_the_fitting_key(
    keyed: Seq<(String, Vec<RawBar>)>,
    symbol: Seq<char>,
)
    ensures
        forall|i: int|
            #![trigger keyed[i]]
            0 <= i < keyed.len() && key_fits(keyed, symbol, i) && (forall|j: int|
                0 <= j < keyed.len() && #[trigger] key_fits(keyed, symbol, j) ==> i == j)
                ==> bars_under(keyed, symbol) == keyed[i].1@,
        (forall|i: int| 0 <= i < keyed.len() ==> !#[trigger] key_fits(keyed, symbol, i))
            ==> bars_under(keyed, symbol).len() == 0,
{
    lemma_exact_key(keyed, symbol);
    lemma_similar_key(keyed, symbol);
    let (a, b) = (exact_key(keyed, symbol) as int, similar_key(keyed, symbol) as int);
    if a < keyed.len() {
        assert(key_fits(keyed, symbol, a));
    } else {
        assert(lacks_key(keyed, symbol));
        if b < keyed.len() {
            assert(key_fits(keyed, symbol, b));
        }
    }
}

} // verus!
