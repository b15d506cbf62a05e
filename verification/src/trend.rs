//! Which way the market goes, by exponential averages.

use vstd::prelude::*;

use crate::decimal::{less, opt_view, Decimal, Number};
use crate::domain::{Candle, Side};
use crate::indicators::{ascending, law_leading_is_the_partition_point};
use crate::indicators::{count_until, ema_defined, ema_entry, leading, rolling_ema};
use crate::rules::Rules;
use crate::time::TimePoint;

verus! {

/// The candles of a trend filter and their exponential averages.
#[derive(Debug)]
pub struct Trend {
    pub candles: Vec<Candle>,
    pub emas: Vec<Option<Decimal>>,
}

/// The average at position `i`, where there is one.
pub open spec fn ema_of(emas: Seq<Option<Decimal>>, i: int) -> Option<Number> {
    if 0 <= i < emas.len() {
        opt_view(emas[i])
    } else {
        None
    }
}

/// A trade with the trend: a long with the close above the average, a short
/// with it not above. Without an average any trade is.
pub open spec fn with_trend(side: Side, close: Number, ema: Option<Number>) -> bool {
    match ema {
        None => true,
        Some(e) => match side {
            Side::Long => less(e, close),
            Side::Short => !less(e, close),
        },
    }
}

/// The trade agrees with the latest candle of `trend` that is not after
/// `candle`; without one it does not.
pub open spec fn agrees(trend: Trend, candle: Candle, side: Side) -> bool {
    let n = leading(trend.candles@, candle.time@);
    n > 0 && with_trend(side, trend.candles@[n - 1].close@, ema_of(trend.emas@, n - 1))
}

/// The trade passes both trend filters. The primary one looks at the candle's
/// own series, or at the separate candles of `trend`; the confirmation looks at
/// `confirm`, where that has candles.
pub open spec fn trend_ok(
    rules: Rules,
    trend: Trend,
    confirm: Trend,
    candle: Candle,
    idx: int,
    side: Side,
) -> bool {
    &&& rules.trend_ema_period > 0 ==> if rules.trend_tf_h1 {
        with_trend(side, candle.close@, ema_of(trend.emas@, idx))
    } else {
        agrees(trend, candle, side)
    }
    &&& rules.trend_h4_confirm && confirm.candles@.len() > 0 ==> agrees(confirm, candle, side)
}

/// The closes of candles.
pub open spec fn closes(candles: Seq<Candle>) -> Seq<Decimal> {
    candles.map_values(|c: Candle| c.close)
}

/// `emas` are the exponential averages of the closes of `candles`, as far as
/// there is enough data.
pub open spec fn averages_of(emas: Seq<Option<Decimal>>, candles: Seq<Candle>, period: nat) -> bool {
    &&& emas.len() == candles.len()
    &&& forall|i: int|
        #![trigger emas[i]]
        0 <= i < emas.len() ==> opt_view(emas[i]) == ema_entry(closes(candles), period, i)
}

fn ema_value(emas: &Vec<Option<Decimal>>, i: usize) -> (res: Option<Decimal>)
    ensures
        opt_view(res) == ema_of(emas@, i as int),
{
    if i < emas.len() {
        emas[i]
    } else {
        None
    }
}

fn goes_with_trend(side: Side, close: Decimal, ema: Option<Decimal>) -> (res: bool)
    ensures
        res == with_trend(side, close@, opt_view(ema)),
{
    match ema {
        None => true,
        Some(e) => match side {
            Side::Long => close > e,
            Side::Short => !(close > e),
        },
    }
}

fn agrees_with(trend: &Trend, candle: &Candle, side: Side) -> (res: bool)
    ensures
        res == agrees(*trend, *candle, side),
{
    let n: usize = count_until(trend.candles.as_slice(), &candle.time);
    n > 0 && goes_with_trend(side, trend.candles[n - 1].close, ema_value(&trend.emas, n - 1))
}

/// Whether a signal goes with the trend on the candle at position `idx`.
pub fn trend_filter(
    rules: &Rules,
    trend: &Trend,
    confirm: &Trend,
    candle: &Candle,
    idx: usize,
    side: Side,
) -> (res: bool)
    ensures
        res == trend_ok(*rules, *trend, *confirm, *candle, idx as int, side),
{
    if rules.trend_ema_period > 0 {
        let ok = if rules.trend_tf_h1 {
            goes_with_trend(side, candle.close, ema_value(&trend.emas, idx))
        } else {
            agrees_with(trend, candle, side)
        };
        if !ok {
            return false;
        }
    }
    if rules.trend_h4_confirm && confirm.candles.len() > 0 {
        return agrees_with(confirm, candle, side);
    }
    true
}

/// The closes of candles.
pub fn closing_prices(candles: &[Candle]) -> (res: Vec<Decimal>)
    ensures
        res@ == closes(candles@),
{
    let mut out: Vec<Decimal> = Vec::new();
    let mut i: usize = 0;
    while i < candles.len()
        invariant
            i <= candles.len(),
            out@ =~= closes(candles@).take(i as int),
        decreases candles.len() - i,
    {
        out.push(candles[i].close);
        i += 1;
    }
    out
}

impl Trend {
    /// No trend filter.
    pub fn none() -> (res: Trend)
        ensures
            res.candles@ == Seq::<Candle>::empty(),
            res.emas@ == Seq::<Option<Decimal>>::empty(),
    {
        Trend { candles: Vec::new(), emas: Vec::new() }
    }

    /// The trend of the traded candles themselves: averages only. `None` where
    /// an average overflows or the period is zero.
    pub fn own(candles: &[Candle], period: usize) -> (res: Option<Trend>)
        ensures
            match res {
                Some(t) => {
                    &&& ema_defined(closes(candles@), period as nat)
                    &&& t.candles@ == Seq::<Candle>::empty()
                    &&& averages_of(t.emas@, candles@, period as nat)
                },
                None => !ema_defined(closes(candles@), period as nat),
            },
    {
        let prices = closing_prices(candles);
        let emas = rolling_ema(prices.as_slice(), period)?;
        Some(Trend { candles: Vec::new(), emas })
    }

    /// The trend of candles of another timeframe. `None` where an average
    /// overflows or the period is zero.
    pub fn separate(candles: Vec<Candle>, period: usize) -> (res: Option<Trend>)
        ensures
            match res {
                Some(t) => {
                    &&& ema_defined(closes(candles@), period as nat)
                    &&& t.candles == candles
                    &&& averages_of(t.emas@, candles@, period as nat)
                },
                None => !ema_defined(closes(candles@), period as nat),
            },
    {
        let prices = closing_prices(candles.as_slice());
        let emas = rolling_ema(prices.as_slice(), period)?;
        Some(Trend { candles, emas })
    }
}

/// How many H4 candles go with that many traded candles: a quarter, and some to
/// warm the average up.
pub fn h4_count(backtest_candles: u32) -> (res: u32)
    ensures
        res == backtest_candles as int / 4 + 200,
{
    backtest_candles / 4 + 200
}

/// The candle at position `i` is the latest that is not after `t`.
pub open spec fn is_latest(candles: Seq<Candle>, t: TimePoint, i: int) -> bool {
    &&& 0 <= i < candles.len()
    &&& candles[i].time@.at_or_before(t)
    &&& forall|j: int| i < j < candles.len() ==> !(#[trigger] candles[j]).time@.at_or_before(t)
}

/// At position `i` of the averages there is one that speaks against the side:
/// for a long the close is not above it, for a short it is.
pub open spec fn speaks_against(
    emas: Seq<Option<Decimal>>,
    i: int,
    close: Number,
    side: Side,
) -> bool {
    0 <= i < emas.len() && (emas[i] matches Some(e) && match side {
        Side::Long => !less(e@, close),
        Side::Short => less(e@, close),
    })
}

/// On candles in ascending order, the latest one that is not after a time is the
/// last of those that lead.
proof fn lemma_latest_is_the_last_leading(candles: Seq<Candle>, t: TimePoint)
    requires
        ascending(candles),
    ensures
        leading(candles, t) > 0 ==> is_latest(candles, t, leading(candles, t) - 1),
        forall|i: int| is_latest(candles, t, i) ==> i == leading(candles, t) - 1,
        leading(candles, t) == 0 ==> forall|i: int|
            0 <= i < candles.len() ==> !(#[trigger] candles[i]).time@.at_or_before(t),
{
    law_leading_is_the_partition_point(candles, t);
    let n = leading(candles, t);
    assert forall|i: int| is_latest(candles, t, i) implies i == n - 1 by {
        assert(i < n);
        if i < n - 1 {
            assert(candles[n - 1].time@.at_or_before(t));
        }
    }
}

/// The confirmation is asked whatever the primary filter is and says: with it,
/// and with candles for it, a signal that passes has a latest confirming candle
/// that is not after the traded one, and where that candle has an average its
/// close lies above it for a long and not above it for a short.
pub proof fn law_confirmation_is_always_asked(
    rules: Rules,
    trend: Trend,
    confirm: Trend,
    candle: Candle,
    idx: int,
    side: Side,
)
    requires
        rules.trend_h4_confirm,
        confirm.candles@.len() > 0,
        ascending(confirm.candles@),
        trend_ok(rules, trend, confirm, candle, idx, side),
    ensures
        exists|i: int|
            #![trigger confirm.candles@[i]]
            is_latest(confirm.candles@, candle.time@, i) && !speaks_against(
                confirm.emas@,
                i,
                confirm.candles@[i].close@,
                side,
            ),
{
    lemma_latest_is_the_last_leading(confirm.candles@, candle.time@);
    let i = leading(confirm.candles@, candle.time@) - 1;
    assert(is_latest(confirm.candles@, candle.time@, i));
    assert(confirm.candles@[i].close@ == confirm.candles@[i].close@);
}

/// The primary filter is asked whatever the confirmation is and says. Over the
/// traded candles it looks at the average and the close of the traded candle
/// itself; over other candles, at those of the latest one that is not after the
/// traded candle, and without such a one no signal passes.
pub proof fn law_primary_filter_is_always_asked(
    rules: Rules,
    trend: Trend,
    confirm: Trend,
    candle: Candle,
    idx: int,
    side: Side,
)
    requires
        rules.trend_ema_period > 0,
        trend_ok(rules, trend, confirm, candle, idx, side),
    ensures
        rules.trend_tf_h1 ==> !speaks_against(trend.emas@, idx, candle.close@, side),
        !rules.trend_tf_h1 && ascending(trend.candles@) ==> exists|i: int|
            #![trigger trend.candles@[i]]
            is_latest(trend.candles@, candle.time@, i) && !speaks_against(
                trend.emas@,
                i,
                trend.candles@[i].close@,
                side,
            ),
{
    if !rules.trend_tf_h1 && ascending(trend.candles@) {
        lemma_latest_is_the_last_leading(trend.candles@, candle.time@);
        let i = leading(trend.candles@, candle.time@) - 1;
        assert(is_latest(trend.candles@, candle.time@, i));
        assert(trend.candles@[i].close@ == trend.candles@[i].close@);
    }
}

/// Nothing else keeps a signal out: it passes where each filter that is on has
/// its candle and that candle's average does not speak against it. Filters that
/// are off are not asked, and a confirmation without candles is not either.
pub proof fn law_nothing_else_keeps_a_signal_out(
    rules: Rules,
    trend: Trend,
    confirm: Trend,
    candle: Candle,
    idx: int,
    side: Side,
    primary: int,
    confirming: int,
)
    requires
        rules.trend_ema_period > 0 && rules.trend_tf_h1 ==> !speaks_against(
            trend.emas@,
            idx,
            candle.close@,
            side,
        ),
        rules.trend_ema_period > 0 && !rules.trend_tf_h1 ==> ascending(trend.candles@) && is_latest(
            trend.candles@,
            candle.time@,
            primary,
        ) && !speaks_against(trend.emas@, primary, trend.candles@[primary].close@, side),
        rules.trend_h4_confirm && confirm.candles@.len() > 0 ==> ascending(confirm.candles@)
            && is_latest(confirm.candles@, candle.time@, confirming) && !speaks_against(
            confirm.emas@,
            confirming,
            confirm.candles@[confirming].close@,
            side,
        ),
    ensures
        trend_ok(rules, trend, confirm, candle, idx, side),
{
    if rules.trend_ema_period > 0 && !rules.trend_tf_h1 {
        lemma_latest_is_the_last_leading(trend.candles@, candle.time@);
    }
    if rules.trend_h4_confirm && confirm.candles@.len() > 0 {
        lemma_latest_is_the_last_leading(confirm.candles@, candle.time@);
    }
}

/// Where a filter over the traded candles has an average, only one of the two
/// sides passes.
pub proof fn law_sides_exclude_each_other(
    rules: Rules,
    trend: Trend,
    confirm: Trend,
    candle: Candle,
    idx: int,
)
    requires
        rules.trend_ema_period > 0,
        rules.trend_tf_h1,
        0 <= idx < trend.emas@.len(),
        trend.emas@[idx] is Some,
    ensures
        !(trend_ok(rules, trend, confirm, candle, idx, Side::Long) && trend_ok(
            rules,
            trend,
            confirm,
            candle,
            idx,
            Side::Short,
        )),
{
}

/// The averages of a trend are over the closes of its candles, each at its own
/// position and none before there are enough.
pub proof fn law_trends_average_the_closes(
    emas: Seq<Option<Decimal>>,
    candles: Seq<Candle>,
    period: nat,
    prices: Seq<Decimal>,
)
    requires
        averages_of(emas, candles, period),
        prices.len() == candles.len(),
        forall|i: int| 0 <= i < candles.len() ==> #[trigger] prices[i] == candles[i].close,
    ensures
        emas.len() == candles.len(),
        forall|i: int|
            0 <= i < emas.len() ==> opt_view(#[trigger] emas[i]) == ema_entry(prices, period, i),
        forall|i: int| 0 <= i < emas.len() && i < period - 1 ==> (#[trigger] emas[i]) is None,
{
    assert(closes(candles) =~= prices);
}

} // verus!
