//! Volatility and trend, computed from candles.

use vstd::prelude::*;

use crate::decimal::{at_most, difference, larger, less, minus, one_number, opt_view};
use crate::decimal::{over, plus, ten_to, times, whole_number, zero_number};
use crate::decimal::{difference_is_exact, product_is_exact, quotient_is_exact, sum_is_exact};
use crate::decimal::{exact_difference, exact_product, exact_quotient, exact_sum, quotient, unit};
use crate::decimal::{law_absolute_value, law_exact_difference, law_exact_product, law_exact_sum};
use crate::decimal::{law_exact_quotient, law_larger_has_the_larger_value};
use crate::decimal::{lemma_unit, lemma_whole_units};
use crate::decimal::{Decimal, Number};
use crate::domain::Candle;
use crate::time::{Instant, TimePoint};

verus! {

/// The distance between two prices.
pub open spec fn distance(a: Number, b: Number) -> Option<Number> {
    match difference(a, b) {
        Some(d) => Some(d.absolute()),
        None => None,
    }
}

/// The true range of a candle after `prev`: the largest of its own range and of
/// the distances of its high and its low from the close before.
pub open spec fn true_range(prev: Candle, cur: Candle) -> Option<Number> {
    match (
        difference(cur.high@, cur.low@),
        distance(cur.high@, prev.close@),
        distance(cur.low@, prev.close@),
    ) {
        (Some(hl), Some(hc), Some(lc)) => Some(larger(larger(hl, hc), lc)),
        _ => None,
    }
}

/// The true ranges of the candles after `from` up to `to`, added in order.
pub open spec fn true_range_sum(candles: Seq<Candle>, from: int, to: int) -> Option<Number>
    decreases to - from,
{
    if to <= from {
        Some(zero_number())
    } else {
        plus(true_range_sum(candles, from, to - 1), true_range(candles[to - 1], candles[to]))
    }
}

/// The average true range of the last `period` candles, or of as many as have a
/// candle before them; zero where there are none.
pub open spec fn average_true_range(candles: Seq<Candle>, period: nat) -> Option<Number> {
    let last = candles.len() - 1;
    let n = if period < last {
        period as int
    } else {
        last
    };
    if n <= 0 {
        Some(zero_number())
    } else {
        over(true_range_sum(candles, last - n, last), Some(whole_number(n)))
    }
}

/// The weight of the newest price in an exponential average.
pub open spec fn smoothing(period: nat) -> Option<Number> {
    over(Some(whole_number(2)), Some(whole_number((period + 1) as int % 0x1_0000_0000)))
}

/// The first `n` prices, added in order.
pub open spec fn price_sum(prices: Seq<Decimal>, n: int) -> Option<Number>
    decreases n,
{
    if n <= 0 {
        Some(zero_number())
    } else {
        plus(price_sum(prices, n - 1), Some(prices[n - 1]@))
    }
}

/// The exponential average at position `i`: it starts, at the last of the first
/// `period` prices, with their plain average, and moves towards each price
/// after that.
pub open spec fn ema_at(prices: Seq<Decimal>, period: nat, i: int) -> Option<Number>
    decreases i - period + 1,
{
    if i < period {
        over(price_sum(prices, period as int), Some(whole_number(period as int)))
    } else {
        plus(
            times(Some(prices[i]@), smoothing(period)),
            times(ema_at(prices, period, i - 1), minus(Some(one_number()), smoothing(period))),
        )
    }
}

/// What the rolling average has at position `i`: nothing until there is enough
/// data.
pub open spec fn ema_entry(prices: Seq<Decimal>, period: nat, i: int) -> Option<Number> {
    if i < period - 1 {
        None
    } else {
        ema_at(prices, period, i)
    }
}

/// The exponential averages of `prices` can be computed without overflow.
pub open spec fn ema_defined(prices: Seq<Decimal>, period: nat) -> bool {
    &&& smoothing(period) is Some
    &&& period <= prices.len() ==> ema_at(prices, period, prices.len() - 1) is Some
}

/// How many candles, from the first on, are not after `t`.
pub open spec fn leading(candles: Seq<Candle>, t: TimePoint) -> nat
    decreases candles.len(),
{
    if candles.len() > 0 && candles[0].time@.at_or_before(t) {
        1 + leading(candles.drop_first(), t)
    } else {
        0
    }
}

/// True range of `cur` after `prev`; `None` where it overflows.
fn range_of(prev: &Candle, cur: &Candle) -> (res: Option<Decimal>)
    ensures
        opt_view(res) == true_range(*prev, *cur),
{
    let hl = cur.high.checked_sub(cur.low)?;
    let hc = cur.high.checked_sub(prev.close)?;
    let lc = cur.low.checked_sub(prev.close)?;
    Some(hl.max(hc.abs()).max(lc.abs()))
}

/// Average True Range over the last `period` candles in the slice; `None` where
/// it overflows. It is never negative.
pub fn compute_atr(candles: &[Candle], period: usize) -> (res: Option<Decimal>)
    ensures
        opt_view(res) == average_true_range(candles@, period as nat),
        res matches Some(atr) ==> at_most(zero_number(), atr@),
{
    if candles.len() < 2 {
        return Some(Decimal::zero());
    }
    let last: usize = candles.len() - 1;
    let n: usize = if period < last {
        period
    } else {
        last
    };
    let start: usize = last - n;
    let mut sum = Decimal::zero();
    let mut i: usize = start;
    while i < last
        invariant
            start <= i <= last,
            n > 0 || start == last,
            last == candles.len() - 1,
            start == last - n,
            n == (if period < last {
                period
            } else {
                last
            }),
            Some(sum@) == true_range_sum(candles@, start as int, i as int),
            at_most(zero_number(), sum@),
        decreases last - i,
    {
        let range = range_of(&candles[i], &candles[i + 1]);
        proof {
            law_true_range_is_not_negative(candles@[i as int], candles@[i + 1]);
            if range is None || opt_view(range) == None::<Number> || plus(
                Some(sum@),
                opt_view(range),
            ) is None {
                assert(true_range_sum(candles@, start as int, i + 1) is None);
                lemma_range_overflow_stays(candles@, start as int, i + 1, last as int);
            }
        }
        sum = sum.checked_add(range?)?;
        i += 1;
    }
    if n == 0 {
        Some(Decimal::zero())
    } else {
        sum.checked_div(Decimal::from_unsigned(n as u64))
    }
}

/// A sum of true ranges that has overflowed stays so.
proof fn lemma_range_overflow_stays(candles: Seq<Candle>, from: int, mid: int, to: int)
    requires
        from <= mid <= to,
        true_range_sum(candles, from, mid) is None,
    ensures
        true_range_sum(candles, from, to) is None,
    decreases to - mid,
{
    if mid < to {
        lemma_range_overflow_stays(candles, from, mid, to - 1);
    }
}

/// A sum of prices that has overflowed stays so.
proof fn lemma_price_overflow_stays(prices: Seq<Decimal>, mid: int, n: int)
    requires
        0 <= mid <= n,
        price_sum(prices, mid) is None,
    ensures
        price_sum(prices, n) is None,
    decreases n - mid,
{
    if mid < n {
        lemma_price_overflow_stays(prices, mid, n - 1);
    }
}

/// An exponential average that has overflowed stays so.
proof fn lemma_ema_overflow_stays(prices: Seq<Decimal>, period: nat, mid: int, i: int)
    requires
        period - 1 <= mid <= i,
        ema_at(prices, period, mid) is None,
    ensures
        ema_at(prices, period, i) is None,
    decreases i - mid,
{
    if mid < i {
        lemma_ema_overflow_stays(prices, period, mid, i - 1);
    }
}

/// Rolling EMA for each position in `prices`; an inner `None` until there is
/// enough data. The whole is `None` where a step overflows, or where the period
/// is zero.
pub fn rolling_ema(prices: &[Decimal], period: usize) -> (res: Option<Vec<Option<Decimal>>>)
    ensures
        match res {
            None => !ema_defined(prices@, period as nat),
            Some(out) => {
                &&& ema_defined(prices@, period as nat)
                &&& out@.len() == prices@.len()
                &&& forall|i: int|
                    0 <= i < out@.len() ==> opt_view(#[trigger] out@[i]) == ema_entry(
                        prices@,
                        period as nat,
                        i,
                    )
                &&& forall|i: int|
                    period - 1 <= i < out@.len() ==> (#[trigger] out@[i]) is Some
            },
        },
{
    let divisor: u64 = ((period as u128 + 1) % 0x1_0000_0000) as u64;
    let k = Decimal::from_unsigned(2).checked_div(Decimal::from_unsigned(divisor))?;
    let mut out: Vec<Option<Decimal>> = Vec::new();
    let mut i: usize = 0;
    let len: usize = prices.len();
    if len < period {
        while i < len
            invariant
                i <= len,
                len < period,
                out@.len() == i,
                forall|j: int| 0 <= j < i ==> (#[trigger] out@[j]) is None,
            decreases len - i,
        {
            out.push(None);
            i += 1;
        }
        return Some(out);
    }
    let mut sum = Decimal::zero();
    while i < period
        invariant
            i <= period <= len,
            len == prices.len(),
            Some(sum@) == price_sum(prices@, i as int),
            out@.len() == (if i == 0 {
                0
            } else if i == period {
                (i - 1) as int
            } else {
                i as int
            }),
            forall|j: int| 0 <= j < out@.len() ==> (#[trigger] out@[j]) is None,
            smoothing(period as nat) == Some(k@),
        decreases period - i,
    {
        proof {
            if plus(Some(sum@), Some(prices@[i as int]@)) is None {
                lemma_price_overflow_stays(prices@, i + 1, period as int);
                lemma_ema_overflow_stays(prices@, period as nat, period - 1, len - 1);
            }
        }
        sum = sum.checked_add(prices[i])?;
        i += 1;
        if i < period {
            out.push(None);
        }
    }
    let seed_opt = sum.checked_div(Decimal::from_unsigned(period as u64));
    proof {
        assert(opt_view(seed_opt) == ema_at(prices@, period as nat, period - 1));
        if seed_opt is None {
            lemma_ema_overflow_stays(prices@, period as nat, period - 1, len - 1);
        }
    }
    let seed = seed_opt?;
    assert(period > 0);
    out.push(Some(seed));
    let mut ema = seed;
    while i < len
        invariant
            0 < period <= i <= len,
            len == prices.len(),
            out@.len() == i,
            Some(ema@) == ema_at(prices@, period as nat, i - 1),
            smoothing(period as nat) == Some(k@),
            forall|j: int| 0 <= j < period - 1 ==> (#[trigger] out@[j]) is None,
            forall|j: int|
                period - 1 <= j < i ==> (#[trigger] out@[j]) is Some && opt_view(out@[j]) == ema_at(
                    prices@,
                    period as nat,
                    j,
                ),
        decreases len - i,
    {
        let next = ema_step(ema, prices[i], k);
        proof {
            assert(opt_view(next) == ema_at(prices@, period as nat, i as int));
            if next is None {
                lemma_ema_overflow_stays(prices@, period as nat, i as int, len - 1);
            }
        }
        ema = next?;
        out.push(Some(ema));
        i += 1;
    }
    Some(out)
}

/// One step of an exponential average with the weight `k`: towards `price` by
/// that weight; `None` where it overflows.
pub fn ema_step(ema: Decimal, price: Decimal, k: Decimal) -> (res: Option<Decimal>)
    ensures
        opt_view(res) == plus(
            times(Some(price@), Some(k@)),
            times(Some(ema@), minus(Some(one_number()), Some(k@))),
        ),
{
    let fresh = price.checked_mul(k)?;
    let rest = Decimal::one().checked_sub(k)?;
    let kept = ema.checked_mul(rest)?;
    fresh.checked_add(kept)
}

/// How many candles, from the first on, are not after `t`. On candles in
/// ascending order that is where those after `t` begin.
pub fn count_until(candles: &[Candle], t: &Instant) -> (res: usize)
    ensures
        res == leading(candles@, t@),
        res <= candles.len(),
{
    let mut i: usize = 0;
    assert(candles@.skip(0) =~= candles@);
    while i < candles.len() && candles[i].time.at_or_before(t)
        invariant
            i <= candles.len(),
            leading(candles@, t@) == i + leading(candles@.skip(i as int), t@),
        decreases candles.len() - i,
    {
        assert(candles@.skip(i as int).drop_first() =~= candles@.skip(i + 1));
        i += 1;
    }
    i
}

/// The times of the candles do not go back.
pub open spec fn ascending(candles: Seq<Candle>) -> bool {
    forall|i: int, j: int|
        #![trigger candles[i], candles[j]]
        0 <= i <= j < candles.len() ==> candles[i].time@.at_or_before(candles[j].time@)
}

/// On candles in ascending order, the count of the leading candles parts those
/// not after `t` from those after it.
pub proof fn law_leading_is_the_partition_point(candles: Seq<Candle>, t: TimePoint)
    requires
        ascending(candles),
    ensures
        leading(candles, t) <= candles.len(),
        forall|i: int|
            0 <= i < candles.len() ==> ((#[trigger] candles[i]).time@.at_or_before(t) <==> i
                < leading(candles, t)),
    decreases candles.len(),
{
    if candles.len() > 0 && candles[0].time@.at_or_before(t) {
        let rest = candles.drop_first();
        assert forall|i: int, j: int|
            #![trigger rest[i], rest[j]]
            0 <= i <= j < rest.len() implies rest[i].time@.at_or_before(rest[j].time@) by {
            assert(rest[i] == candles[i + 1] && rest[j] == candles[j + 1]);
        }
        law_leading_is_the_partition_point(rest, t);
        assert forall|i: int| 0 <= i < candles.len() implies ((
        #[trigger] candles[i]).time@.at_or_before(t) <==> i < leading(candles, t)) by {
            if i > 0 {
                assert(rest[i - 1] == candles[i]);
            }
        }
    } else {
        assert forall|i: int| 0 <= i < candles.len() implies ((
        #[trigger] candles[i]).time@.at_or_before(t) <==> i < leading(candles, t)) by {
            assert(candles[0].time@.at_or_before(candles[i].time@));
        }
    }
}

/// A true range is never negative.
pub proof fn law_true_range_is_not_negative(prev: Candle, cur: Candle)
    ensures
        true_range(prev, cur) matches Some(r) ==> at_most(zero_number(), r),
{
    if let Some(r) = true_range(prev, cur) {
        let hl = difference(cur.high@, cur.low@)->0;
        let hc = distance(cur.high@, prev.close@)->0;
        let lc = distance(cur.low@, prev.close@)->0;
        let m = larger(hl, hc);
        assert(ten_to(0) == 1);
        let x = m.signed();
        let y = lc.signed();
        let p = ten_to(lc.scale) as int;
        let q = ten_to(m.scale) as int;
        crate::decimal::lemma_ten_to_positive(lc.scale);
        if !less(m, lc) {
            assert(x >= 0) by (nonlinear_arith)
                requires
                    x * p >= y * q,
                    y >= 0,
                    p > 0,
                    q >= 0,
            ;
        }
        assert(r.signed() >= 0);
        let z = ten_to(r.scale) as int;
        assert(0 * z == 0) by (nonlinear_arith);
    }
}

/// Sums of true ranges over stretches of candles that agree in what a true range
/// looks at.
proof fn lemma_same_ranges(a: Seq<Candle>, b: Seq<Candle>, from: int, shift: int, to: int)
    requires
        0 <= from,
        0 <= from + shift,
        to < a.len(),
        to + shift < b.len(),
        forall|i: int|
            #![trigger a[i]]
            from <= i < to ==> a[i].close@ == b[i + shift].close@,
        forall|i: int|
            #![trigger a[i]]
            from < i <= to ==> a[i].high@ == b[i + shift].high@ && a[i].low@ == b[i + shift].low@,
    ensures
        true_range_sum(a, from, to) == true_range_sum(b, from + shift, to + shift),
    decreases to - from,
{
    if to > from {
        lemma_same_ranges(a, b, from, shift, to - 1);
        assert(a[to - 1].close@ == b[to - 1 + shift].close@);
        assert(a[to].high@ == b[to + shift].high@);
    }
}

/// How many true ranges an average over `period` candles takes in.
pub open spec fn ranges_taken(candles: Seq<Candle>, period: nat) -> int {
    if period < candles.len() - 1 {
        period as int
    } else {
        candles.len() - 1
    }
}

/// Older candles have no influence on the average true range: the last ones, and
/// the one before them, give the same.
pub proof fn law_atr_forgets_older_candles(candles: Seq<Candle>, period: nat)
    requires
        candles.len() >= 1,
    ensures
        ({
            let n = ranges_taken(candles, period);
            average_true_range(candles, period) == average_true_range(
                candles.skip(candles.len() - 1 - n),
                period,
            )
        }),
{
    let n = ranges_taken(candles, period);
    let k = candles.len() - 1 - n;
    let tail = candles.skip(k);
    if n > 0 {
        lemma_same_ranges(tail, candles, 0, k, n);
    }
}

/// The average true range looks at nothing but the highs and lows of the last
/// candles and the closes before them: neither at times, opens, spreads and
/// volumes, nor at the high and low of the candle before the first of them, nor
/// at the last close.
pub proof fn law_atr_looks_at_ranges_only(a: Seq<Candle>, b: Seq<Candle>, period: nat)
    requires
        a.len() == b.len(),
        forall|i: int|
            #![trigger a[i]]
            a.len() - 1 - ranges_taken(a, period) <= i < a.len() - 1 ==> a[i].close@ == b[i].close@,
        forall|i: int|
            #![trigger a[i]]
            a.len() - 1 - ranges_taken(a, period) < i <= a.len() - 1 ==> a[i].high@ == b[i].high@
                && a[i].low@ == b[i].low@,
    ensures
        average_true_range(a, period) == average_true_range(b, period),
{
    let n = ranges_taken(a, period);
    let last = a.len() - 1;
    if n > 0 {
        lemma_same_ranges(a, b, last - n, 0, last);
    }
}

/// Every period that reaches back to the first candle, or beyond it, gives the
/// same average true range.
pub proof fn law_atr_of_long_periods_agrees(candles: Seq<Candle>, period: nat, other: nat)
    requires
        period >= candles.len() - 1,
        other >= candles.len() - 1,
    ensures
        average_true_range(candles, period) == average_true_range(candles, other),
{
}

proof fn lemma_price_sum_of_prefix(prices: Seq<Decimal>, m: int, n: int)
    requires
        n <= m <= prices.len(),
    ensures
        price_sum(prices.take(m), n) == price_sum(prices, n),
    decreases n,
{
    if n > 0 {
        lemma_price_sum_of_prefix(prices, m, n - 1);
    }
}

proof fn lemma_ema_of_prefix(prices: Seq<Decimal>, period: nat, m: int, i: int)
    requires
        period <= m <= prices.len(),
        i < m,
    ensures
        ema_at(prices.take(m), period, i) == ema_at(prices, period, i),
    decreases i - period + 1,
{
    if i < period {
        lemma_price_sum_of_prefix(prices, m, period as int);
    } else {
        lemma_ema_of_prefix(prices, period, m, i - 1);
    }
}

/// The rolling average never looks ahead: the averages of the first `m` prices
/// are the first `m` of the averages of all of them. They can be computed
/// wherever those can.
pub proof fn law_ema_of_a_prefix_is_the_prefix(prices: Seq<Decimal>, period: nat, m: int)
    requires
        0 <= m <= prices.len(),
        ema_defined(prices, period),
    ensures
        ema_defined(prices.take(m), period),
        forall|i: int|
            0 <= i < m ==> #[trigger] ema_entry(prices.take(m), period, i) == ema_entry(
                prices,
                period,
                i,
            ),
{
    let prefix = prices.take(m);
    if period <= m {
        lemma_ema_of_prefix(prices, period, m, m - 1);
        if ema_at(prices, period, m - 1) is None {
            lemma_ema_overflow_stays(prices, period, m - 1, prices.len() - 1);
        }
        assert forall|i: int| 0 <= i < m implies #[trigger] ema_entry(prefix, period, i)
            == ema_entry(prices, period, i) by {
            lemma_ema_of_prefix(prices, period, m, i);
        }
    }
}

/// How far two integers lie apart.
pub open spec fn gap(a: int, b: int) -> int {
    if a < b {
        b - a
    } else {
        a - b
    }
}

/// The true range of `cur` after `prev` needs no rounding.
pub open spec fn range_is_exact(prev: Candle, cur: Candle) -> bool {
    &&& cur.high@.valid() && cur.low@.valid() && prev.close@.valid()
    &&& difference_is_exact(cur.high@, cur.low@)
    &&& difference_is_exact(cur.high@, prev.close@)
    &&& difference_is_exact(cur.low@, prev.close@)
}

/// The true range is the smallest span that holds the candle and the close before
/// it, where nothing has to be rounded: no two of the high, the low and that
/// close lie further apart, and two of them lie as far apart. The low of a candle
/// does not lie above its high.
pub proof fn law_true_range_spans_the_candle_and_the_close_before(prev: Candle, cur: Candle)
    requires
        range_is_exact(prev, cur),
        cur.low@.units() <= cur.high@.units(),
    ensures
        true_range(prev, cur) matches Some(r) && r.valid() && {
            let (h, l, c) = (cur.high@.units(), cur.low@.units(), prev.close@.units());
            &&& r.units() >= h - l && r.units() >= gap(h, c) && r.units() >= gap(l, c)
            &&& r.units() == h - l || r.units() == gap(h, c) || r.units() == gap(l, c)
        },
{
    let hl = exact_difference(cur.high@, cur.low@);
    let hc = exact_difference(cur.high@, prev.close@);
    let lc = exact_difference(cur.low@, prev.close@);
    law_exact_difference(cur.high@, cur.low@);
    law_exact_difference(cur.high@, prev.close@);
    law_exact_difference(cur.low@, prev.close@);
    law_absolute_value(hc);
    law_absolute_value(lc);
    law_larger_has_the_larger_value(hl, hc.absolute());
    law_larger_has_the_larger_value(larger(hl, hc.absolute()), lc.absolute());
}

/// The distance between two prices does not depend on their order, and is that
/// between their values, where nothing has to be rounded.
pub proof fn law_distance_is_between_the_values(a: Number, b: Number)
    requires
        a.valid(),
        b.valid(),
        difference_is_exact(a, b),
    ensures
        distance(a, b) matches Some(d) && d.valid() && d.units() == gap(a.units(), b.units()),
{
    law_exact_difference(a, b);
    law_absolute_value(exact_difference(a, b));
}

/// The values of the true ranges of the candles after `from` up to `to`,
/// together.
pub open spec fn range_units(candles: Seq<Candle>, from: int, to: int) -> int
    decreases to - from,
{
    if to <= from {
        0
    } else {
        range_units(candles, from, to - 1) + true_range(candles[to - 1], candles[to])->0.units()
    }
}

/// Adding up the true ranges of the candles after `from` up to `to` needs no
/// rounding.
pub open spec fn ranges_add_exactly(candles: Seq<Candle>, from: int, to: int) -> bool
    decreases to - from,
{
    to <= from || {
        &&& ranges_add_exactly(candles, from, to - 1)
        &&& range_is_exact(candles[to - 1], candles[to])
        &&& candles[to].low@.units() <= candles[to].high@.units()
        &&& true_range_sum(candles, from, to - 1) matches Some(s) && true_range(
            candles[to - 1],
            candles[to],
        ) matches Some(r) && sum_is_exact(s, r)
    }
}

proof fn lemma_range_sum_units(candles: Seq<Candle>, from: int, to: int)
    requires
        from <= to,
        ranges_add_exactly(candles, from, to),
    ensures
        true_range_sum(candles, from, to) matches Some(s) && s.valid() && s.units() == range_units(
            candles,
            from,
            to,
        ),
    decreases to - from,
{
    lemma_unit();
    if to > from {
        lemma_range_sum_units(candles, from, to - 1);
        law_true_range_spans_the_candle_and_the_close_before(candles[to - 1], candles[to]);
        law_exact_sum(
            true_range_sum(candles, from, to - 1)->0,
            true_range(candles[to - 1], candles[to])->0,
        );
    }
}

/// The average true range is the mean of the true ranges of the last `period`
/// candles, or of all that have a candle before them where there are fewer: that
/// many times the average is the true ranges together, where nothing has to be
/// rounded. Without any it is zero.
pub proof fn law_atr_is_the_mean_of_the_ranges(candles: Seq<Candle>, period: nat)
    requires
        candles.len() <= u32::MAX,
        ({
            let last = candles.len() - 1;
            let n = if period < last {
                period as int
            } else {
                last
            };
            n > 0 ==> ranges_add_exactly(candles, last - n, last) && (true_range_sum(
                candles,
                last - n,
                last,
            ) matches Some(s) && quotient_is_exact(s, whole_number(n)))
        }),
    ensures
        average_true_range(candles, period) matches Some(atr) && {
            let last = candles.len() - 1;
            let n = if period < last {
                period as int
            } else {
                last
            };
            &&& n > 0 ==> atr.units() * n == range_units(candles, last - n, last)
            &&& n <= 0 ==> atr.units() == 0
        },
{
    let last = candles.len() - 1;
    let n = if period < last {
        period as int
    } else {
        last
    };
    lemma_unit();
    if n > 0 {
        lemma_range_sum_units(candles, last - n, last);
        let total = true_range_sum(candles, last - n, last)->0;
        lemma_whole_units(n);
        law_exact_quotient(total, whole_number(n));
        let (a, u, s) = (exact_quotient(total, whole_number(n)).units(), unit(), total.units());
        assert(a * n == s) by (nonlinear_arith)
            requires
                a * (n * u) == s * u,
                u > 0,
        {
            assert(a * (n * u) == (a * n) * u);
        }
    }
}

/// The weight of the newest price is two over one more than the period; and as
/// many weights as that make two, where nothing has to be rounded.
pub proof fn law_weight_follows_from_the_period(period: nat)
    requires
        period < u32::MAX,
    ensures
        smoothing(period) == quotient(whole_number(2), whole_number((period + 1) as int)),
        quotient_is_exact(whole_number(2), whole_number((period + 1) as int)) ==> (smoothing(
            period,
        ) matches Some(k) && k.valid() && k.units() * (period + 1) == 2 * unit()),
{
    let n = (period + 1) as int;
    lemma_unit();
    lemma_whole_units(2);
    lemma_whole_units(n);
    if quotient_is_exact(whole_number(2), whole_number(n)) {
        law_exact_quotient(whole_number(2), whole_number(n));
        let (k, u) = (exact_quotient(whole_number(2), whole_number(n)).units(), unit());
        assert(k * n == 2 * u) by (nonlinear_arith)
            requires
                k * (n * u) == (2 * u) * u,
                u > 0,
        {
            assert(k * (n * u) == (k * n) * u);
        }
    }
}

/// The values of the first `n` prices together.
pub open spec fn price_units(prices: Seq<Decimal>, n: int) -> int
    decreases n,
{
    if n <= 0 {
        0
    } else {
        price_units(prices, n - 1) + prices[n - 1]@.units()
    }
}

/// Adding up the first `n` prices needs no rounding.
pub open spec fn prices_add_exactly(prices: Seq<Decimal>, n: int) -> bool
    decreases n,
{
    n <= 0 || {
        &&& prices_add_exactly(prices, n - 1)
        &&& prices[n - 1]@.valid()
        &&& price_sum(prices, n - 1) matches Some(s) && sum_is_exact(s, prices[n - 1]@)
    }
}

proof fn lemma_price_sum_units(prices: Seq<Decimal>, n: int)
    requires
        0 <= n,
        prices_add_exactly(prices, n),
    ensures
        price_sum(prices, n) matches Some(s) && s.valid() && s.units() == price_units(prices, n),
    decreases n,
{
    lemma_unit();
    if n > 0 {
        lemma_price_sum_units(prices, n - 1);
        law_exact_sum(price_sum(prices, n - 1)->0, prices[n - 1]@);
    }
}

/// The exponential average starts with the mean of the first `period` prices, at
/// the last of them, and there is none before: where nothing has to be rounded,
/// that many times the average is those prices together.
pub proof fn law_ema_starts_with_the_mean(prices: Seq<Decimal>, period: nat)
    requires
        0 < period <= u32::MAX,
        prices_add_exactly(prices, period as int),
        price_sum(prices, period as int) matches Some(s) && quotient_is_exact(
            s,
            whole_number(period as int),
        ),
    ensures
        forall|i: int| i < period - 1 ==> #[trigger] ema_entry(prices, period, i) is None,
        ema_entry(prices, period, period - 1) matches Some(e) && e.valid() && e.units() * period
            == price_units(prices, period as int),
{
    let n = period as int;
    lemma_unit();
    lemma_whole_units(n);
    lemma_price_sum_units(prices, n);
    let total = price_sum(prices, n)->0;
    law_exact_quotient(total, whole_number(n));
    let (a, u, s) = (exact_quotient(total, whole_number(n)).units(), unit(), total.units());
    assert(a * n == s) by (nonlinear_arith)
        requires
            a * (n * u) == s * u,
            u > 0,
    {
        assert(a * (n * u) == (a * n) * u);
    }
}

/// From one position to the next the average moves towards the price there, by
/// the share of the distance that the weight says, where nothing has to be
/// rounded.
pub proof fn law_ema_moves_towards_the_price(prices: Seq<Decimal>, period: nat, i: int)
    requires
        0 < period <= i < prices.len(),
        prices[i]@.valid(),
        ema_entry(prices, period, i - 1) matches Some(e) && smoothing(period) matches Some(k) && {
            let rest = exact_difference(one_number(), k);
            &&& e.valid() && k.valid()
            &&& difference_is_exact(one_number(), k)
            &&& product_is_exact(prices[i]@, k)
            &&& product_is_exact(e, rest)
            &&& sum_is_exact(exact_product(prices[i]@, k), exact_product(e, rest))
        },
    ensures
        ema_entry(prices, period, i - 1) matches Some(e) && smoothing(period) matches Some(k)
            && ema_entry(prices, period, i) matches Some(next) && (next.units() - e.units())
            * unit() == k.units() * (prices[i]@.units() - e.units()),
{
    let e = ema_at(prices, period, i - 1)->0;
    let k = smoothing(period)->0;
    let rest = exact_difference(one_number(), k);
    lemma_unit();
    law_exact_difference(one_number(), k);
    law_exact_product(prices[i]@, k);
    law_exact_product(e, rest);
    let (fresh, kept) = (exact_product(prices[i]@, k), exact_product(e, rest));
    law_exact_sum(fresh, kept);
    assert(ema_at(prices, period, i) == Some(exact_sum(fresh, kept)));
    let (p, w, a, f, g, u) = (
        prices[i]@.units(),
        k.units(),
        e.units(),
        fresh.units(),
        kept.units(),
        unit(),
    );
    assert((f + g - a) * u == w * (p - a)) by (nonlinear_arith)
        requires
            f * u == p * w,
            g * u == a * (u - w),
    {
        assert((f + g - a) * u == f * u + g * u - a * u);
        assert(a * (u - w) == a * u - a * w);
        assert(w * (p - a) == p * w - a * w);
    }
}

/// The averages can be computed wherever the weight and each average from the
/// first on can; too few prices need nothing but the weight.
pub proof fn law_averages_fail_only_on_overflow(prices: Seq<Decimal>, period: nat)
    requires
        smoothing(period) is Some,
        0 < period <= prices.len() ==> forall|i: int|
            period - 1 <= i < prices.len() ==> (#[trigger] ema_entry(prices, period, i)) is Some,
        period > 0,
    ensures
        ema_defined(prices, period),
{
    if period <= prices.len() {
        assert(ema_entry(prices, period, prices.len() - 1) is Some);
    }
}

} // verus!
