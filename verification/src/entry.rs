//! When a trade is entered: the filters on candles and signals, and the order.

use vstd::prelude::*;

use crate::decimal::{difference, less, product, quotient, same_value, sum, zero_number};
use crate::decimal::{difference_is_exact, exact_difference, exact_quotient, quotient_is_exact};
use crate::decimal::{law_absolute_value, law_exact_difference, law_exact_quotient, law_exact_sum};
use crate::decimal::{law_order_is_by_value, lemma_unit, sum_is_exact, unit};
use crate::decimal::{Decimal, Number};
use crate::domain::{Candle, RiskConfig, RiskDecision, RiskTerms, Side, TradeSignal};
use crate::friction::{actual_entry_price, entry_fill, fill_ok, fills};
use crate::indicators::{average_true_range, compute_atr, distance};
use crate::killzone::{in_killzone, law_a_window_holds_its_start_and_not_its_end, passes};
use crate::rules::Rules;
use crate::time::{formatted_time, STAMP_FORMAT};
use crate::trade::{magnitude_of, SimTrade, TradeState};
use crate::trend::{trend_filter, trend_ok, Trend};

verus! {

/// The candles that the ATR of the entry filters looks at.
pub const ATR_PERIOD: usize = 14;

/// Whether a signal is looked for on a candle.
pub enum Gate {
    /// A filter on dates, weekdays or volatility keeps entries out.
    Shut,
    /// The candle lies outside the killzone windows.
    OutsideKillzone,
    /// A signal is looked for, with stops no closer than `min_sl`.
    Open { min_sl: Number },
}

/// The candle lies in the range of dates.
pub open spec fn date_ok(rules: Rules, candle: Candle) -> bool {
    &&& rules.date_from matches Some(d) ==> candle.time@.day() >= d
    &&& rules.date_to matches Some(d) ==> candle.time@.day() <= d
}

/// The smallest accepted stop distance at the given ATR.
pub open spec fn stop_distance(rules: Rules, atr: Number) -> Option<Number> {
    match rules.atr_sl_mult {
        Some(m) => product(atr, m@),
        None => Some(rules.min_sl_distance@),
    }
}

/// Whether a signal is looked for on `candle`, with `window` in front of it.
/// The dates come first, then the killzone, the weekday and the volatility.
pub open spec fn gate(rules: Rules, candle: Candle, window: Seq<Candle>) -> Option<Gate> {
    let weekday = candle.time@.weekday();
    if !date_ok(rules, candle) {
        Some(Gate::Shut)
    } else if !passes(candle.time@, rules.killzone_windows@) {
        Some(Gate::OutsideKillzone)
    } else if rules.dow_filter && (weekday == 1 || weekday == 5) {
        Some(Gate::Shut)
    } else {
        match average_true_range(window, ATR_PERIOD as nat) {
            None => None,
            Some(atr) => match stop_distance(rules, atr) {
                None => None,
                Some(min_sl) => if rules.atr_min_price matches Some(m) && less(atr, m@) {
                    Some(Gate::Shut)
                } else {
                    Some(Gate::Open { min_sl })
                },
            },
        }
    }
}

/// Whether a signal is looked for on a candle.
#[derive(Clone, Copy, Debug)]
pub enum EntryGate {
    /// A filter on dates, weekdays or volatility keeps entries out.
    Shut,
    /// The candle lies outside the killzone windows.
    OutsideKillzone,
    /// A signal is looked for, with stops no closer than `min_sl`.
    Open { min_sl: Decimal },
}

impl View for EntryGate {
    type V = Gate;

    open spec fn view(&self) -> Gate {
        match self {
            EntryGate::Shut => Gate::Shut,
            EntryGate::OutsideKillzone => Gate::OutsideKillzone,
            EntryGate::Open { min_sl } => Gate::Open { min_sl: min_sl@ },
        }
    }
}

/// Decides whether a signal is looked for on `candle`; `None` where the ATR or
/// the stop distance overflows.
pub fn entry_gate(rules: &Rules, candle: &Candle, window: &[Candle]) -> (res: Option<EntryGate>)
    ensures
        match res {
            Some(g) => gate(*rules, *candle, window@) == Some(g@),
            None => gate(*rules, *candle, window@) is None,
        },
{
    let day: i32 = candle.time.day();
    if let Some(d) = rules.date_from {
        if day < d {
            return Some(EntryGate::Shut);
        }
    }
    if let Some(d) = rules.date_to {
        if day > d {
            return Some(EntryGate::Shut);
        }
    }
    if !in_killzone(&candle.time, rules.killzone_windows.as_slice()) {
        return Some(EntryGate::OutsideKillzone);
    }
    if rules.dow_filter {
        let wd: u32 = candle.time.weekday();
        if wd == 1 || wd == 5 {
            return Some(EntryGate::Shut);
        }
    }
    let current_atr = compute_atr(window, ATR_PERIOD)?;
    let effective_min_sl = match rules.atr_sl_mult {
        Some(m) => current_atr.checked_mul(m)?,
        None => rules.min_sl_distance,
    };
    if let Some(min_atr) = rules.atr_min_price {
        if current_atr < min_atr {
            return Some(EntryGate::Shut);
        }
    }
    Some(EntryGate::Open { min_sl: effective_min_sl })
}

/// The signal pays at least `min_rr` times its risk; without a minimum any
/// does, and with one a signal without risk does not. `None` on overflow.
pub open spec fn reward_ok(s: TradeSignal, min_rr: Number) -> Option<bool> {
    if !less(zero_number(), min_rr) {
        Some(true)
    } else {
        match (distance(s.tp@, s.entry@), distance(s.entry@, s.sl@)) {
            (Some(reward), Some(risk)) => if same_value(risk, zero_number()) {
                Some(false)
            } else {
                match quotient(reward, risk) {
                    None => None,
                    Some(ratio) => Some(!less(ratio, min_rr)),
                }
            },
            _ => None,
        }
    }
}

/// What position sizing is told. Where the profit is not in dollars, the value
/// of a lot is converted at the candle's close.
pub open spec fn sizing_terms(rules: Rules, close: Number) -> Option<RiskTerms> {
    if rules.profit_is_usd || !less(zero_number(), close) {
        Some(rules.risk@)
    } else {
        match quotient(rules.contract_size@, close) {
            None => None,
            Some(value_per_lot) => Some(RiskTerms { value_per_lot, ..rules.risk@ }),
        }
    }
}

/// What position sizing is told of a signal, or `Some(None)` where a filter
/// drops the signal; `None` on overflow.
pub open spec fn screened(
    rules: Rules,
    trend: Trend,
    confirm: Trend,
    candle: Candle,
    idx: int,
    signal: TradeSignal,
) -> Option<Option<RiskTerms>> {
    if !trend_ok(rules, trend, confirm, candle, idx, signal.side) {
        Some(None)
    } else {
        match reward_ok(signal, rules.min_rr@) {
            None => None,
            Some(false) => Some(None),
            Some(true) => match sizing_terms(rules, candle.close@) {
                None => None,
                Some(terms) => Some(Some(terms)),
            },
        }
    }
}

/// Whether a signal pays enough for its risk; `None` where that overflows.
pub fn reward_filter(signal: &TradeSignal, min_rr: Decimal) -> (res: Option<bool>)
    ensures
        res == reward_ok(*signal, min_rr@),
{
    if min_rr > Decimal::zero() {
        let reward = signal.tp.checked_sub(signal.entry)?.abs();
        let risk = signal.entry.checked_sub(signal.sl)?.abs();
        if risk == Decimal::zero() {
            return Some(false);
        }
        let ratio = reward.checked_div(risk)?;
        Some(!(ratio < min_rr))
    } else {
        Some(true)
    }
}

/// What position sizing is told at the given close; `None` where the conversion
/// overflows.
pub fn sizing_config(rules: &Rules, close: Decimal) -> (res: Option<RiskConfig>)
    ensures
        match res {
            Some(c) => sizing_terms(*rules, close@) == Some(c@),
            None => sizing_terms(*rules, close@) is None,
        },
{
    let mut config = rules.risk;
    if !rules.profit_is_usd && close > Decimal::zero() {
        config.value_per_lot = rules.contract_size.checked_div(close)?;
    }
    Some(config)
}

/// Passes a signal through the filters, and says what position sizing is told
/// of one that comes through. The outer `None` is an overflow.
pub fn screen(
    rules: &Rules,
    trend: &Trend,
    confirm: &Trend,
    candle: &Candle,
    idx: usize,
    signal: &TradeSignal,
) -> (res: Option<Option<RiskConfig>>)
    ensures
        match res {
            Some(Some(c)) => screened(*rules, *trend, *confirm, *candle, idx as int, *signal)
                == Some(Some(c@)),
            Some(None) => screened(*rules, *trend, *confirm, *candle, idx as int, *signal) == Some(
                None::<RiskTerms>,
            ),
            None => screened(*rules, *trend, *confirm, *candle, idx as int, *signal) is None,
        },
{
    if !trend_filter(rules, trend, confirm, candle, idx, signal.side) {
        return Some(None);
    }
    if !reward_filter(signal, rules.min_rr)? {
        return Some(None);
    }
    Some(Some(sizing_config(rules, candle.close)?))
}

/// What became of a sized signal.
pub enum Placed {
    /// Position sizing turned it down.
    Rejected,
    /// The candle did not reach the entry.
    Missed,
    /// It became a trade.
    Opened(TradeState),
}

/// A sized signal as an order on `candle`: a limit order at the entry.
pub open spec fn placed(
    rules: Rules,
    candle: Candle,
    idx: nat,
    signal: TradeSignal,
    decision: RiskDecision,
) -> Option<Placed> {
    if !decision.approved {
        Some(Placed::Rejected)
    } else if !fills(signal.side, signal.entry@, candle.low@, candle.high@) {
        Some(Placed::Missed)
    } else {
        match entry_fill(signal.side, signal.entry@, rules.spread_price@) {
            None => None,
            Some(actual_entry) => Some(
                Placed::Opened(
                    TradeState {
                        opened: formatted_time(
                            candle.time@.secs,
                            candle.time@.nanos,
                            STAMP_FORMAT@,
                        ),
                        signal,
                        volume: decision.volume@,
                        actual_entry,
                        current_sl: signal.sl@,
                        remaining_volume: decision.volume@,
                        partial_pnl: zero_number(),
                        half_closed: false,
                        two_r_hit: false,
                        open_candle_idx: idx,
                    },
                ),
            ),
        }
    }
}

/// What became of a sized signal.
#[derive(Debug)]
pub enum Order {
    /// Position sizing turned it down.
    Rejected,
    /// The candle did not reach the entry.
    Missed,
    /// It became a trade.
    Opened(SimTrade),
}

impl View for Order {
    type V = Placed;

    open spec fn view(&self) -> Placed {
        match self {
            Order::Rejected => Placed::Rejected,
            Order::Missed => Placed::Missed,
            Order::Opened(t) => Placed::Opened(t@),
        }
    }
}

/// Places a sized signal as a limit order on `candle`; `None` where the entry
/// price overflows.
pub fn place_order(
    rules: &Rules,
    candle: &Candle,
    idx: usize,
    signal: &TradeSignal,
    decision: &RiskDecision,
) -> (res: Option<Order>)
    ensures
        match res {
            Some(o) => placed(*rules, *candle, idx as nat, *signal, *decision) == Some(o@),
            None => placed(*rules, *candle, idx as nat, *signal, *decision) is None,
        },
{
    if !decision.approved {
        return Some(Order::Rejected);
    }
    if !fill_ok(signal.side, signal.entry, candle.low, candle.high) {
        return Some(Order::Missed);
    }
    let actual_entry = actual_entry_price(signal.side, signal.entry, rules.spread_price)?;
    Some(
        Order::Opened(
            SimTrade {
                open_time_str: candle.time.stamp(STAMP_FORMAT),
                signal: *signal,
                volume: decision.volume,
                actual_entry,
                current_sl: signal.sl,
                remaining_volume: decision.volume,
                partial_pnl: Decimal::zero(),
                half_closed: false,
                two_r_hit: false,
                open_candle_idx: idx,
            },
        ),
    )
}

/// A new trade has its whole volume open, nothing banked, its stop where the
/// signal put it, and no event behind it.
pub proof fn law_new_trades_are_whole(
    rules: Rules,
    candle: Candle,
    idx: nat,
    signal: TradeSignal,
    decision: RiskDecision,
)
    ensures
        placed(rules, candle, idx, signal, decision) matches Some(Placed::Opened(t)) ==> {
            &&& decision.approved
            &&& fills(signal.side, signal.entry@, candle.low@, candle.high@)
            &&& t.remaining_volume == t.volume
            &&& t.partial_pnl.is_zero()
            &&& t.current_sl == signal.sl@
            &&& !t.half_closed && !t.two_r_hit
        },
{
}

/// An order is rejected exactly where position sizing turned it down. Otherwise
/// it is missed exactly where the candle stays above the entry of a long or below
/// that of a short; only the entry price of a long, on which the spread is paid,
/// can overflow.
pub proof fn law_orders_fill_when_approved_and_touched(
    rules: Rules,
    candle: Candle,
    idx: nat,
    signal: TradeSignal,
    decision: RiskDecision,
)
    ensures
        ({
            let missed = match signal.side {
                Side::Long => less(signal.entry@, candle.low@),
                Side::Short => less(candle.high@, signal.entry@),
            };
            let order = placed(rules, candle, idx, signal, decision);
            &&& order == Some(Placed::Rejected) <==> !decision.approved
            &&& order == Some(Placed::Missed) <==> decision.approved && missed
            &&& order is None <==> decision.approved && !missed && signal.side == Side::Long && sum(
                signal.entry@,
                rules.spread_price@,
            ) is None
        }),
{
}

/// A trade that opens on a short signal entered at the signal's entry, whatever
/// the spread; one that opens on a long signal entered the spread above it. It
/// has the signal and the size that it was ordered with, and is of the candle on
/// which it opened.
pub proof fn law_only_longs_enter_above_the_signal(
    rules: Rules,
    candle: Candle,
    idx: nat,
    signal: TradeSignal,
    decision: RiskDecision,
)
    ensures
        placed(rules, candle, idx, signal, decision) matches Some(Placed::Opened(t)) ==> {
            &&& signal.side == Side::Short ==> t.actual_entry == signal.entry@
            &&& signal.side == Side::Long ==> sum(signal.entry@, rules.spread_price@) == Some(
                t.actual_entry,
            )
            &&& signal.side == Side::Long && signal.entry@.valid() && rules.spread_price@.valid()
                && sum_is_exact(signal.entry@, rules.spread_price@) ==> t.actual_entry.units()
                == signal.entry@.units() + rules.spread_price@.units()
            &&& t.signal == signal
            &&& t.volume == decision.volume@
            &&& t.open_candle_idx == idx
            &&& t.opened == formatted_time(candle.time@.secs, candle.time@.nanos, STAMP_FORMAT@)
        },
{
    if signal.entry@.valid() && rules.spread_price@.valid() && sum_is_exact(
        signal.entry@,
        rules.spread_price@,
    ) {
        law_exact_sum(signal.entry@, rules.spread_price@);
    }
}

/// The two signals have their targets equally far from their entries, and their
/// stops too, on whichever side.
pub open spec fn equally_wide(a: TradeSignal, b: TradeSignal) -> bool {
    &&& match (difference(a.tp@, a.entry@), difference(b.tp@, b.entry@)) {
        (Some(x), Some(y)) => x.absolute() == y.absolute(),
        (None, None) => true,
        _ => false,
    }
    &&& match (difference(a.entry@, a.sl@), difference(b.entry@, b.sl@)) {
        (Some(x), Some(y)) => x.absolute() == y.absolute(),
        (None, None) => true,
        _ => false,
    }
}

/// The filter on rewards does not depend on the direction: a short whose target
/// lies as far below the entry as that of a long lies above it, and whose stop
/// lies as far above, passes exactly where the long does, however numbers are
/// rounded.
pub proof fn law_reward_filter_has_no_direction(a: TradeSignal, b: TradeSignal, min_rr: Number)
    requires
        equally_wide(a, b),
    ensures
        reward_ok(a, min_rr) == reward_ok(b, min_rr),
{
}

/// A signal passes exactly where its reward is at least `min_rr` times its risk,
/// as distances from the entry, where nothing has to be rounded. Without a
/// minimum any signal passes, and with one no signal without risk does.
pub proof fn law_reward_is_weighed_against_risk(s: TradeSignal, min_rr: Number)
    requires
        s.entry@.valid(),
        s.sl@.valid(),
        s.tp@.valid(),
        min_rr.valid(),
        difference_is_exact(s.tp@, s.entry@),
        difference_is_exact(s.entry@, s.sl@),
    ensures
        ({
            let reward = magnitude_of(s.tp@.units() - s.entry@.units());
            let risk = magnitude_of(s.entry@.units() - s.sl@.units());
            &&& min_rr.units() <= 0 ==> reward_ok(s, min_rr) == Some(true)
            &&& min_rr.units() > 0 && risk == 0 ==> reward_ok(s, min_rr) == Some(false)
            &&& min_rr.units() > 0 && risk > 0 && quotient_is_exact(
                exact_difference(s.tp@, s.entry@).absolute(),
                exact_difference(s.entry@, s.sl@).absolute(),
            ) ==> reward_ok(s, min_rr) == Some(reward * unit() >= min_rr.units() * risk)
        }),
{
    let zero = zero_number();
    lemma_unit();
    let (w, r) = (exact_difference(s.tp@, s.entry@), exact_difference(s.entry@, s.sl@));
    law_exact_difference(s.tp@, s.entry@);
    law_exact_difference(s.entry@, s.sl@);
    law_absolute_value(w);
    law_absolute_value(r);
    let (reward, risk) = (w.absolute(), r.absolute());
    law_order_is_by_value(zero, min_rr);
    law_order_is_by_value(risk, zero);
    if min_rr.units() > 0 && risk.units() > 0 && quotient_is_exact(reward, risk) {
        let ratio = exact_quotient(reward, risk);
        law_exact_quotient(reward, risk);
        law_order_is_by_value(ratio, min_rr);
        let (q, k, m, n, u) = (ratio.units(), risk.units(), min_rr.units(), reward.units(), unit());
        assert(q >= m <==> n * u >= m * k) by (nonlinear_arith)
            requires
                q * k == n * u,
                k > 0,
        ;
    }
}

/// A long with its target `w` above the entry and its stop `r` below, and a
/// short with its target `w` below and its stop `r` above, both pass exactly
/// where `w` is at least `min_rr` times `r`, where nothing has to be rounded.
pub proof fn law_longs_and_shorts_are_weighed_alike(
    long: TradeSignal,
    short: TradeSignal,
    min_rr: Number,
)
    requires
        long.entry@.valid() && long.sl@.valid() && long.tp@.valid(),
        short.entry@.valid() && short.sl@.valid() && short.tp@.valid(),
        min_rr.valid(),
        difference_is_exact(long.tp@, long.entry@),
        difference_is_exact(long.entry@, long.sl@),
        difference_is_exact(short.tp@, short.entry@),
        difference_is_exact(short.entry@, short.sl@),
        quotient_is_exact(
            exact_difference(long.tp@, long.entry@).absolute(),
            exact_difference(long.entry@, long.sl@).absolute(),
        ),
        quotient_is_exact(
            exact_difference(short.tp@, short.entry@).absolute(),
            exact_difference(short.entry@, short.sl@).absolute(),
        ),
        min_rr.units() > 0,
        long.entry@.units() == short.entry@.units(),
        long.tp@.units() - long.entry@.units() == short.entry@.units() - short.tp@.units(),
        long.entry@.units() - long.sl@.units() == short.sl@.units() - short.entry@.units(),
        long.tp@.units() > long.entry@.units() > long.sl@.units(),
    ensures
        ({
            let w = long.tp@.units() - long.entry@.units();
            let r = long.entry@.units() - long.sl@.units();
            &&& reward_ok(long, min_rr) == Some(w * unit() >= min_rr.units() * r)
            &&& reward_ok(short, min_rr) == Some(w * unit() >= min_rr.units() * r)
        }),
{
    law_reward_is_weighed_against_risk(long, min_rr);
    law_reward_is_weighed_against_risk(short, min_rr);
}

/// Position sizing is told the rules' own terms, but for the value of a lot
/// where the profit is not in dollars and the close is positive: that is then
/// the contract size divided by the close.
pub proof fn law_lot_value_is_converted_at_the_close(rules: Rules, close: Number)
    ensures
        sizing_terms(rules, close) matches Some(terms) ==> {
            &&& terms.risk_pct == rules.risk.risk_pct@
            &&& terms.min_volume == rules.risk.min_volume@
            &&& terms.max_volume == rules.risk.max_volume@
            &&& terms.volume_step == rules.risk.volume_step@
            &&& rules.profit_is_usd || !less(zero_number(), close) ==> terms.value_per_lot
                == rules.risk.value_per_lot@
            &&& !rules.profit_is_usd && less(zero_number(), close) ==> quotient(
                rules.contract_size@,
                close,
            ) == Some(terms.value_per_lot)
        },
        sizing_terms(rules, close) is None ==> !rules.profit_is_usd && less(zero_number(), close)
            && quotient(rules.contract_size@, close) is None,
        rules.contract_size@.valid() && close.valid() && quotient_is_exact(
            rules.contract_size@,
            close,
        ) && !rules.profit_is_usd && less(zero_number(), close) ==> (sizing_terms(
            rules,
            close,
        ) matches Some(terms) && terms.value_per_lot.units() * close.units()
            == rules.contract_size@.units() * unit()),
{
    if rules.contract_size@.valid() && close.valid() && quotient_is_exact(
        rules.contract_size@,
        close,
    ) {
        law_exact_quotient(rules.contract_size@, close);
    }
}

/// A signal is sized exactly where it goes with the trend and pays enough for
/// its risk, and what is told of it are the terms at the candle's close. One that
/// goes against the trend is dropped before its reward is looked at.
pub proof fn law_signals_pass_both_filters(
    rules: Rules,
    trend: Trend,
    confirm: Trend,
    candle: Candle,
    idx: int,
    signal: TradeSignal,
)
    ensures
        ({
            let out = screened(rules, trend, confirm, candle, idx, signal);
            let trend_passes = trend_ok(rules, trend, confirm, candle, idx, signal.side);
            let reward = reward_ok(signal, rules.min_rr@);
            &&& !trend_passes ==> out == Some(None::<RiskTerms>)
            &&& trend_passes && reward == Some(false) ==> out == Some(None::<RiskTerms>)
            &&& trend_passes && reward is None ==> out is None
            &&& trend_passes && reward == Some(true) ==> match sizing_terms(rules, candle.close@) {
                Some(terms) => out == Some(Some(terms)),
                None => out is None,
            }
        }),
{
}

/// Which candles entries are looked for on: those whose day lies in the range of
/// dates, whose minute lies in a killzone window where there are any, that are of
/// no Monday and no Friday where those are left out, and before which the market
/// moved enough. One outside the killzone is told apart only within the range of
/// dates, and before the weekday is looked at.
pub proof fn law_entries_are_looked_for_in_session(
    rules: Rules,
    candle: Candle,
    window: Seq<Candle>,
)
    ensures
        ({
            let day = candle.time@.secs / 86_400 + 719_163;
            let minute = (candle.time@.secs % 86_400) / 60;
            let weekday = candle.time@.weekday();
            let in_dates = (rules.date_from matches Some(d) ==> day >= d) && (
            rules.date_to matches Some(d) ==> day <= d);
            let in_session = rules.killzone_windows@.len() == 0 || exists|i: int|
                0 <= i < rules.killzone_windows@.len() && (
                #[trigger] rules.killzone_windows@[i]).start_min <= minute
                    < rules.killzone_windows@[i].end_min;
            let day_off = rules.dow_filter && (weekday == 1 || weekday == 5);
            let atr = average_true_range(window, 14);
            let out = gate(rules, candle, window);
            &&& out == Some(Gate::OutsideKillzone) <==> in_dates && !in_session
            &&& !in_dates ==> out == Some(Gate::Shut)
            &&& in_dates && in_session && day_off ==> out == Some(Gate::Shut)
            &&& in_dates && in_session && !day_off ==> match atr {
                None => out is None,
                Some(a) => match (match rules.atr_sl_mult {
                    Some(m) => product(a, m@),
                    None => Some(rules.min_sl_distance@),
                }) {
                    None => out is None,
                    Some(min_sl) => if rules.atr_min_price matches Some(m) && less(a, m@) {
                        out == Some(Gate::Shut)
                    } else {
                        out == Some(Gate::Open { min_sl })
                    },
                },
            }
        }),
{
    law_a_window_holds_its_start_and_not_its_end(candle.time@, rules.killzone_windows@);
}

} // verus!
