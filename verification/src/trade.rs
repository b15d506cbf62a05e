//! An open trade: what closing it brings, and how it is managed while open.

use vstd::prelude::*;

use crate::decimal::{at_most, difference, floor_of, less, minus, one_number};
use crate::decimal::{difference_is_exact, product_is_exact, sum_is_exact};
use crate::decimal::{exact_difference, exact_product, exact_sum};
use crate::decimal::{law_exact_difference, law_exact_product_keeps_order, law_exact_sum};
use crate::decimal::law_order_is_by_value;
use crate::decimal::{exact_quotient, quotient, quotient_is_exact, same_value, unit};
use crate::decimal::{law_absolute_value, law_exact_product, law_exact_quotient};
use crate::decimal::{law_floor_is_the_whole_number_below, lemma_unit, lemma_whole_units};
use crate::decimal::{opt_view, over, plus, product, sum, ten_to, times, whole_number, zero_number};
use crate::decimal::{Decimal, Number, SCALE_MAX};
use crate::domain::{Candle, Side, TradeSignal};
use crate::friction::{actual_exit_price, gross_pnl, profit_rate};
use crate::friction::{conversion_rate, entry_fill, exit_fill, fills_exactly, price_gain};
use crate::friction::law_friction_never_improves_a_fill;
use crate::indicators::distance;
use crate::rules::Rules;

verus! {

/// A simulated open trade.
#[derive(Debug)]
pub struct SimTrade {
    pub open_time_str: String,
    pub signal: TradeSignal,
    pub volume: Decimal,
    /// Entry price after spread (a long pays the ask).
    pub actual_entry: Decimal,
    /// May be moved to `signal.entry` (breakeven) after 1:1.
    pub current_sl: Decimal,
    /// What partial closes have left.
    pub remaining_volume: Decimal,
    /// P&L banked from partial closes; added to the balance at the final close.
    pub partial_pnl: Decimal,
    /// True once the 1:1 partial close and/or stop move has fired.
    pub half_closed: bool,
    /// True once the price has reached 2R.
    pub two_r_hit: bool,
    /// Index of the candle at which the trade opened.
    pub open_candle_idx: usize,
}

/// The state of an open trade.
pub struct TradeState {
    pub opened: Seq<char>,
    pub signal: TradeSignal,
    pub volume: Number,
    pub actual_entry: Number,
    pub current_sl: Number,
    pub remaining_volume: Number,
    pub partial_pnl: Number,
    pub half_closed: bool,
    pub two_r_hit: bool,
    pub open_candle_idx: nat,
}

impl View for SimTrade {
    type V = TradeState;

    open spec fn view(&self) -> TradeState {
        TradeState {
            opened: self.open_time_str@,
            signal: self.signal,
            volume: self.volume@,
            actual_entry: self.actual_entry@,
            current_sl: self.current_sl@,
            remaining_volume: self.remaining_volume@,
            partial_pnl: self.partial_pnl@,
            half_closed: self.half_closed,
            two_r_hit: self.two_r_hit,
            open_candle_idx: self.open_candle_idx as nat,
        }
    }
}

/// What closing the rest of a trade comes to.
pub struct Outcome {
    pub exit: Number,
    /// Partial closes and the final one together.
    pub pnl: Number,
    /// What the final close would have brought more without costs.
    pub friction: Number,
}

/// What closing the rest of a trade comes to.
#[derive(Clone, Copy, Debug)]
pub struct Closing {
    pub exit: Decimal,
    pub pnl: Decimal,
    pub friction: Decimal,
}

impl View for Closing {
    type V = Outcome;

    open spec fn view(&self) -> Outcome {
        Outcome { exit: self.exit@, pnl: self.pnl@, friction: self.friction@ }
    }
}

/// The net profit of `volume` lots of a trade that leave at the price `exit`:
/// the gain, in the account's currency, less the commission.
pub open spec fn net_gain(rules: Rules, t: TradeState, exit: Number, volume: Number) -> Option<
    Number,
> {
    minus(
        times(
            price_gain(t.signal.side, t.actual_entry, exit, volume, rules.contract_size@),
            conversion_rate(rules.profit_is_usd, exit),
        ),
        product(rules.commission_per_lot@, volume),
    )
}

/// The profit of the rest of a trade at `level` if trading cost nothing.
pub open spec fn frictionless_gain(rules: Rules, t: TradeState, level: Number) -> Option<Number> {
    times(
        price_gain(
            t.signal.side,
            t.signal.entry@,
            level,
            t.remaining_volume,
            rules.contract_size@,
        ),
        conversion_rate(rules.profit_is_usd, level),
    )
}

/// Closing the rest of a trade at `level`.
#[verifier::opaque]
pub open spec fn outcome(rules: Rules, t: TradeState, level: Number, is_sl: bool) -> Option<
    Outcome,
> {
    match exit_fill(t.signal.side, level, is_sl, rules.spread_price@, rules.slippage_price@) {
        None => None,
        Some(exit) => {
            let final_pnl = net_gain(rules, t, exit, t.remaining_volume);
            match (
                plus(Some(t.partial_pnl), final_pnl),
                minus(frictionless_gain(rules, t, level), final_pnl),
            ) {
                (Some(pnl), Some(friction)) => Some(Outcome { exit, pnl, friction }),
                _ => None,
            }
        },
    }
}

/// Net profit of `volume` lots that leave at `exit`; `None` where it overflows.
fn net_pnl(rules: &Rules, t: &SimTrade, exit: Decimal, volume: Decimal) -> (res: Option<Decimal>)
    ensures
        opt_view(res) == net_gain(*rules, t@, exit@, volume@),
{
    let gross = gross_pnl(t.signal.side, t.actual_entry, exit, volume, rules.contract_size)?;
    let rate = profit_rate(rules.profit_is_usd, exit)?;
    let converted = gross.checked_mul(rate)?;
    let commission = rules.commission_per_lot.checked_mul(volume)?;
    converted.checked_sub(commission)
}

/// What closing the rest of a trade at `level` comes to; `None` where it
/// overflows.
pub fn close(rules: &Rules, t: &SimTrade, level: Decimal, is_sl: bool) -> (res: Option<Closing>)
    ensures
        match res {
            Some(c) => outcome(*rules, t@, level@, is_sl) == Some(c@),
            None => outcome(*rules, t@, level@, is_sl) is None,
        },
{
    proof {
        reveal(outcome);
    }
    let exit = actual_exit_price(
        t.signal.side,
        level,
        is_sl,
        rules.spread_price,
        rules.slippage_price,
    )?;
    let final_pnl = net_pnl(rules, t, exit, t.remaining_volume)?;
    let gross = gross_pnl(
        t.signal.side,
        t.signal.entry,
        level,
        t.remaining_volume,
        rules.contract_size,
    )?;
    let rate = profit_rate(rules.profit_is_usd, level)?;
    let frictionless_pnl = gross.checked_mul(rate)?;
    let friction = frictionless_pnl.checked_sub(final_pnl)?;
    let pnl = t.partial_pnl.checked_add(final_pnl)?;
    Some(Closing { exit, pnl, friction })
}

/// What a partial close took and left.
pub struct PartialState {
    pub opened: Seq<char>,
    pub side: Side,
    pub actual_entry: Number,
    pub exit: Number,
    pub volume: Number,
    pub pnl: Number,
    pub remaining: Number,
}

/// What a partial close took and left.
#[derive(Debug)]
pub struct PartialClose {
    pub open_time_str: String,
    pub side: Side,
    pub actual_entry: Decimal,
    pub exit: Decimal,
    pub volume: Decimal,
    pub pnl: Decimal,
    pub remaining: Decimal,
}

impl View for PartialClose {
    type V = PartialState;

    open spec fn view(&self) -> PartialState {
        PartialState {
            opened: self.open_time_str@,
            side: self.side,
            actual_entry: self.actual_entry@,
            exit: self.exit@,
            volume: self.volume@,
            pnl: self.pnl@,
            remaining: self.remaining@,
        }
    }
}

/// The view of a partial close that may not have happened.
pub open spec fn partial_view(p: Option<PartialClose>) -> Option<PartialState> {
    match p {
        Some(x) => Some(x@),
        None => None,
    }
}

/// The share `1 / divisor` of `volume`, rounded down to whole steps.
pub open spec fn share(volume: Number, divisor: int, step: Number) -> Option<Number> {
    match over(over(Some(volume), Some(whole_number(divisor))), Some(step)) {
        None => None,
        Some(steps) => product(floor_of(steps), step),
    }
}

/// A share is closed only where it can be traded and leaves something open.
pub open spec fn share_tradable(rules: Rules, t: TradeState, volume: Number) -> bool {
    at_most(rules.risk.min_volume@, volume) && less(volume, t.remaining_volume)
}

/// Closing `1 / divisor` of a trade at `level`: the trade with the profit
/// banked and the volume gone, and what was closed; the trade as it was where
/// the share is not tradable.
#[verifier::opaque]
pub open spec fn partial_taken(rules: Rules, t: TradeState, level: Number, divisor: int) -> Option<
    (TradeState, Option<PartialState>),
> {
    match share(t.volume, divisor, rules.risk.volume_step@) {
        None => None,
        Some(volume) => if !share_tradable(rules, t, volume) {
            Some((t, None))
        } else {
            match exit_fill(
                t.signal.side,
                level,
                false,
                rules.spread_price@,
                rules.slippage_price@,
            ) {
                None => None,
                Some(exit) => match net_gain(rules, t, exit, volume) {
                    None => None,
                    Some(pnl) => match (
                        sum(t.partial_pnl, pnl),
                        difference(t.remaining_volume, volume),
                    ) {
                        (Some(banked), Some(left)) => Some(
                            (
                                TradeState { partial_pnl: banked, remaining_volume: left, ..t },
                                Some(
                                    PartialState {
                                        opened: t.opened,
                                        side: t.signal.side,
                                        actual_entry: t.actual_entry,
                                        exit,
                                        volume,
                                        pnl,
                                        remaining: left,
                                    },
                                ),
                            ),
                        ),
                        _ => None,
                    },
                },
            }
        },
    }
}

/// Closes `1 / divisor` of a trade at `level` where that share is tradable. The
/// outer `None` is an overflow.
fn take_partial(rules: &Rules, t: &mut SimTrade, level: Decimal, divisor: u64) -> (res: Option<
    Option<PartialClose>,
>)
    ensures
        match res {
            Some(p) => partial_taken(*rules, old(t)@, level@, divisor as int) == Some(
                (final(t)@, partial_view(p)),
            ),
            None => partial_taken(*rules, old(t)@, level@, divisor as int) is None,
        },
        final(t)@ == (TradeState {
            partial_pnl: final(t)@.partial_pnl,
            remaining_volume: final(t)@.remaining_volume,
            ..old(t)@
        }),
        final(t).signal == old(t).signal,
{
    proof {
        reveal(partial_taken);
    }
    let part = t.volume.checked_div(Decimal::from_unsigned(divisor))?;
    let steps = part.checked_div(rules.risk.volume_step)?;
    let volume = steps.floor().checked_mul(rules.risk.volume_step)?;
    if volume >= rules.risk.min_volume && t.remaining_volume > volume {
        let exit = actual_exit_price(
            t.signal.side,
            level,
            false,
            rules.spread_price,
            rules.slippage_price,
        )?;
        let pnl = net_pnl(rules, t, exit, volume)?;
        let banked = t.partial_pnl.checked_add(pnl)?;
        let left = t.remaining_volume.checked_sub(volume)?;
        t.partial_pnl = banked;
        t.remaining_volume = left;
        Some(
            Some(
                PartialClose {
                    open_time_str: t.open_time_str.clone(),
                    side: t.signal.side,
                    actual_entry: t.actual_entry,
                    exit,
                    volume,
                    pnl,
                    remaining: left,
                },
            ),
        )
    } else {
        Some(None)
    }
}

/// The candle reaches `level` in the direction of the trade.
pub open spec fn reaches(side: Side, candle: Candle, level: Number) -> bool {
    match side {
        Side::Long => at_most(level, candle.high@),
        Side::Short => at_most(candle.low@, level),
    }
}

pub fn reached(side: Side, candle: &Candle, level: Decimal) -> (res: bool)
    ensures
        res == reaches(side, *candle, level@),
{
    match side {
        Side::Long => candle.high >= level,
        Side::Short => candle.low <= level,
    }
}

/// The price at which a trade has gained its risk.
pub open spec fn one_r_level(s: TradeSignal) -> Option<Number> {
    plus(Some(s.entry@), difference(s.entry@, s.sl@))
}

/// The price `offset` beyond the entry, in the direction of the trade.
pub open spec fn risk_multiple(s: TradeSignal, offset: Option<Number>) -> Option<Number> {
    match s.side {
        Side::Long => plus(Some(s.entry@), offset),
        Side::Short => minus(Some(s.entry@), offset),
    }
}

/// What happens once the price has moved by the risk: half is closed, the stop
/// goes to the entry, each if the rules ask for it, and only once.
#[verifier::opaque]
pub open spec fn after_one_r(rules: Rules, candle: Candle, t: TradeState) -> Option<
    (TradeState, Option<PartialState>),
> {
    if !(rules.breakeven_sl_1r || rules.partial_tp_1r) || t.half_closed {
        Some((t, None))
    } else {
        match one_r_level(t.signal) {
            None => None,
            Some(level) => if !reaches(t.signal.side, candle, level) {
                Some((t, None))
            } else {
                let taken = if rules.partial_tp_1r {
                    partial_taken(rules, t, level, 2)
                } else {
                    Some((t, None))
                };
                match taken {
                    None => None,
                    Some((u, p)) => Some(
                        (
                            TradeState {
                                current_sl: if rules.breakeven_sl_1r {
                                    t.signal.entry@
                                } else {
                                    u.current_sl
                                },
                                half_closed: true,
                                ..u
                            },
                            p,
                        ),
                    ),
                }
            },
        }
    }
}

/// `level` is a better stop than `current`.
pub open spec fn tighter(side: Side, level: Number, current: Number) -> bool {
    match side {
        Side::Long => less(current, level),
        Side::Short => less(level, current),
    }
}

/// The stop after the price has moved by twice the risk: at the 1R level where
/// the rules ask for that and it is tighter, otherwise where it was.
pub open spec fn trailed_stop(rules: Rules, t: TradeState, risk: Option<Number>) -> Option<Number> {
    if !rules.trailing_2r {
        Some(t.current_sl)
    } else {
        match risk_multiple(t.signal, risk) {
            None => None,
            Some(level) => Some(
                if tighter(t.signal.side, level, t.current_sl) {
                    level
                } else {
                    t.current_sl
                },
            ),
        }
    }
}

/// What happens once the price has moved by twice the risk: a quarter is
/// closed, the stop goes to the 1R level where that is tighter, each if the
/// rules ask for it, and only once.
#[verifier::opaque]
pub open spec fn after_two_r(rules: Rules, candle: Candle, t: TradeState) -> Option<
    (TradeState, Option<PartialState>),
> {
    if !(rules.trailing_2r || rules.partial_tp_2r) || t.two_r_hit {
        Some((t, None))
    } else {
        let risk = distance(t.signal.entry@, t.signal.sl@);
        match risk_multiple(t.signal, times(risk, Some(whole_number(2)))) {
            None => None,
            Some(level) => if !reaches(t.signal.side, candle, level) {
                Some((t, None))
            } else {
                let taken = if rules.partial_tp_2r {
                    partial_taken(rules, t, level, 4)
                } else {
                    Some((t, None))
                };
                match (taken, trailed_stop(rules, t, risk)) {
                    (Some((u, p)), Some(stop)) => Some(
                        (TradeState { current_sl: stop, two_r_hit: true, ..u }, p),
                    ),
                    _ => None,
                }
            },
        }
    }
}

/// 1:1 events: partial TP and/or breakeven SL (fires once per trade). The outer
/// `None` is an overflow.
#[verifier::spinoff_prover]
pub fn one_r_event(rules: &Rules, candle: &Candle, t: &mut SimTrade) -> (res: Option<
    Option<PartialClose>,
>)
    ensures
        match res {
            Some(p) => after_one_r(*rules, *candle, old(t)@) == Some((final(t)@, partial_view(p))),
            None => after_one_r(*rules, *candle, old(t)@) is None,
        },
{
    proof {
        reveal(after_one_r);
    }
    if !(rules.breakeven_sl_1r || rules.partial_tp_1r) || t.half_closed {
        return Some(None);
    }
    let risk = t.signal.entry.checked_sub(t.signal.sl)?;
    let level = t.signal.entry.checked_add(risk)?;
    if !reached(t.signal.side, candle, level) {
        return Some(None);
    }
    let mut partial: Option<PartialClose> = None;
    if rules.partial_tp_1r {
        partial = take_partial(rules, t, level, 2)?;
    }
    if rules.breakeven_sl_1r {
        t.current_sl = t.signal.entry;
    }
    t.half_closed = true;
    Some(partial)
}

/// The price `offset` beyond the entry; `None` where it overflows.
fn offset_level(s: &TradeSignal, offset: Decimal) -> (res: Option<Decimal>)
    ensures
        opt_view(res) == risk_multiple(*s, Some(offset@)),
{
    match s.side {
        Side::Long => s.entry.checked_add(offset),
        Side::Short => s.entry.checked_sub(offset),
    }
}

/// Where the stop goes at 2R; `None` where the 1R level overflows.
fn trail(rules: &Rules, t: &SimTrade, risk: Decimal) -> (res: Option<Decimal>)
    ensures
        opt_view(res) == trailed_stop(*rules, t@, Some(risk@)),
{
    if !rules.trailing_2r {
        return Some(t.current_sl);
    }
    let level = offset_level(&t.signal, risk)?;
    let improves = match t.signal.side {
        Side::Long => level > t.current_sl,
        Side::Short => level < t.current_sl,
    };
    if improves {
        Some(level)
    } else {
        Some(t.current_sl)
    }
}

/// 2R events: trailing SL to 1R and/or second partial TP (fires once per
/// trade). The outer `None` is an overflow.
#[verifier::spinoff_prover]
pub fn two_r_event(rules: &Rules, candle: &Candle, t: &mut SimTrade) -> (res: Option<
    Option<PartialClose>,
>)
    ensures
        match res {
            Some(p) => after_two_r(*rules, *candle, old(t)@) == Some((final(t)@, partial_view(p))),
            None => after_two_r(*rules, *candle, old(t)@) is None,
        },
{
    proof {
        reveal(after_two_r);
    }
    if !(rules.trailing_2r || rules.partial_tp_2r) || t.two_r_hit {
        return Some(None);
    }
    let risk = t.signal.entry.checked_sub(t.signal.sl)?.abs();
    let twice = risk.checked_mul(Decimal::from_unsigned(2))?;
    let level = offset_level(&t.signal, twice)?;
    if !reached(t.signal.side, candle, level) {
        return Some(None);
    }
    let mut partial: Option<PartialClose> = None;
    if rules.partial_tp_2r {
        partial = take_partial(rules, t, level, 4)?;
    }
    t.current_sl = trail(rules, t, risk)?;
    t.two_r_hit = true;
    Some(partial)
}

/// Nothing that identifies the deal has changed.
pub open spec fn same_deal(a: TradeState, b: TradeState) -> bool {
    &&& a.opened == b.opened
    &&& a.signal == b.signal
    &&& a.volume == b.volume
    &&& a.actual_entry == b.actual_entry
    &&& a.open_candle_idx == b.open_candle_idx
}

/// The 1R events change the stop, the remaining volume and the banked profit,
/// and nothing else of a trade.
pub proof fn law_one_r_keeps_the_deal(rules: Rules, candle: Candle, t: TradeState)
    ensures
        after_one_r(rules, candle, t) matches Some((u, p)) ==> same_deal(t, u) && u.two_r_hit
            == t.two_r_hit,
{
    reveal(after_one_r);
    reveal(partial_taken);
}

/// The 2R events change the stop, the remaining volume and the banked profit,
/// and nothing else of a trade.
pub proof fn law_two_r_keeps_the_deal(rules: Rules, candle: Candle, t: TradeState)
    ensures
        after_two_r(rules, candle, t) matches Some((u, p)) ==> same_deal(t, u) && u.half_closed
            == t.half_closed,
{
    reveal(after_two_r);
    reveal(partial_taken);
}

/// The 1R events fire once per trade: whatever they changed, no later candle
/// makes them fire again.
pub proof fn law_one_r_fires_once(rules: Rules, first: Candle, later: Candle, t: TradeState)
    ensures
        after_one_r(rules, first, t) matches Some((u, p)) ==> (u != t || p is Some) ==> after_one_r(
            rules,
            later,
            u,
        ) == Some((u, None::<PartialState>)),
{
    reveal(after_one_r);
}

/// The 2R events fire once per trade: whatever they changed, no later candle
/// makes them fire again.
pub proof fn law_two_r_fires_once(rules: Rules, first: Candle, later: Candle, t: TradeState)
    ensures
        after_two_r(rules, first, t) matches Some((u, p)) ==> (u != t || p is Some) ==> after_two_r(
            rules,
            later,
            u,
        ) == Some((u, None::<PartialState>)),
{
    reveal(after_two_r);
}

/// Trailing never loosens the stop: the 2R events leave it or tighten it.
pub proof fn law_trailing_never_loosens_the_stop(rules: Rules, candle: Candle, t: TradeState)
    ensures
        after_two_r(rules, candle, t) matches Some((u, p)) ==> u.current_sl == t.current_sl
            || tighter(t.signal.side, u.current_sl, t.current_sl),
{
    reveal(after_two_r);
    reveal(partial_taken);
}

/// The breakeven stop is the entry of the signal.
pub proof fn law_breakeven_stops_at_the_entry(rules: Rules, candle: Candle, t: TradeState)
    requires
        rules.breakeven_sl_1r,
        !t.half_closed,
    ensures
        after_one_r(rules, candle, t) matches Some((u, p)) ==> u.half_closed ==> u.current_sl
            == t.signal.entry@,
{
    reveal(after_one_r);
}

/// A partial close is of a tradable volume and, where nothing has to be
/// rounded, leaves a position open: what it takes and what it leaves add up to
/// what there was.
pub proof fn law_partial_close_leaves_a_position(
    rules: Rules,
    t: TradeState,
    level: Number,
    divisor: int,
)
    ensures
        partial_taken(rules, t, level, divisor) matches Some((u, Some(p))) ==> {
            &&& at_most(rules.risk.min_volume@, p.volume)
            &&& u.remaining_volume == p.remaining
            &&& sum(t.partial_pnl, p.pnl) == Some(u.partial_pnl)
            &&& (t.remaining_volume.valid() && p.volume.valid() && difference_is_exact(
                t.remaining_volume,
                p.volume,
            )) ==> p.volume.units() + p.remaining.units() == t.remaining_volume.units() && less(
                zero_number(),
                p.remaining,
            )
        },
{
    reveal(partial_taken);
    if let Some((u, Some(p))) = partial_taken(rules, t, level, divisor) {
        if t.remaining_volume.valid() && p.volume.valid() && difference_is_exact(
            t.remaining_volume,
            p.volume,
        ) {
            law_exact_difference(t.remaining_volume, p.volume);
            law_order_is_by_value(p.volume, t.remaining_volume);
            law_order_is_by_value(zero_number(), p.remaining);
            let q = ten_to(SCALE_MAX as nat) as int;
            assert(0 * q == 0) by (nonlinear_arith);
        }
    }
}

/// Without spread, slippage and commission, and with the profit in dollars,
/// closing a trade costs nothing. The trade entered at its signal's price and
/// leaves at a price that is not zero.
pub proof fn law_no_costs_no_friction(rules: Rules, t: TradeState, level: Number, is_sl: bool)
    requires
        rules.profit_is_usd,
        rules.spread_price@.is_zero(),
        rules.slippage_price@.is_zero(),
        rules.commission_per_lot@.is_zero(),
        t.actual_entry == t.signal.entry@,
        !level.is_zero(),
        frictionless_gain(rules, t, level) matches Some(g) && g.valid(),
    ensures
        exit_fill(t.signal.side, level, is_sl, rules.spread_price@, rules.slippage_price@) == Some(
            level,
        ),
        outcome(rules, t, level, is_sl) matches Some(o) ==> o.friction.is_zero(),
{
    reveal(outcome);
    let g = frictionless_gain(rules, t, level)->0;
    let zero = product(rules.commission_per_lot@, t.remaining_volume)->0;
    let net = net_gain(rules, t, level, t.remaining_volume);
    assert(net == difference(g, zero));
    assert(ten_to(0) == 1);
    assert(g.magnitude * 1 == g.magnitude) by (nonlinear_arith);
    assert(difference_is_exact(g, g));
    let x = g.signed_at(g.scale);
    assert(x - x == 0);
}

/// The profit of a price move in dollars.
pub open spec fn worth(move_: Number, volume: Number, contract_size: Number) -> Number {
    exact_product(exact_product(exact_product(move_, volume), contract_size), one_number())
}

/// The profit of a price move in dollars needs no rounding.
pub open spec fn worth_is_exact(move_: Number, volume: Number, contract_size: Number) -> bool {
    &&& product_is_exact(move_, volume)
    &&& product_is_exact(exact_product(move_, volume), contract_size)
}

/// The price move that a trade gains from `entry` to `exit`.
pub open spec fn gained(side: Side, entry: Number, exit: Number) -> Number {
    match side {
        Side::Long => exact_difference(exit, entry),
        Side::Short => exact_difference(entry, exit),
    }
}

/// The price move that a trade gains from `entry` to `exit` needs no rounding.
pub open spec fn gained_is_exact(side: Side, entry: Number, exit: Number) -> bool {
    match side {
        Side::Long => difference_is_exact(exit, entry),
        Side::Short => difference_is_exact(entry, exit),
    }
}

/// Closing a dollar trade at `level`, which fills at `exit`, needs no rounding.
pub open spec fn closes_exactly(rules: Rules, t: TradeState, level: Number, exit: Number) -> bool {
    let side = t.signal.side;
    let size = rules.contract_size@;
    let left = t.remaining_volume;
    let made = gained(side, t.actual_entry, exit);
    let ideal = gained(side, t.signal.entry@, level);
    let commission = exact_product(rules.commission_per_lot@, left);
    let net = exact_difference(worth(made, left, size), commission);
    &&& gained_is_exact(side, t.actual_entry, exit)
    &&& gained_is_exact(side, t.signal.entry@, level)
    &&& worth_is_exact(made, left, size)
    &&& worth_is_exact(ideal, left, size)
    &&& product_is_exact(rules.commission_per_lot@, left)
    &&& difference_is_exact(worth(made, left, size), commission)
    &&& difference_is_exact(worth(ideal, left, size), net)
    &&& sum_is_exact(t.partial_pnl, net)
}

/// Costs that are not negative never help: closing a dollar trade brings no
/// more than it would without them, where nothing has to be rounded.
pub proof fn law_costs_never_help(rules: Rules, t: TradeState, level: Number, is_sl: bool)
    requires
        rules.profit_is_usd,
        level.valid(),
        t.signal.entry@.valid(),
        t.remaining_volume.valid(),
        t.partial_pnl.valid(),
        rules.spread_price@.valid(),
        rules.slippage_price@.valid(),
        rules.commission_per_lot@.valid(),
        rules.contract_size@.valid(),
        at_most(zero_number(), t.remaining_volume),
        at_most(zero_number(), rules.spread_price@),
        at_most(zero_number(), rules.slippage_price@),
        at_most(zero_number(), rules.commission_per_lot@),
        at_most(zero_number(), rules.contract_size@),
        entry_fill(t.signal.side, t.signal.entry@, rules.spread_price@) == Some(t.actual_entry),
        fills_exactly(
            t.signal.side,
            t.signal.entry@,
            false,
            rules.spread_price@,
            rules.slippage_price@,
        ),
        fills_exactly(t.signal.side, level, is_sl, rules.spread_price@, rules.slippage_price@),
        exit_fill(
            t.signal.side,
            level,
            is_sl,
            rules.spread_price@,
            rules.slippage_price@,
        ) matches Some(exit) && closes_exactly(rules, t, level, exit),
    ensures
        outcome(rules, t, level, is_sl) matches Some(o) && at_most(zero_number(), o.friction),
{
    reveal(outcome);
    let (spread, slippage) = (rules.spread_price@, rules.slippage_price@);
    let side = t.signal.side;
    let entry = t.signal.entry@;
    let exit = exit_fill(side, level, is_sl, spread, slippage)->0;
    let size = rules.contract_size@;
    let left = t.remaining_volume;
    law_friction_never_improves_a_fill(side, entry, false, spread, slippage);
    law_friction_never_improves_a_fill(side, level, is_sl, spread, slippage);
    lemma_fills_are_valid(side, level, is_sl, spread, slippage);
    lemma_fills_are_valid(side, entry, false, spread, slippage);
    let made = gained(side, t.actual_entry, exit);
    let ideal = gained(side, entry, level);
    lemma_gained_order(side, t.actual_entry, exit, entry, level);
    lemma_worth_order(made, ideal, left, size);
    let commission = exact_product(rules.commission_per_lot@, left);
    lemma_commission_is_not_negative(rules.commission_per_lot@, left);
    let got = worth(made, left, size);
    let net = exact_difference(got, commission);
    law_exact_difference(got, commission);
    law_exact_difference(worth(ideal, left, size), net);
    law_exact_sum(t.partial_pnl, net);
    law_order_is_by_value(got, worth(ideal, left, size));
    law_order_is_by_value(zero_number(), commission);
    let friction = exact_difference(worth(ideal, left, size), net);
    law_order_is_by_value(zero_number(), friction);
    lemma_zero_has_no_units();
    assert(net_gain(rules, t, exit, left) == Some(net));
    assert(frictionless_gain(rules, t, level) == Some(worth(ideal, left, size)));
}

proof fn lemma_zero_has_no_units()
    ensures
        zero_number().valid(),
        zero_number().units() == 0,
{
    let q = ten_to(SCALE_MAX as nat) as int;
    assert(0 * q == 0) by (nonlinear_arith);
}

proof fn lemma_fills_are_valid(
    side: Side,
    level: Number,
    is_sl: bool,
    spread: Number,
    slippage: Number,
)
    requires
        level.valid(),
        spread.valid(),
        slippage.valid(),
        fills_exactly(side, level, is_sl, spread, slippage),
    ensures
        entry_fill(side, level, spread) matches Some(r) && r.valid(),
        exit_fill(side, level, is_sl, spread, slippage) matches Some(r) && r.valid(),
{
    law_exact_sum(level, spread);
    match (side, is_sl) {
        (Side::Long, true) => law_exact_difference(level, slippage),
        (Side::Short, true) => law_exact_sum(exact_sum(level, spread), slippage),
        _ => {},
    }
}

/// Entering and leaving at worse prices gains no more.
proof fn lemma_gained_order(side: Side, entry1: Number, exit1: Number, entry2: Number, exit2: Number)
    requires
        entry1.valid(),
        exit1.valid(),
        entry2.valid(),
        exit2.valid(),
        gained_is_exact(side, entry1, exit1),
        gained_is_exact(side, entry2, exit2),
        match side {
            Side::Long => at_most(entry2, entry1) && at_most(exit1, exit2),
            Side::Short => at_most(entry1, entry2) && at_most(exit2, exit1),
        },
    ensures
        gained(side, entry1, exit1).valid(),
        gained(side, entry2, exit2).valid(),
        at_most(gained(side, entry1, exit1), gained(side, entry2, exit2)),
{
    law_order_is_by_value(entry1, entry2);
    law_order_is_by_value(entry2, entry1);
    law_order_is_by_value(exit1, exit2);
    law_order_is_by_value(exit2, exit1);
    match side {
        Side::Long => {
            law_exact_difference(exit1, entry1);
            law_exact_difference(exit2, entry2);
        },
        Side::Short => {
            law_exact_difference(entry1, exit1);
            law_exact_difference(entry2, exit2);
        },
    }
    law_order_is_by_value(gained(side, entry1, exit1), gained(side, entry2, exit2));
}

/// A smaller price move is worth no more.
proof fn lemma_worth_order(a: Number, b: Number, volume: Number, size: Number)
    requires
        a.valid(),
        b.valid(),
        volume.valid(),
        size.valid(),
        at_most(zero_number(), volume),
        at_most(zero_number(), size),
        at_most(a, b),
        worth_is_exact(a, volume, size),
        worth_is_exact(b, volume, size),
    ensures
        times(times(times(Some(a), Some(volume)), Some(size)), Some(one_number())) == Some(
            worth(a, volume, size),
        ),
        times(times(times(Some(b), Some(volume)), Some(size)), Some(one_number())) == Some(
            worth(b, volume, size),
        ),
        worth(a, volume, size).valid(),
        worth(b, volume, size).valid(),
        at_most(worth(a, volume, size), worth(b, volume, size)),
{
    law_exact_product_keeps_order(a, b, volume);
    let (a1, b1) = (exact_product(a, volume), exact_product(b, volume));
    law_exact_product_keeps_order(a1, b1, size);
    let (a2, b2) = (exact_product(a1, size), exact_product(b1, size));
    let (x, y) = (a2.magnitude as int, b2.magnitude as int);
    assert(x * 1 == x && y * 1 == y) by (nonlinear_arith);
    lemma_zero_has_no_units();
    assert(ten_to(0) == 1);
    assert(at_most(zero_number(), one_number()));
    law_exact_product_keeps_order(a2, b2, one_number());
}

proof fn lemma_commission_is_not_negative(per_lot: Number, volume: Number)
    requires
        per_lot.valid(),
        volume.valid(),
        product_is_exact(per_lot, volume),
        at_most(zero_number(), per_lot),
        at_most(zero_number(), volume),
    ensures
        product(per_lot, volume) == Some(exact_product(per_lot, volume)),
        exact_product(per_lot, volume).valid(),
        at_most(zero_number(), exact_product(per_lot, volume)),
{
    law_exact_product_keeps_order(zero_number(), per_lot, volume);
}

/// Rules that agree on all costs but the commission.
pub open spec fn same_but_commission(a: Rules, b: Rules) -> bool {
    &&& a.spread_price@ == b.spread_price@
    &&& a.slippage_price@ == b.slippage_price@
    &&& a.contract_size@ == b.contract_size@
    &&& a.profit_is_usd == b.profit_is_usd
}

/// The commission is in the account's currency, whatever currency the profit is
/// in: it is taken off what the same close brings without a commission, as so
/// much per lot.
pub proof fn law_commission_is_in_the_accounts_currency(
    rules: Rules,
    free: Rules,
    t: TradeState,
    exit: Number,
    volume: Number,
)
    requires
        same_but_commission(rules, free),
        free.commission_per_lot@.is_zero(),
    ensures
        net_gain(rules, t, exit, volume) == minus(
            net_gain(free, t, exit, volume),
            product(rules.commission_per_lot@, volume),
        ),
{
}

/// A commission lowers the profit of a close, and raises its friction, by
/// exactly the commission per lot times the lots that leave, for profits in any
/// currency. Only what the commission is taken from and added to must need no
/// rounding; the conversion of the profit may.
pub proof fn law_commission_is_paid_per_lot(
    rules: Rules,
    free: Rules,
    t: TradeState,
    level: Number,
    is_sl: bool,
)
    requires
        same_but_commission(rules, free),
        free.commission_per_lot@.is_zero(),
        rules.commission_per_lot@.valid(),
        t.remaining_volume.valid(),
        t.partial_pnl.valid(),
        product_is_exact(rules.commission_per_lot@, t.remaining_volume),
        exit_fill(
            t.signal.side,
            level,
            is_sl,
            rules.spread_price@,
            rules.slippage_price@,
        ) matches Some(exit) && net_gain(free, t, exit, t.remaining_volume) matches Some(net)
            && frictionless_gain(free, t, level) matches Some(ideal) && {
            let less_it = exact_difference(
                net,
                exact_product(rules.commission_per_lot@, t.remaining_volume),
            );
            &&& net.valid()
            &&& ideal.valid()
            &&& difference_is_exact(
                net,
                exact_product(rules.commission_per_lot@, t.remaining_volume),
            )
            &&& sum_is_exact(t.partial_pnl, net)
            &&& sum_is_exact(t.partial_pnl, less_it)
            &&& difference_is_exact(ideal, net)
            &&& difference_is_exact(ideal, less_it)
        },
    ensures
        outcome(rules, t, level, is_sl) matches Some(o) && outcome(
            free,
            t,
            level,
            is_sl,
        ) matches Some(f) && {
            let paid = rules.commission_per_lot@.units() * t.remaining_volume.units();
            &&& o.exit == f.exit
            &&& (f.pnl.units() - o.pnl.units()) * unit() == paid
            &&& (o.friction.units() - f.friction.units()) * unit() == paid
        },
{
    reveal(outcome);
    let exit = exit_fill(
        t.signal.side,
        level,
        is_sl,
        rules.spread_price@,
        rules.slippage_price@,
    )->0;
    let left = t.remaining_volume;
    let net = net_gain(free, t, exit, left)->0;
    let ideal = frictionless_gain(free, t, level)->0;
    let paid = exact_product(rules.commission_per_lot@, left);
    let after = exact_difference(net, paid);
    law_commission_is_in_the_accounts_currency(rules, free, t, exit, left);
    law_exact_product(rules.commission_per_lot@, left);
    law_exact_difference(net, paid);
    law_exact_sum(t.partial_pnl, net);
    law_exact_sum(t.partial_pnl, after);
    law_exact_difference(ideal, net);
    law_exact_difference(ideal, after);
    assert(net_gain(rules, t, exit, left) == Some(after));
    assert(frictionless_gain(rules, t, level) == Some(ideal));
}

/// Where the profit is not in dollars, all of it is divided by the price at
/// which the trade leaves, and the profit without costs by the price of the
/// level; where it is in dollars, or the price is not positive, neither is.
pub proof fn law_profit_is_converted_where_it_is_made(
    rules: Rules,
    t: TradeState,
    exit: Number,
    volume: Number,
)
    requires
        rules.commission_per_lot@.is_zero(),
    ensures
        ({
            let gross = price_gain(
                t.signal.side,
                t.actual_entry,
                exit,
                volume,
                rules.contract_size@,
            );
            let ideal = price_gain(
                t.signal.side,
                t.signal.entry@,
                exit,
                t.remaining_volume,
                rules.contract_size@,
            );
            let rate = if rules.profit_is_usd || !less(zero_number(), exit) {
                Some(one_number())
            } else {
                quotient(one_number(), exit)
            };
            &&& frictionless_gain(rules, t, exit) == times(ideal, rate)
            &&& match times(gross, rate) {
                None => net_gain(rules, t, exit, volume) is None,
                Some(g) => net_gain(rules, t, exit, volume) matches Some(n) && same_value(n, g),
            }
        }),
{
    if let Some(n) = net_gain(rules, t, exit, volume) {
        let p = ten_to(n.scale) as int;
        assert(0 * p == 0) by (nonlinear_arith);
        let g = times(
            price_gain(t.signal.side, t.actual_entry, exit, volume, rules.contract_size@),
            conversion_rate(rules.profit_is_usd, exit),
        )->0;
        let r = ten_to(g.scale) as int;
        assert(0 * r == 0) by (nonlinear_arith);
    }
}

/// The value of a price move in dollars is the move times the volume times the
/// contract size.
proof fn lemma_worth_units(move_: Number, volume: Number, size: Number)
    requires
        move_.valid(),
        volume.valid(),
        size.valid(),
        worth_is_exact(move_, volume, size),
    ensures
        times(times(times(Some(move_), Some(volume)), Some(size)), Some(one_number())) == Some(
            worth(move_, volume, size),
        ),
        worth(move_, volume, size).valid(),
        worth(move_, volume, size).units() * unit() * unit() == move_.units() * volume.units()
            * size.units(),
{
    let lots = exact_product(move_, volume);
    let value = exact_product(lots, size);
    law_exact_product(move_, volume);
    law_exact_product(lots, size);
    let k = value.magnitude as int;
    assert(k * 1 == k) by (nonlinear_arith);
    law_exact_product(value, one_number());
    lemma_unit();
    let (m, v, s, l, g, u) = (
        move_.units(),
        volume.units(),
        size.units(),
        lots.units(),
        value.units(),
        unit(),
    );
    let w = worth(move_, volume, size).units();
    assert(w == g) by (nonlinear_arith)
        requires
            w * u == g * u,
            u > 0,
    ;
    assert(g * u * u == m * v * s) by (nonlinear_arith)
        requires
            g * u == l * s,
            l * u == m * v,
    {
        assert((l * s) * u == (l * u) * s);
    }
}

/// What a trade makes of a move from one price to another: a long its rise, a
/// short its fall.
pub open spec fn made_of(side: Side, from: int, to: int) -> int {
    match side {
        Side::Long => to - from,
        Side::Short => from - to,
    }
}

/// Closing a dollar trade brings what was banked, and the move from the price at
/// which it really entered to the price at which it really leaves, times the
/// volume that is left and the contract size, less the commission on that
/// volume. The friction is how much more the move from the signal's entry to the
/// level would have brought. Nothing has to be rounded.
pub proof fn law_a_close_brings_its_price_move(
    rules: Rules,
    t: TradeState,
    level: Number,
    is_sl: bool,
)
    requires
        rules.profit_is_usd,
        level.valid(),
        t.signal.entry@.valid(),
        t.actual_entry.valid(),
        t.remaining_volume.valid(),
        t.partial_pnl.valid(),
        rules.commission_per_lot@.valid(),
        rules.contract_size@.valid(),
        exit_fill(
            t.signal.side,
            level,
            is_sl,
            rules.spread_price@,
            rules.slippage_price@,
        ) matches Some(exit) && exit.valid() && closes_exactly(rules, t, level, exit),
    ensures
        outcome(rules, t, level, is_sl) matches Some(o) && {
            let side = t.signal.side;
            let size = t.remaining_volume.units() * rules.contract_size@.units();
            let made = made_of(side, t.actual_entry.units(), o.exit.units());
            let ideal = made_of(side, t.signal.entry@.units(), level.units());
            let commission = rules.commission_per_lot@.units() * t.remaining_volume.units() * unit();
            &&& exit_fill(side, level, is_sl, rules.spread_price@, rules.slippage_price@) == Some(
                o.exit,
            )
            &&& (o.pnl.units() - t.partial_pnl.units()) * unit() * unit() == made * size
                - commission
            &&& o.friction.units() * unit() * unit() == (ideal - made) * size + commission
        },
{
    reveal(outcome);
    let side = t.signal.side;
    let exit = exit_fill(side, level, is_sl, rules.spread_price@, rules.slippage_price@)->0;
    let size = rules.contract_size@;
    let left = t.remaining_volume;
    let made = gained(side, t.actual_entry, exit);
    let ideal = gained(side, t.signal.entry@, level);
    match side {
        Side::Long => {
            law_exact_difference(exit, t.actual_entry);
            law_exact_difference(level, t.signal.entry@);
        },
        Side::Short => {
            law_exact_difference(t.actual_entry, exit);
            law_exact_difference(t.signal.entry@, level);
        },
    }
    lemma_worth_units(made, left, size);
    lemma_worth_units(ideal, left, size);
    let commission = exact_product(rules.commission_per_lot@, left);
    law_exact_product(rules.commission_per_lot@, left);
    let got = worth(made, left, size);
    let best = worth(ideal, left, size);
    let net = exact_difference(got, commission);
    law_exact_difference(got, commission);
    law_exact_difference(best, net);
    law_exact_sum(t.partial_pnl, net);
    assert(net_gain(rules, t, exit, left) == Some(net));
    assert(frictionless_gain(rules, t, level) == Some(best));
    let (g, b, c, u) = (got.units(), best.units(), commission.units(), unit());
    let (m, i, v, s, k) = (
        made.units(),
        ideal.units(),
        left.units(),
        size.units(),
        rules.commission_per_lot@.units(),
    );
    assert((g - c) * u * u == m * (v * s) - k * v * u && (b - (g - c)) * u * u == (i - m) * (v * s)
        + k * v * u) by (nonlinear_arith)
        requires
            g * u * u == m * v * s,
            b * u * u == i * v * s,
            c * u == k * v,
    {
        assert((g - c) * u * u == g * u * u - (c * u) * u);
        assert((b - (g - c)) * u * u == b * u * u - g * u * u + (c * u) * u);
        assert(m * v * s == m * (v * s));
        assert(i * v * s == i * (v * s));
        assert((i - m) * (v * s) == i * (v * s) - m * (v * s));
    }
}

/// A share is the largest number of whole steps that `divisor` times over does
/// not exceed the volume, where nothing has to be rounded.
pub proof fn law_share_is_the_largest_in_whole_steps(volume: Number, divisor: int, step: Number)
    requires
        0 < divisor < 1000,
        volume.valid(),
        step.valid(),
        less(zero_number(), step),
        quotient_is_exact(volume, whole_number(divisor)),
        quotient_is_exact(exact_quotient(volume, whole_number(divisor)), step),
        product_is_exact(
            floor_of(exact_quotient(exact_quotient(volume, whole_number(divisor)), step)),
            step,
        ),
    ensures
        share(volume, divisor, step) matches Some(v) && v.valid() && divisor * v.units()
            <= volume.units() < divisor * (v.units() + step.units()) && exists|k: int|
            #[trigger] (k * step.units()) == v.units(),
{
    let d = whole_number(divisor);
    lemma_whole_units(divisor);
    lemma_unit();
    law_order_is_by_value(zero_number(), step);
    let part = exact_quotient(volume, d);
    law_exact_quotient(volume, d);
    let steps = exact_quotient(part, step);
    law_exact_quotient(part, step);
    let whole = floor_of(steps);
    law_floor_is_the_whole_number_below(steps);
    law_exact_product(whole, step);
    let v = exact_product(whole, step);
    let (u, n, vol, p, q, s, w, k, r) = (
        unit(),
        divisor,
        volume.units(),
        part.units(),
        steps.units(),
        step.units(),
        whole.units(),
        whole.signed(),
        v.units(),
    );
    assert(r == k * s) by (nonlinear_arith)
        requires
            r * u == w * s,
            w == k * u,
            u > 0,
    {
        assert((k * u) * s == (k * s) * u);
    }
    assert(p * n == vol) by (nonlinear_arith)
        requires
            p * (n * u) == vol * u,
            u > 0,
    {
        assert(p * (n * u) == (p * n) * u);
    }
    assert(r <= p < r + s) by (nonlinear_arith)
        requires
            q * s == p * u,
            w <= q < w + u,
            r * u == w * s,
            s > 0,
            u > 0,
    {
        assert(w * s <= q * s);
        assert(q * s < (w + u) * s);
        assert((w + u) * s == w * s + u * s);
        assert((r + s) * u == r * u + s * u);
    }
    assert(n * r <= vol < n * (r + s)) by (nonlinear_arith)
        requires
            p * n == vol,
            r <= p < r + s,
            n > 0,
    ;
}

/// A partial close is of the share of the whole volume that the trade began
/// with; it happens exactly where that share is at least the smallest tradable
/// volume and less than what is left. It leaves at the level as a target does,
/// and what it brings is the net profit of its own volume.
pub proof fn law_partial_close_is_of_the_share(
    rules: Rules,
    t: TradeState,
    level: Number,
    divisor: int,
)
    ensures
        partial_taken(rules, t, level, divisor) matches Some((u, p)) ==> share(
            t.volume,
            divisor,
            rules.risk.volume_step@,
        ) matches Some(v) && {
            &&& p is Some <==> !less(v, rules.risk.min_volume@) && less(v, t.remaining_volume)
            &&& p is None ==> u == t
            &&& p matches Some(x) ==> {
                &&& x.volume == v
                &&& exit_fill(
                    t.signal.side,
                    level,
                    false,
                    rules.spread_price@,
                    rules.slippage_price@,
                ) == Some(x.exit)
                &&& net_gain(rules, t, x.exit, v) == Some(x.pnl)
                &&& sum(t.partial_pnl, x.pnl) == Some(u.partial_pnl)
                &&& difference(t.remaining_volume, v) == Some(u.remaining_volume)
                &&& x.remaining == u.remaining_volume
                &&& x.opened == t.opened && x.side == t.signal.side && x.actual_entry
                    == t.actual_entry
                &&& u.current_sl == t.current_sl && u.half_closed == t.half_closed && u.two_r_hit
                    == t.two_r_hit && same_deal(t, u)
            }
        },
{
    reveal(partial_taken);
}

/// The move to the 1R level needs no rounding.
pub open spec fn one_r_is_exact(s: TradeSignal) -> bool {
    &&& s.entry@.valid()
    &&& s.sl@.valid()
    &&& difference_is_exact(s.entry@, s.sl@)
    &&& sum_is_exact(s.entry@, exact_difference(s.entry@, s.sl@))
}

/// The price has moved by `gain` in the direction of the trade at the best price
/// of the candle.
pub open spec fn has_gained(side: Side, candle: Candle, entry: int, gain: int) -> bool {
    match side {
        Side::Long => candle.high@.units() >= entry + gain,
        Side::Short => candle.low@.units() <= entry - gain,
    }
}

/// The 1R events fire once the candle reaches the price that lies as far beyond
/// the entry as the stop lies before it, where the rules ask for any of them and
/// they have not fired yet. Then the stop goes to the entry if the rules say so,
/// and otherwise stays; and half is closed at that price if the rules say so. On
/// any other candle nothing changes.
pub proof fn law_one_r_fires_at_the_mirrored_stop(rules: Rules, candle: Candle, t: TradeState)
    requires
        one_r_is_exact(t.signal),
        candle.high@.valid(),
        candle.low@.valid(),
    ensures
        ({
            let s = t.signal;
            let level = exact_sum(s.entry@, exact_difference(s.entry@, s.sl@));
            let mirrored = 2 * s.entry@.units() - s.sl@.units();
            let fires = (rules.breakeven_sl_1r || rules.partial_tp_1r) && !t.half_closed
                && match s.side {
                Side::Long => candle.high@.units() >= mirrored,
                Side::Short => candle.low@.units() <= mirrored,
            };
            &&& level.valid() && level.units() == mirrored
            &&& !fires ==> after_one_r(rules, candle, t) == Some((t, None::<PartialState>))
            &&& fires ==> (after_one_r(rules, candle, t) is None <==> rules.partial_tp_1r
                && partial_taken(rules, t, level, 2) is None)
            &&& fires ==> (after_one_r(rules, candle, t) matches Some((u, p)) ==> {
                &&& u.half_closed
                &&& u.current_sl == (if rules.breakeven_sl_1r {
                    s.entry@
                } else {
                    t.current_sl
                })
                &&& !rules.partial_tp_1r ==> p is None && u.remaining_volume == t.remaining_volume
                    && u.partial_pnl == t.partial_pnl
                &&& rules.partial_tp_1r ==> (partial_taken(rules, t, level, 2) matches Some((v, q))
                    && q == p && u.remaining_volume == v.remaining_volume && u.partial_pnl
                    == v.partial_pnl)
            })
        }),
{
    reveal(after_one_r);
    reveal(partial_taken);
    let s = t.signal;
    let level = exact_sum(s.entry@, exact_difference(s.entry@, s.sl@));
    law_exact_difference(s.entry@, s.sl@);
    law_exact_sum(s.entry@, exact_difference(s.entry@, s.sl@));
    law_order_is_by_value(level, candle.high@);
    law_order_is_by_value(candle.low@, level);
}

/// The distance from the entry to the stop.
pub open spec fn risk_of(s: TradeSignal) -> Number {
    exact_difference(s.entry@, s.sl@).absolute()
}

/// The price `offset` beyond the entry, where nothing has to be rounded.
pub open spec fn beyond(s: TradeSignal, offset: Number) -> Number {
    match s.side {
        Side::Long => exact_sum(s.entry@, offset),
        Side::Short => exact_difference(s.entry@, offset),
    }
}

/// The moves to the 1R and the 2R level need no rounding.
pub open spec fn two_r_is_exact(s: TradeSignal) -> bool {
    let risk = risk_of(s);
    let twice = exact_product(risk, whole_number(2));
    &&& s.entry@.valid()
    &&& s.sl@.valid()
    &&& difference_is_exact(s.entry@, s.sl@)
    &&& product_is_exact(risk, whole_number(2))
    &&& match s.side {
        Side::Long => sum_is_exact(s.entry@, risk) && sum_is_exact(s.entry@, twice),
        Side::Short => difference_is_exact(s.entry@, risk) && difference_is_exact(s.entry@, twice),
    }
}

/// The absolute value of an integer.
pub open spec fn magnitude_of(n: int) -> int {
    if n < 0 {
        -n
    } else {
        n
    }
}

/// The 2R events fire once the price has moved by twice the distance from the
/// entry to the stop, in the direction of the trade, where the rules ask for any
/// of them and they have not fired yet. Then, if the rules say so, the stop goes
/// to where the price has moved by that distance once, unless it is as good
/// already; and a quarter is closed if the rules say so. On any other candle
/// nothing changes.
pub proof fn law_two_r_fires_at_twice_the_risk(rules: Rules, candle: Candle, t: TradeState)
    requires
        two_r_is_exact(t.signal),
        candle.high@.valid(),
        candle.low@.valid(),
        t.current_sl.valid(),
    ensures
        ({
            let s = t.signal;
            let entry = s.entry@.units();
            let risk = magnitude_of(entry - s.sl@.units());
            let level = beyond(s, exact_product(risk_of(s), whole_number(2)));
            let fires = (rules.trailing_2r || rules.partial_tp_2r) && !t.two_r_hit && has_gained(
                s.side,
                candle,
                entry,
                2 * risk,
            );
            &&& level.valid() && made_of(s.side, entry, level.units()) == 2 * risk
            &&& !fires ==> after_two_r(rules, candle, t) == Some((t, None::<PartialState>))
            &&& fires ==> (after_two_r(rules, candle, t) is None <==> rules.partial_tp_2r
                && partial_taken(rules, t, level, 4) is None)
            &&& fires ==> (after_two_r(rules, candle, t) matches Some((u, p)) ==> {
                &&& u.two_r_hit
                &&& u.current_sl.valid()
                &&& !rules.trailing_2r ==> u.current_sl == t.current_sl
                &&& rules.trailing_2r ==> made_of(s.side, entry, u.current_sl.units()) == (if risk
                    > made_of(s.side, entry, t.current_sl.units()) {
                    risk
                } else {
                    made_of(s.side, entry, t.current_sl.units())
                })
                &&& !rules.partial_tp_2r ==> p is None && u.remaining_volume == t.remaining_volume
                    && u.partial_pnl == t.partial_pnl
                &&& rules.partial_tp_2r ==> (partial_taken(rules, t, level, 4) matches Some((v, q))
                    && q == p && u.remaining_volume == v.remaining_volume && u.partial_pnl
                    == v.partial_pnl)
            })
        }),
{
    reveal(after_two_r);
    reveal(partial_taken);
    let s = t.signal;
    let entry = s.entry@;
    let risk = risk_of(s);
    law_exact_difference(entry, s.sl@);
    law_absolute_value(exact_difference(entry, s.sl@));
    lemma_whole_units(2);
    lemma_unit();
    law_exact_product(risk, whole_number(2));
    let twice = exact_product(risk, whole_number(2));
    let (r, w, u) = (risk.units(), twice.units(), unit());
    assert(w == 2 * r) by (nonlinear_arith)
        requires
            w * u == r * (2 * u),
            u > 0,
    {
        assert(r * (2 * u) == (2 * r) * u);
    }
    match s.side {
        Side::Long => {
            law_exact_sum(entry, risk);
            law_exact_sum(entry, twice);
        },
        Side::Short => {
            law_exact_difference(entry, risk);
            law_exact_difference(entry, twice);
        },
    }
    let level = beyond(s, twice);
    let once = beyond(s, risk);
    law_order_is_by_value(level, candle.high@);
    law_order_is_by_value(candle.low@, level);
    law_order_is_by_value(once, t.current_sl);
    law_order_is_by_value(t.current_sl, once);
}

/// However numbers are rounded: a trade leaves at the price that its level fills
/// at; all that is left of it leaves there; what that brings is added to what was
/// banked; and the friction is what it falls short of the profit without costs.
pub proof fn law_a_close_adds_up(rules: Rules, t: TradeState, level: Number, is_sl: bool)
    ensures
        outcome(rules, t, level, is_sl) matches Some(o) ==> {
            &&& exit_fill(
                t.signal.side,
                level,
                is_sl,
                rules.spread_price@,
                rules.slippage_price@,
            ) == Some(o.exit)
            &&& net_gain(rules, t, o.exit, t.remaining_volume) matches Some(net)
            &&& sum(t.partial_pnl, net) == Some(o.pnl)
            &&& frictionless_gain(rules, t, level) matches Some(ideal)
            &&& difference(ideal, net) == Some(o.friction)
        },
        outcome(rules, t, level, is_sl) is None ==> (exit_fill(
            t.signal.side,
            level,
            is_sl,
            rules.spread_price@,
            rules.slippage_price@,
        ) matches Some(exit) ==> {
            let net = net_gain(rules, t, exit, t.remaining_volume);
            plus(Some(t.partial_pnl), net) is None || minus(
                frictionless_gain(rules, t, level),
                net,
            ) is None
        }),
{
    reveal(outcome);
}

} // verus!
