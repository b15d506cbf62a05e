//! What trading costs: the prices at which orders really fill, and the profit
//! or loss that comes of them.

use vstd::prelude::*;

use crate::decimal::{at_most, difference, exact_difference, exact_sum, sum, ten_to};
use crate::decimal::{difference_is_exact, product_is_exact, sum_is_exact};
use crate::decimal::{exact_product, law_exact_product, less, quotient, unit};
use crate::decimal::{law_exact_difference, law_exact_sum, law_order_is_by_value};
use crate::decimal::{one_number, opt_view, over, plus, same_value, times, zero_number};
use crate::decimal::{Decimal, Number, SCALE_MAX};
use crate::domain::Side;

verus! {

/// The price at which an entry fills: a long buys at the ask, which lies the
/// spread above the bid; a short sells at the bid.
pub open spec fn entry_fill(side: Side, entry: Number, spread: Number) -> Option<Number> {
    match side {
        Side::Long => sum(entry, spread),
        Side::Short => Some(entry),
    }
}

/// The price at which an exit fills. A long sells at the bid, a short buys at
/// the ask, and a stop slips further against the trade.
pub open spec fn exit_fill(
    side: Side,
    level: Number,
    is_sl: bool,
    spread: Number,
    slippage: Number,
) -> Option<Number> {
    match (side, is_sl) {
        (Side::Long, false) => Some(level),
        (Side::Long, true) => difference(level, slippage),
        (Side::Short, false) => sum(level, spread),
        (Side::Short, true) => plus(sum(level, spread), Some(slippage)),
    }
}

/// The profit of `volume` lots of `contract_size` between two prices, in the
/// currency that the instrument is quoted in.
pub open spec fn price_gain(
    side: Side,
    entry: Number,
    exit: Number,
    volume: Number,
    contract_size: Number,
) -> Option<Number> {
    let move_ = match side {
        Side::Long => difference(exit, entry),
        Side::Short => difference(entry, exit),
    };
    times(times(move_, Some(volume)), Some(contract_size))
}

/// What one unit of the quote currency is worth in the account's: one where
/// the profit is in dollars already or the price is not positive, otherwise the
/// inverse of the price.
pub open spec fn conversion_rate(profit_is_usd: bool, price: Number) -> Option<Number> {
    if profit_is_usd || at_most(price, zero_number()) {
        Some(one_number())
    } else {
        over(Some(one_number()), Some(price))
    }
}

/// The candle reaches the entry of a limit order: its low for a long, its high
/// for a short.
pub open spec fn fills(side: Side, entry: Number, low: Number, high: Number) -> bool {
    match side {
        Side::Long => at_most(low, entry),
        Side::Short => at_most(entry, high),
    }
}

/// Actual fill price on entry; `None` where the sum overflows.
///
/// Candles are bid-based.
/// Long: buy at ASK = bid + spread (the spread is paid upfront).
/// Short: sell at BID, no adjustment needed.
pub fn actual_entry_price(side: Side, signal_entry: Decimal, spread_price: Decimal) -> (res: Option<
    Decimal,
>)
    ensures
        opt_view(res) == entry_fill(side, signal_entry@, spread_price@),
{
    match side {
        Side::Long => signal_entry.checked_add(spread_price),
        Side::Short => Some(signal_entry),
    }
}

/// Actual fill price on exit (TP or SL); `None` where it overflows.
///
/// Long TP:  sell at BID = exact TP level.
/// Long SL:  market sell, BID has dropped past SL, fill = SL - slippage.
/// Short TP: buy to close at ASK = TP + spread.
/// Short SL: market buy, ASK = BID + spread, fill = SL + spread + slippage.
pub fn actual_exit_price(
    side: Side,
    exit_level: Decimal,
    is_sl: bool,
    spread_price: Decimal,
    slippage_price: Decimal,
) -> (res: Option<Decimal>)
    ensures
        opt_view(res) == exit_fill(side, exit_level@, is_sl, spread_price@, slippage_price@),
{
    match (side, is_sl) {
        (Side::Long, false) => Some(exit_level),
        (Side::Long, true) => exit_level.checked_sub(slippage_price),
        (Side::Short, false) => exit_level.checked_add(spread_price),
        (Side::Short, true) => {
            let ask = exit_level.checked_add(spread_price)?;
            ask.checked_add(slippage_price)
        },
    }
}

/// Profit of `volume` lots between two prices, in the quote currency; `None`
/// where it overflows.
pub fn gross_pnl(
    side: Side,
    entry: Decimal,
    exit: Decimal,
    volume: Decimal,
    contract_size: Decimal,
) -> (res: Option<Decimal>)
    ensures
        opt_view(res) == price_gain(side, entry@, exit@, volume@, contract_size@),
{
    let move_ = match side {
        Side::Long => exit.checked_sub(entry)?,
        Side::Short => entry.checked_sub(exit)?,
    };
    let value = move_.checked_mul(volume)?;
    value.checked_mul(contract_size)
}

/// The rate from the quote currency to the account's at `price`; `None` where
/// it overflows.
pub fn profit_rate(profit_is_usd: bool, price: Decimal) -> (res: Option<Decimal>)
    ensures
        opt_view(res) == conversion_rate(profit_is_usd, price@),
{
    if profit_is_usd || price <= Decimal::zero() {
        Some(Decimal::one())
    } else {
        Decimal::one().checked_div(price)
    }
}

/// Limit-order semantics: a long fills only when the bid drops to the entry, a
/// short only when it rises to it.
pub fn fill_ok(side: Side, entry: Decimal, candle_low: Decimal, candle_high: Decimal) -> (res: bool)
    ensures
        res == fills(side, entry@, candle_low@, candle_high@),
{
    match side {
        Side::Long => candle_low <= entry,
        Side::Short => candle_high >= entry,
    }
}

/// Adding a zero, or taking it away, leaves the value as it was.
proof fn lemma_zero_changes_nothing(a: Number, z: Number)
    requires
        a.valid(),
        z.valid(),
        z.is_zero(),
    ensures
        sum(a, z) matches Some(r) && r.valid() && same_value(r, a),
        difference(a, z) matches Some(r) && r.valid() && same_value(r, a),
{
    law_exact_sum(a, z);
    law_exact_difference(a, z);
    law_order_is_by_value(exact_sum(a, z), a);
    law_order_is_by_value(exact_difference(a, z), a);
    law_order_is_by_value(z, z);
    let p = ten_to((SCALE_MAX - z.scale) as nat) as int;
    assert(0 * p == 0) by (nonlinear_arith);
}

/// Without a spread and without slippage every order fills at its own price.
pub proof fn law_no_friction_fills_at_the_level(
    side: Side,
    level: Number,
    is_sl: bool,
    spread: Number,
    slippage: Number,
)
    requires
        level.valid(),
        spread.valid(),
        slippage.valid(),
        spread.is_zero(),
        slippage.is_zero(),
    ensures
        entry_fill(side, level, spread) matches Some(r) && same_value(r, level),
        exit_fill(side, level, is_sl, spread, slippage) matches Some(r) && same_value(r, level),
{
    lemma_zero_changes_nothing(level, spread);
    lemma_zero_changes_nothing(level, slippage);
    law_order_is_by_value(level, level);
    let ask = sum(level, spread)->0;
    lemma_zero_changes_nothing(ask, slippage);
    let fill = sum(ask, slippage)->0;
    law_order_is_by_value(ask, level);
    law_order_is_by_value(fill, ask);
    law_order_is_by_value(fill, level);
}

/// The fills of a trade at `level` need no rounding.
pub open spec fn fills_exactly(
    side: Side,
    level: Number,
    is_sl: bool,
    spread: Number,
    slippage: Number,
) -> bool {
    match (side, is_sl) {
        (Side::Long, false) => sum_is_exact(level, spread),
        (Side::Long, true) => sum_is_exact(level, spread) && difference_is_exact(level, slippage),
        (Side::Short, false) => sum_is_exact(level, spread),
        (Side::Short, true) => sum_is_exact(level, spread) && sum_is_exact(
            exact_sum(level, spread),
            slippage,
        ),
    }
}

/// A spread and a slippage that are not negative never improve a fill, where
/// nothing has to be rounded: a long enters no lower and leaves no higher, a
/// short enters no higher and leaves no lower, and a stop fills no better than
/// a target at the same price.
pub proof fn law_friction_never_improves_a_fill(
    side: Side,
    level: Number,
    is_sl: bool,
    spread: Number,
    slippage: Number,
)
    requires
        level.valid(),
        spread.valid(),
        slippage.valid(),
        at_most(zero_number(), spread),
        at_most(zero_number(), slippage),
        fills_exactly(side, level, is_sl, spread, slippage),
    ensures
        entry_fill(side, level, spread) matches Some(entry) && exit_fill(
            side,
            level,
            is_sl,
            spread,
            slippage,
        ) matches Some(exit) && exit_fill(side, level, false, spread, slippage) matches Some(target)
            && match side {
            Side::Long => at_most(level, entry) && at_most(exit, level) && at_most(exit, target),
            Side::Short => at_most(entry, level) && at_most(level, exit) && at_most(target, exit),
        },
{
    let zero = zero_number();
    let p = ten_to(SCALE_MAX as nat) as int;
    assert(0 * p == 0) by (nonlinear_arith);
    law_order_is_by_value(zero, spread);
    law_order_is_by_value(zero, slippage);
    law_order_is_by_value(level, level);
    law_exact_sum(level, spread);
    let ask = exact_sum(level, spread);
    law_order_is_by_value(level, ask);
    law_order_is_by_value(ask, ask);
    match (side, is_sl) {
        (Side::Long, true) => {
            law_exact_difference(level, slippage);
            law_order_is_by_value(exact_difference(level, slippage), level);
        },
        (Side::Short, true) => {
            law_exact_sum(ask, slippage);
            law_order_is_by_value(ask, exact_sum(ask, slippage));
            law_order_is_by_value(level, exact_sum(ask, slippage));
        },
        _ => {},
    }
}

/// Both ways to leave at `level` need no rounding, on either side.
pub open spec fn exits_exactly(level: Number, spread: Number, slippage: Number) -> bool {
    &&& difference_is_exact(level, slippage)
    &&& sum_is_exact(level, spread)
    &&& sum_is_exact(exact_sum(level, spread), slippage)
}

/// A stop fills exactly the slippage worse than a target at the same level,
/// where nothing has to be rounded.
pub proof fn law_stop_fills_the_slippage_worse(level: Number, spread: Number, slippage: Number)
    requires
        level.valid(),
        spread.valid(),
        slippage.valid(),
        exits_exactly(level, spread, slippage),
    ensures
        exit_fill(Side::Long, level, false, spread, slippage) matches Some(target) && exit_fill(
            Side::Long,
            level,
            true,
            spread,
            slippage,
        ) matches Some(stop) && target.units() - stop.units() == slippage.units(),
        exit_fill(Side::Short, level, false, spread, slippage) matches Some(target) && exit_fill(
            Side::Short,
            level,
            true,
            spread,
            slippage,
        ) matches Some(stop) && stop.units() - target.units() == slippage.units(),
{
    law_exact_difference(level, slippage);
    law_exact_sum(level, spread);
    law_exact_sum(exact_sum(level, spread), slippage);
}

/// A long leaves at a price that does not depend on the spread, and at a target
/// exactly at its level; on neither side does a target depend on the slippage.
pub proof fn law_exits_depend_on_their_own_costs(
    side: Side,
    level: Number,
    is_sl: bool,
    spread: Number,
    other_spread: Number,
    slippage: Number,
    other_slippage: Number,
)
    ensures
        exit_fill(Side::Long, level, is_sl, spread, slippage) == exit_fill(
            Side::Long,
            level,
            is_sl,
            other_spread,
            slippage,
        ),
        exit_fill(Side::Long, level, false, spread, slippage) == Some(level),
        exit_fill(side, level, false, spread, slippage) == exit_fill(
            side,
            level,
            false,
            spread,
            other_slippage,
        ),
{
}

/// The spread is paid exactly once per round trip, on either side, and the
/// slippage once more by a stop: that is what entering and leaving at one level
/// loses, where nothing has to be rounded.
pub proof fn law_spread_is_paid_once(level: Number, is_sl: bool, spread: Number, slippage: Number)
    requires
        level.valid(),
        spread.valid(),
        slippage.valid(),
        exits_exactly(level, spread, slippage),
    ensures
        ({
            let cost = spread.units() + (if is_sl {
                slippage.units()
            } else {
                0
            });
            &&& entry_fill(Side::Long, level, spread) matches Some(bought)
            &&& exit_fill(Side::Long, level, is_sl, spread, slippage) matches Some(sold)
            &&& sold.units() - bought.units() == -cost
        }),
        ({
            let cost = spread.units() + (if is_sl {
                slippage.units()
            } else {
                0
            });
            &&& entry_fill(Side::Short, level, spread) matches Some(sold)
            &&& exit_fill(Side::Short, level, is_sl, spread, slippage) matches Some(bought)
            &&& sold.units() - bought.units() == -cost
        }),
{
    law_exact_difference(level, slippage);
    law_exact_sum(level, spread);
    law_exact_sum(exact_sum(level, spread), slippage);
}

/// A long enters at the ask, the spread above its price; a short enters at its
/// own price, whatever the spread.
pub proof fn law_only_longs_pay_the_spread_to_enter(entry: Number, spread: Number)
    ensures
        entry_fill(Side::Short, entry, spread) == Some(entry),
        entry_fill(Side::Long, entry, spread) == sum(entry, spread),
        entry.valid() && spread.valid() && sum_is_exact(entry, spread) ==> (entry_fill(
            Side::Long,
            entry,
            spread,
        ) matches Some(r) && r.units() == entry.units() + spread.units()),
{
    if entry.valid() && spread.valid() && sum_is_exact(entry, spread) {
        law_exact_sum(entry, spread);
    }
}

/// A limit order fills exactly where the candle touches its price from the side
/// that the order waits on: a long from above, a short from below.
pub proof fn law_limit_orders_fill_where_touched(entry: Number, low: Number, high: Number)
    requires
        entry.valid(),
        low.valid(),
        high.valid(),
    ensures
        fills(Side::Long, entry, low, high) <==> low.units() <= entry.units(),
        fills(Side::Short, entry, low, high) <==> high.units() >= entry.units(),
{
    law_order_is_by_value(low, entry);
    law_order_is_by_value(entry, high);
}

/// What a long gains on a way, a short gains on the way back.
pub proof fn law_sides_mirror_each_other(
    from: Number,
    to: Number,
    volume: Number,
    contract_size: Number,
)
    ensures
        price_gain(Side::Long, from, to, volume, contract_size) == price_gain(
            Side::Short,
            to,
            from,
            volume,
            contract_size,
        ),
{
}

/// The gain of a long is the rise of the price, times the volume, times the
/// contract size, where nothing has to be rounded.
pub proof fn law_gain_is_the_price_move(
    entry: Number,
    exit: Number,
    volume: Number,
    contract_size: Number,
)
    requires
        entry.valid(),
        exit.valid(),
        volume.valid(),
        contract_size.valid(),
        difference_is_exact(exit, entry),
        product_is_exact(exact_difference(exit, entry), volume),
        product_is_exact(exact_product(exact_difference(exit, entry), volume), contract_size),
    ensures
        price_gain(Side::Long, entry, exit, volume, contract_size) matches Some(g) && g.valid()
            && g.units() * unit() * unit() == (exit.units() - entry.units()) * volume.units()
            * contract_size.units(),
{
    let move_ = exact_difference(exit, entry);
    let lots = exact_product(move_, volume);
    law_exact_difference(exit, entry);
    law_exact_product(move_, volume);
    law_exact_product(lots, contract_size);
    let (m, v, s, l, u) = (
        move_.units(),
        volume.units(),
        contract_size.units(),
        lots.units(),
        unit(),
    );
    let g = exact_product(lots, contract_size).units();
    assert(g * u * u == m * v * s) by (nonlinear_arith)
        requires
            g * u == l * s,
            l * u == m * v,
    {
        assert((l * s) * u == (l * u) * s);
    }
}

/// A profit in dollars is not converted, nor is one at a price that is not
/// positive; any other is divided by the price.
pub proof fn law_profit_is_divided_by_the_price(profit_is_usd: bool, price: Number)
    ensures
        profit_is_usd || !less(zero_number(), price) ==> (conversion_rate(
            profit_is_usd,
            price,
        ) matches Some(r) && same_value(r, one_number())),
        !profit_is_usd && less(zero_number(), price) ==> conversion_rate(profit_is_usd, price)
            == quotient(one_number(), price),
{
}

} // verus!
