//! What a new candle does to an open trade.

use vstd::prelude::*;

use crate::decimal::{at_most, less, same_value, Decimal, Number};
use crate::domain::{Candle, Side};
use crate::ledger::{decided, law_closing_keeps_the_book_consistent, timed_out, Ledger, Tally};
use crate::rules::Rules;
use crate::trade::{after_one_r, after_two_r, outcome, partial_taken, partial_view, reaches};
use crate::trade::{law_one_r_keeps_the_deal, law_two_r_keeps_the_deal, same_deal};
use crate::trade::{close, one_r_event, reached, two_r_event};
use crate::trade::{PartialClose, PartialState, SimTrade, TradeState};

verus! {

/// Why a trade was closed.
#[derive(Clone, Copy, Debug, PartialEq, Eq, Structural)]
pub enum ExitReason {
    /// Before the weekend.
    FridayClose,
    /// Too old, or the data ended.
    Timeout,
    /// The candle reached the target.
    TakeProfit,
    /// The candle reached a stop that had been moved.
    MovedStop,
    /// The candle reached the stop of the signal.
    StopLoss,
}

/// A closed trade and what came of it.
pub struct ClosedState {
    pub reason: ExitReason,
    pub trade: TradeState,
    pub exit: Number,
    pub friction: Number,
    pub pnl: Number,
    /// The balance after the trade.
    pub balance: Number,
}

/// A closed trade and what came of it.
#[derive(Debug)]
pub struct ClosedTrade {
    pub reason: ExitReason,
    pub trade: SimTrade,
    pub exit: Decimal,
    pub friction: Decimal,
    pub pnl: Decimal,
    /// The balance after the trade.
    pub balance: Decimal,
}

impl View for ClosedTrade {
    type V = ClosedState;

    open spec fn view(&self) -> ClosedState {
        ClosedState {
            reason: self.reason,
            trade: self.trade@,
            exit: self.exit@,
            friction: self.friction@,
            pnl: self.pnl@,
            balance: self.balance@,
        }
    }
}

/// The view of a close that may not have happened.
pub open spec fn closed_view(c: Option<ClosedTrade>) -> Option<ClosedState> {
    match c {
        Some(x) => Some(x@),
        None => None,
    }
}

/// The view of a trade that may not be open.
pub open spec fn trade_view(t: Option<SimTrade>) -> Option<TradeState> {
    match t {
        Some(x) => Some(x@),
        None => None,
    }
}

/// What a candle made of an open trade: the trade if it is still open, the
/// account book, and what was closed on the way.
pub struct Managed {
    pub open: Option<TradeState>,
    pub book: Tally,
    pub one_r: Option<PartialState>,
    pub two_r: Option<PartialState>,
    pub closed: Option<ClosedState>,
}

/// The candle lies in the closing hours of a Friday.
pub open spec fn friday_due(rules: Rules, candle: Candle) -> bool {
    match rules.friday_close_hour {
        Some(hour) => candle.time@.weekday() == 5 && candle.time@.hour() >= hour,
        None => false,
    }
}

/// The trade is as many candles old as the rules let it be.
pub open spec fn age_due(rules: Rules, t: TradeState, idx: nat) -> bool {
    rules.timeout_candles > 0 && idx >= t.open_candle_idx + rules.timeout_candles
}

/// Closing a trade at the market price `level`.
#[verifier::opaque]
pub open spec fn closed_at_market(
    rules: Rules,
    t: TradeState,
    level: Number,
    reason: ExitReason,
    book: Tally,
) -> Option<Managed> {
    match outcome(rules, t, level, false) {
        None => None,
        Some(o) => match timed_out(book, o) {
            None => None,
            Some(after) => Some(
                Managed {
                    open: None,
                    book: after,
                    one_r: None,
                    two_r: None,
                    closed: Some(
                        ClosedState {
                            reason,
                            trade: t,
                            exit: o.exit,
                            friction: o.friction,
                            pnl: o.pnl,
                            balance: after.balance,
                        },
                    ),
                },
            ),
        },
    }
}

/// The candle reaches the current stop.
pub open spec fn stop_hit(candle: Candle, t: TradeState) -> bool {
    match t.signal.side {
        Side::Long => at_most(candle.low@, t.current_sl),
        Side::Short => at_most(t.current_sl, candle.high@),
    }
}

/// The candle reaches the target.
pub open spec fn target_hit(candle: Candle, t: TradeState) -> bool {
    reaches(t.signal.side, candle, t.signal.tp@)
}

/// The stop is not where the signal put it.
pub open spec fn stop_moved(t: TradeState) -> bool {
    !same_value(t.current_sl, t.signal.sl@)
}

/// How a trade that leaves at its stop or its target is labelled: by its
/// target wherever the candle reached that.
pub open spec fn exit_reason(candle: Candle, t: TradeState) -> ExitReason {
    if target_hit(candle, t) {
        ExitReason::TakeProfit
    } else if stop_moved(t) {
        ExitReason::MovedStop
    } else {
        ExitReason::StopLoss
    }
}

/// Closing a trade whose stop or target the candle reaches. Where it reaches
/// both, the trade leaves at its stop.
#[verifier::opaque]
pub open spec fn closed_at_level(
    rules: Rules,
    candle: Candle,
    t: TradeState,
    one_r: Option<PartialState>,
    two_r: Option<PartialState>,
    book: Tally,
) -> Option<Managed> {
    let is_sl = stop_hit(candle, t);
    let level = if is_sl {
        t.current_sl
    } else {
        t.signal.tp@
    };
    match outcome(rules, t, level, is_sl) {
        None => None,
        Some(o) => match decided(book, o, is_sl && stop_moved(t)) {
            None => None,
            Some(after) => Some(
                Managed {
                    open: None,
                    book: after,
                    one_r,
                    two_r,
                    closed: Some(
                        ClosedState {
                            reason: exit_reason(candle, t),
                            trade: t,
                            exit: o.exit,
                            friction: o.friction,
                            pnl: o.pnl,
                            balance: after.balance,
                        },
                    ),
                },
            ),
        },
    }
}

/// What the candle at position `idx` does to an open trade: it closes it for
/// the weekend or for its age; otherwise the 1R and 2R events come first, and
/// then the stop and the target as they stand after them.
pub open spec fn managed(rules: Rules, candle: Candle, idx: nat, t: TradeState, book: Tally) -> Option<
    Managed,
> {
    if friday_due(rules, candle) {
        closed_at_market(rules, t, candle.close@, ExitReason::FridayClose, book)
    } else if age_due(rules, t, idx) {
        closed_at_market(rules, t, candle.close@, ExitReason::Timeout, book)
    } else {
        match after_one_r(rules, candle, t) {
            None => None,
            Some((t1, one_r)) => match after_two_r(rules, candle, t1) {
                None => None,
                Some((t2, two_r)) => if stop_hit(candle, t2) || target_hit(candle, t2) {
                    closed_at_level(rules, candle, t2, one_r, two_r, book)
                } else {
                    Some(Managed { open: Some(t2), book, one_r, two_r, closed: None })
                },
            },
        }
    }
}

/// What a candle made of an open trade.
#[derive(Debug)]
pub struct Management {
    pub open: Option<SimTrade>,
    pub one_r: Option<PartialClose>,
    pub two_r: Option<PartialClose>,
    pub closed: Option<ClosedTrade>,
}

impl Management {
    /// Together with the account book, the outcome of managing a trade.
    pub open spec fn with_book(self, book: Tally) -> Managed {
        Managed {
            open: trade_view(self.open),
            book,
            one_r: partial_view(self.one_r),
            two_r: partial_view(self.two_r),
            closed: closed_view(self.closed),
        }
    }
}

/// Closes a trade at the market price `level`; `None` where it overflows.
pub fn close_at_market(
    rules: &Rules,
    trade: SimTrade,
    level: Decimal,
    reason: ExitReason,
    ledger: &mut Ledger,
) -> (res: Option<Management>)
    requires
        old(ledger)@.consistent(),
        old(ledger)@.trades < u32::MAX,
    ensures
        match res {
            Some(m) => closed_at_market(*rules, trade@, level@, reason, old(ledger)@) == Some(
                m.with_book(final(ledger)@),
            ) && final(ledger)@.consistent(),
            None => closed_at_market(*rules, trade@, level@, reason, old(ledger)@) is None,
        },
{
    proof {
        reveal(closed_at_market);
    }
    let c = close(rules, &trade, level, false)?;
    ledger.record_timeout(&c)?;
    Some(
        Management {
            open: None,
            one_r: None,
            two_r: None,
            closed: Some(
                ClosedTrade {
                    reason,
                    trade,
                    exit: c.exit,
                    friction: c.friction,
                    pnl: c.pnl,
                    balance: ledger.balance,
                },
            ),
        },
    )
}

/// Closes a trade whose stop or target the candle reaches; `None` where it
/// overflows.
fn close_at_level(
    rules: &Rules,
    candle: &Candle,
    trade: SimTrade,
    is_sl: bool,
    one_r: Option<PartialClose>,
    two_r: Option<PartialClose>,
    ledger: &mut Ledger,
) -> (res: Option<Management>)
    requires
        is_sl == stop_hit(*candle, trade@),
        old(ledger)@.consistent(),
        old(ledger)@.trades < u32::MAX,
    ensures
        ({
            let expected = closed_at_level(
                *rules,
                *candle,
                trade@,
                partial_view(one_r),
                partial_view(two_r),
                old(ledger)@,
            );
            match res {
                Some(m) => expected == Some(m.with_book(final(ledger)@))
                    && final(ledger)@.consistent(),
                None => expected is None,
            }
        }),
{
    proof {
        reveal(closed_at_level);
    }
    let moved = trade.current_sl != trade.signal.sl;
    let level = if is_sl {
        trade.current_sl
    } else {
        trade.signal.tp
    };
    let reason = if reached(trade.signal.side, candle, trade.signal.tp) {
        ExitReason::TakeProfit
    } else if moved {
        ExitReason::MovedStop
    } else {
        ExitReason::StopLoss
    };
    let c = close(rules, &trade, level, is_sl)?;
    ledger.record_exit(&c, is_sl && moved)?;
    Some(
        Management {
            open: None,
            one_r,
            two_r,
            closed: Some(
                ClosedTrade {
                    reason,
                    trade,
                    exit: c.exit,
                    friction: c.friction,
                    pnl: c.pnl,
                    balance: ledger.balance,
                },
            ),
        },
    )
}

/// Manages an open trade on the candle at position `idx`; `None` where
/// something overflows.
pub fn manage(
    rules: &Rules,
    candle: &Candle,
    idx: usize,
    trade: SimTrade,
    ledger: &mut Ledger,
) -> (res: Option<Management>)
    requires
        old(ledger)@.consistent(),
        old(ledger)@.trades < u32::MAX,
    ensures
        match res {
            Some(m) => managed(*rules, *candle, idx as nat, trade@, old(ledger)@) == Some(
                m.with_book(final(ledger)@),
            ) && final(ledger)@.consistent(),
            None => managed(*rules, *candle, idx as nat, trade@, old(ledger)@) is None,
        },
{
    // Friday session close: leave before the weekend gap.
    if let Some(close_hour) = rules.friday_close_hour {
        if candle.time.weekday() == 5 && candle.time.hour() >= close_hour {
            return close_at_market(rules, trade, candle.close, ExitReason::FridayClose, ledger);
        }
    }
    // A stale trade leaves at the market price.
    if rules.timeout_candles > 0 && idx >= trade.open_candle_idx && idx - trade.open_candle_idx
        >= rules.timeout_candles {
        return close_at_market(rules, trade, candle.close, ExitReason::Timeout, ledger);
    }
    let mut trade = trade;
    let one_r = one_r_event(rules, candle, &mut trade)?;
    let two_r = two_r_event(rules, candle, &mut trade)?;
    // The stop may have been moved by the events above.
    let is_sl = match trade.signal.side {
        Side::Long => candle.low <= trade.current_sl,
        Side::Short => candle.high >= trade.current_sl,
    };
    if is_sl || reached(trade.signal.side, candle, trade.signal.tp) {
        close_at_level(rules, candle, trade, is_sl, one_r, two_r, ledger)
    } else {
        Some(Management { open: Some(trade), one_r, two_r, closed: None })
    }
}

/// On a candle that reaches both the stop and the target the trade leaves at
/// its stop, with the stop's slippage.
pub proof fn law_stop_takes_priority(
    rules: Rules,
    candle: Candle,
    t: TradeState,
    one_r: Option<PartialState>,
    two_r: Option<PartialState>,
    book: Tally,
)
    requires
        stop_hit(candle, t),
        target_hit(candle, t),
    ensures
        closed_at_level(rules, candle, t, one_r, two_r, book) matches Some(m) ==> {
            &&& m.closed matches Some(c)
            &&& outcome(rules, t, t.current_sl, true) matches Some(o)
            &&& c.exit == o.exit && c.pnl == o.pnl && c.friction == o.friction
        },
{
    reveal(closed_at_level);
}

/// After a candle a trade is either still open or closed, as the same deal. A
/// close is the only thing that touches the account book, and counts once.
pub proof fn law_managed_once(rules: Rules, candle: Candle, idx: nat, t: TradeState, book: Tally)
    requires
        book.consistent(),
    ensures
        managed(rules, candle, idx, t, book) matches Some(m) ==> {
            &&& m.open is Some <==> m.closed is None
            &&& m.open matches Some(u) ==> same_deal(t, u) && m.book == book
            &&& m.closed matches Some(c) ==> same_deal(t, c.trade) && c.balance == m.book.balance
                && m.book.events() == book.events() + 1
            &&& m.book.consistent()
        },
{
    reveal(closed_at_level);
    reveal(closed_at_market);
    if friday_due(rules, candle) || age_due(rules, t, idx) {
        if let Some(o) = outcome(rules, t, candle.close@, false) {
            law_closing_keeps_the_book_consistent(book, o, false);
        }
    } else if let Some((t1, one_r)) = after_one_r(rules, candle, t) {
        law_one_r_keeps_the_deal(rules, candle, t);
        if let Some((t2, two_r)) = after_two_r(rules, candle, t1) {
            law_two_r_keeps_the_deal(rules, candle, t1);
            let is_sl = stop_hit(candle, t2);
            let level = if is_sl {
                t2.current_sl
            } else {
                t2.signal.tp@
            };
            if let Some(o) = outcome(rules, t2, level, is_sl) {
                law_closing_keeps_the_book_consistent(book, o, is_sl && stop_moved(t2));
            }
        }
    }
}

/// Rules that agree on costs and on how trades are managed, whatever they say
/// of entries.
pub open spec fn same_management(a: Rules, b: Rules) -> bool {
    &&& a.spread_price == b.spread_price
    &&& a.slippage_price == b.slippage_price
    &&& a.commission_per_lot == b.commission_per_lot
    &&& a.contract_size == b.contract_size
    &&& a.profit_is_usd == b.profit_is_usd
    &&& a.risk == b.risk
    &&& a.breakeven_sl_1r == b.breakeven_sl_1r
    &&& a.partial_tp_1r == b.partial_tp_1r
    &&& a.trailing_2r == b.trailing_2r
    &&& a.partial_tp_2r == b.partial_tp_2r
    &&& a.timeout_candles == b.timeout_candles
    &&& a.friday_close_hour == b.friday_close_hour
}

/// Open trades are managed on every candle: neither the dates, the killzone,
/// the weekdays nor any other filter on entries has a say in it.
pub proof fn law_entry_filters_do_not_touch_open_trades(
    a: Rules,
    b: Rules,
    candle: Candle,
    idx: nat,
    t: TradeState,
    book: Tally,
)
    requires
        same_management(a, b),
    ensures
        managed(a, candle, idx, t, book) == managed(b, candle, idx, t, book),
{
    lemma_same_market_close(a, b, t, candle.close@, ExitReason::FridayClose, book);
    lemma_same_market_close(a, b, t, candle.close@, ExitReason::Timeout, book);
    lemma_same_events(a, b, candle, t);
    if let Some((t1, one_r)) = after_one_r(a, candle, t) {
        lemma_same_events(a, b, candle, t1);
        if let Some((t2, two_r)) = after_two_r(a, candle, t1) {
            lemma_same_level_close(a, b, candle, t2, one_r, two_r, book);
        }
    }
}

proof fn lemma_same_market_close(
    a: Rules,
    b: Rules,
    t: TradeState,
    level: Number,
    reason: ExitReason,
    book: Tally,
)
    requires
        same_management(a, b),
    ensures
        closed_at_market(a, t, level, reason, book) == closed_at_market(b, t, level, reason, book),
{
    reveal(closed_at_market);
    reveal(outcome);
    assert(outcome(a, t, level, false) == outcome(b, t, level, false));
}

proof fn lemma_same_level_close(
    a: Rules,
    b: Rules,
    candle: Candle,
    t: TradeState,
    one_r: Option<PartialState>,
    two_r: Option<PartialState>,
    book: Tally,
)
    requires
        same_management(a, b),
    ensures
        closed_at_level(a, candle, t, one_r, two_r, book) == closed_at_level(
            b,
            candle,
            t,
            one_r,
            two_r,
            book,
        ),
{
    reveal(closed_at_level);
    reveal(outcome);
    let is_sl = stop_hit(candle, t);
    let level = if is_sl {
        t.current_sl
    } else {
        t.signal.tp@
    };
    assert(outcome(a, t, level, is_sl) == outcome(b, t, level, is_sl));
}

proof fn lemma_same_events(a: Rules, b: Rules, candle: Candle, t: TradeState)
    requires
        same_management(a, b),
    ensures
        after_one_r(a, candle, t) == after_one_r(b, candle, t),
        after_two_r(a, candle, t) == after_two_r(b, candle, t),
{
    reveal(after_one_r);
    reveal(after_two_r);
    reveal(partial_taken);
}

/// A trade is still open after a candle only where the candle did not reach its
/// stop, as that stands after the candle's own events, nor its target: the low
/// of the candle lies above the stop of a long and its high below the target,
/// and the other way round for a short. Nor was it a candle of the Friday closing
/// hours, nor was the trade due for its age.
pub proof fn law_an_open_trade_was_not_reached(
    rules: Rules,
    candle: Candle,
    idx: nat,
    t: TradeState,
    book: Tally,
)
    ensures
        managed(rules, candle, idx, t, book) matches Some(m) ==> (m.open matches Some(u) ==> {
            &&& match u.signal.side {
                Side::Long => less(u.current_sl, candle.low@) && less(
                    candle.high@,
                    u.signal.tp@,
                ),
                Side::Short => less(candle.high@, u.current_sl) && less(
                    u.signal.tp@,
                    candle.low@,
                ),
            }
            &&& rules.friday_close_hour matches Some(h) ==> !(candle.time@.weekday() == 5
                && candle.time@.hour() >= h)
            &&& rules.timeout_candles > 0 ==> idx < u.open_candle_idx + rules.timeout_candles
            &&& m.closed is None
        }),
{
    reveal(closed_at_level);
    reveal(closed_at_market);
    law_one_r_keeps_the_deal(rules, candle, t);
    if let Some((t1, one_r)) = after_one_r(rules, candle, t) {
        law_two_r_keeps_the_deal(rules, candle, t1);
    }
}

/// On a candle of the Friday closing hours, and on one on which the trade is old
/// enough, all of the trade leaves at the candle's close as at a market price:
/// no event fires any more, neither stop nor target is looked at, and the close
/// is booked as a timeout. Friday comes first.
pub proof fn law_due_trades_leave_at_the_close(
    rules: Rules,
    candle: Candle,
    idx: nat,
    t: TradeState,
    book: Tally,
)
    ensures
        ({
            let friday = rules.friday_close_hour matches Some(h) && candle.time@.weekday() == 5
                && candle.time@.hour() >= h;
            let aged = rules.timeout_candles > 0 && idx - t.open_candle_idx
                >= rules.timeout_candles;
            friday || aged ==> match outcome(rules, t, candle.close@, false) {
                None => managed(rules, candle, idx, t, book) is None,
                Some(o) => match timed_out(book, o) {
                    None => managed(rules, candle, idx, t, book) is None,
                    Some(after) => managed(rules, candle, idx, t, book) matches Some(m) && {
                        &&& m.open is None && m.one_r is None && m.two_r is None
                        &&& m.book == after
                        &&& m.closed matches Some(c)
                        &&& c.trade == t
                        &&& c.exit == o.exit && c.pnl == o.pnl && c.friction == o.friction
                        &&& c.balance == after.balance
                        &&& c.reason == if friday {
                            ExitReason::FridayClose
                        } else {
                            ExitReason::Timeout
                        }
                    },
                },
            }
        }),
{
    reveal(closed_at_market);
}

/// On any other candle the 1R events come first, then the 2R events on what they
/// left, and whatever becomes of the trade becomes of it as it stands after
/// both. What they closed is told whether the trade stays open or not.
pub proof fn law_events_come_before_the_levels(
    rules: Rules,
    candle: Candle,
    idx: nat,
    t: TradeState,
    book: Tally,
)
    requires
        rules.friday_close_hour matches Some(h) ==> !(candle.time@.weekday() == 5
            && candle.time@.hour() >= h),
        rules.timeout_candles > 0 ==> idx - t.open_candle_idx < rules.timeout_candles,
    ensures
        match after_one_r(rules, candle, t) {
            None => managed(rules, candle, idx, t, book) is None,
            Some((t1, one_r)) => match after_two_r(rules, candle, t1) {
                None => managed(rules, candle, idx, t, book) is None,
                Some((t2, two_r)) => managed(rules, candle, idx, t, book) matches Some(m) ==> {
                    &&& m.one_r == one_r && m.two_r == two_r
                    &&& m.open matches Some(u) ==> u == t2 && m.book == book
                    &&& m.closed matches Some(c) ==> c.trade == t2
                    &&& m.open is Some || m.closed is Some
                },
            },
        },
{
    reveal(closed_at_level);
}

/// The candle reaches the stop of the trade.
pub open spec fn meets_stop(candle: Candle, t: TradeState) -> bool {
    match t.signal.side {
        Side::Long => !less(t.current_sl, candle.low@),
        Side::Short => !less(candle.high@, t.current_sl),
    }
}

/// The candle reaches the target of the trade.
pub open spec fn meets_target(candle: Candle, t: TradeState) -> bool {
    match t.signal.side {
        Side::Long => !less(candle.high@, t.signal.tp@),
        Side::Short => !less(t.signal.tp@, candle.low@),
    }
}

/// On such a candle a trade is closed exactly where the candle reaches the stop
/// or the target as they stand after its events. It leaves at the stop, with
/// slippage, wherever that was reached, and otherwise at the target. It is
/// labelled by the target wherever that was reached, otherwise by whether the
/// stop had been moved from where the signal put it; only a stop that had been
/// moved, and was what the trade left at, counts as such in the book.
pub proof fn law_reached_trades_leave_at_their_level(
    rules: Rules,
    candle: Candle,
    idx: nat,
    t: TradeState,
    book: Tally,
)
    requires
        rules.friday_close_hour matches Some(h) ==> !(candle.time@.weekday() == 5
            && candle.time@.hour() >= h),
        rules.timeout_candles > 0 ==> idx - t.open_candle_idx < rules.timeout_candles,
    ensures
        after_one_r(rules, candle, t) matches Some((t1, one_r)) ==> after_two_r(
            rules,
            candle,
            t1,
        ) matches Some((u, two_r)) ==> {
            let stop = meets_stop(candle, u);
            let target = meets_target(candle, u);
            let moved = !same_value(u.current_sl, u.signal.sl@);
            let level = if stop {
                u.current_sl
            } else {
                u.signal.tp@
            };
            &&& !stop && !target ==> (managed(rules, candle, idx, t, book) matches Some(m)
                && m.open == Some(u) && m.closed is None && m.book == book)
            &&& stop || target ==> match outcome(rules, u, level, stop) {
                None => managed(rules, candle, idx, t, book) is None,
                Some(o) => match decided(book, o, stop && moved) {
                    None => managed(rules, candle, idx, t, book) is None,
                    Some(after) => managed(rules, candle, idx, t, book) matches Some(m) && {
                        &&& m.open is None
                        &&& m.book == after
                        &&& m.closed matches Some(c)
                        &&& c.trade == u
                        &&& c.exit == o.exit && c.pnl == o.pnl && c.friction == o.friction
                        &&& c.balance == after.balance
                        &&& c.reason == (if target {
                            ExitReason::TakeProfit
                        } else if moved {
                            ExitReason::MovedStop
                        } else {
                            ExitReason::StopLoss
                        })
                    },
                },
            }
        },
{
    reveal(closed_at_level);
}

} // verus!
