//! The walk forward over the candles: one open trade at a time, each candle
//! looked at once.
//!
//! What the simulation cannot compute itself, the signal of a window of candles
//! and the size of a position, it asks for: `step` says when a signal is wanted,
//! `screen` takes it and says what position sizing is to be told, and `place`
//! takes the answer.

use vstd::prelude::*;
use vstd::slice::slice_subrange;
use vstd::string::*;

use crate::decimal::{Decimal, Number};
use crate::domain::{Candle, RiskConfig, RiskDecision, RiskTerms, TradeSignal};
use crate::entry::{entry_gate, gate, place_order, placed, reward_ok, screened, sizing_terms};
use crate::entry::{EntryGate, Gate, Order, Placed};
use crate::failure::{fault, Failure};
use crate::ledger::{law_closing_keeps_the_book_consistent, opening, timed_out, Ledger, Tally};
use crate::manage::{close_at_market, manage};
use crate::manage::{closed_at_market, closed_view, law_managed_once, managed, trade_view};
use crate::manage::{ClosedState, ClosedTrade, ExitReason};
use crate::rules::Rules;
use crate::text::{nat_text, number_text};
use crate::trade::{outcome, partial_view, PartialClose, PartialState, SimTrade, TradeState};
use crate::trend::{trend_ok, Trend};

verus! {

/// What is wanted for the candle before the next.
#[derive(Clone, Copy, Debug)]
pub enum Phase {
    /// Nothing.
    Idle,
    /// A signal.
    Signal,
    /// The size of a position on this signal.
    Size(TradeSignal),
}

/// How far a backtest has come.
pub struct Progress {
    pub book: Tally,
    pub open: Option<TradeState>,
    /// The position of the candle that comes next.
    pub next: nat,
    pub phase: Phase,
}

/// What a candle brought.
pub enum Stage {
    /// There was no candle left.
    Done,
    /// No trade was open, and the filters keep entries out.
    Skipped,
    /// An open trade was managed.
    Managed {
        one_r: Option<PartialState>,
        two_r: Option<PartialState>,
        closed: Option<ClosedState>,
    },
    /// A signal is wanted from the candles at `from` up to but not including
    /// `to`, with stops no closer than `min_sl`.
    Analyze { from: int, to: int, min_sl: Number },
}

/// The progress and the stage after the next candle. A candle on which a trade
/// is open is for managing that trade; only on others are entries looked for.
#[verifier::opaque]
pub open spec fn advanced(rules: Rules, candles: Seq<Candle>, window: nat, s: Progress) -> Option<
    (Progress, Stage),
> {
    let idx = s.next as int;
    let after = Progress { next: s.next + 1, phase: Phase::Idle, ..s };
    if idx >= candles.len() {
        Some((Progress { phase: Phase::Idle, ..s }, Stage::Done))
    } else {
        match s.open {
            Some(t) => match managed(rules, candles[idx], s.next, t, s.book) {
                None => None,
                Some(m) => Some(
                    (
                        Progress { book: m.book, open: m.open, ..after },
                        Stage::Managed { one_r: m.one_r, two_r: m.two_r, closed: m.closed },
                    ),
                ),
            },
            None => match gate(rules, candles[idx], candles.subrange(idx - window, idx)) {
                None => None,
                Some(Gate::Shut) => Some((after, Stage::Skipped)),
                Some(Gate::OutsideKillzone) => Some(
                    (
                        Progress {
                            book: Tally { skipped_kz: s.book.skipped_kz + 1, ..s.book },
                            ..after
                        },
                        Stage::Skipped,
                    ),
                ),
                Some(Gate::Open { min_sl }) => Some(
                    (
                        Progress { phase: Phase::Signal, ..after },
                        Stage::Analyze { from: idx - window, to: idx, min_sl },
                    ),
                ),
            },
        }
    }
}

/// The progress after a signal has gone through the filters: the size of a
/// position is wanted where it came through.
pub open spec fn sifted(s: Progress, signal: TradeSignal, verdict: Option<RiskTerms>) -> Progress {
    match verdict {
        Some(_) => Progress { phase: Phase::Size(signal), ..s },
        None => Progress { phase: Phase::Idle, ..s },
    }
}

/// The progress after an order on the candle before the next.
pub open spec fn ordered(s: Progress, order: Placed) -> Progress {
    match order {
        Placed::Rejected => Progress { phase: Phase::Idle, ..s },
        Placed::Missed => Progress {
            book: Tally { missed_fills: s.book.missed_fills + 1, ..s.book },
            phase: Phase::Idle,
            ..s
        },
        Placed::Opened(t) => Progress { open: Some(t), phase: Phase::Idle, ..s },
    }
}

/// The progress after the end of the data: a trade that is still open leaves at
/// the last close.
pub open spec fn ended(rules: Rules, candles: Seq<Candle>, s: Progress) -> Option<
    (Progress, Option<ClosedState>),
> {
    match s.open {
        None => Some((s, None)),
        Some(t) => match closed_at_market(
            rules,
            t,
            candles.last().close@,
            ExitReason::Timeout,
            s.book,
        ) {
            None => None,
            Some(m) => Some((Progress { book: m.book, open: None, ..s }, m.closed)),
        },
    }
}

/// One backtest.
#[derive(Debug)]
pub struct Simulation {
    pub rules: Rules,
    pub candles: Vec<Candle>,
    /// How many candles a signal is looked for in.
    pub window_size: usize,
    /// The candles and averages of the primary trend filter; no candles where
    /// that follows the traded candles themselves.
    pub trend: Trend,
    /// The candles and averages of the confirmation.
    pub confirm: Trend,
    pub ledger: Ledger,
    pub open_trade: Option<SimTrade>,
    /// The position of the candle that comes next.
    pub next: usize,
    pub phase: Phase,
}

impl View for Simulation {
    type V = Progress;

    open spec fn view(&self) -> Progress {
        Progress {
            book: self.ledger@,
            open: trade_view(self.open_trade),
            next: self.next as nat,
            phase: self.phase,
        }
    }
}

/// What a candle brought.
#[derive(Debug)]
pub enum Step {
    /// There was no candle left.
    Done,
    /// No trade was open, and the filters keep entries out.
    Skipped,
    /// An open trade was managed.
    Managed {
        one_r: Option<PartialClose>,
        two_r: Option<PartialClose>,
        closed: Option<ClosedTrade>,
    },
    /// A signal is wanted from the candles at `from` up to but not including
    /// `to`, with stops no closer than `min_sl`.
    Analyze { from: usize, to: usize, min_sl: Decimal },
}

impl View for Step {
    type V = Stage;

    open spec fn view(&self) -> Stage {
        match *self {
            Step::Done => Stage::Done,
            Step::Skipped => Stage::Skipped,
            Step::Managed { one_r, two_r, closed } => Stage::Managed {
                one_r: partial_view(one_r),
                two_r: partial_view(two_r),
                closed: closed_view(closed),
            },
            Step::Analyze { from, to, min_sl } => Stage::Analyze {
                from: from as int,
                to: to as int,
                min_sl: min_sl@,
            },
        }
    }
}

/// What became of an order.
#[derive(Clone, Copy, Debug, PartialEq, Eq, Structural)]
pub enum Fate {
    /// Position sizing turned the signal down.
    Rejected,
    /// The candle did not reach the entry.
    Missed,
    /// The order became a trade.
    Opened,
}

/// The fate of an order.
pub open spec fn fate(order: Placed) -> Fate {
    match order {
        Placed::Rejected => Fate::Rejected,
        Placed::Missed => Fate::Missed,
        Placed::Opened(_) => Fate::Opened,
    }
}

/// The two simulations are over the same rules and data.
pub open spec fn same_setup(a: Simulation, b: Simulation) -> bool {
    &&& a.rules == b.rules
    &&& a.candles == b.candles
    &&& a.window_size == b.window_size
    &&& a.trend == b.trend
    &&& a.confirm == b.confirm
}

/// Whether there are more candles than a window of them.
pub fn enough_candles(total: usize, window_size: usize) -> (res: Result<(), Failure>)
    ensures
        match res {
            Ok(_) => total > window_size,
            Err(e) => total <= window_size && e@ == fault(
                "not enough candles: got "@ + nat_text(total as nat) + ", need more than "@
                    + nat_text(window_size as nat),
            ),
        },
{
    if total > window_size {
        return Ok(());
    }
    let mut message = "not enough candles: got ".to_owned();
    message.append(number_text(total as u64).as_str());
    message.append(", need more than ");
    message.append(number_text(window_size as u64).as_str());
    Err(Failure { message, cause: None })
}

/// One for what is there, zero for what is not.
pub open spec fn one_if(b: bool) -> nat {
    if b {
        1
    } else {
        0
    }
}

impl Simulation {
    /// What the filters make of a signal for the candle before the next.
    pub open spec fn verdict(self, signal: TradeSignal) -> Option<Option<RiskTerms>> {
        screened(
            self.rules,
            self.trend,
            self.confirm,
            self.candles@[self.next - 1],
            self.next - 1,
            signal,
        )
    }

    /// What holds at every point of a backtest: the account book is consistent;
    /// no candle behind has brought more than one entry in it, an open trade
    /// and a wanted signal or size counted as one to come; and a size is only
    /// wanted for a signal that has come through the filters.
    pub open spec fn wf(self) -> bool {
        &&& self.window_size < self.candles@.len() <= u32::MAX
        &&& self.window_size <= self.next <= self.candles@.len()
        &&& self@.book.consistent()
        &&& self@.book.events() + one_if(self.open_trade is Some) + one_if(!(self.phase is Idle))
            <= self.next - self.window_size
        &&& self.phase is Idle || self.open_trade is None
        &&& self.phase matches Phase::Size(signal) ==> self.verdict(signal) matches Some(Some(_))
    }

    /// The first candle is the one after the first `window_size`.
    pub fn new(
        rules: Rules,
        candles: Vec<Candle>,
        window_size: usize,
        trend: Trend,
        confirm: Trend,
        balance: Decimal,
    ) -> (res: Result<Simulation, Failure>)
        requires
            candles@.len() <= u32::MAX,
        ensures
            match res {
                Ok(sim) => {
                    &&& candles@.len() > window_size
                    &&& sim.wf()
                    &&& sim.rules == rules
                    &&& sim.candles == candles
                    &&& sim.window_size == window_size
                    &&& sim.trend == trend
                    &&& sim.confirm == confirm
                    &&& sim@ == (Progress {
                        book: opening(balance@),
                        open: None,
                        next: window_size as nat,
                        phase: Phase::Idle,
                    })
                },
                Err(e) => {
                    &&& candles@.len() <= window_size
                    &&& e@ == fault(
                        "not enough candles: got "@ + nat_text(candles@.len())
                            + ", need more than "@ + nat_text(window_size as nat),
                    )
                },
            },
    {
        enough_candles(candles.len(), window_size)?;
        Ok(
            Simulation {
                rules,
                candles,
                window_size,
                trend,
                confirm,
                ledger: Ledger::new(balance),
                open_trade: None,
                next: window_size,
                phase: Phase::Idle,
            },
        )
    }

    /// Takes the next candle; `None` where something overflows, and then the
    /// simulation is of no more use.
    pub fn step(&mut self) -> (res: Option<Step>)
        requires
            old(self).wf(),
        ensures
            same_setup(*final(self), *old(self)),
            ({
                let expected = advanced(
                    old(self).rules,
                    old(self).candles@,
                    old(self).window_size as nat,
                    old(self)@,
                );
                match res {
                    Some(step) => expected == Some((final(self)@, step@)) && final(self).wf(),
                    None => expected is None,
                }
            }),
    {
        proof {
            reveal(advanced);
        }
        self.phase = Phase::Idle;
        let idx: usize = self.next;
        if idx >= self.candles.len() {
            return Some(Step::Done);
        }
        let candle = self.candles[idx];
        self.next = idx + 1;
        let ghost book = self.ledger@;
        match self.open_trade.take() {
            Some(trade) => {
                proof {
                    law_managed_once(self.rules, candle, idx as nat, trade@, book);
                }
                let m = manage(&self.rules, &candle, idx, trade, &mut self.ledger)?;
                self.open_trade = m.open;
                Some(Step::Managed { one_r: m.one_r, two_r: m.two_r, closed: m.closed })
            },
            None => {
                let from: usize = idx - self.window_size;
                let window = slice_subrange(self.candles.as_slice(), from, idx);
                match entry_gate(&self.rules, &candle, window)? {
                    EntryGate::Shut => Some(Step::Skipped),
                    EntryGate::OutsideKillzone => {
                        self.ledger.skipped_kz += 1;
                        Some(Step::Skipped)
                    },
                    EntryGate::Open { min_sl } => {
                        self.phase = Phase::Signal;
                        Some(Step::Analyze { from, to: idx, min_sl })
                    },
                }
            },
        }
    }

    /// Passes a signal for the candle just taken through the filters, and says
    /// what position sizing is told of one that comes through. The outer `None`
    /// is an overflow.
    pub fn screen(&mut self, signal: &TradeSignal) -> (res: Option<Option<RiskConfig>>)
        requires
            old(self).wf(),
            old(self).phase is Signal,
        ensures
            same_setup(*final(self), *old(self)),
            match res {
                Some(Some(c)) => {
                    &&& old(self).verdict(*signal) == Some(Some(c@))
                    &&& final(self)@ == sifted(old(self)@, *signal, Some(c@))
                    &&& final(self).wf()
                },
                Some(None) => {
                    &&& old(self).verdict(*signal) == Some(None::<RiskTerms>)
                    &&& final(self)@ == sifted(old(self)@, *signal, None)
                    &&& final(self).wf()
                },
                None => old(self).verdict(*signal) is None && *final(self) == *old(self),
            },
    {
        let idx: usize = self.next - 1;
        let verdict = crate::entry::screen(
            &self.rules,
            &self.trend,
            &self.confirm,
            &self.candles[idx],
            idx,
            signal,
        )?;
        self.phase = match verdict {
            Some(_) => Phase::Size(*signal),
            None => Phase::Idle,
        };
        Some(verdict)
    }

    /// Places the signal that came through the filters, once it is sized, as an
    /// order on the candle just taken; `None` where the entry price overflows.
    pub fn place(&mut self, decision: &RiskDecision) -> (res: Option<Fate>)
        requires
            old(self).wf(),
            old(self).phase is Size,
        ensures
            same_setup(*final(self), *old(self)),
            ({
                let expected = placed(
                    old(self).rules,
                    old(self).candles@[old(self).next - 1],
                    (old(self).next - 1) as nat,
                    old(self).phase->Size_0,
                    *decision,
                );
                match res {
                    Some(f) => {
                        &&& expected matches Some(order)
                        &&& f == fate(order)
                        &&& final(self)@ == ordered(old(self)@, order)
                        &&& final(self).wf()
                    },
                    None => expected is None && *final(self) == *old(self),
                }
            }),
    {
        let signal = match self.phase {
            Phase::Size(signal) => signal,
            _ => return None,
        };
        let idx: usize = self.next - 1;
        let order = place_order(&self.rules, &self.candles[idx], idx, &signal, decision)?;
        self.phase = Phase::Idle;
        match order {
            Order::Rejected => Some(Fate::Rejected),
            Order::Missed => {
                self.ledger.missed_fills += 1;
                Some(Fate::Missed)
            },
            Order::Opened(trade) => {
                self.open_trade = Some(trade);
                Some(Fate::Opened)
            },
        }
    }

    /// Closes a trade that is still open at the end of the data; `None` where
    /// that overflows, and then the simulation is of no more use.
    pub fn finish(&mut self) -> (res: Option<Option<ClosedTrade>>)
        requires
            old(self).wf(),
            old(self).next == old(self).candles@.len(),
        ensures
            same_setup(*final(self), *old(self)),
            ({
                let expected = ended(old(self).rules, old(self).candles@, old(self)@);
                match res {
                    Some(closed) => {
                        &&& expected == Some((final(self)@, closed_view(closed)))
                        &&& final(self).wf()
                        &&& final(self).open_trade is None
                    },
                    None => expected is None,
                }
            }),
    {
        match self.open_trade.take() {
            None => Some(None),
            Some(trade) => {
                let ghost book = self.ledger@;
                let level = self.candles[self.candles.len() - 1].close;
                proof {
                    reveal(closed_at_market);
                    if let Some(o) = outcome(self.rules, trade@, level@, false) {
                        law_closing_keeps_the_book_consistent(book, o, false);
                    }
                }
                let m = close_at_market(
                    &self.rules,
                    trade,
                    level,
                    ExitReason::Timeout,
                    &mut self.ledger,
                )?;
                Some(m.closed)
            },
        }
    }
}

/// On a candle on which a trade is open, or closes, no new one is entered.
pub proof fn law_no_entry_while_a_trade_is_open(
    rules: Rules,
    candles: Seq<Candle>,
    window: nat,
    s: Progress,
)
    requires
        s.open is Some,
    ensures
        advanced(rules, candles, window, s) matches Some((after, stage)) ==> !(stage is Analyze)
            && after.phase is Idle,
{
    reveal(advanced);
}

/// Walking forward never looks ahead: what a candle brings depends on the
/// candles up to it and on none behind it.
pub proof fn law_walk_forward_does_not_look_ahead(
    rules: Rules,
    a: Seq<Candle>,
    b: Seq<Candle>,
    window: nat,
    s: Progress,
)
    requires
        window <= s.next < a.len(),
        s.next < b.len(),
        a.take(s.next as int + 1) == b.take(s.next as int + 1),
    ensures
        advanced(rules, a, window, s) == advanced(rules, b, window, s),
{
    reveal(advanced);
    let idx = s.next as int;
    assert(a.take(idx + 1)[idx] == a[idx]);
    assert(b.take(idx + 1)[idx] == b[idx]);
    assert(a.subrange(idx - window, idx) =~= a.take(idx + 1).subrange(idx - window, idx));
    assert(b.subrange(idx - window, idx) =~= b.take(idx + 1).subrange(idx - window, idx));
}

/// A signal comes from the `window` candles in front of the new one.
pub proof fn law_signals_come_from_the_window_before(
    rules: Rules,
    candles: Seq<Candle>,
    window: nat,
    s: Progress,
)
    ensures
        advanced(rules, candles, window, s) matches Some((after, Stage::Analyze { from, to, min_sl }))
            ==> to == s.next && to - from == window && after.phase is Signal && after.book == s.book,
{
    reveal(advanced);
}

/// Each candle is taken once, until none is left.
pub proof fn law_each_candle_is_taken_once(
    rules: Rules,
    candles: Seq<Candle>,
    window: nat,
    s: Progress,
)
    ensures
        advanced(rules, candles, window, s) matches Some((after, stage)) ==> {
            &&& stage is Done <==> s.next >= candles.len()
            &&& after.next == (if stage is Done {
                s.next
            } else {
                s.next + 1
            })
        },
{
    reveal(advanced);
}

/// A signal that comes through the filters goes with the trend and pays enough
/// for its risk.
pub proof fn law_sized_signals_passed_the_filters(sim: Simulation, signal: TradeSignal)
    requires
        sim.wf(),
        sim.phase == Phase::Size(signal),
    ensures
        trend_ok(
            sim.rules,
            sim.trend,
            sim.confirm,
            sim.candles@[sim.next - 1],
            sim.next - 1,
            signal.side,
        ),
        reward_ok(signal, sim.rules.min_rr@) == Some(true),
{
}

/// An open trade is managed on the next candle, at that candle's own position,
/// and only what managing it changes is changed. No filter on entries is asked.
pub proof fn law_an_open_trade_is_managed_on_the_next_candle(
    rules: Rules,
    candles: Seq<Candle>,
    window: nat,
    s: Progress,
    t: TradeState,
)
    requires
        s.next < candles.len(),
        s.open == Some(t),
    ensures
        match managed(rules, candles[s.next as int], s.next, t, s.book) {
            None => advanced(rules, candles, window, s) is None,
            Some(m) => advanced(rules, candles, window, s) matches Some((after, stage)) && {
                &&& after.book == m.book && after.open == m.open
                &&& after.next == s.next + 1 && after.phase is Idle
                &&& stage == (Stage::Managed { one_r: m.one_r, two_r: m.two_r, closed: m.closed })
            },
        },
{
    reveal(advanced);
}

/// Without an open trade the filters decide on the next candle, with the window
/// of candles right in front of it. Nothing is traded: the book changes only by
/// the count of candles outside the killzone, and a signal is wanted exactly
/// where the filters let it.
pub proof fn law_entries_wait_for_the_filters(
    rules: Rules,
    candles: Seq<Candle>,
    window: nat,
    s: Progress,
)
    requires
        window <= s.next < candles.len(),
        s.open is None,
    ensures
        match gate(
            rules,
            candles[s.next as int],
            candles.subrange(s.next - window, s.next as int),
        ) {
            None => advanced(rules, candles, window, s) is None,
            Some(g) => advanced(rules, candles, window, s) matches Some((after, stage)) && {
                &&& after.open is None && after.next == s.next + 1
                &&& after.book == (Tally { skipped_kz: after.book.skipped_kz, ..s.book })
                &&& after.book.skipped_kz == s.book.skipped_kz + one_if(g is OutsideKillzone)
                &&& after.phase is Signal <==> g is Open
                &&& after.phase is Idle <==> !(g is Open)
                &&& stage is Skipped <==> !(g is Open)
                &&& g matches Gate::Open { min_sl } ==> stage == (Stage::Analyze {
                    from: s.next - window,
                    to: s.next as int,
                    min_sl,
                })
            },
        },
{
    reveal(advanced);
}

/// An order never touches the balance: one that is turned down changes nothing,
/// one that is missed is counted, and one that fills is the open trade. No more
/// is wanted for the candle.
pub proof fn law_orders_open_trades_or_are_counted(s: Progress, order: Placed)
    ensures
        ordered(s, order).next == s.next,
        ordered(s, order).phase is Idle,
        ordered(s, order).book == (Tally {
            missed_fills: s.book.missed_fills + one_if(order is Missed),
            ..s.book
        }),
        order matches Placed::Opened(t) ==> ordered(s, order).open == Some(t),
        !(order is Opened) ==> ordered(s, order).open == s.open,
        fate(order) == Fate::Rejected <==> order is Rejected,
        fate(order) == Fate::Missed <==> order is Missed,
        fate(order) == Fate::Opened <==> order is Opened,
{
}

/// A size is wanted exactly for a signal that came through the filters, and for
/// that signal; nothing else changes.
pub proof fn law_sizes_are_wanted_for_signals_that_came_through(
    s: Progress,
    signal: TradeSignal,
    verdict: Option<RiskTerms>,
)
    ensures
        sifted(s, signal, verdict).phase is Size <==> verdict is Some,
        sifted(s, signal, verdict).phase matches Phase::Size(x) ==> x == signal,
        verdict is None ==> sifted(s, signal, verdict).phase is Idle,
        sifted(s, signal, verdict).book == s.book,
        sifted(s, signal, verdict).open == s.open,
        sifted(s, signal, verdict).next == s.next,
{
}

/// At the end of the data an open trade leaves at the last close as at a market
/// price, and is booked and labelled as a timeout. Without one nothing happens.
pub proof fn law_the_end_closes_at_the_last_price(
    rules: Rules,
    candles: Seq<Candle>,
    s: Progress,
)
    requires
        candles.len() > 0,
    ensures
        s.open is None ==> ended(rules, candles, s) == Some((s, None::<ClosedState>)),
        s.open matches Some(t) ==> match outcome(
            rules,
            t,
            candles[candles.len() - 1].close@,
            false,
        ) {
            None => ended(rules, candles, s) is None,
            Some(o) => match timed_out(s.book, o) {
                None => ended(rules, candles, s) is None,
                Some(book) => ended(rules, candles, s) matches Some((after, closed)) && {
                    &&& after.open is None && after.book == book
                    &&& after.next == s.next && after.phase == s.phase
                    &&& closed matches Some(c)
                    &&& c.reason == ExitReason::Timeout && c.trade == t
                    &&& c.exit == o.exit && c.pnl == o.pnl && c.friction == o.friction
                    &&& c.balance == book.balance
                },
            },
        },
{
    reveal(closed_at_market);
}

/// A signal is judged, and its lot value converted, on the candle just taken.
pub proof fn law_signals_are_judged_on_the_candle_just_taken(sim: Simulation, signal: TradeSignal)
    requires
        1 <= sim.next <= sim.candles@.len(),
    ensures
        ({
            let candle = sim.candles@[sim.next - 1];
            let passes = trend_ok(
                sim.rules,
                sim.trend,
                sim.confirm,
                candle,
                sim.next - 1,
                signal.side,
            ) && reward_ok(signal, sim.rules.min_rr@) == Some(true);
            &&& passes ==> match sizing_terms(sim.rules, candle.close@) {
                Some(terms) => sim.verdict(signal) == Some(Some(terms)),
                None => sim.verdict(signal) is None,
            }
            &&& !passes ==> !(sim.verdict(signal) matches Some(Some(_)))
        }),
{
}

} // verus!
