//! The account book of a backtest: balance, drawdown and counts.

use vstd::prelude::*;

use crate::decimal::{at_most, difference, less, opt_view, over, quotient, sum};
use crate::decimal::{law_exact_sum, law_order_is_transitive, sum_is_exact};
use crate::decimal::{difference_is_exact, exact_difference, exact_product, exact_quotient};
use crate::decimal::{law_absolute_value, law_exact_difference, law_exact_product};
use crate::decimal::{law_exact_quotient, law_order_is_by_value, lemma_unit, lemma_whole_units};
use crate::decimal::{product, product_is_exact, quotient_is_exact, unit};
use crate::decimal::{times, whole_number, zero_number};
use crate::decimal::{Decimal, Number, COEFFICIENT_LIMIT};
use crate::domain::AccountInfo;
use crate::trade::{Closing, Outcome};

verus! {

/// What has happened to the account so far.
pub struct Tally {
    pub balance: Number,
    pub peak: Number,
    pub max_drawdown: Number,
    pub trades: nat,
    pub wins: nat,
    pub losses: nat,
    pub timeouts: nat,
    pub be_sl_exits: nat,
    pub skipped_kz: nat,
    pub missed_fills: nat,
    pub total_pnl: Number,
    pub total_friction: Number,
    pub sum_wins: Number,
    pub sum_losses: Number,
    pub max_consec_loss: nat,
    pub cur_consec_loss: nat,
}

/// An account with `balance` before the first trade.
pub open spec fn opening(balance: Number) -> Tally {
    Tally {
        balance,
        peak: balance,
        max_drawdown: zero_number(),
        trades: 0,
        wins: 0,
        losses: 0,
        timeouts: 0,
        be_sl_exits: 0,
        skipped_kz: 0,
        missed_fills: 0,
        total_pnl: zero_number(),
        total_friction: zero_number(),
        sum_wins: zero_number(),
        sum_losses: zero_number(),
        max_consec_loss: 0,
        cur_consec_loss: 0,
    }
}

impl Tally {
    /// Trades, candles outside the killzone and unfilled orders together.
    pub open spec fn events(self) -> nat {
        self.trades + self.skipped_kz + self.missed_fills
    }

    /// What holds of every account book: each trade was won, lost or timed out;
    /// stops at a moved level are among the won and lost ones; a run of losses
    /// is no longer than the longest, which is no longer than all losses; the
    /// balance has not passed its peak, and the drawdown is not positive.
    pub open spec fn consistent(self) -> bool {
        &&& self.trades == self.wins + self.losses + self.timeouts
        &&& self.be_sl_exits <= self.wins + self.losses
        &&& self.cur_consec_loss <= self.max_consec_loss <= self.losses
        &&& at_most(self.balance, self.peak)
        &&& at_most(self.max_drawdown, zero_number())
    }
}

/// The account after a trade has come to `o`: what every way of closing a trade
/// has in common.
pub open spec fn settled(a: Tally, o: Outcome) -> Option<Tally> {
    match (sum(a.balance, o.pnl), sum(a.total_pnl, o.pnl), sum(a.total_friction, o.friction)) {
        (Some(balance), Some(total_pnl), Some(total_friction)) => {
            let peak = if less(a.peak, balance) {
                balance
            } else {
                a.peak
            };
            match difference(balance, peak) {
                None => None,
                Some(drawdown) => Some(
                    Tally {
                        balance,
                        peak,
                        max_drawdown: if less(drawdown, a.max_drawdown) {
                            drawdown
                        } else {
                            a.max_drawdown
                        },
                        trades: a.trades + 1,
                        total_pnl,
                        total_friction,
                        ..a
                    },
                ),
            }
        },
        _ => None,
    }
}

/// The account after a trade that was closed for its age, for the weekend or at
/// the end of the data. It counts as neither won nor lost.
pub open spec fn timed_out(a: Tally, o: Outcome) -> Option<Tally> {
    match settled(a, o) {
        None => None,
        Some(s) => Some(Tally { timeouts: s.timeouts + 1, ..s }),
    }
}

/// The account after a trade that reached its stop or its target. It is won
/// where it brought no loss.
pub open spec fn decided(a: Tally, o: Outcome, at_moved_stop: bool) -> Option<Tally> {
    match settled(a, o) {
        None => None,
        Some(s) => {
            let s = Tally {
                be_sl_exits: if at_moved_stop {
                    s.be_sl_exits + 1
                } else {
                    s.be_sl_exits
                },
                ..s
            };
            if at_most(zero_number(), o.pnl) {
                match sum(s.sum_wins, o.pnl) {
                    None => None,
                    Some(sum_wins) => Some(
                        Tally { wins: s.wins + 1, sum_wins, cur_consec_loss: 0, ..s },
                    ),
                }
            } else {
                match sum(s.sum_losses, o.pnl.absolute()) {
                    None => None,
                    Some(sum_losses) => {
                        let run = s.cur_consec_loss + 1;
                        Some(
                            Tally {
                                losses: s.losses + 1,
                                sum_losses,
                                cur_consec_loss: run,
                                max_consec_loss: if run > s.max_consec_loss {
                                    run
                                } else {
                                    s.max_consec_loss
                                },
                                ..s
                            },
                        )
                    },
                }
            }
        },
    }
}

/// The account book of a backtest.
#[derive(Clone, Copy, Debug)]
pub struct Ledger {
    pub balance: Decimal,
    pub peak: Decimal,
    pub max_drawdown: Decimal,
    pub trades: u32,
    pub wins: u32,
    pub losses: u32,
    pub timeouts: u32,
    /// Trades stopped at a moved stop (breakeven or trailed).
    pub be_sl_exits: u32,
    /// Candles outside the killzone windows.
    pub skipped_kz: u32,
    /// Signals approved but the candle never reached the entry.
    pub missed_fills: u32,
    pub total_pnl: Decimal,
    pub total_friction: Decimal,
    pub sum_wins: Decimal,
    pub sum_losses: Decimal,
    pub max_consec_loss: u32,
    pub cur_consec_loss: u32,
}

impl View for Ledger {
    type V = Tally;

    open spec fn view(&self) -> Tally {
        Tally {
            balance: self.balance@,
            peak: self.peak@,
            max_drawdown: self.max_drawdown@,
            trades: self.trades as nat,
            wins: self.wins as nat,
            losses: self.losses as nat,
            timeouts: self.timeouts as nat,
            be_sl_exits: self.be_sl_exits as nat,
            skipped_kz: self.skipped_kz as nat,
            missed_fills: self.missed_fills as nat,
            total_pnl: self.total_pnl@,
            total_friction: self.total_friction@,
            sum_wins: self.sum_wins@,
            sum_losses: self.sum_losses@,
            max_consec_loss: self.max_consec_loss as nat,
            cur_consec_loss: self.cur_consec_loss as nat,
        }
    }
}

impl Ledger {
    /// An account with `balance` before the first trade.
    pub fn new(balance: Decimal) -> (res: Ledger)
        ensures
            res@ == opening(balance@),
            res@.consistent(),
    {
        Ledger {
            balance,
            peak: balance,
            max_drawdown: Decimal::zero(),
            trades: 0,
            wins: 0,
            losses: 0,
            timeouts: 0,
            be_sl_exits: 0,
            skipped_kz: 0,
            missed_fills: 0,
            total_pnl: Decimal::zero(),
            total_friction: Decimal::zero(),
            sum_wins: Decimal::zero(),
            sum_losses: Decimal::zero(),
            max_consec_loss: 0,
            cur_consec_loss: 0,
        }
    }

    /// Books what every closed trade has in common; `None`, with nothing
    /// booked, where it overflows.
    fn settle(&mut self, c: &Closing) -> (res: Option<()>)
        requires
            old(self)@.trades < u32::MAX,
        ensures
            match res {
                Some(_) => settled(old(self)@, c@) == Some(final(self)@),
                None => settled(old(self)@, c@) is None && *final(self) == *old(self),
            },
    {
        let balance = self.balance.checked_add(c.pnl)?;
        let total_pnl = self.total_pnl.checked_add(c.pnl)?;
        let total_friction = self.total_friction.checked_add(c.friction)?;
        let peak = if balance > self.peak {
            balance
        } else {
            self.peak
        };
        let drawdown = balance.checked_sub(peak)?;
        self.balance = balance;
        self.peak = peak;
        if drawdown < self.max_drawdown {
            self.max_drawdown = drawdown;
        }
        self.trades += 1;
        self.total_pnl = total_pnl;
        self.total_friction = total_friction;
        Some(())
    }

    /// Books a trade that was closed for its age, for the weekend or at the end
    /// of the data; `None`, with nothing booked, where it overflows.
    pub fn record_timeout(&mut self, c: &Closing) -> (res: Option<()>)
        requires
            old(self)@.consistent(),
            old(self)@.trades < u32::MAX,
        ensures
            match res {
                Some(_) => timed_out(old(self)@, c@) == Some(final(self)@)
                    && final(self)@.consistent(),
                None => timed_out(old(self)@, c@) is None && *final(self) == *old(self),
            },
    {
        proof {
            lemma_settled_consistent(self@, c@);
        }
        self.settle(c)?;
        self.timeouts += 1;
        Some(())
    }

    /// Books a trade that reached its stop or its target; `None`, with nothing
    /// booked, where it overflows.
    pub fn record_exit(&mut self, c: &Closing, at_moved_stop: bool) -> (res: Option<()>)
        requires
            old(self)@.consistent(),
            old(self)@.trades < u32::MAX,
        ensures
            match res {
                Some(_) => decided(old(self)@, c@, at_moved_stop) == Some(final(self)@)
                    && final(self)@.consistent(),
                None => decided(old(self)@, c@, at_moved_stop) is None && *final(self)
                    == *old(self),
            },
    {
        proof {
            lemma_settled_consistent(self@, c@);
        }
        if c.pnl >= Decimal::zero() {
            let sum_wins = self.sum_wins.checked_add(c.pnl)?;
            self.settle(c)?;
            self.wins += 1;
            self.sum_wins = sum_wins;
            self.cur_consec_loss = 0;
        } else {
            let sum_losses = self.sum_losses.checked_add(c.pnl.abs())?;
            self.settle(c)?;
            self.losses += 1;
            self.sum_losses = sum_losses;
            self.cur_consec_loss += 1;
            if self.cur_consec_loss > self.max_consec_loss {
                self.max_consec_loss = self.cur_consec_loss;
            }
        }
        if at_moved_stop {
            self.be_sl_exits += 1;
        }
        Some(())
    }
}

/// Settling a trade keeps the balance at or below its peak and the drawdown
/// from being positive.
proof fn lemma_settled_consistent(a: Tally, o: Outcome)
    requires
        a.consistent(),
    ensures
        settled(a, o) matches Some(s) ==> at_most(s.balance, s.peak) && at_most(
            s.max_drawdown,
            zero_number(),
        ),
{
    if let Some(s) = settled(a, o) {
        if less(s.max_drawdown, a.max_drawdown) {
            law_order_is_transitive(s.max_drawdown, a.max_drawdown, zero_number());
            if less(zero_number(), s.max_drawdown) {
                law_order_is_transitive(s.max_drawdown, zero_number(), s.max_drawdown);
            }
        }
    }
}

/// The figures that sum up a backtest.
pub struct Figures {
    pub avg_win: Number,
    pub avg_loss: Number,
    pub expectancy: Number,
    pub profit_factor: Number,
    pub return_pct: Number,
    pub avg_friction: Number,
}

/// `total` per one of `count`; zero where there are none.
pub open spec fn average(total: Number, count: nat) -> Option<Number> {
    if count > 0 {
        quotient(total, whole_number(count as int))
    } else {
        Some(zero_number())
    }
}

/// What was won for each unit lost; the largest number where nothing was lost.
pub open spec fn profit_ratio(a: Tally) -> Option<Number> {
    if less(zero_number(), a.sum_losses) {
        quotient(a.sum_wins, a.sum_losses)
    } else {
        Some(Number { negative: false, magnitude: (COEFFICIENT_LIMIT - 1) as nat, scale: 0 })
    }
}

/// The gain on the starting balance in percent.
pub open spec fn percent_gain(balance: Number, start: Number) -> Option<Number> {
    times(over(difference(balance, start), Some(start)), Some(whole_number(100)))
}

/// The figures of an account that started with `start`; `None` where one of
/// them overflows or `start` is zero.
pub open spec fn figures(a: Tally, start: Number) -> Option<Figures> {
    match (
        average(a.sum_wins, a.wins),
        average(a.sum_losses, a.losses),
        average(a.total_pnl, a.trades),
        profit_ratio(a),
        percent_gain(a.balance, start),
        average(a.total_friction, a.trades),
    ) {
        (
            Some(avg_win),
            Some(avg_loss),
            Some(expectancy),
            Some(profit_factor),
            Some(return_pct),
            Some(avg_friction),
        ) => Some(
            Figures { avg_win, avg_loss, expectancy, profit_factor, return_pct, avg_friction },
        ),
        _ => None,
    }
}

/// The figures that sum up a backtest.
#[derive(Clone, Copy, Debug)]
pub struct Metrics {
    pub avg_win: Decimal,
    pub avg_loss: Decimal,
    pub expectancy: Decimal,
    pub profit_factor: Decimal,
    pub return_pct: Decimal,
    pub avg_friction: Decimal,
}

impl View for Metrics {
    type V = Figures;

    open spec fn view(&self) -> Figures {
        Figures {
            avg_win: self.avg_win@,
            avg_loss: self.avg_loss@,
            expectancy: self.expectancy@,
            profit_factor: self.profit_factor@,
            return_pct: self.return_pct@,
            avg_friction: self.avg_friction@,
        }
    }
}

fn average_of(total: Decimal, count: u32) -> (res: Option<Decimal>)
    ensures
        opt_view(res) == average(total@, count as nat),
{
    if count > 0 {
        total.checked_div(Decimal::from_unsigned(count as u64))
    } else {
        Some(Decimal::zero())
    }
}

/// The figures of an account that started with `start`; `None` where one of
/// them overflows or `start` is zero.
pub fn metrics(ledger: &Ledger, start: Decimal) -> (res: Option<Metrics>)
    ensures
        match res {
            Some(m) => figures(ledger@, start@) == Some(m@),
            None => figures(ledger@, start@) is None,
        },
{
    let avg_win = average_of(ledger.sum_wins, ledger.wins)?;
    let avg_loss = average_of(ledger.sum_losses, ledger.losses)?;
    let expectancy = average_of(ledger.total_pnl, ledger.trades)?;
    let profit_factor = if ledger.sum_losses > Decimal::zero() {
        ledger.sum_wins.checked_div(ledger.sum_losses)?
    } else {
        Decimal::max_value()
    };
    let gain = ledger.balance.checked_sub(start)?;
    let ratio = gain.checked_div(start)?;
    let return_pct = ratio.checked_mul(Decimal::from_unsigned(100))?;
    let avg_friction = average_of(ledger.total_friction, ledger.trades)?;
    Some(Metrics { avg_win, avg_loss, expectancy, profit_factor, return_pct, avg_friction })
}

/// The account that position sizing is asked about: a dollar account with all
/// of `balance` free.
pub fn make_sim_account(balance: Decimal) -> (res: AccountInfo)
    ensures
        res.login == 0,
        res.leverage == 100,
        res.trade_allowed,
        res.trade_expert,
        res.currency@ == "USD"@,
        res.currency_digits == 2,
        res.server@ == "sim"@,
        res.name@ == "sim"@,
        res.company@ == "sim"@,
        res.balance == balance,
        res.equity == balance,
        res.profit@ == zero_number(),
        res.credit@ == zero_number(),
        res.margin@ == zero_number(),
        res.margin_free == balance,
        res.margin_level@ == zero_number(),
{
    AccountInfo {
        login: 0,
        leverage: 100,
        trade_allowed: true,
        trade_expert: true,
        currency: "USD".to_owned(),
        currency_digits: 2,
        server: "sim".to_owned(),
        name: "sim".to_owned(),
        company: "sim".to_owned(),
        balance,
        equity: balance,
        profit: Decimal::zero(),
        credit: Decimal::zero(),
        margin: Decimal::zero(),
        margin_free: balance,
        margin_level: Decimal::zero(),
    }
}

/// Closing a trade, in any way, makes the drawdown no smaller than the distance
/// of the new balance from its peak, and never takes back an earlier one; the
/// peak never falls.
pub proof fn law_drawdown_is_the_deepest(a: Tally, o: Outcome)
    requires
        a.consistent(),
    ensures
        settled(a, o) matches Some(s) ==> {
            &&& at_most(s.max_drawdown, a.max_drawdown)
            &&& difference(s.balance, s.peak) matches Some(d) && at_most(s.max_drawdown, d)
            &&& at_most(a.peak, s.peak)
            &&& at_most(s.balance, s.peak)
        },
{
    if let Some(s) = settled(a, o) {
        if less(a.peak, s.peak) && less(s.peak, a.peak) {
            law_order_is_transitive(a.peak, s.peak, a.peak);
        }
        if less(s.max_drawdown, a.max_drawdown) && less(a.max_drawdown, s.max_drawdown) {
            law_order_is_transitive(s.max_drawdown, a.max_drawdown, s.max_drawdown);
        }
    }
}

/// Where nothing has to be rounded, the balance moves by exactly what is added
/// to the total profit: that of the trade.
pub proof fn law_balance_moves_with_profit(a: Tally, o: Outcome)
    requires
        a.balance.valid(),
        a.total_pnl.valid(),
        o.pnl.valid(),
        sum_is_exact(a.balance, o.pnl),
        sum_is_exact(a.total_pnl, o.pnl),
    ensures
        settled(a, o) matches Some(s) ==> {
            &&& s.balance.units() == a.balance.units() + o.pnl.units()
            &&& s.total_pnl.units() == a.total_pnl.units() + o.pnl.units()
        },
{
    law_exact_sum(a.balance, o.pnl);
    law_exact_sum(a.total_pnl, o.pnl);
}

/// Closing a trade keeps an account book consistent, counts one trade more, and
/// leaves the counts of skipped candles and unfilled orders alone.
pub proof fn law_closing_keeps_the_book_consistent(a: Tally, o: Outcome, at_moved_stop: bool)
    requires
        a.consistent(),
    ensures
        timed_out(a, o) matches Some(s) ==> s.consistent() && s.trades == a.trades + 1
            && s.events() == a.events() + 1,
        decided(a, o, at_moved_stop) matches Some(s) ==> s.consistent() && s.trades == a.trades + 1
            && s.events() == a.events() + 1,
{
    lemma_settled_consistent(a, o);
}

/// An account book starts with its balance as its peak, and with nothing else in
/// it.
pub proof fn law_a_book_starts_empty(balance: Number)
    ensures
        ({
            let a = opening(balance);
            &&& a.balance == balance && a.peak == balance
            &&& a.events() == 0 && a.trades == 0 && a.skipped_kz == 0 && a.missed_fills == 0
            &&& a.wins == 0 && a.losses == 0 && a.timeouts == 0 && a.be_sl_exits == 0
            &&& a.max_consec_loss == 0 && a.cur_consec_loss == 0
            &&& a.max_drawdown.is_zero() && a.total_pnl.is_zero() && a.total_friction.is_zero()
            &&& a.sum_wins.is_zero() && a.sum_losses.is_zero()
        }),
{
}

/// What every close does to the book, however numbers are rounded: the profit is
/// added to the balance and to the total, the friction to its total; the peak is
/// the larger of the balance and the peak before; the drawdown is the lower of
/// the drawdown before and the distance of the balance from its peak; and all
/// counts but that of the trades are left alone.
pub proof fn law_settling_books_the_profit(a: Tally, o: Outcome)
    ensures
        settled(a, o) matches Some(s) ==> {
            &&& sum(a.balance, o.pnl) == Some(s.balance)
            &&& sum(a.total_pnl, o.pnl) == Some(s.total_pnl)
            &&& sum(a.total_friction, o.friction) == Some(s.total_friction)
            &&& less(a.peak, s.balance) ==> s.peak == s.balance
            &&& !less(a.peak, s.balance) ==> s.peak == a.peak
            &&& difference(s.balance, s.peak) matches Some(d)
            &&& less(d, a.max_drawdown) ==> s.max_drawdown == d
            &&& !less(d, a.max_drawdown) ==> s.max_drawdown == a.max_drawdown
            &&& s.trades == a.trades + 1
            &&& s.wins == a.wins && s.losses == a.losses && s.timeouts == a.timeouts
            &&& s.be_sl_exits == a.be_sl_exits && s.skipped_kz == a.skipped_kz && s.missed_fills
                == a.missed_fills
            &&& s.sum_wins == a.sum_wins && s.sum_losses == a.sum_losses
            &&& s.cur_consec_loss == a.cur_consec_loss && s.max_consec_loss == a.max_consec_loss
        },
        settled(a, o) is None ==> sum(a.balance, o.pnl) is None || sum(a.total_pnl, o.pnl) is None
            || sum(a.total_friction, o.friction) is None || (sum(
            a.balance,
            o.pnl,
        ) matches Some(b) && difference(
            b,
            if less(a.peak, b) {
                b
            } else {
                a.peak
            },
        ) is None),
{
}

/// A trade that timed out counts as one more of those, and is neither won nor
/// lost: the sums and the run of losses stay as they were.
pub proof fn law_timeouts_are_neither_won_nor_lost(a: Tally, o: Outcome)
    ensures
        timed_out(a, o) is Some <==> settled(a, o) is Some,
        timed_out(a, o) matches Some(s) ==> settled(a, o) matches Some(b) && {
            &&& s.timeouts == a.timeouts + 1 && s.trades == a.trades + 1
            &&& s.wins == a.wins && s.losses == a.losses && s.be_sl_exits == a.be_sl_exits
            &&& s.sum_wins == a.sum_wins && s.sum_losses == a.sum_losses
            &&& s.cur_consec_loss == a.cur_consec_loss && s.max_consec_loss == a.max_consec_loss
            &&& s.skipped_kz == a.skipped_kz && s.missed_fills == a.missed_fills
            &&& s.balance == b.balance && s.peak == b.peak && s.max_drawdown == b.max_drawdown
            &&& s.total_pnl == b.total_pnl && s.total_friction == b.total_friction
        },
{
}

/// A trade that reached its stop or its target is won where its profit is not
/// below zero, and lost otherwise. A win is added to the wins and ends the run of
/// losses; a loss is added to the losses and lengthens the run, and the longest
/// run grows with it. A stop that had been moved counts, won or lost.
pub proof fn law_trades_are_won_or_lost(a: Tally, o: Outcome, at_moved_stop: bool)
    ensures
        decided(a, o, at_moved_stop) matches Some(s) ==> settled(a, o) matches Some(b) && {
            &&& s.balance == b.balance && s.peak == b.peak && s.max_drawdown == b.max_drawdown
            &&& s.total_pnl == b.total_pnl && s.total_friction == b.total_friction
            &&& s.trades == a.trades + 1 && s.timeouts == a.timeouts
            &&& s.skipped_kz == a.skipped_kz && s.missed_fills == a.missed_fills
            &&& at_moved_stop ==> s.be_sl_exits == a.be_sl_exits + 1
            &&& !at_moved_stop ==> s.be_sl_exits == a.be_sl_exits
            &&& !less(o.pnl, zero_number()) ==> {
                &&& s.wins == a.wins + 1 && s.losses == a.losses
                &&& sum(a.sum_wins, o.pnl) == Some(s.sum_wins) && s.sum_losses == a.sum_losses
                &&& s.cur_consec_loss == 0 && s.max_consec_loss == a.max_consec_loss
            }
            &&& less(o.pnl, zero_number()) ==> {
                &&& s.losses == a.losses + 1 && s.wins == a.wins
                &&& sum(a.sum_losses, o.pnl.absolute()) == Some(s.sum_losses) && s.sum_wins
                    == a.sum_wins
                &&& s.cur_consec_loss == a.cur_consec_loss + 1
                &&& s.max_consec_loss >= s.cur_consec_loss && s.max_consec_loss
                    >= a.max_consec_loss
                &&& s.max_consec_loss == s.cur_consec_loss || s.max_consec_loss
                    == a.max_consec_loss
            }
        },
        decided(a, o, at_moved_stop) is None ==> settled(a, o) is None || (if less(
            o.pnl,
            zero_number(),
        ) {
            sum(a.sum_losses, o.pnl.absolute()) is None
        } else {
            sum(a.sum_wins, o.pnl) is None
        }),
{
}

/// What is won less what is lost moves with the total profit, where nothing has
/// to be rounded.
pub proof fn law_wins_and_losses_make_up_the_profit(a: Tally, o: Outcome, at_moved_stop: bool)
    requires
        a.sum_wins.valid(),
        a.sum_losses.valid(),
        a.total_pnl.valid(),
        o.pnl.valid(),
        sum_is_exact(a.sum_wins, o.pnl),
        sum_is_exact(a.sum_losses, o.pnl.absolute()),
        sum_is_exact(a.total_pnl, o.pnl),
    ensures
        decided(a, o, at_moved_stop) matches Some(s) ==> s.sum_wins.units() - s.sum_losses.units()
            - s.total_pnl.units() == a.sum_wins.units() - a.sum_losses.units()
            - a.total_pnl.units(),
{
    lemma_unit();
    law_absolute_value(o.pnl);
    law_exact_sum(a.sum_wins, o.pnl);
    law_exact_sum(a.sum_losses, o.pnl.absolute());
    law_exact_sum(a.total_pnl, o.pnl);
    law_order_is_by_value(zero_number(), o.pnl);
}

/// The figures are what their names say, however numbers are rounded: averages
/// over the won, the lost and all trades, zero where there are none; the wins
/// over the losses, or the largest number where nothing was lost; and the gain on
/// the start in percent of it.
pub proof fn law_figures_are_averages(a: Tally, start: Number)
    ensures
        figures(a, start) matches Some(f) ==> {
            &&& a.wins > 0 ==> quotient(a.sum_wins, whole_number(a.wins as int)) == Some(f.avg_win)
            &&& a.losses > 0 ==> quotient(a.sum_losses, whole_number(a.losses as int)) == Some(
                f.avg_loss,
            )
            &&& a.trades > 0 ==> quotient(a.total_pnl, whole_number(a.trades as int)) == Some(
                f.expectancy,
            )
            &&& a.trades > 0 ==> quotient(a.total_friction, whole_number(a.trades as int))
                == Some(f.avg_friction)
            &&& a.wins == 0 ==> f.avg_win.is_zero()
            &&& a.losses == 0 ==> f.avg_loss.is_zero()
            &&& a.trades == 0 ==> f.expectancy.is_zero() && f.avg_friction.is_zero()
            &&& less(zero_number(), a.sum_losses) ==> quotient(a.sum_wins, a.sum_losses) == Some(
                f.profit_factor,
            )
            &&& !less(zero_number(), a.sum_losses) ==> f.profit_factor.signed() == COEFFICIENT_LIMIT
                - 1 && f.profit_factor.scale == 0
            &&& difference(a.balance, start) matches Some(gain)
            &&& quotient(gain, start) matches Some(ratio)
            &&& product(ratio, whole_number(100)) == Some(f.return_pct)
        },
        figures(a, start) is None ==> {
            ||| a.wins > 0 && quotient(a.sum_wins, whole_number(a.wins as int)) is None
            ||| a.losses > 0 && quotient(a.sum_losses, whole_number(a.losses as int)) is None
            ||| a.trades > 0 && quotient(a.total_pnl, whole_number(a.trades as int)) is None
            ||| a.trades > 0 && quotient(a.total_friction, whole_number(a.trades as int)) is None
            ||| less(zero_number(), a.sum_losses) && quotient(a.sum_wins, a.sum_losses) is None
            ||| times(over(difference(a.balance, start), Some(start)), Some(whole_number(100)))
                is None
        },
{
}

/// In values: the return is to a hundred as the gain is to the start, where
/// nothing has to be rounded.
pub proof fn law_return_is_the_gain_in_percent(a: Tally, start: Number)
    requires
        a.balance.valid(),
        start.valid(),
        difference_is_exact(a.balance, start),
        quotient_is_exact(exact_difference(a.balance, start), start),
        product_is_exact(
            exact_quotient(exact_difference(a.balance, start), start),
            whole_number(100),
        ),
    ensures
        figures(a, start) matches Some(f) ==> f.return_pct.units() * start.units() == 100 * (
        a.balance.units() - start.units()) * unit(),
{
    let gain = exact_difference(a.balance, start);
    let ratio = exact_quotient(gain, start);
    let pct = exact_product(ratio, whole_number(100));
    lemma_unit();
    lemma_whole_units(100);
    law_exact_difference(a.balance, start);
    law_exact_quotient(gain, start);
    law_exact_product(ratio, whole_number(100));
    let (g, r, p, s, u) = (gain.units(), ratio.units(), pct.units(), start.units(), unit());
    assert(p == 100 * r) by (nonlinear_arith)
        requires
            p * u == r * (100 * u),
            u > 0,
    {
        assert(r * (100 * u) == (100 * r) * u);
    }
    assert(p * s == 100 * g * u) by (nonlinear_arith)
        requires
            p == 100 * r,
            r * s == g * u,
    {
        assert((100 * r) * s == 100 * (r * s));
        assert(100 * g * u == 100 * (g * u));
    }
}

} // verus!
