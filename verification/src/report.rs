//! What a backtest prints.

use vstd::prelude::*;
use vstd::string::*;

use crate::decimal::{at_most, fixed_text, less, showable, zero_number, Decimal, Number};
use crate::domain::Side;
use crate::killzone::{killzone_label, killzone_text};
use crate::ledger::{Figures, Ledger, Metrics, Tally};
use crate::manage::{ClosedState, ClosedTrade, ExitReason};
use crate::rules::Rules;
use crate::text::{nat_text, number_text, text_view};
use crate::trade::{PartialClose, PartialState};

verus! {

/// The views of texts that may not be there.
pub open spec fn text_views(v: Seq<Option<String>>) -> Seq<Option<Seq<char>>> {
    v.map_values(|s: Option<String>| text_view(s))
}

/// The views of texts.
pub open spec fn strings(v: Seq<String>) -> Seq<Seq<char>> {
    v.map_values(|s: String| s@)
}

/// The parts one after the other, where all of them are there.
pub open spec fn glued(parts: Seq<Option<Seq<char>>>) -> Option<Seq<char>>
    decreases parts.len(),
{
    if parts.len() == 0 {
        Some(Seq::<char>::empty())
    } else {
        match (glued(parts.drop_last()), parts.last()) {
            (Some(a), Some(b)) => Some(a + b),
            _ => None,
        }
    }
}

/// The texts, where all of them are there.
pub open spec fn gathered(lines: Seq<Option<Seq<char>>>) -> Option<Seq<Seq<char>>>
    decreases lines.len(),
{
    if lines.len() == 0 {
        Some(Seq::<Seq<char>>::empty())
    } else {
        match (gathered(lines.drop_last()), lines.last()) {
            (Some(a), Some(b)) => Some(a.push(b)),
            _ => None,
        }
    }
}

/// A number with `digits` digits after the point, where that can be written.
pub open spec fn price_text(n: Number, digits: nat) -> Option<Seq<char>> {
    if showable(n, digits) {
        Some(fixed_text(n, digits))
    } else {
        None
    }
}

/// An amount of money with two digits after the point, and a plus sign unless
/// it is less than zero.
pub open spec fn pnl_text(n: Number) -> Option<Seq<char>> {
    if !showable(n, 2) {
        None
    } else if at_most(zero_number(), n) {
        Some(seq!['+'] + fixed_text(n, 2))
    } else {
        Some(fixed_text(n, 2))
    }
}

/// Joins the parts; `None` where one of them is missing.
fn glue(parts: Vec<Option<String>>) -> (res: Option<String>)
    ensures
        text_view(res) == glued(text_views(parts@)),
{
    let ghost views = text_views(parts@);
    let mut out: Option<String> = Some(String::new());
    let mut i: usize = 0;
    assert(views.take(0) =~= seq![]);
    assert(text_view(out)->0 =~= Seq::<char>::empty());
    while i < parts.len()
        invariant
            i <= parts.len(),
            views == text_views(parts@),
            text_view(out) == glued(views.take(i as int)),
        decreases parts.len() - i,
    {
        assert(views.take(i + 1).drop_last() =~= views.take(i as int));
        assert(views.take(i + 1).last() == text_view(parts@[i as int]));
        out = match (out, &parts[i]) {
            (Some(mut a), Some(b)) => {
                a.append(b.as_str());
                Some(a)
            },
            _ => None,
        };
        i += 1;
    }
    assert(views.take(i as int) =~= views);
    out
}

/// The lines; `None` where one of them is missing.
fn gather(lines: Vec<Option<String>>) -> (res: Option<Vec<String>>)
    ensures
        match res {
            Some(v) => gathered(text_views(lines@)) == Some(strings(v@)),
            None => gathered(text_views(lines@)) is None,
        },
{
    let ghost views = text_views(lines@);
    let mut out: Vec<String> = Vec::new();
    let mut i: usize = 0;
    assert(views.take(0) =~= seq![]);
    assert(strings(out@) =~= Seq::<Seq<char>>::empty());
    while i < lines.len()
        invariant
            i <= lines.len(),
            views == text_views(lines@),
            Some(strings(out@)) == gathered(views.take(i as int)),
        decreases lines.len() - i,
    {
        assert(views.take(i + 1).drop_last() =~= views.take(i as int));
        assert(views.take(i + 1).last() == text_view(lines@[i as int]));
        match &lines[i] {
            Some(line) => {
                let ghost before = strings(out@);
                out.push(line.clone());
                assert(strings(out@) =~= before.push(line@));
            },
            None => {
                proof {
                    lemma_gathered_stays_missing(views, i + 1);
                }
                return None;
            },
        }
        i += 1;
    }
    assert(views.take(i as int) =~= views);
    Some(out)
}

proof fn lemma_gathered_stays_missing(lines: Seq<Option<Seq<char>>>, n: int)
    requires
        0 <= n <= lines.len(),
        gathered(lines.take(n)) is None,
    ensures
        gathered(lines) is None,
    decreases lines.len() - n,
{
    if n < lines.len() {
        assert(lines.take(n + 1).drop_last() =~= lines.take(n));
        lemma_gathered_stays_missing(lines, n + 1);
    } else {
        assert(lines.take(n) =~= lines);
    }
}

/// A fixed part of a line.
fn lit(s: &str) -> (res: Option<String>)
    ensures
        text_view(res) == Some(s@),
{
    Some(s.to_owned())
}

/// A count as part of a line.
fn count(n: u64) -> (res: Option<String>)
    ensures
        text_view(res) == Some(nat_text(n as nat)),
{
    Some(number_text(n))
}

/// A number with `prec` digits after the point, cut off rather than rounded;
/// `None` where it has too many digits to be written so.
pub fn fmt_price(d: Decimal, prec: usize) -> (res: Option<String>)
    ensures
        text_view(res) == price_text(d@, prec as nat),
{
    if d.shows(prec) {
        Some(d.fixed(prec))
    } else {
        None
    }
}

/// An amount of money with its sign; `None` where it has too many digits to be
/// written with two after the point.
pub fn fmt_pnl(pnl: Decimal) -> (res: Option<String>)
    ensures
        text_view(res) == pnl_text(pnl@),
{
    if !pnl.shows(2) {
        return None;
    }
    let amount = pnl.fixed(2);
    if pnl >= Decimal::zero() {
        let mut out = String::new();
        out.push('+');
        out.append(amount.as_str());
        assert(out@ =~= seq!['+'] + amount@);
        Some(out)
    } else {
        Some(amount)
    }
}

/// The direction of a trade, in five characters.
pub open spec fn side_text(side: Side) -> Seq<char> {
    match side {
        Side::Long => "LONG "@,
        Side::Short => "SHORT"@,
    }
}

/// How a closed trade left, in seven characters.
pub open spec fn reason_text(reason: ExitReason) -> Seq<char> {
    match reason {
        ExitReason::FridayClose => "FRI_CLS"@,
        ExitReason::Timeout => "TIMEOUT"@,
        ExitReason::TakeProfit => "TP     "@,
        ExitReason::MovedStop => "BE_SL  "@,
        ExitReason::StopLoss => "SL     "@,
    }
}

fn side_label(side: Side) -> (res: Option<String>)
    ensures
        text_view(res) == Some(side_text(side)),
{
    match side {
        Side::Long => lit("LONG "),
        Side::Short => lit("SHORT"),
    }
}

fn reason_label(reason: ExitReason) -> (res: Option<String>)
    ensures
        text_view(res) == Some(reason_text(reason)),
{
    match reason {
        ExitReason::FridayClose => lit("FRI_CLS"),
        ExitReason::Timeout => lit("TIMEOUT"),
        ExitReason::TakeProfit => lit("TP     "),
        ExitReason::MovedStop => lit("BE_SL  "),
        ExitReason::StopLoss => lit("SL     "),
    }
}

/// The parts of the line of a closed trade.
pub open spec fn closed_parts(tf: Seq<char>, symbol: Seq<char>, prec: nat, c: ClosedState) -> Seq<
    Option<Seq<char>>,
> {
    let t = c.trade;
    seq![
        Some("["@),
        Some(t.opened),
        Some(" "@),
        Some(tf),
        Some("] "@),
        Some(symbol),
        Some(" "@),
        Some(side_text(t.signal.side)),
        Some(" entry="@),
        price_text(t.actual_entry, prec),
        Some(" tp="@),
        price_text(t.signal.tp@, prec),
        Some(" sl="@),
        price_text(t.signal.sl@, prec),
        Some(" vol="@),
        price_text(t.volume, 2),
        Some(" → "@),
        Some(reason_text(c.reason)),
        Some(" exit="@),
        price_text(c.exit, prec),
        Some(" friction="@),
        pnl_text(c.friction.negated()),
        Some(" pnl="@),
        pnl_text(c.pnl),
        Some(" bal="@),
        price_text(c.balance, 2),
    ]
}

/// The line of a closed trade.
pub open spec fn closed_line(tf: Seq<char>, symbol: Seq<char>, prec: nat, c: ClosedState) -> Option<
    Seq<char>,
> {
    glued(closed_parts(tf, symbol, prec, c))
}

/// The parts of the line of a partial close, at 1R or at 2R.
pub open spec fn partial_parts(
    tf: Seq<char>,
    symbol: Seq<char>,
    prec: nat,
    label: Seq<char>,
    p: PartialState,
) -> Seq<Option<Seq<char>>> {
    seq![
        Some("["@),
        Some(p.opened),
        Some(" "@),
        Some(tf),
        Some("] "@),
        Some(symbol),
        Some(" "@),
        Some(side_text(p.side)),
        Some(" entry="@),
        price_text(p.actual_entry, prec),
        Some(" → "@),
        Some(label),
        Some(" exit="@),
        price_text(p.exit, prec),
        Some(" vol="@),
        price_text(p.volume, 2),
        Some(" pnl="@),
        pnl_text(p.pnl),
        Some(" (rem="@),
        price_text(p.remaining, 2),
        Some(")"@),
    ]
}

/// The line of a partial close, at 1R or at 2R.
pub open spec fn partial_line(
    tf: Seq<char>,
    symbol: Seq<char>,
    prec: nat,
    label: Seq<char>,
    p: PartialState,
) -> Option<Seq<char>> {
    glued(partial_parts(tf, symbol, prec, label, p))
}

/// The line of a closed trade; `None` where a number is too long to be written.
pub fn closed_trade_line(tf_short: &str, symbol: &str, prec: usize, c: &ClosedTrade) -> (res: Option<
    String,
>)
    ensures
        text_view(res) == closed_line(tf_short@, symbol@, prec as nat, c@),
{
    let t = &c.trade;
    let parts: Vec<Option<String>> = vec![
        lit("["),
        lit(t.open_time_str.as_str()),
        lit(" "),
        lit(tf_short),
        lit("] "),
        lit(symbol),
        lit(" "),
        side_label(t.signal.side),
        lit(" entry="),
        fmt_price(t.actual_entry, prec),
        lit(" tp="),
        fmt_price(t.signal.tp, prec),
        lit(" sl="),
        fmt_price(t.signal.sl, prec),
        lit(" vol="),
        fmt_price(t.volume, 2),
        lit(" → "),
        reason_label(c.reason),
        lit(" exit="),
        fmt_price(c.exit, prec),
        lit(" friction="),
        fmt_pnl(c.friction.negated()),
        lit(" pnl="),
        fmt_pnl(c.pnl),
        lit(" bal="),
        fmt_price(c.balance, 2),
    ];
    assert(text_views(parts@) =~= closed_parts(tf_short@, symbol@, prec as nat, c@));
    glue(parts)
}

/// The line of a partial close; `None` where a number is too long to be
/// written.
fn labelled_partial_line(
    tf_short: &str,
    symbol: &str,
    prec: usize,
    label: &str,
    p: &PartialClose,
) -> (res: Option<String>)
    ensures
        text_view(res) == partial_line(tf_short@, symbol@, prec as nat, label@, p@),
{
    let parts: Vec<Option<String>> = vec![
        lit("["),
        lit(p.open_time_str.as_str()),
        lit(" "),
        lit(tf_short),
        lit("] "),
        lit(symbol),
        lit(" "),
        side_label(p.side),
        lit(" entry="),
        fmt_price(p.actual_entry, prec),
        lit(" → "),
        lit(label),
        lit(" exit="),
        fmt_price(p.exit, prec),
        lit(" vol="),
        fmt_price(p.volume, 2),
        lit(" pnl="),
        fmt_pnl(p.pnl),
        lit(" (rem="),
        fmt_price(p.remaining, 2),
        lit(")"),
    ];
    assert(text_views(parts@) =~= partial_parts(tf_short@, symbol@, prec as nat, label@, p@));
    glue(parts)
}

/// The line of the partial close at 1R.
pub fn one_r_line(tf_short: &str, symbol: &str, prec: usize, p: &PartialClose) -> (res: Option<String>)
    ensures
        text_view(res) == partial_line(tf_short@, symbol@, prec as nat, "PARTIAL1R"@, p@),
{
    labelled_partial_line(tf_short, symbol, prec, "PARTIAL1R", p)
}

/// The line of the partial close at 2R.
pub fn two_r_line(tf_short: &str, symbol: &str, prec: usize, p: &PartialClose) -> (res: Option<String>)
    ensures
        text_view(res) == partial_line(tf_short@, symbol@, prec as nat, "PARTIAL2R"@, p@),
{
    labelled_partial_line(tf_short, symbol, prec, "PARTIAL2R", p)
}

/// What the summary of a backtest is about.
pub struct Subject {
    pub symbol: Seq<char>,
    pub tf: Seq<char>,
    pub total: nat,
    pub prec: nat,
    pub win_pct: Seq<char>,
    pub loss_pct: Seq<char>,
    pub timeout_pct: Seq<char>,
}

/// What the summary of a backtest is about: the symbol and the timeframe, how
/// many candles there were, the precision of prices, and the shares of won, lost
/// and timed-out trades in percent.
#[derive(Debug)]
pub struct Heading {
    pub symbol: String,
    pub tf_short: String,
    pub total: usize,
    pub prec: usize,
    pub win_pct: String,
    pub loss_pct: String,
    pub timeout_pct: String,
}

impl View for Heading {
    type V = Subject;

    open spec fn view(&self) -> Subject {
        Subject {
            symbol: self.symbol@,
            tf: self.tf_short@,
            total: self.total as nat,
            prec: self.prec as nat,
            win_pct: self.win_pct@,
            loss_pct: self.loss_pct@,
            timeout_pct: self.timeout_pct@,
        }
    }
}

/// The line between the blocks of the summary.
pub open spec fn ruler() -> Option<Seq<char>> {
    Some("─────────────────────────────────────────"@)
}

/// A label and what it labels.
pub open spec fn labelled(label: Seq<char>, value: Option<Seq<char>>) -> Option<Seq<char>> {
    glued(seq![Some(label), value])
}

/// A label, a count and its share.
pub open spec fn shared(label: Seq<char>, n: nat, percent: Seq<char>) -> Option<Seq<char>> {
    glued(seq![Some(label), Some(nat_text(n)), Some("  ("@), Some(percent), Some("%)"@)])
}

/// The line that names the subject.
pub open spec fn subject_line(h: Subject) -> Option<Seq<char>> {
    glued(
        seq![
            Some("Backtest: "@),
            Some(h.symbol),
            Some(" "@),
            Some(h.tf),
            Some(" | "@),
            Some(nat_text(h.total)),
            Some(" candles"@),
        ],
    )
}

/// The line of the costs.
pub open spec fn friction_line(h: Subject, rules: Rules, f: Figures) -> Option<Seq<char>> {
    glued(
        seq![
            Some("Friction: spread="@),
            price_text(rules.spread_price@, h.prec),
            Some(" slippage="@),
            price_text(rules.slippage_price@, h.prec),
            Some(" commission/lot="@),
            price_text(rules.commission_per_lot@, 2),
            Some(" (per trade avg="@),
            price_text(f.avg_friction, 2),
            Some(")"@),
        ],
    )
}

/// The summary down to the counts of won, lost and timed-out trades.
pub open spec fn summary_head(h: Subject, rules: Rules, a: Tally, f: Figures) -> Seq<
    Option<Seq<char>>,
> {
    seq![
        ruler(),
        subject_line(h),
        friction_line(h, rules, f),
        ruler(),
        labelled("Killzone filter: "@, Some(killzone_text(rules.killzone_windows@))),
        labelled("Skipped (KZ)   : "@, Some(nat_text(a.skipped_kz))),
        ruler(),
        labelled("Trades         : "@, Some(nat_text(a.trades))),
        shared("Win            : "@, a.wins, h.win_pct),
        shared("Loss           : "@, a.losses, h.loss_pct),
        shared("Timeout        : "@, a.timeouts, h.timeout_pct),
    ]
}

/// The line of the exits at a moved stop, where there were any or the rules
/// provide for them.
pub open spec fn summary_moved_stops(rules: Rules, a: Tally) -> Seq<Option<Seq<char>>> {
    if a.be_sl_exits > 0 || rules.breakeven_sl_1r {
        seq![labelled("BE-SL exits    : "@, Some(nat_text(a.be_sl_exits)))]
    } else {
        seq![]
    }
}

/// The rest of the summary.
pub open spec fn summary_tail(a: Tally, f: Figures) -> Seq<Option<Seq<char>>> {
    seq![
        labelled("Missed fills   : "@, Some(nat_text(a.missed_fills))),
        labelled("Max consec loss: "@, Some(nat_text(a.max_consec_loss))),
        ruler(),
        labelled("Avg win        : +"@, price_text(f.avg_win, 2)),
        labelled("Avg loss       : -"@, price_text(f.avg_loss, 2)),
        labelled("Expectancy     : "@, pnl_text(f.expectancy)),
        labelled("Profit factor  : "@, price_text(f.profit_factor, 2)),
        labelled("Total friction : "@, pnl_text(a.total_friction.negated())),
        ruler(),
        labelled("Total PnL      : "@, pnl_text(a.total_pnl)),
        labelled("Max Drawdown   : "@, price_text(a.max_drawdown, 2)),
        glued(seq![Some("Return         : "@), price_text(f.return_pct, 1), Some("%"@)]),
        labelled("Final Balance  : "@, price_text(a.balance, 2)),
        ruler(),
    ]
}

/// The lines of the summary, where all their numbers can be written.
pub open spec fn summary_text(h: Subject, rules: Rules, a: Tally, f: Figures) -> Option<
    Seq<Seq<char>>,
> {
    gathered(summary_head(h, rules, a, f) + summary_moved_stops(rules, a) + summary_tail(a, f))
}

fn ruler_line() -> (res: Option<String>)
    ensures
        text_view(res) == ruler(),
{
    lit("─────────────────────────────────────────")
}

fn labelled_line(label: &str, value: Option<String>) -> (res: Option<String>)
    ensures
        text_view(res) == labelled(label@, text_view(value)),
{
    let parts: Vec<Option<String>> = vec![lit(label), value];
    assert(text_views(parts@) =~= seq![Some(label@), text_view(value)]);
    glue(parts)
}

fn count_line(label: &str, n: u32) -> (res: Option<String>)
    ensures
        text_view(res) == labelled(label@, Some(nat_text(n as nat))),
{
    labelled_line(label, count(n as u64))
}

fn shared_line(label: &str, n: u32, percent: &str) -> (res: Option<String>)
    ensures
        text_view(res) == shared(label@, n as nat, percent@),
{
    let parts: Vec<Option<String>> = vec![
        lit(label),
        count(n as u64),
        lit("  ("),
        lit(percent),
        lit("%)"),
    ];
    assert(text_views(parts@) =~= seq![
        Some(label@),
        Some(nat_text(n as nat)),
        Some("  ("@),
        Some(percent@),
        Some("%)"@),
    ]);
    glue(parts)
}

fn heading_line(h: &Heading) -> (res: Option<String>)
    ensures
        text_view(res) == subject_line(h@),
{
    let parts: Vec<Option<String>> = vec![
        lit("Backtest: "),
        lit(h.symbol.as_str()),
        lit(" "),
        lit(h.tf_short.as_str()),
        lit(" | "),
        count(h.total as u64),
        lit(" candles"),
    ];
    assert(text_views(parts@) =~= seq![
        Some("Backtest: "@),
        Some(h@.symbol),
        Some(" "@),
        Some(h@.tf),
        Some(" | "@),
        Some(nat_text(h@.total)),
        Some(" candles"@),
    ]);
    glue(parts)
}

fn costs_line(h: &Heading, rules: &Rules, m: &Metrics) -> (res: Option<String>)
    ensures
        text_view(res) == friction_line(h@, *rules, m@),
{
    let parts: Vec<Option<String>> = vec![
        lit("Friction: spread="),
        fmt_price(rules.spread_price, h.prec),
        lit(" slippage="),
        fmt_price(rules.slippage_price, h.prec),
        lit(" commission/lot="),
        fmt_price(rules.commission_per_lot, 2),
        lit(" (per trade avg="),
        fmt_price(m.avg_friction, 2),
        lit(")"),
    ];
    assert(text_views(parts@) =~= seq![
        Some("Friction: spread="@),
        price_text(rules.spread_price@, h@.prec),
        Some(" slippage="@),
        price_text(rules.slippage_price@, h@.prec),
        Some(" commission/lot="@),
        price_text(rules.commission_per_lot@, 2),
        Some(" (per trade avg="@),
        price_text(m@.avg_friction, 2),
        Some(")"@),
    ]);
    glue(parts)
}

fn return_line(m: &Metrics) -> (res: Option<String>)
    ensures
        text_view(res) == glued(
            seq![Some("Return         : "@), price_text(m@.return_pct, 1), Some("%"@)],
        ),
{
    let parts: Vec<Option<String>> = vec![
        lit("Return         : "),
        fmt_price(m.return_pct, 1),
        lit("%"),
    ];
    assert(text_views(parts@) =~= seq![
        Some("Return         : "@),
        price_text(m@.return_pct, 1),
        Some("%"@),
    ]);
    glue(parts)
}

fn head_lines(h: &Heading, rules: &Rules, ledger: &Ledger, m: &Metrics) -> (res: Vec<Option<String>>)
    ensures
        text_views(res@) == summary_head(h@, *rules, ledger@, m@),
{
    let lines: Vec<Option<String>> = vec![
        ruler_line(),
        heading_line(h),
        costs_line(h, rules, m),
        ruler_line(),
        labelled_line("Killzone filter: ", Some(killzone_label(rules.killzone_windows.as_slice()))),
        count_line("Skipped (KZ)   : ", ledger.skipped_kz),
        ruler_line(),
        count_line("Trades         : ", ledger.trades),
        shared_line("Win            : ", ledger.wins, h.win_pct.as_str()),
        shared_line("Loss           : ", ledger.losses, h.loss_pct.as_str()),
        shared_line("Timeout        : ", ledger.timeouts, h.timeout_pct.as_str()),
    ];
    assert(text_views(lines@) =~= summary_head(h@, *rules, ledger@, m@));
    lines
}

fn tail_lines(ledger: &Ledger, m: &Metrics) -> (res: Vec<Option<String>>)
    ensures
        text_views(res@) == summary_tail(ledger@, m@),
{
    let lines: Vec<Option<String>> = vec![
        count_line("Missed fills   : ", ledger.missed_fills),
        count_line("Max consec loss: ", ledger.max_consec_loss),
        ruler_line(),
        labelled_line("Avg win        : +", fmt_price(m.avg_win, 2)),
        labelled_line("Avg loss       : -", fmt_price(m.avg_loss, 2)),
        labelled_line("Expectancy     : ", fmt_pnl(m.expectancy)),
        labelled_line("Profit factor  : ", fmt_price(m.profit_factor, 2)),
        labelled_line("Total friction : ", fmt_pnl(ledger.total_friction.negated())),
        ruler_line(),
        labelled_line("Total PnL      : ", fmt_pnl(ledger.total_pnl)),
        labelled_line("Max Drawdown   : ", fmt_price(ledger.max_drawdown, 2)),
        return_line(m),
        labelled_line("Final Balance  : ", fmt_price(ledger.balance, 2)),
        ruler_line(),
    ];
    assert(text_views(lines@) =~= summary_tail(ledger@, m@));
    lines
}

/// The lines of the summary; `None` where a number is too long to be written.
pub fn summary(h: &Heading, rules: &Rules, ledger: &Ledger, m: &Metrics) -> (res: Option<Vec<String>>)
    ensures
        match res {
            Some(lines) => summary_text(h@, *rules, ledger@, m@) == Some(strings(lines@)),
            None => summary_text(h@, *rules, ledger@, m@) is None,
        },
{
    let mut lines = head_lines(h, rules, ledger, m);
    let ghost head = lines@;
    if ledger.be_sl_exits > 0 || rules.breakeven_sl_1r {
        lines.push(count_line("BE-SL exits    : ", ledger.be_sl_exits));
    }
    assert(text_views(lines@) =~= text_views(head) + summary_moved_stops(*rules, ledger@));
    let ghost upper = lines@;
    let mut tail = tail_lines(ledger, m);
    let ghost lower = tail@;
    lines.append(&mut tail);
    assert(text_views(lines@) =~= text_views(upper) + text_views(lower));
    gather(lines)
}

/// Parts are joined in their order, and the whole is missing where any of them
/// is.
pub proof fn law_parts_are_joined_in_order(a: Seq<Option<Seq<char>>>, b: Seq<Option<Seq<char>>>)
    ensures
        glued(a + b) == match (glued(a), glued(b)) {
            (Some(x), Some(y)) => Some(x + y),
            _ => None,
        },
        a.len() == 1 ==> glued(a) == a[0],
    decreases b.len(),
{
    if b.len() == 0 {
        assert(a + b =~= a);
        if let Some(x) = glued(a) {
            assert(x + Seq::<char>::empty() =~= x);
        }
    } else {
        let front = b.drop_last();
        assert((a + b).drop_last() =~= a + front);
        law_parts_are_joined_in_order(a, front);
        if let (Some(x), Some(y), Some(z)) = (glued(a), glued(front), b.last()) {
            assert((x + y) + z =~= x + (y + z));
        }
    }
    if a.len() == 1 {
        assert(a.drop_last() =~= Seq::<Option<Seq<char>>>::empty());
        assert(glued(a.drop_last()) == Some(Seq::<char>::empty()));
        if let Some(x) = a[0] {
            assert(Seq::<char>::empty() + x =~= x);
        }
    }
}

/// Lines are gathered in their order, one for each, and all are missing where any
/// of them is.
pub proof fn law_lines_are_gathered_in_order(lines: Seq<Option<Seq<char>>>)
    ensures
        gathered(lines) matches Some(v) ==> v.len() == lines.len() && forall|i: int|
            0 <= i < lines.len() ==> #[trigger] lines[i] == Some(v[i]),
        gathered(lines) is None ==> exists|i: int|
            0 <= i < lines.len() && (#[trigger] lines[i]) is None,
    decreases lines.len(),
{
    if lines.len() > 0 {
        let front = lines.drop_last();
        law_lines_are_gathered_in_order(front);
        if let Some(v) = gathered(lines) {
            let w = gathered(front)->0;
            assert forall|i: int| 0 <= i < lines.len() implies #[trigger] lines[i] == Some(v[i])
                by {
                if i < front.len() {
                    assert(front[i] == lines[i]);
                    assert(v[i] == w[i]);
                }
            }
        } else if gathered(front) is None {
            let i = choose|i: int| 0 <= i < front.len() && (#[trigger] front[i]) is None;
            assert(lines[i] is None);
        } else {
            assert(lines[lines.len() - 1] is None);
        }
    }
}

/// An amount of money has a plus sign in front exactly where it is not below
/// zero; what follows it, or all of an amount below zero, is the number with two
/// digits after the point.
pub proof fn law_amounts_have_a_plus_sign_unless_negative(n: Number)
    ensures
        pnl_text(n) is Some <==> price_text(n, 2) is Some,
        price_text(n, 2) matches Some(t) ==> pnl_text(n) == Some(
            if less(n, zero_number()) {
                t
            } else {
                seq!['+'] + t
            },
        ),
{
}

/// The exits at a moved stop have a line in the summary exactly where there were
/// any or the rules provide for them; all other lines are always there.
pub proof fn law_moved_stops_have_a_line_of_their_own(
    h: Subject,
    rules: Rules,
    a: Tally,
    f: Figures,
)
    ensures
        summary_text(h, rules, a, f) matches Some(lines) ==> lines.len() == (if a.be_sl_exits > 0
            || rules.breakeven_sl_1r {
            26int
        } else {
            25
        }),
{
    law_lines_are_gathered_in_order(
        summary_head(h, rules, a, f) + summary_moved_stops(rules, a) + summary_tail(a, f),
    );
}

} // verus!
