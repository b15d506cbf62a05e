//! The hours in which entries are looked for: reading them, applying them, and
//! writing them back.

use vstd::prelude::*;
use vstd::string::*;

use crate::failure::{fault, Failure, Fault};
use crate::text::{chars_of, find, parse_unsigned, part, split_on, text_of, trim, two_digit_text};
use crate::text::{digit_char, first_of, parsed_unsigned, spellings, split, trimmed, two_digits, white_space};
use crate::text::{lemma_first_of_absent, lemma_first_of_at, lemma_nothing_to_trim};
use crate::text::{lemma_space_is_trimmed, lemma_split_one_more};
use crate::text::{lemma_two_digits, lemma_two_digits_read_back};
use crate::time::{Instant, TimePoint};

verus! {

/// A single killzone window as [start_min, end_min) in minutes from midnight.
/// Times are in broker server-time (the same timezone that candles come in).
#[derive(Debug, Clone, Copy, PartialEq, Eq, Structural)]
pub struct KillzoneWindow {
    pub start_min: u32,
    pub end_min: u32,
}

impl KillzoneWindow {
    /// Not empty, and within a day.
    pub open spec fn valid(self) -> bool {
        self.start_min < self.end_min < 24 * 60
    }

    /// The minute of the day lies inside; the end is exclusive.
    pub open spec fn holds(self, minute: int) -> bool {
        self.start_min <= minute < self.end_min
    }
}

/// The minutes from midnight that `HH:MM` writes, or what is wrong with it.
#[verifier::opaque]
pub open spec fn minutes_of(s: Seq<char>) -> Result<nat, Fault> {
    let i = first_of(s, ':') as int;
    let hour = parsed_unsigned(s.take(i), u32::MAX as nat);
    let minute = parsed_unsigned(s.skip(i + 1), u32::MAX as nat);
    if i >= s.len() {
        Err(fault("expected HH:MM, got '"@ + s + "'"@))
    } else if hour is None {
        Err(fault("bad hour in '"@ + s + "'"@))
    } else if minute is None {
        Err(fault("bad minute in '"@ + s + "'"@))
    } else if hour->0 > 23 {
        Err(fault("hour > 23 in '"@ + s + "'"@))
    } else if minute->0 > 59 {
        Err(fault("minute > 59 in '"@ + s + "'"@))
    } else {
        Ok(hour->0 * 60 + minute->0)
    }
}

/// The window that `HH:MM-HH:MM` writes, or what is wrong with it.
#[verifier::opaque]
pub open spec fn window_of(token: Seq<char>) -> Result<KillzoneWindow, Fault> {
    let i = first_of(token, '-') as int;
    if i >= token.len() {
        Err(fault("invalid killzone window '"@ + token + "': expected HH:MM-HH:MM"@))
    } else {
        match minutes_of(trimmed(token.take(i))) {
            Err(e) => Err(e),
            Ok(start) => match minutes_of(trimmed(token.skip(i + 1))) {
                Err(e) => Err(e),
                Ok(end) => if start >= end {
                    Err(fault("killzone window '"@ + token + "': start must be before end"@))
                } else {
                    Ok(KillzoneWindow { start_min: start as u32, end_min: end as u32 })
                },
            },
        }
    }
}

/// The windows that a list of tokens writes, blank ones left out, or what is
/// wrong with the first bad one.
pub open spec fn windows_of(tokens: Seq<Seq<char>>) -> Result<Seq<KillzoneWindow>, Fault>
    decreases tokens.len(),
{
    if tokens.len() == 0 {
        Ok(seq![])
    } else {
        let token = trimmed(tokens[0]);
        let rest = windows_of(tokens.drop_first());
        if token.len() == 0 {
            rest
        } else {
            match window_of(token) {
                Err(e) => Err(e),
                Ok(w) => followed_by(seq![w], rest),
            }
        }
    }
}

/// `first` in front of the windows of `rest`, where there are any.
pub open spec fn followed_by(
    first: Seq<KillzoneWindow>,
    rest: Result<Seq<KillzoneWindow>, Fault>,
) -> Result<Seq<KillzoneWindow>, Fault> {
    match rest {
        Ok(ws) => Ok(first + ws),
        Err(e) => Err(e),
    }
}

/// The windows that a comma-separated list writes; none for a blank text.
pub open spec fn parsed_windows(s: Seq<char>) -> Result<Seq<KillzoneWindow>, Fault> {
    if trimmed(s).len() == 0 {
        Ok(seq![])
    } else {
        windows_of(split(s, ','))
    }
}

/// The minute of the day of an instant.
pub open spec fn minute_of_day(t: TimePoint) -> int {
    t.hour() * 60 + t.minute()
}

/// Without windows every instant passes; with windows, one that lies in any of
/// them.
pub open spec fn passes(t: TimePoint, windows: Seq<KillzoneWindow>) -> bool {
    windows.len() == 0 || exists|i: int|
        0 <= i < windows.len() && (#[trigger] windows[i]).holds(minute_of_day(t))
}

/// A failure that quotes `s`.
fn quoting(before: &str, s: &Vec<char>, after: &str) -> (res: Failure)
    ensures
        res@ == fault(before@ + s@ + after@),
{
    let mut message = before.to_owned();
    message.append(text_of(s).as_str());
    message.append(after);
    Failure { message, cause: None }
}

/// Parses `KILLZONE_WINDOWS="HH:MM-HH:MM,HH:MM-HH:MM"` into windows.
/// A blank text means no filter (every candle passes).
pub fn parse_killzone_windows(s: &str) -> (res: Result<Vec<KillzoneWindow>, Failure>)
    ensures
        match res {
            Ok(w) => parsed_windows(s@) == Ok::<Seq<KillzoneWindow>, Fault>(w@),
            Err(e) => parsed_windows(s@) == Err::<Seq<KillzoneWindow>, Fault>(e@),
        },
{
    let chars = chars_of(s);
    let mut result: Vec<KillzoneWindow> = Vec::new();
    if trim(&chars).len() == 0 {
        assert(result@ =~= seq![]);
        return Ok(result);
    }
    let tokens = split_on(&chars, ',');
    let ghost all = spellings(tokens@);
    let mut i: usize = 0;
    proof {
        assert(all.skip(0) =~= all);
        lemma_followed_by(result@, windows_of(all));
    }
    while i < tokens.len()
        invariant
            i <= tokens.len(),
            all == spellings(tokens@),
            parsed_windows(s@) == followed_by(result@, windows_of(all.skip(i as int))),
        decreases tokens.len() - i,
    {
        let ghost rest = windows_of(all.skip(i + 1));
        assert(all.skip(i as int).drop_first() =~= all.skip(i + 1));
        assert(all.skip(i as int)[0] == tokens@[i as int]@);
        let token = trim(&tokens[i]);
        i += 1;
        if token.len() > 0 {
            let window = match parse_window(&token) {
                Ok(window) => window,
                Err(e) => return Err(e),
            };
            proof {
                lemma_followed_by_twice(result@, window, rest);
            }
            result.push(window);
        }
    }
    assert(all.skip(i as int) =~= seq![]);
    assert(result@ + Seq::<KillzoneWindow>::empty() =~= result@);
    Ok(result)
}

proof fn lemma_followed_by(first: Seq<KillzoneWindow>, rest: Result<Seq<KillzoneWindow>, Fault>)
    requires
        first.len() == 0,
    ensures
        followed_by(first, rest) == rest,
{
    if let Ok(ws) = rest {
        assert(first + ws =~= ws);
    }
}

proof fn lemma_followed_by_twice(
    first: Seq<KillzoneWindow>,
    w: KillzoneWindow,
    rest: Result<Seq<KillzoneWindow>, Fault>,
)
    ensures
        followed_by(first, followed_by(seq![w], rest)) == followed_by(first.push(w), rest),
{
    if let Ok(ws) = rest {
        assert(first + (seq![w] + ws) =~= first.push(w) + ws);
    }
}

/// Parses one trimmed `HH:MM-HH:MM`.
fn parse_window(token: &Vec<char>) -> (res: Result<KillzoneWindow, Failure>)
    ensures
        match res {
            Ok(w) => window_of(token@) == Ok::<KillzoneWindow, Fault>(w),
            Err(e) => window_of(token@) == Err::<KillzoneWindow, Fault>(e@),
        },
{
    proof {
        reveal(window_of);
    }
    let dash: usize = find(token, '-');
    if dash >= token.len() {
        return Err(quoting("invalid killzone window '", token, "': expected HH:MM-HH:MM"));
    }
    let a = part(token, 0, dash);
    let b = part(token, dash + 1, token.len());
    assert(a@ =~= token@.take(dash as int));
    assert(b@ =~= token@.skip(dash + 1));
    let start_min = parse_minutes(&trim(&a))?;
    let end_min = parse_minutes(&trim(&b))?;
    if start_min >= end_min {
        return Err(quoting("killzone window '", token, "': start must be before end"));
    }
    Ok(KillzoneWindow { start_min, end_min })
}

/// Parses `HH:MM` into minutes from midnight.
pub fn parse_hhmm(s: &str) -> (res: Result<u32, Failure>)
    ensures
        match res {
            Ok(m) => minutes_of(s@) == Ok::<nat, Fault>(m as nat),
            Err(e) => minutes_of(s@) == Err::<nat, Fault>(e@),
        },
{
    parse_minutes(&chars_of(s))
}

fn parse_minutes(s: &Vec<char>) -> (res: Result<u32, Failure>)
    ensures
        match res {
            Ok(m) => minutes_of(s@) == Ok::<nat, Fault>(m as nat),
            Err(e) => minutes_of(s@) == Err::<nat, Fault>(e@),
        },
{
    proof {
        reveal(minutes_of);
    }
    let colon: usize = find(s, ':');
    if colon >= s.len() {
        return Err(quoting("expected HH:MM, got '", s, "'"));
    }
    let hh = part(s, 0, colon);
    let mm = part(s, colon + 1, s.len());
    assert(hh@ =~= s@.take(colon as int));
    assert(mm@ =~= s@.skip(colon + 1));
    let h = match parse_unsigned(&hh, u32::MAX as u64) {
        Ok(h) => h,
        Err(_) => return Err(quoting("bad hour in '", s, "'")),
    };
    let m = match parse_unsigned(&mm, u32::MAX as u64) {
        Ok(m) => m,
        Err(_) => return Err(quoting("bad minute in '", s, "'")),
    };
    if h > 23 {
        return Err(quoting("hour > 23 in '", s, "'"));
    }
    if m > 59 {
        return Err(quoting("minute > 59 in '", s, "'"));
    }
    Ok((h * 60 + m) as u32)
}

/// Returns true if `t` falls inside any configured killzone window.
/// If no windows are configured, returns true (no filter = every candle passes).
///
/// `t` holds broker server-time values, so windows are configured in broker
/// server-time, not UTC.
pub fn in_killzone(t: &Instant, windows: &[KillzoneWindow]) -> (res: bool)
    ensures
        res == passes(t@, windows@),
{
    if windows.len() == 0 {
        return true;
    }
    let minutes: u32 = t.hour() * 60 + t.minute();
    let mut i: usize = 0;
    while i < windows.len()
        invariant
            i <= windows.len(),
            minutes == minute_of_day(t@),
            forall|j: int| 0 <= j < i ==> !(#[trigger] windows@[j]).holds(minutes as int),
        decreases windows.len() - i,
    {
        if minutes >= windows[i].start_min && minutes < windows[i].end_min {
            assert(windows@[i as int].holds(minutes as int));
            return true;
        }
        i += 1;
    }
    false
}

/// A time of day that was read lies within a day.
proof fn lemma_minutes_within_a_day(s: Seq<char>)
    ensures
        minutes_of(s) matches Ok(m) ==> m < 24 * 60,
{
    reveal(minutes_of);
}

/// Every window that was read is valid: it starts before it ends, within a day.
pub proof fn law_parsed_windows_are_valid(tokens: Seq<Seq<char>>)
    ensures
        windows_of(tokens) matches Ok(ws) ==> forall|i: int|
            0 <= i < ws.len() ==> (#[trigger] ws[i]).valid(),
    decreases tokens.len(),
{
    reveal(window_of);
    if tokens.len() > 0 {
        law_parsed_windows_are_valid(tokens.drop_first());
        let token = trimmed(tokens[0]);
        let i = first_of(token, '-') as int;
        lemma_minutes_within_a_day(trimmed(token.take(i)));
        lemma_minutes_within_a_day(trimmed(token.skip(i + 1)));
    }
}

/// A blank list of windows filters nothing.
pub proof fn law_blank_windows_pass_everything(s: Seq<char>, t: TimePoint)
    requires
        trimmed(s).len() == 0,
    ensures
        parsed_windows(s) matches Ok(ws) && passes(t, ws),
{
}

/// Several windows let pass what any of them lets pass.
pub proof fn law_windows_are_a_union(t: TimePoint, a: Seq<KillzoneWindow>, b: Seq<KillzoneWindow>)
    requires
        a.len() > 0,
        b.len() > 0,
    ensures
        passes(t, a + b) <==> passes(t, a) || passes(t, b),
{
    let m = minute_of_day(t);
    let ab = a + b;
    if passes(t, a) {
        let i = choose|i: int| 0 <= i < a.len() && (#[trigger] a[i]).holds(m);
        assert(ab[i].holds(m));
    }
    if passes(t, b) {
        let i = choose|i: int| 0 <= i < b.len() && (#[trigger] b[i]).holds(m);
        assert(ab[a.len() + i].holds(m));
    }
    if passes(t, ab) {
        let i = choose|i: int| 0 <= i < ab.len() && (#[trigger] ab[i]).holds(m);
        if i < a.len() {
            assert(a[i].holds(m));
        } else {
            assert(b[i - a.len()].holds(m));
        }
    }
}

/// A killzone window as `HH:MM-HH:MM`.
pub open spec fn window_text(w: KillzoneWindow) -> Seq<char> {
    two_digits((w.start_min / 60) as nat) + ":"@ + two_digits((w.start_min % 60) as nat) + "-"@
        + two_digits((w.end_min / 60) as nat) + ":"@ + two_digits((w.end_min % 60) as nat)
}

/// Killzone windows with commas between them.
pub open spec fn windows_text(windows: Seq<KillzoneWindow>) -> Seq<char>
    decreases windows.len(),
{
    if windows.len() == 0 {
        Seq::<char>::empty()
    } else if windows.len() == 1 {
        window_text(windows[0])
    } else {
        windows_text(windows.drop_last()) + ", "@ + window_text(windows.last())
    }
}

/// What the killzone filter lets pass.
pub open spec fn killzone_text(windows: Seq<KillzoneWindow>) -> Seq<char> {
    if windows.len() == 0 {
        "all hours (no filter)"@
    } else {
        windows_text(windows)
    }
}

fn window_label(w: &KillzoneWindow) -> (res: String)
    ensures
        res@ == window_text(*w),
{
    let mut out = two_digit_text((w.start_min / 60) as u64);
    out.append(":");
    out.append(two_digit_text((w.start_min % 60) as u64).as_str());
    out.append("-");
    out.append(two_digit_text((w.end_min / 60) as u64).as_str());
    out.append(":");
    out.append(two_digit_text((w.end_min % 60) as u64).as_str());
    out
}

/// What the killzone filter lets pass.
pub fn killzone_label(windows: &[KillzoneWindow]) -> (res: String)
    ensures
        res@ == killzone_text(windows@),
{
    if windows.len() == 0 {
        return "all hours (no filter)".to_owned();
    }
    let mut out = window_label(&windows[0]);
    let mut i: usize = 1;
    while i < windows.len()
        invariant
            1 <= i <= windows.len(),
            out@ == windows_text(windows@.take(i as int)),
        decreases windows.len() - i,
    {
        assert(windows@.take(i + 1).drop_last() =~= windows@.take(i as int));
        out.append(", ");
        out.append(window_label(&windows[i]).as_str());
        i += 1;
    }
    assert(windows@.take(i as int) =~= windows@);
    out
}

/// A time of day as `HH:MM`.
spec fn time_text(m: nat) -> Seq<char> {
    two_digits(m / 60) + seq![':'] + two_digits(m % 60)
}

/// A time of day has five characters, a colon among digits.
proof fn lemma_time_text(m: nat)
    requires
        m < 24 * 60,
    ensures
        time_text(m).len() == 5,
        time_text(m)[2] == ':',
        forall|i: int|
            0 <= i < 5 ==> (#[trigger] time_text(m)[i]) != ',' && time_text(m)[i] != '-'
                && !white_space(time_text(m)[i]),
        time_text(m).take(2) == two_digits(m / 60),
        time_text(m).skip(3) == two_digits(m % 60),
        time_text(m)[0] != ':' && time_text(m)[1] != ':',
{
    lemma_two_digits(m / 60);
    lemma_two_digits(m % 60);
    assert(time_text(m).take(2) =~= two_digits(m / 60));
    assert(time_text(m).skip(3) =~= two_digits(m % 60));
}

/// A time of day is read back.
proof fn lemma_time_reads_back(m: nat)
    requires
        m < 24 * 60,
    ensures
        trimmed(time_text(m)) == time_text(m),
        minutes_of(time_text(m)) == Ok::<nat, Fault>(m),
{
    reveal(minutes_of);
    let s = time_text(m);
    lemma_time_text(m);
    lemma_nothing_to_trim(s);
    lemma_first_of_at(s, ':', 2);
    lemma_two_digits_read_back(m / 60, u32::MAX as nat);
    lemma_two_digits_read_back(m % 60, u32::MAX as nat);
}

/// A window is two times of day with a dash between them.
proof fn lemma_window_text(w: KillzoneWindow)
    requires
        w.valid(),
    ensures
        window_text(w) == time_text(w.start_min as nat) + seq!['-'] + time_text(w.end_min as nat),
        window_text(w).len() == 11,
        forall|i: int|
            0 <= i < 11 ==> (#[trigger] window_text(w)[i]) != ',' && !white_space(
                window_text(w)[i],
            ),
{
    let (a, b) = (time_text(w.start_min as nat), time_text(w.end_min as nat));
    lemma_time_text(w.start_min as nat);
    lemma_time_text(w.end_min as nat);
    reveal_strlit(":");
    reveal_strlit("-");
    assert(":"@ =~= seq![':']);
    assert("-"@ =~= seq!['-']);
    let s = a + seq!['-'] + b;
    assert(window_text(w) =~= s);
    assert forall|i: int| 0 <= i < 11 implies (#[trigger] s[i]) != ',' && !white_space(s[i]) by {
        if i < 5 {
            assert(s[i] == a[i]);
        } else if i > 5 {
            assert(s[i] == b[i - 6]);
        }
    }
}

/// A valid window is read back.
proof fn lemma_window_reads_back(w: KillzoneWindow)
    requires
        w.valid(),
    ensures
        window_of(window_text(w)) == Ok::<KillzoneWindow, Fault>(w),
{
    reveal(window_of);
    let (a, b) = (time_text(w.start_min as nat), time_text(w.end_min as nat));
    let s = window_text(w);
    lemma_window_text(w);
    lemma_time_text(w.start_min as nat);
    lemma_time_reads_back(w.start_min as nat);
    lemma_time_reads_back(w.end_min as nat);
    assert(s.take(5) =~= a);
    assert(s.skip(6) =~= b);
    assert forall|i: int| 0 <= i < 5 implies s[i] != '-' by {
        assert(s[i] == a[i]);
    }
    lemma_first_of_at(s, '-', 5);
}

/// A window, and a window after a blank, have nothing else to trim.
proof fn lemma_window_trims(w: KillzoneWindow)
    requires
        w.valid(),
    ensures
        trimmed(window_text(w)) == window_text(w),
        trimmed(seq![' '] + window_text(w)) == window_text(w),
{
    lemma_window_text(w);
    lemma_nothing_to_trim(window_text(w));
    lemma_space_is_trimmed(window_text(w));
}

/// One more token gives one more window.
proof fn lemma_one_more_window(tokens: Seq<Seq<char>>, token: Seq<char>, w: KillzoneWindow)
    requires
        windows_of(tokens) is Ok,
        trimmed(token).len() > 0,
        window_of(trimmed(token)) == Ok::<KillzoneWindow, Fault>(w),
    ensures
        windows_of(tokens.push(token)) == Ok::<Seq<KillzoneWindow>, Fault>(
            windows_of(tokens)->Ok_0.push(w),
        ),
    decreases tokens.len(),
{
    let more = tokens.push(token);
    if tokens.len() == 0 {
        assert(more.drop_first() =~= Seq::<Seq<char>>::empty());
        assert(seq![w] + Seq::<KillzoneWindow>::empty() =~= Seq::<KillzoneWindow>::empty().push(w));
    } else {
        assert(more.drop_first() =~= tokens.drop_first().push(token));
        lemma_one_more_window(tokens.drop_first(), token, w);
        let rest = windows_of(tokens.drop_first())->Ok_0;
        if trimmed(tokens[0]).len() > 0 {
            let first = window_of(trimmed(tokens[0]))->Ok_0;
            assert(seq![first] + rest.push(w) =~= (seq![first] + rest).push(w));
        }
    }
}

/// A single window is one token.
proof fn lemma_one_window(w: KillzoneWindow)
    requires
        w.valid(),
    ensures
        windows_of(split(window_text(w), ',')) == Ok::<Seq<KillzoneWindow>, Fault>(seq![w]),
{
    let s = window_text(w);
    lemma_window_text(w);
    lemma_window_trims(w);
    lemma_window_reads_back(w);
    lemma_first_of_absent(s, ',');
    let none = Seq::<Seq<char>>::empty();
    lemma_one_more_window(none, s, w);
    assert(split(s, ',') =~= none.push(s));
    assert(Seq::<KillzoneWindow>::empty().push(w) =~= seq![w]);
}

/// Text after a comma that holds a window is one token more.
proof fn lemma_window_after_a_comma(x: Seq<char>, y: Seq<char>, w: KillzoneWindow)
    requires
        w.valid(),
        windows_of(split(x, ',')) is Ok,
        trimmed(y) == window_text(w),
        forall|i: int| 0 <= i < y.len() ==> y[i] != ',',
    ensures
        windows_of(split(x.push(',') + y, ',')) == Ok::<Seq<KillzoneWindow>, Fault>(
            windows_of(split(x, ','))->Ok_0.push(w),
        ),
{
    lemma_window_text(w);
    lemma_window_reads_back(w);
    lemma_split_one_more(x, ',', y);
    lemma_one_more_window(split(x, ','), y, w);
}

/// Written windows are read back.
proof fn lemma_windows_read_back(windows: Seq<KillzoneWindow>)
    requires
        windows.len() > 0,
        forall|i: int| 0 <= i < windows.len() ==> (#[trigger] windows[i]).valid(),
    ensures
        windows_of(split(windows_text(windows), ',')) == Ok::<Seq<KillzoneWindow>, Fault>(windows),
    decreases windows.len(),
{
    let w = windows.last();
    if windows.len() == 1 {
        lemma_one_window(w);
        assert(seq![w] =~= windows);
    } else {
        let front = windows.drop_last();
        let x = windows_text(front);
        lemma_windows_read_back(front);
        reveal_strlit(", ");
        assert(", "@ =~= seq![',', ' ']);
        let s = window_text(w);
        let y = seq![' '] + s;
        assert(x + ", "@ + s =~= x.push(',') + y);
        lemma_window_text(w);
        lemma_window_trims(w);
        assert forall|i: int| 0 <= i < y.len() implies y[i] != ',' by {
            if i > 0 {
                assert(y[i] == s[i - 1]);
            }
        }
        lemma_window_after_a_comma(x, y, w);
        assert(front.push(w) =~= windows);
    }
}

/// Written windows neither begin nor end with a blank.
proof fn lemma_windows_trim(windows: Seq<KillzoneWindow>)
    requires
        windows.len() > 0,
        forall|i: int| 0 <= i < windows.len() ==> (#[trigger] windows[i]).valid(),
    ensures
        windows_text(windows).len() > 0,
        !white_space(windows_text(windows)[0]),
        !white_space(windows_text(windows).last()),
    decreases windows.len(),
{
    let w = windows.last();
    lemma_window_text(w);
    assert(window_text(w)[10] == window_text(w).last());
    if windows.len() > 1 {
        let x = windows_text(windows.drop_last());
        lemma_windows_trim(windows.drop_last());
        let s = x + ", "@ + window_text(w);
        assert(s[0] == x[0]);
        assert(s.last() == window_text(w).last());
    }
}

/// What the killzone label writes of valid windows is read back as the same
/// windows.
pub proof fn law_killzone_label_reads_back(windows: Seq<KillzoneWindow>)
    requires
        windows.len() > 0,
        forall|i: int| 0 <= i < windows.len() ==> (#[trigger] windows[i]).valid(),
    ensures
        parsed_windows(killzone_text(windows)) == Ok::<Seq<KillzoneWindow>, Fault>(windows),
{
    lemma_windows_read_back(windows);
    lemma_windows_trim(windows);
    lemma_nothing_to_trim(windows_text(windows));
}

/// Two windows with a comma between them are read.
proof fn lemma_two_windows(a: KillzoneWindow, b: KillzoneWindow)
    requires
        a.valid(),
        b.valid(),
    ensures
        parsed_windows(window_text(a).push(',') + window_text(b)) == Ok::<
            Seq<KillzoneWindow>,
            Fault,
        >(seq![a, b]),
{
    let (x, y) = (window_text(a), window_text(b));
    let s = x.push(',') + y;
    lemma_one_window(a);
    lemma_window_text(b);
    lemma_window_trims(b);
    lemma_window_after_a_comma(x, y, b);
    assert(seq![a].push(b) =~= seq![a, b]);
    assert(trimmed(s) == s) by {
        lemma_window_text(a);
        lemma_window_text(b);
        assert(s[0] == x[0] && s.last() == y[10]);
        lemma_nothing_to_trim(s);
    }
}

/// The characters of a time of day.
proof fn lemma_time_characters(m: nat)
    requires
        m < 24 * 60,
    ensures
        time_text(m) == seq![
            digit_char((m / 60) / 10),
            digit_char((m / 60) % 10),
            ':',
            digit_char((m % 60) / 10),
            digit_char((m % 60) % 10),
        ],
{
    lemma_two_digits(m / 60);
    lemma_two_digits(m % 60);
    assert(time_text(m) =~= seq![
        digit_char((m / 60) / 10),
        digit_char((m / 60) % 10),
        ':',
        digit_char((m % 60) / 10),
        digit_char((m % 60) % 10),
    ]);
}

/// The London and New York sessions, as they are written.
pub proof fn lemma_session_windows()
    ensures
        parsed_windows("08:00-13:00,15:00-18:00"@) == Ok::<Seq<KillzoneWindow>, Fault>(
            seq![
                KillzoneWindow { start_min: 480, end_min: 780 },
                KillzoneWindow { start_min: 900, end_min: 1080 },
            ],
        ),
{
    let a = KillzoneWindow { start_min: 480, end_min: 780 };
    let b = KillzoneWindow { start_min: 900, end_min: 1080 };
    lemma_two_windows(a, b);
    let written = time_text(480) + seq!['-'] + time_text(780);
    let other = time_text(900) + seq!['-'] + time_text(1080);
    assert(window_text(a) == written && window_text(b) == other) by {
        lemma_window_text(a);
        lemma_window_text(b);
    }
    assert("08:00-13:00,15:00-18:00"@ =~= written.push(',') + other) by {
        reveal_strlit("08:00-13:00,15:00-18:00");
        lemma_time_characters(480);
        lemma_time_characters(780);
        lemma_time_characters(900);
        lemma_time_characters(1080);
    }
}

/// The hours and minutes of a time of day are its minutes.
proof fn lemma_minute_of_day(secs: int)
    ensures
        (secs % 86_400) / 3_600 * 60 + (secs % 3_600) / 60 == (secs % 86_400) / 60,
{
    let d = secs % 86_400;
    assert(secs % 3_600 == d % 3_600);
}

/// An instant passes exactly where there are no windows, or where the minutes of
/// its day since midnight are at least the start of one of them and below its
/// end.
pub proof fn law_a_window_holds_its_start_and_not_its_end(
    t: TimePoint,
    windows: Seq<KillzoneWindow>,
)
    ensures
        passes(t, windows) <==> windows.len() == 0 || exists|i: int|
            0 <= i < windows.len() && (#[trigger] windows[i]).start_min <= (t.secs % 86_400) / 60
                < windows[i].end_min,
{
    let minute = (t.secs % 86_400) / 60;
    lemma_minute_of_day(t.secs);
    if windows.len() > 0 && passes(t, windows) {
        let i = choose|i: int| 0 <= i < windows.len() && (#[trigger] windows[i]).holds(minute);
        assert(windows[i].start_min <= minute < windows[i].end_min);
    }
    if exists|i: int|
        0 <= i < windows.len() && (#[trigger] windows[i]).start_min <= minute < windows[i].end_min {
        let i = choose|i: int|
            0 <= i < windows.len() && (#[trigger] windows[i]).start_min <= minute
                < windows[i].end_min;
        assert(windows[i].holds(minute));
    }
}

/// A time of day is an hour, a colon and a minute: it is read exactly where both
/// are numbers, the hour below 24 and the minute below 60, and then as the
/// minutes since midnight. What stands before the first colon is the hour.
pub proof fn law_times_are_hours_and_minutes(hour: Seq<char>, minute: Seq<char>)
    requires
        forall|i: int| 0 <= i < hour.len() ==> hour[i] != ':',
    ensures
        ({
            let h = parsed_unsigned(hour, u32::MAX as nat);
            let m = parsed_unsigned(minute, u32::MAX as nat);
            let read = minutes_of(hour + seq![':'] + minute);
            &&& (h matches Some(x) && x < 24 && (m matches Some(y) && y < 60)) ==> read == Ok::<
                nat,
                Fault,
            >(h->0 * 60 + m->0)
            &&& !(h matches Some(x) && x < 24 && (m matches Some(y) && y < 60)) ==> read is Err
        }),
{
    reveal(minutes_of);
    let s = hour + seq![':'] + minute;
    let k = hour.len() as int;
    assert forall|i: int| 0 <= i < k implies s[i] != ':' by {
        assert(s[i] == hour[i]);
    }
    lemma_first_of_at(s, ':', k);
    assert(s.take(k) =~= hour);
    assert(s.skip(k + 1) =~= minute);
}

/// Text without a colon is no time of day, and text without a dash no window.
pub proof fn law_times_have_a_colon_and_windows_a_dash(s: Seq<char>)
    ensures
        (forall|i: int| 0 <= i < s.len() ==> s[i] != ':') ==> minutes_of(s) is Err,
        (forall|i: int| 0 <= i < s.len() ==> s[i] != '-') ==> window_of(s) is Err,
{
    reveal(minutes_of);
    reveal(window_of);
    if forall|i: int| 0 <= i < s.len() ==> s[i] != ':' {
        lemma_first_of_absent(s, ':');
    }
    if forall|i: int| 0 <= i < s.len() ==> s[i] != '-' {
        lemma_first_of_absent(s, '-');
    }
}

/// A window is two times of day, with blanks round them or not, and a dash
/// between: it is read exactly where both are times and the first is before the
/// second, and then runs from the first to the second.
pub proof fn law_windows_run_from_start_to_end(start: Seq<char>, end: Seq<char>)
    requires
        forall|i: int| 0 <= i < start.len() ==> start[i] != '-',
    ensures
        ({
            let read = window_of(start + seq!['-'] + end);
            match (minutes_of(trimmed(start)), minutes_of(trimmed(end))) {
                (Ok(a), Ok(b)) => if a < b {
                    read matches Ok(w) && w.start_min == a && w.end_min == b
                } else {
                    read is Err
                },
                _ => read is Err,
            }
        }),
{
    reveal(window_of);
    let s = start + seq!['-'] + end;
    let k = start.len() as int;
    assert forall|i: int| 0 <= i < k implies s[i] != '-' by {
        assert(s[i] == start[i]);
    }
    lemma_first_of_at(s, '-', k);
    assert(s.take(k) =~= start);
    assert(s.skip(k + 1) =~= end);
    lemma_minutes_within_a_day(trimmed(start));
    lemma_minutes_within_a_day(trimmed(end));
}

/// Lists of windows are read token by token: two lists one after the other give
/// their windows one after the other, or what is wrong with the first bad one.
/// Blank tokens count for nothing.
pub proof fn law_lists_are_read_token_by_token(a: Seq<Seq<char>>, b: Seq<Seq<char>>)
    ensures
        windows_of(a + b) == match windows_of(a) {
            Err(e) => Err(e),
            Ok(first) => match windows_of(b) {
                Err(e) => Err(e),
                Ok(rest) => Ok(first + rest),
            },
        },
        a.len() == 1 && trimmed(a[0]).len() == 0 ==> windows_of(a + b) == windows_of(b),
    decreases a.len(),
{
    if a.len() == 0 {
        assert(a + b =~= b);
        if let Ok(rest) = windows_of(b) {
            assert(Seq::<KillzoneWindow>::empty() + rest =~= rest);
        }
    } else {
        let rest = a.drop_first();
        assert((a + b).drop_first() =~= rest + b);
        law_lists_are_read_token_by_token(rest, b);
        if a.len() == 1 {
            assert(rest + b =~= b);
        }
        if trimmed(a[0]).len() > 0 {
            if let Ok(w) = window_of(trimmed(a[0])) {
                if let (Ok(x), Ok(y)) = (windows_of(rest), windows_of(b)) {
                    assert(seq![w] + (x + y) =~= (seq![w] + x) + y);
                }
            }
        }
    }
}

} // verus!
