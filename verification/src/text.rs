//! Plain text: digits, trimming, splitting and comparison, over characters.

use vstd::prelude::*;

verus! {

/// The decimal digit `d` as a character.
pub open spec fn digit_char(d: nat) -> char {
    (('0' as nat) + d) as char
}

/// `n` in decimal, without leading zeros.
pub open spec fn nat_text(n: nat) -> Seq<char>
    decreases n,
{
    if n < 10 {
        seq![digit_char(n)]
    } else {
        nat_text(n / 10).push(digit_char(n % 10))
    }
}

/// The last `width` decimal digits of `n`, with leading zeros.
pub open spec fn fixed_digits(n: nat, width: nat) -> Seq<char>
    decreases width,
{
    if width == 0 {
        seq![]
    } else {
        fixed_digits(n / 10, (width - 1) as nat).push(digit_char(n % 10))
    }
}

/// `n` in decimal with at least two digits.
pub open spec fn two_digits(n: nat) -> Seq<char> {
    if n < 10 {
        seq!['0', digit_char(n)]
    } else {
        nat_text(n)
    }
}

/// `c` is white space in the sense of Unicode's `White_Space` property.
pub open spec fn white_space(c: char) -> bool {
    ||| '\u{9}' <= c <= '\u{d}'
    ||| c == ' '
    ||| c == '\u{85}'
    ||| c == '\u{a0}'
    ||| c == '\u{1680}'
    ||| '\u{2000}' <= c <= '\u{200a}'
    ||| c == '\u{2028}'
    ||| c == '\u{2029}'
    ||| c == '\u{202f}'
    ||| c == '\u{205f}'
    ||| c == '\u{3000}'
}

/// `s` without the white space at its start.
pub open spec fn trimmed_start(s: Seq<char>) -> Seq<char>
    decreases s.len(),
{
    if s.len() > 0 && white_space(s[0]) {
        trimmed_start(s.drop_first())
    } else {
        s
    }
}

/// `s` without the white space at its end.
pub open spec fn trimmed_end(s: Seq<char>) -> Seq<char>
    decreases s.len(),
{
    if s.len() > 0 && white_space(s.last()) {
        trimmed_end(s.drop_last())
    } else {
        s
    }
}

/// `s` without the white space at either end.
pub open spec fn trimmed(s: Seq<char>) -> Seq<char> {
    trimmed_end(trimmed_start(s))
}

/// The index of the first `c` in `s`, or the length of `s`.
pub open spec fn first_of(s: Seq<char>, c: char) -> nat
    decreases s.len(),
{
    if s.len() == 0 || s[0] == c {
        0
    } else {
        1 + first_of(s.drop_first(), c)
    }
}

/// The parts of `s` between the occurrences of `c`, in order.
pub open spec fn split(s: Seq<char>, c: char) -> Seq<Seq<char>>
    decreases s.len(),
{
    let i = first_of(s, c) as int;
    if 0 <= i < s.len() {
        seq![s.take(i)] + split(s.skip(i + 1), c)
    } else {
        seq![s]
    }
}

/// What each of several lists of characters spells.
pub open spec fn spellings(v: Seq<Vec<char>>) -> Seq<Seq<char>> {
    Seq::new(v.len(), |i: int| v[i]@)
}

pub open spec fn is_digit(c: char) -> bool {
    '0' <= c <= '9'
}

/// Every character of `s` is a decimal digit, and there is one.
pub open spec fn all_digits(s: Seq<char>) -> bool {
    s.len() > 0 && forall|i: int| 0 <= i < s.len() ==> is_digit(#[trigger] s[i])
}

/// The number that the digits of `s` write.
pub open spec fn digits_value(s: Seq<char>) -> nat
    decreases s.len(),
{
    if s.len() == 0 {
        0
    } else {
        10 * digits_value(s.drop_last()) + (s.last() as nat - '0' as nat) as nat
    }
}

/// `s` after an optional leading plus sign.
pub open spec fn unsigned_part(s: Seq<char>) -> Seq<char> {
    if s.len() > 0 && s[0] == '+' {
        s.drop_first()
    } else {
        s
    }
}

/// The integer that `s` writes, an optional plus sign and then only digits,
/// where it is at most `max`.
pub open spec fn parsed_unsigned(s: Seq<char>, max: nat) -> Option<nat> {
    let d = unsigned_part(s);
    if all_digits(d) && digits_value(d) <= max {
        Some(digits_value(d))
    } else {
        None
    }
}

/// Why a text writes no integer.
#[derive(Clone, Copy, Debug, PartialEq, Eq, Structural)]
pub enum IntegerTrouble {
    /// There is no text.
    Empty,
    /// A character is no digit, or there is none behind the plus sign.
    InvalidDigit,
    /// The number is larger than allowed.
    TooLarge,
}

/// What is wrong with a number, read from its first digit on: the first
/// character that is no digit, or with which the number becomes too large.
pub open spec fn digits_trouble(d: Seq<char>, max: nat) -> Option<IntegerTrouble>
    decreases d.len(),
{
    if d.len() == 0 {
        None
    } else if let Some(t) = digits_trouble(d.drop_last(), max) {
        Some(t)
    } else if !is_digit(d.last()) {
        Some(IntegerTrouble::InvalidDigit)
    } else if digits_value(d) > max {
        Some(IntegerTrouble::TooLarge)
    } else {
        None
    }
}

/// Why `s` writes no integer that is at most `max`, where it writes none.
pub open spec fn integer_trouble(s: Seq<char>, max: nat) -> Option<IntegerTrouble> {
    if s.len() == 0 {
        Some(IntegerTrouble::Empty)
    } else if unsigned_part(s).len() == 0 {
        Some(IntegerTrouble::InvalidDigit)
    } else {
        digits_trouble(unsigned_part(s), max)
    }
}

/// What is wrong with an integer, in words.
pub open spec fn integer_trouble_text(t: IntegerTrouble) -> Seq<char> {
    match t {
        IntegerTrouble::Empty => "cannot parse integer from empty string"@,
        IntegerTrouble::InvalidDigit => "invalid digit found in string"@,
        IntegerTrouble::TooLarge => "number too large to fit in target type"@,
    }
}

/// `c`, an upper-case ASCII letter replaced by its lower-case one.
pub open spec fn ascii_lower(c: char) -> char {
    if 'A' <= c <= 'Z' {
        (c as nat + 32) as char
    } else {
        c
    }
}

/// `c`, a lower-case ASCII letter replaced by its upper-case one.
pub open spec fn ascii_upper(c: char) -> char {
    if 'a' <= c <= 'z' {
        (c as nat - 32) as char
    } else {
        c
    }
}

pub open spec fn all_ascii(s: Seq<char>) -> bool {
    forall|i: int| 0 <= i < s.len() ==> #[trigger] s[i] <= '\u{7f}'
}

/// Equal but for the case of ASCII letters.
pub open spec fn same_ignoring_case(a: Seq<char>, b: Seq<char>) -> bool {
    &&& a.len() == b.len()
    &&& forall|i: int| #![trigger a[i], b[i]] 0 <= i < a.len() ==> ascii_lower(a[i]) == ascii_lower(b[i])
}

/// The view of a text that may not be there.
pub open spec fn text_view(s: Option<String>) -> Option<Seq<char>> {
    match s {
        Some(x) => Some(x@),
        None => None,
    }
}

/// `String::push` puts one character at the end.
pub assume_specification[ String::push ](s: &mut String, c: char)
    ensures
        final(s)@ == old(s)@.push(c),
;

/// The characters of `s`.
pub fn chars_of(s: &str) -> (res: Vec<char>)
    ensures
        res@ == s@,
{
    let mut out: Vec<char> = Vec::new();
    for c in it: s.chars()
        invariant
            out@ == it.seq().take(it.index()),
            it.seq() == s@,
    {
        out.push(c);
    }
    out
}

/// The text that `chars` spells.
pub fn text_of(chars: &Vec<char>) -> (res: String)
    ensures
        res@ == chars@,
{
    let mut out = String::new();
    let mut i: usize = 0;
    while i < chars.len()
        invariant
            i <= chars.len(),
            out@ == chars@.take(i as int),
        decreases chars.len() - i,
    {
        out.push(chars[i]);
        i += 1;
        assert(chars@.take(i as int) =~= chars@.take(i - 1).push(chars@[i - 1]));
    }
    assert(chars@.take(i as int) =~= chars@);
    out
}

/// The characters of `s` from `from` up to but not including `to`.
pub fn part(s: &Vec<char>, from: usize, to: usize) -> (res: Vec<char>)
    requires
        from <= to <= s.len(),
    ensures
        res@ == s@.subrange(from as int, to as int),
{
    let mut out: Vec<char> = Vec::new();
    let mut i: usize = from;
    while i < to
        invariant
            from <= i <= to <= s.len(),
            out@ == s@.subrange(from as int, i as int),
        decreases to - i,
    {
        out.push(s[i]);
        i += 1;
        assert(s@.subrange(from as int, i as int) =~= s@.subrange(from as int, i - 1).push(
            s@[i - 1],
        ));
    }
    out
}

/// The two texts are the same.
pub fn same_text(a: &str, b: &str) -> (res: bool)
    ensures
        res == (a@ == b@),
{
    let x = chars_of(a);
    let y = chars_of(b);
    if x.len() != y.len() {
        return false;
    }
    let mut i: usize = 0;
    while i < x.len()
        invariant
            i <= x.len(),
            x.len() == y.len(),
            x@ == a@,
            y@ == b@,
            forall|j: int| 0 <= j < i ==> x@[j] == y@[j],
        decreases x.len() - i,
    {
        if x[i] != y[i] {
            return false;
        }
        i += 1;
    }
    assert(x@ =~= y@);
    true
}

/// `c` is white space.
pub fn is_white_space(c: char) -> (res: bool)
    ensures
        res == white_space(c),
{
    ('\u{9}' <= c && c <= '\u{d}') || c == ' ' || c == '\u{85}' || c == '\u{a0}' || c == '\u{1680}' || (
    '\u{2000}' <= c && c <= '\u{200a}') || c == '\u{2028}' || c == '\u{2029}' || c == '\u{202f}' || c
        == '\u{205f}' || c == '\u{3000}'
}

/// `s` without the white space at either end.
pub fn trim(s: &Vec<char>) -> (res: Vec<char>)
    ensures
        res@ == trimmed(s@),
{
    let mut from: usize = 0;
    assert(s@.skip(0) =~= s@);
    while from < s.len() && is_white_space(s[from])
        invariant
            from <= s.len(),
            trimmed_start(s@) == trimmed_start(s@.skip(from as int)),
        decreases s.len() - from,
    {
        assert(s@.skip(from as int).drop_first() =~= s@.skip(from + 1));
        from += 1;
    }
    let mut to: usize = s.len();
    assert(s@.subrange(from as int, to as int) =~= s@.skip(from as int));
    while to > from && is_white_space(s[to - 1])
        invariant
            from <= to <= s.len(),
            trimmed(s@) == trimmed_end(s@.subrange(from as int, to as int)),
        decreases to,
    {
        assert(s@.subrange(from as int, to as int).drop_last() =~= s@.subrange(
            from as int,
            to - 1,
        ));
        to -= 1;
    }
    part(s, from, to)
}

/// Where `c` first occurs in `s`, or the length of `s`.
pub fn find(s: &Vec<char>, c: char) -> (res: usize)
    ensures
        res == first_of(s@, c),
        res <= s.len(),
        res < s.len() ==> s@[res as int] == c,
{
    let mut i: usize = 0;
    assert(s@.skip(0) =~= s@);
    while i < s.len() && s[i] != c
        invariant
            i <= s.len(),
            first_of(s@, c) == i + first_of(s@.skip(i as int), c),
        decreases s.len() - i,
    {
        assert(s@.skip(i as int).drop_first() =~= s@.skip(i + 1));
        i += 1;
    }
    i
}

/// The parts of `s` between the occurrences of `c`, in order.
pub fn split_on(s: &Vec<char>, c: char) -> (res: Vec<Vec<char>>)
    ensures
        spellings(res@) == split(s@, c),
{
    let mut out: Vec<Vec<char>> = Vec::new();
    let mut rest: Vec<char> = part(s, 0, s.len());
    assert(rest@ =~= s@);
    assert(spellings(out@) =~= Seq::<Seq<char>>::empty());
    loop
        invariant
            spellings(out@) + split(rest@, c) =~= split(s@, c),
        decreases rest.len(),
    {
        let i: usize = find(&rest, c);
        let ghost before = spellings(out@);
        if i < rest.len() {
            let head = part(&rest, 0, i);
            let tail = part(&rest, i + 1, rest.len());
            assert(head@ =~= rest@.take(i as int));
            assert(tail@ =~= rest@.skip(i + 1));
            out.push(head);
            assert(spellings(out@) =~= before.push(head@));
            rest = tail;
        } else {
            out.push(rest);
            assert(spellings(out@) =~= before.push(rest@));
            return out;
        }
    }
}

/// The integer that `s` writes, an optional plus sign and then only digits,
/// where it is at most `max`; otherwise what is wrong with it.
pub fn parse_unsigned(s: &Vec<char>, max: u64) -> (res: Result<u64, IntegerTrouble>)
    ensures
        match res {
            Ok(n) => parsed_unsigned(s@, max as nat) == Some(n as nat) && integer_trouble(
                s@,
                max as nat,
            ) is None,
            Err(t) => parsed_unsigned(s@, max as nat) is None && integer_trouble(s@, max as nat)
                == Some(t),
        },
{
    if s.len() == 0 {
        return Err(IntegerTrouble::Empty);
    }
    let start: usize = if s[0] == '+' {
        1
    } else {
        0
    };
    let ghost d = unsigned_part(s@);
    assert(d =~= s@.skip(start as int));
    if start == s.len() {
        return Err(IntegerTrouble::InvalidDigit);
    }
    let mut value: u64 = 0;
    let mut i: usize = start;
    assert(d.take(0) =~= Seq::<char>::empty());
    while i < s.len()
        invariant
            start <= i <= s.len(),
            s@.len() > 0,
            d.len() > 0,
            d == s@.skip(start as int),
            d == unsigned_part(s@),
            forall|j: int| 0 <= j < i - start ==> is_digit(#[trigger] d[j]),
            value == digits_value(d.take(i - start)),
            value <= max,
            digits_trouble(d.take(i - start), max as nat) is None,
        decreases s.len() - i,
    {
        let c = s[i];
        assert(c == d[i - start]);
        assert(d.take(i - start + 1).drop_last() =~= d.take(i - start));
        assert(d.take(i - start + 1).last() == c);
        if c < '0' || c > '9' {
            assert(!all_digits(d));
            proof {
                lemma_digits_trouble_stays(d, i - start + 1, max as nat);
            }
            return Err(IntegerTrouble::InvalidDigit);
        }
        let digit: u64 = c as u64 - '0' as u64;
        assert(digits_value(d.take(i - start + 1)) == 10 * value + digit);
        if digit > max || value > (max - digit) / 10 {
            proof {
                assert(10 * value + digit > max);
                lemma_digits_value_grows(d, i - start + 1);
                lemma_digits_trouble_stays(d, i - start + 1, max as nat);
            }
            return Err(IntegerTrouble::TooLarge);
        }
        value = 10 * value + digit;
        i += 1;
    }
    assert(d.take(i - start) =~= d);
    Ok(value)
}

/// What is wrong with the first digits stays wrong.
proof fn lemma_digits_trouble_stays(d: Seq<char>, n: int, max: nat)
    requires
        0 <= n <= d.len(),
        digits_trouble(d.take(n), max) is Some,
    ensures
        digits_trouble(d, max) == digits_trouble(d.take(n), max),
    decreases d.len() - n,
{
    if n < d.len() {
        assert(d.take(n + 1).drop_last() =~= d.take(n));
        lemma_digits_trouble_stays(d, n + 1, max);
    } else {
        assert(d.take(n) =~= d);
    }
}

/// What is wrong with an integer, in words.
pub fn integer_complaint(t: IntegerTrouble) -> (res: &'static str)
    ensures
        res@ == integer_trouble_text(t),
{
    match t {
        IntegerTrouble::Empty => "cannot parse integer from empty string",
        IntegerTrouble::InvalidDigit => "invalid digit found in string",
        IntegerTrouble::TooLarge => "number too large to fit in target type",
    }
}

/// Reading further digits never makes the number smaller.
proof fn lemma_digits_value_grows(s: Seq<char>, n: int)
    requires
        0 <= n <= s.len(),
    ensures
        digits_value(s.take(n)) <= digits_value(s),
    decreases s.len() - n,
{
    if n < s.len() {
        assert(s.take(n + 1).drop_last() =~= s.take(n));
        lemma_digits_value_grows(s, n + 1);
    } else {
        assert(s.take(n) =~= s);
    }
}

/// What `str::to_lowercase` gives for a text that is not all ASCII.
pub uninterp spec fn unicode_lowercase(s: Seq<char>) -> Seq<char>;

/// What `str::to_uppercase` gives for a text that is not all ASCII.
pub uninterp spec fn unicode_uppercase(s: Seq<char>) -> Seq<char>;

/// `s` in lower case.
pub open spec fn lowercased(s: Seq<char>) -> Seq<char> {
    if all_ascii(s) {
        s.map_values(|c: char| ascii_lower(c))
    } else {
        unicode_lowercase(s)
    }
}

/// `s` in upper case.
pub open spec fn uppercased(s: Seq<char>) -> Seq<char> {
    if all_ascii(s) {
        s.map_values(|c: char| ascii_upper(c))
    } else {
        unicode_uppercase(s)
    }
}

/// Lower case with `str::to_lowercase`: letter by letter for ASCII, by the
/// Unicode tables for anything else.
#[verifier::external_body]
fn to_lowercase(s: &str) -> (res: String)
    ensures
        res@ == (if all_ascii(s@) {
            s@.map_values(|c: char| ascii_lower(c))
        } else {
            unicode_lowercase(s@)
        }),
{
    s.to_lowercase()
}

/// Upper case with `str::to_uppercase`: letter by letter for ASCII, by the
/// Unicode tables for anything else.
#[verifier::external_body]
fn to_uppercase(s: &str) -> (res: String)
    ensures
        res@ == (if all_ascii(s@) {
            s@.map_values(|c: char| ascii_upper(c))
        } else {
            unicode_uppercase(s@)
        }),
{
    s.to_uppercase()
}

/// `s` trimmed and in lower case.
pub fn trimmed_lowercase(s: &str) -> (res: String)
    ensures
        res@ == lowercased(trimmed(s@)),
{
    to_lowercase(text_of(&trim(&chars_of(s))).as_str())
}

/// `s` trimmed and in upper case.
pub fn trimmed_uppercase(s: &str) -> (res: String)
    ensures
        res@ == uppercased(trimmed(s@)),
{
    to_uppercase(text_of(&trim(&chars_of(s))).as_str())
}

/// The decimal digit `d` as a character.
fn digit(d: u64) -> (res: char)
    requires
        d < 10,
    ensures
        res == digit_char(d as nat),
{
    (48u8 + d as u8) as char
}

/// `n` in decimal.
pub fn number_text(n: u64) -> (res: String)
    ensures
        res@ == nat_text(n as nat),
    decreases n,
{
    let mut out = if n < 10 {
        String::new()
    } else {
        number_text(n / 10)
    };
    out.push(digit(n % 10));
    assert(n < 10 ==> out@ =~= seq![digit_char(n as nat)]);
    out
}

/// `n` in decimal with at least two digits.
pub fn two_digit_text(n: u64) -> (res: String)
    ensures
        res@ == two_digits(n as nat),
{
    if n < 10 {
        let mut out = String::new();
        out.push('0');
        out.push(digit(n));
        assert(out@ =~= seq!['0', digit_char(n as nat)]);
        out
    } else {
        number_text(n)
    }
}

/// `c`, an upper-case ASCII letter replaced by its lower-case one.
fn lower(c: char) -> (res: char)
    ensures
        res == ascii_lower(c),
{
    if 'A' <= c && c <= 'Z' {
        (c as u8 + 32) as char
    } else {
        c
    }
}

/// Whether two texts are equal but for the case of ASCII letters.
pub fn equal_ignoring_case(a: &str, b: &str) -> (res: bool)
    ensures
        res == same_ignoring_case(a@, b@),
{
    let x = chars_of(a);
    let y = chars_of(b);
    if x.len() != y.len() {
        return false;
    }
    let mut i: usize = 0;
    while i < x.len()
        invariant
            i <= x.len(),
            x.len() == y.len(),
            x@ == a@,
            y@ == b@,
            forall|j: int|
                #![trigger a@[j], b@[j]]
                0 <= j < i ==> ascii_lower(a@[j]) == ascii_lower(b@[j]),
        decreases x.len() - i,
    {
        if lower(x[i]) != lower(y[i]) {
            assert(ascii_lower(a@[i as int]) != ascii_lower(b@[i as int]));
            return false;
        }
        i += 1;
    }
    true
}

/// How many decimal digits `n` has.
pub fn digit_count(n: u128) -> (res: u128)
    ensures
        res == nat_text(n as nat).len(),
{
    let mut rest: u128 = n;
    let mut count: u128 = 1;
    while rest >= 10
        invariant
            count + rest <= n + 1,
            nat_text(n as nat).len() == count - 1 + nat_text(rest as nat).len(),
        decreases rest,
    {
        rest = rest / 10;
        count += 1;
    }
    count
}

/// A number below a hundred, with two digits.
pub proof fn lemma_two_digits(n: nat)
    requires
        n < 100,
    ensures
        two_digits(n) == seq![digit_char(n / 10), digit_char(n % 10)],
{
    reveal_with_fuel(nat_text, 2);
    if n >= 10 {
        assert(nat_text(n / 10) =~= seq![digit_char(n / 10)]);
    }
    assert(two_digits(n) =~= seq![digit_char(n / 10), digit_char(n % 10)]);
}

/// What two digits write is read back.
pub proof fn lemma_two_digits_read_back(n: nat, max: nat)
    requires
        n < 100,
        n <= max,
    ensures
        parsed_unsigned(two_digits(n), max) == Some(n),
{
    lemma_two_digits(n);
    let s = two_digits(n);
    let (a, b) = (digit_char(n / 10), digit_char(n % 10));
    assert(is_digit(a) && is_digit(b));
    assert(a as nat - '0' as nat == n / 10);
    assert(b as nat - '0' as nat == n % 10);
    assert(unsigned_part(s) == s);
    assert(s.drop_last() =~= seq![a]);
    assert(seq![a].drop_last() =~= Seq::<char>::empty());
    reveal_with_fuel(digits_value, 3);
    assert(digits_value(seq![a]) == n / 10);
    assert(digits_value(s) == n);
    assert(all_digits(s));
}

/// Text without white space at its ends is left alone by trimming.
pub proof fn lemma_nothing_to_trim(s: Seq<char>)
    requires
        s.len() > 0,
        !white_space(s[0]),
        !white_space(s.last()),
    ensures
        trimmed(s) == s,
{
}

/// White space in front of such text is trimmed.
pub proof fn lemma_space_is_trimmed(s: Seq<char>)
    requires
        s.len() > 0,
        !white_space(s[0]),
        !white_space(s.last()),
    ensures
        trimmed(seq![' '] + s) == s,
{
    let t = seq![' '] + s;
    assert(t.drop_first() =~= s);
    assert(trimmed_start(t) == trimmed_start(s));
}

/// A character that does not occur is found at the end.
pub proof fn lemma_first_of_absent(s: Seq<char>, c: char)
    requires
        forall|i: int| 0 <= i < s.len() ==> s[i] != c,
    ensures
        first_of(s, c) == s.len(),
    decreases s.len(),
{
    if s.len() > 0 {
        assert forall|i: int| 0 <= i < s.drop_first().len() implies s.drop_first()[i] != c by {
            assert(s.drop_first()[i] == s[i + 1]);
        }
        lemma_first_of_absent(s.drop_first(), c);
    }
}

/// The first occurrence of a character, where what comes before it is free of
/// it.
pub proof fn lemma_first_of_at(s: Seq<char>, c: char, k: int)
    requires
        0 <= k < s.len(),
        s[k] == c,
        forall|i: int| 0 <= i < k ==> s[i] != c,
    ensures
        first_of(s, c) == k,
    decreases s.len(),
{
    if k > 0 {
        let rest = s.drop_first();
        assert forall|i: int| 0 <= i < k - 1 implies rest[i] != c by {
            assert(rest[i] == s[i + 1]);
        }
        lemma_first_of_at(rest, c, k - 1);
    }
}

proof fn lemma_first_of_bounds(s: Seq<char>, c: char)
    ensures
        first_of(s, c) <= s.len(),
        first_of(s, c) < s.len() ==> s[first_of(s, c) as int] == c,
        forall|i: int| 0 <= i < first_of(s, c) ==> s[i] != c,
    decreases s.len(),
{
    if s.len() > 0 && s[0] != c {
        let rest = s.drop_first();
        lemma_first_of_bounds(rest, c);
        assert forall|i: int| 0 <= i < first_of(s, c) implies s[i] != c by {
            if i > 0 {
                assert(rest[i - 1] == s[i]);
            }
        }
    }
}

/// Splitting text that ends in one more part gives one more part.
pub proof fn lemma_split_one_more(x: Seq<char>, c: char, y: Seq<char>)
    requires
        forall|i: int| 0 <= i < y.len() ==> y[i] != c,
    ensures
        split(x.push(c) + y, c) == split(x, c).push(y),
    decreases x.len(),
{
    let whole = x.push(c) + y;
    let k = first_of(x, c) as int;
    lemma_first_of_bounds(x, c);
    if k < x.len() {
        lemma_first_of_at(whole, c, k);
        let rest = x.skip(k + 1);
        assert(whole.take(k) =~= x.take(k));
        assert(whole.skip(k + 1) =~= rest.push(c) + y);
        lemma_split_one_more(rest, c, y);
        assert(split(whole, c) =~= split(x, c).push(y));
    } else {
        lemma_first_of_at(whole, c, x.len() as int);
        lemma_first_of_absent(y, c);
        assert(whole.take(x.len() as int) =~= x);
        assert(whole.skip(x.len() as int + 1) =~= y);
        assert(split(y, c) == seq![y]);
        assert(split(whole, c) == seq![x] + seq![y]);
        assert(split(x, c) == seq![x]);
        assert(seq![x] + seq![y] =~= seq![x].push(y));
    }
}

/// A number is read back from its own digits, with or without a plus sign in
/// front, exactly where it is not too large.
pub proof fn law_numbers_are_read_back(n: nat, max: nat)
    ensures
        n <= max ==> parsed_unsigned(nat_text(n), max) == Some(n) && parsed_unsigned(
            seq!['+'] + nat_text(n),
            max,
        ) == Some(n),
        n > max ==> parsed_unsigned(nat_text(n), max) is None,
{
    lemma_number_digits(n);
    let s = nat_text(n);
    assert(is_digit(s[0]));
    assert((seq!['+'] + s).drop_first() =~= s);
}

/// The digits of a number are digits, and write it.
proof fn lemma_number_digits(n: nat)
    ensures
        all_digits(nat_text(n)),
        digits_value(nat_text(n)) == n,
    decreases n,
{
    let d = digit_char(n % 10);
    assert(is_digit(d) && d as nat - '0' as nat == n % 10);
    let s = nat_text(n);
    if n < 10 {
        assert(s.drop_last() =~= Seq::<char>::empty());
        assert(digits_value(s.drop_last()) == 0);
        assert(s.last() == d);
    } else {
        lemma_number_digits(n / 10);
        let rest = nat_text(n / 10);
        assert(s.drop_last() =~= rest);
        assert forall|i: int| 0 <= i < s.len() implies is_digit(#[trigger] s[i]) by {
            if i < rest.len() {
                assert(s[i] == rest[i]);
            }
        }
    }
}

/// Where text writes no integer there is a reason, and where it writes one there
/// is none.
pub proof fn law_bad_integers_have_a_reason(s: Seq<char>, max: nat)
    ensures
        parsed_unsigned(s, max) is Some <==> integer_trouble(s, max) is None,
        integer_trouble(s, max) == Some(IntegerTrouble::Empty) <==> s.len() == 0,
{
    let d = unsigned_part(s);
    lemma_trouble_of_digits(d, max);
}

proof fn lemma_trouble_of_digits(d: Seq<char>, max: nat)
    ensures
        digits_trouble(d, max) is None && d.len() > 0 <==> all_digits(d) && digits_value(d) <= max,
        digits_trouble(d, max) != Some(IntegerTrouble::Empty),
    decreases d.len(),
{
    if d.len() > 0 {
        let front = d.drop_last();
        lemma_trouble_of_digits(front, max);
        if all_digits(d) {
            assert forall|i: int| 0 <= i < front.len() implies is_digit(#[trigger] front[i]) by {
                assert(front[i] == d[i]);
            }
            assert(is_digit(d[d.len() - 1]));
        }
        if digits_trouble(d, max) is None {
            assert forall|i: int| 0 <= i < d.len() implies is_digit(#[trigger] d[i]) by {
                if i < front.len() {
                    assert(d[i] == front[i]);
                }
            }
        }
    }
}

/// Trimming takes white space off both ends, as much as there is, and nothing
/// else: what is left is a stretch of the text, what was taken is white space,
/// and neither end of what is left is.
pub proof fn law_trimming_takes_white_space_off_the_ends(s: Seq<char>) -> (r: (int, int))
    ensures
        0 <= r.0 <= r.1 <= s.len(),
        trimmed(s) == s.subrange(r.0, r.1),
        forall|i: int| 0 <= i < r.0 ==> white_space(#[trigger] s[i]),
        forall|i: int| r.1 <= i < s.len() ==> white_space(#[trigger] s[i]),
        trimmed(s).len() > 0 ==> !white_space(trimmed(s)[0]) && !white_space(trimmed(s).last()),
{
    let a = lemma_trimmed_start(s);
    let t = trimmed_start(s);
    let b = lemma_trimmed_end(t);
    assert(t.take(b) =~= s.subrange(a, a + b));
    assert forall|i: int| a + b <= i < s.len() implies white_space(#[trigger] s[i]) by {
        assert(t[i - a] == s[i]);
    }
    if b > 0 {
        assert(t.take(b)[0] == t[0]);
    }
    (a, a + b)
}

proof fn lemma_trimmed_start(s: Seq<char>) -> (a: int)
    ensures
        0 <= a <= s.len(),
        trimmed_start(s) == s.skip(a),
        forall|i: int| 0 <= i < a ==> white_space(#[trigger] s[i]),
        a < s.len() ==> !white_space(s[a]),
    decreases s.len(),
{
    if s.len() > 0 && white_space(s[0]) {
        let rest = s.drop_first();
        let a = lemma_trimmed_start(rest);
        assert(rest.skip(a) =~= s.skip(a + 1));
        assert forall|i: int| 0 <= i < a + 1 implies white_space(#[trigger] s[i]) by {
            if i > 0 {
                assert(rest[i - 1] == s[i]);
            }
        }
        if a < rest.len() {
            assert(rest[a] == s[a + 1]);
        }
        a + 1
    } else {
        assert(s.skip(0) =~= s);
        0
    }
}

proof fn lemma_trimmed_end(s: Seq<char>) -> (b: int)
    ensures
        0 <= b <= s.len(),
        trimmed_end(s) == s.take(b),
        forall|i: int| b <= i < s.len() ==> white_space(#[trigger] s[i]),
        b > 0 ==> !white_space(s[b - 1]),
    decreases s.len(),
{
    if s.len() > 0 && white_space(s.last()) {
        let front = s.drop_last();
        let b = lemma_trimmed_end(front);
        assert(front.take(b) =~= s.take(b));
        assert forall|i: int| b <= i < s.len() implies white_space(#[trigger] s[i]) by {
            if i < front.len() {
                assert(front[i] == s[i]);
            }
        }
        if b > 0 {
            assert(front[b - 1] == s[b - 1]);
        }
        b
    } else {
        assert(s.take(s.len() as int) =~= s);
        s.len() as int
    }
}

/// No part of a split text holds the separator.
pub proof fn law_parts_are_free_of_the_separator(s: Seq<char>, c: char)
    ensures
        split(s, c).len() > 0,
        forall|i: int, j: int|
            0 <= i < split(s, c).len() && 0 <= j < split(s, c)[i].len() ==> #[trigger] split(
                s,
                c,
            )[i][j] != c,
    decreases s.len(),
{
    lemma_first_of_bounds(s, c);
    let k = first_of(s, c) as int;
    if k < s.len() {
        let rest = s.skip(k + 1);
        law_parts_are_free_of_the_separator(rest, c);
        let parts = split(s, c);
        assert forall|i: int, j: int|
            0 <= i < parts.len() && 0 <= j < parts[i].len() implies #[trigger] parts[i][j] != c by {
            if i > 0 {
                assert(parts[i] == split(rest, c)[i - 1]);
            } else {
                assert(parts[0] == s.take(k));
            }
        }
    } else {
        assert(split(s, c) == seq![s]);
    }
}

/// Comparison without regard to case is reflexive and symmetric; texts that it
/// takes for equal have, at each position, the same character or the two cases
/// of one ASCII letter.
pub proof fn law_case_is_the_only_difference(a: Seq<char>, b: Seq<char>)
    ensures
        same_ignoring_case(a, a),
        same_ignoring_case(a, b) == same_ignoring_case(b, a),
        same_ignoring_case(a, b) <==> a.len() == b.len() && forall|i: int|
            #![trigger a[i], b[i]]
            0 <= i < a.len() ==> {
                ||| a[i] == b[i]
                ||| 'a' <= a[i] <= 'z' && a[i] as nat - 32 == b[i] as nat
                ||| 'a' <= b[i] <= 'z' && b[i] as nat - 32 == a[i] as nat
            },
{
    if a.len() == b.len() {
        assert forall|i: int|
            #![trigger a[i], b[i]]
            0 <= i < a.len() implies (ascii_lower(a[i]) == ascii_lower(b[i]) <==> {
            ||| a[i] == b[i]
            ||| 'a' <= a[i] <= 'z' && a[i] as nat - 32 == b[i] as nat
            ||| 'a' <= b[i] <= 'z' && b[i] as nat - 32 == a[i] as nat
        }) by {
            lemma_lower_case(a[i], b[i]);
        }
        if same_ignoring_case(a, b) {
            assert forall|i: int|
                #![trigger a[i], b[i]]
                0 <= i < b.len() implies ascii_lower(b[i]) == ascii_lower(a[i]) by {}
        }
        if same_ignoring_case(b, a) {
            assert forall|i: int|
                #![trigger a[i], b[i]]
                0 <= i < a.len() implies ascii_lower(a[i]) == ascii_lower(b[i]) by {
                assert(ascii_lower(b[i]) == ascii_lower(a[i]));
            }
        }
    }
}

proof fn lemma_lower_case(x: char, y: char)
    ensures
        ascii_lower(x) == ascii_lower(y) <==> {
            ||| x == y
            ||| 'a' <= x <= 'z' && x as nat - 32 == y as nat
            ||| 'a' <= y <= 'z' && y as nat - 32 == x as nat
        },
{
}

} // verus!
