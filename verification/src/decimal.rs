//! Decimal numbers as the `rust_decimal` crate holds them: a sign, a 96-bit
//! coefficient and a scale. The arithmetic itself is that crate's; this module
//! says what it returns.

use std::cmp::Ordering;
use vstd::prelude::*;

use crate::text::{digit_count, fixed_digits, nat_text};

verus! {

/// One more than the largest coefficient.
pub const COEFFICIENT_LIMIT: u128 = 0x1_0000_0000_0000_0000_0000_0000;

/// The largest number of digits after the decimal point.
pub const SCALE_MAX: u32 = 28;

/// The value of a decimal: `magnitude / 10^scale`, negated where `negative`.
///
/// The same quantity can be written at several scales, and a zero can carry a
/// sign, so two different numbers can have equal values (see `same_value`).
pub struct Number {
    pub negative: bool,
    pub magnitude: nat,
    pub scale: nat,
}

/// Ten to the power `k`.
pub open spec fn ten_to(k: nat) -> nat
    decreases k,
{
    if k == 0 {
        1
    } else {
        10 * ten_to((k - 1) as nat)
    }
}

/// The larger of two scales.
pub open spec fn common_scale(a: Number, b: Number) -> nat {
    if a.scale < b.scale {
        b.scale
    } else {
        a.scale
    }
}

impl Number {
    /// A coefficient of 96 bits and a scale in range.
    pub open spec fn valid(self) -> bool {
        self.magnitude < COEFFICIENT_LIMIT && self.scale <= SCALE_MAX
    }

    pub open spec fn is_zero(self) -> bool {
        self.magnitude == 0
    }

    /// The coefficient with its sign.
    pub open spec fn signed(self) -> int {
        if self.negative {
            -(self.magnitude as int)
        } else {
            self.magnitude as int
        }
    }

    /// The signed coefficient when written with `scale` digits after the point.
    pub open spec fn signed_at(self, scale: nat) -> int {
        self.signed() * ten_to((scale - self.scale) as nat)
    }

    /// The value in units of the last digit that any decimal can have.
    pub open spec fn units(self) -> int {
        self.signed_at(SCALE_MAX as nat)
    }

    /// The coefficient still fits when written with `scale` digits after the point.
    pub open spec fn fits_at(self, scale: nat) -> bool {
        self.magnitude * ten_to((scale - self.scale) as nat) < COEFFICIENT_LIMIT
    }

    /// The same number with the other sign.
    pub open spec fn negated(self) -> Number {
        Number { negative: !self.negative, ..self }
    }

    /// The same number without a sign.
    pub open spec fn absolute(self) -> Number {
        Number { negative: false, ..self }
    }
}

pub open spec fn zero_number() -> Number {
    Number { negative: false, magnitude: 0, scale: 0 }
}

pub open spec fn one_number() -> Number {
    Number { negative: false, magnitude: 1, scale: 0 }
}

/// An integer as a number without digits after the point.
pub open spec fn whole_number(n: int) -> Number {
    Number { negative: n < 0, magnitude: (if n < 0 { -n } else { n }) as nat, scale: 0 }
}

/// The number with signed coefficient `n` at `scale`; a zero has no sign.
pub open spec fn number_at(n: int, scale: nat) -> Number {
    Number { scale, ..whole_number(n) }
}

/// Numeric order: `a` is less than `b`.
pub open spec fn less(a: Number, b: Number) -> bool {
    a.signed() * ten_to(b.scale) < b.signed() * ten_to(a.scale)
}

/// Numeric equality, whatever the scales.
pub open spec fn same_value(a: Number, b: Number) -> bool {
    a.signed() * ten_to(b.scale) == b.signed() * ten_to(a.scale)
}

/// Numeric order: `a` is at most `b`.
pub open spec fn at_most(a: Number, b: Number) -> bool {
    !less(b, a)
}

/// The larger of two numbers, the first where their values are equal.
pub open spec fn larger(a: Number, b: Number) -> Number {
    if less(a, b) {
        b
    } else {
        a
    }
}

/// Both numbers fit at their common scale, and so does `n` as a result there.
pub open spec fn aligned(a: Number, b: Number, n: int) -> bool {
    &&& a.fits_at(common_scale(a, b))
    &&& b.fits_at(common_scale(a, b))
    &&& -COEFFICIENT_LIMIT < n < COEFFICIENT_LIMIT
}

/// What `rust_decimal` gives for `a + b` where the sum has to be rounded or
/// does not fit; `None` where it overflows.
pub uninterp spec fn rounded_sum(a: Number, b: Number) -> Option<Number>;

/// What `rust_decimal` gives for `a - b` where the difference has to be
/// rounded or does not fit; `None` where it overflows.
pub uninterp spec fn rounded_difference(a: Number, b: Number) -> Option<Number>;

/// What `rust_decimal` gives for `a * b` where the product has to be rounded
/// or does not fit; `None` where it overflows.
pub uninterp spec fn rounded_product(a: Number, b: Number) -> Option<Number>;

/// What `rust_decimal` gives for `a / b` where the coefficients do not divide
/// evenly; `None` where it overflows.
pub uninterp spec fn rounded_quotient(a: Number, b: Number) -> Option<Number>;

/// The sum needs no rounding: one of the numbers is zero, or it fits at the
/// common scale.
pub open spec fn sum_is_exact(a: Number, b: Number) -> bool {
    let s = common_scale(a, b);
    a.is_zero() || b.is_zero() || aligned(a, b, a.signed_at(s) + b.signed_at(s))
}

/// The sum where it needs no rounding. Adding a zero keeps the other number as
/// it is written.
pub open spec fn exact_sum(a: Number, b: Number) -> Number {
    let s = common_scale(a, b);
    if a.is_zero() {
        b
    } else if b.is_zero() {
        a
    } else {
        number_at(a.signed_at(s) + b.signed_at(s), s)
    }
}

/// The difference needs no rounding, under the same condition as the sum.
pub open spec fn difference_is_exact(a: Number, b: Number) -> bool {
    let s = common_scale(a, b);
    a.is_zero() || b.is_zero() || aligned(a, b, a.signed_at(s) - b.signed_at(s))
}

/// The difference where it needs no rounding.
pub open spec fn exact_difference(a: Number, b: Number) -> Number {
    let s = common_scale(a, b);
    if a.is_zero() && b.is_zero() {
        b
    } else if a.is_zero() {
        b.negated()
    } else if b.is_zero() {
        a
    } else {
        number_at(a.signed_at(s) - b.signed_at(s), s)
    }
}

/// The product needs no rounding: one of the numbers is zero, or coefficient
/// and scale of the full product fit.
pub open spec fn product_is_exact(a: Number, b: Number) -> bool {
    a.is_zero() || b.is_zero() || (a.magnitude * b.magnitude < COEFFICIENT_LIMIT && a.scale
        + b.scale <= SCALE_MAX)
}

/// The product where it needs no rounding; with a zero it is a plain zero.
pub open spec fn exact_product(a: Number, b: Number) -> Number {
    if a.is_zero() || b.is_zero() {
        zero_number()
    } else {
        Number {
            negative: a.negative != b.negative,
            magnitude: a.magnitude * b.magnitude,
            scale: a.scale + b.scale,
        }
    }
}

/// The quotient needs no rounding: the dividend is zero, or the coefficients
/// divide evenly and the scale does not go below zero.
pub open spec fn quotient_is_exact(a: Number, b: Number) -> bool {
    !b.is_zero() && (a.is_zero() || (a.magnitude % b.magnitude == 0 && a.scale >= b.scale))
}

/// The quotient where it needs no rounding; of a zero it is a plain zero.
pub open spec fn exact_quotient(a: Number, b: Number) -> Number {
    if a.is_zero() {
        zero_number()
    } else {
        Number {
            negative: a.negative != b.negative,
            magnitude: a.magnitude / b.magnitude,
            scale: (a.scale - b.scale) as nat,
        }
    }
}

/// `a + b`, or `None` where it overflows.
pub open spec fn sum(a: Number, b: Number) -> Option<Number> {
    if sum_is_exact(a, b) {
        Some(exact_sum(a, b))
    } else {
        rounded_sum(a, b)
    }
}

/// `a - b`, or `None` where it overflows.
pub open spec fn difference(a: Number, b: Number) -> Option<Number> {
    if difference_is_exact(a, b) {
        Some(exact_difference(a, b))
    } else {
        rounded_difference(a, b)
    }
}

/// `a * b`, or `None` where it overflows.
pub open spec fn product(a: Number, b: Number) -> Option<Number> {
    if product_is_exact(a, b) {
        Some(exact_product(a, b))
    } else {
        rounded_product(a, b)
    }
}

/// `a / b`, or `None` where `b` is zero or it overflows.
pub open spec fn quotient(a: Number, b: Number) -> Option<Number> {
    if b.is_zero() {
        None
    } else if quotient_is_exact(a, b) {
        Some(exact_quotient(a, b))
    } else {
        rounded_quotient(a, b)
    }
}

/// A sum of results, each of which may have overflowed.
pub open spec fn plus(a: Option<Number>, b: Option<Number>) -> Option<Number> {
    match (a, b) {
        (Some(x), Some(y)) => sum(x, y),
        _ => None,
    }
}

/// A difference of results, each of which may have overflowed.
pub open spec fn minus(a: Option<Number>, b: Option<Number>) -> Option<Number> {
    match (a, b) {
        (Some(x), Some(y)) => difference(x, y),
        _ => None,
    }
}

/// A product of results, each of which may have overflowed.
pub open spec fn times(a: Option<Number>, b: Option<Number>) -> Option<Number> {
    match (a, b) {
        (Some(x), Some(y)) => product(x, y),
        _ => None,
    }
}

/// A quotient of results, each of which may have overflowed.
pub open spec fn over(a: Option<Number>, b: Option<Number>) -> Option<Number> {
    match (a, b) {
        (Some(x), Some(y)) => quotient(x, y),
        _ => None,
    }
}

/// The largest integer that is at most `a`. An integer keeps the way it is
/// written; what is cut off a negative number moves it away from zero.
pub open spec fn floor_of(a: Number) -> Number {
    let whole = a.magnitude / ten_to(a.scale);
    if a.scale == 0 {
        a
    } else if a.negative && a.magnitude % ten_to(a.scale) != 0 {
        Number { negative: true, magnitude: whole + 1, scale: 0 }
    } else {
        Number { negative: a.negative, magnitude: whole, scale: 0 }
    }
}

/// What `rust_decimal` reads from `text`, or the text of the error that it
/// reports.
pub uninterp spec fn parsed_decimal(text: Seq<char>) -> Result<Number, Seq<char>>;

/// `a` with exactly `digits` digits after the point. Further digits are cut
/// off, not rounded.
pub open spec fn fixed_text(a: Number, digits: nat) -> Seq<char> {
    let scaled = if digits <= a.scale {
        a.magnitude / ten_to((a.scale - digits) as nat)
    } else {
        a.magnitude * ten_to((digits - a.scale) as nat)
    };
    let sign = if a.negative {
        seq!['-']
    } else {
        Seq::<char>::empty()
    };
    let fraction = if digits == 0 {
        Seq::<char>::empty()
    } else {
        seq!['.'] + fixed_digits(scaled % ten_to(digits), digits)
    };
    sign + nat_text(scaled / ten_to(digits)) + fraction
}

/// `a` can be written with `digits` digits after the point: the digits and the
/// point, as far as the scale reaches, take at most 32 characters, and the
/// count of digits is one that a format string can ask for.
pub open spec fn showable(a: Number, digits: nat) -> bool {
    &&& digits <= 0xffff
    &&& digits == 0 || nat_text(a.magnitude / ten_to(a.scale)).len() + 1 + (if digits < SCALE_MAX {
        digits
    } else {
        SCALE_MAX as nat
    }) <= 32
}

/// A decimal number.
#[derive(Clone, Copy, Debug)]
pub struct Decimal {
    negative: bool,
    magnitude: u128,
    scale: u32,
}

impl View for Decimal {
    type V = Number;

    closed spec fn view(&self) -> Number {
        Number {
            negative: self.negative,
            magnitude: self.magnitude as nat,
            scale: self.scale as nat,
        }
    }
}

/// The view of a result that may have overflowed.
pub open spec fn opt_view(d: Option<Decimal>) -> Option<Number> {
    match d {
        Some(x) => Some(x@),
        None => None,
    }
}

impl Decimal {
    #[verifier::type_invariant]
    closed spec fn well_formed(self) -> bool {
        self@.valid()
    }

    /// The decimal with these parts, or `None` where the coefficient takes
    /// more than 96 bits or the scale is too large.
    pub fn from_parts(negative: bool, magnitude: u128, scale: u32) -> (res: Option<Decimal>)
        ensures
            opt_view(res) == ({
                let n = Number { negative, magnitude: magnitude as nat, scale: scale as nat };
                if n.valid() {
                    Some(n)
                } else {
                    None
                }
            }),
    {
        if magnitude < COEFFICIENT_LIMIT && scale <= SCALE_MAX {
            Some(Decimal { negative, magnitude, scale })
        } else {
            None
        }
    }

    pub fn zero() -> (res: Decimal)
        ensures
            res@ == zero_number(),
    {
        Decimal { negative: false, magnitude: 0, scale: 0 }
    }

    pub fn one() -> (res: Decimal)
        ensures
            res@ == one_number(),
    {
        Decimal { negative: false, magnitude: 1, scale: 0 }
    }

    /// The largest decimal.
    pub fn max_value() -> (res: Decimal)
        ensures
            res@ == (Number { negative: false, magnitude: (COEFFICIENT_LIMIT - 1) as nat, scale: 0 }),
    {
        Decimal { negative: false, magnitude: COEFFICIENT_LIMIT - 1, scale: 0 }
    }

    /// An unsigned integer as a decimal.
    pub fn from_unsigned(n: u64) -> (res: Decimal)
        ensures
            res@ == whole_number(n as int),
    {
        Decimal { negative: false, magnitude: n as u128, scale: 0 }
    }

    /// A signed integer as a decimal.
    pub fn from_signed(n: i32) -> (res: Decimal)
        ensures
            res@ == whole_number(n as int),
    {
        if n < 0 {
            Decimal { negative: true, magnitude: (-(n as i128)) as u128, scale: 0 }
        } else {
            Decimal { negative: false, magnitude: n as u128, scale: 0 }
        }
    }

    /// The coefficient `n` with `scale` digits after the point.
    pub fn new(n: u64, scale: u8) -> (res: Decimal)
        requires
            scale <= SCALE_MAX,
        ensures
            res@ == (Number { negative: false, magnitude: n as nat, scale: scale as nat }),
    {
        Decimal { negative: false, magnitude: n as u128, scale: scale as u32 }
    }

    /// Whether the number has a minus sign, which a zero can have too.
    pub fn is_negative(&self) -> (res: bool)
        ensures
            res == self@.negative,
            self@.valid(),
    {
        proof {
            use_type_invariant(self);
        }
        self.negative
    }

    /// The coefficient. It has 96 bits, and the scale is at most 28.
    pub fn magnitude(&self) -> (res: u128)
        ensures
            res == self@.magnitude,
            self@.valid(),
    {
        proof {
            use_type_invariant(self);
        }
        self.magnitude
    }

    /// How many digits stand after the point.
    pub fn scale(&self) -> (res: u32)
        ensures
            res == self@.scale,
            self@.valid(),
    {
        proof {
            use_type_invariant(self);
        }
        self.scale
    }

    /// The same number with the other sign, a zero too.
    pub fn negated(self) -> (res: Decimal)
        ensures
            res@ == self@.negated(),
    {
        proof {
            use_type_invariant(&self);
        }
        Decimal { negative: !self.negative, magnitude: self.magnitude, scale: self.scale }
    }

    /// The same number without its sign.
    pub fn abs(self) -> (res: Decimal)
        ensures
            res@ == self@.absolute(),
    {
        proof {
            use_type_invariant(&self);
        }
        Decimal { negative: false, magnitude: self.magnitude, scale: self.scale }
    }

    /// The larger of two decimals, the first where their values are equal.
    pub fn max(self, other: Decimal) -> (res: Decimal)
        ensures
            res@ == larger(self@, other@),
    {
        if self < other {
            other
        } else {
            self
        }
    }

    /// Whether the number can be written with `digits` digits after the point.
    pub fn shows(&self, digits: usize) -> (res: bool)
        ensures
            res == showable(self@, digits as nat),
    {
        if digits == 0 {
            return true;
        }
        let mut whole: u128 = self.magnitude;
        let mut i: u32 = 0;
        assert(whole as nat / ten_to(0) == whole) by {
            assert(ten_to(0) == 1);
            assert(whole as nat / 1 == whole);
        }
        while i < self.scale
            invariant
                i <= self.scale,
                whole == self.magnitude as nat / ten_to(i as nat),
            decreases self.scale - i,
        {
            proof {
                lemma_ten_to_positive(i as nat);
                vstd::arithmetic::div_mod::lemma_div_denominator(
                    self.magnitude as int,
                    ten_to(i as nat) as int,
                    10,
                );
                let p = ten_to(i as nat) as int;
                assert(p * 10 == 10 * p) by (nonlinear_arith);
            }
            whole = whole / 10;
            i += 1;
        }
        let count: u128 = digit_count(whole);
        let reach: u128 = if digits < 28 {
            digits as u128
        } else {
            28
        };
        digits <= 0xffff && count <= 31 && count + 1 + reach <= 32
    }

    /// The number with all the digits that it has.
    pub fn plain(self) -> (res: String)
        ensures
            res@ == fixed_text(self@, self@.scale),
    {
        proof {
            use_type_invariant(&self);
            lemma_showable_at_own_scale(self@);
        }
        self.fixed(self.scale as usize)
    }

    /// Adds with `rust_decimal::Decimal::checked_add`: a zero gives back the
    /// other number, a sum that fits at the common scale is exact, elsewhere
    /// the crate rounds, and it returns `None` on overflow. A sum has the sign
    /// of its numbers where they have the same, so numbers that are not negative
    /// do not add up to a negative one.
    #[verifier::external_body]
    pub(crate) fn checked_add(self, other: Decimal) -> (res: Option<Decimal>)
        ensures
            opt_view(res) == (if sum_is_exact(self@, other@) {
                Some(exact_sum(self@, other@))
            } else {
                rounded_sum(self@, other@)
            }),
            res matches Some(r) ==> at_most(zero_number(), self@) && at_most(zero_number(), other@)
                ==> at_most(zero_number(), r@),
    {
        let mut a = rust_decimal::Decimal::from_i128_with_scale(self.magnitude as i128, self.scale);
        a.set_sign_negative(self.negative);
        let mut b = rust_decimal::Decimal::from_i128_with_scale(other.magnitude as i128, other.scale);
        b.set_sign_negative(other.negative);
        let r = a.checked_add(b)?;
        let (negative, magnitude) = (r.is_sign_negative(), r.mantissa().unsigned_abs());
        Some(Decimal { negative, magnitude, scale: r.scale() })
    }

    /// Subtracts with `rust_decimal::Decimal::checked_sub`: taking away a zero
    /// changes nothing, what is taken from a zero is negated, a difference that
    /// fits at the common scale is exact, elsewhere the crate rounds, and it
    /// returns `None` on overflow.
    #[verifier::external_body]
    pub(crate) fn checked_sub(self, other: Decimal) -> (res: Option<Decimal>)
        ensures
            opt_view(res) == (if difference_is_exact(self@, other@) {
                Some(exact_difference(self@, other@))
            } else {
                rounded_difference(self@, other@)
            }),
    {
        let mut a = rust_decimal::Decimal::from_i128_with_scale(self.magnitude as i128, self.scale);
        a.set_sign_negative(self.negative);
        let mut b = rust_decimal::Decimal::from_i128_with_scale(other.magnitude as i128, other.scale);
        b.set_sign_negative(other.negative);
        let r = a.checked_sub(b)?;
        let (negative, magnitude) = (r.is_sign_negative(), r.mantissa().unsigned_abs());
        Some(Decimal { negative, magnitude, scale: r.scale() })
    }

    /// Multiplies with `rust_decimal::Decimal::checked_mul`: a zero gives a
    /// plain zero, a product whose coefficient and scale fit is exact,
    /// elsewhere the crate rounds, and it returns `None` on overflow.
    #[verifier::external_body]
    pub(crate) fn checked_mul(self, other: Decimal) -> (res: Option<Decimal>)
        ensures
            opt_view(res) == (if product_is_exact(self@, other@) {
                Some(exact_product(self@, other@))
            } else {
                rounded_product(self@, other@)
            }),
    {
        let mut a = rust_decimal::Decimal::from_i128_with_scale(self.magnitude as i128, self.scale);
        a.set_sign_negative(self.negative);
        let mut b = rust_decimal::Decimal::from_i128_with_scale(other.magnitude as i128, other.scale);
        b.set_sign_negative(other.negative);
        let r = a.checked_mul(b)?;
        let (negative, magnitude) = (r.is_sign_negative(), r.mantissa().unsigned_abs());
        Some(Decimal { negative, magnitude, scale: r.scale() })
    }

    /// Divides with `rust_decimal::Decimal::checked_div`: by zero `None`, of
    /// zero a plain zero, exact where the coefficients divide evenly and the
    /// scale does not go below zero; elsewhere the crate rounds, and it returns
    /// `None` on overflow. The sign is that of the two signs together, so a
    /// number that is not negative, over a positive one, does not give a
    /// negative one.
    #[verifier::external_body]
    pub(crate) fn checked_div(self, other: Decimal) -> (res: Option<Decimal>)
        ensures
            opt_view(res) == (if other@.is_zero() {
                None
            } else if quotient_is_exact(self@, other@) {
                Some(exact_quotient(self@, other@))
            } else {
                rounded_quotient(self@, other@)
            }),
            res matches Some(r) ==> at_most(zero_number(), self@) && less(zero_number(), other@)
                ==> at_most(zero_number(), r@),
    {
        let mut a = rust_decimal::Decimal::from_i128_with_scale(self.magnitude as i128, self.scale);
        a.set_sign_negative(self.negative);
        let mut b = rust_decimal::Decimal::from_i128_with_scale(other.magnitude as i128, other.scale);
        b.set_sign_negative(other.negative);
        let r = a.checked_div(b)?;
        let (negative, magnitude) = (r.is_sign_negative(), r.mantissa().unsigned_abs());
        Some(Decimal { negative, magnitude, scale: r.scale() })
    }

    /// Rounds down with `rust_decimal::Decimal::floor`: an integer stays as it
    /// is written, anything else becomes the next integer below.
    #[verifier::external_body]
    pub(crate) fn floor(self) -> (res: Decimal)
        ensures
            res@ == floor_of(self@),
    {
        let mut a = rust_decimal::Decimal::from_i128_with_scale(self.magnitude as i128, self.scale);
        a.set_sign_negative(self.negative);
        let r = a.floor();
        let (negative, magnitude) = (r.is_sign_negative(), r.mantissa().unsigned_abs());
        Decimal { negative, magnitude, scale: r.scale() }
    }

    /// Compares with `<` on `rust_decimal::Decimal`: the order of the values,
    /// whatever the scales and the signs of zeros.
    #[verifier::external_body]
    fn below(&self, other: &Decimal) -> (res: bool)
        ensures
            res == less(self@, other@),
    {
        let mut a = rust_decimal::Decimal::from_i128_with_scale(self.magnitude as i128, self.scale);
        a.set_sign_negative(self.negative);
        let mut b = rust_decimal::Decimal::from_i128_with_scale(other.magnitude as i128, other.scale);
        b.set_sign_negative(other.negative);
        a < b
    }

    /// Reads a decimal with `rust_decimal`'s `FromStr`; the error is the text
    /// that the crate shows for its own.
    #[verifier::external_body]
    pub(crate) fn parse(text: &str) -> (res: Result<Decimal, String>)
        ensures
            match res {
                Ok(d) => parsed_decimal(text@) == Ok::<Number, Seq<char>>(d@),
                Err(e) => parsed_decimal(text@) == Err::<Number, Seq<char>>(e@),
            },
    {
        match text.parse::<rust_decimal::Decimal>() {
            Ok(r) => Ok(
                Decimal {
                    negative: r.is_sign_negative(),
                    magnitude: r.mantissa().unsigned_abs(),
                    scale: r.scale(),
                },
            ),
            Err(e) => Err(e.to_string()),
        }
    }

    /// Writes the number with `rust_decimal`'s `Display` at a precision: the
    /// sign, the whole part and exactly `digits` digits after the point, cut
    /// off rather than rounded. The crate writes into a buffer of 32
    /// characters, and panics where that is too short.
    #[verifier::external_body]
    pub(crate) fn fixed(self, digits: usize) -> (res: String)
        requires
            showable(self@, digits as nat),
        ensures
            res@ == fixed_text(self@, digits as nat),
    {
        let mut a = rust_decimal::Decimal::from_i128_with_scale(self.magnitude as i128, self.scale);
        a.set_sign_negative(self.negative);
        format!("{0:.1$}", a, digits)
    }
}

impl PartialEq for Decimal {
    /// Numeric equality, whatever the scales.
    fn eq(&self, other: &Decimal) -> (res: bool) {
        !self.below(other) && !other.below(self)
    }
}

impl vstd::std_specs::cmp::PartialEqSpecImpl for Decimal {
    open spec fn obeys_eq_spec() -> bool {
        true
    }

    open spec fn eq_spec(&self, other: &Decimal) -> bool {
        same_value(self@, other@)
    }
}

impl PartialOrd for Decimal {
    /// Numeric order, whatever the scales.
    fn partial_cmp(&self, other: &Decimal) -> (res: Option<Ordering>) {
        if self.below(other) {
            Some(Ordering::Less)
        } else if other.below(self) {
            Some(Ordering::Greater)
        } else {
            Some(Ordering::Equal)
        }
    }
}

impl vstd::std_specs::cmp::PartialOrdSpecImpl for Decimal {
    open spec fn obeys_partial_cmp_spec() -> bool {
        true
    }

    open spec fn partial_cmp_spec(&self, other: &Decimal) -> Option<Ordering> {
        if less(self@, other@) {
            Some(Ordering::Less)
        } else if less(other@, self@) {
            Some(Ordering::Greater)
        } else {
            Some(Ordering::Equal)
        }
    }
}

/// Powers of ten are positive and multiply by adding their exponents.
proof fn lemma_ten_to_split(a: nat, b: nat)
    ensures
        ten_to(a + b) == ten_to(a) * ten_to(b),
        ten_to(a) > 0,
    decreases a,
{
    let y = ten_to(b) as int;
    if a > 0 {
        lemma_ten_to_split((a - 1) as nat, b);
        let x = ten_to((a - 1) as nat) as int;
        assert((10 * x) * y == 10 * (x * y)) by (nonlinear_arith);
        assert((a + b - 1) as nat == (a - 1) as nat + b);
    } else {
        assert(1 * y == y) by (nonlinear_arith);
    }
}

pub proof fn lemma_ten_to_positive(k: nat)
    ensures
        ten_to(k) > 0,
{
    lemma_ten_to_split(k, 0);
}

/// A number below ten to the power `k` has at most `k` digits.
proof fn lemma_digits_below(n: nat, k: nat)
    requires
        k > 0,
        n < ten_to(k),
    ensures
        nat_text(n).len() <= k,
    decreases k,
{
    if n >= 10 {
        assert(k > 1) by {
            reveal_with_fuel(ten_to, 2);
        }
        lemma_digits_below(n / 10, (k - 1) as nat);
    }
}

/// Every decimal can be written with all the digits that it has.
proof fn lemma_showable_at_own_scale(a: Number)
    requires
        a.valid(),
    ensures
        showable(a, a.scale),
{
    let s = a.scale;
    let rest = (29 - s) as nat;
    assert(COEFFICIENT_LIMIT <= ten_to(29)) by {
        reveal_with_fuel(ten_to, 30);
    }
    lemma_ten_to_split(s, rest);
    let (m, p, q) = (a.magnitude as int, ten_to(s) as int, ten_to(rest) as int);
    assert(m / p < q) by (nonlinear_arith)
        requires
            m < p * q,
            p > 0,
            m >= 0,
    ;
    lemma_digits_below(a.magnitude / ten_to(s), rest);
}

/// Multiplying two integers by the same positive factors keeps their order.
proof fn lemma_scaled_order(l: int, r: int, u: int, v: int, k: int, t: int)
    by (nonlinear_arith)
    requires
        k > 0,
        t > 0,
        l * k == u * t,
        r * k == v * t,
    ensures
        l < r <==> u < v,
        r < l <==> v < u,
        l == r <==> u == v,
{
}

/// The order of valid numbers is the order of their values, and numbers of the
/// same value are those that neither precede nor follow each other.
pub proof fn law_order_is_by_value(a: Number, b: Number)
    requires
        a.valid(),
        b.valid(),
    ensures
        less(a, b) <==> a.units() < b.units(),
        same_value(a, b) <==> a.units() == b.units(),
        at_most(a, b) <==> a.units() <= b.units(),
{
    let m = SCALE_MAX as nat;
    lemma_ten_to_split(a.scale, (m - a.scale) as nat);
    lemma_ten_to_split(b.scale, (m - b.scale) as nat);
    lemma_ten_to_split((m - a.scale) as nat, 0);
    lemma_ten_to_split((m - b.scale) as nat, 0);
    lemma_ten_to_split(m, 0);
    let x = a.signed();
    let y = b.signed();
    let pa = ten_to(a.scale) as int;
    let qa = ten_to((m - a.scale) as nat) as int;
    let pb = ten_to(b.scale) as int;
    let qb = ten_to((m - b.scale) as nat) as int;
    assert((x * pb) * (qa * qb) == (x * qa) * (pb * qb)) by (nonlinear_arith);
    assert((y * pa) * (qa * qb) == (y * qb) * (pa * qa)) by (nonlinear_arith);
    assert(qa * qb > 0) by (nonlinear_arith)
        requires
            qa > 0,
            qb > 0,
    ;
    lemma_scaled_order(x * pb, y * pa, x * qa, y * qb, qa * qb, ten_to(m) as int);
}

/// The order of numbers is transitive.
pub proof fn law_order_is_transitive(a: Number, b: Number, c: Number)
    requires
        less(a, b),
        at_most(b, c),
    ensures
        less(a, c),
{
    lemma_ten_to_positive(a.scale);
    lemma_ten_to_positive(b.scale);
    lemma_ten_to_positive(c.scale);
    let (x, y, z) = (a.signed(), b.signed(), c.signed());
    let (p, q, r) = (ten_to(a.scale) as int, ten_to(b.scale) as int, ten_to(c.scale) as int);
    assert(x * r < z * p) by (nonlinear_arith)
        requires
            x * q < y * p,
            y * r <= z * q,
            p > 0,
            q > 0,
            r > 0,
    {
        assert((x * q) * r < (y * p) * r);
        assert((y * r) * p <= (z * q) * p);
        assert((x * r) * q < (z * p) * q);
    }
}

/// Writing a number at a larger scale does not change its value.
proof fn lemma_units_of_rescaled(n: int, from: nat, to: nat)
    requires
        from <= to <= SCALE_MAX,
    ensures
        (n * ten_to((to - from) as nat)) * ten_to((SCALE_MAX - to) as nat) == n * ten_to(
            (SCALE_MAX - from) as nat,
        ),
{
    lemma_ten_to_split((to - from) as nat, (SCALE_MAX - to) as nat);
    assert((SCALE_MAX - from) as nat == (to - from) as nat + (SCALE_MAX - to) as nat);
    let p = ten_to((to - from) as nat) as int;
    let q = ten_to((SCALE_MAX - to) as nat) as int;
    assert((n * p) * q == n * (p * q)) by (nonlinear_arith);
}

/// A zero has the value zero at any scale.
proof fn lemma_zero_units(a: Number)
    requires
        a.is_zero(),
    ensures
        a.units() == 0,
        a.signed_at(SCALE_MAX as nat) == 0,
{
    let p = ten_to((SCALE_MAX - a.scale) as nat) as int;
    assert(0 * p == 0) by (nonlinear_arith);
}

/// A sum that needs no rounding is one, and its value is the sum of the
/// values.
pub proof fn law_exact_sum(a: Number, b: Number)
    requires
        a.valid(),
        b.valid(),
        sum_is_exact(a, b),
    ensures
        sum(a, b) == Some(exact_sum(a, b)),
        exact_sum(a, b).valid(),
        exact_sum(a, b).units() == a.units() + b.units(),
{
    if a.is_zero() {
        lemma_zero_units(a);
    } else if b.is_zero() {
        lemma_zero_units(b);
    } else {
        let s = common_scale(a, b);
        let q = ten_to((SCALE_MAX - s) as nat) as int;
        lemma_units_of_rescaled(a.signed(), a.scale, s);
        lemma_units_of_rescaled(b.signed(), b.scale, s);
        let x = a.signed_at(s);
        let y = b.signed_at(s);
        assert((x + y) * q == x * q + y * q) by (nonlinear_arith);
    }
}

/// A difference that needs no rounding is one, and its value is the difference
/// of the values.
pub proof fn law_exact_difference(a: Number, b: Number)
    requires
        a.valid(),
        b.valid(),
        difference_is_exact(a, b),
    ensures
        difference(a, b) == Some(exact_difference(a, b)),
        exact_difference(a, b).valid(),
        exact_difference(a, b).units() == a.units() - b.units(),
{
    if a.is_zero() {
        lemma_zero_units(a);
        let q = ten_to((SCALE_MAX - b.scale) as nat) as int;
        let y = b.signed();
        assert((-y) * q == -(y * q)) by (nonlinear_arith);
    } else if b.is_zero() {
        lemma_zero_units(b);
    } else {
        let s = common_scale(a, b);
        let q = ten_to((SCALE_MAX - s) as nat) as int;
        lemma_units_of_rescaled(a.signed(), a.scale, s);
        lemma_units_of_rescaled(b.signed(), b.scale, s);
        let x = a.signed_at(s);
        let y = b.signed_at(s);
        assert((x - y) * q == x * q - y * q) by (nonlinear_arith);
    }
}

/// The coefficient of an exact product is the product of the coefficients.
proof fn lemma_product_signed(a: Number, b: Number)
    ensures
        exact_product(a, b).signed() == a.signed() * b.signed(),
{
    let (x, y) = (a.magnitude as int, b.magnitude as int);
    assert(0 * y == 0 && x * 0 == 0 && x * (-y) == -(x * y) && (-x) * y == -(x * y) && (-x) * (-y)
        == x * y && 0 * (-y) == 0 && (-x) * 0 == 0) by (nonlinear_arith);
}

/// A product that needs no rounding is one, and multiplying by a number that is
/// not negative keeps the order.
pub proof fn law_exact_product_keeps_order(a: Number, b: Number, v: Number)
    requires
        a.valid(),
        b.valid(),
        v.valid(),
        product_is_exact(a, v),
        product_is_exact(b, v),
        at_most(a, b),
        at_most(zero_number(), v),
    ensures
        product(a, v) == Some(exact_product(a, v)),
        product(b, v) == Some(exact_product(b, v)),
        exact_product(a, v).valid(),
        exact_product(b, v).valid(),
        at_most(exact_product(a, v), exact_product(b, v)),
{
    lemma_product_signed(a, v);
    lemma_product_signed(b, v);
    lemma_ten_to_positive(a.scale);
    lemma_ten_to_positive(b.scale);
    lemma_ten_to_positive(v.scale);
    lemma_ten_to_split(a.scale, v.scale);
    lemma_ten_to_split(b.scale, v.scale);
    assert(ten_to(0) == 1);
    let (x, y, z) = (a.signed(), b.signed(), v.signed());
    let (p, q, r) = (ten_to(a.scale) as int, ten_to(b.scale) as int, ten_to(v.scale) as int);
    let one = ten_to(0) as int;
    assert(0 * r == 0 && z * one == z && (x * z) * one == x * z && (y * z) * one == y * z) by (
    nonlinear_arith)
        requires
            one == 1,
    ;
    assert(zero_number().signed() == 0);
    if v.is_zero() {
    } else if a.is_zero() && b.is_zero() {
    } else if a.is_zero() {
        assert(y * z >= 0) by (nonlinear_arith)
            requires
                z >= 0,
                p > 0,
                0 * q <= y * p,
        ;
        let s = ten_to(b.scale + v.scale) as int;
        assert(0 * s == 0) by (nonlinear_arith);
    } else if b.is_zero() {
        assert(x * z <= 0) by (nonlinear_arith)
            requires
                z >= 0,
                q > 0,
                x * q <= 0 * p,
        ;
        let s = ten_to(a.scale + v.scale) as int;
        assert(0 * s == 0) by (nonlinear_arith);
    } else {
        assert((x * z) * (q * r) <= (y * z) * (p * r)) by (nonlinear_arith)
            requires
                x * q <= y * p,
                z >= 0,
                r > 0,
        {
            assert((x * q) * (z * r) <= (y * p) * (z * r));
            assert((x * q) * (z * r) == (x * z) * (q * r));
            assert((y * p) * (z * r) == (y * z) * (p * r));
        }
    }
}

/// One, in units of the last digit that any decimal can have.
pub open spec fn unit() -> int {
    ten_to(SCALE_MAX as nat) as int
}

/// One of the units is positive, and zero and one have as many as they should.
pub proof fn lemma_unit()
    ensures
        unit() > 0,
        zero_number().valid(),
        zero_number().units() == 0,
        one_number().valid(),
        one_number().units() == unit(),
{
    lemma_ten_to_positive(SCALE_MAX as nat);
    lemma_zero_units(zero_number());
    let u = unit();
    assert(1 * u == u) by (nonlinear_arith);
}

/// A whole number has as many units as that many ones.
pub proof fn lemma_whole_units(n: int)
    ensures
        whole_number(n).units() == n * unit(),
        -COEFFICIENT_LIMIT < n < COEFFICIENT_LIMIT ==> whole_number(n).valid(),
{
}

/// Without its sign a number has the absolute value.
pub proof fn law_absolute_value(a: Number)
    requires
        a.valid(),
    ensures
        a.absolute().valid(),
        a.absolute().units() == (if a.units() < 0 {
            -a.units()
        } else {
            a.units()
        }),
{
    let p = ten_to((SCALE_MAX - a.scale) as nat) as int;
    lemma_ten_to_positive((SCALE_MAX - a.scale) as nat);
    let m = a.magnitude as int;
    assert((-m) * p == -(m * p) && m * p >= 0) by (nonlinear_arith)
        requires
            m >= 0,
            p > 0,
    ;
}

/// A product that needs no rounding is one, and its value is the product of the
/// values.
pub proof fn law_exact_product(a: Number, b: Number)
    requires
        a.valid(),
        b.valid(),
        product_is_exact(a, b),
    ensures
        product(a, b) == Some(exact_product(a, b)),
        exact_product(a, b).valid(),
        exact_product(a, b).units() * unit() == a.units() * b.units(),
{
    let (x, y, u) = (a.units(), b.units(), unit());
    if a.is_zero() || b.is_zero() {
        lemma_unit();
        if a.is_zero() {
            lemma_zero_units(a);
        } else {
            lemma_zero_units(b);
        }
        assert(0 * u == 0 && 0 * y == 0 && x * 0 == 0) by (nonlinear_arith);
    } else {
        lemma_product_signed(a, b);
        let rest = (SCALE_MAX - a.scale - b.scale) as nat;
        lemma_ten_to_split(rest, SCALE_MAX as nat);
        lemma_ten_to_split((SCALE_MAX - a.scale) as nat, (SCALE_MAX - b.scale) as nat);
        assert(rest + SCALE_MAX as nat == (SCALE_MAX - a.scale) as nat + (SCALE_MAX - b.scale) as nat);
        let (p, q, r) = (
            ten_to((SCALE_MAX - a.scale) as nat) as int,
            ten_to((SCALE_MAX - b.scale) as nat) as int,
            ten_to(rest) as int,
        );
        let (m, n) = (a.signed(), b.signed());
        assert(((m * n) * r) * u == (m * p) * (n * q)) by (nonlinear_arith)
            requires
                r * u == p * q,
        {
            assert(((m * n) * r) * u == (m * n) * (r * u));
            assert((m * p) * (n * q) == (m * n) * (p * q));
        }
    }
}

/// A quotient that needs no rounding is one, and its value times that of the
/// divisor is that of the dividend.
pub proof fn law_exact_quotient(a: Number, b: Number)
    requires
        a.valid(),
        b.valid(),
        quotient_is_exact(a, b),
    ensures
        quotient(a, b) == Some(exact_quotient(a, b)),
        exact_quotient(a, b).valid(),
        exact_quotient(a, b).units() * b.units() == a.units() * unit(),
{
    let (y, u) = (b.units(), unit());
    if a.is_zero() {
        lemma_unit();
        lemma_zero_units(a);
        assert(0 * u == 0 && 0 * y == 0) by (nonlinear_arith);
    } else {
        let q = exact_quotient(a, b);
        let (m, n, k) = (a.magnitude as int, b.magnitude as int, q.magnitude as int);
        assert(m == n * (m / n) + m % n && 0 <= m / n <= m) by (nonlinear_arith)
            requires
                n > 0,
                m >= 0,
        ;
        assert(n * k == k * n) by (nonlinear_arith);
        assert(k * (-n) == -(k * n) && (-k) * n == -(k * n) && (-k) * (-n) == k * n) by (
        nonlinear_arith);
        assert(q.signed() * b.signed() == a.signed());
        let (s, t, v) = (
            (SCALE_MAX - q.scale) as nat,
            (SCALE_MAX - b.scale) as nat,
            (SCALE_MAX - a.scale) as nat,
        );
        lemma_ten_to_split(s, t);
        lemma_ten_to_split(v, SCALE_MAX as nat);
        assert(s + t == v + SCALE_MAX as nat);
        let (p, r, w) = (ten_to(s) as int, ten_to(t) as int, ten_to(v) as int);
        let (x, z, d) = (q.signed(), b.signed(), a.signed());
        assert((x * p) * (z * r) == (d * w) * u) by (nonlinear_arith)
            requires
                x * z == d,
                p * r == w * u,
        {
            assert((x * p) * (z * r) == (x * z) * (p * r));
            assert((d * w) * u == d * (w * u));
        }
    }
}

/// Rounding down gives the whole number at or just below.
pub proof fn law_floor_is_the_whole_number_below(a: Number)
    requires
        a.valid(),
    ensures
        floor_of(a).valid(),
        floor_of(a).scale == 0,
        floor_of(a).units() == floor_of(a).signed() * unit(),
        floor_of(a).units() <= a.units() < floor_of(a).units() + unit(),
{
    lemma_unit();
    let f = floor_of(a);
    if a.scale > 0 {
        lemma_ten_to_split(a.scale, (SCALE_MAX - a.scale) as nat);
        lemma_ten_to_positive((SCALE_MAX - a.scale) as nat);
        let (p, t, u) = (
            ten_to(a.scale) as int,
            ten_to((SCALE_MAX - a.scale) as nat) as int,
            unit(),
        );
        assert(p >= 10) by {
            lemma_ten_to_positive((a.scale - 1) as nat);
        }
        let m = a.magnitude as int;
        let (w, r) = (m / p, m % p);
        assert(m == w * p + r && 0 <= r < p && 0 <= w && (m > 0 ==> w < m)) by (nonlinear_arith)
            requires
                m >= 0,
                p >= 10,
                w == m / p,
                r == m % p,
        ;
        assert(m * t == w * u + r * t && 0 <= r * t < u && (-m) * t == -(m * t) && (-w) * u == -(w
            * u) && (w + 1) * u == w * u + u && (-(w + 1)) * u == -(w * u) - u && (r > 0 ==> r * t
            > 0) && (r == 0 ==> r * t == 0)) by (nonlinear_arith)
            requires
                m == w * p + r,
                0 <= r < p,
                u == p * t,
                t > 0,
        {
            assert((w * p + r) * t == w * (p * t) + r * t);
            assert(r * t < p * t);
        }
    }
}

/// The larger of two numbers has the larger value.
pub proof fn law_larger_has_the_larger_value(a: Number, b: Number)
    requires
        a.valid(),
        b.valid(),
    ensures
        larger(a, b).valid(),
        larger(a, b).units() == (if a.units() < b.units() {
            b.units()
        } else {
            a.units()
        }),
{
    law_order_is_by_value(a, b);
}

/// With the other sign a number has the other value.
pub proof fn law_negated_value(a: Number)
    ensures
        a.negated().units() == -a.units(),
        a.valid() ==> a.negated().valid(),
        a.negated().negated() == a,
{
    let p = ten_to((SCALE_MAX - a.scale) as nat) as int;
    let m = a.magnitude as int;
    assert((-m) * p == -(m * p)) by (nonlinear_arith);
}

} // verus!
