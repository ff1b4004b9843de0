//! Arbitrary-precision numbers.
//!
//! An [`Integer`] is kept as its canonical decimal text, the form in which the
//! interpreter reads and prints numbers; its meaning is the mathematical
//! integer that the text denotes. Its arithmetic is carried out by GMP through
//! the `rug` crate.
//!
//! A [`Float`] is a binary floating-point number `mantissa * 2^exponent`. Its
//! rounding arithmetic is carried out by the `dashu-float` crate, at a
//! precision that the caller names in bits, rounding to nearest with ties to
//! even.

use vstd::prelude::*;
use vstd::arithmetic::power::pow;
use vstd::arithmetic::power2::pow2;

verus! {

/// The character of a decimal digit.
pub open spec fn digit_char(d: int) -> char {
    if d == 0 {
        '0'
    } else if d == 1 {
        '1'
    } else if d == 2 {
        '2'
    } else if d == 3 {
        '3'
    } else if d == 4 {
        '4'
    } else if d == 5 {
        '5'
    } else if d == 6 {
        '6'
    } else if d == 7 {
        '7'
    } else if d == 8 {
        '8'
    } else {
        '9'
    }
}

/// The value of a decimal digit; zero for any other character.
pub open spec fn digit_of(c: char) -> int {
    if c == '1' {
        1
    } else if c == '2' {
        2
    } else if c == '3' {
        3
    } else if c == '4' {
        4
    } else if c == '5' {
        5
    } else if c == '6' {
        6
    } else if c == '7' {
        7
    } else if c == '8' {
        8
    } else if c == '9' {
        9
    } else {
        0
    }
}

/// Whether `c` is one of the ASCII digits `0` to `9`.
pub open spec fn is_digit(c: char) -> bool {
    '0' <= c && c <= '9'
}

/// Whether `s` is a non-empty run of ASCII digits.
pub open spec fn is_digits(s: Seq<char>) -> bool {
    s.len() > 0 && forall|i: int| 0 <= i < s.len() ==> is_digit(#[trigger] s[i])
}

/// The number written by a run of decimal digits, most significant first.
pub open spec fn digits_value(s: Seq<char>) -> nat
    decreases s.len(),
{
    if s.len() == 0 {
        0
    } else {
        (10 * digits_value(s.drop_last()) + digit_of(s.last())) as nat
    }
}

/// The integer written by a decimal text with an optional leading minus sign.
pub open spec fn decimal_value(s: Seq<char>) -> int {
    if s.len() > 0 && s[0] == '-' {
        -(digits_value(s.skip(1)) as int)
    } else {
        digits_value(s) as int
    }
}

/// The decimal digits of a natural number, without leading zeros.
pub open spec fn nat_text(n: nat) -> Seq<char>
    decreases n,
{
    if n < 10 {
        seq![digit_char(n as int)]
    } else {
        nat_text(n / 10).push(digit_char((n % 10) as int))
    }
}

/// The canonical decimal text of an integer: a minus sign for negative
/// numbers, then the digits without leading zeros.
pub open spec fn decimal_text(i: int) -> Seq<char> {
    if i < 0 {
        seq!['-'] + nat_text((-i) as nat)
    } else {
        nat_text(i as nat)
    }
}

/// The quotient of `a` by `b` rounded towards zero.
pub open spec fn quotient_toward_zero(a: int, b: int) -> int
    recommends
        b != 0,
{
    if a >= 0 && b > 0 {
        a / b
    } else if a >= 0 {
        -(a / (-b))
    } else if b > 0 {
        -((-a) / b)
    } else {
        (-a) / (-b)
    }
}

/// The remainder that goes with [`quotient_toward_zero`]; it has the sign of `a`.
pub open spec fn remainder_toward_zero(a: int, b: int) -> int
    recommends
        b != 0,
{
    a - b * quotient_toward_zero(a, b)
}

/// An arbitrary-precision signed integer. Its text is always the canonical
/// decimal text of its value, so reading the text back cannot fail.
#[derive(Debug, PartialEq, Eq)]
pub struct Integer {
    text: String,
}

impl View for Integer {
    type V = int;

    closed spec fn view(&self) -> int {
        decimal_value(self.text@)
    }
}

/// Builds the integer that `rug::Integer::from` gives for a `usize`: the
/// number itself.
#[verifier::external_body]
fn rug_from_usize(n: usize) -> (r: Integer)
    ensures
        r@ == n,
{
    Integer { text: rug::Integer::from(n).to_string() }
}

/// Reads a run of decimal digits with `rug::Integer::from_str_radix` in radix
/// ten, which yields the number that the digits write, leading zeros ignored.
#[verifier::external_body]
fn rug_from_digits(digits: &str) -> (r: Integer)
    requires
        is_digits(digits@),
    ensures
        r@ == digits_value(digits@),
{
    Integer { text: rug::Integer::from_str_radix(digits, 10).unwrap().to_string() }
}

/// Adds with `rug::Integer`'s `+`, which is exact.
#[verifier::external_body]
fn rug_add(a: &Integer, b: &Integer) -> (r: Integer)
    ensures
        r@ == a@ + b@,
{
    let x = rug::Integer::from_str_radix(&a.text, 10).unwrap();
    let y = rug::Integer::from_str_radix(&b.text, 10).unwrap();
    Integer { text: (x + y).to_string() }
}

/// Subtracts with `rug::Integer`'s `-`, which is exact.
#[verifier::external_body]
fn rug_sub(a: &Integer, b: &Integer) -> (r: Integer)
    ensures
        r@ == a@ - b@,
{
    let x = rug::Integer::from_str_radix(&a.text, 10).unwrap();
    let y = rug::Integer::from_str_radix(&b.text, 10).unwrap();
    Integer { text: (x - y).to_string() }
}

/// Multiplies with `rug::Integer`'s `*`, which is exact.
#[verifier::external_body]
fn rug_mul(a: &Integer, b: &Integer) -> (r: Integer)
    ensures
        r@ == a@ * b@,
{
    let x = rug::Integer::from_str_radix(&a.text, 10).unwrap();
    let y = rug::Integer::from_str_radix(&b.text, 10).unwrap();
    Integer { text: (x * y).to_string() }
}

/// Divides with `rug::Integer`'s `/`, which rounds the quotient towards zero
/// and panics on a zero divisor.
#[verifier::external_body]
fn rug_div(a: &Integer, b: &Integer) -> (r: Integer)
    requires
        b@ != 0,
    ensures
        r@ == quotient_toward_zero(a@, b@),
{
    let x = rug::Integer::from_str_radix(&a.text, 10).unwrap();
    let y = rug::Integer::from_str_radix(&b.text, 10).unwrap();
    Integer { text: (x / y).to_string() }
}

/// Takes the remainder with `rug::Integer`'s `%`, which goes with the quotient
/// rounded towards zero and panics on a zero divisor.
#[verifier::external_body]
fn rug_rem(a: &Integer, b: &Integer) -> (r: Integer)
    requires
        b@ != 0,
    ensures
        r@ == remainder_toward_zero(a@, b@),
{
    let x = rug::Integer::from_str_radix(&a.text, 10).unwrap();
    let y = rug::Integer::from_str_radix(&b.text, 10).unwrap();
    Integer { text: (x % y).to_string() }
}

/// Raises to a power with `rug::ops::Pow<u32>` for `rug::Integer`, which is
/// exact.
#[verifier::external_body]
fn rug_pow(a: &Integer, e: u32) -> (r: Integer)
    ensures
        r@ == pow(a@, e as nat),
{
    let x = rug::Integer::from_str_radix(&a.text, 10).unwrap();
    Integer { text: rug::ops::Pow::pow(x, e).to_string() }
}

/// Compares with `rug::Integer`'s `<`.
#[verifier::external_body]
fn rug_lt(a: &Integer, b: &Integer) -> (r: bool)
    ensures
        r == (a@ < b@),
{
    let x = rug::Integer::from_str_radix(&a.text, 10).unwrap();
    let y = rug::Integer::from_str_radix(&b.text, 10).unwrap();
    x < y
}

/// Converts with `rug::Integer::to_u32`, which gives the value when it fits
/// and nothing otherwise.
#[verifier::external_body]
fn rug_to_u32(a: &Integer) -> (r: Option<u32>)
    ensures
        0 <= a@ <= u32::MAX ==> r == Some(a@ as u32),
        !(0 <= a@ <= u32::MAX) ==> r is None,
{
    rug::Integer::from_str_radix(&a.text, 10).unwrap().to_u32()
}

/// Converts with `rug::Integer::to_usize_wrapping`, which keeps the low bits
/// of the two's complement form.
#[verifier::external_body]
fn rug_to_usize_wrapping(a: &Integer) -> (r: usize)
    ensures
        r == a@ % (usize::MAX + 1),
{
    rug::Integer::from_str_radix(&a.text, 10).unwrap().to_usize_wrapping()
}

impl Clone for Integer {
    fn clone(&self) -> (r: Self)
        ensures
            r@ == self@,
    {
        proof {
            use_type_invariant(self);
        }
        Integer { text: self.text.clone() }
    }
}

impl Integer {
    #[verifier::type_invariant]
    closed spec fn canonical(self) -> bool {
        self.text@ == decimal_text(decimal_value(self.text@))
    }

    /// The integer `n`.
    pub fn from_usize(n: usize) -> (r: Integer)
        ensures
            r@ == n,
    {
        rug_from_usize(n)
    }

    /// The integer zero.
    pub fn zero() -> (r: Integer)
        ensures
            r@ == 0,
    {
        rug_from_usize(0)
    }

    /// The integer one.
    pub fn one() -> (r: Integer)
        ensures
            r@ == 1,
    {
        rug_from_usize(1)
    }

    /// Reads a decimal text: an optional minus sign followed by at least one
    /// ASCII digit. Any other text gives `None`.
    pub fn parse(text: &str) -> (r: Option<Integer>)
        ensures
            match r {
                Some(i) => is_signed_digits(text@) && i@ == decimal_value(text@),
                None => !is_signed_digits(text@),
            },
    {
        let n = text.unicode_len();
        if n == 0 {
            return None;
        }
        let negative = text.get_char(0) == '-';
        let start: usize = if negative { 1 } else { 0 };
        if start == n {
            return None;
        }
        let mut i: usize = start;
        while i < n
            invariant
                start <= i <= n,
                n == text@.len(),
                n > 0,
                negative == (text@[0] == '-'),
                start == if negative { 1usize } else { 0usize },
                forall|j: int| start <= j < i ==> is_digit(#[trigger] text@[j]),
            decreases n - i,
        {
            let c = text.get_char(i);
            if !(c >= '0' && c <= '9') {
                proof {
                    if negative {
                        assert(text@.skip(1)[i - 1] == text@[i as int]);
                    }
                }
                return None;
            }
            i += 1;
        }
        let digits = text.substring_char(start, n);
        proof {
            assert(digits@ =~= text@.skip(start as int));
            assert forall|j: int| 0 <= j < digits@.len() implies is_digit(#[trigger] digits@[j]) by {
                assert(digits@[j] == text@[j + start]);
            }
            if !negative {
                assert(text@.skip(0) =~= text@);
            }
        }
        let magnitude = rug_from_digits(digits);
        if negative {
            let zero = rug_from_usize(0);
            Some(rug_sub(&zero, &magnitude))
        } else {
            Some(magnitude)
        }
    }

    /// The canonical decimal text.
    pub fn to_text(&self) -> (r: String)
        ensures
            r@ == decimal_text(self@),
    {
        proof {
            use_type_invariant(self);
        }
        self.text.clone()
    }

    /// The sum `self + other`.
    pub fn plus(&self, other: &Integer) -> (r: Integer)
        ensures
            r@ == self@ + other@,
    {
        rug_add(self, other)
    }

    /// The difference `self - other`.
    pub fn minus(&self, other: &Integer) -> (r: Integer)
        ensures
            r@ == self@ - other@,
    {
        rug_sub(self, other)
    }

    /// The product `self * other`.
    pub fn times(&self, other: &Integer) -> (r: Integer)
        ensures
            r@ == self@ * other@,
    {
        rug_mul(self, other)
    }

    /// The quotient rounded towards zero, or `None` when `other` is zero.
    pub fn quotient(&self, other: &Integer) -> (r: Option<Integer>)
        ensures
            match r {
                Some(q) => other@ != 0 && q@ == quotient_toward_zero(self@, other@),
                None => other@ == 0,
            },
    {
        if other.is_zero() {
            None
        } else {
            Some(rug_div(self, other))
        }
    }

    /// The remainder of the division rounded towards zero, or `None` when
    /// `other` is zero.
    pub fn remainder(&self, other: &Integer) -> (r: Option<Integer>)
        ensures
            match r {
                Some(q) => other@ != 0 && q@ == remainder_toward_zero(self@, other@),
                None => other@ == 0,
            },
    {
        if other.is_zero() {
            None
        } else {
            Some(rug_rem(self, other))
        }
    }

    /// `self` raised to the power `exponent`.
    pub fn power(&self, exponent: u32) -> (r: Integer)
        ensures
            r@ == pow(self@, exponent as nat),
    {
        rug_pow(self, exponent)
    }

    /// Whether `self < other`.
    pub fn less_than(&self, other: &Integer) -> (r: bool)
        ensures
            r == (self@ < other@),
    {
        rug_lt(self, other)
    }

    /// Whether the integer is zero.
    pub fn is_zero(&self) -> (r: bool)
        ensures
            r == (self@ == 0),
    {
        let zero = rug_from_usize(0);
        !rug_lt(self, &zero) && !rug_lt(&zero, self)
    }

    /// Whether the integer is greater than zero.
    pub fn is_positive(&self) -> (r: bool)
        ensures
            r == (self@ > 0),
    {
        let zero = rug_from_usize(0);
        rug_lt(&zero, self)
    }

    /// Whether the integer is less than zero.
    pub fn is_negative(&self) -> (r: bool)
        ensures
            r == (self@ < 0),
    {
        let zero = rug_from_usize(0);
        rug_lt(self, &zero)
    }

    /// The value as a `u32`, when it fits.
    pub fn to_u32(&self) -> (r: Option<u32>)
        ensures
            0 <= self@ <= u32::MAX ==> r == Some(self@ as u32),
            !(0 <= self@ <= u32::MAX) ==> r is None,
    {
        rug_to_u32(self)
    }

    /// The value reduced modulo two to the width of `usize`.
    pub fn to_usize_wrapping(&self) -> (r: usize)
        ensures
            r == self@ % (usize::MAX + 1),
    {
        rug_to_usize_wrapping(self)
    }
}

/// Whether `s` is an optional minus sign followed by at least one ASCII digit.
pub open spec fn is_signed_digits(s: Seq<char>) -> bool {
    if s.len() > 0 && s[0] == '-' {
        is_digits(s.skip(1))
    } else {
        is_digits(s)
    }
}

/// The mathematical content of a [`Float`].
///
/// A non-zero mantissa stands for the number `mantissa * 2^exponent`. A zero
/// mantissa stands for zero, except with the largest exponent, which marks
/// positive infinity, and the smallest, which marks negative infinity.
pub struct FloatV {
    pub mantissa: int,
    pub exponent: int,
}

impl FloatV {
    /// Whether this is one of the two infinities.
    pub open spec fn is_infinite(self) -> bool {
        self.mantissa == 0 && (self.exponent == isize::MAX || self.exponent == isize::MIN)
    }

    /// Whether this is a zero.
    pub open spec fn is_zero(self) -> bool {
        self.mantissa == 0 && !self.is_infinite()
    }

    /// Whether this is greater than zero.
    pub open spec fn is_positive(self) -> bool {
        self.mantissa > 0 || (self.mantissa == 0 && self.exponent == isize::MAX)
    }

    /// Whether the exponent lies within a quarter of the range of `isize`,
    /// so that sums and differences of two such exponents stay in that
    /// range. The infinities lie outside.
    pub open spec fn in_range(self) -> bool {
        -(isize::MAX / 4) <= self.exponent <= isize::MAX / 4
    }
}

/// The result of an operation on two floats that takes them only with
/// exponents in range.
pub open spec fn guarded(a: FloatV, b: FloatV, r: Option<FloatV>) -> Option<FloatV> {
    if a.in_range() && b.in_range() {
        r
    } else {
        None
    }
}

/// The sum of two floats with exponents in range, where there is one.
pub open spec fn float_plus(a: FloatV, b: FloatV, precision: nat) -> Option<FloatV> {
    guarded(a, b, float_sum(a, b, precision))
}

/// The difference of two floats with exponents in range, where there is one.
pub open spec fn float_minus(a: FloatV, b: FloatV, precision: nat) -> Option<FloatV> {
    guarded(a, b, float_difference(a, b, precision))
}

/// The product of two floats with exponents in range, where there is one.
pub open spec fn float_times(a: FloatV, b: FloatV, precision: nat) -> Option<FloatV> {
    guarded(a, b, float_product(a, b, precision))
}

/// The quotient of two floats with exponents in range, where there is one;
/// none for a divisor with a zero mantissa.
pub open spec fn float_over(a: FloatV, b: FloatV, precision: nat) -> Option<FloatV> {
    if b.mantissa == 0 {
        None
    } else {
        guarded(a, b, float_quotient(a, b, precision))
    }
}

/// The remainder of two floats with exponents in range, where there is one;
/// none for a divisor with a zero mantissa.
pub open spec fn float_rest(a: FloatV, b: FloatV, precision: nat) -> Option<FloatV> {
    if b.mantissa == 0 {
        None
    } else {
        guarded(a, b, float_remainder(a, b, precision))
    }
}

/// The power of two floats with exponents in range, where there is one.
pub open spec fn float_raised(a: FloatV, b: FloatV, precision: nat) -> Option<FloatV> {
    guarded(a, b, float_power(a, b, precision))
}

/// Whether `a` is less than `b` as extended real numbers.
pub open spec fn float_less(a: FloatV, b: FloatV) -> bool {
    if a.is_infinite() && b.is_infinite() {
        a.exponent < b.exponent
    } else if b.is_infinite() {
        b.exponent > 0
    } else if a.is_infinite() {
        a.exponent < 0
    } else {
        let k = if a.exponent <= b.exponent {
            a.exponent
        } else {
            b.exponent
        };
        a.mantissa * pow2((a.exponent - k) as nat) < b.mantissa * pow2((b.exponent - k) as nat)
    }
}

/// The integer nearest to `n / d`, the even one of the two when `n / d` lies
/// half-way between them.
pub open spec fn nearest_even(n: int, d: int) -> int
    recommends
        d > 0,
{
    let q = n / d;
    let r = n % d;
    if 2 * r < d {
        q
    } else if 2 * r > d {
        q + 1
    } else if q % 2 == 0 {
        q
    } else {
        q + 1
    }
}

/// The integer nearest to a finite float, ties going to the even integer.
pub open spec fn float_nearest_integer(a: FloatV) -> int
    recommends
        !a.is_infinite(),
{
    if a.exponent >= 0 {
        a.mantissa * pow2(a.exponent as nat)
    } else {
        nearest_even(a.mantissa, pow2((-a.exponent) as nat) as int)
    }
}

/// The sum of two floats rounded to `precision` bits, where there is one.
pub uninterp spec fn float_sum(a: FloatV, b: FloatV, precision: nat) -> Option<FloatV>;

/// The difference of two floats rounded to `precision` bits, where there is one.
pub uninterp spec fn float_difference(a: FloatV, b: FloatV, precision: nat) -> Option<FloatV>;

/// The product of two floats rounded to `precision` bits, where there is one.
pub uninterp spec fn float_product(a: FloatV, b: FloatV, precision: nat) -> Option<FloatV>;

/// The quotient of two floats rounded to `precision` bits, where there is one.
pub uninterp spec fn float_quotient(a: FloatV, b: FloatV, precision: nat) -> Option<FloatV>;

/// The remainder of `a` by `b` with the sign of `a`, where there is one.
pub uninterp spec fn float_remainder(a: FloatV, b: FloatV, precision: nat) -> Option<FloatV>;

/// `a` raised to the power `b`, rounded to `precision` bits, where there is one.
pub uninterp spec fn float_power(a: FloatV, b: FloatV, precision: nat) -> Option<FloatV>;

/// The float nearest to an integer at `precision` bits.
pub uninterp spec fn float_from_integer(i: int, precision: nat) -> FloatV;

/// The float nearest, at `precision` bits, to the number that a decimal text
/// writes, where the text writes one.
pub uninterp spec fn float_from_decimal(text: Seq<char>, precision: nat) -> Option<FloatV>;

/// The decimal text of a float of `precision` bits.
pub uninterp spec fn float_to_decimal(a: FloatV, precision: nat) -> Seq<char>;

/// The end of the run of digits that starts at `from`.
pub open spec fn digits_end(s: Seq<char>, from: nat) -> nat
    decreases s.len() - from,
{
    if from < s.len() && is_digit(s[from as int]) {
        digits_end(s, from + 1)
    } else {
        from
    }
}

/// Whether `s` writes a decimal number with a point: an optional minus sign,
/// digits or none, a point, and at least one digit up to the end.
pub open spec fn is_decimal_literal(s: Seq<char>) -> bool {
    let start: nat = if s.len() > 0 && s[0] == '-' {
        1
    } else {
        0
    };
    let point = digits_end(s, start);
    point + 1 < s.len() && s[point as int] == '.' && digits_end(s, point + 1) == s.len()
}

/// The float that a text writes, rounded to `precision` bits; none for a
/// text that is no decimal number with a point.
pub open spec fn float_parse_spec(text: Seq<char>, precision: nat) -> Option<FloatV> {
    if is_decimal_literal(text) {
        float_from_decimal(text, precision)
    } else {
        None
    }
}

/// An arbitrary-precision binary floating-point number. The mantissa is zero
/// or odd.
#[derive(Debug, PartialEq, Eq)]
pub struct Float {
    mantissa: Integer,
    exponent: isize,
}

impl View for Float {
    type V = FloatV;

    closed spec fn view(&self) -> FloatV {
        FloatV { mantissa: self.mantissa@, exponent: self.exponent as int }
    }
}

/// The content of an optional float.
pub open spec fn float_option_view(r: Option<Float>) -> Option<FloatV> {
    match r {
        Some(f) => Some(f@),
        None => None,
    }
}

/// Adds with `dashu_float::Context::add`, which gives the sum at the
/// context's precision and an error for an infinite operand. It subtracts
/// one exponent from the other; exponents out of range are kept away from it.
#[verifier::external_body]
fn dashu_add(a: &Float, b: &Float, precision: usize) -> (r: Option<Float>)
    requires
        precision > 0,
        a@.in_range(),
        b@.in_range(),
    ensures
        float_option_view(r) == float_sum(a@, b@, precision as nat),
{
    let c = dashu_float::Context::<dashu_float::round::mode::HalfEven>::new(precision);
    let x = dashu_float::Repr::<2>::new(a.mantissa.text.parse().unwrap(), a.exponent);
    let y = dashu_float::Repr::<2>::new(b.mantissa.text.parse().unwrap(), b.exponent);
    let (m, e) = c.add(&x, &y).ok()?.value().into_repr().into_parts();
    Some(Float { mantissa: Integer { text: m.to_string() }, exponent: e })
}

/// Subtracts with `dashu_float::Context::sub`, which gives the difference at
/// the context's precision and an error for an infinite operand. It subtracts
/// one exponent from the other; exponents out of range are kept away from it.
#[verifier::external_body]
fn dashu_sub(a: &Float, b: &Float, precision: usize) -> (r: Option<Float>)
    requires
        precision > 0,
        a@.in_range(),
        b@.in_range(),
    ensures
        float_option_view(r) == float_difference(a@, b@, precision as nat),
{
    let c = dashu_float::Context::<dashu_float::round::mode::HalfEven>::new(precision);
    let x = dashu_float::Repr::<2>::new(a.mantissa.text.parse().unwrap(), a.exponent);
    let y = dashu_float::Repr::<2>::new(b.mantissa.text.parse().unwrap(), b.exponent);
    let (m, e) = c.sub(&x, &y).ok()?.value().into_repr().into_parts();
    Some(Float { mantissa: Integer { text: m.to_string() }, exponent: e })
}

/// Multiplies with `dashu_float::Context::mul`, which gives the product at
/// the context's precision and an error for an infinite operand or a product
/// out of range. Exponents out of range are kept away from it.
#[verifier::external_body]
fn dashu_mul(a: &Float, b: &Float, precision: usize) -> (r: Option<Float>)
    requires
        precision > 0,
        a@.in_range(),
        b@.in_range(),
    ensures
        float_option_view(r) == float_product(a@, b@, precision as nat),
{
    let c = dashu_float::Context::<dashu_float::round::mode::HalfEven>::new(precision);
    let x = dashu_float::Repr::<2>::new(a.mantissa.text.parse().unwrap(), a.exponent);
    let y = dashu_float::Repr::<2>::new(b.mantissa.text.parse().unwrap(), b.exponent);
    let (m, e) = c.mul(&x, &y).ok()?.value().into_repr().into_parts();
    Some(Float { mantissa: Integer { text: m.to_string() }, exponent: e })
}

/// Divides with `dashu_float::Context::div`, which gives the quotient at the
/// context's precision and an error for an infinite operand. A divisor with a
/// zero mantissa and exponents out of range are kept away from it.
#[verifier::external_body]
fn dashu_div(a: &Float, b: &Float, precision: usize) -> (r: Option<Float>)
    requires
        precision > 0,
        a@.in_range(),
        b@.in_range(),
        b@.mantissa != 0,
    ensures
        float_option_view(r) == float_quotient(a@, b@, precision as nat),
{
    let c = dashu_float::Context::<dashu_float::round::mode::HalfEven>::new(precision);
    let x = dashu_float::Repr::<2>::new(a.mantissa.text.parse().unwrap(), a.exponent);
    let y = dashu_float::Repr::<2>::new(b.mantissa.text.parse().unwrap(), b.exponent);
    let (m, e) = c.div(&x, &y).ok()?.value().into_repr().into_parts();
    Some(Float { mantissa: Integer { text: m.to_string() }, exponent: e })
}

/// Takes the remainder with `dashu_float::Context::rem` in the rounding mode
/// `Zero`, under which the quotient is truncated and the remainder keeps the
/// sign of the dividend; an infinite operand gives an error. A divisor with a
/// zero mantissa, on which the call panics, and exponents out of range are
/// kept away from it.
#[verifier::external_body]
fn dashu_rem(a: &Float, b: &Float, precision: usize) -> (r: Option<Float>)
    requires
        precision > 0,
        a@.in_range(),
        b@.in_range(),
        b@.mantissa != 0,
    ensures
        float_option_view(r) == float_remainder(a@, b@, precision as nat),
{
    let c = dashu_float::Context::<dashu_float::round::mode::Zero>::new(precision);
    let x = dashu_float::Repr::<2>::new(a.mantissa.text.parse().unwrap(), a.exponent);
    let y = dashu_float::Repr::<2>::new(b.mantissa.text.parse().unwrap(), b.exponent);
    let (m, e) = c.rem(&x, &y).ok()?.value().into_repr().into_parts();
    Some(Float { mantissa: Integer { text: m.to_string() }, exponent: e })
}

/// Raises to a power with `dashu_float::Context::powf`, which gives the power
/// at the context's precision and an error where the power is no real number,
/// is out of range, or an operand is infinite. It panics without a precision.
/// Exponents out of range are kept away from it.
#[verifier::external_body]
fn dashu_pow(a: &Float, b: &Float, precision: usize) -> (r: Option<Float>)
    requires
        precision > 0,
        a@.in_range(),
        b@.in_range(),
    ensures
        float_option_view(r) == float_power(a@, b@, precision as nat),
{
    let c = dashu_float::Context::<dashu_float::round::mode::HalfEven>::new(precision);
    let x = dashu_float::Repr::<2>::new(a.mantissa.text.parse().unwrap(), a.exponent);
    let y = dashu_float::Repr::<2>::new(b.mantissa.text.parse().unwrap(), b.exponent);
    let (m, e) = c.powf(&x, &y, None).ok()?.value().into_repr().into_parts();
    Some(Float { mantissa: Integer { text: m.to_string() }, exponent: e })
}

/// Compares with the `<` of `dashu_float::Repr`, which orders the numbers by
/// their value, the infinities at the two ends.
#[verifier::external_body]
fn dashu_lt(a: &Float, b: &Float) -> (r: bool)
    ensures
        r == float_less(a@, b@),
{
    let x = dashu_float::Repr::<2>::new(a.mantissa.text.parse().unwrap(), a.exponent);
    let y = dashu_float::Repr::<2>::new(b.mantissa.text.parse().unwrap(), b.exponent);
    x < y
}

/// Converts with `dashu_float::Context::convert_int`, which gives the integer
/// at the context's precision.
#[verifier::external_body]
fn dashu_from_integer(i: &Integer, precision: usize) -> (r: Float)
    requires
        precision > 0,
    ensures
        r@ == float_from_integer(i@, precision as nat),
{
    let c = dashu_float::Context::<dashu_float::round::mode::HalfEven>::new(precision);
    let (m, e) = c.convert_int::<2>(i.text.parse().unwrap()).value().into_repr().into_parts();
    Float { mantissa: Integer { text: m.to_string() }, exponent: e }
}

/// Converts with `dashu_float::FBig::to_int` in the rounding mode `HalfEven`,
/// which gives the nearest integer, the even one on a tie, and panics on an
/// infinity.
#[verifier::external_body]
fn dashu_to_integer(a: &Float) -> (r: Integer)
    requires
        !a@.is_infinite(),
    ensures
        r@ == float_nearest_integer(a@),
{
    let m: dashu_int::IBig = a.mantissa.text.parse().unwrap();
    let x = dashu_float::FBig::<dashu_float::round::mode::HalfEven, 2>::from_parts(m, a.exponent);
    Integer { text: x.to_int().value().to_string() }
}

/// Reads a decimal text with the `FromStr` of `dashu_float::FBig` in base ten
/// and converts to base two with `with_base_and_precision`, rounding to
/// nearest; a text that it refuses gives nothing.
#[verifier::external_body]
fn dashu_from_decimal(text: &str, precision: usize) -> (r: Option<Float>)
    requires
        precision > 0,
        is_decimal_literal(text@),
    ensures
        float_option_view(r) == float_from_decimal(text@, precision as nat),
{
    let d: dashu_float::FBig<dashu_float::round::mode::HalfEven, 10> = text.parse().ok()?;
    let (m, e) = d.with_base_and_precision::<2>(precision).value().into_repr().into_parts();
    Some(Float { mantissa: Integer { text: m.to_string() }, exponent: e })
}

/// Writes a float in decimal: `dashu_float::FBig::with_precision` fixes the
/// precision, `to_decimal` converts to base ten and its `Display` gives the
/// text. `to_decimal` takes a decimal digit for every ten thirds of a bit and
/// panics where that leaves it none, so the precision is at least four bits.
#[verifier::external_body]
fn dashu_to_decimal(a: &Float, precision: usize) -> (r: String)
    requires
        precision >= 4,
    ensures
        r@ == float_to_decimal(a@, precision as nat),
{
    let m: dashu_int::IBig = a.mantissa.text.parse().unwrap();
    let x = dashu_float::FBig::<dashu_float::round::mode::HalfEven, 2>::from_parts(m, a.exponent);
    x.with_precision(precision).value().to_decimal().value().to_string()
}

impl Clone for Float {
    fn clone(&self) -> (r: Self)
        ensures
            r@ == self@,
    {
        proof {
            use_type_invariant(self);
        }
        Float { mantissa: self.mantissa.clone(), exponent: self.exponent }
    }
}

/// The end of the run of digits of a text that starts at `from`.
fn scan_digits(text: &str, from: usize) -> (r: usize)
    requires
        from <= text@.len(),
    ensures
        r == digits_end(text@, from as nat),
        from <= r <= text@.len(),
{
    let n = text.unicode_len();
    let mut i: usize = from;
    while i < n
        invariant
            from <= i <= n,
            n == text@.len(),
            digits_end(text@, i as nat) == digits_end(text@, from as nat),
        decreases n - i,
    {
        let c = text.get_char(i);
        if !(c >= '0' && c <= '9') {
            return i;
        }
        i += 1;
    }
    i
}

/// Whether a text writes a decimal number with a point.
fn decimal_literal(text: &str) -> (r: bool)
    ensures
        r == is_decimal_literal(text@),
{
    let n = text.unicode_len();
    let start: usize = if n > 0 && text.get_char(0) == '-' {
        1
    } else {
        0
    };
    let point = scan_digits(text, start);
    if point >= n || n - point < 2 {
        return false;
    }
    if text.get_char(point) != '.' {
        return false;
    }
    scan_digits(text, point + 1) == n
}

impl Float {
    #[verifier::type_invariant]
    closed spec fn normal(self) -> bool {
        self.mantissa@ == 0 || self.mantissa@ % 2 != 0
    }

    /// The mantissa.
    pub fn mantissa(&self) -> (r: Integer)
        ensures
            r@ == self@.mantissa,
    {
        self.mantissa.clone()
    }

    /// The exponent of two.
    pub fn exponent(&self) -> (r: isize)
        ensures
            r == self@.exponent,
    {
        self.exponent
    }

    /// Positive zero.
    pub fn zero() -> (r: Float)
        ensures
            r@ == (FloatV { mantissa: 0, exponent: 0 }),
    {
        Float { mantissa: Integer::zero(), exponent: 0 }
    }

    /// The float nearest to `i` at `precision` bits.
    pub fn from_integer(i: &Integer, precision: usize) -> (r: Float)
        requires
            precision > 0,
        ensures
            r@ == float_from_integer(i@, precision as nat),
    {
        dashu_from_integer(i, precision)
    }

    /// The float that a text writes, rounded to `precision` bits: the text
    /// is an optional minus sign, digits or none, a point, and at least one
    /// digit.
    pub fn parse(text: &str, precision: usize) -> (r: Option<Float>)
        requires
            precision > 0,
        ensures
            float_option_view(r) == float_parse_spec(text@, precision as nat),
    {
        if decimal_literal(text) {
            dashu_from_decimal(text, precision)
        } else {
            None
        }
    }

    /// The decimal text of the float, for a precision of at least four bits,
    /// which is what one decimal digit takes.
    pub fn to_text(&self, precision: usize) -> (r: String)
        requires
            precision >= 4,
        ensures
            r@ == float_to_decimal(self@, precision as nat),
    {
        dashu_to_decimal(self, precision)
    }

    /// Whether this is neither of the two infinities.
    pub fn is_finite(&self) -> (r: bool)
        ensures
            r == !self@.is_infinite(),
    {
        !(self.mantissa.is_zero() && (self.exponent == isize::MAX || self.exponent == isize::MIN))
    }

    /// Whether this is a zero.
    pub fn is_zero(&self) -> (r: bool)
        ensures
            r == self@.is_zero(),
    {
        self.mantissa.is_zero() && self.exponent != isize::MAX && self.exponent != isize::MIN
    }

    /// Whether this is greater than zero.
    pub fn is_positive(&self) -> (r: bool)
        ensures
            r == self@.is_positive(),
    {
        self.mantissa.is_positive() || (self.mantissa.is_zero() && self.exponent == isize::MAX)
    }

    /// Whether `self < other`.
    pub fn less_than(&self, other: &Float) -> (r: bool)
        ensures
            r == float_less(self@, other@),
    {
        dashu_lt(self, other)
    }

    /// The nearest integer, ties going to the even one; zero for an infinity.
    pub fn to_integer(&self) -> (r: Integer)
        ensures
            r@ == if self@.is_infinite() {
                0
            } else {
                float_nearest_integer(self@)
            },
    {
        if self.is_finite() {
            dashu_to_integer(self)
        } else {
            Integer::zero()
        }
    }

    /// Whether the exponent lies within a quarter of the range of `isize`.
    pub fn in_range(&self) -> (r: bool)
        ensures
            r == self@.in_range(),
    {
        -(isize::MAX / 4) <= self.exponent && self.exponent <= isize::MAX / 4
    }

    /// The sum at `precision` bits; `None` where an operand is infinite or
    /// has an exponent out of range, or the sum is out of range.
    pub fn plus(&self, other: &Float, precision: usize) -> (r: Option<Float>)
        requires
            precision > 0,
        ensures
            float_option_view(r) == float_plus(self@, other@, precision as nat),
    {
        if self.in_range() && other.in_range() {
            dashu_add(self, other, precision)
        } else {
            None
        }
    }

    /// The difference at `precision` bits; `None` where an operand is
    /// infinite or has an exponent out of range, or the difference is out of
    /// range.
    pub fn minus(&self, other: &Float, precision: usize) -> (r: Option<Float>)
        requires
            precision > 0,
        ensures
            float_option_view(r) == float_minus(self@, other@, precision as nat),
    {
        if self.in_range() && other.in_range() {
            dashu_sub(self, other, precision)
        } else {
            None
        }
    }

    /// The product at `precision` bits; `None` where an operand is infinite
    /// or has an exponent out of range, or the product is out of range.
    pub fn times(&self, other: &Float, precision: usize) -> (r: Option<Float>)
        requires
            precision > 0,
        ensures
            float_option_view(r) == float_times(self@, other@, precision as nat),
    {
        if self.in_range() && other.in_range() {
            dashu_mul(self, other, precision)
        } else {
            None
        }
    }

    /// The quotient at `precision` bits; `None` where the divisor has a zero
    /// mantissa, an operand is infinite or has an exponent out of range, or
    /// the quotient is out of range.
    pub fn quotient(&self, other: &Float, precision: usize) -> (r: Option<Float>)
        requires
            precision > 0,
        ensures
            float_option_view(r) == float_over(self@, other@, precision as nat),
    {
        if other.mantissa.is_zero() {
            None
        } else if self.in_range() && other.in_range() {
            dashu_div(self, other, precision)
        } else {
            None
        }
    }

    /// The remainder with the sign of `self`; `None` where the divisor has a
    /// zero mantissa or an operand is infinite or has an exponent out of
    /// range.
    pub fn remainder(&self, other: &Float, precision: usize) -> (r: Option<Float>)
        requires
            precision > 0,
        ensures
            float_option_view(r) == float_rest(self@, other@, precision as nat),
    {
        if other.mantissa.is_zero() {
            None
        } else if self.in_range() && other.in_range() {
            dashu_rem(self, other, precision)
        } else {
            None
        }
    }

    /// `self` raised to the power `other` at `precision` bits; `None` where
    /// the power is no finite real number or an operand is infinite or has an
    /// exponent out of range.
    pub fn power(&self, other: &Float, precision: usize) -> (r: Option<Float>)
        requires
            precision > 0,
        ensures
            float_option_view(r) == float_raised(self@, other@, precision as nat),
    {
        if self.in_range() && other.in_range() {
            dashu_pow(self, other, precision)
        } else {
            None
        }
    }
}

} // verus!
