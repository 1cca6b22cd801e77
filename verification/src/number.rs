//! Numbers of the language: IEEE-754 double-precision values, held as
//! their 64-bit patterns.
//!
//! Sign, order and equality are read straight off the bit pattern.
//! Rounded arithmetic and the conversion between numbers and decimal text
//! are done by a software implementation of IEEE-754 that works on bit
//! patterns; its results are named here, not defined.

use crate::text::{decimal_digits, push_decimal};
use rustc_apfloat::ieee::Double;
use rustc_apfloat::Float;
use rustc_apfloat::Round;
use vstd::prelude::*;

verus! {

/// The bit that holds the sign.
pub const SIGN_BIT: u64 = 0x8000_0000_0000_0000u64;

/// The pattern of positive infinity; every pattern whose magnitude is
/// above it is a NaN.
pub const INFINITY_BITS: u64 = 0x7FF0_0000_0000_0000u64;

/// The pattern of the quiet NaN that stands for "not a number" in text.
pub const NAN_BITS: u64 = 0x7FF8_0000_0000_0000u64;

/// The pattern without its sign bit.
pub open spec fn magnitude(n: u64) -> int {
    if n >= SIGN_BIT {
        n - SIGN_BIT
    } else {
        n as int
    }
}

/// Whether the sign bit is set.
pub open spec fn is_negative(n: u64) -> bool {
    n >= SIGN_BIT
}

/// Whether the pattern is a NaN.
pub open spec fn is_nan(n: u64) -> bool {
    magnitude(n) > INFINITY_BITS
}

/// A number's place on the number line among the patterns that are no
/// NaN: the two zeros share a place, and a greater number has a greater
/// place.
pub open spec fn place(n: u64) -> int {
    if is_negative(n) {
        -magnitude(n)
    } else {
        magnitude(n)
    }
}

/// The pattern with its sign bit flipped.
pub open spec fn negated(n: u64) -> u64 {
    if n >= SIGN_BIT {
        (n - SIGN_BIT) as u64
    } else {
        (n + SIGN_BIT) as u64
    }
}

/// IEEE-754 `<`: false whenever a NaN takes part.
pub open spec fn is_less(a: u64, b: u64) -> bool {
    !is_nan(a) && !is_nan(b) && place(a) < place(b)
}

/// IEEE-754 `==`: false whenever a NaN takes part, true of the two zeros.
pub open spec fn is_equal(a: u64, b: u64) -> bool {
    !is_nan(a) && !is_nan(b) && place(a) == place(b)
}

/// IEEE-754 `<=`.
pub open spec fn is_at_most(a: u64, b: u64) -> bool {
    is_less(a, b) || is_equal(a, b)
}

/// The sum of two doubles, rounded to nearest with ties to even.
pub uninterp spec fn double_sum(a: u64, b: u64) -> u64;

/// The difference of two doubles, rounded to nearest with ties to even.
pub uninterp spec fn double_difference(a: u64, b: u64) -> u64;

/// The product of two doubles, rounded to nearest with ties to even.
pub uninterp spec fn double_product(a: u64, b: u64) -> u64;

/// The quotient of two doubles, rounded to nearest with ties to even.
pub uninterp spec fn double_quotient(a: u64, b: u64) -> u64;

/// The double nearest to what a decimal text denotes.
pub uninterp spec fn double_of_text(text: Seq<char>) -> u64;

/// A double as the conversion writes it when it is asked for a field of
/// the given width and for the given number of significant digits.
pub uninterp spec fn double_digits(n: u64, width: usize, precision: usize) -> Seq<char>;

/// The field width that makes the conversion write every number with
/// an exponent.
pub const EXPANSION_WIDTH: usize = 0;

/// More significant digits than the exact decimal expansion of any
/// double has.
pub const EXPANSION_DIGITS: usize = 1100;

/// A double written out exactly, with an exponent.
pub open spec fn double_expansion(n: u64) -> Seq<char> {
    double_digits(n, EXPANSION_WIDTH, EXPANSION_DIGITS)
}

/// Whether the pattern is one of the two zeros.
pub open spec fn is_zero(n: u64) -> bool {
    magnitude(n) == 0
}

/// The infinity with the given sign.
pub open spec fn infinity(negative: bool) -> u64 {
    if negative {
        (INFINITY_BITS + SIGN_BIT) as u64
    } else {
        INFINITY_BITS
    }
}

/// Whether dividing `a` by zero gives an infinity: `a` is neither a
/// zero nor a NaN.
pub open spec fn divides_to_infinity(a: u64, b: u64) -> bool {
    is_zero(b) && 0 < magnitude(a) <= INFINITY_BITS
}

/// The quotient of two doubles. Dividing by a zero what is neither a
/// zero nor a NaN gives an infinity, negative where exactly one of the
/// two is negative; dividing a zero by a zero gives a NaN.
pub open spec fn quotient(a: u64, b: u64) -> u64 {
    if divides_to_infinity(a, b) {
        infinity(is_negative(a) != is_negative(b))
    } else if is_zero(a) && is_zero(b) {
        NAN_BITS
    } else {
        double_quotient(a, b)
    }
}

/// The pattern without its sign bit.
fn magnitude_of(n: u64) -> (r: u64)
    ensures
        r == magnitude(n),
{
    if n >= SIGN_BIT {
        n - SIGN_BIT
    } else {
        n
    }
}

/// Whether the pattern is a NaN.
pub fn nan(n: u64) -> (r: bool)
    ensures
        r == is_nan(n),
{
    magnitude_of(n) > INFINITY_BITS
}

/// The number with the opposite sign.
pub fn negate(n: u64) -> (r: u64)
    ensures
        r == negated(n),
{
    if n >= SIGN_BIT {
        n - SIGN_BIT
    } else {
        n + SIGN_BIT
    }
}

/// Whether `a < b`.
pub fn less(a: u64, b: u64) -> (r: bool)
    ensures
        r == is_less(a, b),
{
    if nan(a) || nan(b) {
        return false;
    }
    let ma = magnitude_of(a);
    let mb = magnitude_of(b);
    if a >= SIGN_BIT {
        if b >= SIGN_BIT {
            mb < ma
        } else {
            ma > 0 || mb > 0
        }
    } else {
        if b >= SIGN_BIT {
            false
        } else {
            ma < mb
        }
    }
}

/// Whether `a == b`.
pub fn equal(a: u64, b: u64) -> (r: bool)
    ensures
        r == is_equal(a, b),
{
    if nan(a) || nan(b) {
        return false;
    }
    let ma = magnitude_of(a);
    let mb = magnitude_of(b);
    if (a >= SIGN_BIT) == (b >= SIGN_BIT) {
        ma == mb
    } else {
        ma == 0 && mb == 0
    }
}

/// Whether `a <= b`.
pub fn at_most(a: u64, b: u64) -> (r: bool)
    ensures
        r == is_at_most(a, b),
{
    less(a, b) || equal(a, b)
}

/// Calls `add_r` of `rustc_apfloat::ieee::Double` (the trait `Float`) with
/// rounding to nearest, ties to even, on the doubles that have the given
/// bit patterns, and hands back the bit pattern of the value it returns.
/// The contract only names that result.
#[verifier::external_body]
pub(crate) fn add_doubles(a: u64, b: u64) -> (r: u64)
    ensures
        r == double_sum(a, b),
{
    let x = Double::from_bits(a as u128);
    let y = Double::from_bits(b as u128);
    x.add_r(y, Round::NearestTiesToEven).value.to_bits() as u64
}

/// Calls `sub_r` of `rustc_apfloat::ieee::Double` with rounding to
/// nearest, ties to even, and hands back the bit pattern of the value it
/// returns. The contract only names that result.
#[verifier::external_body]
pub(crate) fn subtract_doubles(a: u64, b: u64) -> (r: u64)
    ensures
        r == double_difference(a, b),
{
    let x = Double::from_bits(a as u128);
    let y = Double::from_bits(b as u128);
    x.sub_r(y, Round::NearestTiesToEven).value.to_bits() as u64
}

/// Calls `mul_r` of `rustc_apfloat::ieee::Double` with rounding to
/// nearest, ties to even, and hands back the bit pattern of the value it
/// returns. The contract only names that result.
#[verifier::external_body]
pub(crate) fn multiply_doubles(a: u64, b: u64) -> (r: u64)
    ensures
        r == double_product(a, b),
{
    let x = Double::from_bits(a as u128);
    let y = Double::from_bits(b as u128);
    x.mul_r(y, Round::NearestTiesToEven).value.to_bits() as u64
}

/// Calls `div_r` of `rustc_apfloat::ieee::Double` with rounding to
/// nearest, ties to even, and hands back the bit pattern of the value it
/// returns. The contract names that result, and says what the function
/// does with a zero divisor before it divides at all: a dividend that
/// is neither a zero nor a NaN gives an infinity, negative where
/// exactly one of the two signs is set, and a zero gives the crate's
/// constant `NAN`, the quiet NaN without sign or payload.
#[verifier::external_body]
pub(crate) fn divide_doubles(a: u64, b: u64) -> (r: u64)
    ensures
        r == double_quotient(a, b),
        divides_to_infinity(a, b) ==> r == infinity(is_negative(a) != is_negative(b)),
        is_zero(a) && is_zero(b) ==> r == NAN_BITS,
{
    let x = Double::from_bits(a as u128);
    let y = Double::from_bits(b as u128);
    x.div_r(y, Round::NearestTiesToEven).value.to_bits() as u64
}

/// Calls `from_str_r` of `rustc_apfloat::ieee::Double` with rounding to
/// nearest, ties to even: `Some` of the bit pattern of the value it
/// returns, `None` where it reports a parse error. The contract says
/// that it reports none on a decimal number, which holds none of what
/// it refuses (an empty text, a second dot, a significand or an
/// exponent without digits, any other character), and names the value.
#[verifier::external_body]
pub(crate) fn double_from_str(text: &str) -> (r: Option<u64>)
    requires
        is_decimal(text@),
    ensures
        r == Some(double_of_text(text@)),
{
    match Double::from_str_r(text, Round::NearestTiesToEven) {
        Ok(found) => Some(found.value.to_bits() as u64),
        Err(_) => None,
    }
}

/// Formats a double with the `Display` impl of
/// `rustc_apfloat::ieee::Double`, with the given field width and the
/// given number of significant digits. The contract only names that
/// result. It asks for at least one digit, because the impl gives up
/// where it is left with none, and for a width and a number of digits
/// of no more than 16 bits, because the formatting machinery of the
/// standard library takes no greater ones.
#[verifier::external_body]
pub(crate) fn double_to_digits(n: u64, width: usize, precision: usize) -> (r: String)
    requires
        width <= 0xFFFF,
        1 <= precision <= 0xFFFF,
    ensures
        r@ == double_digits(n, width, precision),
{
    format!("{:w$.p$}", Double::from_bits(n as u128), w = width, p = precision)
}

/// Divides one double by another.
pub fn divide(a: u64, b: u64) -> (r: u64)
    ensures
        r == quotient(a, b),
{
    divide_doubles(a, b)
}

/// Whether the character is a decimal digit.
pub open spec fn is_digit(c: char) -> bool {
    '0' <= c <= '9'
}

/// The first position at or after `from` that holds no decimal digit.
pub open spec fn digits_end(s: Seq<char>, from: int) -> int
    decreases s.len() - from,
{
    if 0 <= from < s.len() && is_digit(s[from]) {
        digits_end(s, from + 1)
    } else {
        from
    }
}

/// Where the digits before the decimal point start: behind a sign, if
/// there is one.
pub open spec fn whole_start(s: Seq<char>) -> int {
    if s.len() > 0 && (s[0] == '-' || s[0] == '+') {
        1
    } else {
        0
    }
}

/// Where the mantissa ends: behind the fraction, if there is one.
pub open spec fn mantissa_end(s: Seq<char>) -> int {
    let dot = digits_end(s, whole_start(s));
    if dot < s.len() && s[dot] == '.' {
        digits_end(s, dot + 1)
    } else {
        dot
    }
}

/// How many digits the mantissa has, before and behind the point.
pub open spec fn mantissa_digits(s: Seq<char>) -> int {
    let dot = digits_end(s, whole_start(s));
    if dot < s.len() && s[dot] == '.' {
        mantissa_end(s) - whole_start(s) - 1
    } else {
        dot - whole_start(s)
    }
}

/// Whether what follows the mantissa is nothing, or a whole exponent:
/// `e` or `E`, an optional sign, and at least one digit up to the end.
pub open spec fn has_exponent_or_none(s: Seq<char>) -> bool {
    let m = mantissa_end(s);
    if m == s.len() {
        true
    } else if s[m] == 'e' || s[m] == 'E' {
        let d = if m + 1 < s.len() && (s[m + 1] == '-' || s[m + 1] == '+') {
            m + 2
        } else {
            m + 1
        };
        d < digits_end(s, d) == s.len()
    } else {
        false
    }
}

/// Whether the text is a decimal number: an optional sign, digits with
/// at most one point among them (at least one digit in all), and an
/// optional exponent.
pub open spec fn is_decimal(s: Seq<char>) -> bool {
    mantissa_digits(s) > 0 && has_exponent_or_none(s)
}

/// Whether `c` is the letter `small` or the letter `capital`.
pub open spec fn is_letter(c: char, small: char, capital: char) -> bool {
    c == small || c == capital
}

/// Whether the text from `from` on spells `inf` or `infinity`, in small
/// or capital letters.
pub open spec fn spells_infinity(s: Seq<char>, from: int) -> bool {
    &&& 0 <= from
    &&& s.len() - from == 3 || s.len() - from == 8
    &&& is_letter(s[from], 'i', 'I')
    &&& is_letter(s[from + 1], 'n', 'N')
    &&& is_letter(s[from + 2], 'f', 'F')
    &&& s.len() - from == 8 ==> {
        &&& is_letter(s[from + 3], 'i', 'I')
        &&& is_letter(s[from + 4], 'n', 'N')
        &&& is_letter(s[from + 5], 'i', 'I')
        &&& is_letter(s[from + 6], 't', 'T')
        &&& is_letter(s[from + 7], 'y', 'Y')
    }
}

/// Whether the text from `from` on spells `nan`, in small or capital
/// letters.
pub open spec fn spells_nan(s: Seq<char>, from: int) -> bool {
    &&& 0 <= from
    &&& s.len() - from == 3
    &&& is_letter(s[from], 'n', 'N')
    &&& is_letter(s[from + 1], 'a', 'A')
    &&& is_letter(s[from + 2], 'n', 'N')
}

/// The number that a text names: an infinity for `inf` and `infinity`,
/// a NaN for `nan`, each with an optional sign in front.
pub open spec fn named_number(s: Seq<char>) -> Option<u64> {
    let from = whole_start(s);
    let sign = if s.len() > 0 && s[0] == '-' {
        SIGN_BIT
    } else {
        0
    };
    if spells_infinity(s, from) {
        Some((INFINITY_BITS + sign) as u64)
    } else if spells_nan(s, from) {
        Some((NAN_BITS + sign) as u64)
    } else {
        None
    }
}

/// What a text denotes as a number, if anything: a decimal number, or a
/// number that has a name.
pub open spec fn number_of_text(s: Seq<char>) -> Option<u64> {
    if is_decimal(s) {
        Some(double_of_text(s))
    } else {
        named_number(s)
    }
}

/// The digits that start at `from` end within the text, are digits
/// throughout, and have no digit behind them.
pub proof fn lemma_digits_end_in_range(s: Seq<char>, from: int)
    requires
        0 <= from <= s.len(),
    ensures
        from <= digits_end(s, from) <= s.len(),
        forall|j: int| from <= j < digits_end(s, from) ==> is_digit(#[trigger] s[j]),
        digits_end(s, from) < s.len() ==> !is_digit(s[digits_end(s, from)]),
    decreases s.len() - from,
{
    if from < s.len() && is_digit(s[from]) {
        lemma_digits_end_in_range(s, from + 1);
    }
}

/// Skipping digits that are known to be digits changes nothing.
proof fn lemma_digits_end_step(s: Seq<char>, from: int, at: int)
    requires
        0 <= from <= at <= s.len(),
        forall|j: int| from <= j < at ==> is_digit(#[trigger] s[j]),
    ensures
        digits_end(s, from) == digits_end(s, at),
    decreases at - from,
{
    if from < at {
        lemma_digits_end_step(s, from + 1, at);
    }
}

/// Digits in a row end where the first character that is no digit
/// stands.
proof fn lemma_digits_end_at(s: Seq<char>, from: int, to: int)
    requires
        0 <= from <= to <= s.len(),
        forall|j: int| from <= j < to ==> is_digit(#[trigger] s[j]),
        to < s.len() ==> !is_digit(s[to]),
    ensures
        digits_end(s, from) == to,
{
    lemma_digits_end_step(s, from, to);
}

/// Digits, or digits, a dot and more digits, are a decimal number:
/// the part of `s` from `at` up to `end`, where the digits at `at` run
/// up to `whole`, and either end there or have a dot and at least one
/// more digit behind them.
pub proof fn lemma_literal_is_decimal(s: Seq<char>, at: int, whole: int, end: int)
    requires
        0 <= at < whole <= end <= s.len(),
        forall|j: int| at <= j < whole ==> is_digit(#[trigger] s[j]),
        end == whole || (s[whole] == '.' && whole + 1 < end),
        forall|j: int| whole < j < end ==> is_digit(#[trigger] s[j]),
    ensures
        is_decimal(s.subrange(at, end)),
{
    let t = s.subrange(at, end);
    assert forall|j: int| 0 <= j < whole - at implies is_digit(#[trigger] t[j]) by {
        assert(t[j] == s[at + j]);
    }
    lemma_digits_end_at(t, 0, whole - at);
    if end != whole {
        assert(t[whole - at] == '.');
        assert forall|j: int| whole - at + 1 <= j < end - at implies is_digit(#[trigger] t[j]) by {
            assert(t[j] == s[at + j]);
        }
        lemma_digits_end_at(t, whole - at + 1, end - at);
    }
}

/// Skips decimal digits of `v` from `from` on.
pub fn skip_digits(v: &Vec<char>, from: usize) -> (r: usize)
    requires
        from <= v.len(),
    ensures
        r == digits_end(v@, from as int),
        from <= r <= v.len(),
{
    let mut i = from;
    while i < v.len() && v[i] >= '0' && v[i] <= '9'
        invariant
            from <= i <= v.len(),
            forall|j: int| from <= j < i ==> is_digit(#[trigger] v@[j]),
        decreases v.len() - i,
    {
        i += 1;
    }
    proof {
        lemma_digits_end_step(v@, from as int, i as int);
    }
    i
}

/// Whether the characters form a decimal number.
pub fn decimal(v: &Vec<char>) -> (r: bool)
    ensures
        r == is_decimal(v@),
{
    let n = v.len();
    let start: usize = if n > 0 && (v[0] == '-' || v[0] == '+') {
        1
    } else {
        0
    };
    let dot = skip_digits(v, start);
    let mut digits: usize = dot - start;
    let mut end: usize = dot;
    if dot < n && v[dot] == '.' {
        end = skip_digits(v, dot + 1);
        digits = end - start - 1;
    }
    if digits == 0 {
        return false;
    }
    if end == n {
        return true;
    }
    if v[end] != 'e' && v[end] != 'E' {
        return false;
    }
    let first: usize = if end + 1 < n && (v[end + 1] == '-' || v[end + 1] == '+') {
        end + 2
    } else {
        end + 1
    };
    let last = skip_digits(v, first);
    first < last && last == n
}

/// Whether `c` is the letter `small` or the letter `capital`.
fn letter(c: char, small: char, capital: char) -> (r: bool)
    ensures
        r == is_letter(c, small, capital),
{
    c == small || c == capital
}

/// The number that the characters name, if they name one.
pub fn number_by_name(v: &Vec<char>) -> (r: Option<u64>)
    ensures
        r == named_number(v@),
{
    let n = v.len();
    let from: usize = if n > 0 && (v[0] == '-' || v[0] == '+') {
        1
    } else {
        0
    };
    let sign: u64 = if n > 0 && v[0] == '-' {
        SIGN_BIT
    } else {
        0
    };
    let rest = n - from;
    if rest != 3 && rest != 8 {
        return None;
    }
    if letter(v[from], 'i', 'I') && letter(v[from + 1], 'n', 'N') && letter(v[from + 2], 'f', 'F')
        && (rest == 3 || (letter(v[from + 3], 'i', 'I') && letter(v[from + 4], 'n', 'N')
        && letter(v[from + 5], 'i', 'I') && letter(v[from + 6], 't', 'T') && letter(
        v[from + 7],
        'y',
        'Y',
    ))) {
        return Some(INFINITY_BITS + sign);
    }
    if rest == 3 && letter(v[from], 'n', 'N') && letter(v[from + 1], 'a', 'A') && letter(
        v[from + 2],
        'n',
        'N',
    ) {
        return Some(NAN_BITS + sign);
    }
    None
}

/// Reads a text as a number: a decimal number as the conversion reads
/// it, or a number that has a name.
pub fn parse_number(text: &str) -> (r: Option<u64>)
    ensures
        r == number_of_text(text@),
{
    let v = crate::text::chars_of(text);
    if decimal(&v) {
        double_from_str(text)
    } else {
        number_by_name(&v)
    }
}

/// The digit a character stands for.
pub open spec fn digit_value(c: char) -> int {
    c as int - '0' as int
}

/// The number that the digits of `s` from `from` up to `to` spell.
pub open spec fn digits_value(s: Seq<char>, from: int, to: int) -> int
    decreases to - from,
{
    if to <= from {
        0
    } else {
        digits_value(s, from, to - 1) * 10 + digit_value(s[to - 1])
    }
}

/// The end of `s[from..to]` once the zeros at its end are dropped.
pub open spec fn trimmed_end(s: Seq<char>, from: int, to: int) -> int
    decreases to - from,
{
    if from < to && s[to - 1] == '0' {
        trimmed_end(s, from, to - 1)
    } else {
        to
    }
}

/// `n` zeros.
pub open spec fn zeros(n: int) -> Seq<char> {
    Seq::new(if n > 0 { n as nat } else { 0 }, |i: int| '0')
}

/// Where the leading digit stands: behind a minus sign, if there is one.
pub open spec fn lead_at(t: Seq<char>) -> int {
    if t.len() > 0 && t[0] == '-' {
        1
    } else {
        0
    }
}

/// Where the fraction of a text in scientific notation ends.
pub open spec fn fraction_end(t: Seq<char>) -> int {
    digits_end(t, lead_at(t) + 2)
}

/// Whether the text is in scientific notation: an optional minus, one
/// digit, a point, at least one digit, `E`, a sign, and one to three
/// digits up to the end.
pub open spec fn is_scientific(t: Seq<char>) -> bool {
    let a = lead_at(t);
    let f = fraction_end(t);
    &&& a + 2 < t.len()
    &&& is_digit(t[a])
    &&& t[a + 1] == '.'
    &&& a + 2 < f
    &&& f + 2 < t.len()
    &&& t[f] == 'E'
    &&& (t[f + 1] == '+' || t[f + 1] == '-')
    &&& digits_end(t, f + 2) == t.len()
    &&& t.len() - (f + 2) <= 3
}

/// The significant digits of a text in scientific notation: the leading
/// digit and the fraction without the zeros at its end.
pub open spec fn significant(t: Seq<char>) -> Seq<char> {
    let a = lead_at(t);
    seq![t[a]] + t.subrange(a + 2, trimmed_end(t, a + 2, fraction_end(t)))
}

/// The power of ten of a text in scientific notation.
pub open spec fn exponent(t: Seq<char>) -> int {
    let f = fraction_end(t);
    let e = digits_value(t, f + 2, t.len() as int);
    if t[f + 1] == '-' {
        -e
    } else {
        e
    }
}

/// The digits `m` with the point behind the first of them, times ten to
/// the power `e`, written out without an exponent.
pub open spec fn positional_of(negative: bool, m: Seq<char>, e: int) -> Seq<char> {
    let sign = if negative {
        seq!['-']
    } else {
        Seq::<char>::empty()
    };
    if e >= m.len() - 1 {
        sign + m + zeros(e - (m.len() - 1))
    } else if e >= 0 {
        sign + m.take(e + 1) + seq!['.'] + m.skip(e + 1)
    } else {
        sign + seq!['0', '.'] + zeros(-e - 1) + m
    }
}

/// A text in scientific notation written out without an exponent; any
/// other text as it is.
pub open spec fn positional(t: Seq<char>) -> Seq<char> {
    if !is_scientific(t) {
        t
    } else {
        positional_of(lead_at(t) == 1, significant(t), exponent(t))
    }
}

/// The digits `m` with the point behind the first of them, times ten to
/// the power `e`, in scientific notation.
pub open spec fn written(negative: bool, m: Seq<char>, e: int) -> Seq<char> {
    (if negative {
        seq!['-']
    } else {
        Seq::<char>::empty()
    }) + seq![m[0], '.'] + (if m.len() > 1 {
        m.skip(1)
    } else {
        seq!['0']
    }) + (if e < 0 {
        seq!['E', '-'] + decimal_digits(-e as nat)
    } else {
        seq!['E', '+'] + decimal_digits(e as nat)
    })
}

/// The digit after `c`; `0` after `9`.
pub open spec fn next_digit(c: char) -> char {
    if c == '0' {
        '1'
    } else if c == '1' {
        '2'
    } else if c == '2' {
        '3'
    } else if c == '3' {
        '4'
    } else if c == '4' {
        '5'
    } else if c == '5' {
        '6'
    } else if c == '6' {
        '7'
    } else if c == '7' {
        '8'
    } else if c == '8' {
        '9'
    } else {
        '0'
    }
}

/// The last place before `p` where `m` holds another digit than `9`;
/// -1 if there is none.
pub open spec fn last_not_nine(m: Seq<char>, p: int) -> int
    decreases p,
{
    if p <= 0 {
        -1
    } else if m[p - 1] != '9' {
        p - 1
    } else {
        last_not_nine(m, p - 1)
    }
}

/// A number with digits and a power of ten.
pub struct Numeral {
    pub digits: Seq<char>,
    pub power: int,
}

/// The first `p` digits of `m`, without zeros at the end: the nearest
/// numeral with at most `p` digits that is not above.
pub open spec fn cut(m: Seq<char>, e: int, p: int) -> Numeral {
    Numeral { digits: m.take(trimmed_end(m, 1, p)), power: e }
}

/// The nearest numeral with at most `p` digits that is above the first
/// `p` digits of `m`: the digits up to the last that is not `9`, with
/// that digit raised by one.
pub open spec fn raised(m: Seq<char>, e: int, p: int) -> Numeral {
    let j = last_not_nine(m, p);
    if j < 0 {
        Numeral { digits: seq!['1'], power: e + 1 }
    } else {
        Numeral { digits: m.take(j).push(next_digit(m[j])), power: e }
    }
}

/// Whether the numeral reads as the number `n`.
pub open spec fn reads_as(n: u64, negative: bool, x: Numeral) -> bool {
    number_of_text(written(negative, x.digits, x.power)) == Some(n)
}

/// The shortest numeral that reads as `n`, among those that `m` and
/// `e` round to with `p` digits or more: with each number of digits, up
/// to 17, the nearer of the two neighbours is tried first. Where none
/// reads as `n`, or `m` has no more than `p` digits, `m` itself.
pub open spec fn shortest(n: u64, negative: bool, m: Seq<char>, e: int, p: int) -> Numeral
    decreases 18 - p,
{
    if p >= m.len() || p > 17 || p < 1 {
        Numeral { digits: m, power: e }
    } else {
        let below = cut(m, e, p);
        let above = raised(m, e, p);
        let first = if m[p] >= '5' {
            above
        } else {
            below
        };
        let second = if m[p] >= '5' {
            below
        } else {
            above
        };
        if reads_as(n, negative, first) {
            first
        } else if reads_as(n, negative, second) {
            second
        } else {
            shortest(n, negative, m, e, p + 1)
        }
    }
}

/// How a number is written: `NaN`, `inf` and `-inf` for what is no
/// finite number, `0` and `-0` for the zeros, and for every other
/// number the fewest significant digits that read back as the same
/// number, written out without an exponent.
pub open spec fn number_text(n: u64) -> Seq<char> {
    if is_nan(n) {
        seq!['N', 'a', 'N']
    } else if magnitude(n) == INFINITY_BITS {
        if is_negative(n) {
            seq!['-', 'i', 'n', 'f']
        } else {
            seq!['i', 'n', 'f']
        }
    } else if magnitude(n) == 0 {
        if is_negative(n) {
            seq!['-', '0']
        } else {
            seq!['0']
        }
    } else {
        let exact = double_expansion(n);
        if is_scientific(exact) {
            let best = shortest(n, is_negative(n), significant(exact), exponent(exact), 1);
            positional_of(is_negative(n), best.digits, best.power)
        } else {
            exact
        }
    }
}

/// The end of `v[from..to]` once the zeros at its end are dropped.
fn trim_zeros(v: &Vec<char>, from: usize, to: usize) -> (r: usize)
    requires
        from <= to <= v.len(),
    ensures
        r == trimmed_end(v@, from as int, to as int),
        from <= r <= to,
    decreases to - from,
{
    if from < to && v[to - 1] == '0' {
        trim_zeros(v, from, to - 1)
    } else {
        to
    }
}

/// The number that up to three digits spell.
fn read_digits(v: &Vec<char>, from: usize, to: usize) -> (r: usize)
    requires
        from <= to <= v.len(),
        to - from <= 3,
        forall|j: int| from <= j < to ==> is_digit(#[trigger] v@[j]),
    ensures
        r == digits_value(v@, from as int, to as int),
        r <= 999,
    decreases to - from,
{
    if to <= from {
        0
    } else {
        let rest = read_digits(v, from, to - 1);
        assert(to - 1 - from <= 2);
        proof {
            lemma_digits_value_bound(v@, from as int, to - 1);
        }
        let d: usize = (v[to - 1] as u32 - '0' as u32) as usize;
        rest * 10 + d
    }
}

/// Up to three digits spell a number below a thousand.
proof fn lemma_digits_value_bound(s: Seq<char>, from: int, to: int)
    requires
        0 <= from <= to <= s.len(),
        forall|j: int| from <= j < to ==> is_digit(#[trigger] s[j]),
    ensures
        0 <= digits_value(s, from, to),
        to - from <= 1 ==> digits_value(s, from, to) <= 9,
        to - from <= 2 ==> digits_value(s, from, to) <= 99,
        to - from <= 3 ==> digits_value(s, from, to) <= 999,
    decreases to - from,
{
    if from < to {
        lemma_digits_value_bound(s, from, to - 1);
        assert(is_digit(s[to - 1]));
    }
}

/// Adds `count` zeros to a text.
fn push_zeros(out: &mut String, count: usize)
    ensures
        final(out)@ == old(out)@ + zeros(count as int),
{
    let mut i: usize = 0;
    while i < count
        invariant
            i <= count,
            out@ == old(out)@ + zeros(i as int),
        decreases count - i,
    {
        out.push('0');
        i += 1;
        assert(out@ =~= old(out)@ + zeros(i as int));
    }
    assert(out@ =~= old(out)@ + zeros(count as int));
}

/// Adds the characters of `v` from `from` up to `to` to a text.
fn push_range(out: &mut String, v: &Vec<char>, from: usize, to: usize)
    requires
        from <= to <= v.len(),
    ensures
        final(out)@ == old(out)@ + v@.subrange(from as int, to as int),
{
    let mut i: usize = from;
    while i < to
        invariant
            from <= i <= to <= v.len(),
            out@ == old(out)@ + v@.subrange(from as int, i as int),
        decreases to - i,
    {
        out.push(v[i]);
        i += 1;
        assert(out@ =~= old(out)@ + v@.subrange(from as int, i as int));
    }
}

/// The characters of `v` from `from` up to `to` as a `String`.
pub fn string_of_range(v: &Vec<char>, from: usize, to: usize) -> (r: String)
    requires
        from <= to <= v.len(),
    ensures
        r@ == v@.subrange(from as int, to as int),
{
    let mut out = String::new();
    push_range(&mut out, v, from, to);
    assert(out@ =~= v@.subrange(from as int, to as int));
    out
}

/// The text of `v` as a `String`.
pub fn string_of(v: &Vec<char>) -> (r: String)
    ensures
        r@ == v@,
{
    let mut out = String::new();
    push_range(&mut out, v, 0, v.len());
    assert(out@ =~= v@);
    out
}

/// Whether the characters are a number in scientific notation.
pub fn scientific(t: &Vec<char>) -> (r: bool)
    ensures
        r == is_scientific(t@),
{
    let n = t.len();
    let a: usize = if n > 0 && t[0] == '-' {
        1
    } else {
        0
    };
    if n <= 4 {
        proof {
            if a + 2 <= n {
                lemma_digits_end_in_range(t@, a + 2);
            }
        }
        return false;
    }
    if !(t[a] >= '0' && t[a] <= '9') || t[a + 1] != '.' {
        return false;
    }
    let f = skip_digits(t, a + 2);
    if f <= a + 2 || n - f <= 2 || t[f] != 'E' || (t[f + 1] != '+' && t[f + 1] != '-') {
        return false;
    }
    let x = skip_digits(t, f + 2);
    x == n && n - (f + 2) <= 3
}

/// The significant digits of a number in scientific notation.
fn significant_digits(t: &Vec<char>) -> (r: Vec<char>)
    requires
        is_scientific(t@),
    ensures
        r@ == significant(t@),
        r.len() >= 1,
{
    let a: usize = if t[0] == '-' {
        1
    } else {
        0
    };
    let f = skip_digits(t, a + 2);
    let m_end = trim_zeros(t, a + 2, f);
    let mut m: Vec<char> = Vec::new();
    m.push(t[a]);
    let mut i: usize = a + 2;
    while i < m_end
        invariant
            a + 2 <= i <= m_end <= t.len(),
            m@ == seq![t@[a as int]] + t@.subrange(a + 2, i as int),
        decreases m_end - i,
    {
        m.push(t[i]);
        i += 1;
        assert(m@ =~= seq![t@[a as int]] + t@.subrange(a + 2, i as int));
    }
    m
}

/// The power of ten of a number in scientific notation: its size, and
/// whether it is negative.
fn power_of(t: &Vec<char>) -> (r: (usize, bool))
    requires
        is_scientific(t@),
    ensures
        r.0 <= 999,
        exponent(t@) == (if r.1 {
            -(r.0 as int)
        } else {
            r.0 as int
        }),
{
    let a: usize = if t[0] == '-' {
        1
    } else {
        0
    };
    let f = skip_digits(t, a + 2);
    proof {
        lemma_digits_end_in_range(t@, f + 2);
    }
    let e = read_digits(t, f + 2, t.len());
    (e, t[f + 1] == '-')
}

/// Writes digits with the point behind the first of them, times ten to
/// the power `e`, out without an exponent.
fn write_positional(negative: bool, m: &Vec<char>, e: i64) -> (r: String)
    requires
        m.len() >= 1,
        -2000 <= e <= 2000,
    ensures
        r@ == positional_of(negative, m@, e as int),
{
    let count = m.len();
    let mut out = String::new();
    if negative {
        out.push('-');
    }
    let ghost sign = out@;
    assert(sign =~= if negative {
        seq!['-']
    } else {
        Seq::<char>::empty()
    });
    if e < 0 {
        out.push('0');
        out.push('.');
        push_zeros(&mut out, (-e - 1) as usize);
        push_range(&mut out, m, 0, count);
        assert(m@.subrange(0, count as int) =~= m@);
        assert(out@ =~= sign + seq!['0', '.'] + zeros(-e - 1) + m@);
    } else if e as usize >= count - 1 {
        push_range(&mut out, m, 0, count);
        push_zeros(&mut out, e as usize - (count - 1));
        assert(m@.subrange(0, count as int) =~= m@);
        assert(out@ =~= sign + m@ + zeros(e - (count - 1)));
    } else {
        let point = e as usize + 1;
        push_range(&mut out, m, 0, point);
        out.push('.');
        push_range(&mut out, m, point, count);
        assert(m@.subrange(0, e + 1) =~= m@.take(e + 1));
        assert(m@.subrange(e + 1, count as int) =~= m@.skip(e + 1));
        assert(out@ =~= sign + m@.take(e + 1) + seq!['.'] + m@.skip(e + 1));
    }
    out
}

/// Writes digits with the point behind the first of them, times ten to
/// the power `e`, in scientific notation.
fn write_scientific(negative: bool, m: &Vec<char>, e: i64) -> (r: String)
    requires
        m.len() >= 1,
        -2000 <= e <= 2000,
    ensures
        r@ == written(negative, m@, e as int),
{
    let mut out = String::new();
    if negative {
        out.push('-');
    }
    let ghost sign = out@;
    out.push(m[0]);
    out.push('.');
    if m.len() > 1 {
        push_range(&mut out, m, 1, m.len());
        assert(m@.subrange(1, m.len() as int) =~= m@.skip(1));
    } else {
        out.push('0');
    }
    let ghost middle = out@;
    out.push('E');
    if e < 0 {
        out.push('-');
        push_decimal(&mut out, (-e) as usize);
        assert(out@ =~= middle + (seq!['E', '-'] + decimal_digits(-e as nat)));
    } else {
        out.push('+');
        push_decimal(&mut out, e as usize);
        assert(out@ =~= middle + (seq!['E', '+'] + decimal_digits(e as nat)));
    }
    assert(middle =~= sign + seq![m@[0], '.'] + (if m@.len() > 1 {
        m@.skip(1)
    } else {
        seq!['0']
    }));
    out
}

/// The power of ten of a number in scientific notation.
fn signed_power(t: &Vec<char>) -> (r: i64)
    requires
        is_scientific(t@),
    ensures
        r == exponent(t@),
        -999 <= r <= 999,
{
    let (size, negative) = power_of(t);
    if negative {
        -(size as i64)
    } else {
        size as i64
    }
}

/// Writes a text in scientific notation out without an exponent; hands
/// any other text back as it is.
pub fn to_positional(text: &str) -> (r: String)
    ensures
        r@ == positional(text@),
{
    let t = crate::text::chars_of(text);
    if !scientific(&t) {
        return string_of(&t);
    }
    let m = significant_digits(&t);
    let e = signed_power(&t);
    write_positional(t[0] == '-', &m, e)
}

/// The digit after `c`; `0` after `9`.
fn digit_after(c: char) -> (r: char)
    ensures
        r == next_digit(c),
{
    if c == '0' {
        '1'
    } else if c == '1' {
        '2'
    } else if c == '2' {
        '3'
    } else if c == '3' {
        '4'
    } else if c == '4' {
        '5'
    } else if c == '5' {
        '6'
    } else if c == '6' {
        '7'
    } else if c == '7' {
        '8'
    } else if c == '8' {
        '9'
    } else {
        '0'
    }
}

/// The first `p` digits of `m` without zeros at the end.
fn cut_digits(m: &Vec<char>, p: usize) -> (r: Vec<char>)
    requires
        1 <= p <= m.len(),
    ensures
        r@ == m@.take(trimmed_end(m@, 1, p as int)),
        r.len() >= 1,
{
    let end = trim_zeros(m, 1, p);
    let mut out: Vec<char> = Vec::new();
    let mut i: usize = 0;
    while i < end
        invariant
            i <= end <= m.len(),
            out@ == m@.take(i as int),
        decreases end - i,
    {
        out.push(m[i]);
        i += 1;
        assert(out@ =~= m@.take(i as int));
    }
    out
}

/// The first `p` digits of `m` raised to the next numeral of at most `p`
/// digits, and whether that took a carry out of the first digit.
fn raise_digits(m: &Vec<char>, p: usize) -> (r: (Vec<char>, bool))
    requires
        1 <= p <= m.len(),
    ensures
        r.1 == (last_not_nine(m@, p as int) < 0),
        r.0@ == (if last_not_nine(m@, p as int) < 0 {
            seq!['1']
        } else {
            m@.take(last_not_nine(m@, p as int)).push(
                next_digit(m@[last_not_nine(m@, p as int)]),
            )
        }),
        r.0.len() >= 1,
{
    let mut j: usize = p;
    while j > 0 && m[j - 1] == '9'
        invariant
            j <= p <= m.len(),
            last_not_nine(m@, j as int) == last_not_nine(m@, p as int),
        decreases j,
    {
        j -= 1;
    }
    let mut out: Vec<char> = Vec::new();
    if j == 0 {
        out.push('1');
        assert(out@ =~= seq!['1']);
        return (out, true);
    }
    let last = j - 1;
    let mut i: usize = 0;
    while i < last
        invariant
            i <= last < m.len(),
            out@ == m@.take(i as int),
        decreases last - i,
    {
        out.push(m[i]);
        i += 1;
        assert(out@ =~= m@.take(i as int));
    }
    out.push(digit_after(m[last]));
    (out, false)
}

/// Whether the digits, times ten to the power `e`, read as `n`.
fn reads(n: u64, negative: bool, m: &Vec<char>, e: i64) -> (r: bool)
    requires
        m.len() >= 1,
        -2000 <= e <= 2000,
    ensures
        r == reads_as(n, negative, Numeral { digits: m@, power: e as int }),
{
    let text = write_scientific(negative, m, e);
    parse_number(text.as_str()) == Some(n)
}

/// The shortest digits, and their power of ten, that read as `n`.
fn shortest_digits(n: u64, negative: bool, m: Vec<char>, e: i64) -> (r: (Vec<char>, i64))
    requires
        m.len() >= 1,
        -1000 <= e <= 1000,
    ensures
        r.0@ == shortest(n, negative, m@, e as int, 1).digits,
        r.1 == shortest(n, negative, m@, e as int, 1).power,
        r.0.len() >= 1,
        -2000 <= r.1 <= 2000,
{
    let mut p: usize = 1;
    while p < m.len() && p <= 17
        invariant
            1 <= p <= 18,
            m.len() >= 1,
            -1000 <= e <= 1000,
            shortest(n, negative, m@, e as int, p as int) == shortest(n, negative, m@, e as int, 1),
        decreases 18 - p,
    {
        let below = cut_digits(&m, p);
        let (above, carried) = raise_digits(&m, p);
        let above_power = if carried {
            e + 1
        } else {
            e
        };
        assert(cut(m@, e as int, p as int) == (Numeral { digits: below@, power: e as int }));
        assert(raised(m@, e as int, p as int) == (Numeral {
            digits: above@,
            power: above_power as int,
        }));
        if m[p] >= '5' {
            if reads(n, negative, &above, above_power) {
                return (above, above_power);
            }
            if reads(n, negative, &below, e) {
                return (below, e);
            }
        } else {
            if reads(n, negative, &below, e) {
                return (below, e);
            }
            if reads(n, negative, &above, above_power) {
                return (above, above_power);
            }
        }
        p += 1;
    }
    (m, e)
}

/// Writes a number as text.
pub fn format_number(n: u64) -> (r: String)
    ensures
        r@ == number_text(n),
{
    let size = magnitude_of(n);
    if size > INFINITY_BITS {
        proof {
            reveal_strlit("NaN");
        }
        assert("NaN"@ =~= seq!['N', 'a', 'N']);
        return String::from_str("NaN");
    }
    if size == INFINITY_BITS {
        if n >= SIGN_BIT {
            proof {
                reveal_strlit("-inf");
            }
            assert("-inf"@ =~= seq!['-', 'i', 'n', 'f']);
            return String::from_str("-inf");
        }
        proof {
            reveal_strlit("inf");
        }
        assert("inf"@ =~= seq!['i', 'n', 'f']);
        return String::from_str("inf");
    }
    if size == 0 {
        if n >= SIGN_BIT {
            proof {
                reveal_strlit("-0");
            }
            assert("-0"@ =~= seq!['-', '0']);
            return String::from_str("-0");
        }
        proof {
            reveal_strlit("0");
        }
        assert("0"@ =~= seq!['0']);
        return String::from_str("0");
    }
    let exact = double_to_digits(n, EXPANSION_WIDTH, EXPANSION_DIGITS);
    let t = crate::text::chars_of(exact.as_str());
    if !scientific(&t) {
        return exact;
    }
    let m = significant_digits(&t);
    let e = signed_power(&t);
    let (digits, power) = shortest_digits(n, n >= SIGN_BIT, m, e);
    write_positional(n >= SIGN_BIT, &digits, power)
}

} // verus!
