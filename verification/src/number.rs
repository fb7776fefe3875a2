//! Numbers: IEEE-754 binary64 values held as their bit patterns.
//!
//! Sign, ordering and equality are decided here from the bits. Rounding
//! arithmetic and the conversion between decimal text and bits are done by
//! `rustc_apfloat` on the same bit patterns.

use crate::text::{chars_of, decimal, digit_of, digit_value, is_digit, string_of};
use rustc_apfloat::ieee::Double;
use rustc_apfloat::Float;
use vstd::prelude::*;

verus! {

/// The bits of the sum of two binary64 values, rounded to nearest, ties to even.
pub uninterp spec fn float_sum(a: u64, b: u64) -> u64;

/// The bits of the difference of two binary64 values, rounded to nearest, ties to even.
pub uninterp spec fn float_difference(a: u64, b: u64) -> u64;

/// The bits of the product of two binary64 values, rounded to nearest, ties to even.
pub uninterp spec fn float_product(a: u64, b: u64) -> u64;

/// The bits of the quotient of two binary64 values, rounded to nearest, ties to even.
pub uninterp spec fn float_quotient(a: u64, b: u64) -> u64;

/// The bits of the binary64 value nearest to a decimal text, if the text is a number.
pub uninterp spec fn float_parse(text: Seq<char>) -> Option<u64>;

/// A binary64 value in scientific notation, with at most `precision` significant digits.
pub uninterp spec fn float_digits(bits: u64, precision: usize) -> Seq<char>;

/// Trusted: `Double::from_bits`, `Add::add` for `Double` and `Double::to_bits`.
/// The contract only names the result: the sum depends on the two bit
/// patterns alone.
#[verifier::external_body]
fn sum_bits(a: u64, b: u64) -> (r: u64)
    ensures
        r == float_sum(a, b),
{
    (Double::from_bits(a as u128) + Double::from_bits(b as u128)).value.to_bits() as u64
}

/// Trusted: `Sub::sub` for `Double`, between `from_bits` and `to_bits`.
/// The contract only names the result.
#[verifier::external_body]
fn difference_bits(a: u64, b: u64) -> (r: u64)
    ensures
        r == float_difference(a, b),
{
    (Double::from_bits(a as u128) - Double::from_bits(b as u128)).value.to_bits() as u64
}

/// Trusted: `Mul::mul` for `Double`, between `from_bits` and `to_bits`.
/// The contract only names the result.
#[verifier::external_body]
fn product_bits(a: u64, b: u64) -> (r: u64)
    ensures
        r == float_product(a, b),
{
    (Double::from_bits(a as u128) * Double::from_bits(b as u128)).value.to_bits() as u64
}

/// Trusted: `Div::div` for `Double`, between `from_bits` and `to_bits`.
/// The contract only names the result.
#[verifier::external_body]
fn quotient_bits(a: u64, b: u64) -> (r: u64)
    ensures
        r == float_quotient(a, b),
{
    (Double::from_bits(a as u128) / Double::from_bits(b as u128)).value.to_bits() as u64
}

/// Trusted: `FromStr::from_str` for `Double`, which returns an error for
/// text that it does not read as a number. The contract only names the
/// result, `None` standing for the error.
#[verifier::external_body]
fn parse_bits(text: &str) -> (r: Option<u64>)
    ensures
        r == float_parse(text@),
{
    match text.parse::<Double>() {
        Ok(value) => Some(value.to_bits() as u64),
        Err(_) => None,
    }
}

/// Trusted: `Display::fmt` for `Double`, asked for `precision` digits and
/// for scientific notation throughout (width zero). The contract only
/// names the result. The precision is bounded: beyond the bound the
/// formatting cannot be asked for, and its arithmetic on the precision
/// would overflow.
#[verifier::external_body]
fn digits_of_bits(bits: u64, precision: usize) -> (r: String)
    requires
        1 <= precision <= MOST_DIGITS,
    ensures
        r@ == float_digits(bits, precision),
{
    format!("{:w$.p$}", Double::from_bits(bits as u128), w = 0, p = precision)
}

/// The most digits that are asked of the conversion to decimal.
pub const MOST_DIGITS: usize = 0xffff;

pub const SIGN_BIT: u64 = 0x8000_0000_0000_0000;

pub const INFINITY_BITS: u64 = 0x7ff0_0000_0000_0000;

/// A number of the language.
#[derive(Clone, Copy, Debug, PartialEq, Eq, Structural, Hash)]
pub struct Number {
    pub bits: u64,
}

impl Number {
    /// The bits without the sign.
    pub open spec fn magnitude(self) -> int {
        self.bits as int % 0x8000_0000_0000_0000
    }

    pub open spec fn negative(self) -> bool {
        self.bits >= SIGN_BIT
    }

    pub open spec fn nan(self) -> bool {
        self.magnitude() > INFINITY_BITS
    }

    pub open spec fn infinite(self) -> bool {
        self.magnitude() == INFINITY_BITS
    }

    /// Where the value stands among the numbers: binary64 values are
    /// ordered as their sign and magnitude are, and the two zeros coincide.
    pub open spec fn rank(self) -> int {
        if self.negative() {
            -self.magnitude()
        } else {
            self.magnitude()
        }
    }

    /// Equality of numbers: a NaN equals nothing, not even itself.
    pub open spec fn equal_to(self, other: Number) -> bool {
        !self.nan() && !other.nan() && self.rank() == other.rank()
    }

    pub open spec fn less_than(self, other: Number) -> bool {
        !self.nan() && !other.nan() && self.rank() < other.rank()
    }

    pub open spec fn at_most(self, other: Number) -> bool {
        !self.nan() && !other.nan() && self.rank() <= other.rank()
    }

    pub open spec fn opposite(self) -> Number {
        Number {
            bits: if self.negative() {
                (self.bits - SIGN_BIT) as u64
            } else {
                (self.bits + SIGN_BIT) as u64
            },
        }
    }

    pub fn from_bits(bits: u64) -> (r: Number)
        ensures
            r.bits == bits,
    {
        Number { bits }
    }

    pub fn to_bits(self) -> (r: u64)
        ensures
            r == self.bits,
    {
        self.bits
    }

    fn abs_bits(self) -> (r: u64)
        ensures
            r == self.magnitude(),
    {
        self.bits % SIGN_BIT
    }

    pub fn is_nan(self) -> (r: bool)
        ensures
            r == self.nan(),
    {
        self.abs_bits() > INFINITY_BITS
    }

    pub fn is_negative(self) -> (r: bool)
        ensures
            r == self.negative(),
    {
        self.bits >= SIGN_BIT
    }

    /// The number with the other sign.
    pub fn negate(self) -> (r: Number)
        ensures
            r == self.opposite(),
            r.magnitude() == self.magnitude(),
            r.negative() != self.negative(),
    {
        if self.bits >= SIGN_BIT {
            Number { bits: self.bits - SIGN_BIT }
        } else {
            Number { bits: self.bits + SIGN_BIT }
        }
    }

    pub fn equals(self, other: Number) -> (r: bool)
        ensures
            r == self.equal_to(other),
    {
        if self.is_nan() || other.is_nan() {
            false
        } else if self.abs_bits() == 0 && other.abs_bits() == 0 {
            true
        } else {
            self.bits == other.bits
        }
    }

    pub fn less(self, other: Number) -> (r: bool)
        ensures
            r == self.less_than(other),
    {
        if self.is_nan() || other.is_nan() {
            false
        } else if self.is_negative() {
            if other.is_negative() {
                self.abs_bits() > other.abs_bits()
            } else {
                self.abs_bits() > 0 || other.abs_bits() > 0
            }
        } else {
            !other.is_negative() && self.abs_bits() < other.abs_bits()
        }
    }

    pub fn less_equal(self, other: Number) -> (r: bool)
        ensures
            r == self.at_most(other),
    {
        if self.is_nan() || other.is_nan() {
            false
        } else if self.is_negative() {
            if other.is_negative() {
                self.abs_bits() >= other.abs_bits()
            } else {
                true
            }
        } else if other.is_negative() {
            self.abs_bits() == 0 && other.abs_bits() == 0
        } else {
            self.abs_bits() <= other.abs_bits()
        }
    }

    pub fn greater(self, other: Number) -> (r: bool)
        ensures
            r == other.less_than(self),
    {
        other.less(self)
    }

    pub fn greater_equal(self, other: Number) -> (r: bool)
        ensures
            r == other.at_most(self),
    {
        other.less_equal(self)
    }

    pub fn plus(self, other: Number) -> (r: Number)
        ensures
            r.bits == float_sum(self.bits, other.bits),
    {
        Number { bits: sum_bits(self.bits, other.bits) }
    }

    pub fn minus(self, other: Number) -> (r: Number)
        ensures
            r.bits == float_difference(self.bits, other.bits),
    {
        Number { bits: difference_bits(self.bits, other.bits) }
    }

    pub fn times(self, other: Number) -> (r: Number)
        ensures
            r.bits == float_product(self.bits, other.bits),
    {
        Number { bits: product_bits(self.bits, other.bits) }
    }

    pub fn divided_by(self, other: Number) -> (r: Number)
        ensures
            r.bits == float_quotient(self.bits, other.bits),
    {
        Number { bits: quotient_bits(self.bits, other.bits) }
    }

    /// The number that a decimal text stands for.
    pub fn parse(text: &str) -> (r: Option<Number>)
        ensures
            r == parsed(text@),
    {
        match parse_bits(text) {
            Some(bits) => Some(Number { bits }),
            None => None,
        }
    }
}

/// Whether a text writes a number in decimal: digits, with a `-` in front
/// or a `.` and more digits behind if at all.
pub open spec fn decimal_text(s: Seq<char>) -> bool {
    let start: int = if s.len() > 0 && s[0] == '-' {
        1
    } else {
        0
    };
    let whole = digit_run(s, start) as int;
    whole >= 1 && (start + whole == s.len() || (s[start + whole] == '.' && digit_run(
        s,
        start + whole + 1,
    ) >= 1 && start + whole + 1 + digit_run(s, start + whole + 1) == s.len()))
}

/// Whether a text writes a number in decimal.
pub fn is_decimal(text: &str) -> (r: bool)
    ensures
        r == decimal_text(text@),
{
    let s = chars_of(text);
    let start: usize = if s.len() > 0 && s[0] == '-' {
        1
    } else {
        0
    };
    let whole = count_digits(&s, start);
    if whole == 0 {
        return false;
    }
    if start + whole == s.len() {
        return true;
    }
    if s[start + whole] != '.' {
        return false;
    }
    let part = count_digits(&s, start + whole + 1);
    part >= 1 && start + whole + 1 + part == s.len()
}

pub open spec fn parsed(text: Seq<char>) -> Option<Number> {
    match float_parse(text) {
        Some(bits) => Some(Number { bits }),
        None => None,
    }
}


/// The digits asked of the conversion to decimal: more than any number
/// needs to be told from its neighbours.
pub const EXACT: usize = 40;

/// The longest text that is read as scientific notation.
pub const LONGEST: usize = 1000;

/// A finite number in decimal: sign, significant digits, and the power of
/// ten of the first digit.
pub struct Scientific {
    pub negative: bool,
    pub digits: Seq<char>,
    pub exponent: int,
}

/// How many digits stand in `s` from `from` on, without a break.
pub open spec fn digit_run(s: Seq<char>, from: int) -> nat
    decreases s.len() - from,
{
    if 0 <= from < s.len() && is_digit(s[from]) {
        1 + digit_run(s, from + 1)
    } else {
        0
    }
}

/// The number that a sequence of digits writes.
pub open spec fn digits_value(s: Seq<char>) -> nat
    decreases s.len(),
{
    if s.len() == 0 {
        0
    } else {
        match digit_value(s.last()) {
            Some(d) => 10 * digits_value(s.drop_last()) + d,
            None => 0,
        }
    }
}

/// `s` without the zeros at its end, but for its first character.
pub open spec fn trim_zeros(s: Seq<char>) -> Seq<char>
    decreases s.len(),
{
    if s.len() > 1 && s.last() == '0' {
        trim_zeros(s.drop_last())
    } else {
        s
    }
}

pub open spec fn zeros(n: int) -> Seq<char> {
    Seq::new(
        if n > 0 {
            n as nat
        } else {
            0
        },
        |i: int| '0',
    )
}

/// Reads `d.dddE+x` or `-d.dddE-x`, with an exponent of at most four digits.
pub open spec fn scientific(s: Seq<char>) -> Option<Scientific> {
    let negative = s.len() > 0 && s[0] == '-';
    let body = if negative {
        s.subrange(1, s.len() as int)
    } else {
        s
    };
    let k = digit_run(body, 2) as int;
    if body.len() >= 6 && body.len() <= LONGEST && is_digit(body[0]) && body[1] == '.' && k >= 1 && body.len() >= k + 5
        && body[k + 2] == 'E' && (body[k + 3] == '+' || body[k + 3] == '-') && body.len() <= k
        + 8 && digit_run(body, k + 4) == body.len() - (k + 4) {
        let size = digits_value(body.subrange(k + 4, body.len() as int));
        Some(
            Scientific {
                negative,
                digits: trim_zeros(seq![body[0]] + body.subrange(2, k + 2)),
                exponent: if body[k + 3] == '-' {
                    -(size as int)
                } else {
                    size as int
                },
            },
        )
    } else {
        None
    }
}

/// The digits laid out without an exponent: `1500`, `1.5`, `0.0015`.
pub open spec fn laid_out(p: Scientific) -> Seq<char> {
    let sign = if p.negative {
        seq!['-']
    } else {
        Seq::<char>::empty()
    };
    let n = p.digits.len() as int;
    if p.exponent >= n - 1 {
        sign + p.digits + zeros(p.exponent - (n - 1))
    } else if p.exponent >= 0 {
        sign + p.digits.subrange(0, p.exponent + 1) + seq!['.'] + p.digits.subrange(
            p.exponent + 1,
            n,
        )
    } else {
        sign + seq!['0', '.'] + zeros(-p.exponent - 1) + p.digits
    }
}

/// How many nines stand at the end of the digits.
pub open spec fn nines(d: Seq<char>) -> nat
    decreases d.len(),
{
    if d.len() > 0 && d.last() == '9' {
        1 + nines(d.drop_last())
    } else {
        0
    }
}

/// The digit after a digit below nine.
pub open spec fn successor(c: char) -> char {
    if c == '0' {
        '1'
    } else if c == '1' {
        '2'
    } else if c == '2' {
        '3'
    } else if c == '3' {
        '4'
    } else if c == '4' {
        '5'
    } else if c == '5' {
        '6'
    } else if c == '6' {
        '7'
    } else if c == '7' {
        '8'
    } else if c == '8' {
        '9'
    } else {
        c
    }
}

/// Whether a first dropped digit rounds the kept ones up.
pub open spec fn rounds_up(c: char) -> bool {
    c == '5' || c == '6' || c == '7' || c == '8' || c == '9'
}

/// The decimal rounded to at most `p` significant digits, half up,
/// without zeros at its end.
pub open spec fn rounded(s: Scientific, p: int) -> Scientific {
    if s.digits.len() <= p || p < 1 {
        s
    } else {
        let keep = s.digits.subrange(0, p);
        if rounds_up(s.digits[p]) {
            let k = nines(keep) as int;
            if k >= keep.len() {
                Scientific { digits: seq!['1'], exponent: s.exponent + 1, ..s }
            } else {
                Scientific {
                    digits: keep.subrange(0, keep.len() - k - 1).push(
                        successor(keep[keep.len() - k - 1]),
                    ),
                    ..s
                }
            }
        } else {
            Scientific { digits: trim_zeros(keep), ..s }
        }
    }
}

/// The decimal as a text that is read back as a number: the digits, `E`,
/// and the power of ten of the last digit.
pub open spec fn written(s: Scientific) -> Seq<char> {
    let power = s.exponent - (s.digits.len() - 1);
    (if s.negative {
        seq!['-']
    } else {
        Seq::<char>::empty()
    }) + s.digits + seq!['E'] + (if power < 0 {
        seq!['-'] + decimal((-power) as nat)
    } else {
        seq!['+'] + decimal(power as nat)
    })
}

/// The decimal with the fewest digits, from `p` digits up to 17, that is
/// read back as the number with the bits `bits`; 17 digits always tell a
/// binary64 value from its neighbours.
pub open spec fn shortest(bits: u64, exact: Scientific, p: int) -> Scientific
    decreases 17 - p,
{
    if p >= 17 {
        rounded(exact, 17)
    } else if float_parse(written(rounded(exact, p))) == Some(bits) {
        rounded(exact, p)
    } else {
        shortest(bits, exact, p + 1)
    }
}

/// The text of a number: the fewest digits that read back as the same
/// number, written without an exponent.
pub open spec fn number_text(n: Number) -> Seq<char> {
    if n.nan() {
        "NaN"@
    } else if n.infinite() {
        if n.negative() {
            "-inf"@
        } else {
            "inf"@
        }
    } else {
        match scientific(float_digits(n.bits, EXACT)) {
            Some(exact) => laid_out(shortest(n.bits, exact, 1)),
            None => float_digits(n.bits, EXACT),
        }
    }
}

fn count_digits(s: &Vec<char>, from: usize) -> (r: usize)
    requires
        from <= s.len(),
    ensures
        r == digit_run(s@, from as int),
        from + r <= s.len(),
{
    let mut i: usize = from;
    while i < s.len() && digit_of(s[i]).is_some()
        invariant
            from <= i <= s.len(),
            digit_run(s@, from as int) == (i - from) + digit_run(s@, i as int),
        decreases s.len() - i,
    {
        i += 1;
    }
    i - from
}

proof fn lemma_value_pow(s: Seq<char>)
    ensures
        s.len() == 0 ==> digits_value(s) == 0,
        s.len() <= 1 ==> digits_value(s) < 10,
        s.len() <= 2 ==> digits_value(s) < 100,
        s.len() <= 3 ==> digits_value(s) < 1000,
        s.len() <= 4 ==> digits_value(s) < 10000,
    decreases s.len(),
{
    if s.len() > 0 {
        lemma_value_pow(s.drop_last());
    }
}

/// The value of the digits `s[from..to]`, which are at most four.
fn small_value(s: &Vec<char>, from: usize, to: usize) -> (r: usize)
    requires
        from <= to <= s.len(),
        to - from <= 4,
    ensures
        r == digits_value(s@.subrange(from as int, to as int)),
        r < 10000,
{
    let mut i: usize = from;
    let mut value: usize = 0;
    proof {
        assert(s@.subrange(from as int, from as int).len() == 0);
    }
    while i < to
        invariant
            from <= i <= to <= s.len(),
            to - from <= 4,
            value == digits_value(s@.subrange(from as int, i as int)),
            value < 10000,
        decreases to - i,
    {
        let d = digit_of(s[i]);
        proof {
            let next = s@.subrange(from as int, i as int + 1);
            assert(next.drop_last() =~= s@.subrange(from as int, i as int));
            assert(next.last() == s@[i as int]);
            lemma_value_pow(next);
            lemma_value_pow(next.drop_last());
        }
        value = match d {
            Some(d) => 10 * value + d as usize,
            None => 0,
        };
        i += 1;
    }
    value
}

fn parse_scientific(s: &Vec<char>) -> (r: Option<(bool, Vec<char>, i64)>)
    ensures
        match r {
            Some((negative, digits, exponent)) => scientific(s@) == Some(
                Scientific { negative, digits: digits@, exponent: exponent as int },
            ) && digits.len() >= 1 && -10000 < exponent < 10000 && digits.len() <= s.len()
                && digits.len() <= LONGEST,
            None => scientific(s@).is_none(),
        },
{
    let negative = s.len() > 0 && s[0] == '-';
    let start: usize = if negative {
        1
    } else {
        0
    };
    let ghost body = s@.subrange(start as int, s.len() as int);
    let len = s.len() - start;
    if len < 6 || len > LONGEST {
        return None;
    }
    assert(forall|i: int| 0 <= i < body.len() ==> body[i] == s@[start + i]);
    proof {
        lemma_run_shift(s@, start as int, 2);
    }
    let k = count_digits(s, start + 2);
    if !(digit_of(s[start]).is_some() && s[start + 1] == '.' && k >= 1 && k <= len - 5) {
        return None;
    }
    if !(s[start + k + 2] == 'E' && (s[start + k + 3] == '+' || s[start + k + 3] == '-') && len
        - k <= 8) {
        return None;
    }
    proof {
        lemma_run_shift(s@, start as int, k as int + 4);
    }
    let tail = count_digits(s, start + k + 4);
    if tail != len - (k + 4) {
        return None;
    }
    let size = small_value(s, start + k + 4, s.len());
    assert(s@.subrange(start + k + 4, s.len() as int) =~= body.subrange(
        k + 4,
        body.len() as int,
    ));
    let exponent: i64 = if s[start + k + 3] == '-' {
        -(size as i64)
    } else {
        size as i64
    };
    let mut digits: Vec<char> = Vec::new();
    digits.push(s[start]);
    let mut i: usize = 0;
    while i < k
        invariant
            i <= k,
            start + k + 2 <= s.len(),
            digits@ == seq![s@[start as int]] + s@.subrange(start + 2, start + 2 + i),
        decreases k - i,
    {
        digits.push(s[start + 2 + i]);
        assert(digits@ =~= seq![s@[start as int]] + s@.subrange(start + 2, start + 2 + i + 1));
        i += 1;
    }
    assert(digits@ =~= seq![body[0]] + body.subrange(2, k + 2));
    let ghost full = digits@;
    while digits.len() > 1 && digits[digits.len() - 1] == '0'
        invariant
            digits.len() >= 1,
            digits.len() <= full.len(),
            trim_zeros(digits@) == trim_zeros(full),
        decreases digits.len(),
    {
        let ghost before = digits@;
        digits.pop();
        assert(digits@ =~= before.drop_last());
    }
    Some((negative, digits, exponent))
}

proof fn lemma_run_shift(s: Seq<char>, start: int, from: int)
    requires
        0 <= start <= s.len(),
        0 <= from,
    ensures
        digit_run(s.subrange(start, s.len() as int), from) == digit_run(s, start + from),
    decreases s.len() - start - from,
{
    let body = s.subrange(start, s.len() as int);
    if from < body.len() && is_digit(body[from]) {
        lemma_run_shift(s, start, from + 1);
    }
}

fn push_zeros(out: &mut Vec<char>, n: usize)
    ensures
        final(out)@ == old(out)@ + zeros(n as int),
{
    let mut i: usize = 0;
    assert(out@ =~= old(out)@ + zeros(0));
    while i < n
        invariant
            i <= n,
            out@ == old(out)@ + zeros(i as int),
        decreases n - i,
    {
        out.push('0');
        assert(out@ =~= old(out)@ + zeros(i as int + 1));
        i += 1;
    }
}

fn push_range(out: &mut Vec<char>, s: &Vec<char>, from: usize, to: usize)
    requires
        from <= to <= s.len(),
    ensures
        final(out)@ == old(out)@ + s@.subrange(from as int, to as int),
{
    let mut i: usize = from;
    assert(out@ =~= old(out)@ + s@.subrange(from as int, from as int));
    while i < to
        invariant
            from <= i <= to <= s.len(),
            out@ == old(out)@ + s@.subrange(from as int, i as int),
        decreases to - i,
    {
        out.push(s[i]);
        assert(out@ =~= old(out)@ + s@.subrange(from as int, i as int + 1));
        i += 1;
    }
}

fn lay_out(negative: bool, digits: &Vec<char>, exponent: i64) -> (r: Vec<char>)
    requires
        digits.len() >= 1,
        -10000 < exponent <= 10000,
    ensures
        r@ == laid_out(Scientific { negative, digits: digits@, exponent: exponent as int }),
{
    let mut out: Vec<char> = Vec::new();
    if negative {
        out.push('-');
    }
    let ghost sign = out@;
    let n = digits.len();
    if exponent >= 0 && exponent as usize >= n - 1 {
        push_range(&mut out, digits, 0, n);
        assert(digits@.subrange(0, n as int) =~= digits@);
        push_zeros(&mut out, exponent as usize - (n - 1));
    } else if exponent >= 0 {
        let e = exponent as usize;
        push_range(&mut out, digits, 0, e + 1);
        out.push('.');
        push_range(&mut out, digits, e + 1, n);
        assert(out@ =~= sign + digits@.subrange(0, e + 1) + seq!['.'] + digits@.subrange(
            e + 1,
            n as int,
        ));
    } else {
        out.push('0');
        out.push('.');
        push_zeros(&mut out, (-exponent - 1) as usize);
        push_range(&mut out, digits, 0, n);
        assert(digits@.subrange(0, n as int) =~= digits@);
        assert(out@ =~= sign + seq!['0', '.'] + zeros(-exponent - 1) + digits@);
    }
    out
}

impl Number {
    pub fn is_infinite(self) -> (r: bool)
        ensures
            r == self.infinite(),
    {
        self.abs_bits() == INFINITY_BITS
    }

    /// The text that `print` shows for the number.
    pub fn display(self) -> (r: String)
        ensures
            r@ == number_text(self),
    {
        if self.is_nan() {
            return "NaN".to_owned();
        }
        if self.is_infinite() {
            if self.is_negative() {
                return "-inf".to_owned();
            }
            return "inf".to_owned();
        }
        let text = digits_of_bits(self.bits, EXACT);
        let chars = chars_of(text.as_str());
        match parse_scientific(&chars) {
            Some((negative, digits, exponent)) => {
                let ghost exact = Scientific { negative, digits: digits@, exponent: exponent as int };
                let mut p: usize = 1;
                loop
                    invariant
                        1 <= p <= 17,
                        digits.len() >= 1,
                        digits.len() <= LONGEST,
                        -10000 < exponent < 10000,
                        exact == (Scientific {
                            negative,
                            digits: digits@,
                            exponent: exponent as int,
                        }),
                        !self.nan(),
                        !self.infinite(),
                        scientific(float_digits(self.bits, EXACT)) == Some(exact),
                        shortest(self.bits, exact, 1) == shortest(self.bits, exact, p as int),
                    decreases 17 - p,
                {
                    let (short, power) = round_to(negative, &digits, exponent, p);
                    if p >= 17 {
                        return string_of(&lay_out(negative, &short, power));
                    }
                    let candidate = write_out(negative, &short, power);
                    if parse_bits(candidate.as_str()) == Some(self.bits) {
                        return string_of(&lay_out(negative, &short, power));
                    }
                    p += 1;
                }
            },
            None => text,
        }
    }
}

/// How many nines stand at the end of `d[..upto]`.
fn count_nines(d: &Vec<char>, upto: usize) -> (k: usize)
    requires
        upto <= d.len(),
    ensures
        k == nines(d@.subrange(0, upto as int)),
        k <= upto,
{
    let mut k: usize = 0;
    while k < upto && d[upto - k - 1] == '9'
        invariant
            k <= upto <= d.len(),
            nines(d@.subrange(0, upto as int)) == k + nines(d@.subrange(0, upto - k)),
        decreases upto - k,
    {
        proof {
            let rest = d@.subrange(0, upto - k);
            assert(rest.last() == d@[upto - k - 1]);
            assert(rest.drop_last() =~= d@.subrange(0, upto - k - 1));
        }
        k += 1;
    }
    proof {
        let rest = d@.subrange(0, upto - k);
        if k < upto {
            assert(rest.last() == d@[upto - k - 1]);
        }
    }
    k
}

fn next_digit(c: char) -> (r: char)
    ensures
        r == successor(c),
{
    match c {
        '0' => '1',
        '1' => '2',
        '2' => '3',
        '3' => '4',
        '4' => '5',
        '5' => '6',
        '6' => '7',
        '7' => '8',
        '8' => '9',
        _ => c,
    }
}

/// Rounds a decimal to at most `p` significant digits.
fn round_to(negative: bool, digits: &Vec<char>, exponent: i64, p: usize) -> (r: (Vec<char>, i64))
    requires
        p >= 1,
        digits.len() >= 1,
        -10000 < exponent < 10000,
    ensures
        (Scientific { negative, digits: r.0@, exponent: r.1 as int }) == rounded(
            Scientific { negative, digits: digits@, exponent: exponent as int },
            p as int,
        ),
        1 <= r.0.len() <= digits.len(),
        exponent <= r.1 <= exponent + 1,
{
    let mut out: Vec<char> = Vec::new();
    if digits.len() <= p {
        push_range(&mut out, digits, 0, digits.len());
        assert(out@ =~= digits@);
        return (out, exponent);
    }
    let c = digits[p];
    if c == '5' || c == '6' || c == '7' || c == '8' || c == '9' {
        let k = count_nines(digits, p);
        if k >= p {
            out.push('1');
            assert(out@ =~= seq!['1']);
            (out, exponent + 1)
        } else {
            push_range(&mut out, digits, 0, p - k - 1);
            out.push(next_digit(digits[p - k - 1]));
            proof {
                let keep = digits@.subrange(0, p as int);
                assert(keep.subrange(0, keep.len() - k - 1) =~= digits@.subrange(0, p - k - 1));
                assert(keep[keep.len() - k - 1] == digits@[p - k - 1]);
            }
            (out, exponent)
        }
    } else {
        push_range(&mut out, digits, 0, p);
        let ghost full = out@;
        assert(full =~= digits@.subrange(0, p as int));
        while out.len() > 1 && out[out.len() - 1] == '0'
            invariant
                out.len() >= 1,
                out.len() <= full.len(),
                trim_zeros(out@) == trim_zeros(full),
            decreases out.len(),
        {
            let ghost before = out@;
            out.pop();
            assert(out@ =~= before.drop_last());
        }
        (out, exponent)
    }
}

/// Writes a decimal as a text that is read back as a number.
fn write_out(negative: bool, digits: &Vec<char>, exponent: i64) -> (r: String)
    requires
        1 <= digits.len() <= LONGEST,
        -10000 < exponent <= 10000,
    ensures
        r@ == written(Scientific { negative, digits: digits@, exponent: exponent as int }),
{
    let mut out: Vec<char> = Vec::new();
    if negative {
        out.push('-');
    }
    let ghost sign = out@;
    push_range(&mut out, digits, 0, digits.len());
    assert(digits@.subrange(0, digits.len() as int) =~= digits@);
    out.push('E');
    let power: i64 = exponent - (digits.len() as i64 - 1);
    let ghost head = out@;
    if power < 0 {
        out.push('-');
        let mut size: Vec<char> = Vec::new();
        crate::text::push_decimal(&mut size, (-power) as usize);
        out.append(&mut size);
        assert(out@ =~= head + (seq!['-'] + decimal((-power) as nat)));
    } else {
        out.push('+');
        let mut size: Vec<char> = Vec::new();
        crate::text::push_decimal(&mut size, power as usize);
        out.append(&mut size);
        assert(out@ =~= head + (seq!['+'] + decimal(power as nat)));
    }
    assert(head =~= sign + digits@ + seq!['E']);
    string_of(&out)
}

} // verus!
