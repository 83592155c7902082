//! Runtime numbers.
//!
//! The language's numbers are fixed-point decimals: a number is an integer
//! mantissa scaled by `SCALE`, so one unit of the mantissa is one millionth.
//! Every operation states exactly which mantissa it produces and exactly when
//! it overflows the representable range.

use vstd::prelude::*;
use vstd::arithmetic::div_mod::{lemma_div_nonincreasing, lemma_div_pos_is_pos};

use crate::text::push_char;

verus! {

/// Mantissa units that make up the number one.
pub const SCALE: i64 = 1_000_000;

/// How many decimal digits of the fraction a mantissa carries.
pub const FRACTION_DIGITS: u64 = 6;

/// A runtime number: `mantissa / SCALE` is the value it stands for.
#[derive(Clone, Copy, Debug, PartialEq, Eq, Hash, Structural)]
pub struct Num {
    pub mantissa: i64,
}

impl View for Num {
    type V = int;

    open spec fn view(&self) -> int {
        self.mantissa as int
    }
}

/// Whether a mathematical integer fits in a 64-bit mantissa.
pub open spec fn fits_mantissa(x: int) -> bool {
    i64::MIN <= x <= i64::MAX
}

/// Division truncating toward zero, the rounding that the runtime uses for
/// multiplication and division of numbers.
pub open spec fn trunc_div(x: int, d: int) -> int
    recommends
        d != 0,
{
    if x == 0 {
        0
    } else if x > 0 && d > 0 {
        x / d
    } else if x < 0 && d < 0 {
        (x * -1) / (d * -1)
    } else if x < 0 {
        ((x * -1) / d) * -1
    } else {
        (x / (d * -1)) * -1
    }
}

/// The mantissa of the product of two numbers given by their mantissas.
pub open spec fn mul_mantissa(a: int, b: int) -> int {
    trunc_div(a * b, SCALE as int)
}

/// The mantissa of the quotient of two numbers given by their mantissas.
pub open spec fn div_mantissa(a: int, b: int) -> int
    recommends
        b != 0,
{
    trunc_div(a * (SCALE as int), b)
}

/// Truncating division never grows the magnitude of the dividend.
proof fn lemma_trunc_div_fits(x: int, d: int)
    requires
        d != 0,
    ensures
        trunc_div(x, d) <= vstd::math::abs(x) as int,
        -(vstd::math::abs(x) as int) <= trunc_div(x, d),
{
    if x == 0 {
    } else if x > 0 && d > 0 {
        lemma_div_pos_is_pos(x, d);
        lemma_div_nonincreasing(x, d);
    } else if x < 0 && d < 0 {
        lemma_div_pos_is_pos(x * -1, d * -1);
        lemma_div_nonincreasing(x * -1, d * -1);
    } else if x < 0 {
        lemma_div_pos_is_pos(x * -1, d);
        lemma_div_nonincreasing(x * -1, d);
    } else {
        lemma_div_pos_is_pos(x, d * -1);
        lemma_div_nonincreasing(x, d * -1);
    }
}

/// The character of one decimal digit.
pub open spec fn spec_digit_char(d: int) -> char {
    ((48 + d) as u8) as char
}

/// The decimal digits of a non-negative integer, most significant first.
pub open spec fn spec_udigits(n: int) -> Seq<char>
    decreases n,
{
    if n <= 9 {
        seq![spec_digit_char(if n < 0 { 0 } else { n })]
    } else {
        spec_udigits(n / 10).push(spec_digit_char(n % 10))
    }
}

/// Exactly `w` decimal digits of a non-negative integer, zero-padded on the
/// left.
pub open spec fn spec_pad_digits(n: int, w: nat) -> Seq<char>
    decreases w,
{
    if w == 0 {
        Seq::empty()
    } else {
        spec_pad_digits(n / 10, (w - 1) as nat).push(spec_digit_char(n % 10))
    }
}

/// The digits of a fraction that has `w` decimal places, with its trailing
/// zeros removed.
pub open spec fn spec_frac_digits(fr: int, w: nat) -> Seq<char>
    decreases w,
{
    if w == 0 {
        Seq::empty()
    } else if fr % 10 == 0 {
        spec_frac_digits(fr / 10, (w - 1) as nat)
    } else {
        spec_pad_digits(fr, w)
    }
}

/// The decimal text of the number with the given mantissa.
pub open spec fn spec_num_text(m: int) -> Seq<char> {
    let a = vstd::math::abs(m) as int;
    let sign: Seq<char> = if m < 0 {
        seq!['-']
    } else {
        Seq::empty()
    };
    let ip = a / (SCALE as int);
    let fr = a % (SCALE as int);
    if fr == 0 {
        sign + spec_udigits(ip)
    } else {
        sign + spec_udigits(ip) + seq!['.'] + spec_frac_digits(fr, FRACTION_DIGITS as nat)
    }
}

/// Appends the character of one decimal digit.
fn push_digit(s: &mut String, d: u64)
    requires
        d <= 9,
    ensures
        final(s)@ == old(s)@.push(spec_digit_char(d as int)),
{
    let c: char = (48u8 + (d as u8)) as char;
    push_char(s, c);
}

/// Appends the decimal digits of `n`, most significant first.
pub fn push_udigits(s: &mut String, n: u64)
    ensures
        final(s)@ == old(s)@ + spec_udigits(n as int),
    decreases n,
{
    if n <= 9 {
        push_digit(s, n);
        proof {
            assert(s@ =~= old(s)@ + spec_udigits(n as int));
        }
    } else {
        push_udigits(s, n / 10);
        push_digit(s, n % 10);
        proof {
            assert(s@ =~= old(s)@ + spec_udigits(n as int));
        }
    }
}

/// Appends exactly `w` decimal digits of `n`, zero-padded on the left.
pub fn push_pad_digits(s: &mut String, n: u64, w: u64)
    ensures
        final(s)@ == old(s)@ + spec_pad_digits(n as int, w as nat),
    decreases w,
{
    if w == 0 {
        proof {
            assert(s@ =~= old(s)@ + spec_pad_digits(n as int, w as nat));
        }
    } else {
        push_pad_digits(s, n / 10, w - 1);
        push_digit(s, n % 10);
        proof {
            assert(s@ =~= old(s)@ + spec_pad_digits(n as int, w as nat));
        }
    }
}

/// Appends the digits of a `w`-place fraction, trailing zeros removed.
fn push_frac_digits(s: &mut String, fr: u64, w: u64)
    ensures
        final(s)@ == old(s)@ + spec_frac_digits(fr as int, w as nat),
    decreases w,
{
    if w == 0 {
        proof {
            assert(s@ =~= old(s)@ + spec_frac_digits(fr as int, w as nat));
        }
    } else if fr % 10 == 0 {
        push_frac_digits(s, fr / 10, w - 1);
    } else {
        push_pad_digits(s, fr, w);
    }
}

impl Num {
    /// The number standing for the given whole integer.
    pub fn from_i64(i: i64) -> (r: Option<Num>)
        ensures
            r is Some <==> fits_mantissa(i * (SCALE as int)),
            r matches Some(n) ==> n@ == i * (SCALE as int),
    {
        match i.checked_mul(SCALE) {
            Some(m) => Some(Num { mantissa: m }),
            None => None,
        }
    }

    /// The number with the given raw mantissa, `mantissa / SCALE` as a value.
    pub fn from_mantissa(mantissa: i64) -> (r: Num)
        ensures
            r@ == mantissa as int,
    {
        Num { mantissa }
    }

    /// Whether this is the number zero.
    pub fn is_zero(&self) -> (r: bool)
        ensures
            r == (self@ == 0),
    {
        self.mantissa == 0
    }

    /// Exact negation; fails only on the one mantissa without a negation.
    pub fn checked_neg(self) -> (r: Option<Num>)
        ensures
            r is Some <==> fits_mantissa(-self@),
            r matches Some(n) ==> n@ == -self@,
    {
        if self.mantissa == i64::MIN {
            None
        } else {
            Some(Num { mantissa: -self.mantissa })
        }
    }

    /// Exact addition, or `None` when the sum leaves the representable range.
    pub fn checked_add(self, other: Num) -> (r: Option<Num>)
        ensures
            r is Some <==> fits_mantissa(self@ + other@),
            r matches Some(n) ==> n@ == self@ + other@,
    {
        match self.mantissa.checked_add(other.mantissa) {
            Some(m) => Some(Num { mantissa: m }),
            None => None,
        }
    }

    /// Exact subtraction, or `None` when the difference leaves the range.
    pub fn checked_sub(self, other: Num) -> (r: Option<Num>)
        ensures
            r is Some <==> fits_mantissa(self@ - other@),
            r matches Some(n) ==> n@ == self@ - other@,
    {
        match self.mantissa.checked_sub(other.mantissa) {
            Some(m) => Some(Num { mantissa: m }),
            None => None,
        }
    }

    /// Multiplication, truncating the product toward zero at the sixth
    /// decimal digit; `None` when the result leaves the representable range.
    pub fn checked_mul(self, other: Num) -> (r: Option<Num>)
        ensures
            r is Some <==> fits_mantissa(mul_mantissa(self@, other@)),
            r matches Some(n) ==> n@ == mul_mantissa(self@, other@),
    {
        let a: i128 = self.mantissa as i128;
        let b: i128 = other.mantissa as i128;
        proof {
            assert(a * b <= 0x4000_0000_0000_0000_0000_0000_0000_0000
                && a * b >= -0x4000_0000_0000_0000_0000_0000_0000_0000) by (nonlinear_arith)
                requires
                    -0x8000_0000_0000_0000 <= a <= 0x7FFF_FFFF_FFFF_FFFF,
                    -0x8000_0000_0000_0000 <= b <= 0x7FFF_FFFF_FFFF_FFFF,
            ;
        }
        let p: i128 = a * b;
        proof {
            lemma_trunc_div_fits(p as int, SCALE as int);
        }
        let q: i128 = match p.checked_div(1_000_000i128) {
            Some(q) => q,
            None => 0,
        };
        if q > (i64::MAX as i128) || q < (i64::MIN as i128) {
            None
        } else {
            Some(Num { mantissa: q as i64 })
        }
    }

    /// Division by a non-zero number, truncating toward zero at the sixth
    /// decimal digit; `None` when the result leaves the representable range.
    pub fn checked_div(self, other: Num) -> (r: Option<Num>)
        requires
            other@ != 0,
        ensures
            r is Some <==> fits_mantissa(div_mantissa(self@, other@)),
            r matches Some(n) ==> n@ == div_mantissa(self@, other@),
    {
        let a: i128 = self.mantissa as i128;
        let p: i128 = a * 1_000_000i128;
        proof {
            lemma_trunc_div_fits(p as int, other.mantissa as int);
        }
        let q: i128 = match p.checked_div(other.mantissa as i128) {
            Some(q) => q,
            None => 0,
        };
        if q > (i64::MAX as i128) || q < (i64::MIN as i128) {
            None
        } else {
            Some(Num { mantissa: q as i64 })
        }
    }

    /// The decimal text of the value this number stands for: an optional
    /// minus sign, the whole part, and, when the fraction is not zero, a dot
    /// and the fraction's digits with trailing zeros removed.
    pub fn to_text(&self) -> (r: String)
        ensures
            r@ == spec_num_text(self@),
    {
        let m: i64 = self.mantissa;
        let mut s = String::new();
        if m < 0 {
            push_char(&mut s, '-');
        }
        let a: u64 = if m >= 0 {
            m as u64
        } else {
            ((-(m + 1)) as u64) + 1
        };
        proof {
            assert(a as int == vstd::math::abs(m as int) as int);
        }
        let ip: u64 = a / 1_000_000u64;
        let fr: u64 = a % 1_000_000u64;
        push_udigits(&mut s, ip);
        if fr != 0 {
            push_char(&mut s, '.');
            push_frac_digits(&mut s, fr, FRACTION_DIGITS);
            proof {
                assert(s@ =~= spec_num_text(m as int));
            }
        } else {
            proof {
                assert(s@ =~= spec_num_text(m as int));
            }
        }
        s
    }

    /// Strict order on the values the numbers stand for.
    pub fn lt(&self, other: &Num) -> (r: bool)
        ensures
            r == (self@ < other@),
    {
        self.mantissa < other.mantissa
    }

    /// Non-strict order on the values the numbers stand for.
    pub fn le(&self, other: &Num) -> (r: bool)
        ensures
            r == (self@ <= other@),
    {
        self.mantissa <= other.mantissa
    }
}

} // verus!
