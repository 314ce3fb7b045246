//! Fixed-point numbers.
//!
//! Every control reading, threshold, range bound and time in this crate is an
//! `i32` that counts ten-thousandths: the value one is [`SCALE`], a half is
//! `5_000`. Sums and differences are exact; products and quotients are
//! rounded to the nearest ten-thousandth, a tie going away from zero. A
//! reading measured from a neutral point can leave the range of an `i32` and
//! is an `i64`.

use vstd::prelude::*;

verus! {

/// How many units make up the value one.
pub const SCALE: i32 = 10_000;

/// [`SCALE`] in the width in which products are formed.
pub const WIDE_SCALE: i128 = 10_000;

/// An optional value as a mathematical integer.
pub open spec fn int_option(o: Option<i32>) -> Option<int> {
    match o {
        Some(v) => Some(v as int),
        None => None,
    }
}

/// The distance of `x` from zero.
pub open spec fn magnitude(x: int) -> int {
    if x >= 0 {
        x
    } else {
        -x
    }
}

/// The integer nearest to `a / b`, with a tie going away from zero.
pub open spec fn round_div(a: int, b: int) -> int
    recommends
        b > 0,
{
    if a >= 0 {
        (2 * a + b) / (2 * b)
    } else {
        -((2 * (-a) + b) / (2 * b))
    }
}

/// `x` held to the range from `lo` to `hi`. Where the range is empty
/// (`lo > hi`) the result is `lo` for `x < lo` and `hi` otherwise.
pub open spec fn clamp(x: int, lo: int, hi: int) -> int {
    if x < lo {
        lo
    } else if x > hi {
        hi
    } else {
        x
    }
}

/// The multiple of `step` nearest to `x`, with a tie going away from zero.
/// The multiples of `-step` are those of `step`; a step of zero leaves `x`
/// as it is.
pub open spec fn quantize(x: int, step: int) -> int {
    if step == 0 {
        x
    } else {
        round_div(x, magnitude(step)) * magnitude(step)
    }
}

/// `round_div(a, b)` is within half of `b` of the exact quotient.
pub proof fn lemma_round_div_nearest(a: int, b: int)
    requires
        b > 0,
    ensures
        2 * magnitude(a - round_div(a, b) * b) <= b,
        a >= 0 ==> round_div(a, b) >= 0,
        a <= 0 ==> round_div(a, b) <= 0,
        round_div(-a, b) == -round_div(a, b),
{
    let m = magnitude(a);
    let q = (2 * m + b) / (2 * b);
    assert(0 <= (2 * m + b) - q * (2 * b) < 2 * b && q >= 0) by (nonlinear_arith)
        requires
            b > 0,
            m >= 0,
            q == (2 * m + b) / (2 * b),
    ;
    assert(q * (2 * b) == 2 * (q * b)) by (nonlinear_arith);
    if a < 0 {
        assert((-q) * b == -(q * b)) by (nonlinear_arith);
    }
    if a == 0 {
        assert(q == 0) by (nonlinear_arith)
            requires
                b > 0,
                q == b / (2 * b),
        ;
    }
}

/// The quotient is no larger than the dividend, and a product of the
/// quotient and the divisor is no further from zero than the dividend and
/// the divisor together.
pub proof fn lemma_round_div_bound(a: int, b: int)
    requires
        b > 0,
    ensures
        magnitude(round_div(a, b)) <= magnitude(a) + 1,
        magnitude(round_div(a, b) * b) <= magnitude(a) + b,
{
    lemma_round_div_nearest(a, b);
    let q = round_div(a, b);
    if a != 0 {
        assert(magnitude(q) <= magnitude(a) + 1) by (nonlinear_arith)
            requires
                b >= 1,
                2 * magnitude(a - q * b) <= b,
                a >= 0 ==> q >= 0,
                a <= 0 ==> q <= 0,
        ;
    }
}

/// A value that already is a multiple of `b` divides without rounding.
pub proof fn lemma_round_div_exact(k: int, b: int)
    requires
        b > 0,
    ensures
        round_div(k * b, b) == k,
{
    let m = magnitude(k);
    assert((2 * (m * b) + b) / (2 * b) == m) by (nonlinear_arith)
        requires
            b > 0,
            m >= 0,
    ;
    if k < 0 {
        assert(k * b < 0 && -(k * b) == (-k) * b) by (nonlinear_arith)
            requires
                k < 0,
                b > 0,
        ;
    }
}

/// Divides with rounding to the nearest integer, a tie going away from zero.
pub(crate) fn div_round(a: i128, b: i128) -> (q: i128)
    requires
        0 < b <= 0x1_0000_0000_0000_0000,
        -0x1_0000_0000_0000_0000_0000_0000 <= a <= 0x1_0000_0000_0000_0000_0000_0000,
    ensures
        q == round_div(a as int, b as int),
{
    let size: i128 = if a >= 0 {
        a
    } else {
        -a
    };
    let q: i128 = (2 * size + b) / (2 * b);
    if a >= 0 {
        q
    } else {
        -q
    }
}

/// The character for one decimal digit.
pub open spec fn digit_char(d: int) -> char
    recommends
        0 <= d < 10,
{
    if d == 0 {
        '0'
    } else if d == 1 {
        '1'
    } else if d == 2 {
        '2'
    } else if d == 3 {
        '3'
    } else if d == 4 {
        '4'
    } else if d == 5 {
        '5'
    } else if d == 6 {
        '6'
    } else if d == 7 {
        '7'
    } else if d == 8 {
        '8'
    } else {
        '9'
    }
}

/// The decimal digits of a natural number, without leading zeros.
pub open spec fn natural_text(n: nat) -> Seq<char>
    decreases n,
{
    if n < 10 {
        seq![digit_char(n as int)]
    } else {
        natural_text(n / 10).push(digit_char((n % 10) as int))
    }
}

/// The fractional part of a number of ten-thousandths: nothing for a whole
/// number, else a point and up to four digits, the last of them not a zero.
pub open spec fn fraction_text(f: nat) -> Seq<char>
    recommends
        f < 10_000,
{
    let d1 = digit_char((f / 1000 % 10) as int);
    let d2 = digit_char((f / 100 % 10) as int);
    let d3 = digit_char((f / 10 % 10) as int);
    let d4 = digit_char((f % 10) as int);
    if f % 10_000 == 0 {
        Seq::empty()
    } else if f % 10 != 0 {
        seq!['.', d1, d2, d3, d4]
    } else if f % 100 != 0 {
        seq!['.', d1, d2, d3]
    } else if f % 1000 != 0 {
        seq!['.', d1, d2]
    } else {
        seq!['.', d1]
    }
}

/// How a fixed-point value is written: an optional minus sign, the whole
/// part, and the fractional part without trailing zeros. `5_000` is written
/// `0.5`, `10_000` is `1`, `-2_500` is `-0.25`.
pub open spec fn decimal_text(v: int) -> Seq<char> {
    let m = magnitude(v);
    let sign = if v < 0 {
        seq!['-']
    } else {
        Seq::empty()
    };
    sign + natural_text((m / 10_000) as nat) + fraction_text((m % 10_000) as nat)
}

fn digit_str(d: u32) -> (s: &'static str)
    requires
        d < 10,
    ensures
        s@ == seq![digit_char(d as int)],
{
    proof {
        reveal_strlit("0");
        reveal_strlit("1");
        reveal_strlit("2");
        reveal_strlit("3");
        reveal_strlit("4");
        reveal_strlit("5");
        reveal_strlit("6");
        reveal_strlit("7");
        reveal_strlit("8");
        reveal_strlit("9");
    }
    let s = if d == 0 {
        "0"
    } else if d == 1 {
        "1"
    } else if d == 2 {
        "2"
    } else if d == 3 {
        "3"
    } else if d == 4 {
        "4"
    } else if d == 5 {
        "5"
    } else if d == 6 {
        "6"
    } else if d == 7 {
        "7"
    } else if d == 8 {
        "8"
    } else {
        "9"
    };
    s
}

/// Writes a natural number in decimal digits.
pub fn natural_string(n: u32) -> (s: String)
    ensures
        s@ == natural_text(n as nat),
    decreases n,
{
    if n < 10 {
        String::from_str(digit_str(n))
    } else {
        let mut s = natural_string(n / 10);
        s.append(digit_str(n % 10));
        s
    }
}

/// Writes a fixed-point value as decimal text.
pub fn decimal_string(v: i32) -> (s: String)
    ensures
        s@ == decimal_text(v as int),
{
    let size: u32 = if v >= 0 {
        v as u32
    } else {
        (-(v as i64)) as u32
    };
    let mut s = if v < 0 {
        String::from_str("-")
    } else {
        String::new()
    };
    proof {
        reveal_strlit("-");
        reveal_strlit(".");
    }
    let whole = natural_string(size / 10_000);
    s.append(whole.as_str());
    let f: u32 = size % 10_000;
    if f != 0 {
        s.append(".");
        s.append(digit_str(f / 1000 % 10));
        if f % 1000 != 0 {
            s.append(digit_str(f / 100 % 10));
            if f % 100 != 0 {
                s.append(digit_str(f / 10 % 10));
                if f % 10 != 0 {
                    s.append(digit_str(f % 10));
                }
            }
        }
    }
    s
}

} // verus!
