//! The fixed-point scale shared by every quantity of the palette.
//!
//! Saturation, value and the colour channels count billionths of one whole;
//! hue counts billionths of a degree. All arithmetic is exact integer
//! arithmetic, and every quotient is rounded to the nearest step.

use vstd::arithmetic::div_mod::lemma_fundamental_div_mod;
use vstd::prelude::*;

verus! {

/// Steps in one whole: a saturation, a value or a channel of `UNIT` is 1.0,
/// and a hue of `UNIT` is one degree.
pub const UNIT: i64 = 1_000_000_000;

/// Sixty degrees of hue, the width of one sector of the colour wheel.
pub const SEXTANT: i64 = 60_000_000_000;

/// Three hundred and sixty degrees of hue.
pub const FULL_TURN: i64 = 360_000_000_000;

/// Whether `x` lies between zero and one whole, both included.
pub open spec fn in_unit(x: int) -> bool {
    0 <= x <= UNIT
}

/// The absolute value of `x`.
pub open spec fn magnitude(x: int) -> int {
    if x < 0 {
        -x
    } else {
        x
    }
}

/// The quotient of `n` by `d` rounded to the nearest integer; a tie goes up.
pub open spec fn round_div(n: int, d: int) -> int {
    n / d + if 2 * (n % d) >= d {
        1int
    } else {
        0int
    }
}

/// The quotient of `n` by `d` rounded to the nearest integer; a tie goes away
/// from zero.
pub open spec fn round_div_signed(n: int, d: int) -> int {
    if n < 0 {
        -round_div(-n, d)
    } else {
        round_div(n, d)
    }
}

/// A rounded quotient is off by at most half a divisor: twice the distance
/// between `d * round_div(n, d)` and `n` is above `-d` and at most `d`.
pub proof fn lemma_round_div_error(n: int, d: int)
    requires
        d > 0,
    ensures
        -d < 2 * (d * round_div(n, d) - n) <= d,
{
    lemma_fundamental_div_mod(n, d);
    let q = n / d;
    let r = n % d;
    assert(0 <= r < d);
    assert(d * (q + 1) == d * q + d) by (nonlinear_arith);
}

/// A rounded quotient of a numerator between `lo * d` and `hi * d` lies
/// between `lo` and `hi`.
pub proof fn lemma_round_div_between(n: int, d: int, lo: int, hi: int)
    requires
        d > 0,
        lo * d <= n <= hi * d,
    ensures
        lo <= round_div(n, d) <= hi,
{
    lemma_round_div_error(n, d);
    let r = round_div(n, d);
    assert(lo <= r) by (nonlinear_arith)
        requires
            d > 0,
            lo * d <= n,
            -d < 2 * (d * r - n),
    ;
    assert(r <= hi) by (nonlinear_arith)
        requires
            d > 0,
            n <= hi * d,
            2 * (d * r - n) <= d,
    ;
}

/// Rounding an exact multiple gives the multiple back.
pub proof fn lemma_round_div_exact(k: int, d: int)
    requires
        d > 0,
    ensures
        round_div(k * d, d) == k,
{
    lemma_round_div_between(k * d, d, k, k);
}

/// `whole * part / total`, rounded to the nearest step, for a part that does
/// not exceed its total.
pub(crate) fn fraction_of(whole: i64, part: i64, total: i64) -> (r: i64)
    requires
        0 <= whole,
        0 <= part <= total,
        0 < total,
    ensures
        r == round_div(whole * part, total as int),
        0 <= r <= whole,
{
    proof {
        assert(0 <= whole * part <= 0x7fff_ffff_ffff_ffff * 0x7fff_ffff_ffff_ffff)
            by (nonlinear_arith)
            requires
                0 <= whole <= 0x7fff_ffff_ffff_ffff,
                0 <= part <= 0x7fff_ffff_ffff_ffff,
        ;
    }
    let n: u128 = (whole as u128) * (part as u128);
    let d: u128 = total as u128;
    let q: u128 = n / d;
    let rem: u128 = n % d;
    let up: u128 = if rem >= d - rem {
        1
    } else {
        0
    };
    proof {
        assert(0 <= whole * part <= whole * total) by (nonlinear_arith)
            requires
                0 <= whole,
                0 <= part <= total,
        ;
        assert(whole * total == whole * (total as int));
        assert(0 * (total as int) <= whole * part);
        lemma_round_div_between(whole * part, total as int, 0, whole as int);
    }
    (q + up) as i64
}

/// The absolute value of any `i64`, which always fits a `u64`.
pub(crate) fn magnitude_of(x: i64) -> (r: u64)
    ensures
        r == magnitude(x as int),
{
    if x < 0 {
        (-(x as i128)) as u64
    } else {
        x as u64
    }
}

} // verus!
