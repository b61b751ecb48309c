//! How much of a hue, a saturation and a value survives the way to a colour
//! and back.

use crate::color::{
    chroma, hsv_of_rgb, largest, lemma_chroma_bounds, lemma_ramp, ramp, rgb_of_hsv, secondary,
    smallest,
};
use crate::scale::{
    lemma_round_div_between, lemma_round_div_error, lemma_round_div_exact, magnitude, round_div,
    FULL_TURN, SEXTANT, UNIT,
};
use vstd::prelude::*;

verus! {

/// Thirty millionths of one whole, or of one degree.
pub const TOLERANCE: i64 = 30_000;

/// Scaling `t` by `a / b` and the rounded result back by `b / a` misses `t`
/// by no more than half a step for each of the two roundings:
/// `2 * a * |back - t| <= a + b`.
pub proof fn lemma_scaled_there_and_back(a: int, t: int, b: int)
    requires
        a > 0,
        b > 0,
    ensures
        2 * a * magnitude(round_div(b * round_div(a * t, b), a) - t) <= a + b,
{
    let x = round_div(a * t, b);
    let y = round_div(b * x, a);
    lemma_round_div_error(a * t, b);
    lemma_round_div_error(b * x, a);
    assert(2 * a * (y - t) == 2 * (a * y - b * x) + 2 * (b * x - a * t)) by (nonlinear_arith);
    assert(2 * a * (t - y) == -(2 * a * (y - t))) by (nonlinear_arith);
}

/// A colour made from a hue, a saturation and a value gives the value back
/// exactly. The saturation and the hue come back with the error of two
/// roundings each, which grows as the value and the chroma shrink:
/// `2 * value * |saturation error| <= value + UNIT` and
/// `2 * chroma * |hue error| <= chroma + SEXTANT`. Only a hue that close
/// below a full turn may come back as zero, its neighbour across the end of the
/// wheel; the same bound then holds of what it lacks to the full turn.
pub proof fn lemma_round_trip_error(hue: int, saturation: int, value: int)
    requires
        0 <= hue < FULL_TURN,
        0 < saturation <= UNIT,
        0 < value <= UNIT,
        chroma(saturation, value) > 0,
    ensures
        ({
            let c = chroma(saturation, value);
            let back = hsv_of_rgb(rgb_of_hsv(hue, saturation, value));
            &&& back.2 == value
            &&& 2 * value * magnitude(back.1 - saturation) <= value + UNIT
            &&& 0 <= back.0 < FULL_TURN
            &&& (2 * c * magnitude(back.0 - hue) <= c + SEXTANT || (back.0 == 0 && 2 * c * (
                FULL_TURN - hue) <= c + SEXTANT))
        }),
{
    let c = chroma(saturation, value);
    let t = ramp(hue);
    let x = secondary(c, hue);
    let m = value - c;
    let rgb = rgb_of_hsv(hue, saturation, value);
    let back = hsv_of_rgb(rgb);
    lemma_chroma_bounds(hue, saturation, value);
    lemma_ramp(hue);
    assert(largest(rgb) == value);
    assert(smallest(rgb) == m);
    // saturation
    lemma_scaled_there_and_back(value, saturation, UNIT as int);
    assert(UNIT * (value - m) == UNIT * c);
    assert(back.1 == round_div(UNIT * c, value));
    // hue
    let y = round_div(SEXTANT * x, c);
    lemma_scaled_there_and_back(c, t, SEXTANT as int);
    assert(2 * c * magnitude(y - t) <= c + SEXTANT);
    assert(0 * c <= SEXTANT * x <= SEXTANT * c);
    lemma_round_div_between(SEXTANT * x, c, 0, SEXTANT as int);
    assert(0 <= y <= SEXTANT);
    lemma_round_div_exact(SEXTANT as int, c);
    assert(SEXTANT * c == c * SEXTANT) by (nonlinear_arith);
    assert(x == c ==> y == SEXTANT);
    assert(x == 0 ==> y == 0) by {
        if x == 0 {
            lemma_round_div_exact(0, c);
            assert(0 * c == 0);
            assert(SEXTANT * 0 == 0);
        }
    }
    if hue < SEXTANT {
        assert(rgb == (value, x + m, m));
        assert(SEXTANT * ((x + m) - m) == SEXTANT * x);
        assert(back.0 == y);
        assert(back.0 - hue == y - t);
    } else if hue < 2 * SEXTANT {
        assert(rgb == (x + m, value, m));
        if x == c {
            assert(SEXTANT * (value - m) == SEXTANT * c);
            assert(back.0 == SEXTANT);
            assert(magnitude(back.0 - hue) == magnitude(y - t));
        } else {
            assert(SEXTANT * (m - (x + m)) == -(SEXTANT * x));
            assert(back.0 == 2 * SEXTANT - y);
            assert(magnitude(back.0 - hue) == magnitude(y - t));
        }
    } else if hue < 3 * SEXTANT {
        assert(rgb == (m, value, x + m));
        assert(SEXTANT * ((x + m) - m) == SEXTANT * x);
        assert(back.0 == y + 2 * SEXTANT);
        assert(back.0 - hue == y - t);
    } else if hue < 4 * SEXTANT {
        assert(rgb == (m, x + m, value));
        if x == c {
            assert(SEXTANT * (value - m) == SEXTANT * c);
            assert(back.0 == 3 * SEXTANT);
            assert(magnitude(back.0 - hue) == magnitude(y - t));
        } else {
            assert(SEXTANT * (m - (x + m)) == -(SEXTANT * x));
            assert(back.0 == 4 * SEXTANT - y);
            assert(magnitude(back.0 - hue) == magnitude(y - t));
        }
    } else if hue < 5 * SEXTANT {
        assert(rgb == (x + m, m, value));
        if x == c {
            assert(SEXTANT * (m - value) == -(SEXTANT * c));
            assert(back.0 == 5 * SEXTANT);
            assert(magnitude(back.0 - hue) == magnitude(y - t));
        } else {
            assert(SEXTANT * ((x + m) - m) == SEXTANT * x);
            assert(back.0 == y + 4 * SEXTANT);
            assert(back.0 - hue == y - t);
        }
    } else {
        assert(rgb == (value, m, x + m));
        assert(SEXTANT * (m - (x + m)) == -(SEXTANT * x));
        if y == 0 {
            assert(back.0 == 0);
            assert(FULL_TURN - hue == magnitude(y - t));
        } else {
            assert(back.0 == FULL_TURN - y);
            assert(magnitude(back.0 - hue) == magnitude(y - t));
        }
    }
}

/// Round trip: where the chroma is at least a thousandth of one whole, a hue
/// on the wheel, a saturation and a value that are turned into a colour and
/// read back from it return the value exactly, the saturation within
/// `TOLERANCE`, and the hue within `TOLERANCE` and on the wheel. The one
/// exception is a hue within `TOLERANCE` below a full turn: it may come back
/// as zero, which is that close to it across the end of the wheel.
pub proof fn lemma_round_trip(hue: int, saturation: int, value: int)
    requires
        0 <= hue < FULL_TURN,
        0 < saturation <= UNIT,
        0 < value <= UNIT,
        1000 * chroma(saturation, value) >= UNIT,
    ensures
        ({
            let back = hsv_of_rgb(rgb_of_hsv(hue, saturation, value));
            &&& back.2 == value
            &&& magnitude(back.1 - saturation) <= TOLERANCE
            &&& 0 <= back.0 < FULL_TURN
            &&& (magnitude(back.0 - hue) <= TOLERANCE || (back.0 == 0 && FULL_TURN - hue
                <= TOLERANCE))
        }),
{
    let c = chroma(saturation, value);
    let back = hsv_of_rgb(rgb_of_hsv(hue, saturation, value));
    lemma_round_trip_error(hue, saturation, value);
    lemma_chroma_bounds(hue, saturation, value);
    let ds = magnitude(back.1 - saturation);
    assert(ds <= TOLERANCE) by (nonlinear_arith)
        requires
            2 * value * ds <= value + UNIT,
            1_000_000 <= value,
            UNIT == 1_000_000_000,
            TOLERANCE == 30_000,
            0 <= ds,
    ;
    let dh = magnitude(back.0 - hue);
    let dw = FULL_TURN - hue;
    if 2 * c * dh <= c + SEXTANT {
        assert(dh <= TOLERANCE) by (nonlinear_arith)
            requires
                2 * c * dh <= c + SEXTANT,
                1_000_000 <= c,
                SEXTANT == 60_000_000_000,
                TOLERANCE == 30_000,
                0 <= dh,
        ;
    } else {
        assert(dw <= TOLERANCE) by (nonlinear_arith)
            requires
                2 * c * dw <= c + SEXTANT,
                1_000_000 <= c,
                SEXTANT == 60_000_000_000,
                TOLERANCE == 30_000,
                0 <= dw,
        ;
    }
}

} // verus!
