//! A colour as three fixed-point channels, with its conversions from and to
//! hue, saturation and value and its hexadecimal form.

use crate::scale::{
    fraction_of, in_unit, lemma_round_div_between, magnitude, round_div, round_div_signed,
    FULL_TURN, SEXTANT, UNIT,
};
use vstd::arithmetic::div_mod::lemma_fundamental_div_mod_converse;
use vstd::prelude::*;
use vstd::string::StringExecFns;

verus! {

/// A hue, in billionths of a degree.
pub type Hue = i64;

/// A saturation, in billionths of one whole.
pub type Saturation = i64;

/// A value (brightness), in billionths of one whole.
pub type Value = i64;

/// Hue, saturation and value, in this order.
pub type Hsv = (Hue, Saturation, Value);

/// The three components of an [`Hsv`] as mathematical integers.
pub open spec fn hsv_view(hsv: Hsv) -> (int, int, int) {
    (hsv.0 as int, hsv.1 as int, hsv.2 as int)
}

/// Chroma: the distance between the largest and the smallest channel, which
/// is the value scaled by the saturation.
pub open spec fn chroma(saturation: int, value: int) -> int {
    round_div(value * saturation, UNIT as int)
}

/// Where a hue stands inside its pair of sectors: the ramp climbs from zero to
/// a full sextant across an even sector and falls back across an odd one.
pub open spec fn ramp(hue: int) -> int {
    SEXTANT - magnitude(hue % (2 * SEXTANT) - SEXTANT)
}

/// The share of the chroma that goes to the second largest channel.
pub open spec fn secondary(chroma: int, hue: int) -> int {
    round_div(chroma * ramp(hue), SEXTANT as int)
}

/// The channels before the brightness offset is added, chosen by the sector
/// of the colour wheel that holds the hue. A hue outside the wheel has none.
pub open spec fn base_triple(hue: int, chroma: int, second: int) -> (int, int, int) {
    if hue < 0 || hue >= FULL_TURN {
        (0, 0, 0)
    } else if hue < SEXTANT {
        (chroma, second, 0)
    } else if hue < 2 * SEXTANT {
        (second, chroma, 0)
    } else if hue < 3 * SEXTANT {
        (0, chroma, second)
    } else if hue < 4 * SEXTANT {
        (0, second, chroma)
    } else if hue < 5 * SEXTANT {
        (second, 0, chroma)
    } else {
        (chroma, 0, second)
    }
}

/// Red, green and blue of a hue, a saturation and a value.
pub open spec fn rgb_of_hsv(hue: int, saturation: int, value: int) -> (int, int, int) {
    let c = chroma(saturation, value);
    let base = base_triple(hue, c, secondary(c, hue));
    let offset = value - c;
    (base.0 + offset, base.1 + offset, base.2 + offset)
}

/// The largest of three channels.
pub open spec fn largest(rgb: (int, int, int)) -> int {
    if rgb.0 >= rgb.1 && rgb.0 >= rgb.2 {
        rgb.0
    } else if rgb.1 >= rgb.2 {
        rgb.1
    } else {
        rgb.2
    }
}

/// The smallest of three channels.
pub open spec fn smallest(rgb: (int, int, int)) -> int {
    if rgb.0 <= rgb.1 && rgb.0 <= rgb.2 {
        rgb.0
    } else if rgb.1 <= rgb.2 {
        rgb.1
    } else {
        rgb.2
    }
}

/// A hue measured from red, wrapped onto the wheel: a hue below zero stands
/// one full turn higher.
pub open spec fn wrapped(hue: int) -> int {
    if hue < 0 {
        hue + FULL_TURN
    } else {
        hue
    }
}

/// The hue of three channels, on the wheel. Red is asked first, then green,
/// so a tie for the largest channel goes to the earlier one. Where red is
/// largest and blue exceeds green, the hue lies below zero as measured from
/// red and is wrapped around to the last sector. A grey has no hue and gets
/// zero.
pub open spec fn hue_of_rgb(rgb: (int, int, int)) -> int {
    let top = largest(rgb);
    let delta = top - smallest(rgb);
    if delta == 0 {
        0
    } else if top == rgb.0 {
        wrapped(round_div_signed(SEXTANT * (rgb.1 - rgb.2), delta))
    } else if top == rgb.1 {
        round_div_signed(SEXTANT * (rgb.2 - rgb.0), delta) + 2 * SEXTANT
    } else {
        round_div_signed(SEXTANT * (rgb.0 - rgb.1), delta) + 4 * SEXTANT
    }
}

/// The saturation of three channels; black has none.
pub open spec fn saturation_of_rgb(rgb: (int, int, int)) -> int {
    let top = largest(rgb);
    if top == 0 {
        0
    } else {
        round_div(UNIT * (top - smallest(rgb)), top)
    }
}

/// Hue, saturation and value of three channels.
pub open spec fn hsv_of_rgb(rgb: (int, int, int)) -> (int, int, int) {
    (hue_of_rgb(rgb), saturation_of_rgb(rgb), largest(rgb))
}

/// Whether each of three channels lies in the unit interval.
pub open spec fn channels_in_unit(rgb: (int, int, int)) -> bool {
    in_unit(rgb.0) && in_unit(rgb.1) && in_unit(rgb.2)
}

/// A channel on the scale from 0 to 255, rounded to the nearest integer.
pub open spec fn channel_byte(channel: int) -> int {
    round_div(255 * channel, UNIT as int)
}

/// The sixteen hexadecimal digits, upper case.
pub open spec fn hex_digits() -> Seq<char> {
    seq!['0', '1', '2', '3', '4', '5', '6', '7', '8', '9', 'A', 'B', 'C', 'D', 'E', 'F']
}

/// The two hexadecimal digits of a byte.
pub open spec fn byte_hex(byte: int) -> Seq<char> {
    seq![hex_digits()[byte / 16], hex_digits()[byte % 16]]
}

/// `#RRGGBB` for three channels.
pub open spec fn hex_of_rgb(rgb: (int, int, int)) -> Seq<char> {
    seq!['#'] + byte_hex(channel_byte(rgb.0)) + byte_hex(channel_byte(rgb.1)) + byte_hex(
        channel_byte(rgb.2),
    )
}

/// The ramp of a hue on the wheel, sector by sector.
pub proof fn lemma_ramp(hue: int)
    requires
        0 <= hue < FULL_TURN,
    ensures
        0 <= ramp(hue) <= SEXTANT,
        hue < SEXTANT ==> ramp(hue) == hue,
        SEXTANT <= hue < 2 * SEXTANT ==> ramp(hue) == 2 * SEXTANT - hue,
        2 * SEXTANT <= hue < 3 * SEXTANT ==> ramp(hue) == hue - 2 * SEXTANT,
        3 * SEXTANT <= hue < 4 * SEXTANT ==> ramp(hue) == 4 * SEXTANT - hue,
        4 * SEXTANT <= hue < 5 * SEXTANT ==> ramp(hue) == hue - 4 * SEXTANT,
        5 * SEXTANT <= hue ==> ramp(hue) == 6 * SEXTANT - hue,
{
    let pair = 2 * SEXTANT;
    if hue < pair {
        lemma_fundamental_div_mod_converse(hue, pair, 0, hue);
    } else if hue < 2 * pair {
        lemma_fundamental_div_mod_converse(hue, pair, 1, hue - pair);
    } else {
        lemma_fundamental_div_mod_converse(hue, pair, 2, hue - 2 * pair);
    }
}

/// The pieces of a conversion: the chroma does not exceed the value, and the
/// second channel does not exceed the chroma.
pub proof fn lemma_chroma_bounds(hue: int, saturation: int, value: int)
    requires
        0 <= hue < FULL_TURN,
        0 <= saturation <= UNIT,
        0 <= value <= UNIT,
    ensures
        0 <= chroma(saturation, value) <= value,
        0 <= secondary(chroma(saturation, value), hue) <= chroma(saturation, value),
{
    let c = chroma(saturation, value);
    assert(0 * UNIT <= value * saturation <= value * UNIT) by (nonlinear_arith)
        requires
            0 <= saturation <= UNIT,
            0 <= value,
    ;
    lemma_round_div_between(value * saturation, UNIT as int, 0, value);
    lemma_ramp(hue);
    let r = ramp(hue);
    assert(0 * SEXTANT <= c * r <= c * SEXTANT) by (nonlinear_arith)
        requires
            0 <= r <= SEXTANT,
            0 <= c,
    ;
    lemma_round_div_between(c * r, SEXTANT as int, 0, c);
}

/// A saturation and a value in the unit interval give channels in the unit
/// interval, whatever the hue.
pub proof fn lemma_channels_in_unit(hue: int, saturation: int, value: int)
    requires
        in_unit(saturation),
        in_unit(value),
    ensures
        channels_in_unit(rgb_of_hsv(hue, saturation, value)),
{
    if 0 <= hue < FULL_TURN {
        lemma_chroma_bounds(hue, saturation, value);
    } else {
        lemma_chroma_bounds(0, saturation, value);
    }
}

/// Red, green and blue, each between zero and one whole.
#[derive(Copy, Clone, Debug)]
pub struct Color {
    red: i64,
    green: i64,
    blue: i64,
}

impl View for Color {
    type V = (int, int, int);

    closed spec fn view(&self) -> (int, int, int) {
        (self.red as int, self.green as int, self.blue as int)
    }
}

/// `SEXTANT * difference / delta`, rounded to the nearest step away from zero.
fn sextant_share(difference: i64, delta: i64) -> (r: i64)
    requires
        0 < delta,
        -delta <= difference <= delta,
    ensures
        r == round_div_signed(SEXTANT * difference, delta as int),
        -SEXTANT <= r <= SEXTANT,
{
    if difference < 0 {
        -fraction_of(SEXTANT, -difference, delta)
    } else {
        fraction_of(SEXTANT, difference, delta)
    }
}

/// One hexadecimal digit as a string.
fn hex_digit_str(digit: u8) -> (s: &'static str)
    requires
        digit < 16,
    ensures
        s@ == seq![hex_digits()[digit as int]],
{
    proof {
        reveal_strlit("0");
        reveal_strlit("1");
        reveal_strlit("2");
        reveal_strlit("3");
        reveal_strlit("4");
        reveal_strlit("5");
        reveal_strlit("6");
        reveal_strlit("7");
        reveal_strlit("8");
        reveal_strlit("9");
        reveal_strlit("A");
        reveal_strlit("B");
        reveal_strlit("C");
        reveal_strlit("D");
        reveal_strlit("E");
        reveal_strlit("F");
    }
    let s = match digit {
        0 => "0",
        1 => "1",
        2 => "2",
        3 => "3",
        4 => "4",
        5 => "5",
        6 => "6",
        7 => "7",
        8 => "8",
        9 => "9",
        10 => "A",
        11 => "B",
        12 => "C",
        13 => "D",
        14 => "E",
        _ => "F",
    };
    assert(s@ =~= seq![hex_digits()[digit as int]]);
    s
}

/// Appends the two hexadecimal digits of a channel to `out`.
fn push_channel_hex(out: &mut String, channel: i64)
    requires
        in_unit(channel as int),
    ensures
        final(out)@ == old(out)@ + byte_hex(channel_byte(channel as int)),
{
    let byte = fraction_of(255, channel, UNIT);
    let high = (byte / 16) as u8;
    let low = (byte % 16) as u8;
    out.append(hex_digit_str(high));
    out.append(hex_digit_str(low));
    assert(out@ =~= old(out)@ + byte_hex(channel_byte(channel as int)));
}

impl Color {
    /// Whether every channel lies between zero and one whole.
    pub open spec fn wf(&self) -> bool {
        channels_in_unit(self@)
    }

    /// The channels as an array: red, green, blue.
    pub fn to_array(&self) -> (channels: [i64; 3])
        ensures
            channels@ == seq![self@.0 as i64, self@.1 as i64, self@.2 as i64],
    {
        let channels = [self.red, self.green, self.blue];
        assert(channels@ =~= seq![self@.0 as i64, self@.1 as i64, self@.2 as i64]);
        channels
    }

    /// The channels as a tuple: red, green, blue.
    pub fn to_tuple(&self) -> (channels: (i64, i64, i64))
        ensures
            channels.0 == self@.0,
            channels.1 == self@.1,
            channels.2 == self@.2,
    {
        (self.red, self.green, self.blue)
    }

    /// The channels followed by a fully opaque alpha of one whole.
    pub fn to_rgba_array(&self) -> (channels: [i64; 4])
        ensures
            channels@ == seq![self@.0 as i64, self@.1 as i64, self@.2 as i64, UNIT],
    {
        let channels = [self.red, self.green, self.blue, UNIT];
        assert(channels@ =~= seq![self@.0 as i64, self@.1 as i64, self@.2 as i64, UNIT]);
        channels
    }

    /// The colour of a hue, a saturation and a value. The hue selects one of
    /// the six sectors of the wheel; a hue below zero or from a full turn up
    /// selects none and gives the grey that is left without chroma.
    pub fn hsv_to_rgb(hue: Hue, saturation: Saturation, value: Value) -> (color: Color)
        requires
            in_unit(saturation as int),
            in_unit(value as int),
        ensures
            color@ == rgb_of_hsv(hue as int, saturation as int, value as int),
            color.wf(),
    {
        let chroma = fraction_of(value, saturation, UNIT);
        let offset = value - chroma;
        if hue < 0 || hue >= FULL_TURN {
            return Color { red: offset, green: offset, blue: offset };
        }
        let within = ((hue as u64) % (2 * SEXTANT as u64)) as i64;
        let climb = if within < SEXTANT {
            within
        } else {
            2 * SEXTANT - within
        };
        let second = fraction_of(chroma, climb, SEXTANT);
        let (red, green, blue) = if hue < SEXTANT {
            (chroma, second, 0)
        } else if hue < 2 * SEXTANT {
            (second, chroma, 0)
        } else if hue < 3 * SEXTANT {
            (0, chroma, second)
        } else if hue < 4 * SEXTANT {
            (0, second, chroma)
        } else if hue < 5 * SEXTANT {
            (second, 0, chroma)
        } else {
            (chroma, 0, second)
        };
        Color { red: red + offset, green: green + offset, blue: blue + offset }
    }

    /// Hue, saturation and value of the colour. The largest and the smallest
    /// channel are found by comparing the channels in pairs. The hue is on
    /// the wheel, and saturation and value are in the unit interval.
    pub fn to_hsv(&self) -> (hsv: Hsv)
        requires
            self.wf(),
        ensures
            hsv_view(hsv) == hsv_of_rgb(self@),
            0 <= hsv.0 < FULL_TURN,
            in_unit(hsv.1 as int),
            in_unit(hsv.2 as int),
    {
        let (r, g, b) = self.to_tuple();
        let mut cmax = r;
        let mut cmin = r;
        if g > cmax {
            cmax = g;
        } else if g < cmin {
            cmin = g;
        }
        if b > cmax {
            cmax = b;
        } else if b < cmin {
            cmin = b;
        }
        let delta = cmax - cmin;
        let hue = if delta == 0 {
            0
        } else if cmax == r {
            let from_red = sextant_share(g - b, delta);
            if from_red < 0 {
                from_red + FULL_TURN
            } else {
                from_red
            }
        } else if cmax == g {
            sextant_share(b - r, delta) + 2 * SEXTANT
        } else {
            sextant_share(r - g, delta) + 4 * SEXTANT
        };
        let saturation = if cmax == 0 {
            0
        } else {
            fraction_of(UNIT, delta, cmax)
        };
        (hue, saturation, cmax)
    }

    /// The colour as `#RRGGBB`: each channel on the scale from 0 to 255,
    /// rounded to the nearest integer, as two upper-case hexadecimal digits.
    pub fn to_hex(&self) -> (hex: String)
        requires
            self.wf(),
        ensures
            hex@ == hex_of_rgb(self@),
    {
        proof {
            reveal_strlit("#");
        }
        let mut hex = String::from_str("#");
        assert(hex@ =~= seq!['#']);
        push_channel_hex(&mut hex, self.red);
        push_channel_hex(&mut hex, self.green);
        push_channel_hex(&mut hex, self.blue);
        hex
    }
}

} // verus!
