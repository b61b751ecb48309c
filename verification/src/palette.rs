//! The palette generator: a hue that drifts around the colour wheel, with a
//! saturation and a value that swing with three oscillators.
//!
//! Sines, cosines and tangents are not computed here. Each palette type names
//! the oscillators that drive it; the caller evaluates them at the current
//! iteration and hands the three readings over as a [`Wave`].

use crate::color::{hsv_view, rgb_of_hsv, Color, Hsv, Hue};
use crate::scale::{fraction_of, magnitude, magnitude_of, round_div, FULL_TURN, UNIT};
use vstd::prelude::*;

verus! {

/// The least divergence between two consecutive hues: fifteen degrees.
pub const MIN_DIVERGENCE: i64 = 15_000_000_000;

/// The base divergence of a palette of adjacent colours: twenty-five degrees.
pub const ADJACENT_DIVERGENCE: i64 = 25_000_000_000;

/// The base divergence of a palette of spread colours: eighty degrees.
pub const SPREAD_DIVERGENCE: i64 = 80_000_000_000;

/// The kind of palette to generate.
#[derive(Clone, Copy, Debug, PartialEq, Eq)]
pub enum PaletteType {
    Random,
    Pastel,
    Dark,
}

/// The shape of an oscillator.
#[derive(Clone, Copy, Debug, PartialEq, Eq)]
pub enum Waveform {
    Sine,
    Cosine,
    Tangent,
}

/// An oscillator: at iteration `i` it reads its waveform at the angle of
/// `i * numerator / denominator` radians.
#[derive(Clone, Copy, Debug, PartialEq, Eq)]
pub struct Oscillator {
    pub waveform: Waveform,
    pub numerator: u32,
    pub denominator: u32,
}

/// The three oscillators of a palette type: one for each of hue, saturation
/// and value.
#[derive(Clone, Copy, Debug, PartialEq, Eq)]
pub struct Oscillators {
    pub hue: Oscillator,
    pub saturation: Oscillator,
    pub value: Oscillator,
}

/// The oscillators that drive each palette type.
pub open spec fn oscillators_of(palette_type: PaletteType) -> Oscillators {
    match palette_type {
        PaletteType::Random => Oscillators {
            hue: Oscillator { waveform: Waveform::Tangent, numerator: 55, denominator: 1 },
            saturation: Oscillator { waveform: Waveform::Sine, numerator: 7, denominator: 20 },
            value: Oscillator { waveform: Waveform::Cosine, numerator: 633, denominator: 200 },
        },
        PaletteType::Pastel => Oscillators {
            hue: Oscillator { waveform: Waveform::Cosine, numerator: 25, denominator: 1 },
            saturation: Oscillator { waveform: Waveform::Cosine, numerator: 7, denominator: 20 },
            value: Oscillator { waveform: Waveform::Cosine, numerator: 1, denominator: 1 },
        },
        PaletteType::Dark => Oscillators {
            hue: Oscillator { waveform: Waveform::Cosine, numerator: 43, denominator: 1 },
            saturation: Oscillator { waveform: Waveform::Sine, numerator: 3, denominator: 4 },
            value: Oscillator { waveform: Waveform::Cosine, numerator: 1, denominator: 1 },
        },
    }
}

impl PaletteType {
    /// The oscillators to evaluate for this palette type.
    pub fn oscillators(&self) -> (oscillators: Oscillators)
        ensures
            oscillators == oscillators_of(*self),
    {
        match self {
            PaletteType::Random => Oscillators {
                hue: Oscillator { waveform: Waveform::Tangent, numerator: 55, denominator: 1 },
                saturation: Oscillator { waveform: Waveform::Sine, numerator: 7, denominator: 20 },
                value: Oscillator { waveform: Waveform::Cosine, numerator: 633, denominator: 200 },
            },
            PaletteType::Pastel => Oscillators {
                hue: Oscillator { waveform: Waveform::Cosine, numerator: 25, denominator: 1 },
                saturation: Oscillator {
                    waveform: Waveform::Cosine,
                    numerator: 7,
                    denominator: 20,
                },
                value: Oscillator { waveform: Waveform::Cosine, numerator: 1, denominator: 1 },
            },
            PaletteType::Dark => Oscillators {
                hue: Oscillator { waveform: Waveform::Cosine, numerator: 43, denominator: 1 },
                saturation: Oscillator { waveform: Waveform::Sine, numerator: 3, denominator: 4 },
                value: Oscillator { waveform: Waveform::Cosine, numerator: 1, denominator: 1 },
            },
        }
    }
}

/// The readings of the three oscillators at one iteration, each in billionths.
#[derive(Clone, Copy, Debug, PartialEq, Eq)]
pub struct Wave {
    pub hue: i64,
    pub saturation: i64,
    pub value: i64,
}

impl Wave {
    /// Whether the readings for saturation and value stay within one whole
    /// either way, as a sine and a cosine do. The reading for the hue may be
    /// a tangent and is not bounded.
    pub open spec fn wf(&self) -> bool {
        magnitude(self.saturation as int) <= UNIT && magnitude(self.value as int) <= UNIT
    }

    /// The three readings as a wave, if those for saturation and value are
    /// within one whole either way.
    pub fn new(hue: i64, saturation: i64, value: i64) -> (wave: Option<Wave>)
        ensures
            wave is Some <==> (Wave { hue, saturation, value }).wf(),
            wave is Some ==> wave->0 == (Wave { hue, saturation, value }),
    {
        if -UNIT <= saturation && saturation <= UNIT && -UNIT <= value && value <= UNIT {
            Some(Wave { hue, saturation, value })
        } else {
            None
        }
    }
}

/// What a generator remembers between two colours.
pub struct PaletteState {
    /// How many colours have been generated.
    pub iteration: nat,
    /// The divergence chosen at construction.
    pub base_divergence: int,
    /// The palette type chosen at construction.
    pub palette_type: PaletteType,
    /// The hue of the last colour, or the starting hue.
    pub hue: int,
}

impl PaletteState {
    /// Whether the hue is on the wheel and the base divergence is no more
    /// than a full turn. A base divergence may be as small as it likes: a
    /// step raises it to the least divergence.
    pub open spec fn wf(self) -> bool {
        &&& 0 <= self.hue < FULL_TURN
        &&& self.base_divergence <= FULL_TURN
    }
}

/// The base divergence of a palette: small for adjacent colours, large for
/// spread ones.
pub open spec fn base_divergence_for(adjacent_colors: bool) -> int {
    if adjacent_colors {
        ADJACENT_DIVERGENCE as int
    } else {
        SPREAD_DIVERGENCE as int
    }
}

/// The state of a generator before its first colour.
pub open spec fn initial_state(
    palette_type: PaletteType,
    adjacent_colors: bool,
    hue: int,
) -> PaletteState {
    PaletteState {
        iteration: 0,
        base_divergence: base_divergence_for(adjacent_colors),
        palette_type,
        hue,
    }
}

/// The divergence that a step uses: the base divergence, raised to the least
/// divergence where it is below.
pub open spec fn effective_divergence(base_divergence: int) -> int {
    if base_divergence < MIN_DIVERGENCE {
        MIN_DIVERGENCE as int
    } else {
        base_divergence
    }
}

/// The hue after one step: the hue before, moved on by the effective
/// divergence and by the size of the hue reading, wrapped to the wheel.
pub open spec fn next_hue(hue: int, base_divergence: int, reading: int) -> int {
    (hue + effective_divergence(base_divergence) + magnitude(reading)) % (FULL_TURN as int)
}

/// The saturation of a colour of the given palette type.
pub open spec fn saturation_of(palette_type: PaletteType, wave: Wave) -> int {
    let swing = magnitude(wave.saturation as int);
    match palette_type {
        PaletteType::Random => if swing < 400_000_000 {
            400_000_000
        } else {
            swing
        },
        PaletteType::Pastel => round_div(swing, 5),
        PaletteType::Dark => 320_000_000 + round_div(swing, 2),
    }
}

/// The value of a colour of the given palette type.
pub open spec fn value_of(palette_type: PaletteType, wave: Wave) -> int {
    let swing = magnitude(wave.value as int);
    match palette_type {
        PaletteType::Random => if swing < 200_000_000 {
            200_000_000
        } else if swing > 850_000_000 {
            850_000_000
        } else {
            swing
        },
        PaletteType::Pastel => 500_000_000 + round_div(swing, 2),
        PaletteType::Dark => 100_000_000 + round_div(swing, 6),
    }
}

/// Hue, saturation and value of the colour that a step generates.
pub open spec fn step_hsv(state: PaletteState, wave: Wave) -> (int, int, int) {
    (
        next_hue(state.hue, state.base_divergence, wave.hue as int),
        saturation_of(state.palette_type, wave),
        value_of(state.palette_type, wave),
    )
}

/// Red, green and blue of the colour that a step generates.
pub open spec fn rgb_of_step(state: PaletteState, wave: Wave) -> (int, int, int) {
    let hsv = step_hsv(state, wave);
    rgb_of_hsv(hsv.0, hsv.1, hsv.2)
}

/// The state after a step: one more iteration, and the hue of the colour just
/// generated. Base divergence and palette type never change.
pub open spec fn step_state(state: PaletteState, wave: Wave) -> PaletteState {
    PaletteState {
        iteration: state.iteration + 1,
        base_divergence: state.base_divergence,
        palette_type: state.palette_type,
        hue: next_hue(state.hue, state.base_divergence, wave.hue as int),
    }
}

/// The state after one step for each wave of a sequence, in order.
pub open spec fn state_after(state: PaletteState, waves: Seq<Wave>) -> PaletteState
    decreases waves.len(),
{
    if waves.len() == 0 {
        state
    } else {
        step_state(state_after(state, waves.drop_last()), waves.last())
    }
}

/// Hue, saturation and value of the colour at position `i` of the sequence
/// that a generator in `state` produces from `waves`.
pub open spec fn emitted(state: PaletteState, waves: Seq<Wave>, i: int) -> (int, int, int) {
    step_hsv(state_after(state, waves.take(i)), waves[i])
}

/// Whether every wave of a sequence is well formed.
pub open spec fn waves_wf(waves: Seq<Wave>) -> bool {
    forall|i: int| 0 <= i < waves.len() ==> (#[trigger] waves[i]).wf()
}

/// A step keeps a well-formed state well formed, and its saturation and value
/// lie in the unit interval.
pub proof fn lemma_step_wf(state: PaletteState, wave: Wave)
    requires
        state.wf(),
        wave.wf(),
    ensures
        step_state(state, wave).wf(),
        0 <= step_hsv(state, wave).0 < FULL_TURN,
        0 <= step_hsv(state, wave).1 <= UNIT,
        0 <= step_hsv(state, wave).2 <= UNIT,
{
}

/// Steps keep a well-formed state well formed and count the waves.
pub proof fn lemma_state_after_wf(state: PaletteState, waves: Seq<Wave>)
    requires
        state.wf(),
        waves_wf(waves),
    ensures
        state_after(state, waves).wf(),
        state_after(state, waves).iteration == state.iteration + waves.len(),
        state_after(state, waves).base_divergence == state.base_divergence,
        state_after(state, waves).palette_type == state.palette_type,
    decreases waves.len(),
{
    if waves.len() > 0 {
        lemma_state_after_wf(state, waves.drop_last());
        lemma_step_wf(state_after(state, waves.drop_last()), waves.last());
    }
}

/// The divergence that a step uses for a base divergence.
pub fn floor_divergence(base_divergence: i64) -> (divergence: i64)
    ensures
        divergence == effective_divergence(base_divergence as int),
        divergence >= MIN_DIVERGENCE,
{
    if base_divergence < MIN_DIVERGENCE {
        MIN_DIVERGENCE
    } else {
        base_divergence
    }
}

/// A generator of hues, saturations and values.
pub struct HsvPalette {
    iteration: usize,
    base_divergence: i64,
    palette_type: PaletteType,
    hue: Hue,
}

impl View for HsvPalette {
    type V = PaletteState;

    closed spec fn view(&self) -> PaletteState {
        PaletteState {
            iteration: self.iteration as nat,
            base_divergence: self.base_divergence as int,
            palette_type: self.palette_type,
            hue: self.hue as int,
        }
    }
}

impl HsvPalette {
    /// Whether the state of the generator is well formed.
    pub open spec fn wf(&self) -> bool {
        self@.wf()
    }

    /// How many colours the generator has produced.
    pub fn iteration(&self) -> (iteration: usize)
        ensures
            iteration == self@.iteration,
    {
        self.iteration
    }

    /// The palette type that the generator was made with.
    pub fn palette_type(&self) -> (palette_type: PaletteType)
        ensures
            palette_type == self@.palette_type,
    {
        self.palette_type
    }

    /// The hue of the next colour.
    fn drift(&self, reading: i64) -> (hue: Hue)
        requires
            self.wf(),
        ensures
            hue == next_hue(self@.hue, self@.base_divergence, reading as int),
            0 <= hue < FULL_TURN,
    {
        let divergence = floor_divergence(self.base_divergence);
        let sum: u64 = (self.hue as u64) + (divergence as u64) + magnitude_of(reading);
        (sum % (FULL_TURN as u64)) as i64
    }

    /// A dark colour: a saturation from 0.32 up and a value from 0.1 up, each
    /// raised by a share of its reading.
    fn palette_dark(&self, wave: Wave) -> (hsv: Hsv)
        requires
            self.wf(),
            wave.wf(),
        ensures
            hsv.0 == next_hue(self@.hue, self@.base_divergence, wave.hue as int),
            hsv.1 == saturation_of(PaletteType::Dark, wave),
            hsv.2 == value_of(PaletteType::Dark, wave),
    {
        let hue = self.drift(wave.hue);
        let saturation = 320_000_000 + fraction_of(magnitude_of(wave.saturation) as i64, 1, 2);
        let value = 100_000_000 + fraction_of(magnitude_of(wave.value) as i64, 1, 6);
        (hue, saturation, value)
    }

    /// A pastel colour: a saturation of at most a fifth and a value from one
    /// half up.
    fn palette_pastel(&self, wave: Wave) -> (hsv: Hsv)
        requires
            self.wf(),
            wave.wf(),
        ensures
            hsv.0 == next_hue(self@.hue, self@.base_divergence, wave.hue as int),
            hsv.1 == saturation_of(PaletteType::Pastel, wave),
            hsv.2 == value_of(PaletteType::Pastel, wave),
    {
        let hue = self.drift(wave.hue);
        let saturation = fraction_of(magnitude_of(wave.saturation) as i64, 1, 5);
        let value = 500_000_000 + fraction_of(magnitude_of(wave.value) as i64, 1, 2);
        (hue, saturation, value)
    }

    /// A random colour: the sizes of the readings themselves, the saturation
    /// held at 0.4 or above and the value between 0.2 and 0.85.
    fn palette_random(&self, wave: Wave) -> (hsv: Hsv)
        requires
            self.wf(),
            wave.wf(),
        ensures
            hsv.0 == next_hue(self@.hue, self@.base_divergence, wave.hue as int),
            hsv.1 == saturation_of(PaletteType::Random, wave),
            hsv.2 == value_of(PaletteType::Random, wave),
    {
        let hue = self.drift(wave.hue);
        let mut saturation = magnitude_of(wave.saturation) as i64;
        let mut value = magnitude_of(wave.value) as i64;
        if saturation < 400_000_000 {
            saturation = 400_000_000;
        }
        if value < 200_000_000 {
            value = 200_000_000;
        } else if value > 850_000_000 {
            value = 850_000_000;
        }
        (hue, saturation, value)
    }

    /// Hue, saturation and value of the next colour, by the formula of the
    /// palette type. The generator stays as it is.
    pub fn get(&self, wave: Wave) -> (hsv: Hsv)
        requires
            self.wf(),
            wave.wf(),
        ensures
            hsv_view(hsv) == step_hsv(self@, wave),
    {
        match self.palette_type {
            PaletteType::Random => self.palette_random(wave),
            PaletteType::Pastel => self.palette_pastel(wave),
            PaletteType::Dark => self.palette_dark(wave),
        }
    }

    /// Generates the next hue, saturation and value and moves the generator
    /// on: the new hue becomes its hue, and its iteration grows by one. There
    /// is always a next colour.
    pub fn next(&mut self, wave: Wave) -> (hsv: Option<Hsv>)
        requires
            old(self).wf(),
            old(self)@.iteration < usize::MAX,
            wave.wf(),
        ensures
            hsv is Some,
            hsv_view(hsv->0) == step_hsv(old(self)@, wave),
            final(self)@ == step_state(old(self)@, wave),
            final(self).wf(),
    {
        let (hue, saturation, value) = self.get(wave);
        self.hue = hue;
        self.iteration = self.iteration + 1;
        Some((hue, saturation, value))
    }

    /// Generates one colour for each wave, in order.
    pub fn take(&mut self, waves: &Vec<Wave>) -> (colors: Vec<Hsv>)
        requires
            old(self).wf(),
            old(self)@.iteration + waves.len() <= usize::MAX,
            waves_wf(waves@),
        ensures
            colors.len() == waves.len(),
            forall|i: int|
                0 <= i < colors.len() ==> hsv_view(#[trigger] colors[i]) == emitted(
                    old(self)@,
                    waves@,
                    i,
                ),
            final(self)@ == state_after(old(self)@, waves@),
            final(self).wf(),
    {
        let mut colors: Vec<Hsv> = Vec::new();
        let mut i: usize = 0;
        assert(waves@.take(0) =~= Seq::<Wave>::empty());
        while i < waves.len()
            invariant
                i <= waves.len(),
                self.wf(),
                waves_wf(waves@),
                old(self)@.iteration + waves.len() <= usize::MAX,
                self@ == state_after(old(self)@, waves@.take(i as int)),
                self@.iteration == old(self)@.iteration + i,
                colors.len() == i,
                forall|j: int|
                    0 <= j < i ==> hsv_view(#[trigger] colors[j]) == emitted(
                        old(self)@,
                        waves@,
                        j,
                    ),
            decreases waves.len() - i,
        {
            let wave = waves[i];
            let hsv = self.next(wave);
            proof {
                let longer = waves@.take(i + 1);
                assert(longer.drop_last() =~= waves@.take(i as int));
                assert(longer.last() == wave);
            }
            match hsv {
                Some(hsv) => colors.push(hsv),
                None => {},
            }
            i = i + 1;
        }
        assert(waves@.take(waves.len() as int) =~= waves@);
        colors
    }
}

/// Draws a number with `rand::Rng::gen_range` on the half-open range from
/// `low` to `high`. Taken on trust from that crate: for a range that is not
/// empty, the number drawn is at least `low` and below `high`. Which number it
/// is depends on the generator and is left open.
#[verifier::external_body]
fn draw_between<T: rand::Rng>(rng: &mut T, low: i64, high: i64) -> (drawn: i64)
    requires
        low < high,
    ensures
        low <= drawn < high,
{
    rng.gen_range(low..high)
}

/// A generator of colours.
pub struct ColorPalette(HsvPalette);

impl View for ColorPalette {
    type V = PaletteState;

    closed spec fn view(&self) -> PaletteState {
        self.0@
    }
}

impl ColorPalette {
    /// Whether the state of the generator is well formed.
    pub open spec fn wf(&self) -> bool {
        self@.wf()
    }

    /// A generator of the given palette type whose starting hue is drawn from
    /// `rng`. Adjacent colours diverge by twenty-five degrees a step, spread
    /// colours by eighty.
    pub fn new<T: rand::Rng>(
        palette_type: PaletteType,
        adjacent_colors: bool,
        rng: &mut T,
    ) -> (palette: Self)
        ensures
            palette@ == initial_state(palette_type, adjacent_colors, palette@.hue),
            palette.wf(),
    {
        let hue = draw_between(rng, 0, FULL_TURN);
        ColorPalette::with_hue(palette_type, adjacent_colors, hue)
    }

    /// A generator of the given palette type that starts from the given hue.
    pub fn with_hue(
        palette_type: PaletteType,
        adjacent_colors: bool,
        hue: Hue,
    ) -> (palette: Self)
        requires
            0 <= hue < FULL_TURN,
        ensures
            palette@ == initial_state(palette_type, adjacent_colors, hue as int),
            palette.wf(),
    {
        let mut base_divergence = SPREAD_DIVERGENCE;
        if adjacent_colors {
            base_divergence = ADJACENT_DIVERGENCE;
        }
        ColorPalette(HsvPalette { base_divergence, palette_type, hue, iteration: 0 })
    }

    /// The generator of hues, saturations and values inside.
    pub fn get_inner(&self) -> (inner: &HsvPalette)
        ensures
            inner@ == self@,
    {
        &self.0
    }

    /// Gives up the generator of hues, saturations and values inside.
    pub fn into_inner(self) -> (inner: HsvPalette)
        ensures
            inner@ == self@,
    {
        self.0
    }

    /// Generates the next colour and moves the generator on. There is always
    /// a next colour, and each of its channels lies in the unit interval.
    pub fn next(&mut self, wave: Wave) -> (color: Option<Color>)
        requires
            old(self).wf(),
            old(self)@.iteration < usize::MAX,
            wave.wf(),
        ensures
            color is Some,
            color->0@ == rgb_of_step(old(self)@, wave),
            color->0.wf(),
            final(self)@ == step_state(old(self)@, wave),
            final(self).wf(),
    {
        proof {
            lemma_step_wf(self@, wave);
        }
        match self.0.next(wave) {
            Some((hue, saturation, value)) => Some(Color::hsv_to_rgb(hue, saturation, value)),
            None => None,
        }
    }

    /// Generates one colour for each wave, in order.
    pub fn take(&mut self, waves: &Vec<Wave>) -> (colors: Vec<Color>)
        requires
            old(self).wf(),
            old(self)@.iteration + waves.len() <= usize::MAX,
            waves_wf(waves@),
        ensures
            colors.len() == waves.len(),
            forall|i: int|
                0 <= i < colors.len() ==> (#[trigger] colors[i])@ == rgb_of_step(
                    state_after(old(self)@, waves@.take(i)),
                    waves[i],
                ) && colors[i].wf(),
            final(self)@ == state_after(old(self)@, waves@),
            final(self).wf(),
    {
        let mut colors: Vec<Color> = Vec::new();
        let mut i: usize = 0;
        assert(waves@.take(0) =~= Seq::<Wave>::empty());
        while i < waves.len()
            invariant
                i <= waves.len(),
                self.wf(),
                waves_wf(waves@),
                old(self)@.iteration + waves.len() <= usize::MAX,
                self@ == state_after(old(self)@, waves@.take(i as int)),
                self@.iteration == old(self)@.iteration + i,
                colors.len() == i,
                forall|j: int|
                    0 <= j < i ==> (#[trigger] colors[j])@ == rgb_of_step(
                        state_after(old(self)@, waves@.take(j)),
                        waves[j],
                    ) && colors[j].wf(),
            decreases waves.len() - i,
        {
            let wave = waves[i];
            let color = self.next(wave);
            proof {
                let longer = waves@.take(i + 1);
                assert(longer.drop_last() =~= waves@.take(i as int));
                assert(longer.last() == wave);
            }
            match color {
                Some(color) => colors.push(color),
                None => {},
            }
            i = i + 1;
        }
        assert(waves@.take(waves.len() as int) =~= waves@);
        colors
    }
}

} // verus!
