//! What holds of every sequence of colours that a generator produces.

use crate::color::{channels_in_unit, lemma_channels_in_unit};
use crate::palette::{
    effective_divergence, emitted, initial_state, lemma_state_after_wf, lemma_step_wf, next_hue,
    rgb_of_step, state_after, step_hsv, waves_wf, PaletteState, PaletteType, Wave, MIN_DIVERGENCE,
};
use crate::scale::{magnitude, FULL_TURN, UNIT};
use vstd::arithmetic::div_mod::lemma_fundamental_div_mod_converse;
use vstd::prelude::*;

verus! {

/// Whether two states agree in all that a colour depends on: the palette
/// type, the base divergence and the hue.
pub open spec fn same_course(a: PaletteState, b: PaletteState) -> bool {
    &&& a.palette_type == b.palette_type
    &&& a.base_divergence == b.base_divergence
    &&& a.hue == b.hue
}

/// Bounded channels: every colour that a generator of any palette type, with
/// adjacent or spread colours and any starting hue on the wheel, produces from
/// well-formed waves has its three channels in the unit interval.
pub proof fn lemma_generated_channels_in_unit(
    palette_type: PaletteType,
    adjacent_colors: bool,
    hue: int,
    waves: Seq<Wave>,
    i: int,
)
    requires
        0 <= hue < FULL_TURN,
        waves_wf(waves),
        0 <= i < waves.len(),
    ensures
        channels_in_unit(
            rgb_of_step(
                state_after(initial_state(palette_type, adjacent_colors, hue), waves.take(i)),
                waves[i],
            ),
        ),
{
    let start = initial_state(palette_type, adjacent_colors, hue);
    assert(waves_wf(waves.take(i)));
    lemma_state_after_wf(start, waves.take(i));
    lemma_step_channels_in_unit(state_after(start, waves.take(i)), waves[i]);
}

/// The colour of one step from a well-formed state and a well-formed wave
/// has its three channels in the unit interval.
pub proof fn lemma_step_channels_in_unit(state: PaletteState, wave: Wave)
    requires
        state.wf(),
        wave.wf(),
    ensures
        channels_in_unit(rgb_of_step(state, wave)),
{
    lemma_step_wf(state, wave);
    let hsv = step_hsv(state, wave);
    lemma_channels_in_unit(hsv.0, hsv.1, hsv.2);
}

/// Two generators on the same course stay on the same course when they are
/// fed the same waves.
pub proof fn lemma_same_course_kept(a: PaletteState, b: PaletteState, waves: Seq<Wave>)
    requires
        same_course(a, b),
    ensures
        same_course(state_after(a, waves), state_after(b, waves)),
    decreases waves.len(),
{
    if waves.len() > 0 {
        lemma_same_course_kept(a, b, waves.drop_last());
    }
}

/// Determinism: two generators with the same palette type, the same base
/// divergence and the same hue produce the same colour at every position when
/// they are fed the same waves. Two generators made with the same palette type,
/// the same adjacency and the same starting hue are such a pair.
pub proof fn lemma_same_start_same_sequence(
    a: PaletteState,
    b: PaletteState,
    waves: Seq<Wave>,
    i: int,
)
    requires
        same_course(a, b),
        0 <= i < waves.len(),
    ensures
        emitted(a, waves, i) == emitted(b, waves, i),
        rgb_of_step(state_after(a, waves.take(i)), waves[i]) == rgb_of_step(
            state_after(b, waves.take(i)),
            waves[i],
        ),
{
    lemma_same_course_kept(a, b, waves.take(i));
}

/// A fresh generator never runs out: it is well formed, it accepts as many
/// well-formed waves as a vector can hold, and it is well formed afterwards,
/// having counted each of them.
pub proof fn lemma_fresh_generator_never_ends(
    palette_type: PaletteType,
    adjacent_colors: bool,
    hue: int,
    waves: Seq<Wave>,
)
    requires
        0 <= hue < FULL_TURN,
        waves_wf(waves),
        waves.len() <= usize::MAX,
    ensures
        initial_state(palette_type, adjacent_colors, hue).wf(),
        initial_state(palette_type, adjacent_colors, hue).iteration + waves.len() <= usize::MAX,
        state_after(initial_state(palette_type, adjacent_colors, hue), waves).wf(),
        state_after(initial_state(palette_type, adjacent_colors, hue), waves).iteration
            == waves.len(),
{
    lemma_state_after_wf(initial_state(palette_type, adjacent_colors, hue), waves);
}

/// A base divergence below the least divergence counts as the least: from
/// the same hue and the same wave, a generator with any smaller base
/// divergence and one with exactly the least generate the same colour.
pub proof fn lemma_low_divergence_is_floored(a: PaletteState, b: PaletteState, wave: Wave)
    requires
        a.palette_type == b.palette_type,
        a.hue == b.hue,
        a.base_divergence < MIN_DIVERGENCE,
        b.base_divergence == MIN_DIVERGENCE,
    ensures
        step_hsv(a, wave) == step_hsv(b, wave),
        rgb_of_step(a, wave) == rgb_of_step(b, wave),
{
}

/// The size of a step: where the hue reading is within one whole either way,
/// as a cosine is, the way forward around the wheel from the hue before to
/// the hue after is at least the effective divergence, hence at least the
/// least divergence, and at most one degree more.
pub proof fn lemma_hue_step_bounds(hue: int, base_divergence: int, reading: int)
    requires
        0 <= hue < FULL_TURN,
        magnitude(reading) <= UNIT,
        effective_divergence(base_divergence) + UNIT < FULL_TURN,
    ensures
        ({
            let forward = (next_hue(hue, base_divergence, reading) - hue) % (FULL_TURN as int);
            MIN_DIVERGENCE <= effective_divergence(base_divergence) <= forward
                <= effective_divergence(base_divergence) + UNIT
        }),
{
    let turn = FULL_TURN as int;
    let step = effective_divergence(base_divergence) + magnitude(reading);
    if hue + step < turn {
        lemma_fundamental_div_mod_converse(hue + step, turn, 0, hue + step);
        lemma_fundamental_div_mod_converse(step, turn, 0, step);
    } else {
        lemma_fundamental_div_mod_converse(hue + step, turn, 1, hue + step - turn);
        lemma_fundamental_div_mod_converse(step - turn, turn, -1, step);
    }
}

/// The divergence floor: whatever the base divergence, the divergence by
/// which a step moves the hue is at least the least divergence, and no less
/// than the base divergence.
pub proof fn lemma_divergence_floor(hue: int, base_divergence: int, reading: int)
    ensures
        effective_divergence(base_divergence) >= MIN_DIVERGENCE,
        effective_divergence(base_divergence) >= base_divergence,
        next_hue(hue, base_divergence, reading) == (hue + effective_divergence(base_divergence)
            + magnitude(reading)) % (FULL_TURN as int),
{
}

} // verus!
