use colourado_iter::palette::{
    floor_divergence, ADJACENT_DIVERGENCE, MIN_DIVERGENCE, SPREAD_DIVERGENCE,
};
use colourado_iter::scale::{FULL_TURN, UNIT};
use colourado_iter::{
    Color, ColorPalette, HsvPalette, Oscillator, Oscillators, PaletteType, Wave, Waveform,
};
use rand::SeedableRng;

/// A source of randomness that only ever gives zero bits.
struct Zeros;

impl rand::RngCore for Zeros {
    fn next_u32(&mut self) -> u32 {
        0
    }

    fn next_u64(&mut self) -> u64 {
        0
    }

    fn fill_bytes(&mut self, dest: &mut [u8]) {
        for byte in dest {
            *byte = 0;
        }
    }

    fn try_fill_bytes(&mut self, dest: &mut [u8]) -> Result<(), rand::Error> {
        self.fill_bytes(dest);
        Ok(())
    }
}

/// What an oscillator reads at an iteration, in fixed-point steps.
fn reading(oscillator: Oscillator, iteration: usize) -> i64 {
    let angle = iteration as f32 * (oscillator.numerator as f32 / oscillator.denominator as f32);
    let height = match oscillator.waveform {
        Waveform::Sine => angle.sin(),
        Waveform::Cosine => angle.cos(),
        Waveform::Tangent => angle.tan(),
    };
    (height as f64 * UNIT as f64).round() as i64
}

/// The wave of a palette type at an iteration.
fn wave_at(palette_type: PaletteType, iteration: usize) -> Wave {
    let oscillators = palette_type.oscillators();
    Wave::new(
        reading(oscillators.hue, iteration),
        reading(oscillators.saturation, iteration),
        reading(oscillators.value, iteration),
    )
    .unwrap()
}

/// The waves of a palette type for `count` iterations from `first` on.
fn waves_from(palette_type: PaletteType, first: usize, count: usize) -> Vec<Wave> {
    (first..first + count).map(|iteration| wave_at(palette_type, iteration)).collect()
}

fn wave(hue: i64, saturation: i64, value: i64) -> Wave {
    Wave::new(hue, saturation, value).unwrap()
}

fn hsv_palette(palette_type: PaletteType, adjacent_colors: bool, hue: i64) -> HsvPalette {
    ColorPalette::with_hue(palette_type, adjacent_colors, hue).into_inner()
}

#[test]
fn generates_palette() {
    let mut palette = ColorPalette::new(PaletteType::Random, false, &mut rand::thread_rng());

    let colors = palette.take(&waves_from(PaletteType::Random, 0, 7));

    assert_eq!(colors.len(), 7);
    for color in colors {
        let (red, green, blue) = color.to_tuple();
        assert!(red >= 0);
        assert!(red <= UNIT);

        assert!(green >= 0);
        assert!(green <= UNIT);

        assert!(blue >= 0);
        assert!(blue <= UNIT);
    }
}

#[test]
fn first_five_hues_follow_the_formula() {
    let palette = ColorPalette::new(PaletteType::Random, false, &mut Zeros);
    let mut palette = palette.into_inner();
    assert_eq!(palette.iteration(), 0);

    let degrees = [80.0, 205.18309, 285.22737, 20.26873, 100.35747];
    let mut expected: i64 = 0;
    for iteration in 0..5 {
        let tangent = (iteration as f32 * 55.0).tan().abs();
        let swing = (tangent as f64 * UNIT as f64).round() as i64;
        expected = (expected + 80 * UNIT + swing) % (360 * UNIT);

        let (hue, _, _) = palette.next(wave_at(PaletteType::Random, iteration)).unwrap();
        assert_eq!(hue, expected);
        assert!((hue as f64 / UNIT as f64 - degrees[iteration]).abs() < 0.0001);
    }
    assert_eq!(palette.iteration(), 5);
}

#[test]
fn oscillators_of_each_palette_type() {
    let oscillator = |waveform, numerator, denominator| Oscillator { waveform, numerator, denominator };
    assert_eq!(
        PaletteType::Random.oscillators(),
        Oscillators {
            hue: oscillator(Waveform::Tangent, 55, 1),
            saturation: oscillator(Waveform::Sine, 7, 20),
            value: oscillator(Waveform::Cosine, 633, 200),
        }
    );
    assert_eq!(
        PaletteType::Pastel.oscillators(),
        Oscillators {
            hue: oscillator(Waveform::Cosine, 25, 1),
            saturation: oscillator(Waveform::Cosine, 7, 20),
            value: oscillator(Waveform::Cosine, 1, 1),
        }
    );
    assert_eq!(
        PaletteType::Dark.oscillators(),
        Oscillators {
            hue: oscillator(Waveform::Cosine, 43, 1),
            saturation: oscillator(Waveform::Sine, 3, 4),
            value: oscillator(Waveform::Cosine, 1, 1),
        }
    );
}

#[test]
fn oscillator_ratios_are_the_frequencies() {
    let ratio = |oscillator: Oscillator| oscillator.numerator as f32 / oscillator.denominator as f32;
    assert_eq!(ratio(PaletteType::Random.oscillators().saturation), 0.35);
    assert_eq!(ratio(PaletteType::Random.oscillators().value), 6.33 * 0.5);
    assert_eq!(ratio(PaletteType::Pastel.oscillators().saturation), 0.35);
    assert_eq!(ratio(PaletteType::Dark.oscillators().saturation), 0.75);
}

#[test]
fn wave_takes_sine_and_cosine_readings_only() {
    assert_eq!(
        Wave::new(5, -UNIT, UNIT),
        Some(Wave { hue: 5, saturation: -UNIT, value: UNIT })
    );
    assert_eq!(Wave::new(i64::MIN, 0, 0), Some(Wave { hue: i64::MIN, saturation: 0, value: 0 }));
    assert_eq!(Wave::new(i64::MAX, 0, 0), Some(Wave { hue: i64::MAX, saturation: 0, value: 0 }));
    assert_eq!(Wave::new(0, UNIT + 1, 0), None);
    assert_eq!(Wave::new(0, -UNIT - 1, 0), None);
    assert_eq!(Wave::new(0, 0, UNIT + 1), None);
    assert_eq!(Wave::new(0, 0, -UNIT - 1), None);
    assert_eq!(Wave::new(0, i64::MIN, i64::MAX), None);
}

#[test]
fn divergence_is_never_below_fifteen_degrees() {
    assert_eq!(MIN_DIVERGENCE, 15 * UNIT);
    assert_eq!(floor_divergence(0), 15 * UNIT);
    assert_eq!(floor_divergence(i64::MIN), 15 * UNIT);
    assert_eq!(floor_divergence(-UNIT), 15 * UNIT);
    assert_eq!(floor_divergence(15 * UNIT - 1), 15 * UNIT);
    assert_eq!(floor_divergence(15 * UNIT), 15 * UNIT);
    assert_eq!(floor_divergence(15 * UNIT + 1), 15 * UNIT + 1);
    assert_eq!(floor_divergence(ADJACENT_DIVERGENCE), 25 * UNIT);
    assert_eq!(floor_divergence(SPREAD_DIVERGENCE), 80 * UNIT);
    assert_eq!(floor_divergence(i64::MAX), i64::MAX);
}

#[test]
fn adjacent_colours_diverge_less_than_spread_ones() {
    let still = wave(0, 0, 0);
    let adjacent = hsv_palette(PaletteType::Dark, true, 10 * UNIT);
    let spread = hsv_palette(PaletteType::Dark, false, 10 * UNIT);
    assert_eq!(adjacent.get(still).0, 35 * UNIT);
    assert_eq!(spread.get(still).0, 90 * UNIT);
}

#[test]
fn hue_moves_by_divergence_and_swing_and_wraps() {
    let palette = hsv_palette(PaletteType::Pastel, false, 350 * UNIT);
    assert_eq!(palette.get(wave(0, 0, 0)).0, 70 * UNIT);
    assert_eq!(palette.get(wave(UNIT, 0, 0)).0, 71 * UNIT);
    assert_eq!(palette.get(wave(-UNIT, 0, 0)).0, 71 * UNIT);
    assert_eq!(palette.get(wave(-UNIT / 2, 0, 0)).0, 70 * UNIT + UNIT / 2);

    let palette = hsv_palette(PaletteType::Pastel, false, 280 * UNIT - 1);
    assert_eq!(palette.get(wave(0, 0, 0)).0, FULL_TURN - 1);
    let palette = hsv_palette(PaletteType::Pastel, false, 280 * UNIT);
    assert_eq!(palette.get(wave(0, 0, 0)).0, 0);
}

#[test]
fn hue_takes_any_tangent() {
    let palette = hsv_palette(PaletteType::Random, true, 359 * UNIT);
    for swing in [i64::MIN, i64::MIN + 1, i64::MAX, 1_000 * FULL_TURN + 7] {
        let expected =
            (359 * UNIT as i128 + 25 * UNIT as i128 + (swing as i128).abs()) % FULL_TURN as i128;
        assert_eq!(palette.get(wave(swing, 0, 0)).0 as i128, expected);
    }
}

#[test]
fn dark_colours() {
    let palette = hsv_palette(PaletteType::Dark, true, 0);
    assert_eq!(palette.get(wave(0, 0, 0)), (25 * UNIT, 320_000_000, 100_000_000));
    assert_eq!(palette.get(wave(0, UNIT, UNIT)), (25 * UNIT, 820_000_000, 266_666_667));
    assert_eq!(palette.get(wave(0, -UNIT, -UNIT)), (25 * UNIT, 820_000_000, 266_666_667));
    assert_eq!(
        palette.get(wave(300_000_000, -500_000_000, 600_000_000)),
        (25_300_000_000, 570_000_000, 200_000_000)
    );
    // Halves and sixths are rounded to the nearest step.
    assert_eq!(palette.get(wave(0, 1, 2)).1, 320_000_001);
    assert_eq!(palette.get(wave(0, 1, 2)).2, 100_000_000);
    assert_eq!(palette.get(wave(0, 2, 3)).1, 320_000_001);
    assert_eq!(palette.get(wave(0, 2, 3)).2, 100_000_001);
    assert_eq!(palette.get(wave(0, 3, 9)).1, 320_000_002);
    assert_eq!(palette.get(wave(0, 3, 9)).2, 100_000_002);
}

#[test]
fn pastel_colours() {
    let palette = hsv_palette(PaletteType::Pastel, false, 0);
    assert_eq!(palette.get(wave(0, 0, 0)), (80 * UNIT, 0, 500_000_000));
    assert_eq!(palette.get(wave(0, UNIT, UNIT)), (80 * UNIT, 200_000_000, UNIT));
    assert_eq!(palette.get(wave(0, -UNIT, -UNIT)), (80 * UNIT, 200_000_000, UNIT));
    assert_eq!(
        palette.get(wave(-250_000_000, 350_000_000, -700_000_000)),
        (80_250_000_000, 70_000_000, 850_000_000)
    );
    assert_eq!(palette.get(wave(0, 2, 0)).1, 0);
    assert_eq!(palette.get(wave(0, 3, 0)).1, 1);
    assert_eq!(palette.get(wave(0, 7, 0)).1, 1);
    assert_eq!(palette.get(wave(0, 8, 0)).1, 2);
}

#[test]
fn random_colours() {
    let palette = hsv_palette(PaletteType::Random, false, 0);
    assert_eq!(palette.get(wave(0, 0, 0)), (80 * UNIT, 400_000_000, 200_000_000));
    assert_eq!(palette.get(wave(0, UNIT, UNIT)), (80 * UNIT, UNIT, 850_000_000));
    assert_eq!(palette.get(wave(0, -UNIT, -UNIT)), (80 * UNIT, UNIT, 850_000_000));
    assert_eq!(palette.get(wave(0, 399_999_999, 199_999_999)).1, 400_000_000);
    assert_eq!(palette.get(wave(0, 399_999_999, 199_999_999)).2, 200_000_000);
    assert_eq!(palette.get(wave(0, 400_000_001, 200_000_001)).1, 400_000_001);
    assert_eq!(palette.get(wave(0, 400_000_001, 200_000_001)).2, 200_000_001);
    assert_eq!(palette.get(wave(0, -650_000_000, -849_999_999)).1, 650_000_000);
    assert_eq!(palette.get(wave(0, -650_000_000, -849_999_999)).2, 849_999_999);
    assert_eq!(palette.get(wave(0, 0, 850_000_001)).2, 850_000_000);
}

#[test]
fn get_leaves_the_generator_as_it_is() {
    let palette = hsv_palette(PaletteType::Dark, false, 100 * UNIT);
    let first = palette.get(wave(UNIT, UNIT, UNIT));
    let again = palette.get(wave(UNIT, UNIT, UNIT));
    assert_eq!(first, again);
    assert_eq!(palette.iteration(), 0);
    assert_eq!(palette.palette_type(), PaletteType::Dark);
}

#[test]
fn next_feeds_the_hue_back_and_counts() {
    let mut palette = hsv_palette(PaletteType::Dark, true, 0);
    let still = wave(0, 0, 0);
    for step in 1..=20 {
        let (hue, saturation, value) = palette.next(still).unwrap();
        assert_eq!(hue, (25 * UNIT * step as i64) % FULL_TURN);
        assert_eq!(saturation, 320_000_000);
        assert_eq!(value, 100_000_000);
        assert_eq!(palette.iteration(), step);
        assert_eq!(palette.get(still).0, (25 * UNIT * (step as i64 + 1)) % FULL_TURN);
    }
    assert_eq!(palette.palette_type(), PaletteType::Dark);
}

#[test]
fn colour_is_the_conversion_of_the_step() {
    for palette_type in [PaletteType::Random, PaletteType::Pastel, PaletteType::Dark] {
        let mut colors = ColorPalette::with_hue(palette_type, false, 200 * UNIT);
        let mut triples = hsv_palette(palette_type, false, 200 * UNIT);
        for iteration in 0..50 {
            let wave = wave_at(palette_type, iteration);
            let color = colors.next(wave).unwrap();
            let (hue, saturation, value) = triples.next(wave).unwrap();
            assert_eq!(color.to_tuple(), Color::hsv_to_rgb(hue, saturation, value).to_tuple());
            assert_eq!(colors.get_inner().iteration(), triples.iteration());
        }
    }
}

#[test]
fn take_is_next_again_and_again() {
    for palette_type in [PaletteType::Random, PaletteType::Pastel, PaletteType::Dark] {
        let waves = waves_from(palette_type, 0, 30);

        let mut taken = hsv_palette(palette_type, true, 123 * UNIT);
        let mut stepped = hsv_palette(palette_type, true, 123 * UNIT);
        let triples = taken.take(&waves);
        assert_eq!(triples.len(), 30);
        for (triple, wave) in triples.iter().zip(&waves) {
            assert_eq!(Some(*triple), stepped.next(*wave));
        }
        assert_eq!(taken.iteration(), 30);
        assert_eq!(taken.get(waves[0]), stepped.get(waves[0]));

        let mut taken = ColorPalette::with_hue(palette_type, true, 123 * UNIT);
        let mut stepped = ColorPalette::with_hue(palette_type, true, 123 * UNIT);
        let colors = taken.take(&waves);
        assert_eq!(colors.len(), 30);
        for (color, wave) in colors.iter().zip(&waves) {
            assert_eq!(color.to_tuple(), stepped.next(*wave).unwrap().to_tuple());
        }
        assert_eq!(taken.into_inner().iteration(), 30);
    }
}

#[test]
fn take_of_nothing_changes_nothing() {
    let mut palette = hsv_palette(PaletteType::Pastel, false, 42 * UNIT);
    assert_eq!(palette.take(&Vec::new()), Vec::new());
    assert_eq!(palette.iteration(), 0);
    assert_eq!(palette.get(wave(0, 0, 0)).0, 122 * UNIT);
}

#[test]
fn a_fresh_generator_does_not_run_out() {
    let mut palette = ColorPalette::with_hue(PaletteType::Random, false, 0);
    let colors = palette.take(&waves_from(PaletteType::Random, 0, 10_000));
    assert_eq!(colors.len(), 10_000);
    let more = palette.take(&waves_from(PaletteType::Random, 10_000, 10_000));
    assert_eq!(more.len(), 10_000);
    assert_eq!(palette.get_inner().iteration(), 20_000);
}

#[test]
fn every_generated_channel_lies_in_the_unit_interval() {
    for palette_type in [PaletteType::Random, PaletteType::Pastel, PaletteType::Dark] {
        for adjacent_colors in [true, false] {
            let mut rng = rand::rngs::StdRng::seed_from_u64(7);
            let mut palette = ColorPalette::new(palette_type, adjacent_colors, &mut rng);
            for color in palette.take(&waves_from(palette_type, 0, 2_000)) {
                for channel in color.to_array() {
                    assert!(0 <= channel && channel <= UNIT);
                }
                assert_eq!(color.to_hex().len(), 7);
            }
        }
    }
}

#[test]
fn extreme_waves_keep_the_channels_in_the_unit_interval() {
    let extremes = [-UNIT, -1, 0, 1, UNIT];
    for palette_type in [PaletteType::Random, PaletteType::Pastel, PaletteType::Dark] {
        for saturation in extremes {
            for value in extremes {
                for hue in [i64::MIN, -1, 0, 1, i64::MAX] {
                    let mut palette = ColorPalette::with_hue(palette_type, true, FULL_TURN - 1);
                    let color = palette.next(wave(hue, saturation, value)).unwrap();
                    for channel in color.to_array() {
                        assert!(0 <= channel && channel <= UNIT);
                    }
                }
            }
        }
    }
}

#[test]
fn same_seed_gives_the_same_colours() {
    for palette_type in [PaletteType::Random, PaletteType::Pastel, PaletteType::Dark] {
        let waves = waves_from(palette_type, 0, 100);
        let mut first =
            ColorPalette::new(palette_type, false, &mut rand::rngs::StdRng::seed_from_u64(2024));
        let mut second =
            ColorPalette::new(palette_type, false, &mut rand::rngs::StdRng::seed_from_u64(2024));
        let first: Vec<_> = first.take(&waves).iter().map(Color::to_tuple).collect();
        let second: Vec<_> = second.take(&waves).iter().map(Color::to_tuple).collect();
        assert_eq!(first, second);
    }
}

#[test]
fn same_start_gives_the_same_colours_whatever_the_count() {
    let waves = waves_from(PaletteType::Dark, 0, 40);
    let mut early = hsv_palette(PaletteType::Dark, true, 77 * UNIT);
    let mut late = hsv_palette(PaletteType::Dark, true, 77 * UNIT - 25 * UNIT);
    assert_eq!(late.next(wave(0, 0, 0)).unwrap().0, 77 * UNIT);
    assert_eq!(early.take(&waves), late.take(&waves));
    assert_eq!(early.iteration() + 1, late.iteration());
}

#[test]
fn drawn_hue_is_on_the_wheel() {
    let still = wave(0, 0, 0);
    let mut seen = std::collections::BTreeSet::new();
    for seed in 0..200 {
        let mut rng = rand::rngs::StdRng::seed_from_u64(seed);
        let palette = ColorPalette::new(PaletteType::Pastel, true, &mut rng);
        let palette = palette.into_inner();
        let (hue, saturation, value) = palette.get(still);
        assert!(0 <= hue && hue < FULL_TURN);
        assert_eq!((saturation, value), (0, 500_000_000));
        assert_eq!(palette.iteration(), 0);
        seen.insert(hue);
    }
    assert!(seen.len() > 150);
}

#[test]
fn zero_bits_draw_the_hue_zero() {
    for adjacent_colors in [true, false] {
        let palette = ColorPalette::new(PaletteType::Dark, adjacent_colors, &mut Zeros);
        let expected = if adjacent_colors { 25 * UNIT } else { 80 * UNIT };
        assert_eq!(palette.get_inner().get(wave(0, 0, 0)).0, expected);
        assert_eq!(palette.get_inner().palette_type(), PaletteType::Dark);
    }
}
