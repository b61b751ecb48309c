//! Colour palettes in exact fixed-point arithmetic.

pub mod color;
pub mod palette;
pub mod round_trip;
pub mod scale;
pub mod sequence;

pub use color::{Color, Hsv, Hue, Saturation, Value};
pub use palette::{ColorPalette, HsvPalette, Oscillator, Oscillators, PaletteType, Wave, Waveform};
