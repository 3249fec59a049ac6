//! Escape-time rendering of Julia sets: escape strengths, two-palette colour
//! gradients, per-frame animation parameters and the settings that drive them.

pub mod color;
pub mod escape;
pub mod fraction;
pub mod literal;
pub mod numeric;
pub mod output;
pub mod palette;
pub mod render;
pub mod schedule;
pub mod settings;
