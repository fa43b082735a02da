//! A stochastic hill-climbing engine that approximates a target raster image
//! by repeatedly proposing a randomized, rotated, tinted brush stroke,
//! scoring the stroke-local difference to the target before and after
//! placement, and keeping only strokes that strictly reduce that difference.
//!
//! The engine owns no window and draws no pixels: a caller renders each
//! candidate onto a pixel buffer and hands the buffer back for scoring.
//!
//! All fractional quantities are held in fixed-point integer form:
//! * hue in milli-degrees, `0 ..= 359_999`;
//! * saturation and lightness in milli-percent, `0 ..= 100_000`;
//! * angles in milli-radians;
//! * gradient magnitudes and stroke scale factors in per-mille of 1.0.

pub mod color;
pub mod engine;
pub mod fixmath;
pub mod lod;
pub mod palette;
pub mod raster;
pub mod proposer;
pub mod rng;
pub mod scorer;
pub mod strokes;
pub mod target;

pub use color::Hsl;
pub use color::Rgb;
