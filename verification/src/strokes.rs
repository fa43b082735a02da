//! The placement data model: brushes, strokes, and the work-in-progress
//! image.
//!
//! A brush is loaded once and shared: strokes hold an index into the
//! caller's brush catalog, never a copy. A stroke is immutable once
//! proposed; it is either kept for good in the image's stroke sequence or
//! popped again, and the sequence order is the paint order.

use crate::color::Rgb;
use crate::target::Target;
use vstd::prelude::*;

verus! {

/// An immutable brush descriptor: where its texture lives and the native
/// pixel size of that texture.
pub struct Brush {
    pub texture_path: String,
    pub dimensions: (u32, u32),
}

/// One placement decision. The anchor is the stroke's top-left corner and
/// always lies on the canvas; the rotation is in milli-radians (the
/// analyzer's half-pi-scaled convention); the scale is in per-mille of the
/// brush's native footprint, at most 1.0; the opacity is an 8-bit alpha.
#[derive(Clone, Copy, Debug, PartialEq, Eq)]
pub struct Stroke {
    pub position: (u32, u32),
    pub rotation: i32,
    pub scale: u32,
    pub color: Rgb,
    pub opacity: u8,
}

impl Stroke {
    /// A stroke is valid for a canvas when its anchor lies on it and its
    /// scale does not pass the brush's native size.
    pub open spec fn valid_for(&self, w: int, h: int) -> bool {
        &&& (self.position.0 as int) < w
        &&& (self.position.1 as int) < h
        &&& self.scale <= 1000
    }
}

/// The work-in-progress artwork: canvas dimensions, background color, and
/// every accepted stroke in application order, each with the index of its
/// brush in the caller's catalog.
pub struct Image {
    pub dimensions: (u32, u32),
    pub color: Rgb,
    pub strokes: Vec<(Stroke, usize)>,
}

/// An empty canvas of the target's dimensions over a neutral gray
/// background.
pub fn init_image(target: &Target) -> (img: Image)
    ensures
        img.dimensions == target.dimensions,
        img.color == (Rgb { r: 127, g: 127, b: 127 }),
        img.strokes@.len() == 0,
{
    Image {
        strokes: Vec::new(),
        color: Rgb { r: 127, g: 127, b: 127 },
        dimensions: (target.dimensions.0, target.dimensions.1),
    }
}

} // verus!
