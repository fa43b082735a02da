//! Access into a flat RGBA pixel buffer: four bytes per pixel, rows laid out
//! top to bottom, the red byte first. Every reader in the engine decodes
//! R, G, B through this module, so the byte-order convention is stated once.

use crate::color::Rgb;
use vstd::prelude::*;

verus! {

/// Byte offset of the pixel at `(x, y)` in a buffer `w` pixels wide.
pub open spec fn spec_offset(w: int, x: int, y: int) -> int {
    4 * (y * w + x)
}

/// The RGB triple stored at `(x, y)`; the fourth (alpha) byte is not read.
pub open spec fn spec_pixel(buf: Seq<u8>, w: int, x: int, y: int) -> Rgb {
    Rgb {
        r: buf[spec_offset(w, x, y)],
        g: buf[spec_offset(w, x, y) + 1],
        b: buf[spec_offset(w, x, y) + 2],
    }
}

/// A buffer holds exactly `w * h` four-byte pixels.
pub open spec fn spec_buffer_sized(buf: Seq<u8>, w: int, h: int) -> bool {
    buf.len() == 4 * w * h
}

pub proof fn lemma_offset_in_bounds(w: int, h: int, x: int, y: int)
    requires
        0 <= x < w,
        0 <= y < h,
    ensures
        0 <= spec_offset(w, x, y),
        spec_offset(w, x, y) + 3 < 4 * w * h,
        y * w + x < w * h,
{
    assert(0 <= y * w + x && y * w + x < w * h) by (nonlinear_arith)
        requires
            0 <= x < w,
            0 <= y < h,
    ;
    assert(4 * w * h == 4 * (w * h)) by (nonlinear_arith);
}

/// Reads the RGB triple of the pixel at `(x, y)`.
pub fn pixel_at(buf: &Vec<u8>, width: u32, height: u32, x: u32, y: u32) -> (p: Rgb)
    requires
        x < width,
        y < height,
        spec_buffer_sized(buf@, width as int, height as int),
    ensures
        p == spec_pixel(buf@, width as int, x as int, y as int),
{
    let len: usize = buf.len();
    proof {
        lemma_offset_in_bounds(width as int, height as int, x as int, y as int);
        assert(4 * ((y as int) * (width as int) + (x as int)) + 3 < len as int);
    }
    let idx: usize = 4 * ((y as usize) * (width as usize) + (x as usize));
    Rgb { r: buf[idx], g: buf[idx + 1], b: buf[idx + 2] }
}

} // verus!
