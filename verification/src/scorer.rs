//! Region scoring: how far a rendered buffer is from the target, summed
//! over the one region a candidate stroke can have touched.
//!
//! The stroke's rotated footprint is bounded by an axis-aligned box, the box
//! is clipped to the canvas, and the per-pixel HSL distances inside it are
//! accumulated. Restricting the sum to this box is what keeps one
//! iteration's cost proportional to the stroke, not to the whole image.

use crate::color;
use crate::color::Hsl;
use crate::fixmath;
use crate::raster;
use crate::strokes::Brush;
use crate::strokes::Stroke;
use crate::target::Target;
use rayon::iter::IntoParallelIterator;
use rayon::iter::ParallelIterator;
use vstd::prelude::*;

verus! {

/// Horizontal extent, in pixels, of the scaled axis-aligned box around the
/// brush rectangle rotated by `rotation`: `(bw |cos| + bh |sin|) * scale`.
pub open spec fn spec_footprint_x(bw: int, bh: int, rotation: int, scale: int) -> int {
    (bw * fixmath::spec_abs_cos(rotation) + bh * fixmath::spec_abs_sin(rotation)) * scale
        / 1_000_000
}

/// Vertical extent of the same box: `(bw |sin| + bh |cos|) * scale`.
pub open spec fn spec_footprint_y(bw: int, bh: int, rotation: int, scale: int) -> int {
    (bw * fixmath::spec_abs_sin(rotation) + bh * fixmath::spec_abs_cos(rotation)) * scale
        / 1_000_000
}

/// The footprint extent clipped to the canvas: whatever would reach past
/// column (or row) `dim - 1` is cut off at it.
pub open spec fn spec_clip(off: int, size: int, dim: int) -> int {
    if off + size > dim - 1 {
        dim - 1 - off
    } else {
        size
    }
}

/// Law: the clipped footprint never leaves the canvas. From an anchor on
/// the canvas, the box's last column (or row) stays at most at `dim - 1`.
pub proof fn lemma_clip_in_bounds(off: int, size: int, dim: int)
    requires
        0 <= off <= dim - 1,
        0 <= size,
    ensures
        0 <= off + spec_clip(off, size, dim) <= dim - 1,
{
}

/// Column of the `i`-th scored pixel: the box is walked row-major,
/// `size_x` pixels to a row, and the coordinate saturates at the canvas
/// edge.
pub open spec fn spec_scored_x(w: int, x_off: int, size_x: int, i: int) -> int {
    if x_off + i % size_x > w - 1 {
        w - 1
    } else {
        x_off + i % size_x
    }
}

/// Row of the `i`-th scored pixel.
pub open spec fn spec_scored_y(h: int, y_off: int, size_x: int, i: int) -> int {
    if y_off + i / size_x > h - 1 {
        h - 1
    } else {
        y_off + i / size_x
    }
}

/// Law: every pixel the scorer visits has coordinates inside
/// `[0, w-1] x [0, h-1]`, whatever the box.
pub proof fn lemma_scored_pixel_in_bounds(
    w: int,
    h: int,
    x_off: int,
    y_off: int,
    size_x: int,
    i: int,
)
    requires
        w >= 1,
        h >= 1,
        x_off >= 0,
        y_off >= 0,
        size_x >= 1,
        i >= 0,
    ensures
        0 <= spec_scored_x(w, x_off, size_x, i) <= w - 1,
        0 <= spec_scored_y(h, y_off, size_x, i) <= h - 1,
{
    vstd::arithmetic::div_mod::lemma_mod_bound(i, size_x);
    assert(i / size_x >= 0) by (nonlinear_arith)
        requires
            i >= 0,
            size_x >= 1,
    ;
}

/// The HSL distance contributed by the `i`-th pixel of the box: target
/// versus the rendered buffer at the same spot.
pub open spec fn spec_region_term(
    hsls: Seq<Hsl>,
    buf: Seq<u8>,
    w: int,
    h: int,
    x_off: int,
    y_off: int,
    size_x: int,
    i: int,
) -> int {
    let xx = spec_scored_x(w, x_off, size_x, i);
    let yy = spec_scored_y(h, y_off, size_x, i);
    color::spec_hsl_distance(
        hsls[yy * w + xx],
        color::spec_rgb_to_hsl(raster::spec_pixel(buf, w, xx, yy)),
    )
}

/// The summed distance of the first `k` pixels of the box.
pub open spec fn spec_region_sum(
    hsls: Seq<Hsl>,
    buf: Seq<u8>,
    w: int,
    h: int,
    x_off: int,
    y_off: int,
    size_x: int,
    k: int,
) -> int
    decreases k,
{
    if k <= 0 {
        0
    } else {
        spec_region_sum(hsls, buf, w, h, x_off, y_off, size_x, k - 1) + spec_region_term(
            hsls,
            buf,
            w,
            h,
            x_off,
            y_off,
            size_x,
            k - 1,
        )
    }
}

/// The whole region score of a stroke: the clipped box of its footprint,
/// summed pixel by pixel. An empty box sums to zero.
pub open spec fn spec_compare(
    hsls: Seq<Hsl>,
    buf: Seq<u8>,
    w: int,
    h: int,
    stroke: Stroke,
    bw: int,
    bh: int,
) -> int {
    let size_x = spec_clip(
        stroke.position.0 as int,
        spec_footprint_x(bw, bh, stroke.rotation as int, stroke.scale as int),
        w,
    );
    let size_y = spec_clip(
        stroke.position.1 as int,
        spec_footprint_y(bw, bh, stroke.rotation as int, stroke.scale as int),
        h,
    );
    spec_region_sum(
        hsls,
        buf,
        w,
        h,
        stroke.position.0 as int,
        stroke.position.1 as int,
        size_x,
        size_x * size_y,
    )
}

/// Law: a stroke with a zero-size footprint — a zero scale leaves nothing
/// to compare — scores zero against any buffer, so the backup buffer scored
/// against itself under such a stroke yields exactly zero.
pub proof fn lemma_zero_footprint_scores_zero(
    hsls: Seq<Hsl>,
    buf: Seq<u8>,
    w: int,
    h: int,
    stroke: Stroke,
    bw: int,
    bh: int,
)
    requires
        stroke.scale == 0,
        stroke.position.0 < w,
        stroke.position.1 < h,
    ensures
        spec_compare(hsls, buf, w, h, stroke, bw, bh) == 0,
{
    let c = fixmath::spec_abs_cos(stroke.rotation as int);
    let s = fixmath::spec_abs_sin(stroke.rotation as int);
    assert((bw * c + bh * s) * 0 == 0) by (nonlinear_arith);
    assert((bw * s + bh * c) * 0 == 0) by (nonlinear_arith);
    assert(spec_footprint_x(bw, bh, stroke.rotation as int, 0) == 0);
    assert(spec_footprint_y(bw, bh, stroke.rotation as int, 0) == 0);
    let size_x = spec_clip(stroke.position.0 as int, 0, w);
    let size_y = spec_clip(stroke.position.1 as int, 0, h);
    assert(size_x == 0 && size_y == 0);
}

/// Computes one `spec_region_term`; always within `DISTANCE_BOUND`.
pub fn region_term(tar: &Target, buf: &Vec<u8>, x_off: u32, y_off: u32, size_x: u32, i: u32) -> (d:
    u64)
    requires
        tar.wf(),
        raster::spec_buffer_sized(buf@, tar.dimensions.0 as int, tar.dimensions.1 as int),
        size_x >= 1,
    ensures
        d == spec_region_term(
            tar.hsls@,
            buf@,
            tar.dimensions.0 as int,
            tar.dimensions.1 as int,
            x_off as int,
            y_off as int,
            size_x as int,
            i as int,
        ),
        d <= color::DISTANCE_BOUND,
{
    let w = tar.dimensions.0;
    let h = tar.dimensions.1;
    proof {
        lemma_scored_pixel_in_bounds(
            w as int,
            h as int,
            x_off as int,
            y_off as int,
            size_x as int,
            i as int,
        );
    }
    let xx_wide: u64 = x_off as u64 + (i % size_x) as u64;
    let xx: u32 = if xx_wide > (w - 1) as u64 {
        w - 1
    } else {
        xx_wide as u32
    };
    let yy_wide: u64 = y_off as u64 + (i / size_x) as u64;
    let yy: u32 = if yy_wide > (h - 1) as u64 {
        h - 1
    } else {
        yy_wide as u32
    };
    let rendered = color::rgb_to_hsl(raster::pixel_at(buf, w, h, xx, yy));
    proof {
        raster::lemma_offset_in_bounds(w as int, h as int, xx as int, yy as int);
    }
    let off: u64 = yy as u64 * w as u64 + xx as u64;
    let wanted: Hsl = tar.hsls[off as usize];
    color::hsl_distance(wanted, rendered)
}

/// Relies on rayon's `into_par_iter().map(..).collect()` over an index
/// range: `map` applies its closure to every index, and collecting an
/// indexed parallel iterator into a `Vec` keeps index order, so entry `i`
/// of the result is the closure's value at `i`. The closure only calls the
/// verified `region_term`.
#[verifier::external_body]
fn par_region_terms(
    tar: &Target,
    buf: &Vec<u8>,
    x_off: u32,
    y_off: u32,
    size_x: u32,
    size_y: u32,
) -> (terms: Vec<u64>)
    requires
        tar.wf(),
        raster::spec_buffer_sized(buf@, tar.dimensions.0 as int, tar.dimensions.1 as int),
        size_x >= 1,
        size_x as int * size_y as int <= u32::MAX as int,
    ensures
        terms@.len() == size_x as int * size_y as int,
        forall|i: int|
            0 <= i < terms@.len() ==> terms@[i] == spec_region_term(
                tar.hsls@,
                buf@,
                tar.dimensions.0 as int,
                tar.dimensions.1 as int,
                x_off as int,
                y_off as int,
                size_x as int,
                i,
            ),
        forall|i: int| 0 <= i < terms@.len() ==> terms@[i] <= color::DISTANCE_BOUND,
{
    let n = (size_x as usize) * (size_y as usize);
    (0..n).into_par_iter().map(|i| region_term(tar, buf, x_off, y_off, size_x, i as u32)).collect()
}

impl Target {
    /// The stroke-local distance of a rendered buffer to this target: the
    /// per-pixel HSL distance summed over the stroke's clipped bounding
    /// box. Lower is better; an empty box scores zero.
    #[verifier::loop_isolation(false)]
    pub fn compare(&self, buf: &Vec<u8>, stroke: &Stroke, brush: &Brush) -> (score: u64)
        requires
            self.wf(),
            raster::spec_buffer_sized(buf@, self.dimensions.0 as int, self.dimensions.1 as int),
            stroke.valid_for(self.dimensions.0 as int, self.dimensions.1 as int),
        ensures
            score == spec_compare(
                self.hsls@,
                buf@,
                self.dimensions.0 as int,
                self.dimensions.1 as int,
                *stroke,
                brush.dimensions.0 as int,
                brush.dimensions.1 as int,
            ),
    {
        let w = self.dimensions.0;
        let h = self.dimensions.1;
        let bw = brush.dimensions.0;
        let bh = brush.dimensions.1;
        let x_off = stroke.position.0;
        let y_off = stroke.position.1;
        let c: u64 = fixmath::abs_cos_milli(stroke.rotation) as u64;
        let s: u64 = fixmath::abs_sin_milli(stroke.rotation) as u64;
        proof {
            assert(bw as int * c as int + bh as int * s as int <= 0x2_0000_0000_0000
                && bw as int * s as int + bh as int * c as int <= 0x2_0000_0000_0000)
                by (nonlinear_arith)
                requires
                    0 <= c <= 1000,
                    0 <= s <= 1000,
                    0 <= bw <= 0xffff_ffff,
                    0 <= bh <= 0xffff_ffff,
            ;
            assert((bw as int * c as int + bh as int * s as int) * stroke.scale as int
                <= 0x7d0_0000_0000_0000 && (bw as int * s as int + bh as int * c as int)
                * stroke.scale as int <= 0x7d0_0000_0000_0000) by (nonlinear_arith)
                requires
                    0 <= bw as int * c as int + bh as int * s as int <= 0x2_0000_0000_0000,
                    0 <= bw as int * s as int + bh as int * c as int <= 0x2_0000_0000_0000,
                    0 <= stroke.scale <= 1000,
            ;
        }
        let ext_x: u64 = (bw as u64) * c + (bh as u64) * s;
        let ext_y: u64 = (bw as u64) * s + (bh as u64) * c;
        let fp_x: u64 = ext_x * (stroke.scale as u64) / 1_000_000;
        let fp_y: u64 = ext_y * (stroke.scale as u64) / 1_000_000;
        let size_x: u32 = if x_off as u64 + fp_x > (w - 1) as u64 {
            w - 1 - x_off
        } else {
            fp_x as u32
        };
        let size_y: u32 = if y_off as u64 + fp_y > (h - 1) as u64 {
            h - 1 - y_off
        } else {
            fp_y as u32
        };
        if size_x == 0 || size_y == 0 {
            proof {
                assert(size_x as int * size_y as int == 0) by (nonlinear_arith)
                    requires
                        size_x == 0 || size_y == 0,
                ;
            }
            return 0;
        }
        proof {
            assert(size_x as int * size_y as int <= (w as int - 1) * (h as int - 1)
                && (w as int - 1) * (h as int - 1) < w as int * h as int) by (nonlinear_arith)
                requires
                    1 <= size_x <= w as int - 1,
                    1 <= size_y <= h as int - 1,
                    1 <= w,
                    1 <= h,
            ;
        }
        let terms = par_region_terms(self, buf, x_off, y_off, size_x, size_y);
        let n: usize = terms.len();
        let mut score: u64 = 0;
        let mut k: usize = 0;
        while k < n
            invariant
                k <= n,
                score == spec_region_sum(
                    self.hsls@,
                    buf@,
                    w as int,
                    h as int,
                    x_off as int,
                    y_off as int,
                    size_x as int,
                    k as int,
                ),
                score <= k as int * color::DISTANCE_BOUND,
            decreases n - k,
        {
            proof {
                assert((k as int + 1) * color::DISTANCE_BOUND == k as int * color::DISTANCE_BOUND
                    + color::DISTANCE_BOUND) by (nonlinear_arith);
                assert(k as int * color::DISTANCE_BOUND <= 0xffff_ffff * 290_000int)
                    by (nonlinear_arith)
                    requires
                        0 <= k <= 0xffff_ffff,
                ;
            }
            score = score + terms[k];
            k = k + 1;
        }
        score
    }
}

} // verus!
