//! Target analysis: from a decoded RGBA image to the immutable fields the
//! search reads on every iteration.
//!
//! For every pixel the analyzer stores its fixed-point HSL color, an
//! edge-gradient magnitude in per-mille of 1.0 (two fixed 3x3 directional
//! kernels over the luminance, with replicate-edge padding, the response
//! compressed by a second square root and saturated at 1.0), and a gradient
//! angle: the fixed-point arctangent of the two responses, scaled by a
//! further half pi. The half-pi scaling is this engine's rotation
//! convention, which the renderer must share; it is kept as is rather than
//! "corrected" to a plain angle.
//!
//! All four fields are indexed by `y * width + x` and never resized.

use crate::color;
use crate::color::Hsl;
use crate::color::Rgb;
use crate::fixmath;
use crate::raster;
use rayon::iter::IntoParallelIterator;
use rayon::iter::ParallelIterator;
use vstd::arithmetic::div_mod::lemma_fundamental_div_mod;
use vstd::arithmetic::div_mod::lemma_fundamental_div_mod_converse;
use vstd::arithmetic::div_mod::lemma_mod_bound;
use vstd::prelude::*;

verus! {

/// The immutable record the search runs against: dimensions, per-pixel HSL,
/// and the two per-pixel gradient fields.
pub struct Target {
    pub dimensions: (u32, u32),
    pub hsls: Vec<Hsl>,
    pub magnitudes: Vec<u32>,
    pub angles: Vec<i32>,
}

impl Target {
    /// Well-formedness: all three fields hold one entry per pixel, gradient
    /// magnitudes stay in per-mille range, and the HSL entries stay in their
    /// fixed-point ranges.
    pub open spec fn wf(&self) -> bool {
        &&& self.dimensions.0 >= 1
        &&& self.dimensions.1 >= 1
        &&& self.dimensions.0 as int * self.dimensions.1 as int <= u32::MAX as int
        &&& self.hsls@.len() == self.dimensions.0 as int * self.dimensions.1 as int
        &&& self.magnitudes@.len() == self.hsls@.len()
        &&& self.angles@.len() == self.hsls@.len()
        &&& forall|i: int| 0 <= i < self.magnitudes@.len() ==> self.magnitudes@[i] <= 1000
        &&& forall|i: int|
            0 <= i < self.hsls@.len() ==> (#[trigger] self.hsls@[i]).h < 360_000
                && self.hsls@[i].s <= 100_000 && self.hsls@[i].l <= 100_000
    }
}

/// Luminance of one pixel on the 0..=255 scale, by the usual integer
/// weights 299/587/114.
pub open spec fn spec_luma(p: Rgb) -> int {
    (299 * p.r + 587 * p.g + 114 * p.b) / 1000
}

/// Computes `spec_luma` exactly.
pub fn luma(p: Rgb) -> (l: u8)
    ensures
        l == spec_luma(p),
{
    ((299 * (p.r as u32) + 587 * (p.g as u32) + 114 * (p.b as u32)) / 1000) as u8
}

/// `v + d` clamped into `0 .. n`: replicate-edge padding for kernel taps.
pub open spec fn spec_clamp_add(v: int, d: int, n: int) -> int {
    if v + d < 0 {
        0
    } else if v + d > n - 1 {
        n - 1
    } else {
        v + d
    }
}

/// Computes `spec_clamp_add` for single-step offsets.
pub fn clamp_add(v: u32, d: i32, n: u32) -> (c: u32)
    requires
        n >= 1,
        v < n,
        -1 <= d <= 1,
    ensures
        c == spec_clamp_add(v as int, d as int, n as int),
        c < n,
{
    if d < 0 {
        if v == 0 {
            0
        } else {
            v - 1
        }
    } else if d > 0 {
        if v + 1 >= n {
            n - 1
        } else {
            v + 1
        }
    } else {
        v
    }
}

/// Luminance of the pixel at `(x, y)`.
pub open spec fn spec_luma_at(buf: Seq<u8>, w: int, x: int, y: int) -> int {
    spec_luma(raster::spec_pixel(buf, w, x, y))
}

/// One clamped kernel tap: the luminance at `(x + dx, y + dy)`, with both
/// coordinates replicate-clamped to the image.
pub open spec fn spec_tap(buf: Seq<u8>, w: int, h: int, x: int, y: int, dx: int, dy: int) -> int {
    spec_luma_at(buf, w, spec_clamp_add(x, dx, w), spec_clamp_add(y, dy, h))
}

/// Horizontal edge response at `(x, y)`: taps weighted
/// -1, -1, +2, -2, +1, -1 at the six kernel positions.
pub open spec fn spec_gx(buf: Seq<u8>, w: int, h: int, x: int, y: int) -> int {
    -spec_tap(buf, w, h, x, y, -1, -1) - spec_tap(buf, w, h, x, y, 1, -1) + 2 * spec_tap(
        buf,
        w,
        h,
        x,
        y,
        -1,
        0,
    ) - 2 * spec_tap(buf, w, h, x, y, 1, 0) + spec_tap(buf, w, h, x, y, -1, 1) - spec_tap(
        buf,
        w,
        h,
        x,
        y,
        1,
        1,
    )
}

/// Vertical edge response at `(x, y)`: taps weighted
/// +1, +2, +1, -1, -2, -1 at the six kernel positions.
pub open spec fn spec_gy(buf: Seq<u8>, w: int, h: int, x: int, y: int) -> int {
    spec_tap(buf, w, h, x, y, -1, -1) + 2 * spec_tap(buf, w, h, x, y, 0, -1) + spec_tap(
        buf,
        w,
        h,
        x,
        y,
        1,
        -1,
    ) - spec_tap(buf, w, h, x, y, -1, 1) - 2 * spec_tap(buf, w, h, x, y, 0, 1) - spec_tap(
        buf,
        w,
        h,
        x,
        y,
        1,
        1,
    )
}

/// Gradient magnitude in per-mille of 1.0: the edge responses are
/// normalized against the 255 luminance range, the root of their squared
/// sum is compressed by a second square root, and the result saturates
/// at 1.0.
pub open spec fn spec_magnitude(gx: int, gy: int) -> int {
    let r2 = (gx * gx + gy * gy) * 1_000_000 / 65_025;
    let radius = fixmath::spec_isqrt(r2);
    let m = fixmath::spec_isqrt(radius * 1000);
    if m > 1000 {
        1000
    } else {
        m
    }
}

/// Gradient angle in milli-radians: the fixed-point arctangent of
/// `(gy, gx)`, scaled by a further half pi (the engine's rotation
/// convention).
pub open spec fn spec_angle(gx: int, gy: int) -> int {
    let a = fixmath::spec_atan2_milli(gy, gx);
    if a >= 0 {
        a * 3142 / 2000
    } else {
        -((-a) * 3142 / 2000)
    }
}

/// HSL of the `i`-th pixel in row-major order.
pub open spec fn spec_hsl_at(buf: Seq<u8>, w: int, i: int) -> Hsl {
    color::spec_rgb_to_hsl(raster::spec_pixel(buf, w, i % w, i / w))
}

/// Gradient magnitude of the `i`-th pixel in row-major order.
pub open spec fn spec_magnitude_at(buf: Seq<u8>, w: int, h: int, i: int) -> int {
    spec_magnitude(spec_gx(buf, w, h, i % w, i / w), spec_gy(buf, w, h, i % w, i / w))
}

/// Gradient angle of the `i`-th pixel in row-major order.
pub open spec fn spec_angle_at(buf: Seq<u8>, w: int, h: int, i: int) -> int {
    spec_angle(spec_gx(buf, w, h, i % w, i / w), spec_gy(buf, w, h, i % w, i / w))
}

proof fn lemma_row_major(w: int, h: int, i: int)
    requires
        w >= 1,
        h >= 1,
        0 <= i < w * h,
    ensures
        0 <= i % w < w,
        0 <= i / w < h,
        (i / w) * w + (i % w) == i,
{
    lemma_fundamental_div_mod(i, w);
    lemma_mod_bound(i, w);
    assert((i / w) * w == w * (i / w)) by (nonlinear_arith);
    assert(0 <= i / w < h) by (nonlinear_arith)
        requires
            w >= 1,
            h >= 1,
            0 <= i < w * h,
            i == w * (i / w) + i % w,
            0 <= i % w < w,
    ;
}

/// Computes `spec_hsl_at` for one pixel index.
pub fn hsl_at(pixels: &Vec<u8>, width: u32, height: u32, i: usize) -> (c: Hsl)
    requires
        width >= 1,
        height >= 1,
        raster::spec_buffer_sized(pixels@, width as int, height as int),
        width as int * height as int <= u32::MAX as int,
        i < width as int * height as int,
    ensures
        c == spec_hsl_at(pixels@, width as int, i as int),
{
    proof {
        lemma_row_major(width as int, height as int, i as int);
    }
    let xi: u32 = (i as u32) % width;
    let yi: u32 = (i as u32) / width;
    color::rgb_to_hsl(raster::pixel_at(pixels, width, height, xi, yi))
}

/// Relies on rayon's `into_par_iter().map(..).collect()` over an index
/// range: `map` applies its closure to every index, and collecting an
/// indexed parallel iterator into a `Vec` keeps index order, so entry `i`
/// of the result is the closure's value at `i`. The closure only calls the
/// verified `hsl_at`.
#[verifier::external_body]
fn par_hsl_field(pixels: &Vec<u8>, width: u32, height: u32) -> (out: Vec<Hsl>)
    requires
        width >= 1,
        height >= 1,
        raster::spec_buffer_sized(pixels@, width as int, height as int),
        width as int * height as int <= u32::MAX as int,
    ensures
        out@.len() == width as int * height as int,
        forall|i: int| 0 <= i < out@.len() ==> out@[i] == spec_hsl_at(pixels@, width as int, i),
{
    let n = (width as usize) * (height as usize);
    (0..n).into_par_iter().map(|i| hsl_at(pixels, width, height, i)).collect()
}

/// One clamped luminance tap read back out of the precomputed luma field.
fn luma_tap(
    lumas: &Vec<u8>,
    pixels: &Vec<u8>,
    width: u32,
    height: u32,
    x: u32,
    y: u32,
    dx: i32,
    dy: i32,
) -> (t: u8)
    requires
        width >= 1,
        height >= 1,
        x < width,
        y < height,
        -1 <= dx <= 1,
        -1 <= dy <= 1,
        width as int * height as int <= u32::MAX as int,
        raster::spec_buffer_sized(pixels@, width as int, height as int),
        lumas@.len() == width as int * height as int,
        forall|j: int|
            0 <= j < lumas@.len() ==> lumas@[j] == spec_luma_at(
                pixels@,
                width as int,
                j % width as int,
                j / width as int,
            ),
    ensures
        t == spec_tap(
            pixels@,
            width as int,
            height as int,
            x as int,
            y as int,
            dx as int,
            dy as int,
        ),
{
    let cx: u32 = clamp_add(x, dx, width);
    let cy: u32 = clamp_add(y, dy, height);
    proof {
        assert(cy as int * width as int + cx < width as int * height as int) by (nonlinear_arith)
            requires
                0 <= cx < width,
                0 <= cy < height,
        ;
        lemma_fundamental_div_mod_converse(
            cy as int * width as int + cx as int,
            width as int,
            cy as int,
            cx as int,
        );
    }
    let idx: u32 = cy * width + cx;
    lumas[idx as usize]
}

/// Computes `spec_gx` exactly; the result is within six weighted 255 taps.
fn sobel_gx(lumas: &Vec<u8>, pixels: &Vec<u8>, width: u32, height: u32, x: u32, y: u32) -> (gx:
    i32)
    requires
        width >= 1,
        height >= 1,
        x < width,
        y < height,
        width as int * height as int <= u32::MAX as int,
        raster::spec_buffer_sized(pixels@, width as int, height as int),
        lumas@.len() == width as int * height as int,
        forall|j: int|
            0 <= j < lumas@.len() ==> lumas@[j] == spec_luma_at(
                pixels@,
                width as int,
                j % width as int,
                j / width as int,
            ),
    ensures
        gx == spec_gx(pixels@, width as int, height as int, x as int, y as int),
        -1275 <= gx <= 1275,
{
    let t_nn = luma_tap(lumas, pixels, width, height, x, y, -1, -1) as i32;
    let t_pn = luma_tap(lumas, pixels, width, height, x, y, 1, -1) as i32;
    let t_n0 = luma_tap(lumas, pixels, width, height, x, y, -1, 0) as i32;
    let t_p0 = luma_tap(lumas, pixels, width, height, x, y, 1, 0) as i32;
    let t_np = luma_tap(lumas, pixels, width, height, x, y, -1, 1) as i32;
    let t_pp = luma_tap(lumas, pixels, width, height, x, y, 1, 1) as i32;
    -t_nn - t_pn + 2 * t_n0 - 2 * t_p0 + t_np - t_pp
}

/// Computes `spec_gy` exactly; the result is within six weighted 255 taps.
fn sobel_gy(lumas: &Vec<u8>, pixels: &Vec<u8>, width: u32, height: u32, x: u32, y: u32) -> (gy:
    i32)
    requires
        width >= 1,
        height >= 1,
        x < width,
        y < height,
        width as int * height as int <= u32::MAX as int,
        raster::spec_buffer_sized(pixels@, width as int, height as int),
        lumas@.len() == width as int * height as int,
        forall|j: int|
            0 <= j < lumas@.len() ==> lumas@[j] == spec_luma_at(
                pixels@,
                width as int,
                j % width as int,
                j / width as int,
            ),
    ensures
        gy == spec_gy(pixels@, width as int, height as int, x as int, y as int),
        -1275 <= gy <= 1275,
{
    let t_nn = luma_tap(lumas, pixels, width, height, x, y, -1, -1) as i32;
    let t_0n = luma_tap(lumas, pixels, width, height, x, y, 0, -1) as i32;
    let t_pn = luma_tap(lumas, pixels, width, height, x, y, 1, -1) as i32;
    let t_np = luma_tap(lumas, pixels, width, height, x, y, -1, 1) as i32;
    let t_0p = luma_tap(lumas, pixels, width, height, x, y, 0, 1) as i32;
    let t_pp = luma_tap(lumas, pixels, width, height, x, y, 1, 1) as i32;
    t_nn + 2 * t_0n + t_pn - t_np - 2 * t_0p - t_pp
}

/// Law: the gradient magnitude lies in `[0, 1]` — in per-mille, `[0, 1000]`
/// — whatever the edge responses: the square-root compression saturates
/// at 1.0.
pub proof fn lemma_magnitude_in_range(gx: int, gy: int)
    ensures
        0 <= spec_magnitude(gx, gy) <= 1000,
{
    assert(gx * gx + gy * gy >= 0) by (nonlinear_arith);
    assert((gx * gx + gy * gy) * 1_000_000 >= 0) by (nonlinear_arith)
        requires
            gx * gx + gy * gy >= 0,
    ;
    let r2 = (gx * gx + gy * gy) * 1_000_000 / 65_025;
    assert(r2 >= 0);
    fixmath::lemma_isqrt(r2);
    let radius = fixmath::spec_isqrt(r2);
    fixmath::lemma_isqrt(radius * 1000);
}

/// Computes `spec_magnitude` exactly; the result is in per-mille range.
pub fn magnitude_milli(gx: i32, gy: i32) -> (m: u32)
    requires
        -1275 <= gx <= 1275,
        -1275 <= gy <= 1275,
    ensures
        m == spec_magnitude(gx as int, gy as int),
        m <= 1000,
{
    proof {
        assert(0 <= gx as int * gx as int <= 1_625_625 && 0 <= gy as int * gy as int
            <= 1_625_625) by (nonlinear_arith)
            requires
                -1275 <= gx <= 1275,
                -1275 <= gy <= 1275,
        ;
    }
    let sq: u64 = ((gx as i64) * (gx as i64) + (gy as i64) * (gy as i64)) as u64;
    let r2: u64 = sq * 1_000_000 / 65_025;
    let radius: u64 = fixmath::isqrt64(r2);
    proof {
        assert(radius <= 7071) by (nonlinear_arith)
            requires
                radius as int * radius as int <= r2 as int,
                r2 <= 50_003_845,
                radius >= 0,
        ;
    }
    let m: u64 = fixmath::isqrt64(radius * 1000);
    if m > 1000 {
        1000
    } else {
        m as u32
    }
}

/// Computes `spec_angle` exactly; the result is within about half pi
/// squared, in milli-radians.
pub fn gradient_angle(gx: i32, gy: i32) -> (a: i32)
    requires
        -1275 <= gx <= 1275,
        -1275 <= gy <= 1275,
    ensures
        a == spec_angle(gx as int, gy as int),
        -4937 <= a <= 4937,
{
    let base: i32 = fixmath::atan2_milli(gy, gx);
    if base >= 0 {
        let wide: i64 = (base as i64) * 3142 / 2000;
        proof {
            assert(0 <= (base as int) * 3142 / 2000 <= 4937) by (nonlinear_arith)
                requires
                    0 <= base <= 3142,
            ;
        }
        wide as i32
    } else {
        let wide: i64 = ((-base) as i64) * 3142 / 2000;
        proof {
            assert(0 <= (-(base as int)) * 3142 / 2000 <= 4937) by (nonlinear_arith)
                requires
                    -3142 <= base < 0,
            ;
        }
        -(wide as i32)
    }
}

/// Builds the target record from a decoded RGBA image: the HSL field, the
/// gradient-magnitude field and the gradient-angle field, each of length
/// `width * height`.
#[verifier::loop_isolation(false)]
pub fn analyze_target(pixels: &Vec<u8>, width: u32, height: u32) -> (t: Target)
    requires
        width >= 1,
        height >= 1,
        raster::spec_buffer_sized(pixels@, width as int, height as int),
        width as int * height as int <= u32::MAX as int,
    ensures
        t.wf(),
        t.dimensions == (width, height),
        t.hsls@.len() == width as int * height as int,
        t.magnitudes@.len() == width as int * height as int,
        t.angles@.len() == width as int * height as int,
        forall|i: int|
            0 <= i < t.hsls@.len() ==> t.hsls@[i] == spec_hsl_at(pixels@, width as int, i),
        forall|i: int|
            0 <= i < t.magnitudes@.len() ==> t.magnitudes@[i] == spec_magnitude_at(
                pixels@,
                width as int,
                height as int,
                i,
            ),
        forall|i: int|
            0 <= i < t.angles@.len() ==> t.angles@[i] == spec_angle_at(
                pixels@,
                width as int,
                height as int,
                i,
            ),
{
    let n: usize = (width as usize) * (height as usize);
    let mut lumas: Vec<u8> = Vec::new();
    let mut i: usize = 0;
    while i < n
        invariant
            i <= n,
            lumas@.len() == i,
            forall|j: int|
                0 <= j < i ==> lumas@[j] == spec_luma_at(
                    pixels@,
                    width as int,
                    j % width as int,
                    j / width as int,
                ),
        decreases n - i,
    {
        proof {
            lemma_row_major(width as int, height as int, i as int);
        }
        let xi: u32 = (i as u32) % width;
        let yi: u32 = (i as u32) / width;
        let p = raster::pixel_at(pixels, width, height, xi, yi);
        lumas.push(luma(p));
        i = i + 1;
    }
    let hsls = par_hsl_field(pixels, width, height);
    let mut magnitudes: Vec<u32> = Vec::new();
    let mut angles: Vec<i32> = Vec::new();
    let mut i: usize = 0;
    while i < n
        invariant
            i <= n,
            magnitudes@.len() == i,
            angles@.len() == i,
            forall|j: int| 0 <= j < i ==> magnitudes@[j] <= 1000,
            forall|j: int|
                0 <= j < i ==> magnitudes@[j] == spec_magnitude_at(
                    pixels@,
                    width as int,
                    height as int,
                    j,
                ),
            forall|j: int|
                0 <= j < i ==> angles@[j] == spec_angle_at(
                    pixels@,
                    width as int,
                    height as int,
                    j,
                ),
        decreases n - i,
    {
        proof {
            lemma_row_major(width as int, height as int, i as int);
        }
        let xi: u32 = (i as u32) % width;
        let yi: u32 = (i as u32) / width;
        let gx = sobel_gx(&lumas, pixels, width, height, xi, yi);
        let gy = sobel_gy(&lumas, pixels, width, height, xi, yi);
        magnitudes.push(magnitude_milli(gx, gy));
        angles.push(gradient_angle(gx, gy));
        i = i + 1;
    }
    proof {
        assert forall|j: int| 0 <= j < hsls@.len() implies (#[trigger] hsls@[j]).h < 360_000
            && hsls@[j].s <= 100_000 && hsls@[j].l <= 100_000 by {
            let p = raster::spec_pixel(pixels@, width as int, j % width as int, j / width as int);
            color::lemma_hsl_in_range(p.r, p.g, p.b);
        }
    }
    Target { dimensions: (width, height), hsls, magnitudes, angles }
}

} // verus!
