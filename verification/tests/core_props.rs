//! Tests of the analysis-side building blocks: colors, fixed-point math,
//! the generator, the palette sampler and the target analyzer.

use digpaint::color::{hsl_distance, rgb_to_hsl, Hsl, Rgb};
use digpaint::fixmath::{abs_cos_milli, abs_sin_milli, atan2_milli, isqrt64};
use digpaint::palette::init_palette;
use digpaint::rng::Rng64;
use digpaint::target::analyze_target;

/// A solid RGBA image, alpha 255.
fn solid(w: u32, h: u32, r: u8, g: u8, b: u8) -> Vec<u8> {
    let mut v = Vec::new();
    for _ in 0..(w as usize * h as usize) {
        v.push(r);
        v.push(g);
        v.push(b);
        v.push(255);
    }
    v
}

#[test]
fn hsl_of_primaries() {
    // Pure red: hue 0, full saturation, half lightness.
    let red = rgb_to_hsl(Rgb { r: 255, g: 0, b: 0 });
    assert_eq!(red, Hsl { h: 0, s: 100_000, l: 50_000 });
    // Pure green sits a third of the way around.
    let green = rgb_to_hsl(Rgb { r: 0, g: 255, b: 0 });
    assert_eq!(green, Hsl { h: 120_000, s: 100_000, l: 50_000 });
    // Pure blue at two thirds.
    let blue = rgb_to_hsl(Rgb { r: 0, g: 0, b: 255 });
    assert_eq!(blue, Hsl { h: 240_000, s: 100_000, l: 50_000 });
    // A gray has no hue and no saturation; 127+127 maps to 49803 milli-pct.
    let gray = rgb_to_hsl(Rgb { r: 127, g: 127, b: 127 });
    assert_eq!(gray, Hsl { h: 0, s: 0, l: 49_803 });
    // White is full lightness.
    let white = rgb_to_hsl(Rgb { r: 255, g: 255, b: 255 });
    assert_eq!(white, Hsl { h: 0, s: 0, l: 100_000 });
}

#[test]
fn hsl_distance_weighs_hue_by_a_quarter() {
    let a = Hsl { h: 40_000, s: 10_000, l: 20_000 };
    let b = Hsl { h: 0, s: 0, l: 0 };
    // 40000/4 + 10000 + 20000
    assert_eq!(hsl_distance(a, b), 40_000);
    assert_eq!(hsl_distance(b, a), 40_000);
    assert_eq!(hsl_distance(a, a), 0);
}

#[test]
fn isqrt_exact_values() {
    assert_eq!(isqrt64(0), 0);
    assert_eq!(isqrt64(1), 1);
    assert_eq!(isqrt64(3), 1);
    assert_eq!(isqrt64(4), 2);
    assert_eq!(isqrt64(999_999), 999);
    assert_eq!(isqrt64(1_000_000), 1000);
    assert_eq!(isqrt64(u64::MAX), 0xffff_ffff);
}

#[test]
fn trig_fixed_points() {
    // sin 0 = 0, sin(pi/2) = 1, cos 0 = 1 in per-mille.
    assert_eq!(abs_sin_milli(0), 0);
    assert_eq!(abs_sin_milli(1571), 1000);
    assert_eq!(abs_cos_milli(0), 1000);
    // |sin| repeats every half turn.
    assert_eq!(abs_sin_milli(3142), 0);
    assert_eq!(abs_sin_milli(-1571), 1000);
    // atan2 of a vector on the positive x axis is zero; straight up is a
    // quarter turn.
    assert_eq!(atan2_milli(0, 100), 0);
    assert_eq!(atan2_milli(100, 0), 1571);
}

#[test]
fn rng_seeded_runs_agree() {
    let mut a = Rng64::new(42);
    let mut b = Rng64::new(42);
    for _ in 0..100 {
        assert_eq!(a.next_u64(), b.next_u64());
    }
    let mut c = Rng64::new(7);
    for _ in 0..100 {
        let d = c.next_below(10);
        assert!(d < 10);
    }
}

#[test]
fn uniform_gray_gives_one_gray_palette_entry() {
    // A 4x4 uniform-gray source under a 4x4 block gives a palette of
    // exactly one color, and that color is the gray itself.
    let pixels = solid(4, 4, 127, 127, 127);
    let palette = init_palette(&pixels, 4, 4, 4, 4);
    assert_eq!(palette.colors.len(), 1);
    assert_eq!(palette.colors[0], Rgb { r: 127, g: 127, b: 127 });
}

#[test]
fn palette_blend_weighs_later_pixels_more() {
    // Two pixels in one 2x1 block: black then white. The running blend is
    // gray(127) -> 63 -> (63+255)/2 = 159, not the true mean 127.
    let pixels = vec![0, 0, 0, 255, 255, 255, 255, 255];
    let palette = init_palette(&pixels, 2, 1, 2, 1);
    assert_eq!(palette.colors.len(), 1);
    assert_eq!(palette.colors[0], Rgb { r: 159, g: 159, b: 159 });
}

#[test]
fn palette_drops_partial_blocks() {
    // A 5x3 source under 2x2 blocks has only 2x1 full blocks.
    let pixels = solid(5, 3, 10, 20, 30);
    let palette = init_palette(&pixels, 5, 3, 2, 2);
    assert_eq!(palette.colors.len(), 2);
}

#[test]
fn analyzer_fields_have_one_entry_per_pixel() {
    let mut pixels = Vec::new();
    // A 3x2 image with varied colors.
    for (r, g, b) in [
        (255, 0, 0),
        (0, 255, 0),
        (0, 0, 255),
        (255, 255, 255),
        (0, 0, 0),
        (127, 127, 127),
    ] {
        pixels.push(r);
        pixels.push(g);
        pixels.push(b);
        pixels.push(255);
    }
    let t = analyze_target(&pixels, 3, 2);
    assert_eq!(t.dimensions, (3, 2));
    assert_eq!(t.hsls.len(), 6);
    assert_eq!(t.magnitudes.len(), 6);
    assert_eq!(t.angles.len(), 6);
    // Magnitudes stay in per-mille range after the square-root compression.
    for m in &t.magnitudes {
        assert!(*m <= 1000);
    }
    // The HSL field really holds the conversion of each pixel.
    assert_eq!(t.hsls[0], Hsl { h: 0, s: 100_000, l: 50_000 });
    assert_eq!(t.hsls[1], Hsl { h: 120_000, s: 100_000, l: 50_000 });
    assert_eq!(t.hsls[2], Hsl { h: 240_000, s: 100_000, l: 50_000 });
    assert_eq!(t.hsls[3], Hsl { h: 0, s: 0, l: 100_000 });
}

#[test]
fn flat_image_has_zero_gradient() {
    // Flat black: every luminance tap is zero, so both kernels respond
    // zero. (A flat non-black image keeps a response: the horizontal
    // kernel's weights do not sum to zero, a quirk that is preserved.)
    let pixels = solid(4, 4, 0, 0, 0);
    let t = analyze_target(&pixels, 4, 4);
    for m in &t.magnitudes {
        assert_eq!(*m, 0);
    }
    for a in &t.angles {
        assert_eq!(*a, 0);
    }
}

#[test]
fn sharp_edge_saturates_magnitude() {
    // A hard vertical black/white edge on a 4x4 canvas: the columns next to
    // the edge see the kernels' strongest response, which saturates at 1.0.
    let mut pixels = Vec::new();
    for _y in 0..4 {
        for x in 0..4 {
            let v = if x < 2 { 0 } else { 255 };
            pixels.push(v);
            pixels.push(v);
            pixels.push(v);
            pixels.push(255);
        }
    }
    let t = analyze_target(&pixels, 4, 4);
    let mut max_m = 0;
    for m in &t.magnitudes {
        assert!(*m <= 1000);
        if *m > max_m {
            max_m = *m;
        }
    }
    assert_eq!(max_m, 1000);
}
