//! Colors and the fixed-point RGB -> HSL conversion.
//!
//! The engine compares pixels in HSL space. Hue is held in milli-degrees
//! (`0 ..= 359_999`), saturation and lightness in milli-percent
//! (`0 ..= 100_000`). The conversion is the standard six-sector formula,
//! with every division arranged over non-negative operands so that the
//! executable (truncating) and mathematical (Euclidean) quotients agree.

use vstd::prelude::*;

verus! {

/// One color channel triple on the usual 8-bit scale.
#[derive(Clone, Copy, Debug, PartialEq, Eq, Structural)]
pub struct Rgb {
    pub r: u8,
    pub g: u8,
    pub b: u8,
}

/// A color in fixed-point HSL form: hue in milli-degrees, saturation and
/// lightness in milli-percent.
#[derive(Clone, Copy, Debug, PartialEq, Eq, Structural)]
pub struct Hsl {
    pub h: u32,
    pub s: u32,
    pub l: u32,
}

/// Hue of one full turn, in milli-degrees.
pub const HUE_FULL: u32 = 360_000;

/// Saturation or lightness of 1.0 (100%), in milli-percent.
pub const PCT_FULL: u32 = 100_000;

pub open spec fn spec_max3(r: u8, g: u8, b: u8) -> int {
    if r >= g && r >= b {
        r as int
    } else if g >= b {
        g as int
    } else {
        b as int
    }
}

pub open spec fn spec_min3(r: u8, g: u8, b: u8) -> int {
    if r <= g && r <= b {
        r as int
    } else if g <= b {
        g as int
    } else {
        b as int
    }
}

/// Lightness in milli-percent: `(max + min) / (2 * 255)`, rescaled so that
/// `max + min == 510` maps to exactly `100_000`.
pub open spec fn spec_light(r: u8, g: u8, b: u8) -> int {
    (spec_max3(r, g, b) + spec_min3(r, g, b)) * 10_000 / 51
}

/// Saturation in milli-percent: `delta / (max + min)` below half lightness,
/// `delta / (2*255 - max - min)` above it, zero on gray.
pub open spec fn spec_sat(r: u8, g: u8, b: u8) -> int {
    let mx = spec_max3(r, g, b);
    let mn = spec_min3(r, g, b);
    let delta = mx - mn;
    if delta == 0 {
        0
    } else if mx + mn <= 255 {
        delta * 100_000 / (mx + mn)
    } else {
        delta * 100_000 / (510 - mx - mn)
    }
}

/// Hue in milli-degrees by the six-sector formula. The sector is chosen by
/// the largest channel, with red taking precedence over green over blue.
pub open spec fn spec_hue(r: u8, g: u8, b: u8) -> int {
    let mx = spec_max3(r, g, b);
    let mn = spec_min3(r, g, b);
    let delta = mx - mn;
    if delta == 0 {
        0
    } else if mx == r as int {
        if g >= b {
            60_000 * (g - b) / delta
        } else {
            360_000 - 60_000 * (b - g) / delta
        }
    } else if mx == g as int {
        if b >= r {
            120_000 + 60_000 * (b - r) / delta
        } else {
            120_000 - 60_000 * (r - b) / delta
        }
    } else {
        if r >= g {
            240_000 + 60_000 * (r - g) / delta
        } else {
            240_000 - 60_000 * (g - r) / delta
        }
    }
}

pub open spec fn spec_rgb_to_hsl(c: Rgb) -> Hsl {
    Hsl {
        h: spec_hue(c.r, c.g, c.b) as u32,
        s: spec_sat(c.r, c.g, c.b) as u32,
        l: spec_light(c.r, c.g, c.b) as u32,
    }
}

/// The three HSL components always land in their fixed-point ranges.
pub proof fn lemma_hsl_in_range(r: u8, g: u8, b: u8)
    ensures
        0 <= spec_hue(r, g, b) < 360_000,
        0 <= spec_sat(r, g, b) <= 100_000,
        0 <= spec_light(r, g, b) <= 100_000,
{
    let mx = spec_max3(r, g, b);
    let mn = spec_min3(r, g, b);
    let delta = mx - mn;
    assert(0 <= mn <= mx <= 255);
    assert((mx + mn) * 10_000 / 51 <= 100_000) by (nonlinear_arith)
        requires
            0 <= mx + mn <= 510,
    ;
    assert(0 <= (mx + mn) * 10_000 / 51) by (nonlinear_arith)
        requires
            0 <= mx + mn,
    ;
    if delta != 0 {
        if mx + mn <= 255 {
            assert(delta <= mx + mn);
            assert(0 <= delta * 100_000 / (mx + mn) <= 100_000) by (nonlinear_arith)
                requires
                    0 < delta <= mx + mn,
            ;
        } else {
            assert(delta <= 510 - mx - mn) by {
                assert(mx <= 255 && mn <= 255);
            }
            assert(0 <= delta * 100_000 / (510 - mx - mn) <= 100_000) by (nonlinear_arith)
                requires
                    0 < delta <= 510 - mx - mn,
            ;
        }
        if mx == r as int {
            if g >= b {
                assert(0 <= 60_000 * (g - b) / delta <= 60_000) by (nonlinear_arith)
                    requires
                        0 < delta,
                        0 <= g - b <= delta,
                ;
            } else {
                assert(0 < 60_000 * (b - g) / delta <= 60_000) by (nonlinear_arith)
                    requires
                        0 < delta <= 255,
                        0 < b - g <= delta,
                ;
            }
        } else if mx == g as int {
            if b >= r {
                assert(0 <= 60_000 * (b - r) / delta <= 60_000) by (nonlinear_arith)
                    requires
                        0 < delta,
                        0 <= b - r <= delta,
                ;
            } else {
                assert(0 <= 60_000 * (r - b) / delta <= 60_000) by (nonlinear_arith)
                    requires
                        0 < delta,
                        0 <= r - b <= delta,
                ;
            }
        } else {
            if r >= g {
                assert(0 <= 60_000 * (r - g) / delta <= 60_000) by (nonlinear_arith)
                    requires
                        0 < delta,
                        0 <= r - g <= delta,
                ;
            } else {
                assert(0 <= 60_000 * (g - r) / delta <= 60_000) by (nonlinear_arith)
                    requires
                        0 < delta,
                        0 <= g - r <= delta,
                ;
            }
        }
    }
}

/// Converts one 8-bit RGB triple to fixed-point HSL.
pub fn rgb_to_hsl(c: Rgb) -> (out: Hsl)
    ensures
        out == spec_rgb_to_hsl(c),
        out.h < 360_000,
        out.s <= 100_000,
        out.l <= 100_000,
{
    proof {
        lemma_hsl_in_range(c.r, c.g, c.b);
    }
    let r = c.r as u32;
    let g = c.g as u32;
    let b = c.b as u32;
    let mx: u32 = if r >= g && r >= b {
        r
    } else if g >= b {
        g
    } else {
        b
    };
    let mn: u32 = if r <= g && r <= b {
        r
    } else if g <= b {
        g
    } else {
        b
    };
    let delta: u32 = mx - mn;
    let l: u32 = (mx + mn) * 10_000 / 51;
    let s: u32 = if delta == 0 {
        0
    } else if mx + mn <= 255 {
        delta * 100_000 / (mx + mn)
    } else {
        delta * 100_000 / (510 - mx - mn)
    };
    let h: u32 = if delta == 0 {
        0
    } else if mx == r {
        if g >= b {
            60_000 * (g - b) / delta
        } else {
            360_000 - 60_000 * (b - g) / delta
        }
    } else if mx == g {
        if b >= r {
            120_000 + 60_000 * (b - r) / delta
        } else {
            120_000 - 60_000 * (r - b) / delta
        }
    } else {
        if r >= g {
            240_000 + 60_000 * (r - g) / delta
        } else {
            240_000 - 60_000 * (g - r) / delta
        }
    };
    Hsl { h, s, l }
}

/// The perceptual distance of two HSL pixels: the hue difference de-weighted
/// by four, plus the saturation and lightness differences.
pub open spec fn spec_hsl_distance(a: Hsl, b: Hsl) -> int {
    abs_diff_int(a.h as int, b.h as int) / 4 + abs_diff_int(a.s as int, b.s as int)
        + abs_diff_int(a.l as int, b.l as int)
}

pub open spec fn abs_diff_int(a: int, b: int) -> int {
    if a >= b {
        a - b
    } else {
        b - a
    }
}

/// Largest value `spec_hsl_distance` can take on in-range HSL pixels.
pub const DISTANCE_BOUND: u64 = 290_000;

/// Computes the per-pixel HSL distance.
pub fn hsl_distance(a: Hsl, b: Hsl) -> (d: u64)
    requires
        a.h < 360_000,
        a.s <= 100_000,
        a.l <= 100_000,
        b.h < 360_000,
        b.s <= 100_000,
        b.l <= 100_000,
    ensures
        d == spec_hsl_distance(a, b),
        d <= DISTANCE_BOUND,
{
    let dh: u64 = if a.h >= b.h {
        (a.h - b.h) as u64
    } else {
        (b.h - a.h) as u64
    };
    let ds: u64 = if a.s >= b.s {
        (a.s - b.s) as u64
    } else {
        (b.s - a.s) as u64
    };
    let dl: u64 = if a.l >= b.l {
        (a.l - b.l) as u64
    } else {
        (b.l - a.l) as u64
    };
    dh / 4 + ds + dl
}

} // verus!
