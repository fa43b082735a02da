//! Fixed-point numeric helpers: integer square root, a rational sine
//! approximation, and a fixed-point two-argument arctangent.
//!
//! Angles are held in milli-radians, so one half turn is `PI_MILLI`. Sines
//! and cosines come back in per-mille of 1.0.

use vstd::prelude::*;

verus! {

/// One half turn, in milli-radians.
pub const PI_MILLI: u32 = 3142;

/// One quarter turn, in milli-radians.
pub const HALF_PI_MILLI: u32 = 1571;

/// `r` is the floor of the square root of `x`.
pub open spec fn is_sqrt(x: int, r: int) -> bool {
    0 <= r && r * r <= x && x < (r + 1) * (r + 1)
}

/// The floor of the square root of a non-negative number.
pub open spec fn spec_isqrt(x: int) -> int {
    choose|r: int| #[trigger] is_sqrt(x, r)
}

pub proof fn lemma_isqrt_exists(x: int)
    requires
        0 <= x,
    ensures
        exists|r: int| #[trigger] is_sqrt(x, r),
    decreases x,
{
    if x == 0 {
        assert(is_sqrt(0, 0));
    } else {
        lemma_isqrt_exists(x - 1);
        let r = choose|r: int| #[trigger] is_sqrt(x - 1, r);
        if x < (r + 1) * (r + 1) {
            assert(is_sqrt(x, r));
        } else {
            assert(x == (r + 1) * (r + 1));
            assert((r + 2) * (r + 2) > x) by (nonlinear_arith)
                requires
                    x == (r + 1) * (r + 1),
                    r >= 0,
            ;
            assert(is_sqrt(x, r + 1));
        }
    }
}

pub proof fn lemma_isqrt_unique(x: int, a: int, b: int)
    requires
        is_sqrt(x, a),
        is_sqrt(x, b),
    ensures
        a == b,
{
    assert(a == b) by (nonlinear_arith)
        requires
            0 <= a && a * a <= x && x < (a + 1) * (a + 1),
            0 <= b && b * b <= x && x < (b + 1) * (b + 1),
    ;
}

/// `spec_isqrt` really is the floor of the square root.
pub proof fn lemma_isqrt(x: int)
    requires
        0 <= x,
    ensures
        is_sqrt(x, spec_isqrt(x)),
{
    lemma_isqrt_exists(x);
}

/// Floor of the square root: the largest `r` with `r * r <= x`.
pub fn isqrt64(x: u64) -> (r: u64)
    ensures
        r * r <= x,
        x < (r + 1) * (r + 1),
        r < 0x1_0000_0000,
        r == spec_isqrt(x as int),
{
    let mut lo: u64 = 0;
    let mut hi: u64 = 0x1_0000_0000;
    while lo + 1 < hi
        invariant
            lo < hi <= 0x1_0000_0000,
            lo * lo <= x,
            x < (hi as int) * (hi as int),
        decreases hi - lo,
    {
        let mid = lo + (hi - lo) / 2;
        proof {
            assert(mid < hi);
            assert((mid as int) * (mid as int) < 0x1_0000_0000_0000_0000) by (nonlinear_arith)
                requires
                    0 <= mid < 0x1_0000_0000,
            ;
        }
        if mid * mid <= x {
            lo = mid;
        } else {
            hi = mid;
        }
    }
    proof {
        lemma_isqrt(x as int);
        lemma_isqrt_unique(x as int, lo as int, spec_isqrt(x as int));
    }
    lo
}

/// Sine on the first half turn by Bhaskara's rational approximation,
/// `sin x ~ 16 x (pi - x) / (5 pi^2 - 4 x (pi - x))`, in per-mille.
/// The argument is in milli-radians, `0 <= x < PI_MILLI`.
pub open spec fn spec_sin_half(x: int) -> int {
    16_000 * (x * (3142 - x)) / (49_360_820 - 4 * (x * (3142 - x)))
}

pub proof fn lemma_sin_half_bounds(x: int)
    requires
        0 <= x < 3142,
    ensures
        0 <= spec_sin_half(x) <= 1000,
{
    let p = x * (3142 - x);
    assert(0 <= p <= 2_468_041) by (nonlinear_arith)
        requires
            0 <= x < 3142,
            p == x * (3142 - x),
    ;
    assert(0 <= 16_000 * p / (49_360_820 - 4 * p) <= 1000) by (nonlinear_arith)
        requires
            0 <= p <= 2_468_041,
    ;
}

/// Computes `spec_sin_half` exactly.
pub fn sin_half_milli(x: u32) -> (r: u32)
    requires
        x < 3142,
    ensures
        r == spec_sin_half(x as int),
        r <= 1000,
{
    proof {
        lemma_sin_half_bounds(x as int);
    }
    proof {
        assert((x as int) * (3142 - x as int) <= 2_468_041) by (nonlinear_arith)
            requires
                0 <= x < 3142,
        ;
    }
    let p: u64 = (x as u64) * ((3142 - x) as u64);
    let num: u64 = 16_000 * p;
    let den: u64 = 49_360_820 - 4 * p;
    (num / den) as u32
}

pub open spec fn abs_int(a: int) -> int {
    if a >= 0 {
        a
    } else {
        -a
    }
}

/// Magnitude of the sine of any milli-radian angle, in per-mille; `|sin|`
/// repeats every half turn.
pub open spec fn spec_abs_sin(a: int) -> int {
    spec_sin_half(abs_int(a) % 3142)
}

/// Magnitude of the cosine of any milli-radian angle, in per-mille, read off
/// the sine a quarter turn ahead.
pub open spec fn spec_abs_cos(a: int) -> int {
    spec_sin_half((abs_int(a) + 1571) % 3142)
}

/// Computes `spec_abs_sin` exactly.
pub fn abs_sin_milli(a: i32) -> (r: u32)
    ensures
        r == spec_abs_sin(a as int),
        r <= 1000,
{
    let wide: i64 = a as i64;
    let m: u64 = if wide >= 0 {
        wide as u64
    } else {
        (-wide) as u64
    };
    let folded: u32 = (m % (PI_MILLI as u64)) as u32;
    proof {
        lemma_sin_half_bounds(folded as int);
    }
    sin_half_milli(folded)
}

/// Computes `spec_abs_cos` exactly.
pub fn abs_cos_milli(a: i32) -> (r: u32)
    ensures
        r == spec_abs_cos(a as int),
        r <= 1000,
{
    let wide: i64 = a as i64;
    let m: u64 = if wide >= 0 {
        wide as u64
    } else {
        (-wide) as u64
    };
    let folded: u32 = ((m + HALF_PI_MILLI as u64) % (PI_MILLI as u64)) as u32;
    proof {
        assert((m + 1571) % 3142 == (m % 3142 + 1571) % 3142) by (nonlinear_arith);
        lemma_sin_half_bounds(folded as int);
    }
    sin_half_milli(folded)
}

/// Arctangent on `[0, 1]` by the quadratic approximation
/// `atan z ~ (pi/4) z + 0.273 z (1 - z)`. Argument and result in
/// per-mille / milli-radians.
pub open spec fn spec_atan_milli(z: int) -> int {
    785 * z / 1000 + 273 * z * (1000 - z) / 1_000_000
}

pub proof fn lemma_atan_milli_bounds(z: int)
    requires
        0 <= z <= 1000,
    ensures
        0 <= spec_atan_milli(z) <= 853,
{
    assert(0 <= 785 * z / 1000 <= 785) by (nonlinear_arith)
        requires
            0 <= z <= 1000,
    ;
    assert(0 <= 273 * z * (1000 - z) / 1_000_000 <= 68) by (nonlinear_arith)
        requires
            0 <= z <= 1000,
    ;
}

/// Computes `spec_atan_milli` exactly.
pub fn atan_milli(z: u32) -> (r: u32)
    requires
        z <= 1000,
    ensures
        r == spec_atan_milli(z as int),
        r <= 853,
{
    proof {
        lemma_atan_milli_bounds(z as int);
    }
    785 * z / 1000 + 273 * z * (1000 - z) / 1_000_000
}

/// Two-argument arctangent in milli-radians, by octant reduction onto
/// `spec_atan_milli`. Zero on the zero vector; otherwise in
/// `[-PI_MILLI, PI_MILLI]`.
pub open spec fn spec_atan2_milli(gy: int, gx: int) -> int {
    if gx == 0 && gy == 0 {
        0
    } else {
        let ax = abs_int(gx);
        let ay = abs_int(gy);
        let base = if ax >= ay {
            spec_atan_milli(ay * 1000 / ax)
        } else {
            1571 - spec_atan_milli(ax * 1000 / ay)
        };
        if gx >= 0 && gy >= 0 {
            base
        } else if gx < 0 && gy >= 0 {
            3142 - base
        } else if gx < 0 {
            -(3142 - base)
        } else {
            -base
        }
    }
}

pub proof fn lemma_atan2_milli_bounds(gy: int, gx: int)
    ensures
        -3142 <= spec_atan2_milli(gy, gx) <= 3142,
{
    if !(gx == 0 && gy == 0) {
        let ax = abs_int(gx);
        let ay = abs_int(gy);
        if ax >= ay {
            assert(0 <= ay * 1000 / ax <= 1000) by (nonlinear_arith)
                requires
                    0 <= ay <= ax,
                    0 < ax,
            ;
            lemma_atan_milli_bounds(ay * 1000 / ax);
        } else {
            assert(0 <= ax * 1000 / ay <= 1000) by (nonlinear_arith)
                requires
                    0 <= ax < ay,
            ;
            lemma_atan_milli_bounds(ax * 1000 / ay);
        }
    }
}

/// Computes `spec_atan2_milli` exactly.
pub fn atan2_milli(gy: i32, gx: i32) -> (r: i32)
    requires
        -1_000_000 <= gy <= 1_000_000,
        -1_000_000 <= gx <= 1_000_000,
    ensures
        r == spec_atan2_milli(gy as int, gx as int),
        -3142 <= r <= 3142,
{
    proof {
        lemma_atan2_milli_bounds(gy as int, gx as int);
    }
    if gx == 0 && gy == 0 {
        return 0;
    }
    let ax: u64 = if gx >= 0 {
        gx as u64
    } else {
        (-gx) as u64
    };
    let ay: u64 = if gy >= 0 {
        gy as u64
    } else {
        (-gy) as u64
    };
    let base: u32 = if ax >= ay {
        let z = (ay * 1000 / ax) as u32;
        assert(z <= 1000) by (nonlinear_arith)
            requires
                z == ay * 1000 / ax as int,
                0 <= ay <= ax,
                0 < ax,
        ;
        atan_milli(z)
    } else {
        let z = (ax * 1000 / ay) as u32;
        assert(z <= 1000) by (nonlinear_arith)
            requires
                z == ax * 1000 / ay as int,
                0 <= ax < ay,
        ;
        HALF_PI_MILLI - atan_milli(z)
    };
    if gx >= 0 && gy >= 0 {
        base as i32
    } else if gx < 0 && gy >= 0 {
        3142 - base as i32
    } else if gx < 0 {
        -(3142 - base as i32)
    } else {
        -(base as i32)
    }
}

} // verus!
