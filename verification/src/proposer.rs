//! Stroke proposal: one randomized candidate per call, biased toward edges.
//!
//! A position is rejection-sampled: uniform draws are taken until one lands
//! on a pixel whose gradient magnitude passes the level's minimum. The loop
//! is capped; if no draw qualifies within the cap, the best-seen position is
//! used instead, so proposal always terminates. Rotation comes from the
//! gradient angle at the chosen position; scale is drawn from the level's
//! range; color, opacity and brush are drawn uniformly.
//!
//! Every draw comes from the engine's own seedable generator, so the whole
//! proposal is a pure function of the inputs and the generator state.

use crate::color::Rgb;
use crate::palette::Palette;
use crate::rng::Rng64;
use crate::rng::spec_below;
use crate::rng::spec_next_state;
use crate::strokes::Brush;
use crate::strokes::Image;
use crate::strokes::Stroke;
use crate::target::Target;
use vstd::prelude::*;

verus! {

/// How many random positions one proposal may try before it falls back to
/// the best position seen.
pub const PLACEMENT_RETRY_CAP: u32 = 64;

/// The level-indexed minimum gradient magnitude (per-mille) a sampled
/// position must meet; levels past the last entry read the last entry.
pub open spec fn spec_min_magnitude(level: int) -> u32 {
    if level <= 0 {
        0
    } else if level == 1 {
        100
    } else if level == 2 {
        300
    } else if level == 3 {
        500
    } else if level == 4 {
        600
    } else {
        700
    }
}

/// The level-indexed lower scale bound, in per-mille of the brush's native
/// size; coarser levels propose larger strokes.
pub open spec fn spec_scale_lo(level: int) -> u32 {
    if level <= 0 {
        500
    } else if level == 1 {
        300
    } else if level == 2 {
        200
    } else if level == 3 {
        100
    } else if level == 4 {
        50
    } else {
        20
    }
}

/// The level-indexed upper scale bound (exclusive), in per-mille.
pub open spec fn spec_scale_hi(level: int) -> u32 {
    if level <= 0 {
        1000
    } else if level == 1 {
        500
    } else if level == 2 {
        300
    } else if level == 3 {
        200
    } else if level == 4 {
        100
    } else {
        50
    }
}

/// Computes `spec_min_magnitude`.
pub fn min_magnitude(level: usize) -> (m: u32)
    ensures
        m == spec_min_magnitude(level as int),
{
    if level == 0 {
        0
    } else if level == 1 {
        100
    } else if level == 2 {
        300
    } else if level == 3 {
        500
    } else if level == 4 {
        600
    } else {
        700
    }
}

/// Computes `spec_scale_lo`.
pub fn scale_lo(level: usize) -> (m: u32)
    ensures
        m == spec_scale_lo(level as int),
{
    if level == 0 {
        500
    } else if level == 1 {
        300
    } else if level == 2 {
        200
    } else if level == 3 {
        100
    } else if level == 4 {
        50
    } else {
        20
    }
}

/// Computes `spec_scale_hi`.
pub fn scale_hi(level: usize) -> (m: u32)
    ensures
        m == spec_scale_hi(level as int),
{
    if level == 0 {
        1000
    } else if level == 1 {
        500
    } else if level == 2 {
        300
    } else if level == 3 {
        200
    } else if level == 4 {
        100
    } else {
        50
    }
}

/// The position-sampling loop as a function of the generator state: draw a
/// coordinate pair; if its gradient magnitude passes the level's minimum,
/// take it; otherwise remember the best draw and try again, at most `left`
/// more times. The fourth component says whether the cap fired and the
/// best-seen position was used instead of a qualifying one.
pub open spec fn spec_sample(
    mags: Seq<u32>,
    w: u32,
    h: u32,
    level: int,
    s: u64,
    left: nat,
    bx: u32,
    by: u32,
    bm: u32,
) -> (u32, u32, u64, bool)
    decreases left,
{
    if left == 0 {
        (bx, by, s, true)
    } else {
        let x = spec_below(s, w as u64) as u32;
        let s1 = spec_next_state(s);
        let y = spec_below(s1, h as u64) as u32;
        let s2 = spec_next_state(s1);
        let m = mags[(y as int) * (w as int) + (x as int)];
        if m >= spec_min_magnitude(level) {
            (x, y, s2, false)
        } else {
            if m >= bm {
                spec_sample(mags, w, h, level, s2, (left - 1) as nat, x, y, m)
            } else {
                spec_sample(mags, w, h, level, s2, (left - 1) as nat, bx, by, bm)
            }
        }
    }
}

/// Law: on a target none of whose gradient magnitudes meets the level's
/// minimum — a fully flat image at a strict level — no draw ever qualifies,
/// so the retry cap fires and the fall-back position is returned; sampling
/// terminates all the same.
pub proof fn lemma_sampling_cap_fires(
    mags: Seq<u32>,
    w: u32,
    h: u32,
    level: int,
    s: u64,
    left: nat,
    bx: u32,
    by: u32,
    bm: u32,
)
    requires
        w >= 1,
        h >= 1,
        mags.len() == w as int * h as int,
        forall|i: int| 0 <= i < mags.len() ==> mags[i] < spec_min_magnitude(level),
    ensures
        spec_sample(mags, w, h, level, s, left, bx, by, bm).3,
    decreases left,
{
    if left > 0 {
        let x = spec_below(s, w as u64) as u32;
        let s1 = spec_next_state(s);
        let y = spec_below(s1, h as u64) as u32;
        let s2 = spec_next_state(s1);
        assert(x < w && y < h);
        assert(0 <= (y as int) * (w as int) + (x as int) < w as int * h as int)
            by (nonlinear_arith)
            requires
                0 <= x < w,
                0 <= y < h,
        ;
        let m = mags[(y as int) * (w as int) + (x as int)];
        assert(m < spec_min_magnitude(level));
        if m >= bm {
            lemma_sampling_cap_fires(mags, w, h, level, s2, (left - 1) as nat, x, y, m);
        } else {
            lemma_sampling_cap_fires(mags, w, h, level, s2, (left - 1) as nat, bx, by, bm);
        }
    }
}

/// Rejection-samples a stroke position. The returned flag says the retry
/// cap fired: no draw within the cap met the level's minimum magnitude and
/// the best-seen position was returned instead.
#[verifier::loop_isolation(false)]
pub fn sample_position(tar: &Target, level: usize, rng: &mut Rng64) -> (r: (u32, u32, bool))
    requires
        tar.wf(),
    ensures
        (r.0, r.1, final(rng).state, r.2) == spec_sample(
            tar.magnitudes@,
            tar.dimensions.0,
            tar.dimensions.1,
            level as int,
            old(rng).state,
            PLACEMENT_RETRY_CAP as nat,
            0u32,
            0u32,
            0u32,
        ),
        r.0 < tar.dimensions.0,
        r.1 < tar.dimensions.1,
        !r.2 ==> tar.magnitudes@[(r.1 as int) * (tar.dimensions.0 as int) + (r.0 as int)]
            >= spec_min_magnitude(level as int),
{
    let w = tar.dimensions.0;
    let h = tar.dimensions.1;
    let threshold = min_magnitude(level);
    let ghost s0 = rng.state;
    let mut left: u32 = PLACEMENT_RETRY_CAP;
    let mut bx: u32 = 0;
    let mut by: u32 = 0;
    let mut bm: u32 = 0;
    while left > 0
        invariant
            left <= PLACEMENT_RETRY_CAP,
            bx < w,
            by < h,
            spec_sample(
                tar.magnitudes@,
                w,
                h,
                level as int,
                s0,
                PLACEMENT_RETRY_CAP as nat,
                0u32,
                0u32,
                0u32,
            ) == spec_sample(
                tar.magnitudes@,
                w,
                h,
                level as int,
                rng.state,
                left as nat,
                bx,
                by,
                bm,
            ),
        decreases left,
    {
        let x = rng.next_below(w as u64) as u32;
        let y = rng.next_below(h as u64) as u32;
        proof {
            assert((y as int) * (w as int) + (x as int) < (w as int) * (h as int))
                by (nonlinear_arith)
                requires
                    0 <= x < w,
                    0 <= y < h,
            ;
        }
        let m = tar.magnitudes[(y as usize) * (w as usize) + (x as usize)];
        if m >= threshold {
            return (x, y, false);
        }
        if m >= bm {
            bx = x;
            by = y;
            bm = m;
        }
        left = left - 1;
    }
    (bx, by, true)
}

/// One whole proposal as a function of the generator state: the sampled
/// position, the gradient angle there as rotation, then a brush index, a
/// scale from the level's range, a palette color and an opacity, drawn in
/// that order. Returns the stroke, the brush index and the state the
/// generator is left in.
pub open spec fn spec_propose(
    mags: Seq<u32>,
    angles: Seq<i32>,
    w: u32,
    h: u32,
    nbrushes: u64,
    colors: Seq<Rgb>,
    level: int,
    s0: u64,
) -> (Stroke, u64, u64) {
    let (x, y, s1, fell_back) = spec_sample(
        mags,
        w,
        h,
        level,
        s0,
        PLACEMENT_RETRY_CAP as nat,
        0u32,
        0u32,
        0u32,
    );
    let rotation = angles[(y as int) * (w as int) + (x as int)];
    let bidx = spec_below(s1, nbrushes);
    let s2 = spec_next_state(s1);
    let scale = spec_scale_lo(level) + spec_below(
        s2,
        (spec_scale_hi(level) - spec_scale_lo(level)) as u64,
    ) as u32;
    let s3 = spec_next_state(s2);
    let ci = spec_below(s3, colors.len() as u64);
    let s4 = spec_next_state(s3);
    let opacity = (55 + spec_below(s4, 125)) as u8;
    let s5 = spec_next_state(s4);
    let stroke = Stroke {
        position: (x, y),
        rotation,
        scale: scale as u32,
        color: colors[ci as int],
        opacity,
    };
    (stroke, bidx, s5)
}

/// Law: proposal is deterministic. Equal target fields, equal palettes and
/// brush counts, the same level and the same generator state give the same
/// stroke, the same brush choice and the same follow-up state — so a run
/// seeded the same way reproduces its whole proposal sequence.
pub proof fn lemma_propose_deterministic(
    mags1: Seq<u32>,
    angles1: Seq<i32>,
    w1: u32,
    h1: u32,
    nbrushes1: u64,
    colors1: Seq<Rgb>,
    level1: int,
    s1: u64,
    mags2: Seq<u32>,
    angles2: Seq<i32>,
    w2: u32,
    h2: u32,
    nbrushes2: u64,
    colors2: Seq<Rgb>,
    level2: int,
    s2: u64,
)
    requires
        mags1 == mags2,
        angles1 == angles2,
        w1 == w2,
        h1 == h2,
        nbrushes1 == nbrushes2,
        colors1 == colors2,
        level1 == level2,
        s1 == s2,
    ensures
        spec_propose(mags1, angles1, w1, h1, nbrushes1, colors1, level1, s1) == spec_propose(
            mags2,
            angles2,
            w2,
            h2,
            nbrushes2,
            colors2,
            level2,
            s2,
        ),
{
}

impl Image {
    /// Proposes one stroke and appends it, speculatively, to the stroke
    /// sequence: the caller renders it and either keeps it or pops it. The
    /// proposal is exactly `spec_propose` of the inputs and the generator
    /// state, and the new stroke is valid for the canvas, with its scale in
    /// the level's range, its opacity in `55 .. 180`, its color from the
    /// palette, its rotation the gradient angle at its anchor, and its
    /// brush index within the catalog.
    pub fn paint(
        self,
        brushes: &Vec<Brush>,
        palette: &Palette,
        tar: &Target,
        lod: usize,
        rng: &mut Rng64,
    ) -> (out: Image)
        requires
            tar.wf(),
            self.dimensions == tar.dimensions,
            brushes@.len() >= 1,
            palette.colors@.len() >= 1,
        ensures
            out.dimensions == self.dimensions,
            out.color == self.color,
            out.strokes@.len() == self.strokes@.len() + 1,
            forall|j: int| 0 <= j < self.strokes@.len() ==> out.strokes@[j] == self.strokes@[j],
            ({
                let (stroke, bidx, s) = spec_propose(
                    tar.magnitudes@,
                    tar.angles@,
                    tar.dimensions.0,
                    tar.dimensions.1,
                    brushes@.len() as u64,
                    palette.colors@,
                    lod as int,
                    old(rng).state,
                );
                &&& out.strokes@.last() == (stroke, bidx as usize)
                &&& final(rng).state == s
            }),
            out.strokes@.last().0.valid_for(
                self.dimensions.0 as int,
                self.dimensions.1 as int,
            ),
            spec_scale_lo(lod as int) <= out.strokes@.last().0.scale < spec_scale_hi(lod as int),
            55 <= out.strokes@.last().0.opacity < 180,
            out.strokes@.last().1 < brushes@.len(),
            exists|ci: int|
                0 <= ci < palette.colors@.len() && out.strokes@.last().0.color
                    == palette.colors@[ci],
            out.strokes@.last().0.rotation == tar.angles@[(out.strokes@.last().0.position.1 as int)
                * (tar.dimensions.0 as int) + (out.strokes@.last().0.position.0 as int)],
    {
        let w = tar.dimensions.0;
        let h = tar.dimensions.1;
        let pos = sample_position(tar, lod, rng);
        let x = pos.0;
        let y = pos.1;
        proof {
            assert((y as int) * (w as int) + (x as int) < (w as int) * (h as int))
                by (nonlinear_arith)
                requires
                    0 <= x < w,
                    0 <= y < h,
            ;
        }
        let rotation = tar.angles[(y as usize) * (w as usize) + (x as usize)];
        let bidx = rng.next_below(brushes.len() as u64) as usize;
        let lo = scale_lo(lod);
        let hi = scale_hi(lod);
        let scale = lo + (rng.next_below((hi - lo) as u64) as u32);
        let ci = rng.next_below(palette.colors.len() as u64) as usize;
        let color = palette.colors[ci];
        let opacity = 55 + (rng.next_below(125) as u8);
        let stroke = Stroke { position: (x, y), rotation, scale, color, opacity };
        let mut out = self;
        out.strokes.push((stroke, bidx));
        out
    }
}

} // verus!
