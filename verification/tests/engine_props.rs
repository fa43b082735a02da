//! Tests of the search side: region scoring, stroke proposal, level
//! progression and the accept/reject loop.

use digpaint::color::Rgb;
use digpaint::engine::OptimizationState;
use digpaint::lod::LodScheduler;
use digpaint::palette::init_palette;
use digpaint::proposer::sample_position;
use digpaint::rng::Rng64;
use digpaint::strokes::{init_image, Brush, Image, Stroke};
use digpaint::target::analyze_target;

/// A solid RGBA image, alpha 255.
fn solid(w: u32, h: u32, r: u8, g: u8, b: u8) -> Vec<u8> {
    let mut v = Vec::new();
    for _ in 0..(w as usize * h as usize) {
        v.push(r);
        v.push(g);
        v.push(b);
        v.push(255);
    }
    v
}

fn brush2x2() -> Brush {
    Brush { texture_path: String::from("round"), dimensions: (2, 2) }
}

fn unrotated(x: u32, y: u32, scale: u32) -> Stroke {
    Stroke {
        position: (x, y),
        rotation: 0,
        scale,
        color: Rgb { r: 1, g: 2, b: 3 },
        opacity: 100,
    }
}

#[test]
fn score_of_black_buffer_against_white_target() {
    // White target, black buffer, an unrotated 2x2 brush at the origin at
    // full scale: four pixels, each off by the full lightness range.
    let t = analyze_target(&solid(4, 4, 255, 255, 255), 4, 4);
    let buf = solid(4, 4, 0, 0, 0);
    let score = t.compare(&buf, &unrotated(0, 0, 1000), &brush2x2());
    assert_eq!(score, 400_000);
}

#[test]
fn score_of_matching_buffer_is_zero() {
    // A buffer identical to the target scores zero over any region.
    let pixels = solid(4, 4, 200, 60, 10);
    let t = analyze_target(&pixels, 4, 4);
    let big_brush = Brush { texture_path: String::from("flat"), dimensions: (4, 4) };
    let score = t.compare(&pixels, &unrotated(0, 0, 1000), &big_brush);
    assert_eq!(score, 0);
}

#[test]
fn scorer_decodes_red_byte_first() {
    // The byte-order contract: buffers carry R, G, B, A in that order. A
    // red target against a buffer whose pixels are (0, 0, 255) must read
    // the buffer as blue — a hue a two-thirds turn away, weighted by a
    // quarter — not as red, which a reversed decode would see.
    let t = analyze_target(&solid(4, 4, 255, 0, 0), 4, 4);
    let buf = solid(4, 4, 0, 0, 255);
    let one_px = Brush { texture_path: String::from("dot"), dimensions: (1, 1) };
    let score = t.compare(&buf, &unrotated(0, 0, 1000), &one_px);
    assert_eq!(score, 60_000);
}

#[test]
fn zero_scale_footprint_scores_zero() {
    // A zero-size footprint leaves nothing to compare: the backup scored
    // against itself under such a stroke yields exactly zero.
    let t = analyze_target(&solid(4, 4, 255, 255, 255), 4, 4);
    let buf = solid(4, 4, 0, 0, 0);
    assert_eq!(t.compare(&buf, &unrotated(2, 1, 0), &brush2x2()), 0);
}

#[test]
fn footprint_clipped_at_canvas_corner() {
    // Anchored on the last row and column, the clipped box is empty: the
    // scorer reads nothing outside the canvas and the score is zero.
    let t = analyze_target(&solid(4, 4, 255, 255, 255), 4, 4);
    let buf = solid(4, 4, 0, 0, 0);
    assert_eq!(t.compare(&buf, &unrotated(3, 3, 1000), &brush2x2()), 0);
}

#[test]
fn tied_scores_reject_the_candidate() {
    // Scoring the candidate against a buffer equal to the backup gives
    // numerically equal scores; the strict-improvement rule must reject.
    let t = analyze_target(&solid(4, 4, 255, 255, 255), 4, 4);
    let backup = solid(4, 4, 0, 0, 0);
    let brushes = vec![brush2x2()];
    let mut state = OptimizationState::new(&t, backup.clone());
    state.image.strokes.push((unrotated(0, 0, 1000), 0));
    let accepted = state.conclude_iteration(&t, &brushes, backup.clone());
    assert!(!accepted);
    assert_eq!(state.image.strokes.len(), 0);
    assert_eq!(state.backup, backup);
    assert_eq!(state.lod.placed, 0);
}

#[test]
fn strict_improvement_is_accepted() {
    // The candidate buffer matches the white target where the backup was
    // black: strictly better, so the stroke stays and the backup moves.
    let t = analyze_target(&solid(4, 4, 255, 255, 255), 4, 4);
    let backup = solid(4, 4, 0, 0, 0);
    let improved = solid(4, 4, 255, 255, 255);
    let brushes = vec![brush2x2()];
    let mut state = OptimizationState::new(&t, backup);
    state.image.strokes.push((unrotated(0, 0, 1000), 0));
    let accepted = state.conclude_iteration(&t, &brushes, improved.clone());
    assert!(accepted);
    assert_eq!(state.image.strokes.len(), 1);
    assert_eq!(state.backup, improved);
    assert_eq!(state.lod.placed, 1);
    assert_eq!(state.iteration, 1);
}

#[test]
fn flat_target_at_top_level_fires_the_retry_cap() {
    // A flat black target has zero gradient everywhere; at the top level's
    // minimum magnitude no draw can qualify, so sampling terminates by the
    // retry cap and says so.
    let t = analyze_target(&solid(4, 4, 0, 0, 0), 4, 4);
    let mut rng = Rng64::new(9);
    let (x, y, fell_back) = sample_position(&t, 5, &mut rng);
    assert!(fell_back);
    assert!(x < 4 && y < 4);
}

#[test]
fn edgy_target_at_level_zero_needs_no_fallback() {
    // At the coarsest level every position qualifies: the first draw wins.
    let t = analyze_target(&solid(4, 4, 127, 127, 127), 4, 4);
    let mut rng = Rng64::new(9);
    let (_, _, fell_back) = sample_position(&t, 0, &mut rng);
    assert!(!fell_back);
}

#[test]
fn seeded_proposals_are_reproducible() {
    // Two runs from the same seed propose the same strokes, brush choices
    // included.
    let mut pixels = Vec::new();
    for y in 0..4u32 {
        for x in 0..4u32 {
            let v = if (x + y) % 2 == 0 { 0 } else { 255 };
            pixels.push(v);
            pixels.push(v);
            pixels.push(v);
            pixels.push(255);
        }
    }
    let t = analyze_target(&pixels, 4, 4);
    let palette = init_palette(&pixels, 4, 4, 2, 2);
    let brushes = vec![
        brush2x2(),
        Brush { texture_path: String::from("wide"), dimensions: (3, 1) },
    ];
    let mut run = |seed: u64| -> Vec<(Stroke, usize)> {
        let mut rng = Rng64::new(seed);
        let mut img: Image = init_image(&t);
        for lod in 0..5usize {
            img = img.paint(&brushes, &palette, &t, lod, &mut rng);
        }
        img.strokes
    };
    let first = run(424_242);
    let second = run(424_242);
    assert_eq!(first.len(), 5);
    assert_eq!(first, second);
}

#[test]
fn proposed_strokes_obey_the_level_tables() {
    let pixels = solid(4, 4, 80, 160, 240);
    let t = analyze_target(&pixels, 4, 4);
    let palette = init_palette(&pixels, 4, 4, 2, 2);
    let brushes = vec![brush2x2()];
    let mut rng = Rng64::new(5);
    let mut img = init_image(&t);
    for _ in 0..20 {
        img = img.paint(&brushes, &palette, &t, 0, &mut rng);
    }
    for (stroke, bidx) in &img.strokes {
        assert!(stroke.position.0 < 4 && stroke.position.1 < 4);
        assert!((500..1000).contains(&stroke.scale));
        assert!((55..180).contains(&stroke.opacity));
        assert!(*bidx < brushes.len());
        assert!(palette.colors.contains(&stroke.color));
    }
}

#[test]
fn level_never_decreases() {
    let mut lod = LodScheduler::new();
    assert_eq!(lod.level, 0);
    let mut prev = 0;
    // A mixed run: some acceptances, long stagnant stretches, repeated
    // probes; the level may climb but never falls, and stops at the top.
    let mut iteration: u64 = 0;
    for round in 0..200u64 {
        if round % 17 == 0 {
            lod.record_acceptance(iteration);
        }
        lod.advance_if_stagnant(iteration);
        assert!(lod.level >= prev);
        assert!(lod.level <= 5);
        prev = lod.level;
        iteration += 50;
    }
    assert_eq!(lod.level, 5);
}

#[test]
fn no_advance_before_warmup() {
    let mut lod = LodScheduler::new();
    // Plenty of stagnation but too few acceptances: the level holds.
    let advanced = lod.advance_if_stagnant(1_000_000);
    assert!(!advanced);
    assert_eq!(lod.level, 0);
    for i in 0..10 {
        lod.record_acceptance(i);
    }
    // Exactly the warm-up count is still not past it.
    assert!(!lod.advance_if_stagnant(2_000_000));
    lod.record_acceptance(10);
    assert!(lod.advance_if_stagnant(3_000_000));
    assert_eq!(lod.level, 1);
}

#[test]
fn stagnation_threshold_doubles_with_level() {
    let mut lod = LodScheduler::new();
    assert_eq!(lod.stagnation_threshold(), 1);
    lod.level = 3;
    assert_eq!(lod.stagnation_threshold(), 8);
    lod.level = 5;
    assert_eq!(lod.stagnation_threshold(), 32);
}

#[test]
fn checkpoint_fires_at_the_placement_cap() {
    let t = analyze_target(&solid(4, 4, 1, 2, 3), 4, 4);
    let mut state = OptimizationState::new(&t, solid(4, 4, 0, 0, 0));
    assert!(!state.finished());
    assert!(!state.should_checkpoint(false));
    state.lod.placed = 50_000;
    assert!(state.should_checkpoint(false));
    assert!(state.finished());
}

#[test]
fn checkpoint_cadence_follows_acceptances() {
    let t = analyze_target(&solid(4, 4, 1, 2, 3), 4, 4);
    let mut state = OptimizationState::new(&t, solid(4, 4, 0, 0, 0));
    // 100 strokes placed, the most recent iteration accepted, storing on.
    state.lod.placed = 100;
    state.lod.last_increment = 41;
    state.iteration = 42;
    assert!(state.should_checkpoint(true));
    // Storing off: no checkpoint.
    assert!(!state.should_checkpoint(false));
    // Off-cadence count: no checkpoint.
    state.lod.placed = 101;
    assert!(!state.should_checkpoint(true));
}

#[test]
fn full_cycles_only_keep_improvements() {
    // A miniature run of whole iterations: propose, render nothing new
    // (hand back the backup), conclude. Every candidate ties with the
    // backup, so nothing is ever placed and the image stays empty.
    let mut pixels = Vec::new();
    for y in 0..4u32 {
        for x in 0..4u32 {
            let v = if (x + y) % 2 == 0 { 40 } else { 220 };
            pixels.push(v);
            pixels.push(v);
            pixels.push(v);
            pixels.push(255);
        }
    }
    let t = analyze_target(&pixels, 4, 4);
    let palette = init_palette(&pixels, 4, 4, 2, 2);
    let brushes = vec![brush2x2()];
    let backup = solid(4, 4, 127, 127, 127);
    let mut rng = Rng64::new(77);
    let mut state = OptimizationState::new(&t, backup.clone());
    for round in 0..10u64 {
        state.propose(&brushes, &palette, &t, &mut rng);
        assert_eq!(state.image.strokes.len(), 1);
        let accepted = state.conclude_iteration(&t, &brushes, backup.clone());
        assert!(!accepted);
        assert_eq!(state.image.strokes.len(), 0);
        assert_eq!(state.iteration, round + 1);
        assert_eq!(state.lod.placed, 0);
    }
}

#[test]
fn init_image_starts_empty_on_gray() {
    let t = analyze_target(&solid(4, 4, 9, 9, 9), 4, 4);
    let img = init_image(&t);
    assert_eq!(img.dimensions, (4, 4));
    assert_eq!(img.color, Rgb { r: 127, g: 127, b: 127 });
    assert!(img.strokes.is_empty());
}
