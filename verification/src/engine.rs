//! The optimization loop's state and its accept/reject decisioning.
//!
//! One iteration runs: propose a stroke (`Image::paint`), have the caller
//! composite the image and read the pixels back, then conclude here: score
//! the stroke's region against the new buffer and against the backup
//! buffer (the last accepted state), keep the stroke only on strict
//! improvement, and feed the outcome to the level scheduler. Rendering and
//! readback stay with the caller; this module never draws.

use crate::lod;
use crate::lod::LodScheduler;
use crate::palette::Palette;
use crate::proposer;
use crate::raster;
use crate::rng::Rng64;
use crate::scorer;
use crate::strokes::Brush;
use crate::strokes::Image;
use crate::strokes::init_image;
use crate::target::Target;
use vstd::prelude::*;

verus! {

/// The run stops once this many strokes were accepted.
pub const PLACEMENT_CAP: u64 = 50_000;

/// Everything the loop owns: the artwork, the scheduler, the iteration
/// counter, and the last accepted pixel buffer.
pub struct OptimizationState {
    pub image: Image,
    pub lod: LodScheduler,
    pub iteration: u64,
    pub backup: Vec<u8>,
}

/// The decision rule: a candidate is kept only when its region score
/// strictly improves on the backup's; a tie is rejected.
pub open spec fn spec_accepts(diff: int, delta: int) -> bool {
    diff < delta
}

/// How many accepted strokes lie between checkpoints at a level.
pub open spec fn spec_checkpoint_cadence(level: int) -> int {
    (if level <= 0 {
        1
    } else {
        level
    }) * 100
}

impl OptimizationState {
    /// The state fits its target: same canvas, a backup buffer of the
    /// canvas's size, a well-formed scheduler.
    pub open spec fn wf(&self, tar: &Target) -> bool {
        &&& self.image.dimensions == tar.dimensions
        &&& raster::spec_buffer_sized(
            self.backup@,
            tar.dimensions.0 as int,
            tar.dimensions.1 as int,
        )
        &&& self.lod.wf()
    }

    /// A fresh run over an empty canvas; `backup` is the rendering of that
    /// empty canvas, read back by the caller.
    pub fn new(target: &Target, backup: Vec<u8>) -> (s: OptimizationState)
        requires
            raster::spec_buffer_sized(
                backup@,
                target.dimensions.0 as int,
                target.dimensions.1 as int,
            ),
        ensures
            s.wf(target),
            s.image.strokes@.len() == 0,
            s.image.dimensions == target.dimensions,
            s.lod.level == 0,
            s.lod.placed == 0,
            s.iteration == 0,
            s.backup@ == backup@,
    {
        OptimizationState {
            image: init_image(target),
            lod: LodScheduler::new(),
            iteration: 0,
            backup,
        }
    }

    /// Asks the proposer for one candidate stroke and appends it,
    /// speculatively, to the artwork at the scheduler's current level. The
    /// proposal is exactly `spec_propose` of the target fields, the
    /// palette, the brush count, the level and the generator state;
    /// everything else in the state stays put.
    pub fn propose(
        &mut self,
        brushes: &Vec<Brush>,
        palette: &Palette,
        tar: &Target,
        rng: &mut Rng64,
    )
        requires
            tar.wf(),
            old(self).wf(tar),
            brushes@.len() >= 1,
            palette.colors@.len() >= 1,
        ensures
            final(self).wf(tar),
            final(self).lod == old(self).lod,
            final(self).iteration == old(self).iteration,
            final(self).backup@ == old(self).backup@,
            final(self).image.dimensions == old(self).image.dimensions,
            final(self).image.color == old(self).image.color,
            final(self).image.strokes@.len() == old(self).image.strokes@.len() + 1,
            forall|j: int|
                0 <= j < old(self).image.strokes@.len() ==> final(self).image.strokes@[j] == old(
                    self,
                ).image.strokes@[j],
            ({
                let (stroke, bidx, s) = proposer::spec_propose(
                    tar.magnitudes@,
                    tar.angles@,
                    tar.dimensions.0,
                    tar.dimensions.1,
                    brushes@.len() as u64,
                    palette.colors@,
                    old(self).lod.level as int,
                    old(rng).state,
                );
                &&& final(self).image.strokes@.last() == (stroke, bidx as usize)
                &&& final(rng).state == s
            }),
            final(self).image.strokes@.last().0.valid_for(
                tar.dimensions.0 as int,
                tar.dimensions.1 as int,
            ),
            final(self).image.strokes@.last().1 < brushes@.len(),
    {
        let mut img = Image {
            dimensions: (self.image.dimensions.0, self.image.dimensions.1),
            color: self.image.color,
            strokes: Vec::new(),
        };
        core::mem::swap(&mut self.image, &mut img);
        let level: usize = self.lod.level as usize;
        let painted = img.paint(brushes, palette, tar, level, rng);
        self.image = painted;
    }

    /// Concludes one iteration, after the caller rendered the image with
    /// its newest (speculative) stroke into `buffer`: scores the stroke's
    /// region against `buffer` and against the backup, keeps the stroke
    /// exactly when the new score strictly improves, and otherwise pops it.
    /// On acceptance the backup becomes `buffer` and the stagnation timer
    /// resets; either way the scheduler may then advance, and the level
    /// never falls.
    pub fn conclude_iteration(&mut self, tar: &Target, brushes: &Vec<Brush>, buffer: Vec<u8>) -> (
        accepted: bool)
        requires
            tar.wf(),
            old(self).wf(tar),
            old(self).image.strokes@.len() >= 1,
            old(self).image.strokes@.last().1 < brushes@.len(),
            old(self).image.strokes@.last().0.valid_for(
                tar.dimensions.0 as int,
                tar.dimensions.1 as int,
            ),
            raster::spec_buffer_sized(
                buffer@,
                tar.dimensions.0 as int,
                tar.dimensions.1 as int,
            ),
            old(self).lod.placed < u64::MAX,
            old(self).iteration < u64::MAX,
        ensures
            final(self).wf(tar),
            ({
                let last = old(self).image.strokes@.last();
                let brush = brushes@[last.1 as int];
                let diff = scorer::spec_compare(
                    tar.hsls@,
                    buffer@,
                    tar.dimensions.0 as int,
                    tar.dimensions.1 as int,
                    last.0,
                    brush.dimensions.0 as int,
                    brush.dimensions.1 as int,
                );
                let delta = scorer::spec_compare(
                    tar.hsls@,
                    old(self).backup@,
                    tar.dimensions.0 as int,
                    tar.dimensions.1 as int,
                    last.0,
                    brush.dimensions.0 as int,
                    brush.dimensions.1 as int,
                );
                &&& accepted == spec_accepts(diff, delta)
                &&& (accepted ==> final(self).image.strokes@ == old(self).image.strokes@
                    && final(self).backup@ == buffer@)
                &&& (!accepted ==> final(self).image.strokes@
                    == old(self).image.strokes@.drop_last() && final(self).backup@ == old(
                    self,
                ).backup@)
            }),
            final(self).lod == lod::spec_step(old(self).lod, accepted, old(self).iteration),
            final(self).lod.level >= old(self).lod.level,
            final(self).iteration == old(self).iteration + 1,
            final(self).image.dimensions == old(self).image.dimensions,
            final(self).image.color == old(self).image.color,
    {
        let n = self.image.strokes.len();
        let stroke = self.image.strokes[n - 1].0;
        let bidx = self.image.strokes[n - 1].1;
        let brush = &brushes[bidx];
        let diff = tar.compare(&buffer, &stroke, brush);
        let delta = tar.compare(&self.backup, &stroke, brush);
        let accepted = diff < delta;
        if accepted {
            self.backup = buffer;
            self.lod.record_acceptance(self.iteration);
        } else {
            self.image.strokes.pop();
        }
        self.lod.advance_if_stagnant(self.iteration);
        self.iteration = self.iteration + 1;
        accepted
    }

    /// The checkpoint policy: with storing enabled, checkpoint whenever the
    /// accepted count hits the level's cadence right after an acceptance;
    /// and always once the placement cap is reached.
    pub fn should_checkpoint(&self, storing: bool) -> (save: bool)
        ensures
            save == ({
                ||| (storing && self.lod.placed as int % spec_checkpoint_cadence(
                    self.lod.level as int,
                ) == 0 && self.lod.last_increment + 1 == self.iteration)
                ||| self.lod.placed >= PLACEMENT_CAP
            }),
    {
        let cadence: u64 = if self.lod.level == 0 {
            100
        } else {
            (self.lod.level as u64) * 100
        };
        let recent = self.lod.last_increment < u64::MAX && self.lod.last_increment + 1
            == self.iteration;
        (storing && self.lod.placed % cadence == 0 && recent) || self.lod.placed >= PLACEMENT_CAP
    }

    /// The run is over once the placement cap is reached.
    pub fn finished(&self) -> (done: bool)
        ensures
            done == (self.lod.placed >= PLACEMENT_CAP),
    {
        self.lod.placed >= PLACEMENT_CAP
    }
}

} // verus!
