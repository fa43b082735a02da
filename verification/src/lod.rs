//! Level-of-detail progression: a single level, `0 ..= 5`, that only ever
//! climbs.
//!
//! The level advances by one when the run has stagnated — no acceptance for
//! more iterations than a threshold that doubles with each level — provided
//! a warm-up number of strokes has already been accepted. It never falls.

use vstd::prelude::*;

verus! {

/// The highest level; levels index the proposer's scale and magnitude
/// tables.
pub const LOD_MAX_LEVEL: u32 = 5;

/// How many strokes must have been accepted before the level may advance.
pub const LOD_WARMUP: u64 = 10;

/// The scheduler's whole state: the current level, the iteration of the
/// most recent acceptance (or advance), and how many strokes were accepted.
#[derive(Clone, Copy, Debug, PartialEq, Eq, Structural)]
pub struct LodScheduler {
    pub level: u32,
    pub last_increment: u64,
    pub placed: u64,
}

/// Iterations without acceptance tolerated at a level: `2 ^ level`.
pub open spec fn spec_stagnation_threshold(level: int) -> int {
    if level <= 0 {
        1
    } else if level == 1 {
        2
    } else if level == 2 {
        4
    } else if level == 3 {
        8
    } else if level == 4 {
        16
    } else {
        32
    }
}

/// The advance condition: warm-up done, stagnated past the level's
/// threshold, and not at the top yet.
pub open spec fn spec_should_advance(s: LodScheduler, iteration: u64) -> bool {
    &&& s.placed > LOD_WARMUP
    &&& iteration - s.last_increment > spec_stagnation_threshold(s.level as int)
    &&& s.level < LOD_MAX_LEVEL
}

/// The state after recording an accepted stroke at `iteration`.
pub open spec fn spec_accepted(s: LodScheduler, iteration: u64) -> LodScheduler {
    LodScheduler { level: s.level, last_increment: iteration, placed: (s.placed + 1) as u64 }
}

/// The state after probing for stagnation at `iteration`.
pub open spec fn spec_advanced(s: LodScheduler, iteration: u64) -> LodScheduler {
    if spec_should_advance(s, iteration) {
        LodScheduler {
            level: (s.level + 1) as u32,
            last_increment: iteration,
            placed: s.placed,
        }
    } else {
        s
    }
}

/// One whole scheduler step, as the loop performs it each iteration: record
/// the acceptance if there was one, then probe for stagnation.
pub open spec fn spec_step(s: LodScheduler, accepted: bool, iteration: u64) -> LodScheduler {
    spec_advanced(if accepted {
        spec_accepted(s, iteration)
    } else {
        s
    }, iteration)
}

/// A whole run of scheduler steps, each event an (accepted, iteration)
/// pair, applied in order.
pub open spec fn spec_run(s: LodScheduler, events: Seq<(bool, u64)>) -> LodScheduler
    decreases events.len(),
{
    if events.len() == 0 {
        s
    } else {
        spec_step(spec_run(s, events.drop_last()), events.last().0, events.last().1)
    }
}

/// Law: the level is monotone — across any sequence of iterations, whatever
/// was accepted or rejected and whenever, the level never decreases.
pub proof fn lemma_level_monotone(s: LodScheduler, events: Seq<(bool, u64)>)
    ensures
        spec_run(s, events).level >= s.level,
    decreases events.len(),
{
    if events.len() > 0 {
        lemma_level_monotone(s, events.drop_last());
    }
}

impl LodScheduler {
    pub open spec fn wf(&self) -> bool {
        self.level <= LOD_MAX_LEVEL
    }

    /// A scheduler at the coarsest level with nothing placed.
    pub fn new() -> (s: LodScheduler)
        ensures
            s.level == 0,
            s.last_increment == 0,
            s.placed == 0,
            s.wf(),
    {
        LodScheduler { level: 0, last_increment: 0, placed: 0 }
    }

    /// Records an accepted stroke: bumps the count and resets the
    /// stagnation timer. The level does not move.
    pub fn record_acceptance(&mut self, iteration: u64)
        requires
            old(self).placed < u64::MAX,
        ensures
            *final(self) == spec_accepted(*old(self), iteration),
            final(self).level == old(self).level,
    {
        self.placed = self.placed + 1;
        self.last_increment = iteration;
    }

    /// Probes for stagnation: advances the level by one exactly when the
    /// warm-up is done, the stagnation threshold of the current level is
    /// passed, and the top level is not reached yet. The level never
    /// decreases.
    pub fn advance_if_stagnant(&mut self, iteration: u64) -> (advanced: bool)
        requires
            old(self).wf(),
        ensures
            *final(self) == spec_advanced(*old(self), iteration),
            advanced == spec_should_advance(*old(self), iteration),
            final(self).level >= old(self).level,
            final(self).placed == old(self).placed,
            final(self).wf(),
    {
        let threshold: u64 = self.stagnation_threshold();
        if self.placed > LOD_WARMUP && iteration >= self.last_increment && iteration
            - self.last_increment > threshold && self.level < LOD_MAX_LEVEL {
            self.level = self.level + 1;
            self.last_increment = iteration;
            true
        } else {
            proof {
                if iteration < self.last_increment {
                    assert(iteration - self.last_increment <= 0);
                }
            }
            false
        }
    }

    /// Computes `spec_stagnation_threshold` for the current level.
    pub fn stagnation_threshold(&self) -> (t: u64)
        ensures
            t == spec_stagnation_threshold(self.level as int),
    {
        if self.level == 0 {
            1
        } else if self.level == 1 {
            2
        } else if self.level == 2 {
            4
        } else if self.level == 3 {
            8
        } else if self.level == 4 {
            16
        } else {
            32
        }
    }
}

} // verus!
