//! The engine's randomness source: a SplitMix-style 64-bit generator.
//!
//! Every draw is a pure function of the generator state, so a whole run is
//! reproducible from its seed. A caller who does not care about
//! reproducibility seeds from `fresh_rng`, which draws the seed from the
//! `rand` crate.

use vstd::prelude::*;

verus! {

/// A seedable pseudo-random generator with one 64-bit word of state.
#[derive(Clone, Copy, Debug, PartialEq, Eq, Structural)]
pub struct Rng64 {
    pub state: u64,
}

/// The state after one step: the golden-ratio increment of SplitMix.
pub open spec fn spec_next_state(s: u64) -> u64 {
    s.wrapping_add(0x9E37_79B9_7F4A_7C15)
}

/// The word a state puts out: two xor-shift-multiply mixing rounds.
pub open spec fn spec_output(s: u64) -> u64 {
    let z1 = (s ^ (s >> 30)).wrapping_mul(0xBF58_476D_1CE4_E5B9);
    let z2 = (z1 ^ (z1 >> 27)).wrapping_mul(0x94D0_49BB_1331_11EB);
    z2 ^ (z2 >> 31)
}

/// The draw below `n` that one step from state `s` yields.
pub open spec fn spec_below(s: u64, n: u64) -> u64 {
    spec_output(spec_next_state(s)) % n
}

impl Rng64 {
    /// A generator at the given seed.
    pub fn new(seed: u64) -> (r: Rng64)
        ensures
            r.state == seed,
    {
        Rng64 { state: seed }
    }

    /// Steps the state and puts out the mixed word.
    pub fn next_u64(&mut self) -> (r: u64)
        ensures
            final(self).state == spec_next_state(old(self).state),
            r == spec_output(final(self).state),
    {
        self.state = self.state.wrapping_add(0x9E37_79B9_7F4A_7C15);
        let z0 = self.state;
        let z1 = (z0 ^ (z0 >> 30)).wrapping_mul(0xBF58_476D_1CE4_E5B9);
        let z2 = (z1 ^ (z1 >> 27)).wrapping_mul(0x94D0_49BB_1331_11EB);
        z2 ^ (z2 >> 31)
    }

    /// A draw uniform over `0 .. n`.
    pub fn next_below(&mut self, n: u64) -> (r: u64)
        requires
            n > 0,
        ensures
            final(self).state == spec_next_state(old(self).state),
            r == spec_below(old(self).state, n),
            r < n,
    {
        let v = self.next_u64();
        v % n
    }
}

/// Relies on rand::random: a fresh draw from the thread-local generator of
/// the rand crate. Nothing is assumed of the value drawn.
pub assume_specification<T>[ rand::random::<T> ]() -> (r: T)
    where
        rand::distributions::Standard: rand::distributions::Distribution<T>,
;

/// A generator seeded from the machine's randomness, for runs that need no
/// reproducibility.
pub fn fresh_rng() -> Rng64 {
    Rng64 { state: rand::random::<u64>() }
}

} // verus!
