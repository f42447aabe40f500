//! Seeded pseudo-random source used to draw the initial state.
//!
//! The engine only needs a reproducible stream of uniform draws: with the
//! same seed, the same draws come out in the same order.  A draw is a 64-bit
//! value `x`, standing for the uniform value `x / 2^64` in the interval
//! `[0, 1)`.  The stream is a linear congruential sequence; every draw is a
//! pure function of the seed and the position in the stream, which is what
//! makes seeded runs of the engine bit-identical.

use vstd::prelude::*;

verus! {

/// Multiplier of the linear congruential step.
pub const RNG_MULTIPLIER: u64 = 6364136223846793005;

/// Increment of the linear congruential step.
pub const RNG_INCREMENT: u64 = 1442695040888963407;

/// One step of the linear congruential sequence.
pub open spec fn rng_next(state: u64) -> u64 {
    vstd::wrapping::u64_specs::wrapping_add(
        vstd::wrapping::u64_specs::wrapping_mul(state, RNG_MULTIPLIER),
        RNG_INCREMENT,
    )
}

/// The state after `n` steps from `seed`.
pub open spec fn rng_after(seed: u64, n: nat) -> u64
    decreases n,
{
    if n == 0 {
        seed
    } else {
        rng_next(rng_after(seed, (n - 1) as nat))
    }
}

/// A seeded uniform random source.  Each call to `next_u64` advances the
/// state by one linear congruential step and returns the new state as the
/// draw.
pub struct Rng {
    state: u64,
}

impl View for Rng {
    type V = u64;

    closed spec fn view(&self) -> u64 {
        self.state
    }
}

impl Rng {
    /// Creates a source whose draws are determined by `seed` alone.
    pub fn new(seed: u64) -> (rng: Rng)
        ensures
            rng@ == seed,
    {
        Rng { state: seed }
    }

    /// Draws the next 64-bit value of the stream.
    pub fn next_u64(&mut self) -> (draw: u64)
        ensures
            final(self)@ == rng_next(old(self)@),
            draw == final(self)@,
    {
        self.state = self.state.wrapping_mul(RNG_MULTIPLIER).wrapping_add(RNG_INCREMENT);
        self.state
    }
}

} // verus!
