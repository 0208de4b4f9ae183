//! Randomness capabilities. The set samples its elements through an abstract
//! interface offering one draw of a uniform integer below a bound, so it stays
//! agnostic to the entropy source; a seedable xorshift generator and a source
//! backed by the `rand` crate both implement it.

use vstd::prelude::*;

verus! {

/// A source of uniformly distributed integers below a caller-chosen bound.
pub trait RandomSource {
    /// Draws one value in `[0, bound)`, uniformly over that range.
    fn range_below(&mut self, bound: usize) -> (r: usize)
        requires
            bound >= 1,
        ensures
            r < bound,
    ;
}

/// A small deterministic xorshift generator, seedable so that runs reproduce.
pub struct XorShiftRng {
    state: u64,
}

impl XorShiftRng {
    /// A generator starting from `seed` (adjusted so the state is never zero).
    pub fn new(seed: u64) -> (r: Self) {
        XorShiftRng { state: seed | 1 }
    }

    /// The next raw word of the xorshift sequence.
    fn next_word(&mut self) -> (r: u64) {
        let mut x = self.state;
        x = x ^ (x << 13);
        x = x ^ (x >> 7);
        x = x ^ (x << 17);
        self.state = x;
        x.wrapping_mul(0x2545_f491_4f6c_dd1d)
    }
}

impl RandomSource for XorShiftRng {
    fn range_below(&mut self, bound: usize) -> (r: usize) {
        let w = self.next_word();
        (w % (bound as u64)) as usize
    }
}

#[verifier::external_type_specification]
#[verifier::external_body]
pub struct ExStdRng(rand::rngs::StdRng);

/// Relies on rand's `SeedableRng::seed_from_u64` for `StdRng`: it builds a
/// generator deterministically from one word of seed material.
#[verifier::external_body]
fn std_rng_seeded(seed: u64) -> rand::rngs::StdRng {
    <rand::rngs::StdRng as rand::SeedableRng>::seed_from_u64(seed)
}

/// Relies on rand's `SeedableRng::from_entropy` for `StdRng`: it builds a
/// generator from fresh operating-system entropy.
#[verifier::external_body]
fn std_rng_from_entropy() -> rand::rngs::StdRng {
    <rand::rngs::StdRng as rand::SeedableRng>::from_entropy()
}

/// Relies on rand's `Rng::gen_range` over `0..bound`: it panics on an empty
/// range (ruled out here) and otherwise returns a value inside the range.
#[verifier::external_body]
fn std_rng_below(rng: &mut rand::rngs::StdRng, bound: usize) -> (r: usize)
    requires
        bound >= 1,
    ensures
        r < bound,
{
    rand::Rng::gen_range(rng, 0..bound)
}

/// A generator backed by the `rand` crate's standard PRNG.
pub struct StdRandom {
    rng: rand::rngs::StdRng,
}

impl StdRandom {
    /// A generator seeded deterministically from one word.
    pub fn from_seed(seed: u64) -> (r: Self) {
        StdRandom { rng: std_rng_seeded(seed) }
    }

    /// A generator seeded from operating-system entropy.
    pub fn from_entropy() -> (r: Self) {
        StdRandom { rng: std_rng_from_entropy() }
    }
}

impl RandomSource for StdRandom {
    fn range_below(&mut self, bound: usize) -> (r: usize) {
        std_rng_below(&mut self.rng, bound)
    }
}

} // verus!
