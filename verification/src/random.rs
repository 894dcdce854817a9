//! The random source that query resolution draws from.
//!
//! Resolution needs exactly one primitive: a pick of an index below a
//! bound. The engine takes the source as an explicit parameter, so a
//! render can run against the process-wide generator or, for
//! reproducibility, against a seeded deterministic one.

use vstd::prelude::*;

verus! {

/// A supplier of uniform-ish picks. Nothing is promised about the
/// distribution; the engine's contracts hold for every sequence of picks
/// a source can make.
pub trait RandomSource {
    /// An index below `bound`.
    fn pick(&mut self, bound: usize) -> (r: usize)
        requires
            bound >= 1,
        ensures
            r < bound,
    ;
}

/// A deterministic source: a linear congruential generator stepped on
/// every pick. Two sources made from the same seed make the same picks.
pub struct SeededRandom {
    /// The generator's current state.
    pub state: u64,
}

impl SeededRandom {
    /// A source that will make the pick sequence determined by `seed`.
    pub fn new(seed: u64) -> (r: SeededRandom)
        ensures
            r.state == seed,
    {
        SeededRandom { state: seed }
    }
}

/// The state following `state`: the multiplier and increment of
/// Knuth's MMIX linear congruential generator, modulo 2^64.
pub open spec fn spec_lcg_step(state: u64) -> u64 {
    state.wrapping_mul(6364136223846793005).wrapping_add(1442695040888963407)
}

/// The pick a seeded source makes from `state` under `bound`: the top
/// bits of the stepped state, reduced modulo the bound.
pub open spec fn spec_lcg_pick(state: u64, bound: usize) -> usize
    recommends
        bound >= 1,
{
    ((spec_lcg_step(state) / 0x2_0000_0000) % (bound as u64)) as usize
}

impl RandomSource for SeededRandom {
    fn pick(&mut self, bound: usize) -> (r: usize)
        ensures
            r == spec_lcg_pick(old(self).state, bound),
            final(self).state == spec_lcg_step(old(self).state),
    {
        let next: u64 = self.state.wrapping_mul(6364136223846793005).wrapping_add(
            1442695040888963407,
        );
        self.state = next;
        let r: u64 = (next / 0x2_0000_0000) % (bound as u64);
        r as usize
    }
}

/// Relies on rand::Rng::gen_range over the range 0..bound: it panics on
/// an empty range (kept out by the requires) and returns a value of the
/// range, sampled from the process-wide generator.
#[verifier::external_body]
fn thread_random_below(bound: usize) -> (r: usize)
    requires
        bound >= 1,
    ensures
        r < bound,
{
    rand::Rng::gen_range(&mut rand::thread_rng(), 0..bound)
}

/// The process-wide random generator, as a source.
pub struct ThreadRandom {}

impl ThreadRandom {
    /// A handle on the process-wide generator.
    pub fn new() -> ThreadRandom {
        ThreadRandom {}
    }
}

impl RandomSource for ThreadRandom {
    fn pick(&mut self, bound: usize) -> (r: usize) {
        thread_random_below(bound)
    }
}

} // verus!
