//! The shared pseudo-random source, threaded through generation and AI
//! as an explicit handle. Determinism across runs is neither guaranteed
//! nor required; contracts state only what holds of every outcome.
use vstd::prelude::*;

use rand::RngExt;

verus! {

#[verifier::external_type_specification]
#[verifier::external_body]
pub struct ExThreadRng(rand::rngs::ThreadRng);

/// A handle on the thread-local pseudo-random generator.
pub struct RandomSource {
    rng: rand::rngs::ThreadRng,
}

impl RandomSource {
    /// Relies on `rand::rng`: a handle on the thread-local generator.
    #[verifier::external_body]
    pub fn new() -> RandomSource {
        RandomSource { rng: rand::rng() }
    }

    /// Relies on `rand::Rng::random_range` over `low..high`: a sample in
    /// `[low, high)`; the range must not be empty, or the call panics.
    #[verifier::external_body]
    pub(crate) fn range(&mut self, low: i32, high: i32) -> (r: i32)
        requires
            low < high,
        ensures
            low <= r < high,
    {
        self.rng.random_range(low..high)
    }

    /// Relies on `rand::Rng::random` at type `bool`: a uniform coin
    /// flip. Nothing can be promised of the outcome.
    #[verifier::external_body]
    pub(crate) fn coin(&mut self) -> bool {
        self.rng.random::<bool>()
    }
}

} // verus!
