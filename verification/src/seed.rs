//! Seed resolution.
//!
//! A stage either reuses the configured seed or draws a fresh one, as the
//! configuration's random-seed flag says. Only the draw itself is outside
//! the crate's reasoning: nothing can be promised of a random value.

use vstd::prelude::*;

verus! {

/// Relies on rand::random: a uniformly drawn value of the requested type.
/// Nothing is promised of the result.
pub assume_specification<T>[ rand::random::<T> ]() -> (r: T)
    where
        rand::distributions::Standard: rand::distributions::Distribution<T>,
;

/// The seed a stage runs with: the configured seed when the random-seed
/// flag is off, a freshly drawn one otherwise.
pub fn resolve_seed(use_random_seed: bool, configured: u32) -> (r: u32)
    ensures
        !use_random_seed ==> r == configured,
{
    if use_random_seed {
        rand::random::<u32>()
    } else {
        configured
    }
}

} // verus!
