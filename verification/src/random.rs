//! The random number generator of the `rand` crate, as far as the machine uses it.
//!
//! Nothing in this file is proved: the two functions call `rand`, and Verus takes their
//! signatures on trust.

use rand::Rng;
use vstd::prelude::*;

verus! {

/// `rand::rngs::ThreadRng`, a handle to the generator of the current thread. Its state is
/// not visible to the verifier.
#[verifier::external_type_specification]
#[verifier::external_body]
pub struct ExThreadRng(rand::rngs::ThreadRng);

/// Calls `rand::thread_rng()`, which hands out the lazily initialised generator of the
/// current thread, seeded by the operating system. Nothing is claimed of the handle. The
/// call panics where the operating system has no entropy to seed the generator with, which
/// no argument decides.
#[verifier::external_body]
pub(crate) fn thread_rng() -> rand::rngs::ThreadRng {
    rand::thread_rng()
}

/// Calls `Rng::gen_range` with the range `0..=255u8`, which is never empty, so that the
/// call does not panic. The result is uniformly distributed over all bytes: nothing is
/// claimed of it, and two calls may differ.
#[verifier::external_body]
pub(crate) fn random_byte(rng: &mut rand::rngs::ThreadRng) -> u8 {
    rng.gen_range(0..=255u8)
}

} // verus!
