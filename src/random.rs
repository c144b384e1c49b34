//! The random source: rand's thread-local generator and the two draws the
//! generator makes from it.

use rand::Rng;
use vstd::prelude::*;

verus! {

/// rand's thread-local generator, carried through the library unopened.
#[verifier::external_type_specification]
#[verifier::external_body]
pub struct ExThreadRng(rand::rngs::ThreadRng);

/// Relies on rand::thread_rng: a handle to the thread's generator.
#[verifier::external_body]
pub(crate) fn thread_rng() -> (r: rand::rngs::ThreadRng) {
    rand::thread_rng()
}

/// Relies on rand's Rng::gen_range over `0..bound`: a value below `bound`;
/// the range must not be empty.
#[verifier::external_body]
pub(crate) fn draw_below(rng: &mut rand::rngs::ThreadRng, bound: u32) -> (r: u32)
    requires
        bound > 0,
    ensures
        r < bound,
{
    rng.gen_range(0..bound)
}

/// Relies on rand's Rng::gen_ratio: true with chance `numerator` in
/// `denominator`, always false for a zero numerator and always true when the
/// two are equal; it panics on a zero denominator or a numerator above it.
#[verifier::external_body]
pub(crate) fn draw_ratio(rng: &mut rand::rngs::ThreadRng, numerator: u32, denominator: u32) -> (r: bool)
    requires
        0 < denominator,
        numerator <= denominator,
    ensures
        numerator == 0 ==> !r,
        numerator == denominator ==> r,
{
    rng.gen_ratio(numerator, denominator)
}

} // verus!
