//! The random source. Every draw the library makes goes through one of the
//! functions below, whose contracts are taken on trust from the `rand` crate:
//! they say what holds of every possible draw and nothing of the value drawn.
//!
//! The generator of a thread is seeded, and from time to time seeded anew, from
//! the entropy source of the system. Where that source fails, the call that
//! needed it panics; no argument of a draw can bring this about or prevent it.

use vstd::prelude::*;
use rand::Rng;
use rand::rngs::ThreadRng;

verus! {

/// `rand::rngs::ThreadRng`, the generator of the calling thread, carried through as an
/// opaque value.
#[verifier::external_type_specification]
#[verifier::external_body]
pub struct ExThreadRng(rand::rngs::ThreadRng);

/// `rand::thread_rng`: a handle to the generator of the calling thread. Nothing is claimed
/// of the handle itself. On a system that cannot seed the generator the call panics.
#[verifier::external_body]
pub(crate) fn thread_rng() -> (rng: ThreadRng) {
    rand::thread_rng()
}

/// `Rng::gen_range` on a half-open range of `usize`: the draw lies in `low..high`. The
/// range must not be empty, on which `gen_range` panics. Like every draw it panics where
/// the generator cannot be seeded anew.
#[verifier::external_body]
pub(crate) fn random_index(rng: &mut ThreadRng, low: usize, high: usize) -> (r: usize)
    requires
        low < high,
    ensures
        low <= r < high,
{
    rng.gen_range(low..high)
}

/// `Rng::gen_ratio`: a draw that is `true` with chance `numerator / denominator`. It is
/// certainly `true` when the two are equal and certainly `false` when `numerator` is 0.
/// `gen_ratio` panics on a zero denominator and on a numerator above the denominator, and
/// like every draw where the generator cannot be seeded anew.
#[verifier::external_body]
pub(crate) fn random_ratio(rng: &mut ThreadRng, numerator: u32, denominator: u32) -> (r: bool)
    requires
        denominator != 0,
        numerator <= denominator,
    ensures
        numerator == denominator ==> r,
        numerator == 0 ==> !r,
{
    rng.gen_ratio(numerator, denominator)
}

/// `Rng::gen` for `bool`: a fair coin. Nothing is claimed of the draw. Like every draw it
/// panics where the generator cannot be seeded anew.
#[verifier::external_body]
pub(crate) fn random_bool(rng: &mut ThreadRng) -> (r: bool) {
    rng.gen()
}

} // verus!
