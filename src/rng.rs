//! Random numbers for the glitch and noise effects, drawn from a seedable
//! generator of the `rand` crate.

use vstd::prelude::*;
use rand::rngs::StdRng;

verus! {

#[verifier::external_type_specification]
#[verifier::external_body]
pub struct ExStdRng(StdRng);

/// Relies on `rand::RngCore::next_u32`: any `u32` may come back.
#[verifier::external_body]
pub(crate) fn next_u32(rng: &mut StdRng) -> (r: u32) {
    rand::RngCore::next_u32(rng)
}

/// Relies on `rand::Rng::gen_range` over `low..high`: the value lies in
/// that half-open range (the call panics on an empty range).
#[verifier::external_body]
pub(crate) fn gen_range_i32(rng: &mut StdRng, low: i32, high: i32) -> (r: i32)
    requires
        low < high,
    ensures
        low <= r < high,
{
    rand::Rng::gen_range(rng, low..high)
}

} // verus!
