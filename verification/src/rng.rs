//! Trusted boundary to the random-number generator.
//!
//! Every random draw in a run goes through the single seedable generator
//! stream declared here; the rest of the library is verified against the
//! one-line contract of `draw_raw`.

use vstd::prelude::*;

verus! {

#[verifier::external_type_specification]
#[verifier::external_body]
pub struct ExStdRng(rand::rngs::StdRng);

/// Relies on rand::distributions::Uniform::from(Range) and
/// rand::distributions::Distribution::sample: a draw from the half-open
/// range `1..10_000` lies in that range.
#[verifier::external_body]
pub(crate) fn draw_raw(rng: &mut rand::rngs::StdRng) -> (r: usize)
    ensures
        1 <= r < 10_000,
{
    rand::distributions::Distribution::sample(&rand::distributions::Uniform::from(1usize..10_000), rng)
}

} // verus!
