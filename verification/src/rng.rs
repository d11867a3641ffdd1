//! The crate's only source of randomness: a seeded generator from the
//! `rand` crate, reached through the two trusted items below.

use vstd::prelude::*;

verus! {

#[verifier::external_type_specification]
#[verifier::external_body]
pub struct ExStdRng(rand::rngs::StdRng);

/// Relies on rand's `SeedableRng::from_entropy`: returns a generator
/// seeded from the operating system's entropy source. Nothing is promised
/// of the values it will produce. (It aborts only if the operating system
/// cannot supply entropy at all.)
#[verifier::external_body]
pub(crate) fn rng_from_entropy() -> rand::rngs::StdRng {
    <rand::rngs::StdRng as rand::SeedableRng>::from_entropy()
}

/// Relies on rand's `Rng::gen_range` over `0..bound`: returns a value of
/// the non-empty range, so the result is below `bound`. Which value comes
/// back is left open — it differs from call to call.
#[verifier::external_body]
pub(crate) fn rng_gen_below(rng: &mut rand::rngs::StdRng, bound: u32) -> (r: u32)
    requires
        1 <= bound,
    ensures
        r < bound,
{
    rand::Rng::gen_range(rng, 0..bound)
}

} // verus!
