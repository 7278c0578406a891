//! Random draws made through the reducer's random number generator.
use spacetimedb::rand::Rng;
use vstd::prelude::*;

verus! {

/// The random number generator that SpacetimeDB hands to a reducer call.
#[verifier::external_type_specification]
#[verifier::external_body]
pub struct ExStdbRng(spacetimedb::StdbRng);

/// Draws an index uniformly from `0..len` with `rand::Rng::gen_range` on the
/// reducer's generator. Only the range of the result is claimed: which index
/// comes out depends on the generator's state.
#[verifier::external_body]
pub(crate) fn random_index(rng: &spacetimedb::StdbRng, len: usize) -> (index: usize)
    requires
        len > 0,
    ensures
        index < len,
{
    let mut r = rng;
    r.gen_range(0..len)
}

} // verus!
