//! The random source that every draw of the library goes through.

use vstd::prelude::*;
use rand::Rng;

verus! {

/// The seedable generator of the `rand` crate; seeded alike, two of them draw alike.
#[verifier::external_type_specification]
#[verifier::external_body]
pub struct ExStdRng(rand::rngs::StdRng);

/// Relies on `rand::Rng::gen_range` over `0..bound`: it returns a value of the
/// range, and panics only where the range is empty.
#[verifier::external_body]
pub(crate) fn draw_below(rng: &mut rand::rngs::StdRng, bound: usize) -> (r: usize)
    requires
        bound > 0,
    ensures
        r < bound,
{
    rng.gen_range(0..bound)
}

} // verus!
