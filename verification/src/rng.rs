//! The one source of randomness: the symmetry-breaking initial weights.

use vstd::prelude::*;

verus! {

/// Relies on `rand::rng` and `rand::RngExt::random_range`: a draw from the
/// nonempty integer range `lo..hi` is uniform over it, so in particular it
/// lies within it. Nothing more is assumed of the value.
#[verifier::external_body]
pub(crate) fn random_in_range(lo: i64, hi: i64) -> (r: i64)
    requires
        lo < hi,
    ensures
        lo <= r < hi,
{
    let mut generator = rand::rng();
    rand::RngExt::random_range(&mut generator, lo..hi)
}

} // verus!
