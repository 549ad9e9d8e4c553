//! The crate's one source of randomness: a uniform draw from a symmetric
//! range, used for weight initialization and for search perturbation.

use vstd::prelude::*;

verus! {

/// A uniform random fixed-point value in `[-bound, bound]`.
///
/// Relies on rand's `random_range`: it returns a value of the given range,
/// and panics only on an empty range, which `bound >= 0` rules out here.
/// Nothing more is assumed of the draw.
#[verifier::external_body]
pub(crate) fn random_in(bound: i64) -> (r: i64)
    requires
        0 <= bound,
    ensures
        -bound <= r <= bound,
{
    rand::random_range(-bound..=bound)
}

} // verus!
