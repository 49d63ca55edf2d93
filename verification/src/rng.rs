//! Trusted access to the process random number generator.
use vstd::prelude::*;

verus! {

/// Relies on rand::random_range over `0..bound`: a value sampled
/// uniformly from the half-open range. The call panics only on an empty
/// range, so the bound must be positive. Nothing more than the range is
/// promised of any one outcome.
#[verifier::external_body]
pub(crate) fn random_below(bound: usize) -> (r: usize)
    requires
        bound > 0,
    ensures
        r < bound,
{
    rand::random_range(0..bound)
}

/// Relies on rand::random::<bool>: a uniformly random boolean. Nothing
/// is promised of the outcome.
#[verifier::external_body]
pub(crate) fn random_bool() -> bool {
    rand::random()
}

} // verus!
