use vstd::prelude::*;
use rand::Rng;

verus! {

/// Relies on rand's `Rng::gen_range` over the half-open range `0..n`: it
/// panics when the range is empty and otherwise returns a value drawn from
/// within the range, so for `n >= 1` the result is strictly below `n`.
/// Nothing more is assumed of the draw; every caller must be correct for
/// every value below `n`.
#[verifier::external_body]
pub(crate) fn random_below(n: usize) -> (r: usize)
    requires
        n >= 1,
    ensures
        r < n,
{
    rand::thread_rng().gen_range(0..n)
}

} // verus!
