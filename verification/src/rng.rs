//! The one source of randomness: a serve's vertical tilt.

use vstd::prelude::*;

verus! {

/// Relies on rand::Rng::gen_range over an inclusive integer range: a sample
/// drawn uniformly from within the closed range. The precondition keeps the
/// range non-empty, on which gen_range panics.
#[verifier::external_body]
pub(crate) fn random_between(lo: i64, hi: i64) -> (r: i64)
    requires
        lo <= hi,
    ensures
        lo <= r <= hi,
{
    rand::Rng::gen_range(&mut rand::thread_rng(), lo..=hi)
}

} // verus!
