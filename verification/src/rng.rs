use vstd::prelude::*;
use rand::Rng;

verus! {

/// Relies on rand::random::<bool>: the Standard distribution draws a fair
/// coin. Nothing can be promised of the outcome of a single draw.
#[verifier::external_body]
pub(crate) fn coin_flip() -> bool {
    rand::random::<bool>()
}

/// Relies on rand::Rng::gen_range on a half-open i64 range: the sample
/// lies in [lo, hi). The call panics on an empty range, which the
/// precondition rules out.
#[verifier::external_body]
pub(crate) fn pick_in_range(lo: i64, hi: i64) -> (r: i64)
    requires
        lo < hi,
    ensures
        lo <= r < hi,
{
    rand::thread_rng().gen_range(lo..hi)
}

} // verus!
