use vstd::prelude::*;

verus! {

/// Relies on rand::random_range: a value drawn from the thread-local
/// generator, uniformly within the given inclusive bounds. The draw is
/// random, so nothing beyond the bounds holds of any one outcome; the
/// non-empty range rules out the documented panic.
#[verifier::external_body]
pub(crate) fn draw_in_range(lo: u64, hi: u64) -> (r: u64)
    requires
        lo <= hi,
    ensures
        lo <= r <= hi,
{
    rand::random_range(lo..=hi)
}

} // verus!
