//! Random draws. Nothing can be known of a drawn value beyond its range,
//! so the callers' contracts state what holds for every draw.
use vstd::prelude::*;

verus! {

/// Relies on `rand::Rng::gen_range` with `thread_rng()`: a value drawn
/// uniformly from the inclusive range `lo..=hi`, which it refuses to be
/// empty.
#[verifier::external_body]
pub(crate) fn random_in(lo: i64, hi: i64) -> (r: i64)
    requires
        lo <= hi,
    ensures
        lo <= r <= hi,
{
    rand::Rng::gen_range(&mut rand::thread_rng(), lo..=hi)
}

} // verus!
