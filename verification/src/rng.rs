//! The crate's one source of randomness: a uniform draw from a half-open
//! integer range, backed by the process-wide thread-local generator.

use vstd::prelude::*;

verus! {

/// Relies on rand::Rng::gen_range on rand::thread_rng(): a uniform draw
/// from the half-open range `lo..hi`, which panics only on an empty range.
/// Nothing beyond membership in the range can be promised of a random draw.
#[verifier::external_body]
pub fn draw_in_range(lo: i64, hi: i64) -> (r: i64)
    requires
        lo < hi,
    ensures
        lo <= r < hi,
{
    rand::Rng::gen_range(&mut rand::thread_rng(), lo..hi)
}

} // verus!
