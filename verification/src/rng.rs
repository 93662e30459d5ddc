//! The one randomness primitive the game draws on.

use vstd::prelude::*;

verus! {

/// Relies on macroquad's `rand::gen_range` (a re-export of
/// `quad_rand::gen_range`): for `i64` it computes
/// `low + (high - low) * k / 2^32` in `f64` and truncates toward zero,
/// with `k` drawn uniformly from `0..2^32`. Called with `low == 0` and a
/// small positive `high`, the product `high * k` stays below `2^53`, so
/// the `f64` arithmetic is exact and the value strictly below `high`; the
/// result therefore lies in `[0, high)`.
#[verifier::external_body]
pub(crate) fn gen_below(high: i64) -> (r: i64)
    requires
        1 <= high <= 2 * crate::pos::DIM_LIMIT,
    ensures
        0 <= r < high,
{
    macroquad::rand::gen_range(0, high)
}

} // verus!
