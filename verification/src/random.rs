//! The one place where the library asks for a random number.

use vstd::prelude::*;

verus! {

/// Largest bound that `random_below` takes.
pub const RANDOM_BOUND_MAX: usize = 0x10_0000;

/// Calls `macroquad::rand::gen_range(0, high)`, which is `gen_range` of the
/// crate `quad-rand`, on `usize`. It advances the process-wide generator and
/// scales its next 32-bit output `x` to `0 + (high - 0) * (x / 2^32)` in
/// double precision, cut to an integer. For a bound of at most twenty bits
/// that product is exact and less than `high`, so the result is an index
/// below `high`. Which index comes back is not stated.
#[verifier::external_body]
pub(crate) fn random_below(high: usize) -> (r: usize)
    requires
        0 < high <= RANDOM_BOUND_MAX,
    ensures
        r < high,
{
    macroquad::rand::gen_range(0usize, high)
}

} // verus!
