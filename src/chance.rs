//! The pseudo-random draws that the camera makes.
use vstd::prelude::*;

verus! {

/// Relies on `macroquad::rand::gen_range` for `i32` (quad-rand 0.2): it scales
/// a 32-bit draw `k` to `low + (high - low) * k / 2^32` in `f64` and truncates.
/// For bounds in `0..=65536` every step is exact in `f64`, so the result lies
/// in `low..high`.
#[verifier::external_body]
pub(crate) fn random_below(low: i32, high: i32) -> (r: i32)
    requires
        0 <= low < high <= 65536,
    ensures
        low <= r < high,
{
    macroquad::rand::gen_range::<i32>(low, high)
}

} // verus!
