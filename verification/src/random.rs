//! Uniform draws for the synthetic producers.

use rand::Rng;
use vstd::prelude::*;

verus! {

/// `rand::Rng::gen_range` on `rand::thread_rng()`, with the half-open range
/// `low..high`: the value drawn lies in that range. Nothing else is known of
/// it, and two draws may differ.
#[verifier::external_body]
pub(crate) fn draw_in_range(low: u64, high: u64) -> (drawn: u64)
    requires
        low < high,
    ensures
        low <= drawn < high,
{
    rand::thread_rng().gen_range(low..high)
}

/// A draw from `low..high`, as a `u32`.
pub fn draw_u32(low: u32, high: u32) -> (drawn: u32)
    requires
        low < high,
    ensures
        low <= drawn < high,
{
    let drawn: u64 = draw_in_range(low as u64, high as u64);
    drawn as u32
}

/// A draw from `0..len`, as an index.
pub fn draw_index(len: usize) -> (drawn: usize)
    requires
        0 < len,
    ensures
        drawn < len,
{
    let drawn: u64 = draw_in_range(0, len as u64);
    drawn as usize
}

} // verus!
