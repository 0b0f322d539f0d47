//! The computer's source of chance.

use rand::Rng;
use vstd::prelude::*;

verus! {

/// Draws a row or a column for the computer.
///
/// Calls `Rng::gen_range` of the crate `rand` on the generator that
/// `rand::thread_rng` hands out, with the range `0..=2`. Not proved: that the
/// number drawn lies in that range, which is all the contract claims. Which
/// of the three numbers comes is left open, and two calls may differ. The
/// system seeds the generator at its first use in a thread; where it cannot,
/// `rand` ends the program.
#[verifier::external_body]
pub(crate) fn pick_random_position() -> (p: u32)
    ensures
        p <= 2,
{
    rand::thread_rng().gen_range(0..=2)
}

} // verus!
