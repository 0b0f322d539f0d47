//! Moving an index by a signed step.

use vstd::prelude::*;

verus! {

/// The index `u` moved by `i`, as a mathematical integer.
pub open spec fn shifted(u: usize, i: i32) -> int {
    u as int + i as int
}

/// Moves the index `u` by the signed step `i`.
///
/// Gives the moved index where it is a `usize`, and `None` where it would
/// fall below zero or beyond `usize::MAX`.
pub fn add(u: usize, i: i32) -> (r: Option<usize>)
    ensures
        r == if 0 <= shifted(u, i) <= usize::MAX {
            Some(shifted(u, i) as usize)
        } else {
            None::<usize>
        },
{
    if i < 0 {
        let down: i64 = -(i as i64);
        u.checked_sub(down as usize)
    } else {
        u.checked_add(i as usize)
    }
}

} // verus!
