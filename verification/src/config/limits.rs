//! Machine limits on configured numbers.

use vstd::prelude::*;

verus! {

/// Whether `x` is too large to be held in a `usize` on this machine.
pub fn is_large_i64(x: i64) -> (r: bool)
    ensures
        r == (x > usize::MAX),
{
    x > 0 && (x as u64) > (usize::MAX as u64)
}

} // verus!
