//! Small integer helpers.

use vstd::prelude::*;

verus! {

/// The number after `x`.
pub fn add_one(x: i32) -> (r: i32)
    requires
        x < i32::MAX,
    ensures
        r == x + 1,
{
    x + 1
}

/// The sum of two numbers whose sum fits.
pub fn add_stuff(val1: i32, val2: i32) -> (r: i32)
    requires
        i32::MIN <= val1 + val2 <= i32::MAX,
    ensures
        r == val1 + val2,
{
    val1 + val2
}

} // verus!
