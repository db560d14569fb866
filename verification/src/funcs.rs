//! Small arithmetic functions with exact contracts.

use vstd::prelude::*;

verus! {

/// Returns 5.
pub fn five() -> (r: i32)
    ensures
        r == 5,
{
    5
}

/// Returns its argument plus one.
pub fn plus_one(x: i32) -> (r: i32)
    requires
        x < i32::MAX,
    ensures
        r == x + 1,
{
    x + 1
}

/// Returns its argument plus two.
pub fn plus_two(x: i32) -> (r: i32)
    requires
        x <= i32::MAX - 2,
    ensures
        r == x + 2,
{
    x + 2
}

} // verus!
