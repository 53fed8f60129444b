//! One-step arithmetic helpers.

use vstd::prelude::*;

verus! {

/// Adds one to a given number.
pub fn add_one(x: i32) -> (r: i32)
    requires
        x < i32::MAX,
    ensures
        r == x + 1,
{
    x + 1
}

/// Adds one, under its own name next to `add_one`.
pub fn plus_one(x: i32) -> (r: i32)
    requires
        x < i32::MAX,
    ensures
        r == x + 1,
{
    x + 1
}

/// The fixed value a demonstration function returns.
pub fn return_values() -> (r: i32)
    ensures
        r == 5,
{
    5
}

} // verus!
