//! Passing functions as values: applying a function twice and summing the
//! results.

use vstd::prelude::*;

verus! {

/// Adds one to a signed number.
pub fn add_one(x: i32) -> (r: i32)
    requires
        x < i32::MAX,
    ensures
        r == x + 1,
{
    x + 1
}

/// Applies `f` to `arg` twice and adds the two results. The caller
/// guarantees that `f` accepts `arg` and that any two of its results sum
/// without overflow; the sum of two such results comes back.
pub fn do_twice<F: Fn(i32) -> i32>(f: F, arg: i32) -> (r: i32)
    requires
        call_requires(f, (arg,)),
        forall|y1: i32, y2: i32|
            call_ensures(f, (arg,), y1) && call_ensures(f, (arg,), y2) ==> i32::MIN <= y1 + y2
                <= i32::MAX,
    ensures
        exists|y1: i32, y2: i32|
            call_ensures(f, (arg,), y1) && call_ensures(f, (arg,), y2) && r == y1 + y2,
{
    let a = f(arg);
    let b = f(arg);
    a + b
}

} // verus!
