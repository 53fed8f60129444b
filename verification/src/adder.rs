//! Small arithmetic and greeting helpers, with a guarded guess value.

use vstd::prelude::*;

verus! {

/// Sum of two machine-word operands.
pub fn add(left: usize, right: usize) -> (r: usize)
    requires
        left + right <= usize::MAX,
    ensures
        r == left + right,
{
    left + right
}

/// Adds two to a signed number.
pub fn add_two(a: i32) -> (r: i32)
    requires
        a + 2 <= i32::MAX,
    ensures
        r == a + 2,
{
    a + 2
}

/// Adds three to a signed number.
pub fn add_three(a: i32) -> (r: i32)
    requires
        a + 3 <= i32::MAX,
    ensures
        r == a + 3,
{
    a + 3
}

/// Builds the greeting line for a name: "Hello " + name + "!".
pub fn greeting(name: &str) -> (r: String)
    ensures
        r@ == "Hello "@ + name@ + "!"@,
{
    let mut r = String::new();
    r.append("Hello ");
    r.append(name);
    r.append("!");
    r
}

/// A guessing-game value, kept within 1..=100 by construction.
#[derive(Debug)]
pub struct Guess {
    value: i32,
}

impl Guess {
    /// The wrapped value, for contracts.
    pub closed spec fn spec_value(&self) -> i32 {
        self.value
    }

    /// Wraps a value; out-of-range values are the caller's error and are
    /// excluded up front.
    pub fn new(value: i32) -> (r: Guess)
        requires
            1 <= value <= 100,
        ensures
            r.spec_value() == value,
    {
        Guess { value }
    }

    /// Reads the wrapped value back.
    pub fn value(&self) -> (r: i32)
        ensures
            r == self.spec_value(),
    {
        self.value
    }
}

pub fn add_two_too(a: i32) -> (r: i32)
    requires
        a + 2 <= i32::MAX,
    ensures
        r == a + 2,
{
    internal_adder(a, 2)
}

pub fn internal_adder(a: i32, b: i32) -> (r: i32)
    requires
        i32::MIN <= a + b <= i32::MAX,
    ensures
        r == a + b,
{
    a + b
}

/// An axis-aligned rectangle used by the containment checks.
#[derive(Debug)]
pub struct Rectangle {
    pub width: u32,
    pub height: u32,
}

impl Rectangle {
    /// Whether `other` fits strictly inside `self` on both axes.
    pub fn can_hold(&self, other: &Rectangle) -> (r: bool)
        ensures
            r == (self.width > other.width && self.height > other.height),
    {
        self.width > other.width && self.height > other.height
    }
}

} // verus!
