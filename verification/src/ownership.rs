//! Small string-moving helpers: each contract says exactly how the value
//! travels.

use vstd::prelude::*;

verus! {

/// Hands a freshly made string to the caller.
pub fn gives_ownership() -> (r: String)
    ensures
        r@ == "yours"@,
{
    let some_string = String::from_str("yours");
    some_string
}

/// Takes a string and hands the same string back.
pub fn takes_and_gives_back(a_string: String) -> (r: String)
    ensures
        r == a_string,
{
    a_string
}

/// Returns a string together with its length in characters.
pub fn calc_length(s: String) -> (r: (String, usize))
    ensures
        r.0 == s,
        r.1 == s@.len(),
{
    let length = s.as_str().unicode_len();
    (s, length)
}

/// The length of a borrowed string, in characters.
pub fn calc_length2(s: &String) -> (r: usize)
    ensures
        r == s@.len(),
{
    s.as_str().unicode_len()
}

/// Appends ", world" in place.
pub fn change(some_string: &mut String)
    ensures
        final(some_string)@ == old(some_string)@ + ", world"@,
{
    some_string.append(", world");
}

/// Builds a string locally and moves it out: nothing dangles.
pub fn no_dangle() -> (r: String)
    ensures
        r@ == "hello"@,
{
    let s = String::from_str("hello");
    s
}

} // verus!
