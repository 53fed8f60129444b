//! Finding the largest element of a list, concretely and generically.

use vstd::prelude::*;

verus! {

use core::cmp::Ordering;
use vstd::std_specs::cmp::PartialOrdSpec;

/// The largest element of a non-empty list of numbers.
pub fn largest_non_generic(list: &Vec<i32>) -> (r: i32)
    requires
        list@.len() > 0,
    ensures
        list@.contains(r),
        forall|k: int| 0 <= k < list@.len() ==> list@[k] <= r,
{
    let mut largest = list[0];
    let mut i: usize = 1;
    while i < list.len()
        invariant
            1 <= i <= list@.len(),
            list@.contains(largest),
            forall|k: int| 0 <= k < i ==> list@[k] <= largest,
        decreases list@.len() - i,
    {
        if list[i] > largest {
            largest = list[i];
        }
        i = i + 1;
    }
    largest
}

/// The largest element of a non-empty list of numbers.
pub fn largest_i32(list: &Vec<i32>) -> (r: i32)
    requires
        list@.len() > 0,
    ensures
        list@.contains(r),
        forall|k: int| 0 <= k < list@.len() ==> list@[k] <= r,
{
    largest_non_generic(list)
}

/// The largest element of a non-empty list of characters.
pub fn largest_char(list: &Vec<char>) -> (r: char)
    requires
        list@.len() > 0,
    ensures
        list@.contains(r),
        forall|k: int| 0 <= k < list@.len() ==> list@[k] <= r,
{
    let mut largest = list[0];
    let mut i: usize = 1;
    while i < list.len()
        invariant
            1 <= i <= list@.len(),
            list@.contains(largest),
            forall|k: int| 0 <= k < i ==> list@[k] <= largest,
        decreases list@.len() - i,
    {
        if list[i] > largest {
            largest = list[i];
        }
        i = i + 1;
    }
    largest
}

/// The longer of two string slices, measured in characters; a tie goes to
/// the first.
pub fn longest<'a>(x: &'a str, y: &'a str) -> (r: &'a str)
    ensures
        r@ == (if x@.len() >= y@.len() {
            x@
        } else {
            y@
        }),
{
    if x.unicode_len() >= y.unicode_len() {
        x
    } else {
        y
    }
}

/// `a` compares less than or equal to `b` under the type's own order.
pub open spec fn ord_leq<T: PartialOrd + PartialOrdSpec>(a: T, b: T) -> bool {
    a.partial_cmp_spec(&b) matches Some(Ordering::Less | Ordering::Equal)
}

/// What a lawful total order provides: every pair compares, an element
/// equals itself, greater-than flips to less-than, and less-or-equal
/// chains. `i32`, `char` and the other primitive orders all have this.
pub open spec fn lawful_order<T: PartialOrd + PartialOrdSpec>() -> bool {
    &&& forall|a: T, b: T| (#[trigger] a.partial_cmp_spec(&b)) is Some
    &&& forall|a: T| #[trigger] a.partial_cmp_spec(&a) == Some(Ordering::Equal)
    &&& forall|a: T, b: T|
        #[trigger] a.partial_cmp_spec(&b) == Some(Ordering::Greater)
            ==> b.partial_cmp_spec(&a) == Some(Ordering::Less)
    &&& forall|a: T, b: T, c: T|
        #[trigger] ord_leq(a, b) && #[trigger] ord_leq(b, c) ==> ord_leq(a, c)
}

/// The largest element of a non-empty list, for any element type whose
/// comparison operator is a lawful total order that means what its
/// specification says: an element of the list that no element exceeds.
pub fn largest<T: PartialOrd + PartialOrdSpec + Copy>(list: &Vec<T>) -> (r: T)
    requires
        list@.len() > 0,
        T::obeys_partial_cmp_spec(),
        lawful_order::<T>(),
    ensures
        list@.contains(r),
        forall|k: int| 0 <= k < list@.len() ==> ord_leq(#[trigger] list@[k], r),
{
    let mut largest = list[0];
    let mut i: usize = 1;
    while i < list.len()
        invariant
            T::obeys_partial_cmp_spec(),
            lawful_order::<T>(),
            1 <= i <= list@.len(),
            list@.contains(largest),
            forall|k: int| 0 <= k < i ==> ord_leq(#[trigger] list@[k], largest),
        decreases list@.len() - i,
    {
        if list[i] > largest {
            let ghost prev = largest;
            largest = list[i];
            proof {
                assert(ord_leq(prev, largest));
                assert forall|k: int| 0 <= k < i + 1 implies ord_leq(
                    #[trigger] list@[k],
                    largest,
                ) by {
                    if k < i {
                        assert(ord_leq(list@[k], prev));
                    }
                }
            }
        }
        i = i + 1;
    }
    largest
}

} // verus!
