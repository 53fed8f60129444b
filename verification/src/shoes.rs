//! Filtering a shoe inventory by size, keeping the order.

use vstd::prelude::*;

verus! {

/// A shoe: a size and a style name.
#[derive(Debug, PartialEq)]
pub struct Shoe {
    pub size: u32,
    pub style: String,
}

/// The shoes of size `sz`, in their original order.
pub open spec fn shoes_matching(shoes: Seq<Shoe>, sz: u32) -> Seq<Shoe>
    decreases shoes.len(),
{
    if shoes.len() == 0 {
        Seq::empty()
    } else {
        (if shoes.first().size == sz {
            seq![shoes.first()]
        } else {
            Seq::empty()
        }) + shoes_matching(shoes.drop_first(), sz)
    }
}

/// Keeps exactly the shoes of the given size, in order.
pub fn shoes_in_size(shoes: Vec<Shoe>, shoe_size: u32) -> (r: Vec<Shoe>)
    ensures
        r@ == shoes_matching(shoes@, shoe_size),
{
    let ghost orig = shoes@;
    let mut shoes = shoes;
    let mut r: Vec<Shoe> = Vec::new();
    proof {
        assert(r@ + shoes_matching(shoes@, shoe_size) =~= shoes_matching(orig, shoe_size));
    }
    while shoes.len() > 0
        invariant
            shoes_matching(orig, shoe_size) == r@ + shoes_matching(shoes@, shoe_size),
        decreases shoes@.len(),
    {
        let ghost rem = shoes@;
        let s = shoes.remove(0);
        proof {
            assert(shoes@ =~= rem.drop_first());
            assert(s == rem.first());
            if s.size == shoe_size {
                assert(r@.push(s) + shoes_matching(shoes@, shoe_size) =~= r@ + (seq![s]
                    + shoes_matching(shoes@, shoe_size)));
            } else {
                assert(shoes_matching(rem, shoe_size) =~= shoes_matching(shoes@, shoe_size));
            }
        }
        if s.size == shoe_size {
            r.push(s);
        }
    }
    proof {
        assert(shoes_matching(shoes@, shoe_size) =~= Seq::<Shoe>::empty());
        assert(r@ + Seq::<Shoe>::empty() =~= r@);
    }
    r
}

} // verus!
