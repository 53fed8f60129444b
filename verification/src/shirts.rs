//! A giveaway: a customer gets the shirt colour they ask for, or else the
//! colour the inventory has most of.

use vstd::prelude::*;

verus! {

/// The two shirt colours of the promotion.
#[derive(Debug, Clone, Copy, PartialEq, Eq, Structural)]
pub enum ShirtColor {
    Red,
    Blue,
}

/// How many shirts of colour `c` the sequence holds.
pub open spec fn count_color(shirts: Seq<ShirtColor>, c: ShirtColor) -> nat
    decreases shirts.len(),
{
    if shirts.len() == 0 {
        0
    } else {
        count_color(shirts.drop_last(), c) + (if shirts.last() == c {
            1nat
        } else {
            0nat
        })
    }
}

/// The promotion stock.
pub struct Inventory {
    pub shirts: Vec<ShirtColor>,
}

impl Inventory {
    /// The giveaway rule: the customer's preference wins; without one, the
    /// most stocked colour is handed out.
    pub fn giveaway(&self, user_preference: Option<ShirtColor>) -> (r: ShirtColor)
        ensures
            r == (match user_preference {
                Some(c) => c,
                None => if count_color(self.shirts@, ShirtColor::Red) > count_color(
                    self.shirts@,
                    ShirtColor::Blue,
                ) {
                    ShirtColor::Red
                } else {
                    ShirtColor::Blue
                },
            }),
    {
        match user_preference {
            Some(c) => c,
            None => self.most_stocked(),
        }
    }

    /// The colour with the larger stock; a tie goes to blue.
    pub fn most_stocked(&self) -> (r: ShirtColor)
        ensures
            r == (if count_color(self.shirts@, ShirtColor::Red) > count_color(
                self.shirts@,
                ShirtColor::Blue,
            ) {
                ShirtColor::Red
            } else {
                ShirtColor::Blue
            }),
    {
        let mut num_red: usize = 0;
        let mut num_blue: usize = 0;
        let mut i: usize = 0;
        while i < self.shirts.len()
            invariant
                i <= self.shirts@.len(),
                num_red == count_color(self.shirts@.take(i as int), ShirtColor::Red),
                num_blue == count_color(self.shirts@.take(i as int), ShirtColor::Blue),
                num_red + num_blue <= i,
            decreases self.shirts@.len() - i,
        {
            proof {
                assert(self.shirts@.take(i + 1).drop_last() =~= self.shirts@.take(i as int));
                assert(self.shirts@.take(i + 1).last() == self.shirts@[i as int]);
            }
            match self.shirts[i] {
                ShirtColor::Red => {
                    num_red = num_red + 1;
                }
                ShirtColor::Blue => {
                    num_blue = num_blue + 1;
                }
            }
            i = i + 1;
        }
        proof {
            assert(self.shirts@.take(self.shirts@.len() as int) =~= self.shirts@);
        }
        if num_red > num_blue {
            ShirtColor::Red
        } else {
            ShirtColor::Blue
        }
    }
}

} // verus!
