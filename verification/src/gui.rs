//! A tiny drawable-component abstraction: a screen renders a heterogeneous
//! list of components, each of which knows how to draw itself.

use vstd::prelude::*;

verus! {

/// A component that can draw itself into a line of output.
pub trait Draw {
    /// What this component draws, for contracts.
    spec fn rendered(&self) -> Seq<char>;

    /// Draws the component: the returned line is exactly its rendering.
    fn draw(&self) -> (r: String)
        ensures
            r@ == self.rendered(),
    ;
}

/// A screen holds any mix of drawable components.
pub struct Screen {
    pub components: Vec<Box<dyn Draw>>,
}

impl Screen {
    /// Draws every component in order and hands the lines back.
    pub fn run(&self) -> (r: Vec<String>)
        ensures
            r@.len() == self.components@.len(),
            forall|i: int|
                0 <= i < r@.len() ==> (#[trigger] r@[i])@ == self.components@[i].rendered(),
    {
        let mut out: Vec<String> = Vec::new();
        let mut i: usize = 0;
        while i < self.components.len()
            invariant
                i <= self.components@.len(),
                out@.len() == i,
                forall|k: int|
                    0 <= k < i ==> (#[trigger] out@[k])@ == self.components@[k].rendered(),
            decreases self.components@.len() - i,
        {
            out.push(self.components[i].draw());
            i = i + 1;
        }
        out
    }
}

/// A push button with a label.
pub struct Button {
    pub width: u32,
    pub height: u32,
    pub label: String,
}

impl Draw for Button {
    open spec fn rendered(&self) -> Seq<char> {
        "draw a button |-OK-| !!"@
    }

    fn draw(&self) -> (r: String)
        ensures
            r@ == self.rendered(),
    {
        String::from_str("draw a button |-OK-| !!")
    }
}

/// A select box with a list of options.
pub struct SelectBox {
    pub width: u32,
    pub height: u32,
    pub options: Vec<String>,
}

impl Draw for SelectBox {
    open spec fn rendered(&self) -> Seq<char> {
        "draw me a select-[___]-box!!"@
    }

    fn draw(&self) -> (r: String)
        ensures
            r@ == self.rendered(),
    {
        String::from_str("draw me a select-[___]-box!!")
    }
}

} // verus!
