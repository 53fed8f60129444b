//! A small restaurant front: a breakfast order and the appetizer menu.

use vstd::prelude::*;

verus! {

/// A breakfast order: the customer picks the toast, the kitchen picks the
/// seasonal fruit.
pub struct Breakfast {
    pub toast: String,
    seasonal_fruit: String,
}

impl Breakfast {
    /// The kitchen's fruit choice, for contracts.
    pub closed spec fn spec_fruit(&self) -> Seq<char> {
        self.seasonal_fruit@
    }

    /// The chosen toast, for contracts.
    pub closed spec fn spec_toast(&self) -> Seq<char> {
        self.toast@
    }

    /// The summer breakfast: the requested toast, with peaches.
    pub fn summer(toast: &str) -> (b: Breakfast)
        ensures
            b.spec_toast() == toast@,
            b.spec_fruit() == "peaches"@,
    {
        Breakfast { toast: String::from_str(toast), seasonal_fruit: String::from_str("peaches") }
    }
}

/// The appetizers on the menu.
#[derive(Debug, Clone, Copy, PartialEq, Eq, Structural)]
pub enum Appetizer {
    Soup,
    Salad,
}

/// Puts a party on the waitlist. The list itself lives with the host; this
/// is the front desk's entry point.
pub fn add_to_waitlist() {
}

} // verus!
