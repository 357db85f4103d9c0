//! A small menu: a breakfast whose fruit the kitchen chooses, and the
//! appetizers on offer.

use vstd::prelude::*;
use vstd::string::*;

verus! {

/// A breakfast order: the customer picks the toast, the kitchen picks
/// the seasonal fruit.
#[derive(Debug)]
pub struct Breakfast {
    pub toast: String,
    pub seasonal_fruit: String,
}

impl Breakfast {
    /// The summer breakfast: the chosen toast, served with peaches.
    pub fn summer(toast: &str) -> (r: Breakfast)
        ensures
            r.toast@ == toast@,
            r.seasonal_fruit@ == "peaches"@,
    {
        Breakfast { toast: String::from_str(toast), seasonal_fruit: String::from_str("peaches") }
    }
}

/// The appetizers on the menu.
#[derive(Debug, Clone, Copy, PartialEq, Eq, Structural)]
pub enum Appetizer {
    Soup,
    Salad,
}

} // verus!
