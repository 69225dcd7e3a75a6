//! A restaurant menu: appetizers and seasonal breakfasts whose fruit is
//! chosen by the kitchen, not the guest.

use vstd::prelude::*;

verus! {

/// The appetizers on offer.
#[derive(Debug, Clone, Copy, PartialEq, Eq, Structural)]
pub enum Appetizer {
    Soup,
    Salad,
}

/// A breakfast order: the guest picks the toast; the seasonal fruit is
/// fixed by the season's constructor and cannot be set directly.
#[derive(Debug)]
pub struct Breakfast {
    pub toast: String,
    seasonal_fruit: String,
}

impl Breakfast {
    /// The fruit the kitchen chose, readable but not assignable.
    pub closed spec fn fruit(&self) -> Seq<char> {
        self.seasonal_fruit@
    }

    /// The toast the guest chose.
    pub closed spec fn toast_view(&self) -> Seq<char> {
        self.toast@
    }

    /// Summer breakfast: the chosen toast with peaches.
    pub fn summer(toast: &str) -> (r: Breakfast)
        ensures
            r.toast_view() == toast@,
            r.fruit() == "peaches"@,
    {
        Breakfast { toast: toast.to_owned(), seasonal_fruit: "peaches".to_owned() }
    }

    /// Winter breakfast: the chosen toast with oranges.
    pub fn winter(toast: &str) -> (r: Breakfast)
        ensures
            r.toast_view() == toast@,
            r.fruit() == "oranges"@,
    {
        Breakfast { toast: toast.to_owned(), seasonal_fruit: "oranges".to_owned() }
    }

    /// Autumn breakfast: the chosen toast with persimmons.
    pub fn autumn(toast: &str) -> (r: Breakfast)
        ensures
            r.toast_view() == toast@,
            r.fruit() == "persimmons"@,
    {
        Breakfast { toast: toast.to_owned(), seasonal_fruit: "persimmons".to_owned() }
    }

    /// The fruit as a string, for display.
    pub fn fruit_name(&self) -> (r: &String)
        ensures
            r@ == self.fruit(),
    {
        &self.seasonal_fruit
    }
}

} // verus!
