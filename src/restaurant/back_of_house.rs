//! The kitchen.

use vstd::prelude::*;

verus! {

fn fix_incorrect_order() {
    cook_order();
    super::server_order();
}

fn cook_order() {
}

/// A breakfast: the guest picks the toast, the kitchen the fruit.
pub struct Breakfast {
    pub toast: String,
    seasonal_fruit: String,
}

pub enum Appetizer {
    Soup,
    Salad,
}

impl Breakfast {
    /// The toast that the guest picked.
    pub closed spec fn toast_view(&self) -> Seq<char> {
        self.toast@
    }

    /// The fruit that comes with it.
    pub closed spec fn fruit(&self) -> Seq<char> {
        self.seasonal_fruit@
    }

    /// A summer breakfast: `toast` with peaches.
    pub fn summer(toast: &str) -> (r: Breakfast)
        ensures
            r.toast_view() == toast@,
            r.fruit() == "Peaches"@,
    {
        Breakfast { toast: toast.to_owned(), seasonal_fruit: "Peaches".to_owned() }
    }
}

} // verus!
