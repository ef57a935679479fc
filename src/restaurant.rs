//! A restaurant's module tree: who serves at the front, who cooks at the back.

pub mod hosting;
mod serving;
pub mod back_of_house;

use vstd::prelude::*;
use crate::restaurant::hosting::add_to_waitlist;

verus! {

/// Seats a party by way of the front of house.
pub fn eat_at_restaurant() {
    crate::restaurant::hosting::add_to_waitlist();
    hosting::add_to_waitlist();
}

fn server_order() {
}

pub fn eat_at_restaurant3() {
    hosting::add_to_waitlist();
}

pub fn eat_at_restaurant4() {
    hosting::add_to_waitlist();
}

pub fn eat_at_restaurant5() {
    add_to_waitlist();
}

pub fn eat_at_restaurant6() {
    add_to_waitlist();
}

} // verus!
