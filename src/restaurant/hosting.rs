//! Greeting guests.

use vstd::prelude::*;

verus! {

pub fn add_to_waitlist() {
}

fn seat_at_table() {
}

} // verus!
