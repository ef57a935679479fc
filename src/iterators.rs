//! Stepping through values one at a time.

use vstd::prelude::*;

verus! {

/// Hands out items one at a time until there are none left.
pub trait MyIterator {
    type Item;

    fn next(&mut self) -> Option<Self::Item>;
}

#[derive(PartialEq, Debug)]
pub struct Shoe {
    pub size: u32,
    pub style: String,
}

pub open spec fn shoe_views(v: Seq<Shoe>) -> Seq<(u32, Seq<char>)> {
    v.map_values(|s: Shoe| (s.size, s.style@))
}

/// The shoes of `size`, in the order given.
pub open spec fn of_size(shoes: Seq<(u32, Seq<char>)>, size: u32) -> Seq<(u32, Seq<char>)>
    decreases shoes.len(),
{
    if shoes.len() == 0 {
        Seq::empty()
    } else if shoes.last().0 == size {
        of_size(shoes.drop_last(), size).push(shoes.last())
    } else {
        of_size(shoes.drop_last(), size)
    }
}

/// The shoes of size `shoe_size`, in the order given.
pub fn shoes_in_my_size(shoes: Vec<Shoe>, shoe_size: u32) -> (r: Vec<Shoe>)
    ensures
        shoe_views(r@) == of_size(shoe_views(shoes@), shoe_size),
{
    let ghost orig = shoes@;
    let ghost all = shoe_views(shoes@);
    let mut rest = shoes;
    let mut kept: Vec<Shoe> = Vec::new();
    let mut i: usize = 0;
    assert(all.subrange(0, 0) =~= Seq::<(u32, Seq<char>)>::empty());
    assert(rest@ =~= orig.subrange(0, orig.len() as int));
    let total = rest.len();
    while rest.len() > 0
        invariant
            i + rest@.len() == orig.len(),
            orig.len() == total,
            all == shoe_views(orig),
            rest@ == orig.subrange(i as int, orig.len() as int),
            shoe_views(kept@) == of_size(all.subrange(0, i as int), shoe_size),
        decreases rest@.len(),
    {
        let s = rest.remove(0);
        assert(rest@ =~= orig.subrange(i + 1, orig.len() as int));
        assert(all.subrange(0, i + 1).drop_last() =~= all.subrange(0, i as int));
        assert(all.subrange(0, i + 1).last() == (s.size, s.style@));
        if s.size == shoe_size {
            let ghost before = kept@;
            kept.push(s);
            assert(shoe_views(kept@) =~= shoe_views(before).push(all[i as int]));
        }
        i = i + 1;
    }
    assert(all.subrange(0, i as int) =~= all);
    kept
}

/// Counts from one to five.
pub struct Counter {
    pub count: u32,
}

impl Counter {
    pub fn new() -> (r: Counter)
        ensures
            r.count == 0,
    {
        Counter { count: 0 }
    }

    /// The next number up to five, or `None` once five has been handed out.
    pub fn next(&mut self) -> (r: Option<u32>)
        ensures
            old(self).count < 5 ==> r == Some((old(self).count + 1) as u32) && final(self).count
                == old(self).count + 1,
            old(self).count >= 5 ==> r is None && final(self).count == old(self).count,
    {
        if self.count < 5 {
            self.count = self.count + 1;
            Some(self.count)
        } else {
            None
        }
    }
}

} // verus!
