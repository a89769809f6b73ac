//! Picking shoes by size.

use vstd::prelude::*;

verus! {

/// A shoe on offer.
#[derive(Debug, PartialEq)]
pub struct Shoe {
    pub size: u32,
    pub style: String,
}

/// The test whether a shoe has the size `user_size`.
pub open spec fn has_size(user_size: u32) -> spec_fn(Shoe) -> bool {
    |s: Shoe| s.size == user_size
}

/// The shoes of `shoes` whose size is `user_size`, in the order in which
/// they were given.
pub fn shoes_size(shoes: Vec<Shoe>, user_size: u32) -> (fitting: Vec<Shoe>)
    ensures
        fitting@ == shoes@.filter(has_size(user_size)),
{
    let ghost all = shoes@;
    let mut fitting: Vec<Shoe> = Vec::new();
    proof {
        reveal(Seq::filter);
    }
    for shoe in it: shoes
        invariant
            it.seq() == all,
            fitting@ == all.take(it.index() as int).filter(has_size(user_size)),
    {
        proof {
            let seen = all.take(it.index() as int);
            assert(all.take(it.index() + 1) =~= seen.push(shoe));
            seen.lemma_filter_push(shoe, has_size(user_size));
        }
        if shoe.size == user_size {
            fitting.push(shoe);
        }
    }
    assert(all.take(all.len() as int) =~= all);
    fitting
}

} // verus!
