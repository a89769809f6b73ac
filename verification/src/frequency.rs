//! A table that counts how often each value was seen.
//!
//! The table keeps one entry per distinct value, ordered by value, so that
//! walking it visits the values in ascending order and a tie between equally
//! frequent values is always settled in favour of the smallest.

use vstd::multiset::*;
use vstd::prelude::*;
use vstd::seq_lib::*;

verus! {

/// `m` occurs in `bag` at least as often as every other value, and is the
/// smallest value that does.
pub open spec fn is_mode(bag: Multiset<i32>, m: i32) -> bool {
    &&& bag.count(m) > 0
    &&& forall|x: i32| #[trigger] bag.count(x) <= bag.count(m)
    &&& forall|x: i32| #[trigger] bag.count(x) == bag.count(m) ==> m <= x
}

/// A bag has at most one mode.
pub proof fn lemma_mode_unique(bag: Multiset<i32>, a: i32, b: i32)
    requires
        is_mode(bag, a),
        is_mode(bag, b),
    ensures
        a == b,
{
}

/// Occurrence counts of `i32` values.
pub struct FrequencyMap {
    /// One entry per distinct value, ascending by value, with its count.
    entries: Vec<(i32, usize)>,
    /// How many values were recorded, repetitions included.
    total: usize,
    /// The values recorded so far.
    recorded: Ghost<Multiset<i32>>,
}

impl View for FrequencyMap {
    type V = Multiset<i32>;

    /// The recorded values, each as often as it was recorded.
    closed spec fn view(&self) -> Multiset<i32> {
        self.recorded@
    }
}

impl FrequencyMap {
    /// The entries hold exactly the recorded values: distinct, ascending,
    /// each with a positive count that is its multiplicity, and `total` is
    /// the sum of all counts.
    pub closed spec fn wf(&self) -> bool {
        &&& self.total == self.recorded@.len()
        &&& forall|i: int, j: int|
            0 <= i < j < self.entries@.len() ==> (#[trigger] self.entries@[i]).0 < (
            #[trigger] self.entries@[j]).0
        &&& forall|i: int|
            0 <= i < self.entries@.len() ==> (#[trigger] self.entries@[i]).1 >= 1
                && self.recorded@.count(self.entries@[i].0) == self.entries@[i].1
        &&& forall|x: i32| #[trigger]
            self.recorded@.count(x) > 0 ==> exists|i: int|
                0 <= i < self.entries@.len() && (#[trigger] self.entries@[i]).0 == x
    }

    /// A table in which nothing has been recorded yet.
    pub fn new() -> (r: Self)
        ensures
            r.wf(),
            r@ == Multiset::<i32>::empty(),
    {
        broadcast use group_multiset_axioms;

        FrequencyMap { entries: Vec::new(), total: 0, recorded: Ghost(Multiset::empty()) }
    }

    /// Index of the first entry whose value is not below `value`.
    fn position(&self, value: i32) -> (pos: usize)
        requires
            self.wf(),
        ensures
            pos <= self.entries@.len(),
            forall|i: int| 0 <= i < pos ==> (#[trigger] self.entries@[i]).0 < value,
            forall|i: int|
                pos <= i < self.entries@.len() ==> value <= (#[trigger] self.entries@[i]).0,
    {
        let mut lo: usize = 0;
        let mut hi: usize = self.entries.len();
        while lo < hi
            invariant
                self.wf(),
                lo <= hi <= self.entries@.len(),
                forall|i: int| 0 <= i < lo ==> (#[trigger] self.entries@[i]).0 < value,
                forall|i: int|
                    hi <= i < self.entries@.len() ==> value <= (#[trigger] self.entries@[i]).0,
            decreases hi - lo,
        {
            let mid = lo + (hi - lo) / 2;
            if self.entries[mid].0 < value {
                lo = mid + 1;
            } else {
                hi = mid;
            }
        }
        lo
    }

    /// Counts one more occurrence of `value`.
    pub fn record(&mut self, value: i32)
        requires
            old(self).wf(),
            old(self)@.len() < usize::MAX,
        ensures
            final(self).wf(),
            final(self)@ == old(self)@.insert(value),
    {
        broadcast use {group_multiset_axioms, group_multiset_properties};

        let pos = self.position(value);
        let ghost before = self.entries@;
        let ghost bag = self.recorded@;
        if pos < self.entries.len() && self.entries[pos].0 == value {
            let count = self.entries[pos].1;
            self.entries.set(pos, (value, count + 1));
        } else {
            self.entries.insert(pos, (value, 1));
            proof {
                before.insert_ensures(pos as int, (value, 1usize));
            }
        }
        self.total = self.total + 1;
        self.recorded = Ghost(bag.insert(value));
        assert(self.wf()) by {
            let after = self.entries@;
            let grown = bag.insert(value);
            assert forall|x: i32| #[trigger] grown.count(x) > 0 implies exists|i: int|
                0 <= i < after.len() && (#[trigger] after[i]).0 == x by {
                if x == value {
                    assert(after[pos as int].0 == x);
                } else {
                    // `x` had an entry before; it is still there, one place
                    // further on where the new entry went in before it.
                    let i = choose|i: int| 0 <= i < before.len() && (#[trigger] before[i]).0 == x;
                    if after.len() == before.len() || i < pos {
                        assert(after[i].0 == x);
                    } else {
                        assert(after[i + 1].0 == x);
                    }
                }
            }
        }
    }

    /// Counts every element of `values`: the counts add up to the number of
    /// elements.
    pub fn from_values(values: &[i32]) -> (r: Self)
        ensures
            r.wf(),
            r@ == values@.to_multiset(),
            r@.len() == values@.len(),
    {
        let mut table = FrequencyMap::new();
        let mut i: usize = 0;
        proof {
            to_multiset_len(values@.take(0));
        }
        while i < values.len()
            invariant
                i <= values@.len(),
                table.wf(),
                table@ == values@.take(i as int).to_multiset(),
            decreases values.len() - i,
        {
            proof {
                to_multiset_len(values@.take(i as int));
                assert(values@.take(i + 1) =~= values@.take(i as int).push(values@[i as int]));
                to_multiset_build(values@.take(i as int), values@[i as int]);
            }
            table.record(values[i]);
            i += 1;
        }
        proof {
            assert(values@.take(i as int) =~= values@);
            to_multiset_len(values@);
        }
        table
    }

    /// How often `value` was recorded.
    pub fn count(&self, value: i32) -> (r: usize)
        requires
            self.wf(),
        ensures
            r == self@.count(value),
    {
        let pos = self.position(value);
        if pos < self.entries.len() && self.entries[pos].0 == value {
            self.entries[pos].1
        } else {
            0
        }
    }

    /// How many values were recorded, repetitions included: the sum of all
    /// counts.
    pub fn total(&self) -> (r: usize)
        requires
            self.wf(),
        ensures
            r == self@.len(),
    {
        self.total
    }

    /// The most frequent value, the smallest one where several are equally
    /// frequent; `None` where nothing was recorded.
    pub fn most_frequent(&self) -> (r: Option<i32>)
        requires
            self.wf(),
        ensures
            r is None <==> self@.len() == 0,
            r matches Some(m) ==> is_mode(self@, m),
    {
        broadcast use group_multiset_axioms;

        if self.entries.len() == 0 {
            assert(self.recorded@ =~= Multiset::<i32>::empty());
            return None;
        }
        let mut best: usize = 0;
        let mut i: usize = 1;
        while i < self.entries.len()
            invariant
                self.wf(),
                best < i <= self.entries@.len(),
                forall|k: int| 0 <= k < i ==> (#[trigger] self.entries@[k]).1 <= self.entries@[best as int].1,
                forall|k: int| 0 <= k < best ==> (#[trigger] self.entries@[k]).1 < self.entries@[best as int].1,
            decreases self.entries.len() - i,
        {
            if self.entries[i].1 > self.entries[best].1 {
                best = i;
            }
            i += 1;
        }
        Some(self.entries[best].0)
    }
}

} // verus!
