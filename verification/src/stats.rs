//! Median and mode of a collection of integers.
//!
//! The median of integers is either a whole number or a whole number and a
//! half, so it is kept as its double, which is always an integer and loses
//! nothing. Where several values are equally frequent, the mode is the
//! smallest of them, so that both results depend only on which values the
//! collection holds and how often, never on their order.

use crate::frequency::{is_mode, lemma_mode_unique, FrequencyMap};
use crate::sorting::{ascending, lemma_sorted_of_ignores_order, sort_ascending, sorted_of};
use vstd::prelude::*;
use vstd::seq_lib::*;

verus! {

/// A median, held as twice its value.
#[derive(Clone, Copy, Debug, PartialEq, Eq, Structural)]
pub struct Median {
    /// Twice the median: even for a whole median, odd for one that ends in
    /// a half.
    pub doubled: i64,
}

/// What `find_mode_and_median` reports.
#[derive(Clone, Copy, Debug, PartialEq, Eq, Structural)]
pub struct Stats {
    /// The middle of the values in ascending order.
    pub median: Median,
    /// The most frequent value, the smallest where several are equally
    /// frequent.
    pub mode: i32,
}

/// Why no statistics could be computed.
#[derive(Clone, Copy, Debug, PartialEq, Eq, Structural)]
pub enum StatsError {
    /// The collection holds no value, so it has neither median nor mode.
    EmptyInput,
}

/// Twice the median of `s`: with the elements in ascending order, the sum of
/// the two middle ones where their number is even, and twice the middle one
/// where it is odd.
pub open spec fn median_doubled(s: Seq<i32>) -> int
    recommends
        s.len() > 0,
{
    let t = sorted_of(s);
    let n = t.len() as int;
    if n % 2 == 0 {
        t[n / 2 - 1] + t[n / 2]
    } else {
        2 * t[n / 2]
    }
}

/// The mode of `s`: the smallest among its most frequent values.
pub open spec fn mode_of(s: Seq<i32>) -> i32
    recommends
        s.len() > 0,
{
    choose|m: i32| is_mode(s.to_multiset(), m)
}

/// Every collection that is not empty has a mode, and `mode_of` names it: a
/// value of the collection that no value outnumbers, and the smallest such.
pub proof fn lemma_mode_of_is_mode(s: Seq<i32>)
    requires
        s.len() > 0,
    ensures
        is_mode(s.to_multiset(), mode_of(s)),
        s.contains(mode_of(s)),
{
    let witness = lemma_some_mode(s);
    assert(is_mode(s.to_multiset(), witness));
    to_multiset_contains(s, mode_of(s));
}

/// A mode of `s`, found by going through `s` element by element.
proof fn lemma_some_mode(s: Seq<i32>) -> (m: i32)
    requires
        s.len() > 0,
    ensures
        is_mode(s.to_multiset(), m),
    decreases s.len(),
{
    broadcast use vstd::multiset::group_multiset_axioms;

    let x = s.last();
    let rest = s.drop_last();
    assert(s =~= rest.push(x));
    to_multiset_build(rest, x);
    to_multiset_len(rest);
    let bag = s.to_multiset();
    if rest.len() == 0 {
        x
    } else {
        let earlier = lemma_some_mode(rest);
        if bag.count(x) > bag.count(earlier) || (bag.count(x) == bag.count(earlier) && x
            < earlier) {
            x
        } else {
            earlier
        }
    }
}

/// Median and mode depend only on how often each value occurs: two
/// collections that are rearrangements of each other have the same median
/// and the same mode.
pub proof fn lemma_statistics_ignore_order(a: Seq<i32>, b: Seq<i32>)
    requires
        a.to_multiset() == b.to_multiset(),
    ensures
        median_doubled(a) == median_doubled(b),
        mode_of(a) == mode_of(b),
{
    lemma_sorted_of_ignores_order(a, b);
}

/// Sorts `v` in place and returns its median and its mode, or
/// `StatsError::EmptyInput` where `v` is empty.
pub fn find_mode_and_median(v: &mut Vec<i32>) -> (r: Result<Stats, StatsError>)
    ensures
        final(v)@ == sorted_of(old(v)@),
        ascending(final(v)@),
        final(v)@.to_multiset() == old(v)@.to_multiset(),
        old(v)@.len() == 0 ==> r == Err::<Stats, StatsError>(StatsError::EmptyInput),
        old(v)@.len() > 0 ==> r is Ok,
        r matches Ok(stats) ==> stats.median.doubled == median_doubled(old(v)@),
        r matches Ok(stats) ==> stats.mode == mode_of(old(v)@),
        r matches Ok(stats) ==> old(v)@.contains(stats.mode),
        r matches Ok(stats) ==> is_mode(old(v)@.to_multiset(), stats.mode),
{
    sort_ascending(v);
    let counts = FrequencyMap::from_values(v.as_slice());
    match counts.most_frequent() {
        None => Err(StatsError::EmptyInput),
        Some(mode) => {
            let n = v.len();
            let doubled: i64 = if n % 2 == 0 {
                v[n / 2 - 1] as i64 + v[n / 2] as i64
            } else {
                2 * (v[n / 2] as i64)
            };
            proof {
                lemma_mode_of_is_mode(old(v)@);
                lemma_mode_unique(old(v)@.to_multiset(), mode, mode_of(old(v)@));
            }
            Ok(Stats { median: Median { doubled }, mode })
        },
    }
}

} // verus!
