//! Ascending order on sequences of `i32`, and a merge sort proved against it.

use vstd::prelude::*;
use vstd::seq_lib::*;

verus! {

/// `s` never decreases from one position to a later one.
pub open spec fn ascending(s: Seq<i32>) -> bool {
    forall|i: int, j: int| 0 <= i <= j < s.len() ==> s[i] <= s[j]
}

/// The usual order on `i32`, as a relation.
pub open spec fn at_most() -> spec_fn(i32, i32) -> bool {
    |a: i32, b: i32| a <= b
}

/// The elements of `s`, each as often as it occurs in `s`, in ascending order.
pub open spec fn sorted_of(s: Seq<i32>) -> Seq<i32> {
    s.sort_by(at_most())
}

/// `sorted_of(s)` is ascending and is a rearrangement of `s`.
pub proof fn lemma_sorted_of(s: Seq<i32>)
    ensures
        ascending(sorted_of(s)),
        sorted_of(s).to_multiset() == s.to_multiset(),
        sorted_of(s).len() == s.len(),
{
    s.lemma_sort_by_ensures(at_most());
    let t = sorted_of(s);
    assert forall|i: int, j: int| 0 <= i <= j < t.len() implies t[i] <= t[j] by {
        if i < j {
            assert(at_most()(t[i], t[j]));
        }
    }
    to_multiset_len(s);
    to_multiset_len(t);
}

/// An ascending sequence is determined by how often each value occurs in it.
pub proof fn lemma_ascending_unique(a: Seq<i32>, b: Seq<i32>)
    requires
        ascending(a),
        ascending(b),
        a.to_multiset() == b.to_multiset(),
    ensures
        a == b,
{
    lemma_sorted_unique(a, b, at_most());
}

/// The only ascending rearrangement of `s` is `sorted_of(s)`.
pub proof fn lemma_ascending_rearrangement(s: Seq<i32>, t: Seq<i32>)
    requires
        ascending(t),
        t.to_multiset() == s.to_multiset(),
    ensures
        t == sorted_of(s),
{
    lemma_sorted_of(s);
    lemma_ascending_unique(t, sorted_of(s));
}

/// Sorting looks only at how often each value occurs, not at where.
pub proof fn lemma_sorted_of_ignores_order(a: Seq<i32>, b: Seq<i32>)
    requires
        a.to_multiset() == b.to_multiset(),
    ensures
        sorted_of(a) == sorted_of(b),
{
    lemma_sorted_of(a);
    lemma_ascending_rearrangement(b, sorted_of(a));
}

/// Merges two ascending vectors into one.
fn merge(left: &Vec<i32>, right: &Vec<i32>) -> (out: Vec<i32>)
    requires
        ascending(left@),
        ascending(right@),
    ensures
        ascending(out@),
        out@.to_multiset() == left@.to_multiset().add(right@.to_multiset()),
{
    let mut out: Vec<i32> = Vec::new();
    let mut i: usize = 0;
    let mut j: usize = 0;
    proof {
        assert(left@.take(0) + right@.take(0) =~= out@);
        lemma_multiset_commutative(left@.take(0), right@.take(0));
    }
    while i < left.len() || j < right.len()
        invariant
            i <= left.len(),
            j <= right.len(),
            ascending(left@),
            ascending(right@),
            ascending(out@),
            out@.to_multiset() == left@.take(i as int).to_multiset().add(
                right@.take(j as int).to_multiset(),
            ),
            forall|k: int, m: int| 0 <= k < out.len() && i <= m < left.len() ==> out@[k] <= left@[m],
            forall|k: int, m: int|
                0 <= k < out.len() && j <= m < right.len() ==> out@[k] <= right@[m],
        decreases (left.len() - i) + (right.len() - j),
    {
        let from_left = if j == right.len() {
            true
        } else if i == left.len() {
            false
        } else {
            left[i] <= right[j]
        };
        let ghost before = out@;
        if from_left {
            let x = left[i];
            proof {
                assert(left@.take(i + 1) =~= left@.take(i as int).push(x));
                to_multiset_build(left@.take(i as int), x);
                to_multiset_build(before, x);
            }
            out.push(x);
            i += 1;
        } else {
            let x = right[j];
            proof {
                assert(right@.take(j + 1) =~= right@.take(j as int).push(x));
                to_multiset_build(right@.take(j as int), x);
                to_multiset_build(before, x);
            }
            out.push(x);
            j += 1;
        }
    }
    proof {
        assert(left@.take(i as int) =~= left@);
        assert(right@.take(j as int) =~= right@);
    }
    out
}

/// An ascending copy of `v[lo..hi]`.
fn sorted_range(v: &Vec<i32>, lo: usize, hi: usize) -> (out: Vec<i32>)
    requires
        lo <= hi <= v.len(),
    ensures
        ascending(out@),
        out@.to_multiset() == v@.subrange(lo as int, hi as int).to_multiset(),
    decreases hi - lo,
{
    if hi - lo <= 1 {
        let mut out: Vec<i32> = Vec::new();
        if lo < hi {
            out.push(v[lo]);
        }
        assert(out@ =~= v@.subrange(lo as int, hi as int));
        out
    } else {
        let mid = lo + (hi - lo) / 2;
        let left = sorted_range(v, lo, mid);
        let right = sorted_range(v, mid, hi);
        proof {
            let a = v@.subrange(lo as int, mid as int);
            let b = v@.subrange(mid as int, hi as int);
            assert(v@.subrange(lo as int, hi as int) =~= a + b);
            lemma_multiset_commutative(a, b);
        }
        merge(&left, &right)
    }
}

/// Sorts `v` in ascending order: afterwards it holds the same values, each
/// as often as before, and never decreases.
pub fn sort_ascending(v: &mut Vec<i32>)
    ensures
        final(v)@ == sorted_of(old(v)@),
        ascending(final(v)@),
        final(v)@.to_multiset() == old(v)@.to_multiset(),
        final(v)@.len() == old(v)@.len(),
{
    let sorted = sorted_range(v, 0, v.len());
    proof {
        assert(v@.subrange(0, v.len() as int) =~= v@);
        lemma_ascending_rearrangement(v@, sorted@);
        lemma_sorted_of(v@);
    }
    *v = sorted;
}

} // verus!
