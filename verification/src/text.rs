//! Choosing between two string slices.

use vstd::prelude::*;
use vstd::string::*;

verus! {

/// `a` comes after `b` in lexicographic order: at the first position where
/// they differ `a` holds the greater byte, or `b` ends there and `a` goes on.
pub open spec fn comes_after(a: Seq<u8>, b: Seq<u8>) -> bool {
    exists|k: int|
        0 <= k < a.len() && k <= b.len() && #[trigger] a.take(k) == b.take(k) && (k == b.len()
            || a[k] > b[k])
}

/// The greater of two strings in the order of their UTF-8 bytes, and `y`
/// where they are equal.
pub fn understand_lifetimes<'a>(x: &'a str, y: &'a str) -> (r: &'a str)
    ensures
        r@ == (if comes_after(x.spec_bytes(), y.spec_bytes()) {
            x@
        } else {
            y@
        }),
{
    let a = x.as_bytes();
    let b = y.as_bytes();
    let mut k: usize = 0;
    while k < a.len() && k < b.len() && a[k] == b[k]
        invariant
            k <= a@.len(),
            k <= b@.len(),
            forall|i: int| 0 <= i < k ==> a@[i] == b@[i],
        decreases a.len() - k,
    {
        k += 1;
    }
    let after = k < a.len() && (k == b.len() || a[k] > b[k]);
    proof {
        if after {
            assert(a@.take(k as int) =~= b@.take(k as int));
        } else {
            assert forall|j: int|
                0 <= j < a@.len() && j <= b@.len() && #[trigger] a@.take(j) == b@.take(j) implies !(
            j == b@.len() || a@[j] > b@[j]) by {
                if j > k {
                    assert(a@.take(j)[k as int] == a@[k as int]);
                }
            }
        }
    }
    if after {
        x
    } else {
        y
    }
}

/// The longer of two strings by their length in bytes, and `y` where both
/// are equally long.
pub fn longest<'a>(x: &'a str, y: &'a str) -> (r: &'a str)
    ensures
        r@ == (if x.spec_bytes().len() > y.spec_bytes().len() {
            x@
        } else {
            y@
        }),
{
    if x.as_bytes().len() > y.as_bytes().len() {
        x
    } else {
        y
    }
}

} // verus!
