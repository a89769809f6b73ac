//! Integer helpers whose results are stated exactly and whose arithmetic is
//! shown never to leave the machine range.

use vstd::prelude::*;

verus! {

/// The sum of `a` and `b`.
pub fn add(a: i64, b: i64) -> (r: i64)
    requires
        i64::MIN <= a + b <= i64::MAX,
    ensures
        r == a + b,
{
    a + b
}

/// Adds one to the number given.
pub fn add_one(x: i32) -> (r: i32)
    requires
        x < i32::MAX,
    ensures
        r == x + 1,
{
    x + 1
}

} // verus!
