//! Comparison of strings.
use vstd::prelude::*;

verus! {

/// Whether `a` equals `b`.
pub fn equal(a: &String, b: &String) -> (r: bool)
    ensures
        r == (a@ == b@),
{
    *a == *b
}

/// Whether `a` differs from `b`.
pub fn not_equal(a: &String, b: &String) -> (r: bool)
    ensures
        r == (a@ != b@),
{
    !(*a == *b)
}

} // verus!
