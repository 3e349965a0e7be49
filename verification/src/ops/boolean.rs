//! Logic operators on `bool`.
use vstd::prelude::*;

verus! {

/// Whether `a` equals `b`.
pub fn equal(a: bool, b: bool) -> (r: bool)
    ensures
        r == (a == b),
{
    a == b
}

/// Whether `a` differs from `b`.
pub fn not_equal(a: bool, b: bool) -> (r: bool)
    ensures
        r == (a != b),
{
    a != b
}

/// `a` and `b`.
pub fn and(a: bool, b: bool) -> (r: bool)
    ensures
        r == (a && b),
{
    a && b
}

/// `a` or `b`.
pub fn or(a: bool, b: bool) -> (r: bool)
    ensures
        r == (a || b),
{
    a || b
}

/// `a` exclusive-or `b`.
pub fn xor(a: bool, b: bool) -> (r: bool)
    ensures
        r == (a != b),
{
    a != b
}

/// Negation of `val`.
pub fn not(val: bool) -> (r: bool)
    ensures
        r == !val,
{
    !val
}

} // verus!
