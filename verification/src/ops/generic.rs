//! Comparison functions generic over the integer types.
use vstd::prelude::*;
use super::integer::Integer;

verus! {

/// Whether `a` equals `b`.
pub fn equal<T: Integer>(a: T, b: T) -> (r: bool)
    ensures
        r == (a.val() == b.val()),
{
    a.is_equal(&b)
}

/// Whether `a` differs from `b`.
pub fn not_equal<T: Integer>(a: T, b: T) -> (r: bool)
    ensures
        r == (a.val() != b.val()),
{
    !a.is_equal(&b)
}

/// Whether `a` is strictly greater than `b`.
pub fn gt<T: Integer>(a: T, b: T) -> (r: bool)
    ensures
        r == (a.val() > b.val()),
{
    b.is_less(&a)
}

/// Whether `a` is greater than or equal to `b`.
pub fn ge<T: Integer>(a: T, b: T) -> (r: bool)
    ensures
        r == (a.val() >= b.val()),
{
    !a.is_less(&b)
}

/// Whether `a` is strictly lower than `b`.
pub fn lt<T: Integer>(a: T, b: T) -> (r: bool)
    ensures
        r == (a.val() < b.val()),
{
    a.is_less(&b)
}

/// Whether `a` is lower than or equal to `b`.
pub fn le<T: Integer>(a: T, b: T) -> (r: bool)
    ensures
        r == (a.val() <= b.val()),
{
    !b.is_less(&a)
}

/// The lower of `a` and `b` (`a` when they are equal).
pub fn min<T: Integer>(a: T, b: T) -> (r: T)
    ensures
        r == (if a.val() <= b.val() { a } else { b }),
{
    if b.is_less(&a) {
        b
    } else {
        a
    }
}

/// The greater of `a` and `b` (`b` when they are equal).
pub fn max<T: Integer>(a: T, b: T) -> (r: T)
    ensures
        r == (if a.val() <= b.val() { b } else { a }),
{
    if b.is_less(&a) {
        a
    } else {
        b
    }
}

/// `value` restrained to the interval `[min, max]`: `min` if it is lower,
/// `max` if it is greater, `value` itself otherwise.
pub fn clamp<T: Integer>(value: T, min: T, max: T) -> (r: T)
    requires
        min.val() <= max.val(),
    ensures
        r == (if value.val() < min.val() {
            min
        } else if value.val() > max.val() {
            max
        } else {
            value
        }),
{
    if value.is_less(&min) {
        min
    } else if max.is_less(&value) {
        max
    } else {
        value
    }
}

} // verus!
