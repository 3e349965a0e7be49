//! Operators on `i64`.
//!
//! These follow the plain Rust operators on `i64`: a result that does not fit
//! in `i64`, a division by `0` and the absolute value of the minimum are
//! left out by the preconditions.
use vstd::prelude::*;
use super::integer::{abs_int, power, trunc_div, trunc_rem};
use super::num;

verus! {

/// Whether `a` equals `b`.
pub fn equal(a: i64, b: i64) -> (r: bool)
    ensures
        r == (a == b),
{
    a == b
}

/// Whether `a` differs from `b`.
pub fn not_equal(a: i64, b: i64) -> (r: bool)
    ensures
        r == (a != b),
{
    a != b
}

/// `base` raised to the power `exponent`; only the low 32 bits of
/// `exponent` are used, as a `u32` exponent.
pub fn pow(base: i64, exponent: i64) -> (r: i64)
    requires
        i64::MIN <= power(base as int, (exponent as u32) as nat) <= i64::MAX,
    ensures
        r as int == power(base as int, (exponent as u32) as nat),
{
    match num::checked_pow(base, exponent as u32) {
        Some(v) => v,
        None => 0,
    }
}

/// Whether `a` is greater than or equal to `b`.
pub fn ge(a: i64, b: i64) -> (r: bool)
    ensures
        r == (a >= b),
{
    a >= b
}

/// Whether `a` is lower than or equal to `b`.
pub fn le(a: i64, b: i64) -> (r: bool)
    ensures
        r == (a <= b),
{
    a <= b
}

/// `a + b`.
pub fn add(a: i64, b: i64) -> (r: i64)
    requires
        i64::MIN <= a + b <= i64::MAX,
    ensures
        r == a + b,
{
    a + b
}

/// `dividend ÷ divisor`, rounding towards zero.
pub fn div(dividend: i64, divisor: i64) -> (r: i64)
    requires
        divisor != 0,
        i64::MIN <= trunc_div(dividend as int, divisor as int) <= i64::MAX,
    ensures
        r as int == trunc_div(dividend as int, divisor as int),
{
    match num::checked_div(dividend, divisor) {
        Some(v) => v,
        None => 0,
    }
}

/// `a × b`.
pub fn mult(a: i64, b: i64) -> (r: i64)
    requires
        i64::MIN <= a * b <= i64::MAX,
    ensures
        r == a * b,
{
    a * b
}

/// Remainder of `dividend ÷ divisor`, rounding towards zero.
pub fn rem(dividend: i64, divisor: i64) -> (r: i64)
    requires
        divisor != 0,
        i64::MIN <= trunc_div(dividend as int, divisor as int) <= i64::MAX,
    ensures
        r as int == trunc_rem(dividend as int, divisor as int),
{
    match num::checked_rem(dividend, divisor) {
        Some(v) => v,
        None => 0,
    }
}

/// `a - b`.
pub fn sub(a: i64, b: i64) -> (r: i64)
    requires
        i64::MIN <= a - b <= i64::MAX,
    ensures
        r == a - b,
{
    a - b
}

/// Whether `a` is strictly greater than `b`.
pub fn gt(a: i64, b: i64) -> (r: bool)
    ensures
        r == (a > b),
{
    a > b
}

/// Whether `a` is strictly lower than `b`.
pub fn lt(a: i64, b: i64) -> (r: bool)
    ensures
        r == (a < b),
{
    a < b
}

/// The lower of `a` and `b`.
pub fn min(a: i64, b: i64) -> (r: i64)
    ensures
        r == (if a <= b { a } else { b }),
{
    if a <= b {
        a
    } else {
        b
    }
}

/// The greater of `a` and `b`.
pub fn max(a: i64, b: i64) -> (r: i64)
    ensures
        r == (if a <= b { b } else { a }),
{
    if a <= b {
        b
    } else {
        a
    }
}

/// Absolute value of `value`.
pub fn abs(value: i64) -> (r: i64)
    requires
        value != i64::MIN,
    ensures
        r as int == abs_int(value as int),
{
    if value < 0 {
        -value
    } else {
        value
    }
}

} // verus!
