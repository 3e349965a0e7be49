//! Operators on `u64`.
//!
//! These follow the plain Rust operators on `u64`: a result that does not fit
//! in `u64`, a division by `0` and a negative difference is
//! left out by the preconditions.
use vstd::prelude::*;
use super::integer::{abs_int, power, trunc_div, trunc_rem};
use super::num;

verus! {

/// Whether `a` equals `b`.
pub fn equal(a: u64, b: u64) -> (r: bool)
    ensures
        r == (a == b),
{
    a == b
}

/// Whether `a` differs from `b`.
pub fn not_equal(a: u64, b: u64) -> (r: bool)
    ensures
        r == (a != b),
{
    a != b
}

/// `base` raised to the power `exponent`; only the low 32 bits of
/// `exponent` are used, as a `u32` exponent.
pub fn pow(base: u64, exponent: u64) -> (r: u64)
    requires
        u64::MIN <= power(base as int, (exponent as u32) as nat) <= u64::MAX,
    ensures
        r as int == power(base as int, (exponent as u32) as nat),
{
    match num::checked_pow(base, exponent as u32) {
        Some(v) => v,
        None => 0,
    }
}

/// Whether `a` is greater than or equal to `b`.
pub fn ge(a: u64, b: u64) -> (r: bool)
    ensures
        r == (a >= b),
{
    a >= b
}

/// Whether `a` is lower than or equal to `b`.
pub fn le(a: u64, b: u64) -> (r: bool)
    ensures
        r == (a <= b),
{
    a <= b
}

/// `a + b`.
pub fn add(a: u64, b: u64) -> (r: u64)
    requires
        u64::MIN <= a + b <= u64::MAX,
    ensures
        r == a + b,
{
    a + b
}

/// `dividend ÷ divisor`, rounding towards zero.
pub fn div(dividend: u64, divisor: u64) -> (r: u64)
    requires
        divisor != 0,
        u64::MIN <= trunc_div(dividend as int, divisor as int) <= u64::MAX,
    ensures
        r as int == trunc_div(dividend as int, divisor as int),
{
    match num::checked_div(dividend, divisor) {
        Some(v) => v,
        None => 0,
    }
}

/// `a × b`.
pub fn mult(a: u64, b: u64) -> (r: u64)
    requires
        u64::MIN <= a * b <= u64::MAX,
    ensures
        r == a * b,
{
    a * b
}

/// Remainder of `dividend ÷ divisor`, rounding towards zero.
pub fn rem(dividend: u64, divisor: u64) -> (r: u64)
    requires
        divisor != 0,
        u64::MIN <= trunc_div(dividend as int, divisor as int) <= u64::MAX,
    ensures
        r as int == trunc_rem(dividend as int, divisor as int),
{
    match num::checked_rem(dividend, divisor) {
        Some(v) => v,
        None => 0,
    }
}

/// `a - b`.
pub fn sub(a: u64, b: u64) -> (r: u64)
    requires
        u64::MIN <= a - b <= u64::MAX,
    ensures
        r == a - b,
{
    a - b
}

/// Whether `a` is strictly greater than `b`.
pub fn gt(a: u64, b: u64) -> (r: bool)
    ensures
        r == (a > b),
{
    a > b
}

/// Whether `a` is strictly lower than `b`.
pub fn lt(a: u64, b: u64) -> (r: bool)
    ensures
        r == (a < b),
{
    a < b
}

/// The lower of `a` and `b`.
pub fn min(a: u64, b: u64) -> (r: u64)
    ensures
        r == (if a <= b { a } else { b }),
{
    if a <= b {
        a
    } else {
        b
    }
}

/// The greater of `a` and `b`.
pub fn max(a: u64, b: u64) -> (r: u64)
    ensures
        r == (if a <= b { b } else { a }),
{
    if a <= b {
        b
    } else {
        a
    }
}

} // verus!
