//! Numeric functions generic over the integer types.
//!
//! The plain operators (`add`, `sub`, `mul`, `neg`, `pow`) never fail: a
//! result out of the bounds of the type wraps around. `div`, `rem`,
//! `euclid_div` and `euclid_rem` give `0` for a division by `0`. The
//! `checked_*` variants give `None` where the result does not fit, and the
//! `saturating_*` ones clamp it to the nearest bound.
use vstd::prelude::*;
use super::integer::{
    Integer, Signed, abs_int, checked_result, fits, lemma_euclid_div_fits, lemma_power_unfit,
    lemma_trunc_div_bound, lemma_trunc_div_fits, lemma_wrap_fits, lemma_wrap_mul_absorb,
    lemma_wrap_multiple, lemma_wrap_shift, modulus, power, saturate, sign_int, trunc_div, trunc_rem,
    wrap,
};
use vstd::arithmetic::div_mod::lemma_fundamental_div_mod;

verus! {

/// `-1` in a signed type.
fn minus_one<N: Signed>() -> (r: N)
    ensures
        r.val() == -1,
{
    let zero = N::zero();
    proof {
        N::lemma_signed();
        N::lemma_range(zero);
    }
    match zero.checked_sub_op(N::one()) {
        Some(v) => v,
        None => N::zero(),
    }
}

/// Whether `b` is `-1`.
fn is_minus_one<N: Integer>(b: N) -> (r: bool)
    ensures
        r == (b.val() == -1),
{
    proof {
        N::lemma_range(b);
    }
    match b.checked_add_op(N::one()) {
        Some(s) => s.is_equal(&N::zero()),
        None => false,
    }
}

/// Absolute value of `value`, or `None` if it does not fit in the type
/// (such as `i8` `-128`).
pub fn abs<N: Signed>(value: N) -> (r: Option<N>)
    ensures
        checked_result(r, abs_int(value.val())),
{
    proof {
        N::lemma_range(value);
    }
    let zero = N::zero();
    if value.is_less(&zero) {
        zero.checked_sub_op(value)
    } else {
        Some(value)
    }
}

/// `-1`, `0` or `1` according to the sign of `value`.
pub fn signum<N: Signed>(value: N) -> (r: N)
    ensures
        r.val() == sign_int(value.val()),
{
    let zero = N::zero();
    if value.is_less(&zero) {
        minus_one()
    } else if zero.is_less(&value) {
        N::one()
    } else {
        zero
    }
}

/// Whether `value` is strictly positive.
pub fn is_positive<N: Signed>(value: N) -> (r: bool)
    ensures
        r == (value.val() > 0),
{
    N::zero().is_less(&value)
}

/// Whether `value` is strictly negative.
pub fn is_negative<N: Signed>(value: N) -> (r: bool)
    ensures
        r == (value.val() < 0),
{
    value.is_less(&N::zero())
}

/// `a + b`, wrapping around the bounds of the type.
pub fn add<N: Integer>(a: N, b: N) -> (r: N)
    ensures
        r.val() == wrap::<N>(a.val() + b.val()),
{
    a.wrapping_add_op(b)
}

/// `a + b`, or `None` if it does not fit.
pub fn checked_add<N: Integer>(a: N, b: N) -> (r: Option<N>)
    ensures
        checked_result(r, a.val() + b.val()),
{
    a.checked_add_op(b)
}

/// `a + b`, clamped to the bounds of the type.
pub fn saturating_add<N: Integer>(a: N, b: N) -> (r: N)
    ensures
        r.val() == saturate::<N>(a.val() + b.val()),
{
    proof {
        N::lemma_range(a);
        N::lemma_range(b);
    }
    match a.checked_add_op(b) {
        Some(v) => v,
        None => if N::zero().is_less(&b) {
            N::max_value()
        } else {
            N::min_value()
        },
    }
}

/// `a + b`, wrapping around the bounds of the type.
pub fn wrapping_add<N: Integer>(a: N, b: N) -> (r: N)
    ensures
        r.val() == wrap::<N>(a.val() + b.val()),
{
    a.wrapping_add_op(b)
}

/// `a - b`, wrapping around the bounds of the type.
pub fn sub<N: Integer>(a: N, b: N) -> (r: N)
    ensures
        r.val() == wrap::<N>(a.val() - b.val()),
{
    a.wrapping_sub_op(b)
}

/// `a - b`, or `None` if it does not fit.
pub fn checked_sub<N: Integer>(a: N, b: N) -> (r: Option<N>)
    ensures
        checked_result(r, a.val() - b.val()),
{
    a.checked_sub_op(b)
}

/// `a - b`, clamped to the bounds of the type.
pub fn saturating_sub<N: Integer>(a: N, b: N) -> (r: N)
    ensures
        r.val() == saturate::<N>(a.val() - b.val()),
{
    proof {
        N::lemma_range(a);
        N::lemma_range(b);
    }
    match a.checked_sub_op(b) {
        Some(v) => v,
        None => if b.is_less(&N::zero()) {
            N::max_value()
        } else {
            N::min_value()
        },
    }
}

/// `a - b`, wrapping around the bounds of the type.
pub fn wrapping_sub<N: Integer>(a: N, b: N) -> (r: N)
    ensures
        r.val() == wrap::<N>(a.val() - b.val()),
{
    a.wrapping_sub_op(b)
}

/// `a × b`, wrapping around the bounds of the type.
pub fn mul<N: Integer>(a: N, b: N) -> (r: N)
    ensures
        r.val() == wrap::<N>(a.val() * b.val()),
{
    a.wrapping_mul_op(b)
}

/// `a × b`, or `None` if it does not fit.
pub fn checked_mul<N: Integer>(a: N, b: N) -> (r: Option<N>)
    ensures
        checked_result(r, a.val() * b.val()),
{
    a.checked_mul_op(b)
}

/// `a × b`, clamped to the bounds of the type.
pub fn saturating_mul<N: Integer>(a: N, b: N) -> (r: N)
    ensures
        r.val() == saturate::<N>(a.val() * b.val()),
{
    proof {
        N::lemma_range(a);
        N::lemma_range(b);
    }
    match a.checked_mul_op(b) {
        Some(v) => v,
        None => {
            let zero = N::zero();
            let a_neg = a.is_less(&zero);
            let b_neg = b.is_less(&zero);
            proof {
                let x = a.val();
                let y = b.val();
                if x < 0 && y < 0 {
                    assert(x * y > 0) by (nonlinear_arith)
                        requires x < 0, y < 0;
                } else if x >= 0 && y >= 0 {
                    assert(x * y >= 0) by (nonlinear_arith)
                        requires x >= 0, y >= 0;
                } else {
                    assert(x * y <= 0) by (nonlinear_arith)
                        requires (x < 0 && y >= 0) || (x >= 0 && y < 0);
                }
            }
            if a_neg == b_neg {
                N::max_value()
            } else {
                N::min_value()
            }
        },
    }
}

/// `a × b`, wrapping around the bounds of the type.
pub fn wrapping_mul<N: Integer>(a: N, b: N) -> (r: N)
    ensures
        r.val() == wrap::<N>(a.val() * b.val()),
{
    a.wrapping_mul_op(b)
}

/// `a ÷ b` rounding towards zero; `0` for a division by `0`, and wrapping for
/// the one overflowing division (the minimum by `-1`).
pub fn div<N: Integer>(a: N, b: N) -> (r: N)
    ensures
        r.val() == if b.val() == 0 {
            0
        } else {
            wrap::<N>(trunc_div(a.val(), b.val()))
        },
{
    proof {
        N::lemma_range(a);
        N::lemma_range(b);
    }
    let zero = N::zero();
    if b.is_equal(&zero) {
        return zero;
    }
    if is_minus_one(b) && a.is_equal(&N::min_value()) {
        proof {
            lemma_trunc_div_bound(a.val(), b.val());
            lemma_wrap_shift(N::lo(), N::hi(), -N::lo(), 1);
        }
        return a;
    }
    proof {
        lemma_trunc_div_fits(a.val(), b.val(), N::lo(), N::hi());
        lemma_wrap_fits(N::lo(), N::hi(), trunc_div(a.val(), b.val()));
    }
    a.div_op(b)
}

/// `a ÷ b` rounding towards zero, or `None` for a division by `0` or a
/// quotient that does not fit.
pub fn checked_div<N: Integer>(a: N, b: N) -> (r: Option<N>)
    ensures
        b.val() == 0 ==> r is None,
        b.val() != 0 ==> checked_result(r, trunc_div(a.val(), b.val())),
{
    proof {
        N::lemma_range(a);
        N::lemma_range(b);
    }
    if b.is_equal(&N::zero()) {
        return None;
    }
    if is_minus_one(b) && a.is_equal(&N::min_value()) {
        proof {
            lemma_trunc_div_bound(a.val(), b.val());
        }
        return None;
    }
    proof {
        lemma_trunc_div_fits(a.val(), b.val(), N::lo(), N::hi());
    }
    Some(a.div_op(b))
}

/// Remainder of `a ÷ b` rounding towards zero; `0` for a division by `0`.
pub fn rem<N: Integer>(a: N, b: N) -> (r: N)
    ensures
        r.val() == if b.val() == 0 {
            0
        } else {
            trunc_rem(a.val(), b.val())
        },
{
    proof {
        N::lemma_range(a);
        N::lemma_range(b);
    }
    let zero = N::zero();
    if b.is_equal(&zero) {
        return zero;
    }
    if is_minus_one(b) && a.is_equal(&N::min_value()) {
        proof {
            lemma_trunc_div_bound(a.val(), b.val());
        }
        return zero;
    }
    proof {
        lemma_trunc_div_fits(a.val(), b.val(), N::lo(), N::hi());
    }
    a.rem_op(b)
}

/// Remainder of `a ÷ b` rounding towards zero, or `None` for a division by
/// `0` or a division that overflows.
pub fn checked_rem<N: Integer>(a: N, b: N) -> (r: Option<N>)
    ensures
        b.val() == 0 ==> r is None,
        b.val() != 0 ==> (r matches Some(v) ==> v.val() == trunc_rem(a.val(), b.val())),
        b.val() != 0 ==> (r is None <==> !fits::<N>(trunc_div(a.val(), b.val()))),
{
    proof {
        N::lemma_range(a);
        N::lemma_range(b);
    }
    if b.is_equal(&N::zero()) {
        return None;
    }
    if is_minus_one(b) && a.is_equal(&N::min_value()) {
        proof {
            lemma_trunc_div_bound(a.val(), b.val());
        }
        return None;
    }
    proof {
        lemma_trunc_div_fits(a.val(), b.val(), N::lo(), N::hi());
    }
    Some(a.rem_op(b))
}

/// `-value`, wrapping around the bounds of the type.
pub fn neg<N: Signed>(value: N) -> (r: N)
    ensures
        r.val() == wrap::<N>(-value.val()),
{
    N::zero().wrapping_sub_op(value)
}

/// `-value`, or `None` if it does not fit.
pub fn checked_neg<N: Integer>(value: N) -> (r: Option<N>)
    ensures
        checked_result(r, -value.val()),
{
    N::zero().checked_sub_op(value)
}

/// `-value`, wrapping around the bounds of the type.
pub fn wrapping_neg<N: Integer>(value: N) -> (r: N)
    ensures
        r.val() == wrap::<N>(-value.val()),
{
    N::zero().wrapping_sub_op(value)
}

/// `value` raised to the power `exp`, wrapping around the bounds of the type.
pub fn pow<N: Integer>(value: N, exp: u32) -> (r: N)
    ensures
        r.val() == wrap::<N>(power(value.val(), exp as nat)),
{
    proof {
        N::lemma_range(value);
        lemma_wrap_fits(N::lo(), N::hi(), 1);
    }
    let mut acc = N::one();
    let mut i: u32 = 0;
    while i < exp
        invariant
            i <= exp,
            acc.val() == wrap::<N>(power(value.val(), i as nat)),
            N::lo() <= 0 < N::hi(),
        decreases exp - i,
    {
        let next = acc.wrapping_mul_op(value);
        proof {
            lemma_wrap_mul_absorb(N::lo(), modulus::<N>(), power(value.val(), i as nat), value.val());
            assert(power(value.val(), (i + 1) as nat) == value.val() * power(value.val(), i as nat));
            assert(power(value.val(), i as nat) * value.val() == value.val() * power(value.val(), i as nat)) by (nonlinear_arith);
        }
        acc = next;
        i = i + 1;
    }
    acc
}

/// `value` raised to the power `exp`, or `None` if it does not fit.
pub fn checked_pow<N: Integer>(value: N, exp: u32) -> (r: Option<N>)
    ensures
        checked_result(r, power(value.val(), exp as nat)),
{
    proof {
        N::lemma_range(value);
    }
    let mut acc = N::one();
    let mut i: u32 = 0;
    while i < exp
        invariant
            i <= exp,
            acc.val() == power(value.val(), i as nat),
            N::lo() == -(N::hi() + 1) || N::lo() == 0,
            N::hi() >= 127,
            N::lo() <= value.val() <= N::hi(),
        decreases exp - i,
    {
        proof {
            assert(power(value.val(), (i + 1) as nat) == value.val() * power(value.val(), i as nat));
            assert(acc.val() * value.val() == value.val() * acc.val()) by (nonlinear_arith);
        }
        match acc.checked_mul_op(value) {
            Some(next) => {
                acc = next;
            },
            None => {
                proof {
                    lemma_power_unfit(value.val(), (i + 1) as nat, exp as nat, N::lo(), N::hi());
                }
                return None;
            },
        }
        i = i + 1;
    }
    proof {
        N::lemma_range(acc);
    }
    Some(acc)
}

/// Euclidean quotient of `a` by `b`; `0` for a division by `0`, and wrapping
/// for the one overflowing division (the minimum by `-1`).
pub fn euclid_div<N: Integer>(a: N, b: N) -> (r: N)
    ensures
        r.val() == if b.val() == 0 {
            0
        } else {
            wrap::<N>(a.val() / b.val())
        },
{
    proof {
        N::lemma_range(a);
        N::lemma_range(b);
    }
    let zero = N::zero();
    if b.is_equal(&zero) {
        return zero;
    }
    if is_minus_one(b) && a.is_equal(&N::min_value()) {
        proof {
            assert(a.val() / -1 == -a.val());
            lemma_wrap_shift(N::lo(), N::hi(), -N::lo(), 1);
        }
        return a;
    }
    proof {
        lemma_euclid_div_fits(a.val(), b.val(), N::lo(), N::hi());
        lemma_wrap_fits(N::lo(), N::hi(), a.val() / b.val());
    }
    a.div_euclid_op(b)
}

/// Euclidean remainder of `a` by `b`, always non-negative; `0` for a
/// division by `0`.
pub fn euclid_rem<N: Integer>(a: N, b: N) -> (r: N)
    ensures
        r.val() == if b.val() == 0 {
            0
        } else {
            a.val() % b.val()
        },
{
    proof {
        N::lemma_range(a);
        N::lemma_range(b);
    }
    let zero = N::zero();
    if b.is_equal(&zero) {
        return zero;
    }
    if is_minus_one(b) && a.is_equal(&N::min_value()) {
        proof {
            assert(a.val() % -1 == 0);
        }
        return zero;
    }
    proof {
        lemma_euclid_div_fits(a.val(), b.val(), N::lo(), N::hi());
    }
    a.rem_euclid_op(b)
}

/// Euclidean quotient of `a` by `b`, or `None` for a division by `0` or a
/// quotient that does not fit.
pub fn checked_euclid_div<N: Integer>(a: N, b: N) -> (r: Option<N>)
    ensures
        b.val() == 0 ==> r is None,
        b.val() != 0 ==> checked_result(r, a.val() / b.val()),
{
    proof {
        N::lemma_range(a);
        N::lemma_range(b);
    }
    if b.is_equal(&N::zero()) {
        return None;
    }
    if is_minus_one(b) && a.is_equal(&N::min_value()) {
        proof {
            assert(a.val() / -1 == -a.val());
        }
        return None;
    }
    proof {
        lemma_euclid_div_fits(a.val(), b.val(), N::lo(), N::hi());
    }
    Some(a.div_euclid_op(b))
}

/// Euclidean remainder of `a` by `b`, or `None` for a division by `0` or a
/// division whose quotient does not fit.
pub fn checked_euclid_rem<N: Integer>(a: N, b: N) -> (r: Option<N>)
    ensures
        b.val() == 0 ==> r is None,
        b.val() != 0 ==> (r matches Some(v) ==> v.val() == a.val() % b.val()),
        b.val() != 0 ==> (r is None <==> !fits::<N>(a.val() / b.val())),
{
    proof {
        N::lemma_range(a);
        N::lemma_range(b);
    }
    if b.is_equal(&N::zero()) {
        return None;
    }
    if is_minus_one(b) && a.is_equal(&N::min_value()) {
        proof {
            assert(a.val() / -1 == -a.val());
        }
        return None;
    }
    proof {
        lemma_euclid_div_fits(a.val(), b.val(), N::lo(), N::hi());
    }
    Some(a.rem_euclid_op(b))
}

/// Where the exact result of an operation fits the type, the plain
/// (wrapping) and the saturating forms give that result, as the checked
/// form does.
pub proof fn lemma_forms_agree_without_overflow<N: Integer>(x: int)
    requires
        fits::<N>(x),
    ensures
        wrap::<N>(x) == x,
        saturate::<N>(x) == x,
        checked_result::<N>(None, x) == false,
{
    lemma_wrap_fits(N::lo(), N::hi(), x);
}

/// Subtracting `b` undoes adding it, with wrapping: `(a + b) - b` gives
/// back `a`, whether the sum overflowed or not.
pub proof fn lemma_wrapping_sub_undoes_add<N: Integer>(a: N, b: N)
    ensures
        wrap::<N>(wrap::<N>(a.val() + b.val()) - b.val()) == a.val(),
{
    N::lemma_range(a);
    let lo = N::lo();
    let m = modulus::<N>();
    let x = a.val() + b.val();
    lemma_fundamental_div_mod(x - lo, m);
    let q = (x - lo) / m;
    assert(wrap::<N>(x) == x - m * q);
    assert(wrap::<N>(x) - b.val() == a.val() + (-q) * m) by (nonlinear_arith)
        requires
            wrap::<N>(x) == x - m * q,
            x == a.val() + b.val(),
    ;
    lemma_wrap_multiple(lo, m, a.val(), -q);
    lemma_wrap_fits(N::lo(), N::hi(), a.val());
}

} // verus!
