//! The integer model shared by the arithmetic operators.
//!
//! Every primitive integer type is seen through its mathematical value
//! (`val`) and its bounds (`lo`, `hi`). The few primitive operations that
//! each type provides are specified over those values; every operator of the
//! library is then written once, generically, on top of them.
use vstd::prelude::*;
use vstd::arithmetic::div_mod::*;

verus! {

/// `x` is representable in `N`.
pub open spec fn fits<N: Integer>(x: int) -> bool {
    N::lo() <= x <= N::hi()
}

/// Number of values of `N`.
pub open spec fn modulus<N: Integer>() -> int {
    N::hi() - N::lo() + 1
}

/// `x` brought back into the range of `N` by two's complement wrapping.
pub open spec fn wrap<N: Integer>(x: int) -> int {
    N::lo() + (x - N::lo()) % modulus::<N>()
}

/// `x` clamped to the range of `N`.
pub open spec fn saturate<N: Integer>(x: int) -> int {
    if x > N::hi() {
        N::hi()
    } else if x < N::lo() {
        N::lo()
    } else {
        x
    }
}

pub open spec fn abs_int(x: int) -> int {
    if x < 0 { -x } else { x }
}

pub open spec fn sign_int(x: int) -> int {
    if x < 0 { -1 } else if x > 0 { 1 } else { 0 }
}

/// Division rounding towards zero, as `/` does on Rust integers.
pub open spec fn trunc_div(a: int, b: int) -> int {
    let q = abs_int(a) / abs_int(b);
    if (a < 0) == (b < 0) { q } else { -q }
}

/// Remainder of the division rounding towards zero, as `%` does on Rust integers.
pub open spec fn trunc_rem(a: int, b: int) -> int {
    a - b * trunc_div(a, b)
}

/// `r` is `Some` of the value `x` when `x` fits in `N`, and `None` otherwise.
pub open spec fn checked_result<N: Integer>(r: Option<N>, x: int) -> bool {
    match r {
        Some(v) => fits::<N>(x) && v.val() == x,
        None => !fits::<N>(x),
    }
}

/// A primitive integer type, seen through its mathematical value.
pub trait Integer: Sized + Copy {
    spec fn val(self) -> int;

    spec fn lo() -> int;

    spec fn hi() -> int;

    spec fn is_signed() -> bool;

    proof fn lemma_range(x: Self)
        ensures
            Self::lo() <= x.val() <= Self::hi(),
            Self::is_signed() ==> Self::lo() == -(Self::hi() + 1),
            !Self::is_signed() ==> Self::lo() == 0,
            Self::hi() >= 127,
    ;

    proof fn lemma_injective(x: Self, y: Self)
        ensures
            x.val() == y.val() ==> x == y,
    ;

    fn zero() -> (r: Self)
        ensures
            r.val() == 0,
    ;

    fn one() -> (r: Self)
        ensures
            r.val() == 1,
    ;

    fn min_value() -> (r: Self)
        ensures
            r.val() == Self::lo(),
    ;

    fn max_value() -> (r: Self)
        ensures
            r.val() == Self::hi(),
    ;

    fn is_less(&self, other: &Self) -> (r: bool)
        ensures
            r == (self.val() < other.val()),
    ;

    fn is_equal(&self, other: &Self) -> (r: bool)
        ensures
            r == (self.val() == other.val()),
    ;

    fn checked_add_op(self, other: Self) -> (r: Option<Self>)
        ensures
            match r {
                Some(v) => Self::lo() <= (self.val() + other.val()) <= Self::hi() && v.val() == (self.val() + other.val()),
                None => !(Self::lo() <= (self.val() + other.val()) <= Self::hi()),
            },
    ;

    fn checked_sub_op(self, other: Self) -> (r: Option<Self>)
        ensures
            match r {
                Some(v) => Self::lo() <= (self.val() - other.val()) <= Self::hi() && v.val() == (self.val() - other.val()),
                None => !(Self::lo() <= (self.val() - other.val()) <= Self::hi()),
            },
    ;

    fn checked_mul_op(self, other: Self) -> (r: Option<Self>)
        ensures
            match r {
                Some(v) => Self::lo() <= (self.val() * other.val()) <= Self::hi() && v.val() == (self.val() * other.val()),
                None => !(Self::lo() <= (self.val() * other.val()) <= Self::hi()),
            },
    ;

    /// Division rounding towards zero; requires a non-zero divisor whose
    /// quotient fits.
    fn div_op(self, other: Self) -> (r: Self)
        requires
            other.val() != 0,
            Self::lo() <= trunc_div(self.val(), other.val()) <= Self::hi(),
        ensures
            r.val() == trunc_div(self.val(), other.val()),
    ;

    fn rem_op(self, other: Self) -> (r: Self)
        requires
            other.val() != 0,
            Self::lo() <= trunc_div(self.val(), other.val()) <= Self::hi(),
        ensures
            r.val() == trunc_rem(self.val(), other.val()),
    ;

    fn div_euclid_op(self, other: Self) -> (r: Self)
        requires
            other.val() != 0,
            Self::lo() <= self.val() / other.val() <= Self::hi(),
        ensures
            r.val() == self.val() / other.val(),
    ;

    fn rem_euclid_op(self, other: Self) -> (r: Self)
        requires
            other.val() != 0,
            Self::lo() <= self.val() / other.val() <= Self::hi(),
        ensures
            r.val() == self.val() % other.val(),
    ;

    fn wrapping_add_op(self, other: Self) -> (r: Self)
        ensures
            r.val() == Self::lo() + ((self.val() + other.val()) - Self::lo()) % (Self::hi() - Self::lo() + 1),
    ;

    fn wrapping_sub_op(self, other: Self) -> (r: Self)
        ensures
            r.val() == Self::lo() + ((self.val() - other.val()) - Self::lo()) % (Self::hi() - Self::lo() + 1),
    ;

    fn wrapping_mul_op(self, other: Self) -> (r: Self)
        ensures
            r.val() == Self::lo() + ((self.val() * other.val()) - Self::lo()) % (Self::hi() - Self::lo() + 1),
    ;
}

/// A signed primitive integer type.
pub trait Signed: Integer {
    proof fn lemma_signed()
        ensures
            Self::is_signed(),
    ;
}

/// Reduction of `x` into the window `[lo, lo + m)` when the multiple to
/// remove is known.
pub proof fn lemma_mod_window(x: int, lo: int, m: int, k: int)
    requires
        m > 0,
        lo <= x - k * m < lo + m,
    ensures
        lo + (x - lo) % m == x - k * m,
{
    assert(x - lo == k * m + (x - k * m - lo)) by (nonlinear_arith);
    lemma_fundamental_div_mod_converse(x - lo, m, k, x - k * m - lo);
}

/// A value that fits is left unchanged by wrapping.
pub proof fn lemma_wrap_fits(lo: int, hi: int, x: int)
    requires
        lo <= x <= hi,
    ensures
        lo + (x - lo) % (hi - lo + 1) == x,
{
    lemma_mod_window(x, lo, hi - lo + 1, 0);
}

/// Wrapping is exactly the removal of the multiple of the modulus that
/// brings the value back into range.
pub proof fn lemma_wrap_shift(lo: int, hi: int, x: int, k: int)
    requires
        lo <= hi,
        lo <= x - k * (hi - lo + 1) <= hi,
    ensures
        lo + (x - lo) % (hi - lo + 1) == x - k * (hi - lo + 1),
{
    lemma_mod_window(x, lo, hi - lo + 1, k);
}

/// Wrapping an unsigned value is its remainder by the modulus.
pub proof fn lemma_wrap_unsigned(lo: int, m: int, p: int)
    requires
        lo == 0,
        m > 0,
    ensures
        lo + (p - lo) % m == p % m,
{
}

/// Wrapping a signed value crops the remainder by the modulus into the
/// upper or lower half.
pub proof fn lemma_wrap_signed(hi: int, p: int)
    requires
        hi > 0,
    ensures
        ({
            let m = 2 * hi + 2;
            let lo = -(hi + 1);
            let r = p % m;
            lo + (p - lo) % m == if r > hi { r - m } else { r }
        }),
{
    let m = 2 * hi + 2;
    let lo = -(hi + 1);
    let q = p / m;
    let r = p % m;
    lemma_fundamental_div_mod(p, m);
    assert(0 <= r < m);
    if r > hi {
        assert(p - (q + 1) * m == r - m) by (nonlinear_arith)
            requires p == m * q + r;
        lemma_mod_window(p, lo, m, q + 1);
    } else {
        assert(p - q * m == r) by (nonlinear_arith)
            requires p == m * q + r;
        lemma_mod_window(p, lo, m, q);
    }
}

/// The remainder of the division rounding towards zero, case by case.
pub proof fn lemma_trunc_rem_cases(a: int, b: int)
    requires
        b != 0,
    ensures
        trunc_rem(a, b) == if a == 0 {
            0
        } else if a > 0 && b > 0 {
            a % b
        } else if a < 0 && b < 0 {
            ((a * -1) % (b * -1)) * -1
        } else if a < 0 {
            ((a * -1) % b) * -1
        } else {
            a % (b * -1)
        },
        a >= 0 && b > 0 ==> trunc_div(a, b) == a / b,
        a >= 0 && b > 0 ==> trunc_rem(a, b) == a % b,
        abs_int(trunc_rem(a, b)) < abs_int(b),
{
    let x = abs_int(a);
    let d = abs_int(b);
    lemma_fundamental_div_mod(x, d);
    lemma_mod_bound(x, d);
    let q = x / d;
    assert(a * -1 == -a && b * -1 == -b);
    if a == 0 {
        lemma_div_of0(d);
        lemma_small_mod(0, d as nat);
    } else if a >= 0 && b > 0 {
    } else if a < 0 && b < 0 {
        assert(trunc_rem(a, b) == a - b * q);
        assert(a - b * q == -(x - d * q)) by (nonlinear_arith)
            requires a == -x, b == -d;
    } else if a < 0 {
        assert(trunc_rem(a, b) == a - b * (-q));
        assert(a - b * (-q) == -(x - d * q)) by (nonlinear_arith)
            requires a == -x, b == d;
    } else {
        assert(trunc_rem(a, b) == a - b * (-q));
        assert(a - b * (-q) == x - d * q) by (nonlinear_arith)
            requires a == x, b == -d;
    }
}

/// The quotient rounding towards zero never grows past the dividend.
pub proof fn lemma_trunc_div_bound(a: int, b: int)
    requires
        b != 0,
    ensures
        abs_int(trunc_div(a, b)) <= abs_int(a),
        b == 1 ==> trunc_div(a, b) == a,
        b == -1 ==> trunc_div(a, b) == -a,
{
    let x = abs_int(a);
    let d = abs_int(b);
    lemma_div_basics(x);
    assert(x / d <= x) by {
        lemma_div_is_ordered_by_denominator(x, 1, d);
    }
    assert(x / d >= 0) by {
        lemma_div_pos_is_pos(x, d);
    }
}

/// The quotient rounding towards zero fits, except for the one overflowing
/// division of the minimum by minus one.
pub proof fn lemma_trunc_div_fits(a: int, b: int, lo: int, hi: int)
    requires
        hi >= 3,
        lo == -(hi + 1) || lo == 0,
        lo <= a <= hi,
        lo <= b <= hi,
        b != 0,
        !(a == lo && b == -1),
    ensures
        lo <= trunc_div(a, b) <= hi,
{
    lemma_trunc_div_bound(a, b);
    let x = abs_int(a);
    let d = abs_int(b);
    lemma_div_pos_is_pos(x, d);
    if lo == 0 {
    } else if a != lo {
    } else if b == 1 {
    } else {
        assert(d >= 2);
        lemma_div_is_ordered_by_denominator(x, 2, d);
        assert(x / 2 <= hi);
    }
}

/// The Euclidean quotient fits, except for the one overflowing division of
/// the minimum by minus one.
pub proof fn lemma_euclid_div_fits(a: int, b: int, lo: int, hi: int)
    requires
        hi >= 3,
        lo == -(hi + 1) || lo == 0,
        lo <= a <= hi,
        lo <= b <= hi,
        b != 0,
        !(a == lo && b == -1),
    ensures
        lo <= a / b <= hi,
{
    let q = a / b;
    let r = a % b;
    lemma_fundamental_div_mod(a, b);
    assert(0 <= r < abs_int(b));
    if b > 0 {
        if q > 0 {
            assert(b * q >= q) by (nonlinear_arith)
                requires b >= 1, q > 0;
        }
        assert(lo <= q) by (nonlinear_arith)
            requires
                a == b * q + r,
                r < b,
                lo <= a,
                lo <= 0,
                b >= 1;
    } else if b == -1 {
        assert(q == -(a - r)) by (nonlinear_arith)
            requires a == b * q + r, b == -1;
        assert(r == 0);
    } else {
        assert(lo == -(hi + 1));
        assert(lo <= q <= hi) by (nonlinear_arith)
            requires
                a == b * q + r,
                0 <= r < -b,
                lo <= a <= hi,
                lo == -(hi + 1),
                hi >= 3,
                b <= -2;
    }
}

/// Wrapping does not depend on whole multiples of the modulus.
pub proof fn lemma_wrap_multiple(lo: int, m: int, x: int, j: int)
    requires
        m > 0,
    ensures
        lo + (x + j * m - lo) % m == lo + (x - lo) % m,
{
    assert(x + j * m - lo == m * j + (x - lo)) by (nonlinear_arith);
    lemma_mod_multiples_vanish(j, x - lo, m);
}

/// `b` raised to the power `e`.
pub open spec fn power(b: int, e: nat) -> int
    decreases e,
{
    if e == 0 {
        1
    } else {
        b * power(b, (e - 1) as nat)
    }
}

/// Wrapping a product only depends on the wrapped value of a factor.
pub proof fn lemma_wrap_mul_absorb(lo: int, m: int, p: int, v: int)
    requires
        m > 0,
    ensures
        lo + ((lo + (p - lo) % m) * v - lo) % m == lo + (p * v - lo) % m,
{
    let k = (p - lo) / m;
    lemma_fundamental_div_mod(p - lo, m);
    assert((lo + (p - lo) % m) * v == p * v + (-(k * v)) * m) by (nonlinear_arith)
        requires
            p - lo == m * k + (p - lo) % m;
    lemma_wrap_multiple(lo, m, p * v, -(k * v));
}

/// Powers of a base of magnitude at most one stay within `[-1, 1]`.
pub proof fn lemma_power_small(b: int, e: nat)
    requires
        -1 <= b <= 1,
    ensures
        -1 <= power(b, e) <= 1,
    decreases e,
{
    if e > 0 {
        lemma_power_small(b, (e - 1) as nat);
        let p = power(b, (e - 1) as nat);
        assert(-1 <= b * p <= 1) by (nonlinear_arith)
            requires -1 <= b <= 1, -1 <= p <= 1;
    }
}

/// Powers of a non-negative base are non-negative.
pub proof fn lemma_power_nonneg(b: int, e: nat)
    requires
        b >= 0,
    ensures
        power(b, e) >= 0,
    decreases e,
{
    if e > 0 {
        lemma_power_nonneg(b, (e - 1) as nat);
        let p = power(b, (e - 1) as nat);
        assert(b * p >= 0) by (nonlinear_arith)
            requires b >= 0, p >= 0;
    }
}

/// Once a power leaves the range of a type, the higher powers stay out.
pub proof fn lemma_power_unfit(b: int, i: nat, e: nat, lo: int, hi: int)
    requires
        hi >= 1,
        lo == -(hi + 1) || lo == 0,
        lo <= b,
        i <= e,
        !(lo <= power(b, i) <= hi),
    ensures
        !(lo <= power(b, e) <= hi),
    decreases e - i,
{
    if e > i {
        lemma_power_unfit(b, i, (e - 1) as nat, lo, hi);
        let q = power(b, (e - 1) as nat);
        if -1 <= b <= 1 {
            lemma_power_small(b, i);
            if lo == 0 {
                lemma_power_nonneg(b, i);
            }
        } else {
            if lo == 0 {
                lemma_power_nonneg(b, (e - 1) as nat);
                assert(b * q > hi) by (nonlinear_arith)
                    requires b >= 2, q > hi, hi >= 1;
            } else {
                assert(abs_int(q) >= hi + 1);
                assert(b * q > hi || b * q < lo) by (nonlinear_arith)
                    requires
                        b >= 2 || b <= -2,
                        q >= hi + 1 || q <= -(hi + 1),
                        hi >= 1,
                        lo == -(hi + 1);
            }
        }
    }
}

impl Integer for u8 {
    open spec fn val(self) -> int {
        self as int
    }

    open spec fn lo() -> int {
        u8::MIN as int
    }

    open spec fn hi() -> int {
        u8::MAX as int
    }

    open spec fn is_signed() -> bool {
        false
    }

    proof fn lemma_range(x: Self) {
    }

    proof fn lemma_injective(x: Self, y: Self) {
    }

    fn zero() -> (r: Self) {
        0
    }

    fn one() -> (r: Self) {
        1
    }

    fn min_value() -> (r: Self) {
        u8::MIN
    }

    fn max_value() -> (r: Self) {
        u8::MAX
    }

    fn is_less(&self, other: &Self) -> (r: bool) {
        *self < *other
    }

    fn is_equal(&self, other: &Self) -> (r: bool) {
        *self == *other
    }

    fn checked_add_op(self, other: Self) -> (r: Option<Self>) {
        self.checked_add(other)
    }

    fn checked_sub_op(self, other: Self) -> (r: Option<Self>) {
        self.checked_sub(other)
    }

    fn checked_mul_op(self, other: Self) -> (r: Option<Self>) {
        self.checked_mul(other)
    }

    fn div_op(self, other: Self) -> (r: Self) {
        proof {
            lemma_trunc_rem_cases(self as int, other as int);
        }
        self / other
    }

    fn rem_op(self, other: Self) -> (r: Self) {
        proof {
            lemma_trunc_rem_cases(self as int, other as int);
        }
        self % other
    }

    fn div_euclid_op(self, other: Self) -> (r: Self) {
        self / other
    }

    fn rem_euclid_op(self, other: Self) -> (r: Self) {
        self % other
    }

    fn wrapping_add_op(self, other: Self) -> (r: Self) {
        let r = self.wrapping_add(other);
        proof {
            let x = self as int + other as int;
            if x > u8::MAX as int {
                lemma_wrap_shift(u8::MIN as int, u8::MAX as int, x, 1);
            } else if x < 0 {
                lemma_wrap_shift(u8::MIN as int, u8::MAX as int, x, -1);
            } else {
                lemma_wrap_fits(u8::MIN as int, u8::MAX as int, x);
            }
        }
        r
    }

    fn wrapping_sub_op(self, other: Self) -> (r: Self) {
        let r = self.wrapping_sub(other);
        proof {
            let x = self as int - other as int;
            if x > u8::MAX as int {
                lemma_wrap_shift(u8::MIN as int, u8::MAX as int, x, 1);
            } else if x < 0 {
                lemma_wrap_shift(u8::MIN as int, u8::MAX as int, x, -1);
            } else {
                lemma_wrap_fits(u8::MIN as int, u8::MAX as int, x);
            }
        }
        r
    }

    fn wrapping_mul_op(self, other: Self) -> (r: Self) {
        let r = self.wrapping_mul(other);
        proof {
            lemma_wrap_unsigned(0, u8::MAX as int + 1, self as int * other as int);
        }
        r
    }

}

impl Integer for u16 {
    open spec fn val(self) -> int {
        self as int
    }

    open spec fn lo() -> int {
        u16::MIN as int
    }

    open spec fn hi() -> int {
        u16::MAX as int
    }

    open spec fn is_signed() -> bool {
        false
    }

    proof fn lemma_range(x: Self) {
    }

    proof fn lemma_injective(x: Self, y: Self) {
    }

    fn zero() -> (r: Self) {
        0
    }

    fn one() -> (r: Self) {
        1
    }

    fn min_value() -> (r: Self) {
        u16::MIN
    }

    fn max_value() -> (r: Self) {
        u16::MAX
    }

    fn is_less(&self, other: &Self) -> (r: bool) {
        *self < *other
    }

    fn is_equal(&self, other: &Self) -> (r: bool) {
        *self == *other
    }

    fn checked_add_op(self, other: Self) -> (r: Option<Self>) {
        self.checked_add(other)
    }

    fn checked_sub_op(self, other: Self) -> (r: Option<Self>) {
        self.checked_sub(other)
    }

    fn checked_mul_op(self, other: Self) -> (r: Option<Self>) {
        self.checked_mul(other)
    }

    fn div_op(self, other: Self) -> (r: Self) {
        proof {
            lemma_trunc_rem_cases(self as int, other as int);
        }
        self / other
    }

    fn rem_op(self, other: Self) -> (r: Self) {
        proof {
            lemma_trunc_rem_cases(self as int, other as int);
        }
        self % other
    }

    fn div_euclid_op(self, other: Self) -> (r: Self) {
        self / other
    }

    fn rem_euclid_op(self, other: Self) -> (r: Self) {
        self % other
    }

    fn wrapping_add_op(self, other: Self) -> (r: Self) {
        let r = self.wrapping_add(other);
        proof {
            let x = self as int + other as int;
            if x > u16::MAX as int {
                lemma_wrap_shift(u16::MIN as int, u16::MAX as int, x, 1);
            } else if x < 0 {
                lemma_wrap_shift(u16::MIN as int, u16::MAX as int, x, -1);
            } else {
                lemma_wrap_fits(u16::MIN as int, u16::MAX as int, x);
            }
        }
        r
    }

    fn wrapping_sub_op(self, other: Self) -> (r: Self) {
        let r = self.wrapping_sub(other);
        proof {
            let x = self as int - other as int;
            if x > u16::MAX as int {
                lemma_wrap_shift(u16::MIN as int, u16::MAX as int, x, 1);
            } else if x < 0 {
                lemma_wrap_shift(u16::MIN as int, u16::MAX as int, x, -1);
            } else {
                lemma_wrap_fits(u16::MIN as int, u16::MAX as int, x);
            }
        }
        r
    }

    fn wrapping_mul_op(self, other: Self) -> (r: Self) {
        let r = self.wrapping_mul(other);
        proof {
            lemma_wrap_unsigned(0, u16::MAX as int + 1, self as int * other as int);
        }
        r
    }

}

impl Integer for u32 {
    open spec fn val(self) -> int {
        self as int
    }

    open spec fn lo() -> int {
        u32::MIN as int
    }

    open spec fn hi() -> int {
        u32::MAX as int
    }

    open spec fn is_signed() -> bool {
        false
    }

    proof fn lemma_range(x: Self) {
    }

    proof fn lemma_injective(x: Self, y: Self) {
    }

    fn zero() -> (r: Self) {
        0
    }

    fn one() -> (r: Self) {
        1
    }

    fn min_value() -> (r: Self) {
        u32::MIN
    }

    fn max_value() -> (r: Self) {
        u32::MAX
    }

    fn is_less(&self, other: &Self) -> (r: bool) {
        *self < *other
    }

    fn is_equal(&self, other: &Self) -> (r: bool) {
        *self == *other
    }

    fn checked_add_op(self, other: Self) -> (r: Option<Self>) {
        self.checked_add(other)
    }

    fn checked_sub_op(self, other: Self) -> (r: Option<Self>) {
        self.checked_sub(other)
    }

    fn checked_mul_op(self, other: Self) -> (r: Option<Self>) {
        self.checked_mul(other)
    }

    fn div_op(self, other: Self) -> (r: Self) {
        proof {
            lemma_trunc_rem_cases(self as int, other as int);
        }
        self / other
    }

    fn rem_op(self, other: Self) -> (r: Self) {
        proof {
            lemma_trunc_rem_cases(self as int, other as int);
        }
        self % other
    }

    fn div_euclid_op(self, other: Self) -> (r: Self) {
        self / other
    }

    fn rem_euclid_op(self, other: Self) -> (r: Self) {
        self % other
    }

    fn wrapping_add_op(self, other: Self) -> (r: Self) {
        let r = self.wrapping_add(other);
        proof {
            let x = self as int + other as int;
            if x > u32::MAX as int {
                lemma_wrap_shift(u32::MIN as int, u32::MAX as int, x, 1);
            } else if x < 0 {
                lemma_wrap_shift(u32::MIN as int, u32::MAX as int, x, -1);
            } else {
                lemma_wrap_fits(u32::MIN as int, u32::MAX as int, x);
            }
        }
        r
    }

    fn wrapping_sub_op(self, other: Self) -> (r: Self) {
        let r = self.wrapping_sub(other);
        proof {
            let x = self as int - other as int;
            if x > u32::MAX as int {
                lemma_wrap_shift(u32::MIN as int, u32::MAX as int, x, 1);
            } else if x < 0 {
                lemma_wrap_shift(u32::MIN as int, u32::MAX as int, x, -1);
            } else {
                lemma_wrap_fits(u32::MIN as int, u32::MAX as int, x);
            }
        }
        r
    }

    fn wrapping_mul_op(self, other: Self) -> (r: Self) {
        let r = self.wrapping_mul(other);
        proof {
            lemma_wrap_unsigned(0, u32::MAX as int + 1, self as int * other as int);
        }
        r
    }

}

impl Integer for u64 {
    open spec fn val(self) -> int {
        self as int
    }

    open spec fn lo() -> int {
        u64::MIN as int
    }

    open spec fn hi() -> int {
        u64::MAX as int
    }

    open spec fn is_signed() -> bool {
        false
    }

    proof fn lemma_range(x: Self) {
    }

    proof fn lemma_injective(x: Self, y: Self) {
    }

    fn zero() -> (r: Self) {
        0
    }

    fn one() -> (r: Self) {
        1
    }

    fn min_value() -> (r: Self) {
        u64::MIN
    }

    fn max_value() -> (r: Self) {
        u64::MAX
    }

    fn is_less(&self, other: &Self) -> (r: bool) {
        *self < *other
    }

    fn is_equal(&self, other: &Self) -> (r: bool) {
        *self == *other
    }

    fn checked_add_op(self, other: Self) -> (r: Option<Self>) {
        self.checked_add(other)
    }

    fn checked_sub_op(self, other: Self) -> (r: Option<Self>) {
        self.checked_sub(other)
    }

    fn checked_mul_op(self, other: Self) -> (r: Option<Self>) {
        self.checked_mul(other)
    }

    fn div_op(self, other: Self) -> (r: Self) {
        proof {
            lemma_trunc_rem_cases(self as int, other as int);
        }
        self / other
    }

    fn rem_op(self, other: Self) -> (r: Self) {
        proof {
            lemma_trunc_rem_cases(self as int, other as int);
        }
        self % other
    }

    fn div_euclid_op(self, other: Self) -> (r: Self) {
        self / other
    }

    fn rem_euclid_op(self, other: Self) -> (r: Self) {
        self % other
    }

    fn wrapping_add_op(self, other: Self) -> (r: Self) {
        let r = self.wrapping_add(other);
        proof {
            let x = self as int + other as int;
            if x > u64::MAX as int {
                lemma_wrap_shift(u64::MIN as int, u64::MAX as int, x, 1);
            } else if x < 0 {
                lemma_wrap_shift(u64::MIN as int, u64::MAX as int, x, -1);
            } else {
                lemma_wrap_fits(u64::MIN as int, u64::MAX as int, x);
            }
        }
        r
    }

    fn wrapping_sub_op(self, other: Self) -> (r: Self) {
        let r = self.wrapping_sub(other);
        proof {
            let x = self as int - other as int;
            if x > u64::MAX as int {
                lemma_wrap_shift(u64::MIN as int, u64::MAX as int, x, 1);
            } else if x < 0 {
                lemma_wrap_shift(u64::MIN as int, u64::MAX as int, x, -1);
            } else {
                lemma_wrap_fits(u64::MIN as int, u64::MAX as int, x);
            }
        }
        r
    }

    fn wrapping_mul_op(self, other: Self) -> (r: Self) {
        let r = self.wrapping_mul(other);
        proof {
            lemma_wrap_unsigned(0, u64::MAX as int + 1, self as int * other as int);
        }
        r
    }

}

impl Integer for u128 {
    open spec fn val(self) -> int {
        self as int
    }

    open spec fn lo() -> int {
        u128::MIN as int
    }

    open spec fn hi() -> int {
        u128::MAX as int
    }

    open spec fn is_signed() -> bool {
        false
    }

    proof fn lemma_range(x: Self) {
    }

    proof fn lemma_injective(x: Self, y: Self) {
    }

    fn zero() -> (r: Self) {
        0
    }

    fn one() -> (r: Self) {
        1
    }

    fn min_value() -> (r: Self) {
        u128::MIN
    }

    fn max_value() -> (r: Self) {
        u128::MAX
    }

    fn is_less(&self, other: &Self) -> (r: bool) {
        *self < *other
    }

    fn is_equal(&self, other: &Self) -> (r: bool) {
        *self == *other
    }

    fn checked_add_op(self, other: Self) -> (r: Option<Self>) {
        self.checked_add(other)
    }

    fn checked_sub_op(self, other: Self) -> (r: Option<Self>) {
        self.checked_sub(other)
    }

    fn checked_mul_op(self, other: Self) -> (r: Option<Self>) {
        self.checked_mul(other)
    }

    fn div_op(self, other: Self) -> (r: Self) {
        proof {
            lemma_trunc_rem_cases(self as int, other as int);
        }
        self / other
    }

    fn rem_op(self, other: Self) -> (r: Self) {
        proof {
            lemma_trunc_rem_cases(self as int, other as int);
        }
        self % other
    }

    fn div_euclid_op(self, other: Self) -> (r: Self) {
        self / other
    }

    fn rem_euclid_op(self, other: Self) -> (r: Self) {
        self % other
    }

    fn wrapping_add_op(self, other: Self) -> (r: Self) {
        let r = self.wrapping_add(other);
        proof {
            let x = self as int + other as int;
            if x > u128::MAX as int {
                lemma_wrap_shift(u128::MIN as int, u128::MAX as int, x, 1);
            } else if x < 0 {
                lemma_wrap_shift(u128::MIN as int, u128::MAX as int, x, -1);
            } else {
                lemma_wrap_fits(u128::MIN as int, u128::MAX as int, x);
            }
        }
        r
    }

    fn wrapping_sub_op(self, other: Self) -> (r: Self) {
        let r = self.wrapping_sub(other);
        proof {
            let x = self as int - other as int;
            if x > u128::MAX as int {
                lemma_wrap_shift(u128::MIN as int, u128::MAX as int, x, 1);
            } else if x < 0 {
                lemma_wrap_shift(u128::MIN as int, u128::MAX as int, x, -1);
            } else {
                lemma_wrap_fits(u128::MIN as int, u128::MAX as int, x);
            }
        }
        r
    }

    fn wrapping_mul_op(self, other: Self) -> (r: Self) {
        let r = self.wrapping_mul(other);
        proof {
            lemma_wrap_unsigned(0, u128::MAX as int + 1, self as int * other as int);
        }
        r
    }

}

impl Integer for i8 {
    open spec fn val(self) -> int {
        self as int
    }

    open spec fn lo() -> int {
        i8::MIN as int
    }

    open spec fn hi() -> int {
        i8::MAX as int
    }

    open spec fn is_signed() -> bool {
        true
    }

    proof fn lemma_range(x: Self) {
    }

    proof fn lemma_injective(x: Self, y: Self) {
    }

    fn zero() -> (r: Self) {
        0
    }

    fn one() -> (r: Self) {
        1
    }

    fn min_value() -> (r: Self) {
        i8::MIN
    }

    fn max_value() -> (r: Self) {
        i8::MAX
    }

    fn is_less(&self, other: &Self) -> (r: bool) {
        *self < *other
    }

    fn is_equal(&self, other: &Self) -> (r: bool) {
        *self == *other
    }

    fn checked_add_op(self, other: Self) -> (r: Option<Self>) {
        self.checked_add(other)
    }

    fn checked_sub_op(self, other: Self) -> (r: Option<Self>) {
        self.checked_sub(other)
    }

    fn checked_mul_op(self, other: Self) -> (r: Option<Self>) {
        self.checked_mul(other)
    }

    fn div_op(self, other: Self) -> (r: Self) {
        proof {
            lemma_trunc_div_bound(self as int, other as int);
        }
        match self.checked_div(other) {
            Some(q) => q,
            None => 0,
        }
    }

    fn rem_op(self, other: Self) -> (r: Self) {
        proof {
            lemma_trunc_rem_cases(self as int, other as int);
            lemma_trunc_div_bound(self as int, other as int);
        }
        match self.checked_rem(other) {
            Some(q) => q,
            None => 0,
        }
    }

    fn div_euclid_op(self, other: Self) -> (r: Self) {
        match self.checked_div_euclid(other) {
            Some(q) => q,
            None => 0,
        }
    }

    fn rem_euclid_op(self, other: Self) -> (r: Self) {
        proof {
            lemma_fundamental_div_mod(self as int, other as int);
            if self == i8::MIN && other == -1 {
                assert((self as int) / (other as int) == -(self as int)) by (nonlinear_arith)
                    requires
                        (self as int) == (other as int) * ((self as int) / (other as int)) + (self as int) % (other as int),
                        other == -1,
                        0 <= (self as int) % (other as int) < 1;
            }
        }
        match self.checked_rem_euclid(other) {
            Some(q) => q,
            None => 0,
        }
    }

    fn wrapping_add_op(self, other: Self) -> (r: Self) {
        let r = self.wrapping_add(other);
        proof {
            let x = self as int + other as int;
            if x > i8::MAX as int {
                lemma_wrap_shift(i8::MIN as int, i8::MAX as int, x, 1);
            } else if x < i8::MIN as int {
                lemma_wrap_shift(i8::MIN as int, i8::MAX as int, x, -1);
            } else {
                lemma_wrap_fits(i8::MIN as int, i8::MAX as int, x);
            }
        }
        r
    }

    fn wrapping_sub_op(self, other: Self) -> (r: Self) {
        let r = self.wrapping_sub(other);
        proof {
            let x = self as int - other as int;
            if x > i8::MAX as int {
                lemma_wrap_shift(i8::MIN as int, i8::MAX as int, x, 1);
            } else if x < i8::MIN as int {
                lemma_wrap_shift(i8::MIN as int, i8::MAX as int, x, -1);
            } else {
                lemma_wrap_fits(i8::MIN as int, i8::MAX as int, x);
            }
        }
        r
    }

    fn wrapping_mul_op(self, other: Self) -> (r: Self) {
        let r = self.wrapping_mul(other);
        proof {
            lemma_wrap_signed(i8::MAX as int, self as int * other as int);
        }
        r
    }

}

impl Signed for i8 {
    proof fn lemma_signed() {
    }
}

impl Integer for i16 {
    open spec fn val(self) -> int {
        self as int
    }

    open spec fn lo() -> int {
        i16::MIN as int
    }

    open spec fn hi() -> int {
        i16::MAX as int
    }

    open spec fn is_signed() -> bool {
        true
    }

    proof fn lemma_range(x: Self) {
    }

    proof fn lemma_injective(x: Self, y: Self) {
    }

    fn zero() -> (r: Self) {
        0
    }

    fn one() -> (r: Self) {
        1
    }

    fn min_value() -> (r: Self) {
        i16::MIN
    }

    fn max_value() -> (r: Self) {
        i16::MAX
    }

    fn is_less(&self, other: &Self) -> (r: bool) {
        *self < *other
    }

    fn is_equal(&self, other: &Self) -> (r: bool) {
        *self == *other
    }

    fn checked_add_op(self, other: Self) -> (r: Option<Self>) {
        self.checked_add(other)
    }

    fn checked_sub_op(self, other: Self) -> (r: Option<Self>) {
        self.checked_sub(other)
    }

    fn checked_mul_op(self, other: Self) -> (r: Option<Self>) {
        self.checked_mul(other)
    }

    fn div_op(self, other: Self) -> (r: Self) {
        proof {
            lemma_trunc_div_bound(self as int, other as int);
        }
        match self.checked_div(other) {
            Some(q) => q,
            None => 0,
        }
    }

    fn rem_op(self, other: Self) -> (r: Self) {
        proof {
            lemma_trunc_rem_cases(self as int, other as int);
            lemma_trunc_div_bound(self as int, other as int);
        }
        match self.checked_rem(other) {
            Some(q) => q,
            None => 0,
        }
    }

    fn div_euclid_op(self, other: Self) -> (r: Self) {
        match self.checked_div_euclid(other) {
            Some(q) => q,
            None => 0,
        }
    }

    fn rem_euclid_op(self, other: Self) -> (r: Self) {
        proof {
            lemma_fundamental_div_mod(self as int, other as int);
            if self == i16::MIN && other == -1 {
                assert((self as int) / (other as int) == -(self as int)) by (nonlinear_arith)
                    requires
                        (self as int) == (other as int) * ((self as int) / (other as int)) + (self as int) % (other as int),
                        other == -1,
                        0 <= (self as int) % (other as int) < 1;
            }
        }
        match self.checked_rem_euclid(other) {
            Some(q) => q,
            None => 0,
        }
    }

    fn wrapping_add_op(self, other: Self) -> (r: Self) {
        let r = self.wrapping_add(other);
        proof {
            let x = self as int + other as int;
            if x > i16::MAX as int {
                lemma_wrap_shift(i16::MIN as int, i16::MAX as int, x, 1);
            } else if x < i16::MIN as int {
                lemma_wrap_shift(i16::MIN as int, i16::MAX as int, x, -1);
            } else {
                lemma_wrap_fits(i16::MIN as int, i16::MAX as int, x);
            }
        }
        r
    }

    fn wrapping_sub_op(self, other: Self) -> (r: Self) {
        let r = self.wrapping_sub(other);
        proof {
            let x = self as int - other as int;
            if x > i16::MAX as int {
                lemma_wrap_shift(i16::MIN as int, i16::MAX as int, x, 1);
            } else if x < i16::MIN as int {
                lemma_wrap_shift(i16::MIN as int, i16::MAX as int, x, -1);
            } else {
                lemma_wrap_fits(i16::MIN as int, i16::MAX as int, x);
            }
        }
        r
    }

    fn wrapping_mul_op(self, other: Self) -> (r: Self) {
        let r = self.wrapping_mul(other);
        proof {
            lemma_wrap_signed(i16::MAX as int, self as int * other as int);
        }
        r
    }

}

impl Signed for i16 {
    proof fn lemma_signed() {
    }
}

impl Integer for i32 {
    open spec fn val(self) -> int {
        self as int
    }

    open spec fn lo() -> int {
        i32::MIN as int
    }

    open spec fn hi() -> int {
        i32::MAX as int
    }

    open spec fn is_signed() -> bool {
        true
    }

    proof fn lemma_range(x: Self) {
    }

    proof fn lemma_injective(x: Self, y: Self) {
    }

    fn zero() -> (r: Self) {
        0
    }

    fn one() -> (r: Self) {
        1
    }

    fn min_value() -> (r: Self) {
        i32::MIN
    }

    fn max_value() -> (r: Self) {
        i32::MAX
    }

    fn is_less(&self, other: &Self) -> (r: bool) {
        *self < *other
    }

    fn is_equal(&self, other: &Self) -> (r: bool) {
        *self == *other
    }

    fn checked_add_op(self, other: Self) -> (r: Option<Self>) {
        self.checked_add(other)
    }

    fn checked_sub_op(self, other: Self) -> (r: Option<Self>) {
        self.checked_sub(other)
    }

    fn checked_mul_op(self, other: Self) -> (r: Option<Self>) {
        self.checked_mul(other)
    }

    fn div_op(self, other: Self) -> (r: Self) {
        proof {
            lemma_trunc_div_bound(self as int, other as int);
        }
        match self.checked_div(other) {
            Some(q) => q,
            None => 0,
        }
    }

    fn rem_op(self, other: Self) -> (r: Self) {
        proof {
            lemma_trunc_rem_cases(self as int, other as int);
            lemma_trunc_div_bound(self as int, other as int);
        }
        match self.checked_rem(other) {
            Some(q) => q,
            None => 0,
        }
    }

    fn div_euclid_op(self, other: Self) -> (r: Self) {
        match self.checked_div_euclid(other) {
            Some(q) => q,
            None => 0,
        }
    }

    fn rem_euclid_op(self, other: Self) -> (r: Self) {
        proof {
            lemma_fundamental_div_mod(self as int, other as int);
            if self == i32::MIN && other == -1 {
                assert((self as int) / (other as int) == -(self as int)) by (nonlinear_arith)
                    requires
                        (self as int) == (other as int) * ((self as int) / (other as int)) + (self as int) % (other as int),
                        other == -1,
                        0 <= (self as int) % (other as int) < 1;
            }
        }
        match self.checked_rem_euclid(other) {
            Some(q) => q,
            None => 0,
        }
    }

    fn wrapping_add_op(self, other: Self) -> (r: Self) {
        let r = self.wrapping_add(other);
        proof {
            let x = self as int + other as int;
            if x > i32::MAX as int {
                lemma_wrap_shift(i32::MIN as int, i32::MAX as int, x, 1);
            } else if x < i32::MIN as int {
                lemma_wrap_shift(i32::MIN as int, i32::MAX as int, x, -1);
            } else {
                lemma_wrap_fits(i32::MIN as int, i32::MAX as int, x);
            }
        }
        r
    }

    fn wrapping_sub_op(self, other: Self) -> (r: Self) {
        let r = self.wrapping_sub(other);
        proof {
            let x = self as int - other as int;
            if x > i32::MAX as int {
                lemma_wrap_shift(i32::MIN as int, i32::MAX as int, x, 1);
            } else if x < i32::MIN as int {
                lemma_wrap_shift(i32::MIN as int, i32::MAX as int, x, -1);
            } else {
                lemma_wrap_fits(i32::MIN as int, i32::MAX as int, x);
            }
        }
        r
    }

    fn wrapping_mul_op(self, other: Self) -> (r: Self) {
        let r = self.wrapping_mul(other);
        proof {
            lemma_wrap_signed(i32::MAX as int, self as int * other as int);
        }
        r
    }

}

impl Signed for i32 {
    proof fn lemma_signed() {
    }
}

impl Integer for i64 {
    open spec fn val(self) -> int {
        self as int
    }

    open spec fn lo() -> int {
        i64::MIN as int
    }

    open spec fn hi() -> int {
        i64::MAX as int
    }

    open spec fn is_signed() -> bool {
        true
    }

    proof fn lemma_range(x: Self) {
    }

    proof fn lemma_injective(x: Self, y: Self) {
    }

    fn zero() -> (r: Self) {
        0
    }

    fn one() -> (r: Self) {
        1
    }

    fn min_value() -> (r: Self) {
        i64::MIN
    }

    fn max_value() -> (r: Self) {
        i64::MAX
    }

    fn is_less(&self, other: &Self) -> (r: bool) {
        *self < *other
    }

    fn is_equal(&self, other: &Self) -> (r: bool) {
        *self == *other
    }

    fn checked_add_op(self, other: Self) -> (r: Option<Self>) {
        self.checked_add(other)
    }

    fn checked_sub_op(self, other: Self) -> (r: Option<Self>) {
        self.checked_sub(other)
    }

    fn checked_mul_op(self, other: Self) -> (r: Option<Self>) {
        self.checked_mul(other)
    }

    fn div_op(self, other: Self) -> (r: Self) {
        proof {
            lemma_trunc_div_bound(self as int, other as int);
        }
        match self.checked_div(other) {
            Some(q) => q,
            None => 0,
        }
    }

    fn rem_op(self, other: Self) -> (r: Self) {
        proof {
            lemma_trunc_rem_cases(self as int, other as int);
            lemma_trunc_div_bound(self as int, other as int);
        }
        match self.checked_rem(other) {
            Some(q) => q,
            None => 0,
        }
    }

    fn div_euclid_op(self, other: Self) -> (r: Self) {
        match self.checked_div_euclid(other) {
            Some(q) => q,
            None => 0,
        }
    }

    fn rem_euclid_op(self, other: Self) -> (r: Self) {
        proof {
            lemma_fundamental_div_mod(self as int, other as int);
            if self == i64::MIN && other == -1 {
                assert((self as int) / (other as int) == -(self as int)) by (nonlinear_arith)
                    requires
                        (self as int) == (other as int) * ((self as int) / (other as int)) + (self as int) % (other as int),
                        other == -1,
                        0 <= (self as int) % (other as int) < 1;
            }
        }
        match self.checked_rem_euclid(other) {
            Some(q) => q,
            None => 0,
        }
    }

    fn wrapping_add_op(self, other: Self) -> (r: Self) {
        let r = self.wrapping_add(other);
        proof {
            let x = self as int + other as int;
            if x > i64::MAX as int {
                lemma_wrap_shift(i64::MIN as int, i64::MAX as int, x, 1);
            } else if x < i64::MIN as int {
                lemma_wrap_shift(i64::MIN as int, i64::MAX as int, x, -1);
            } else {
                lemma_wrap_fits(i64::MIN as int, i64::MAX as int, x);
            }
        }
        r
    }

    fn wrapping_sub_op(self, other: Self) -> (r: Self) {
        let r = self.wrapping_sub(other);
        proof {
            let x = self as int - other as int;
            if x > i64::MAX as int {
                lemma_wrap_shift(i64::MIN as int, i64::MAX as int, x, 1);
            } else if x < i64::MIN as int {
                lemma_wrap_shift(i64::MIN as int, i64::MAX as int, x, -1);
            } else {
                lemma_wrap_fits(i64::MIN as int, i64::MAX as int, x);
            }
        }
        r
    }

    fn wrapping_mul_op(self, other: Self) -> (r: Self) {
        let r = self.wrapping_mul(other);
        proof {
            lemma_wrap_signed(i64::MAX as int, self as int * other as int);
        }
        r
    }

}

impl Signed for i64 {
    proof fn lemma_signed() {
    }
}

impl Integer for i128 {
    open spec fn val(self) -> int {
        self as int
    }

    open spec fn lo() -> int {
        i128::MIN as int
    }

    open spec fn hi() -> int {
        i128::MAX as int
    }

    open spec fn is_signed() -> bool {
        true
    }

    proof fn lemma_range(x: Self) {
    }

    proof fn lemma_injective(x: Self, y: Self) {
    }

    fn zero() -> (r: Self) {
        0
    }

    fn one() -> (r: Self) {
        1
    }

    fn min_value() -> (r: Self) {
        i128::MIN
    }

    fn max_value() -> (r: Self) {
        i128::MAX
    }

    fn is_less(&self, other: &Self) -> (r: bool) {
        *self < *other
    }

    fn is_equal(&self, other: &Self) -> (r: bool) {
        *self == *other
    }

    fn checked_add_op(self, other: Self) -> (r: Option<Self>) {
        self.checked_add(other)
    }

    fn checked_sub_op(self, other: Self) -> (r: Option<Self>) {
        self.checked_sub(other)
    }

    fn checked_mul_op(self, other: Self) -> (r: Option<Self>) {
        self.checked_mul(other)
    }

    fn div_op(self, other: Self) -> (r: Self) {
        proof {
            lemma_trunc_div_bound(self as int, other as int);
        }
        match self.checked_div(other) {
            Some(q) => q,
            None => 0,
        }
    }

    fn rem_op(self, other: Self) -> (r: Self) {
        proof {
            lemma_trunc_rem_cases(self as int, other as int);
            lemma_trunc_div_bound(self as int, other as int);
        }
        match self.checked_rem(other) {
            Some(q) => q,
            None => 0,
        }
    }

    fn div_euclid_op(self, other: Self) -> (r: Self) {
        match self.checked_div_euclid(other) {
            Some(q) => q,
            None => 0,
        }
    }

    fn rem_euclid_op(self, other: Self) -> (r: Self) {
        proof {
            lemma_fundamental_div_mod(self as int, other as int);
            if self == i128::MIN && other == -1 {
                assert((self as int) / (other as int) == -(self as int)) by (nonlinear_arith)
                    requires
                        (self as int) == (other as int) * ((self as int) / (other as int)) + (self as int) % (other as int),
                        other == -1,
                        0 <= (self as int) % (other as int) < 1;
            }
        }
        match self.checked_rem_euclid(other) {
            Some(q) => q,
            None => 0,
        }
    }

    fn wrapping_add_op(self, other: Self) -> (r: Self) {
        let r = self.wrapping_add(other);
        proof {
            let x = self as int + other as int;
            if x > i128::MAX as int {
                lemma_wrap_shift(i128::MIN as int, i128::MAX as int, x, 1);
            } else if x < i128::MIN as int {
                lemma_wrap_shift(i128::MIN as int, i128::MAX as int, x, -1);
            } else {
                lemma_wrap_fits(i128::MIN as int, i128::MAX as int, x);
            }
        }
        r
    }

    fn wrapping_sub_op(self, other: Self) -> (r: Self) {
        let r = self.wrapping_sub(other);
        proof {
            let x = self as int - other as int;
            if x > i128::MAX as int {
                lemma_wrap_shift(i128::MIN as int, i128::MAX as int, x, 1);
            } else if x < i128::MIN as int {
                lemma_wrap_shift(i128::MIN as int, i128::MAX as int, x, -1);
            } else {
                lemma_wrap_fits(i128::MIN as int, i128::MAX as int, x);
            }
        }
        r
    }

    fn wrapping_mul_op(self, other: Self) -> (r: Self) {
        let r = self.wrapping_mul(other);
        proof {
            lemma_wrap_signed(i128::MAX as int, self as int * other as int);
        }
        r
    }

}

impl Signed for i128 {
    proof fn lemma_signed() {
    }
}

} // verus!
