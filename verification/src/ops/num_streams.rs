//! Stream forms of the generic numeric functions.
//!
//! Each function takes the batches of values received on its input streams
//! and gives the batch sent on its output stream: two-input forms pair the
//! values in order and stop with the shorter input.
use vstd::prelude::*;
use crate::batch::pair_count;
use super::integer::{Integer, Signed, abs_int, checked_result, fits, power, saturate, sign_int, trunc_div, trunc_rem, wrap};
use super::num;

verus! {

/// Absolute values of a stream, `None` where it does not fit.
pub fn abs<N: Signed>(values: &Vec<N>) -> (r: Vec<Option<N>>)
    ensures
        r.len() == values.len(),
        forall|i: int| #![trigger r[i]] 0 <= i < r.len() ==> checked_result(r[i], abs_int(values[i].val())),
{
    let mut r: Vec<Option<N>> = Vec::new();
    let mut i: usize = 0;
    while i < values.len()
        invariant
            i <= values.len(),
            r.len() == i,
            forall|j: int| #![trigger r[j]] 0 <= j < i ==> checked_result(r[j], abs_int(values[j].val())),
        decreases values.len() - i,
    {
        r.push(num::abs(values[i]));
        i = i + 1;
    }
    r
}

/// Signs of a stream: `-1`, `0` or `1`.
pub fn signum<N: Signed>(values: &Vec<N>) -> (r: Vec<N>)
    ensures
        r.len() == values.len(),
        forall|i: int| #![trigger r[i]] 0 <= i < r.len() ==> r[i].val() == sign_int(values[i].val()),
{
    let mut r: Vec<N> = Vec::new();
    let mut i: usize = 0;
    while i < values.len()
        invariant
            i <= values.len(),
            r.len() == i,
            forall|j: int| #![trigger r[j]] 0 <= j < i ==> r[j].val() == sign_int(values[j].val()),
        decreases values.len() - i,
    {
        r.push(num::signum(values[i]));
        i = i + 1;
    }
    r
}

/// Whether each value of a stream is strictly positive.
pub fn is_positive<N: Signed>(values: &Vec<N>) -> (r: Vec<bool>)
    ensures
        r.len() == values.len(),
        forall|i: int| #![trigger r[i]] 0 <= i < r.len() ==> r[i] == (values[i].val() > 0),
{
    let mut r: Vec<bool> = Vec::new();
    let mut i: usize = 0;
    while i < values.len()
        invariant
            i <= values.len(),
            r.len() == i,
            forall|j: int| #![trigger r[j]] 0 <= j < i ==> r[j] == (values[j].val() > 0),
        decreases values.len() - i,
    {
        r.push(num::is_positive(values[i]));
        i = i + 1;
    }
    r
}

/// Whether each value of a stream is strictly negative.
pub fn is_negative<N: Signed>(values: &Vec<N>) -> (r: Vec<bool>)
    ensures
        r.len() == values.len(),
        forall|i: int| #![trigger r[i]] 0 <= i < r.len() ==> r[i] == (values[i].val() < 0),
{
    let mut r: Vec<bool> = Vec::new();
    let mut i: usize = 0;
    while i < values.len()
        invariant
            i <= values.len(),
            r.len() == i,
            forall|j: int| #![trigger r[j]] 0 <= j < i ==> r[j] == (values[j].val() < 0),
        decreases values.len() - i,
    {
        r.push(num::is_negative(values[i]));
        i = i + 1;
    }
    r
}

/// Pairwise sum of two streams, wrapping around the bounds of the type.
pub fn add<N: Integer>(a: &Vec<N>, b: &Vec<N>) -> (r: Vec<N>)
    ensures
        r.len() == pair_count(a@.len() as int, b@.len() as int),
        forall|i: int| #![trigger r[i]] 0 <= i < r.len() ==> r[i].val() == wrap::<N>(a[i].val() + b[i].val()),
{
    let n = if a.len() < b.len() {
        a.len()
    } else {
        b.len()
    };
    let mut r: Vec<N> = Vec::new();
    let mut i: usize = 0;
    while i < n
        invariant
            i <= n,
            n == pair_count(a@.len() as int, b@.len() as int),
            r.len() == i,
            forall|j: int| #![trigger r[j]] 0 <= j < i ==> r[j].val() == wrap::<N>(a[j].val() + b[j].val()),
        decreases n - i,
    {
        r.push(num::add(a[i], b[i]));
        i = i + 1;
    }
    r
}

/// Pairwise sum of two streams, `None` where it does not fit.
pub fn checked_add<N: Integer>(a: &Vec<N>, b: &Vec<N>) -> (r: Vec<Option<N>>)
    ensures
        r.len() == pair_count(a@.len() as int, b@.len() as int),
        forall|i: int| #![trigger r[i]] 0 <= i < r.len() ==> checked_result(r[i], a[i].val() + b[i].val()),
{
    let n = if a.len() < b.len() {
        a.len()
    } else {
        b.len()
    };
    let mut r: Vec<Option<N>> = Vec::new();
    let mut i: usize = 0;
    while i < n
        invariant
            i <= n,
            n == pair_count(a@.len() as int, b@.len() as int),
            r.len() == i,
            forall|j: int| #![trigger r[j]] 0 <= j < i ==> checked_result(r[j], a[j].val() + b[j].val()),
        decreases n - i,
    {
        r.push(num::checked_add(a[i], b[i]));
        i = i + 1;
    }
    r
}

/// Pairwise sum of two streams, clamped to the bounds of the type.
pub fn saturating_add<N: Integer>(a: &Vec<N>, b: &Vec<N>) -> (r: Vec<N>)
    ensures
        r.len() == pair_count(a@.len() as int, b@.len() as int),
        forall|i: int| #![trigger r[i]] 0 <= i < r.len() ==> r[i].val() == saturate::<N>(a[i].val() + b[i].val()),
{
    let n = if a.len() < b.len() {
        a.len()
    } else {
        b.len()
    };
    let mut r: Vec<N> = Vec::new();
    let mut i: usize = 0;
    while i < n
        invariant
            i <= n,
            n == pair_count(a@.len() as int, b@.len() as int),
            r.len() == i,
            forall|j: int| #![trigger r[j]] 0 <= j < i ==> r[j].val() == saturate::<N>(a[j].val() + b[j].val()),
        decreases n - i,
    {
        r.push(num::saturating_add(a[i], b[i]));
        i = i + 1;
    }
    r
}

/// Pairwise sum of two streams, wrapping around the bounds of the type.
pub fn wrapping_add<N: Integer>(a: &Vec<N>, b: &Vec<N>) -> (r: Vec<N>)
    ensures
        r.len() == pair_count(a@.len() as int, b@.len() as int),
        forall|i: int| #![trigger r[i]] 0 <= i < r.len() ==> r[i].val() == wrap::<N>(a[i].val() + b[i].val()),
{
    let n = if a.len() < b.len() {
        a.len()
    } else {
        b.len()
    };
    let mut r: Vec<N> = Vec::new();
    let mut i: usize = 0;
    while i < n
        invariant
            i <= n,
            n == pair_count(a@.len() as int, b@.len() as int),
            r.len() == i,
            forall|j: int| #![trigger r[j]] 0 <= j < i ==> r[j].val() == wrap::<N>(a[j].val() + b[j].val()),
        decreases n - i,
    {
        r.push(num::wrapping_add(a[i], b[i]));
        i = i + 1;
    }
    r
}

/// Pairwise difference of two streams, wrapping around the bounds of the type.
pub fn sub<N: Integer>(a: &Vec<N>, b: &Vec<N>) -> (r: Vec<N>)
    ensures
        r.len() == pair_count(a@.len() as int, b@.len() as int),
        forall|i: int| #![trigger r[i]] 0 <= i < r.len() ==> r[i].val() == wrap::<N>(a[i].val() - b[i].val()),
{
    let n = if a.len() < b.len() {
        a.len()
    } else {
        b.len()
    };
    let mut r: Vec<N> = Vec::new();
    let mut i: usize = 0;
    while i < n
        invariant
            i <= n,
            n == pair_count(a@.len() as int, b@.len() as int),
            r.len() == i,
            forall|j: int| #![trigger r[j]] 0 <= j < i ==> r[j].val() == wrap::<N>(a[j].val() - b[j].val()),
        decreases n - i,
    {
        r.push(num::sub(a[i], b[i]));
        i = i + 1;
    }
    r
}

/// Pairwise difference of two streams, `None` where it does not fit.
pub fn checked_sub<N: Integer>(a: &Vec<N>, b: &Vec<N>) -> (r: Vec<Option<N>>)
    ensures
        r.len() == pair_count(a@.len() as int, b@.len() as int),
        forall|i: int| #![trigger r[i]] 0 <= i < r.len() ==> checked_result(r[i], a[i].val() - b[i].val()),
{
    let n = if a.len() < b.len() {
        a.len()
    } else {
        b.len()
    };
    let mut r: Vec<Option<N>> = Vec::new();
    let mut i: usize = 0;
    while i < n
        invariant
            i <= n,
            n == pair_count(a@.len() as int, b@.len() as int),
            r.len() == i,
            forall|j: int| #![trigger r[j]] 0 <= j < i ==> checked_result(r[j], a[j].val() - b[j].val()),
        decreases n - i,
    {
        r.push(num::checked_sub(a[i], b[i]));
        i = i + 1;
    }
    r
}

/// Pairwise difference of two streams, clamped to the bounds of the type.
pub fn saturating_sub<N: Integer>(a: &Vec<N>, b: &Vec<N>) -> (r: Vec<N>)
    ensures
        r.len() == pair_count(a@.len() as int, b@.len() as int),
        forall|i: int| #![trigger r[i]] 0 <= i < r.len() ==> r[i].val() == saturate::<N>(a[i].val() - b[i].val()),
{
    let n = if a.len() < b.len() {
        a.len()
    } else {
        b.len()
    };
    let mut r: Vec<N> = Vec::new();
    let mut i: usize = 0;
    while i < n
        invariant
            i <= n,
            n == pair_count(a@.len() as int, b@.len() as int),
            r.len() == i,
            forall|j: int| #![trigger r[j]] 0 <= j < i ==> r[j].val() == saturate::<N>(a[j].val() - b[j].val()),
        decreases n - i,
    {
        r.push(num::saturating_sub(a[i], b[i]));
        i = i + 1;
    }
    r
}

/// Pairwise difference of two streams, wrapping around the bounds of the type.
pub fn wrapping_sub<N: Integer>(a: &Vec<N>, b: &Vec<N>) -> (r: Vec<N>)
    ensures
        r.len() == pair_count(a@.len() as int, b@.len() as int),
        forall|i: int| #![trigger r[i]] 0 <= i < r.len() ==> r[i].val() == wrap::<N>(a[i].val() - b[i].val()),
{
    let n = if a.len() < b.len() {
        a.len()
    } else {
        b.len()
    };
    let mut r: Vec<N> = Vec::new();
    let mut i: usize = 0;
    while i < n
        invariant
            i <= n,
            n == pair_count(a@.len() as int, b@.len() as int),
            r.len() == i,
            forall|j: int| #![trigger r[j]] 0 <= j < i ==> r[j].val() == wrap::<N>(a[j].val() - b[j].val()),
        decreases n - i,
    {
        r.push(num::wrapping_sub(a[i], b[i]));
        i = i + 1;
    }
    r
}

/// Pairwise product of two streams, wrapping around the bounds of the type.
pub fn mul<N: Integer>(a: &Vec<N>, b: &Vec<N>) -> (r: Vec<N>)
    ensures
        r.len() == pair_count(a@.len() as int, b@.len() as int),
        forall|i: int| #![trigger r[i]] 0 <= i < r.len() ==> r[i].val() == wrap::<N>(a[i].val() * b[i].val()),
{
    let n = if a.len() < b.len() {
        a.len()
    } else {
        b.len()
    };
    let mut r: Vec<N> = Vec::new();
    let mut i: usize = 0;
    while i < n
        invariant
            i <= n,
            n == pair_count(a@.len() as int, b@.len() as int),
            r.len() == i,
            forall|j: int| #![trigger r[j]] 0 <= j < i ==> r[j].val() == wrap::<N>(a[j].val() * b[j].val()),
        decreases n - i,
    {
        r.push(num::mul(a[i], b[i]));
        i = i + 1;
    }
    r
}

/// Pairwise product of two streams, `None` where it does not fit.
pub fn checked_mul<N: Integer>(a: &Vec<N>, b: &Vec<N>) -> (r: Vec<Option<N>>)
    ensures
        r.len() == pair_count(a@.len() as int, b@.len() as int),
        forall|i: int| #![trigger r[i]] 0 <= i < r.len() ==> checked_result(r[i], a[i].val() * b[i].val()),
{
    let n = if a.len() < b.len() {
        a.len()
    } else {
        b.len()
    };
    let mut r: Vec<Option<N>> = Vec::new();
    let mut i: usize = 0;
    while i < n
        invariant
            i <= n,
            n == pair_count(a@.len() as int, b@.len() as int),
            r.len() == i,
            forall|j: int| #![trigger r[j]] 0 <= j < i ==> checked_result(r[j], a[j].val() * b[j].val()),
        decreases n - i,
    {
        r.push(num::checked_mul(a[i], b[i]));
        i = i + 1;
    }
    r
}

/// Pairwise product of two streams, clamped to the bounds of the type.
pub fn saturating_mul<N: Integer>(a: &Vec<N>, b: &Vec<N>) -> (r: Vec<N>)
    ensures
        r.len() == pair_count(a@.len() as int, b@.len() as int),
        forall|i: int| #![trigger r[i]] 0 <= i < r.len() ==> r[i].val() == saturate::<N>(a[i].val() * b[i].val()),
{
    let n = if a.len() < b.len() {
        a.len()
    } else {
        b.len()
    };
    let mut r: Vec<N> = Vec::new();
    let mut i: usize = 0;
    while i < n
        invariant
            i <= n,
            n == pair_count(a@.len() as int, b@.len() as int),
            r.len() == i,
            forall|j: int| #![trigger r[j]] 0 <= j < i ==> r[j].val() == saturate::<N>(a[j].val() * b[j].val()),
        decreases n - i,
    {
        r.push(num::saturating_mul(a[i], b[i]));
        i = i + 1;
    }
    r
}

/// Pairwise product of two streams, wrapping around the bounds of the type.
pub fn wrapping_mul<N: Integer>(a: &Vec<N>, b: &Vec<N>) -> (r: Vec<N>)
    ensures
        r.len() == pair_count(a@.len() as int, b@.len() as int),
        forall|i: int| #![trigger r[i]] 0 <= i < r.len() ==> r[i].val() == wrap::<N>(a[i].val() * b[i].val()),
{
    let n = if a.len() < b.len() {
        a.len()
    } else {
        b.len()
    };
    let mut r: Vec<N> = Vec::new();
    let mut i: usize = 0;
    while i < n
        invariant
            i <= n,
            n == pair_count(a@.len() as int, b@.len() as int),
            r.len() == i,
            forall|j: int| #![trigger r[j]] 0 <= j < i ==> r[j].val() == wrap::<N>(a[j].val() * b[j].val()),
        decreases n - i,
    {
        r.push(num::wrapping_mul(a[i], b[i]));
        i = i + 1;
    }
    r
}

/// Pairwise quotients rounding towards zero; `0` for a division by `0`.
pub fn div<N: Integer>(a: &Vec<N>, b: &Vec<N>) -> (r: Vec<N>)
    ensures
        r.len() == pair_count(a@.len() as int, b@.len() as int),
        forall|i: int| #![trigger r[i]] 0 <= i < r.len() ==> r[i].val() == (if b[i].val() == 0 { 0 } else { wrap::<N>(trunc_div(a[i].val(), b[i].val())) }),
{
    let n = if a.len() < b.len() {
        a.len()
    } else {
        b.len()
    };
    let mut r: Vec<N> = Vec::new();
    let mut i: usize = 0;
    while i < n
        invariant
            i <= n,
            n == pair_count(a@.len() as int, b@.len() as int),
            r.len() == i,
            forall|j: int| #![trigger r[j]] 0 <= j < i ==> r[j].val() == (if b[j].val() == 0 { 0 } else { wrap::<N>(trunc_div(a[j].val(), b[j].val())) }),
        decreases n - i,
    {
        r.push(num::div(a[i], b[i]));
        i = i + 1;
    }
    r
}

/// Pairwise quotients rounding towards zero, `None` for a division by `0` or an overflow.
pub fn checked_div<N: Integer>(a: &Vec<N>, b: &Vec<N>) -> (r: Vec<Option<N>>)
    ensures
        r.len() == pair_count(a@.len() as int, b@.len() as int),
        forall|i: int| #![trigger r[i]] 0 <= i < r.len() ==> (b[i].val() == 0 ==> r[i] is None) && (b[i].val() != 0 ==> checked_result(r[i], trunc_div(a[i].val(), b[i].val()))),
{
    let n = if a.len() < b.len() {
        a.len()
    } else {
        b.len()
    };
    let mut r: Vec<Option<N>> = Vec::new();
    let mut i: usize = 0;
    while i < n
        invariant
            i <= n,
            n == pair_count(a@.len() as int, b@.len() as int),
            r.len() == i,
            forall|j: int| #![trigger r[j]] 0 <= j < i ==> (b[j].val() == 0 ==> r[j] is None) && (b[j].val() != 0 ==> checked_result(r[j], trunc_div(a[j].val(), b[j].val()))),
        decreases n - i,
    {
        r.push(num::checked_div(a[i], b[i]));
        i = i + 1;
    }
    r
}

/// Pairwise remainders of the division rounding towards zero; `0` for a division by `0`.
pub fn rem<N: Integer>(a: &Vec<N>, b: &Vec<N>) -> (r: Vec<N>)
    ensures
        r.len() == pair_count(a@.len() as int, b@.len() as int),
        forall|i: int| #![trigger r[i]] 0 <= i < r.len() ==> r[i].val() == (if b[i].val() == 0 { 0 } else { trunc_rem(a[i].val(), b[i].val()) }),
{
    let n = if a.len() < b.len() {
        a.len()
    } else {
        b.len()
    };
    let mut r: Vec<N> = Vec::new();
    let mut i: usize = 0;
    while i < n
        invariant
            i <= n,
            n == pair_count(a@.len() as int, b@.len() as int),
            r.len() == i,
            forall|j: int| #![trigger r[j]] 0 <= j < i ==> r[j].val() == (if b[j].val() == 0 { 0 } else { trunc_rem(a[j].val(), b[j].val()) }),
        decreases n - i,
    {
        r.push(num::rem(a[i], b[i]));
        i = i + 1;
    }
    r
}

/// Pairwise remainders, `None` for a division by `0` or an overflow.
pub fn checked_rem<N: Integer>(a: &Vec<N>, b: &Vec<N>) -> (r: Vec<Option<N>>)
    ensures
        r.len() == pair_count(a@.len() as int, b@.len() as int),
        forall|i: int| #![trigger r[i]] 0 <= i < r.len() ==> (b[i].val() == 0 ==> r[i] is None) && (b[i].val() != 0 ==> (r[i] matches Some(v) ==> v.val() == trunc_rem(a[i].val(), b[i].val()))) && (b[i].val() != 0 ==> (r[i] is None <==> !fits::<N>(trunc_div(a[i].val(), b[i].val())))),
{
    let n = if a.len() < b.len() {
        a.len()
    } else {
        b.len()
    };
    let mut r: Vec<Option<N>> = Vec::new();
    let mut i: usize = 0;
    while i < n
        invariant
            i <= n,
            n == pair_count(a@.len() as int, b@.len() as int),
            r.len() == i,
            forall|j: int| #![trigger r[j]] 0 <= j < i ==> (b[j].val() == 0 ==> r[j] is None) && (b[j].val() != 0 ==> (r[j] matches Some(v) ==> v.val() == trunc_rem(a[j].val(), b[j].val()))) && (b[j].val() != 0 ==> (r[j] is None <==> !fits::<N>(trunc_div(a[j].val(), b[j].val())))),
        decreases n - i,
    {
        r.push(num::checked_rem(a[i], b[i]));
        i = i + 1;
    }
    r
}

/// Negations of a stream, wrapping around the bounds of the type.
pub fn neg<N: Signed>(values: &Vec<N>) -> (r: Vec<N>)
    ensures
        r.len() == values.len(),
        forall|i: int| #![trigger r[i]] 0 <= i < r.len() ==> r[i].val() == wrap::<N>(-values[i].val()),
{
    let mut r: Vec<N> = Vec::new();
    let mut i: usize = 0;
    while i < values.len()
        invariant
            i <= values.len(),
            r.len() == i,
            forall|j: int| #![trigger r[j]] 0 <= j < i ==> r[j].val() == wrap::<N>(-values[j].val()),
        decreases values.len() - i,
    {
        r.push(num::neg(values[i]));
        i = i + 1;
    }
    r
}

/// Negations of a stream, `None` where it does not fit.
pub fn checked_neg<N: Integer>(values: &Vec<N>) -> (r: Vec<Option<N>>)
    ensures
        r.len() == values.len(),
        forall|i: int| #![trigger r[i]] 0 <= i < r.len() ==> checked_result(r[i], -values[i].val()),
{
    let mut r: Vec<Option<N>> = Vec::new();
    let mut i: usize = 0;
    while i < values.len()
        invariant
            i <= values.len(),
            r.len() == i,
            forall|j: int| #![trigger r[j]] 0 <= j < i ==> checked_result(r[j], -values[j].val()),
        decreases values.len() - i,
    {
        r.push(num::checked_neg(values[i]));
        i = i + 1;
    }
    r
}

/// Negations of a stream, wrapping around the bounds of the type.
pub fn wrapping_neg<N: Integer>(values: &Vec<N>) -> (r: Vec<N>)
    ensures
        r.len() == values.len(),
        forall|i: int| #![trigger r[i]] 0 <= i < r.len() ==> r[i].val() == wrap::<N>(-values[i].val()),
{
    let mut r: Vec<N> = Vec::new();
    let mut i: usize = 0;
    while i < values.len()
        invariant
            i <= values.len(),
            r.len() == i,
            forall|j: int| #![trigger r[j]] 0 <= j < i ==> r[j].val() == wrap::<N>(-values[j].val()),
        decreases values.len() - i,
    {
        r.push(num::wrapping_neg(values[i]));
        i = i + 1;
    }
    r
}

/// Powers `exp` of the values of a stream, wrapping around the bounds of the type.
pub fn pow<N: Integer>(values: &Vec<N>, exp: u32) -> (r: Vec<N>)
    ensures
        r.len() == values.len(),
        forall|i: int| #![trigger r[i]] 0 <= i < r.len() ==> r[i].val() == wrap::<N>(power(values[i].val(), exp as nat)),
{
    let mut r: Vec<N> = Vec::new();
    let mut i: usize = 0;
    while i < values.len()
        invariant
            i <= values.len(),
            r.len() == i,
            forall|j: int| #![trigger r[j]] 0 <= j < i ==> r[j].val() == wrap::<N>(power(values[j].val(), exp as nat)),
        decreases values.len() - i,
    {
        r.push(num::pow(values[i], exp));
        i = i + 1;
    }
    r
}

/// Powers `exp` of the values of a stream, `None` where it does not fit.
pub fn checked_pow<N: Integer>(values: &Vec<N>, exp: u32) -> (r: Vec<Option<N>>)
    ensures
        r.len() == values.len(),
        forall|i: int| #![trigger r[i]] 0 <= i < r.len() ==> checked_result(r[i], power(values[i].val(), exp as nat)),
{
    let mut r: Vec<Option<N>> = Vec::new();
    let mut i: usize = 0;
    while i < values.len()
        invariant
            i <= values.len(),
            r.len() == i,
            forall|j: int| #![trigger r[j]] 0 <= j < i ==> checked_result(r[j], power(values[j].val(), exp as nat)),
        decreases values.len() - i,
    {
        r.push(num::checked_pow(values[i], exp));
        i = i + 1;
    }
    r
}

/// Pairwise Euclidean quotients; `0` for a division by `0`.
pub fn euclid_div<N: Integer>(a: &Vec<N>, b: &Vec<N>) -> (r: Vec<N>)
    ensures
        r.len() == pair_count(a@.len() as int, b@.len() as int),
        forall|i: int| #![trigger r[i]] 0 <= i < r.len() ==> r[i].val() == (if b[i].val() == 0 { 0 } else { wrap::<N>(a[i].val() / b[i].val()) }),
{
    let n = if a.len() < b.len() {
        a.len()
    } else {
        b.len()
    };
    let mut r: Vec<N> = Vec::new();
    let mut i: usize = 0;
    while i < n
        invariant
            i <= n,
            n == pair_count(a@.len() as int, b@.len() as int),
            r.len() == i,
            forall|j: int| #![trigger r[j]] 0 <= j < i ==> r[j].val() == (if b[j].val() == 0 { 0 } else { wrap::<N>(a[j].val() / b[j].val()) }),
        decreases n - i,
    {
        r.push(num::euclid_div(a[i], b[i]));
        i = i + 1;
    }
    r
}

/// Pairwise Euclidean remainders; `0` for a division by `0`.
pub fn euclid_rem<N: Integer>(a: &Vec<N>, b: &Vec<N>) -> (r: Vec<N>)
    ensures
        r.len() == pair_count(a@.len() as int, b@.len() as int),
        forall|i: int| #![trigger r[i]] 0 <= i < r.len() ==> r[i].val() == (if b[i].val() == 0 { 0 } else { a[i].val() % b[i].val() }),
{
    let n = if a.len() < b.len() {
        a.len()
    } else {
        b.len()
    };
    let mut r: Vec<N> = Vec::new();
    let mut i: usize = 0;
    while i < n
        invariant
            i <= n,
            n == pair_count(a@.len() as int, b@.len() as int),
            r.len() == i,
            forall|j: int| #![trigger r[j]] 0 <= j < i ==> r[j].val() == (if b[j].val() == 0 { 0 } else { a[j].val() % b[j].val() }),
        decreases n - i,
    {
        r.push(num::euclid_rem(a[i], b[i]));
        i = i + 1;
    }
    r
}

/// Pairwise Euclidean quotients, `None` for a division by `0` or an overflow.
pub fn checked_euclid_div<N: Integer>(a: &Vec<N>, b: &Vec<N>) -> (r: Vec<Option<N>>)
    ensures
        r.len() == pair_count(a@.len() as int, b@.len() as int),
        forall|i: int| #![trigger r[i]] 0 <= i < r.len() ==> (b[i].val() == 0 ==> r[i] is None) && (b[i].val() != 0 ==> checked_result(r[i], a[i].val() / b[i].val())),
{
    let n = if a.len() < b.len() {
        a.len()
    } else {
        b.len()
    };
    let mut r: Vec<Option<N>> = Vec::new();
    let mut i: usize = 0;
    while i < n
        invariant
            i <= n,
            n == pair_count(a@.len() as int, b@.len() as int),
            r.len() == i,
            forall|j: int| #![trigger r[j]] 0 <= j < i ==> (b[j].val() == 0 ==> r[j] is None) && (b[j].val() != 0 ==> checked_result(r[j], a[j].val() / b[j].val())),
        decreases n - i,
    {
        r.push(num::checked_euclid_div(a[i], b[i]));
        i = i + 1;
    }
    r
}

/// Pairwise Euclidean remainders, `None` for a division by `0` or an overflow.
pub fn checked_euclid_rem<N: Integer>(a: &Vec<N>, b: &Vec<N>) -> (r: Vec<Option<N>>)
    ensures
        r.len() == pair_count(a@.len() as int, b@.len() as int),
        forall|i: int| #![trigger r[i]] 0 <= i < r.len() ==> (b[i].val() == 0 ==> r[i] is None) && (b[i].val() != 0 ==> (r[i] matches Some(v) ==> v.val() == a[i].val() % b[i].val())) && (b[i].val() != 0 ==> (r[i] is None <==> !fits::<N>(a[i].val() / b[i].val()))),
{
    let n = if a.len() < b.len() {
        a.len()
    } else {
        b.len()
    };
    let mut r: Vec<Option<N>> = Vec::new();
    let mut i: usize = 0;
    while i < n
        invariant
            i <= n,
            n == pair_count(a@.len() as int, b@.len() as int),
            r.len() == i,
            forall|j: int| #![trigger r[j]] 0 <= j < i ==> (b[j].val() == 0 ==> r[j] is None) && (b[j].val() != 0 ==> (r[j] matches Some(v) ==> v.val() == a[j].val() % b[j].val())) && (b[j].val() != 0 ==> (r[j] is None <==> !fits::<N>(a[j].val() / b[j].val()))),
        decreases n - i,
    {
        r.push(num::checked_euclid_rem(a[i], b[i]));
        i = i + 1;
    }
    r
}

} // verus!
