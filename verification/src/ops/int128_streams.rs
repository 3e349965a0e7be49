//! Stream forms of the operators on `i128`.
use vstd::prelude::*;
use crate::batch::pair_count;
use super::integer::{abs_int, power, trunc_div, trunc_rem};
use super::int128;

verus! {

/// Pairwise equality of two streams.
pub fn equal(a: &Vec<i128>, b: &Vec<i128>) -> (r: Vec<bool>)
    ensures
        r.len() == pair_count(a@.len() as int, b@.len() as int),
        forall|i: int| #![trigger r[i]] 0 <= i < r.len() ==> r[i] == (a[i] == b[i]),
{
    let n = if a.len() < b.len() {
        a.len()
    } else {
        b.len()
    };
    let mut r: Vec<bool> = Vec::new();
    let mut i: usize = 0;
    while i < n
        invariant
            i <= n,
            n == pair_count(a@.len() as int, b@.len() as int),
            r.len() == i,
            forall|j: int| #![trigger r[j]] 0 <= j < i ==> r[j] == (a[j] == b[j]),
        decreases n - i,
    {
        r.push(int128::equal(a[i], b[i]));
        i = i + 1;
    }
    r
}

/// Pairwise difference of two streams.
pub fn not_equal(a: &Vec<i128>, b: &Vec<i128>) -> (r: Vec<bool>)
    ensures
        r.len() == pair_count(a@.len() as int, b@.len() as int),
        forall|i: int| #![trigger r[i]] 0 <= i < r.len() ==> r[i] == (a[i] != b[i]),
{
    let n = if a.len() < b.len() {
        a.len()
    } else {
        b.len()
    };
    let mut r: Vec<bool> = Vec::new();
    let mut i: usize = 0;
    while i < n
        invariant
            i <= n,
            n == pair_count(a@.len() as int, b@.len() as int),
            r.len() == i,
            forall|j: int| #![trigger r[j]] 0 <= j < i ==> r[j] == (a[j] != b[j]),
        decreases n - i,
    {
        r.push(int128::not_equal(a[i], b[i]));
        i = i + 1;
    }
    r
}

/// Values of `base` raised to the power of the paired values of `exponent`.
#[verifier::loop_isolation(false)]
pub fn pow(a: &Vec<i128>, b: &Vec<i128>) -> (r: Vec<i128>)
    requires
        forall|i: int| #![trigger a[i], b[i]] 0 <= i < pair_count(a@.len() as int, b@.len() as int) ==> (i128::MIN <= power(a[i] as int, (b[i] as u32) as nat) <= i128::MAX),
    ensures
        r.len() == pair_count(a@.len() as int, b@.len() as int),
        forall|i: int| #![trigger r[i]] 0 <= i < r.len() ==> r[i] as int == power(a[i] as int, (b[i] as u32) as nat),
{
    let n = if a.len() < b.len() {
        a.len()
    } else {
        b.len()
    };
    let mut r: Vec<i128> = Vec::new();
    let mut i: usize = 0;
    while i < n
        invariant
            i <= n,
            n == pair_count(a@.len() as int, b@.len() as int),
            r.len() == i,
            forall|j: int| #![trigger r[j]] 0 <= j < i ==> r[j] as int == power(a[j] as int, (b[j] as u32) as nat),
        decreases n - i,
    {
        r.push(int128::pow(a[i], b[i]));
        i = i + 1;
    }
    r
}

/// Pairwise `a <= b` of two streams.
pub fn lower_equal(a: &Vec<i128>, b: &Vec<i128>) -> (r: Vec<bool>)
    ensures
        r.len() == pair_count(a@.len() as int, b@.len() as int),
        forall|i: int| #![trigger r[i]] 0 <= i < r.len() ==> r[i] == (a[i] <= b[i]),
{
    let n = if a.len() < b.len() {
        a.len()
    } else {
        b.len()
    };
    let mut r: Vec<bool> = Vec::new();
    let mut i: usize = 0;
    while i < n
        invariant
            i <= n,
            n == pair_count(a@.len() as int, b@.len() as int),
            r.len() == i,
            forall|j: int| #![trigger r[j]] 0 <= j < i ==> r[j] == (a[j] <= b[j]),
        decreases n - i,
    {
        r.push(int128::le(a[i], b[i]));
        i = i + 1;
    }
    r
}

/// Pairwise `a >= b` of two streams.
pub fn greater_equal(a: &Vec<i128>, b: &Vec<i128>) -> (r: Vec<bool>)
    ensures
        r.len() == pair_count(a@.len() as int, b@.len() as int),
        forall|i: int| #![trigger r[i]] 0 <= i < r.len() ==> r[i] == (a[i] >= b[i]),
{
    let n = if a.len() < b.len() {
        a.len()
    } else {
        b.len()
    };
    let mut r: Vec<bool> = Vec::new();
    let mut i: usize = 0;
    while i < n
        invariant
            i <= n,
            n == pair_count(a@.len() as int, b@.len() as int),
            r.len() == i,
            forall|j: int| #![trigger r[j]] 0 <= j < i ==> r[j] == (a[j] >= b[j]),
        decreases n - i,
    {
        r.push(int128::ge(a[i], b[i]));
        i = i + 1;
    }
    r
}

/// Pairwise sums of two streams.
#[verifier::loop_isolation(false)]
pub fn add(a: &Vec<i128>, b: &Vec<i128>) -> (r: Vec<i128>)
    requires
        forall|i: int| #![trigger a[i], b[i]] 0 <= i < pair_count(a@.len() as int, b@.len() as int) ==> (i128::MIN <= a[i] + b[i] <= i128::MAX),
    ensures
        r.len() == pair_count(a@.len() as int, b@.len() as int),
        forall|i: int| #![trigger r[i]] 0 <= i < r.len() ==> r[i] == a[i] + b[i],
{
    let n = if a.len() < b.len() {
        a.len()
    } else {
        b.len()
    };
    let mut r: Vec<i128> = Vec::new();
    let mut i: usize = 0;
    while i < n
        invariant
            i <= n,
            n == pair_count(a@.len() as int, b@.len() as int),
            r.len() == i,
            forall|j: int| #![trigger r[j]] 0 <= j < i ==> r[j] == a[j] + b[j],
        decreases n - i,
    {
        r.push(int128::add(a[i], b[i]));
        i = i + 1;
    }
    r
}

/// Pairwise quotients of two streams, rounding towards zero.
#[verifier::loop_isolation(false)]
pub fn div(a: &Vec<i128>, b: &Vec<i128>) -> (r: Vec<i128>)
    requires
        forall|i: int| #![trigger a[i], b[i]] 0 <= i < pair_count(a@.len() as int, b@.len() as int) ==> (b[i] != 0 && i128::MIN <= trunc_div(a[i] as int, b[i] as int) <= i128::MAX),
    ensures
        r.len() == pair_count(a@.len() as int, b@.len() as int),
        forall|i: int| #![trigger r[i]] 0 <= i < r.len() ==> r[i] as int == trunc_div(a[i] as int, b[i] as int),
{
    let n = if a.len() < b.len() {
        a.len()
    } else {
        b.len()
    };
    let mut r: Vec<i128> = Vec::new();
    let mut i: usize = 0;
    while i < n
        invariant
            i <= n,
            n == pair_count(a@.len() as int, b@.len() as int),
            r.len() == i,
            forall|j: int| #![trigger r[j]] 0 <= j < i ==> r[j] as int == trunc_div(a[j] as int, b[j] as int),
        decreases n - i,
    {
        r.push(int128::div(a[i], b[i]));
        i = i + 1;
    }
    r
}

/// Pairwise products of two streams.
#[verifier::loop_isolation(false)]
pub fn mult(a: &Vec<i128>, b: &Vec<i128>) -> (r: Vec<i128>)
    requires
        forall|i: int| #![trigger a[i], b[i]] 0 <= i < pair_count(a@.len() as int, b@.len() as int) ==> (i128::MIN <= a[i] * b[i] <= i128::MAX),
    ensures
        r.len() == pair_count(a@.len() as int, b@.len() as int),
        forall|i: int| #![trigger r[i]] 0 <= i < r.len() ==> r[i] == a[i] * b[i],
{
    let n = if a.len() < b.len() {
        a.len()
    } else {
        b.len()
    };
    let mut r: Vec<i128> = Vec::new();
    let mut i: usize = 0;
    while i < n
        invariant
            i <= n,
            n == pair_count(a@.len() as int, b@.len() as int),
            r.len() == i,
            forall|j: int| #![trigger r[j]] 0 <= j < i ==> r[j] == a[j] * b[j],
        decreases n - i,
    {
        r.push(int128::mult(a[i], b[i]));
        i = i + 1;
    }
    r
}

/// Pairwise remainders of two streams, rounding towards zero.
#[verifier::loop_isolation(false)]
pub fn rem(a: &Vec<i128>, b: &Vec<i128>) -> (r: Vec<i128>)
    requires
        forall|i: int| #![trigger a[i], b[i]] 0 <= i < pair_count(a@.len() as int, b@.len() as int) ==> (b[i] != 0 && i128::MIN <= trunc_div(a[i] as int, b[i] as int) <= i128::MAX),
    ensures
        r.len() == pair_count(a@.len() as int, b@.len() as int),
        forall|i: int| #![trigger r[i]] 0 <= i < r.len() ==> r[i] as int == trunc_rem(a[i] as int, b[i] as int),
{
    let n = if a.len() < b.len() {
        a.len()
    } else {
        b.len()
    };
    let mut r: Vec<i128> = Vec::new();
    let mut i: usize = 0;
    while i < n
        invariant
            i <= n,
            n == pair_count(a@.len() as int, b@.len() as int),
            r.len() == i,
            forall|j: int| #![trigger r[j]] 0 <= j < i ==> r[j] as int == trunc_rem(a[j] as int, b[j] as int),
        decreases n - i,
    {
        r.push(int128::rem(a[i], b[i]));
        i = i + 1;
    }
    r
}

/// Pairwise differences of two streams.
#[verifier::loop_isolation(false)]
pub fn sub(a: &Vec<i128>, b: &Vec<i128>) -> (r: Vec<i128>)
    requires
        forall|i: int| #![trigger a[i], b[i]] 0 <= i < pair_count(a@.len() as int, b@.len() as int) ==> (i128::MIN <= a[i] - b[i] <= i128::MAX),
    ensures
        r.len() == pair_count(a@.len() as int, b@.len() as int),
        forall|i: int| #![trigger r[i]] 0 <= i < r.len() ==> r[i] == a[i] - b[i],
{
    let n = if a.len() < b.len() {
        a.len()
    } else {
        b.len()
    };
    let mut r: Vec<i128> = Vec::new();
    let mut i: usize = 0;
    while i < n
        invariant
            i <= n,
            n == pair_count(a@.len() as int, b@.len() as int),
            r.len() == i,
            forall|j: int| #![trigger r[j]] 0 <= j < i ==> r[j] == a[j] - b[j],
        decreases n - i,
    {
        r.push(int128::sub(a[i], b[i]));
        i = i + 1;
    }
    r
}

/// Pairwise minimum of two streams.
pub fn min(a: &Vec<i128>, b: &Vec<i128>) -> (r: Vec<i128>)
    ensures
        r.len() == pair_count(a@.len() as int, b@.len() as int),
        forall|i: int| #![trigger r[i]] 0 <= i < r.len() ==> r[i] == (if a[i] <= b[i] { a[i] } else { b[i] }),
{
    let n = if a.len() < b.len() {
        a.len()
    } else {
        b.len()
    };
    let mut r: Vec<i128> = Vec::new();
    let mut i: usize = 0;
    while i < n
        invariant
            i <= n,
            n == pair_count(a@.len() as int, b@.len() as int),
            r.len() == i,
            forall|j: int| #![trigger r[j]] 0 <= j < i ==> r[j] == (if a[j] <= b[j] { a[j] } else { b[j] }),
        decreases n - i,
    {
        r.push(int128::min(a[i], b[i]));
        i = i + 1;
    }
    r
}

/// Pairwise maximum of two streams.
pub fn max(a: &Vec<i128>, b: &Vec<i128>) -> (r: Vec<i128>)
    ensures
        r.len() == pair_count(a@.len() as int, b@.len() as int),
        forall|i: int| #![trigger r[i]] 0 <= i < r.len() ==> r[i] == (if a[i] <= b[i] { b[i] } else { a[i] }),
{
    let n = if a.len() < b.len() {
        a.len()
    } else {
        b.len()
    };
    let mut r: Vec<i128> = Vec::new();
    let mut i: usize = 0;
    while i < n
        invariant
            i <= n,
            n == pair_count(a@.len() as int, b@.len() as int),
            r.len() == i,
            forall|j: int| #![trigger r[j]] 0 <= j < i ==> r[j] == (if a[j] <= b[j] { b[j] } else { a[j] }),
        decreases n - i,
    {
        r.push(int128::max(a[i], b[i]));
        i = i + 1;
    }
    r
}

/// Pairwise `a < b` of two streams.
pub fn lower_than(a: &Vec<i128>, b: &Vec<i128>) -> (r: Vec<bool>)
    ensures
        r.len() == pair_count(a@.len() as int, b@.len() as int),
        forall|i: int| #![trigger r[i]] 0 <= i < r.len() ==> r[i] == (a[i] < b[i]),
{
    let n = if a.len() < b.len() {
        a.len()
    } else {
        b.len()
    };
    let mut r: Vec<bool> = Vec::new();
    let mut i: usize = 0;
    while i < n
        invariant
            i <= n,
            n == pair_count(a@.len() as int, b@.len() as int),
            r.len() == i,
            forall|j: int| #![trigger r[j]] 0 <= j < i ==> r[j] == (a[j] < b[j]),
        decreases n - i,
    {
        r.push(int128::lt(a[i], b[i]));
        i = i + 1;
    }
    r
}

/// Pairwise `a > b` of two streams.
pub fn greater_than(a: &Vec<i128>, b: &Vec<i128>) -> (r: Vec<bool>)
    ensures
        r.len() == pair_count(a@.len() as int, b@.len() as int),
        forall|i: int| #![trigger r[i]] 0 <= i < r.len() ==> r[i] == (a[i] > b[i]),
{
    let n = if a.len() < b.len() {
        a.len()
    } else {
        b.len()
    };
    let mut r: Vec<bool> = Vec::new();
    let mut i: usize = 0;
    while i < n
        invariant
            i <= n,
            n == pair_count(a@.len() as int, b@.len() as int),
            r.len() == i,
            forall|j: int| #![trigger r[j]] 0 <= j < i ==> r[j] == (a[j] > b[j]),
        decreases n - i,
    {
        r.push(int128::gt(a[i], b[i]));
        i = i + 1;
    }
    r
}

/// Absolute values of a stream.
#[verifier::loop_isolation(false)]
pub fn abs(value: &Vec<i128>) -> (r: Vec<i128>)
    requires
        forall|i: int| #![trigger value[i]] 0 <= i < value.len() ==> (value[i] != i128::MIN),
    ensures
        r.len() == value.len(),
        forall|i: int| #![trigger r[i]] 0 <= i < r.len() ==> r[i] as int == abs_int(value[i] as int),
{
    let mut r: Vec<i128> = Vec::new();
    let mut i: usize = 0;
    while i < value.len()
        invariant
            i <= value.len(),
            r.len() == i,
            forall|j: int| #![trigger r[j]] 0 <= j < i ==> r[j] as int == abs_int(value[j] as int),
        decreases value.len() - i,
    {
        r.push(int128::abs(value[i]));
        i = i + 1;
    }
    r
}

} // verus!
