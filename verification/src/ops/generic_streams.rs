//! Stream forms of the generic comparison functions.
use vstd::prelude::*;
use crate::batch::pair_count;
use super::integer::Integer;
use super::generic;

verus! {

/// Pairwise equality of two streams.
pub fn equal<T: Integer>(a: &Vec<T>, b: &Vec<T>) -> (r: Vec<bool>)
    ensures
        r.len() == pair_count(a@.len() as int, b@.len() as int),
        forall|i: int| #![trigger r[i]] 0 <= i < r.len() ==> r[i] == (a[i].val() == b[i].val()),
{
    let n = if a.len() < b.len() {
        a.len()
    } else {
        b.len()
    };
    let mut r: Vec<bool> = Vec::new();
    let mut i: usize = 0;
    while i < n
        invariant
            i <= n,
            n == pair_count(a@.len() as int, b@.len() as int),
            r.len() == i,
            forall|j: int| #![trigger r[j]] 0 <= j < i ==> r[j] == (a[j].val() == b[j].val()),
        decreases n - i,
    {
        r.push(generic::equal(a[i], b[i]));
        i = i + 1;
    }
    r
}

/// Pairwise difference of two streams.
pub fn not_equal<T: Integer>(a: &Vec<T>, b: &Vec<T>) -> (r: Vec<bool>)
    ensures
        r.len() == pair_count(a@.len() as int, b@.len() as int),
        forall|i: int| #![trigger r[i]] 0 <= i < r.len() ==> r[i] == (a[i].val() != b[i].val()),
{
    let n = if a.len() < b.len() {
        a.len()
    } else {
        b.len()
    };
    let mut r: Vec<bool> = Vec::new();
    let mut i: usize = 0;
    while i < n
        invariant
            i <= n,
            n == pair_count(a@.len() as int, b@.len() as int),
            r.len() == i,
            forall|j: int| #![trigger r[j]] 0 <= j < i ==> r[j] == (a[j].val() != b[j].val()),
        decreases n - i,
    {
        r.push(generic::not_equal(a[i], b[i]));
        i = i + 1;
    }
    r
}

/// Pairwise `a > b` of two streams.
pub fn greater_than<T: Integer>(a: &Vec<T>, b: &Vec<T>) -> (r: Vec<bool>)
    ensures
        r.len() == pair_count(a@.len() as int, b@.len() as int),
        forall|i: int| #![trigger r[i]] 0 <= i < r.len() ==> r[i] == (a[i].val() > b[i].val()),
{
    let n = if a.len() < b.len() {
        a.len()
    } else {
        b.len()
    };
    let mut r: Vec<bool> = Vec::new();
    let mut i: usize = 0;
    while i < n
        invariant
            i <= n,
            n == pair_count(a@.len() as int, b@.len() as int),
            r.len() == i,
            forall|j: int| #![trigger r[j]] 0 <= j < i ==> r[j] == (a[j].val() > b[j].val()),
        decreases n - i,
    {
        r.push(generic::gt(a[i], b[i]));
        i = i + 1;
    }
    r
}

/// Pairwise `a >= b` of two streams.
pub fn greater_equal<T: Integer>(a: &Vec<T>, b: &Vec<T>) -> (r: Vec<bool>)
    ensures
        r.len() == pair_count(a@.len() as int, b@.len() as int),
        forall|i: int| #![trigger r[i]] 0 <= i < r.len() ==> r[i] == (a[i].val() >= b[i].val()),
{
    let n = if a.len() < b.len() {
        a.len()
    } else {
        b.len()
    };
    let mut r: Vec<bool> = Vec::new();
    let mut i: usize = 0;
    while i < n
        invariant
            i <= n,
            n == pair_count(a@.len() as int, b@.len() as int),
            r.len() == i,
            forall|j: int| #![trigger r[j]] 0 <= j < i ==> r[j] == (a[j].val() >= b[j].val()),
        decreases n - i,
    {
        r.push(generic::ge(a[i], b[i]));
        i = i + 1;
    }
    r
}

/// Pairwise `a < b` of two streams.
pub fn lower_than<T: Integer>(a: &Vec<T>, b: &Vec<T>) -> (r: Vec<bool>)
    ensures
        r.len() == pair_count(a@.len() as int, b@.len() as int),
        forall|i: int| #![trigger r[i]] 0 <= i < r.len() ==> r[i] == (a[i].val() < b[i].val()),
{
    let n = if a.len() < b.len() {
        a.len()
    } else {
        b.len()
    };
    let mut r: Vec<bool> = Vec::new();
    let mut i: usize = 0;
    while i < n
        invariant
            i <= n,
            n == pair_count(a@.len() as int, b@.len() as int),
            r.len() == i,
            forall|j: int| #![trigger r[j]] 0 <= j < i ==> r[j] == (a[j].val() < b[j].val()),
        decreases n - i,
    {
        r.push(generic::lt(a[i], b[i]));
        i = i + 1;
    }
    r
}

/// Pairwise `a <= b` of two streams.
pub fn lower_equal<T: Integer>(a: &Vec<T>, b: &Vec<T>) -> (r: Vec<bool>)
    ensures
        r.len() == pair_count(a@.len() as int, b@.len() as int),
        forall|i: int| #![trigger r[i]] 0 <= i < r.len() ==> r[i] == (a[i].val() <= b[i].val()),
{
    let n = if a.len() < b.len() {
        a.len()
    } else {
        b.len()
    };
    let mut r: Vec<bool> = Vec::new();
    let mut i: usize = 0;
    while i < n
        invariant
            i <= n,
            n == pair_count(a@.len() as int, b@.len() as int),
            r.len() == i,
            forall|j: int| #![trigger r[j]] 0 <= j < i ==> r[j] == (a[j].val() <= b[j].val()),
        decreases n - i,
    {
        r.push(generic::le(a[i], b[i]));
        i = i + 1;
    }
    r
}

/// Pairwise minimum of two streams.
pub fn min<T: Integer>(a: &Vec<T>, b: &Vec<T>) -> (r: Vec<T>)
    ensures
        r.len() == pair_count(a@.len() as int, b@.len() as int),
        forall|i: int| #![trigger r[i]] 0 <= i < r.len() ==> r[i] == (if a[i].val() <= b[i].val() { a[i] } else { b[i] }),
{
    let n = if a.len() < b.len() {
        a.len()
    } else {
        b.len()
    };
    let mut r: Vec<T> = Vec::new();
    let mut i: usize = 0;
    while i < n
        invariant
            i <= n,
            n == pair_count(a@.len() as int, b@.len() as int),
            r.len() == i,
            forall|j: int| #![trigger r[j]] 0 <= j < i ==> r[j] == (if a[j].val() <= b[j].val() { a[j] } else { b[j] }),
        decreases n - i,
    {
        r.push(generic::min(a[i], b[i]));
        i = i + 1;
    }
    r
}

/// Pairwise maximum of two streams.
pub fn max<T: Integer>(a: &Vec<T>, b: &Vec<T>) -> (r: Vec<T>)
    ensures
        r.len() == pair_count(a@.len() as int, b@.len() as int),
        forall|i: int| #![trigger r[i]] 0 <= i < r.len() ==> r[i] == (if a[i].val() <= b[i].val() { b[i] } else { a[i] }),
{
    let n = if a.len() < b.len() {
        a.len()
    } else {
        b.len()
    };
    let mut r: Vec<T> = Vec::new();
    let mut i: usize = 0;
    while i < n
        invariant
            i <= n,
            n == pair_count(a@.len() as int, b@.len() as int),
            r.len() == i,
            forall|j: int| #![trigger r[j]] 0 <= j < i ==> r[j] == (if a[j].val() <= b[j].val() { b[j] } else { a[j] }),
        decreases n - i,
    {
        r.push(generic::max(a[i], b[i]));
        i = i + 1;
    }
    r
}

/// Values of a stream restrained to `[min, max]`.
#[verifier::loop_isolation(false)]
pub fn clamp<T: Integer>(value: &Vec<T>, min: T, max: T) -> (r: Vec<T>)
    requires
        forall|i: int| #![trigger value[i]] 0 <= i < value.len() ==> (min.val() <= max.val()),
    ensures
        r.len() == value.len(),
        forall|i: int| #![trigger r[i]] 0 <= i < r.len() ==> r[i] == (if value[i].val() < min.val() { min } else if value[i].val() > max.val() { max } else { value[i] }),
{
    let mut r: Vec<T> = Vec::new();
    let mut i: usize = 0;
    while i < value.len()
        invariant
            i <= value.len(),
            r.len() == i,
            forall|j: int| #![trigger r[j]] 0 <= j < i ==> r[j] == (if value[j].val() < min.val() { min } else if value[j].val() > max.val() { max } else { value[j] }),
        decreases value.len() - i,
    {
        r.push(generic::clamp(value[i], min, max));
        i = i + 1;
    }
    r
}

} // verus!
