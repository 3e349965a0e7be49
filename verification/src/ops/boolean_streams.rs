//! Stream forms of the logic operators.
use vstd::prelude::*;
use crate::batch::pair_count;
use super::boolean;

verus! {

/// Pairwise equality of two streams.
pub fn equal(a: &Vec<bool>, b: &Vec<bool>) -> (r: Vec<bool>)
    ensures
        r.len() == pair_count(a@.len() as int, b@.len() as int),
        forall|i: int| #![trigger r[i]] 0 <= i < r.len() ==> r[i] == (a[i] == b[i]),
{
    let n = if a.len() < b.len() {
        a.len()
    } else {
        b.len()
    };
    let mut r: Vec<bool> = Vec::new();
    let mut i: usize = 0;
    while i < n
        invariant
            i <= n,
            n == pair_count(a@.len() as int, b@.len() as int),
            r.len() == i,
            forall|j: int| #![trigger r[j]] 0 <= j < i ==> r[j] == (a[j] == b[j]),
        decreases n - i,
    {
        r.push(boolean::equal(a[i], b[i]));
        i = i + 1;
    }
    r
}

/// Pairwise difference of two streams.
pub fn not_equal(a: &Vec<bool>, b: &Vec<bool>) -> (r: Vec<bool>)
    ensures
        r.len() == pair_count(a@.len() as int, b@.len() as int),
        forall|i: int| #![trigger r[i]] 0 <= i < r.len() ==> r[i] == (a[i] != b[i]),
{
    let n = if a.len() < b.len() {
        a.len()
    } else {
        b.len()
    };
    let mut r: Vec<bool> = Vec::new();
    let mut i: usize = 0;
    while i < n
        invariant
            i <= n,
            n == pair_count(a@.len() as int, b@.len() as int),
            r.len() == i,
            forall|j: int| #![trigger r[j]] 0 <= j < i ==> r[j] == (a[j] != b[j]),
        decreases n - i,
    {
        r.push(boolean::not_equal(a[i], b[i]));
        i = i + 1;
    }
    r
}

/// Pairwise conjunction of two streams.
pub fn and(a: &Vec<bool>, b: &Vec<bool>) -> (r: Vec<bool>)
    ensures
        r.len() == pair_count(a@.len() as int, b@.len() as int),
        forall|i: int| #![trigger r[i]] 0 <= i < r.len() ==> r[i] == (a[i] && b[i]),
{
    let n = if a.len() < b.len() {
        a.len()
    } else {
        b.len()
    };
    let mut r: Vec<bool> = Vec::new();
    let mut i: usize = 0;
    while i < n
        invariant
            i <= n,
            n == pair_count(a@.len() as int, b@.len() as int),
            r.len() == i,
            forall|j: int| #![trigger r[j]] 0 <= j < i ==> r[j] == (a[j] && b[j]),
        decreases n - i,
    {
        r.push(boolean::and(a[i], b[i]));
        i = i + 1;
    }
    r
}

/// Pairwise disjunction of two streams.
pub fn or(a: &Vec<bool>, b: &Vec<bool>) -> (r: Vec<bool>)
    ensures
        r.len() == pair_count(a@.len() as int, b@.len() as int),
        forall|i: int| #![trigger r[i]] 0 <= i < r.len() ==> r[i] == (a[i] || b[i]),
{
    let n = if a.len() < b.len() {
        a.len()
    } else {
        b.len()
    };
    let mut r: Vec<bool> = Vec::new();
    let mut i: usize = 0;
    while i < n
        invariant
            i <= n,
            n == pair_count(a@.len() as int, b@.len() as int),
            r.len() == i,
            forall|j: int| #![trigger r[j]] 0 <= j < i ==> r[j] == (a[j] || b[j]),
        decreases n - i,
    {
        r.push(boolean::or(a[i], b[i]));
        i = i + 1;
    }
    r
}

/// Pairwise exclusive disjunction of two streams.
pub fn xor(a: &Vec<bool>, b: &Vec<bool>) -> (r: Vec<bool>)
    ensures
        r.len() == pair_count(a@.len() as int, b@.len() as int),
        forall|i: int| #![trigger r[i]] 0 <= i < r.len() ==> r[i] == (a[i] != b[i]),
{
    let n = if a.len() < b.len() {
        a.len()
    } else {
        b.len()
    };
    let mut r: Vec<bool> = Vec::new();
    let mut i: usize = 0;
    while i < n
        invariant
            i <= n,
            n == pair_count(a@.len() as int, b@.len() as int),
            r.len() == i,
            forall|j: int| #![trigger r[j]] 0 <= j < i ==> r[j] == (a[j] != b[j]),
        decreases n - i,
    {
        r.push(boolean::xor(a[i], b[i]));
        i = i + 1;
    }
    r
}

/// Negations of a stream.
pub fn not(value: &Vec<bool>) -> (r: Vec<bool>)
    ensures
        r.len() == value.len(),
        forall|i: int| #![trigger r[i]] 0 <= i < r.len() ==> r[i] == !value[i],
{
    let mut r: Vec<bool> = Vec::new();
    let mut i: usize = 0;
    while i < value.len()
        invariant
            i <= value.len(),
            r.len() == i,
            forall|j: int| #![trigger r[j]] 0 <= j < i ==> r[j] == !value[j],
        decreases value.len() - i,
    {
        r.push(boolean::not(value[i]));
        i = i + 1;
    }
    r
}

} // verus!
