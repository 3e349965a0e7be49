//! Stream forms of the comparison of strings.
use vstd::prelude::*;
use crate::batch::pair_count;
use super::strings;

verus! {

/// Pairwise equality of two streams of strings.
pub fn equal(a: &Vec<String>, b: &Vec<String>) -> (r: Vec<bool>)
    ensures
        r.len() == pair_count(a@.len() as int, b@.len() as int),
        forall|i: int| #![trigger r[i]] 0 <= i < r.len() ==> r[i] == (a[i]@ == b[i]@),
{
    let n = if a.len() < b.len() {
        a.len()
    } else {
        b.len()
    };
    let mut r: Vec<bool> = Vec::new();
    let mut i: usize = 0;
    while i < n
        invariant
            i <= n,
            n == pair_count(a@.len() as int, b@.len() as int),
            r.len() == i,
            forall|j: int| #![trigger r[j]] 0 <= j < i ==> r[j] == (a[j]@ == b[j]@),
        decreases n - i,
    {
        r.push(strings::equal(&a[i], &b[i]));
        i = i + 1;
    }
    r
}

/// Pairwise difference of two streams of strings.
pub fn not_equal(a: &Vec<String>, b: &Vec<String>) -> (r: Vec<bool>)
    ensures
        r.len() == pair_count(a@.len() as int, b@.len() as int),
        forall|i: int| #![trigger r[i]] 0 <= i < r.len() ==> r[i] == (a[i]@ != b[i]@),
{
    let n = if a.len() < b.len() {
        a.len()
    } else {
        b.len()
    };
    let mut r: Vec<bool> = Vec::new();
    let mut i: usize = 0;
    while i < n
        invariant
            i <= n,
            n == pair_count(a@.len() as int, b@.len() as int),
            r.len() == i,
            forall|j: int| #![trigger r[j]] 0 <= j < i ==> r[j] == (a[j]@ != b[j]@),
        decreases n - i,
    {
        r.push(strings::not_equal(&a[i], &b[i]));
        i = i + 1;
    }
    r
}

} // verus!
