//! Batches of stream values.
//!
//! A treatment reads values from its input streams
//! and sends results on its output streams. The library states what a
//! treatment sends for the values it reads: a two-input treatment pairs the
//! values of its inputs in order and stops with the shorter one. Some
//! treatments go through their inputs up to and including the first one
//! that stops them.
use vstd::prelude::*;

verus! {

/// Number of pairs formed from two inputs of lengths `x` and `y`.
pub open spec fn pair_count(x: int, y: int) -> int {
    if x < y {
        x
    } else {
        y
    }
}

/// The number of items of `s` taken up to and including the first one
/// for which `stop` holds (all of them where it holds for none).
pub open spec fn until_stop<A>(s: Seq<A>, stop: spec_fn(A) -> bool) -> int
    decreases s.len(),
{
    if s.len() == 0 {
        0
    } else if stop(s[0]) {
        1
    } else {
        1 + until_stop(s.drop_first(), stop)
    }
}

/// Taking items up to the first one that stops: every item taken before
/// the last does not stop, and the last one taken stops unless all were
/// taken.
pub proof fn lemma_until_stop<A>(s: Seq<A>, stop: spec_fn(A) -> bool)
    ensures
        0 <= until_stop(s, stop) <= s.len(),
        forall|k: int| 0 <= k < until_stop(s, stop) - 1 ==> !stop(#[trigger] s[k]),
        until_stop(s, stop) < s.len() ==> until_stop(s, stop) > 0 && stop(s[until_stop(s, stop) - 1]),
        until_stop(s, stop) == s.len() && s.len() > 0 ==> (stop(s[s.len() - 1]) || forall|k: int|
            0 <= k < s.len() ==> !stop(#[trigger] s[k])),
    decreases s.len(),
{
    if s.len() > 0 && !stop(s[0]) {
        let rest = s.drop_first();
        lemma_until_stop(rest, stop);
        assert forall|k: int| 0 <= k < until_stop(s, stop) - 1 implies !stop(#[trigger] s[k]) by {
            if k > 0 {
                assert(s[k] == rest[k - 1]);
            }
        }
        if until_stop(s, stop) < s.len() {
            assert(s[until_stop(s, stop) - 1] == rest[until_stop(rest, stop) - 1]);
        }
        if until_stop(s, stop) == s.len() && !stop(s[s.len() - 1]) {
            assert forall|k: int| 0 <= k < s.len() implies !stop(#[trigger] s[k]) by {
                if k > 0 {
                    assert(s[k] == rest[k - 1]);
                }
            }
        }
    }
}

} // verus!
