//! What the JavaScript `process` treatment sends for the values it
//! processes.
//!
//! Each JSON value is handed to the engine with the code to run on it. The
//! engine answers with a JSON result, with an error (a script error, a value
//! that cannot be converted, or an `undefined` result), or not at all when
//! it is stopped.
use vstd::prelude::*;
use crate::json::value::Json;

verus! {

/// The engine's answer for one value: a result, an error message, or no
/// answer because the engine is gone.
pub enum Processed {
    Result(Json),
    Error(String),
    Gone,
}

/// The number of answers taken: up to, not including, the first that shows
/// the engine gone.
pub open spec fn answers_taken(answers: Seq<Processed>) -> int
    decreases answers.len(),
{
    if answers.len() == 0 {
        0
    } else if answers[0] is Gone {
        0
    } else {
        1 + answers_taken(answers.drop_first())
    }
}

/// What is sent for an answer: the result, or nothing for an error.
pub open spec fn sent_for(a: Processed) -> Option<Json> {
    match a {
        Processed::Result(j) => Some(j),
        _ => None,
    }
}

proof fn lemma_answers_taken(answers: Seq<Processed>)
    ensures
        0 <= answers_taken(answers) <= answers.len(),
        forall|k: int| 0 <= k < answers_taken(answers) ==> !((#[trigger] answers[k]) is Gone),
        answers_taken(answers) < answers.len() ==> answers[answers_taken(answers)] is Gone,
    decreases answers.len(),
{
    if answers.len() > 0 && !(answers[0] is Gone) {
        let rest = answers.drop_first();
        lemma_answers_taken(rest);
        assert forall|k: int| 0 <= k < answers_taken(answers) implies !((#[trigger] answers[k]) is Gone) by {
            if k > 0 {
                assert(answers[k] == rest[k - 1]);
            }
        }
        if answers_taken(answers) < answers.len() {
            assert(answers[answers_taken(answers)] == rest[answers_taken(rest)]);
        }
    }
}

/// What `process` sends for the engine's answers to the values in turn:
/// the result, or nothing where the engine gave an error; it stops at the
/// first value the engine did not answer.
pub fn process(answers: Vec<Processed>) -> (r: Vec<Option<Json>>)
    ensures
        r@.len() == answers_taken(answers@),
        forall|k: int| 0 <= k < r@.len() ==> #[trigger] r@[k] == sent_for(answers@[k]),
{
    proof {
        lemma_answers_taken(answers@);
    }
    let ghost all = answers@;
    let n = answers.len();
    let mut r: Vec<Option<Json>> = Vec::new();
    let mut rest = answers;
    let mut i: usize = 0;
    while i < n
        invariant
            all == answers@,
            n == all.len(),
            i <= n,
            rest@ == all.subrange(i as int, n as int),
            i <= answers_taken(all),
            0 <= answers_taken(all) <= all.len(),
            forall|k: int| 0 <= k < answers_taken(all) ==> !((#[trigger] all[k]) is Gone),
            answers_taken(all) < all.len() ==> all[answers_taken(all)] is Gone,
            r@.len() == i,
            forall|k: int| 0 <= k < i ==> #[trigger] r@[k] == sent_for(all[k]),
        decreases n - i,
    {
        let a = rest.remove(0);
        assert(a == all[i as int]);
        match a {
            Processed::Result(j) => r.push(Some(j)),
            Processed::Error(_) => r.push(None),
            Processed::Gone => {
                proof {
                    if i < answers_taken(all) {
                        assert(!(all[i as int] is Gone));
                    }
                }
                return r;
            },
        }
        assert(rest@ =~= all.subrange(i + 1, n as int));
        i = i + 1;
    }
    r
}

} // verus!
