//! Validation of JSON text.
use vstd::prelude::*;

verus! {

/// Whether `serde_json` accepts `text` as a JSON document.
pub uninterp spec fn is_json_text(text: Seq<char>) -> bool;

/// `serde_json::from_str` on `text`, read into `serde::de::IgnoredAny`.
/// Claims that it succeeds exactly on the texts named valid JSON.
#[verifier::external_body]
fn json_text_is_valid(text: &str) -> (r: bool)
    ensures
        r == is_json_text(text@),
{
    serde_json::from_str::<serde::de::IgnoredAny>(text).is_ok()
}

/// Whether each text of a stream is valid JSON.
pub fn validate(text: &Vec<String>) -> (r: Vec<bool>)
    ensures
        r.len() == text.len(),
        forall|i: int| #![trigger r[i]] 0 <= i < r.len() ==> r[i] == is_json_text(text[i]@),
{
    let mut r: Vec<bool> = Vec::new();
    let mut i: usize = 0;
    while i < text.len()
        invariant
            i <= text.len(),
            r.len() == i,
            forall|j: int| #![trigger r[j]] 0 <= j < i ==> r[j] == is_json_text(text[j]@),
        decreases text.len() - i,
    {
        r.push(json_text_is_valid(text[i].as_str()));
        i = i + 1;
    }
    r
}

} // verus!
