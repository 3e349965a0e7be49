//! Stream forms of the regular expression functions.
//!
//! Each treatment compiles its pattern once. An invalid pattern gives its
//! error message and no output; a valid one gives one output per text, in
//! order.
use vstd::prelude::*;
use crate::data::{StringMap, pairs_view};
use super::expr::{
    Pattern, capture_with, captured_entries, pattern_error, pattern_found,
    pattern_group_names, pattern_matches, pattern_replaced, pattern_valid, run_find,
    run_is_match, run_replace,
};

verus! {

/// Whether each text matches `regex`, or the error of an invalid `regex`.
pub fn matches(texts: &Vec<String>, regex: &str) -> (r: Result<Vec<bool>, String>)
    ensures
        r is Ok <==> pattern_valid(regex@),
        r matches Err(m) ==> m@ == pattern_error(regex@),
        r matches Ok(v) ==> v.len() == texts.len() && forall|i: int|
            #![trigger v[i]]
            0 <= i < v.len() ==> v[i] == pattern_matches(regex@, texts[i]@),
{
    let p = match Pattern::new(regex) {
        Ok(p) => p,
        Err(m) => return Err(m),
    };
    let mut v: Vec<bool> = Vec::new();
    let mut i: usize = 0;
    while i < texts.len()
        invariant
            i <= texts.len(),
            v.len() == i,
            p@ == regex@,
            pattern_valid(regex@),
            forall|j: int| #![trigger v[j]] 0 <= j < i ==> v[j] == pattern_matches(regex@, texts[j]@),
        decreases texts.len() - i,
    {
        v.push(run_is_match(&p, texts[i].as_str()));
        i = i + 1;
    }
    Ok(v)
}

/// The first match of `regex` in each text (`None` where there is none), or
/// the error of an invalid `regex`.
pub fn find(texts: &Vec<String>, regex: &str) -> (r: Result<Vec<Option<String>>, String>)
    ensures
        r is Ok <==> pattern_valid(regex@),
        r matches Err(m) ==> m@ == pattern_error(regex@),
        r matches Ok(v) ==> v.len() == texts.len() && forall|i: int|
            #![trigger v[i]]
            0 <= i < v.len() ==> match v[i] {
                Some(m) => pattern_found(regex@, texts[i]@) == Some(m@),
                None => pattern_found(regex@, texts[i]@) is None,
            },
{
    let p = match Pattern::new(regex) {
        Ok(p) => p,
        Err(m) => return Err(m),
    };
    let mut v: Vec<Option<String>> = Vec::new();
    let mut i: usize = 0;
    while i < texts.len()
        invariant
            i <= texts.len(),
            v.len() == i,
            p@ == regex@,
            pattern_valid(regex@),
            forall|j: int|
                #![trigger v[j]]
                0 <= j < i ==> match v[j] {
                    Some(m) => pattern_found(regex@, texts[j]@) == Some(m@),
                    None => pattern_found(regex@, texts[j]@) is None,
                },
        decreases texts.len() - i,
    {
        v.push(run_find(&p, texts[i].as_str()));
        i = i + 1;
    }
    Ok(v)
}

/// The named groups that `regex` captures in each text (`None` where it
/// does not match), or the error of an invalid `regex`.
pub fn capture(texts: &Vec<String>, regex: &str) -> (r: Result<Vec<Option<StringMap>>, String>)
    ensures
        r is Ok <==> pattern_valid(regex@),
        r matches Err(m) ==> m@ == pattern_error(regex@),
        r matches Ok(v) ==> v.len() == texts.len() && forall|i: int|
            #![trigger v[i]]
            0 <= i < v.len() ==> match v[i] {
                Some(m) => pattern_matches(regex@, texts[i]@) && pairs_view(m.entries@)
                    == captured_entries(regex@, texts[i]@, pattern_group_names(regex@)),
                None => !pattern_matches(regex@, texts[i]@),
            },
{
    let p = match Pattern::new(regex) {
        Ok(p) => p,
        Err(m) => return Err(m),
    };
    let mut v: Vec<Option<StringMap>> = Vec::new();
    let mut i: usize = 0;
    while i < texts.len()
        invariant
            i <= texts.len(),
            v.len() == i,
            p@ == regex@,
            pattern_valid(regex@),
            forall|j: int|
                #![trigger v[j]]
                0 <= j < i ==> match v[j] {
                    Some(m) => pattern_matches(regex@, texts[j]@) && pairs_view(m.entries@)
                        == captured_entries(regex@, texts[j]@, pattern_group_names(regex@)),
                    None => !pattern_matches(regex@, texts[j]@),
                },
        decreases texts.len() - i,
    {
        v.push(capture_with(&p, texts[i].as_str()));
        i = i + 1;
    }
    Ok(v)
}

/// Each text with the first match of `regex` replaced by `replacer`, or the
/// error of an invalid `regex`.
pub fn replace(texts: &Vec<String>, regex: &str, replacer: &str) -> (r: Result<Vec<String>, String>)
    ensures
        r is Ok <==> pattern_valid(regex@),
        r matches Err(m) ==> m@ == pattern_error(regex@),
        r matches Ok(v) ==> v.len() == texts.len() && forall|i: int|
            #![trigger v[i]]
            0 <= i < v.len() ==> v[i]@ == pattern_replaced(regex@, texts[i]@, replacer@),
{
    let p = match Pattern::new(regex) {
        Ok(p) => p,
        Err(m) => return Err(m),
    };
    let mut v: Vec<String> = Vec::new();
    let mut i: usize = 0;
    while i < texts.len()
        invariant
            i <= texts.len(),
            v.len() == i,
            p@ == regex@,
            pattern_valid(regex@),
            forall|j: int|
                #![trigger v[j]]
                0 <= j < i ==> v[j]@ == pattern_replaced(regex@, texts[j]@, replacer@),
        decreases texts.len() - i,
    {
        v.push(run_replace(&p, texts[i].as_str(), replacer));
        i = i + 1;
    }
    Ok(v)
}

} // verus!
