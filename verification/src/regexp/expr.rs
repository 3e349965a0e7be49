//! Matching, finding, capturing and replacing with a regular expression.
//!
//! Patterns are compiled and run by the `regex` crate; the library decides
//! what each function and treatment gives for the results of those calls.
use vstd::prelude::*;
use crate::data::{StringMap, pairs_view};

verus! {

#[verifier::external_type_specification]
#[verifier::external_body]
pub struct ExRegex(::regex::Regex);

/// Whether `regex` accepts `pattern`.
pub uninterp spec fn pattern_valid(pattern: Seq<char>) -> bool;

/// The message of the error `regex` gives for an invalid `pattern`.
pub uninterp spec fn pattern_error(pattern: Seq<char>) -> Seq<char>;

/// Whether `pattern` matches somewhere in `text`.
pub uninterp spec fn pattern_matches(pattern: Seq<char>, text: Seq<char>) -> bool;

/// The leftmost-first match of `pattern` in `text`, if any.
pub uninterp spec fn pattern_found(pattern: Seq<char>, text: Seq<char>) -> Option<Seq<char>>;

/// The names of the capture groups of `pattern`, in the order of their
/// opening parenthesis (`None` for the unnamed ones, the whole match first).
pub uninterp spec fn pattern_group_names(pattern: Seq<char>) -> Seq<Option<Seq<char>>>;

/// What the group `name` of `pattern` captured in the first match in `text`,
/// if there is a match and the group took part in it.
pub uninterp spec fn pattern_captured(pattern: Seq<char>, text: Seq<char>, name: Seq<char>) -> Option<
    Seq<char>,
>;

/// `text` with the first match of `pattern` replaced by `replacer` (in which
/// `$name` refers to capture groups).
pub uninterp spec fn pattern_replaced(pattern: Seq<char>, text: Seq<char>, replacer: Seq<char>) -> Seq<
    char,
>;

/// A compiled regular expression, with the pattern it was compiled from.
pub struct Pattern {
    source: String,
    compiled: ::regex::Regex,
}

impl View for Pattern {
    type V = Seq<char>;

    /// The pattern the expression was compiled from.
    closed spec fn view(&self) -> Seq<char> {
        self.source@
    }
}

/// `Regex::new` on `pattern`. Claims that it succeeds exactly on the
/// patterns named valid, and that the error message is the named one.
#[verifier::external_body]
pub(crate) fn compile_pattern(pattern: &str) -> (r: Result<::regex::Regex, String>)
    ensures
        r is Ok <==> pattern_valid(pattern@),
        r matches Err(m) ==> m@ == pattern_error(pattern@),
{
    ::regex::Regex::new(pattern).map_err(|e| e.to_string())
}

/// `Regex::is_match`. Claims the named result.
#[verifier::external_body]
pub(crate) fn run_is_match(p: &Pattern, text: &str) -> (r: bool)
    requires
        pattern_valid(p@),
    ensures
        r == pattern_matches(p@, text@),
{
    p.compiled.is_match(text)
}

/// `Regex::find`, giving the matched text. Claims the named result, that
/// there is one exactly when the pattern matches (as the crate documents
/// for `is_match` and `find`), and that it is a part of `text`.
#[verifier::external_body]
pub(crate) fn run_find(p: &Pattern, text: &str) -> (r: Option<String>)
    requires
        pattern_valid(p@),
    ensures
        r matches Some(m) ==> pattern_found(p@, text@) == Some(m@),
        r is None ==> pattern_found(p@, text@) is None,
        r is Some <==> pattern_matches(p@, text@),
        r matches Some(m) ==> exists|i: int|
            0 <= i <= text@.len() - m@.len() && #[trigger] text@.subrange(i, i + m@.len()) == m@,
{
    p.compiled.find(text).map(|m| m.as_str().to_string())
}

/// `Regex::capture_names`, each name owned. Claims the named result.
#[verifier::external_body]
pub(crate) fn run_group_names(p: &Pattern) -> (r: Vec<Option<String>>)
    requires
        pattern_valid(p@),
    ensures
        r@.len() == pattern_group_names(p@).len(),
        forall|i: int|
            #![trigger r@[i]]
            0 <= i < r@.len() ==> match r@[i] {
                Some(n) => pattern_group_names(p@)[i] == Some(n@),
                None => pattern_group_names(p@)[i] is None,
            },
{
    p.compiled.capture_names().map(|n| n.map(|s| s.to_string())).collect()
}

/// `Regex::captures` then `Captures::name`. Claims the named result, and
/// that nothing is captured where the pattern does not match (the crate
/// documents `captures` as `None` then).
#[verifier::external_body]
pub(crate) fn run_captured(p: &Pattern, text: &str, name: &str) -> (r: Option<String>)
    requires
        pattern_valid(p@),
    ensures
        r matches Some(c) ==> pattern_captured(p@, text@, name@) == Some(c@),
        r is None ==> pattern_captured(p@, text@, name@) is None,
        !pattern_matches(p@, text@) ==> r is None,
{
    p.compiled.captures(text).and_then(|c| c.name(name).map(|m| m.as_str().to_string()))
}

/// `Regex::replace`. Claims the named result, and that `text` is given back
/// unchanged where the pattern does not match (as the crate documents).
#[verifier::external_body]
pub(crate) fn run_replace(p: &Pattern, text: &str, replacer: &str) -> (r: String)
    requires
        pattern_valid(p@),
    ensures
        r@ == pattern_replaced(p@, text@, replacer@),
        !pattern_matches(p@, text@) ==> r@ == text@,
{
    p.compiled.replace(text, replacer).to_string()
}

impl Pattern {
    /// Compiles `pattern`, or gives the error message of the invalid
    /// pattern.
    pub fn new(pattern: &str) -> (r: Result<Pattern, String>)
        ensures
            r is Ok <==> pattern_valid(pattern@),
            r matches Ok(p) ==> p@ == pattern@,
            r matches Err(m) ==> m@ == pattern_error(pattern@),
    {
        match compile_pattern(pattern) {
            Ok(compiled) => Ok(Pattern { source: pattern.to_string(), compiled }),
            Err(m) => Err(m),
        }
    }
}

/// The entries `(name, text)` of the named groups that `pattern` captured in
/// `text`: the groups in order, skipping the unnamed ones and those that
/// captured nothing.
pub open spec fn captured_entries(pattern: Seq<char>, text: Seq<char>, names: Seq<Option<Seq<char>>>) -> Seq<
    (Seq<char>, Seq<char>),
>
    decreases names.len(),
{
    if names.len() == 0 {
        Seq::empty()
    } else {
        let rest = captured_entries(pattern, text, names.drop_last());
        match names.last() {
            Some(n) => match pattern_captured(pattern, text, n) {
                Some(c) => rest.push((n, c)),
                None => rest,
            },
            None => rest,
        }
    }
}

/// For a single group: a named group that captured a text, empty or not,
/// gives its entry `(name, text)`; an unnamed group, or one that captured
/// nothing, gives none.
pub proof fn lemma_captured_one_group(pattern: Seq<char>, text: Seq<char>, name: Option<Seq<char>>)
    ensures
        captured_entries(pattern, text, seq![name]) == match name {
            Some(n) => match pattern_captured(pattern, text, n) {
                Some(c) => seq![(n, c)],
                None => Seq::empty(),
            },
            None => Seq::empty(),
        },
{
    let e = Seq::<Option<Seq<char>>>::empty();
    assert(seq![name].drop_last() =~= e);
    assert(seq![name].last() == name);
    assert(captured_entries(pattern, text, e) == Seq::<(Seq<char>, Seq<char>)>::empty());
    match name {
        Some(n) => match pattern_captured(pattern, text, n) {
            Some(c) => {
                assert(Seq::<(Seq<char>, Seq<char>)>::empty().push((n, c)) =~= seq![(n, c)]);
            },
            None => {},
        },
        None => {},
    }
}

/// The entries keep the order of the groups: the entries of one list of
/// groups followed by another are those of the first, then those of the
/// second.
pub proof fn lemma_captured_concat(pattern: Seq<char>, text: Seq<char>, a: Seq<Option<Seq<char>>>, b: Seq<Option<Seq<char>>>)
    ensures
        captured_entries(pattern, text, a + b) == captured_entries(pattern, text, a) + captured_entries(pattern, text, b),
    decreases b.len(),
{
    if b.len() == 0 {
        assert(a + b =~= a);
        assert(captured_entries(pattern, text, a) + captured_entries(pattern, text, b) =~= captured_entries(pattern, text, a));
    } else {
        lemma_captured_concat(pattern, text, a, b.drop_last());
        assert((a + b).drop_last() =~= a + b.drop_last());
        assert((a + b).last() == b.last());
        let ea = captured_entries(pattern, text, a);
        let eb0 = captured_entries(pattern, text, b.drop_last());
        match b.last() {
            Some(n) => match pattern_captured(pattern, text, n) {
                Some(c) => {
                    assert((ea + eb0).push((n, c)) =~= ea + eb0.push((n, c)));
                },
                None => {},
            },
            None => {},
        }
    }
}

/// Every named group that captured something, an empty text included, has
/// its entry `(name, captured text)`, and every entry is such a group's.
pub proof fn lemma_captured_entries(pattern: Seq<char>, text: Seq<char>, names: Seq<Option<Seq<char>>>)
    ensures
        forall|k: int|
            0 <= k < names.len() && (#[trigger] names[k]) is Some && pattern_captured(pattern, text, names[k]->0)
                is Some ==> captured_entries(pattern, text, names).contains(
                (names[k]->0, pattern_captured(pattern, text, names[k]->0)->0),
            ),
        forall|j: int|
            0 <= j < captured_entries(pattern, text, names).len() ==> exists|k: int|
                0 <= k < names.len() && names[k] == Some((#[trigger] captured_entries(pattern, text, names)[j]).0)
                    && pattern_captured(pattern, text, captured_entries(pattern, text, names)[j].0) == Some(
                    captured_entries(pattern, text, names)[j].1,
                ),
    decreases names.len(),
{
    if names.len() > 0 {
        let init = names.drop_last();
        lemma_captured_entries(pattern, text, init);
        let rest = captured_entries(pattern, text, init);
        let f = captured_entries(pattern, text, names);
        assert forall|k: int|
            0 <= k < names.len() && (#[trigger] names[k]) is Some && pattern_captured(pattern, text, names[k]->0)
                is Some implies f.contains((names[k]->0, pattern_captured(pattern, text, names[k]->0)->0)) by {
            let n = names[k]->0;
            let c = pattern_captured(pattern, text, n)->0;
            if k < names.len() - 1 {
                assert(init[k] == names[k]);
                assert(rest.contains((n, c)));
                let q = choose|q: int| 0 <= q < rest.len() && rest[q] == (n, c);
                assert(f[q] == rest[q]);
            } else {
                assert(names.last() == names[k]);
                assert(f == rest.push((n, c)));
                assert(f[f.len() - 1] == (n, c));
            }
        }
        assert forall|j: int| 0 <= j < f.len() implies exists|k: int|
            0 <= k < names.len() && names[k] == Some((#[trigger] f[j]).0) && pattern_captured(pattern, text, f[j].0)
                == Some(f[j].1) by {
            if j < rest.len() {
                assert(f[j] == rest[j]);
                let k = choose|k: int|
                    0 <= k < init.len() && init[k] == Some((#[trigger] rest[j]).0) && pattern_captured(
                        pattern,
                        text,
                        rest[j].0,
                    ) == Some(rest[j].1);
                assert(names[k] == init[k]);
            } else {
                assert(names[names.len() - 1] == names.last());
            }
        }
    }
}

/// The named groups captured by the compiled `p` in `text`, or `None` if it
/// does not match.
pub(crate) fn capture_with(p: &Pattern, text: &str) -> (r: Option<StringMap>)
    requires
        pattern_valid(p@),
    ensures
        match r {
            Some(m) => pattern_matches(p@, text@) && pairs_view(m.entries@)
                == captured_entries(p@, text@, pattern_group_names(p@)),
            None => !pattern_matches(p@, text@),
        },
{
    if !run_is_match(p, text) {
        return None;
    }
    let names = run_group_names(p);
    let ghost all = pattern_group_names(p@);
    let mut entries: Vec<(String, String)> = Vec::new();
    let mut i: usize = 0;
    while i < names.len()
        invariant
            i <= names@.len(),
            names@.len() == all.len(),
            forall|k: int|
                #![trigger names@[k]]
                0 <= k < names@.len() ==> match names@[k] {
                    Some(n) => all[k] == Some(n@),
                    None => all[k] is None,
                },
            pattern_valid(p@),
            pairs_view(entries@) == captured_entries(p@, text@, all.subrange(0, i as int)),
        decreases names@.len() - i,
    {
        let ghost before = entries@;
        assert(all.subrange(0, i + 1).drop_last() =~= all.subrange(0, i as int));
        match &names[i] {
            Some(n) => {
                match run_captured(p, text, n.as_str()) {
                    Some(c) => {
                        entries.push((n.clone(), c));
                        assert(pairs_view(entries@) =~= pairs_view(before).push((n@, c@)));
                    },
                    None => {},
                }
            },
            None => {},
        }
        i = i + 1;
    }
    assert(all.subrange(0, names@.len() as int) =~= all);
    Some(StringMap { entries })
}

/// Whether `text` matches `regex`; `false` if `regex` is invalid.
pub fn matches(text: &str, regex: &str) -> (r: bool)
    ensures
        r == (pattern_valid(regex@) && pattern_matches(regex@, text@)),
{
    match Pattern::new(regex) {
        Ok(p) => run_is_match(&p, text),
        Err(_) => false,
    }
}

/// The first match of `regex` in `text`; `None` if there is none or
/// `regex` is invalid.
pub fn find(text: &str, regex: &str) -> (r: Option<String>)
    ensures
        r is Some <==> pattern_valid(regex@) && pattern_matches(regex@, text@),
        match r {
            Some(m) => pattern_valid(regex@) && pattern_found(regex@, text@) == Some(m@),
            None => !pattern_valid(regex@) || pattern_found(regex@, text@) is None,
        },
{
    match Pattern::new(regex) {
        Ok(p) => run_find(&p, text),
        Err(_) => None,
    }
}

/// The named groups that `regex` captures in `text`; `None` if it does not
/// match or `regex` is invalid.
pub fn capture(text: &str, regex: &str) -> (r: Option<StringMap>)
    ensures
        match r {
            Some(m) => pattern_valid(regex@) && pattern_matches(regex@, text@) && pairs_view(
                m.entries@,
            ) == captured_entries(regex@, text@, pattern_group_names(regex@)),
            None => !pattern_valid(regex@) || !pattern_matches(regex@, text@),
        },
{
    match Pattern::new(regex) {
        Ok(p) => capture_with(&p, text),
        Err(_) => None,
    }
}

/// `text` with the first match of `regex` replaced by `replacer`; `None` if
/// `regex` is invalid.
pub fn replace(text: &str, regex: &str, replacer: &str) -> (r: Option<String>)
    ensures
        match r {
            Some(s) => pattern_valid(regex@) && s@ == pattern_replaced(regex@, text@, replacer@) && (
            !pattern_matches(regex@, text@) ==> s@ == text@),
            None => !pattern_valid(regex@),
        },
{
    match Pattern::new(regex) {
        Ok(p) => Some(run_replace(&p, text, replacer)),
        Err(_) => None,
    }
}

} // verus!
