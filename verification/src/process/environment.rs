//! Execution environments of subprocesses, and the expansion of `${NAME}`
//! references in the values of their variables.
use vstd::prelude::*;
use vstd::string::StringExecFns;
use crate::data::{StringMap, value_of};
use crate::text::{chars_of, push_char};

verus! {

/// Execution environment for a subprocess.
///
/// - `working_directory`: directory to set as the process working directory, if any.
/// - `clear_env`: when `true`, the subprocess inherits no variable from the parent process.
/// - `variables`: the environment variables to set.
/// - `expand_variables`: when `true`, `${NAME}` references in the values of
///   `variables` are replaced by the parent's variable `NAME`.
#[derive(Clone)]
pub struct Environment {
    pub working_directory: Option<String>,
    pub clear_env: bool,
    pub variables: StringMap,
    pub expand_variables: bool,
}

/// An environment from explicit parameters.
pub fn environment(
    variables: StringMap,
    working_directory: Option<String>,
    expand_variables: bool,
    clear_env: bool,
) -> (r: Environment)
    ensures
        r.variables == variables,
        r.working_directory == working_directory,
        r.expand_variables == expand_variables,
        r.clear_env == clear_env,
{
    Environment { working_directory, clear_env, variables, expand_variables }
}

/// The environment that the treatment `mapEnvironment` gives for the
/// variables it receives and its parameters.
pub fn map_environment(
    variables: StringMap,
    clear_env: bool,
    expand_variables: bool,
    working_directory: Option<String>,
) -> (r: Environment)
    ensures
        r.variables == variables,
        r.working_directory == working_directory,
        r.expand_variables == expand_variables,
        r.clear_env == clear_env,
{
    Environment { working_directory, clear_env, variables, expand_variables }
}

/// The environment that the treatment `mapFullEnvironment` gives: one only
/// when it received both the variables and the working directory.
pub fn map_full_environment(
    variables: Option<StringMap>,
    working_directory: Option<Option<String>>,
    clear_env: bool,
    expand_variables: bool,
) -> (r: Option<Environment>)
    ensures
        r is Some <==> variables is Some && working_directory is Some,
        r matches Some(e) ==> e.variables == variables->0 && e.working_directory
            == working_directory->0 && e.clear_env == clear_env && e.expand_variables
            == expand_variables,
{
    match (variables, working_directory) {
        (Some(variables), Some(working_directory)) => Some(
            Environment { working_directory, clear_env, variables, expand_variables },
        ),
        _ => None,
    }
}

/// A character that may begin a variable name: an ASCII letter or `_`.
pub open spec fn is_name_start(c: char) -> bool {
    ('a' <= c && c <= 'z') || ('A' <= c && c <= 'Z') || c == '_'
}

/// A character that may continue a variable name: an ASCII letter, digit or `_`.
pub open spec fn is_name_char(c: char) -> bool {
    is_name_start(c) || ('0' <= c && c <= '9')
}

/// The end of the run of name characters of `s` that starts at `p`.
pub open spec fn name_end(s: Seq<char>, p: int) -> int
    decreases s.len() - p,
{
    if p < 0 || p >= s.len() || !is_name_char(s[p]) {
        p
    } else {
        name_end(s, p + 1)
    }
}

/// Whether a reference `${NAME}` starts at `i` in `s`.
pub open spec fn reference_at(s: Seq<char>, i: int) -> bool {
    &&& 0 <= i
    &&& i + 2 < s.len()
    &&& s[i] == '$'
    &&& s[i + 1] == '{'
    &&& is_name_start(s[i + 2])
    &&& name_end(s, i + 3) < s.len()
    &&& s[name_end(s, i + 3)] == '}'
}

/// The value of the parent's variable `name`; empty where it has none.
pub open spec fn parent_value(parent: Seq<(Seq<char>, Seq<char>)>, name: Seq<char>) -> Seq<char> {
    match value_of(parent, name) {
        Some(v) => v,
        None => Seq::empty(),
    }
}

/// `s` from `i` on, each reference `${NAME}` replaced by the parent's
/// variable `NAME`, scanning from the left.
pub open spec fn expanded_from(s: Seq<char>, parent: Seq<(Seq<char>, Seq<char>)>, i: int) -> Seq<char>
    decreases s.len() - i,
{
    if i < 0 || i >= s.len() {
        Seq::empty()
    } else if reference_at(s, i) {
        let q = name_end(s, i + 3);
        if q + 1 > i {
            parent_value(parent, s.subrange(i + 2, q)) + expanded_from(s, parent, q + 1)
        } else {
            Seq::empty()
        }
    } else {
        seq![s[i]] + expanded_from(s, parent, i + 1)
    }
}

/// `s` with each reference `${NAME}` replaced by the parent's variable `NAME`.
pub open spec fn expanded(s: Seq<char>, parent: Seq<(Seq<char>, Seq<char>)>) -> Seq<char> {
    expanded_from(s, parent, 0)
}

/// A text without `$` holds no reference and is left as it is.
pub proof fn lemma_expand_without_references(s: Seq<char>, parent: Seq<(Seq<char>, Seq<char>)>)
    requires
        forall|k: int| 0 <= k < s.len() ==> s[k] != '$',
    ensures
        expanded(s, parent) == s,
{
    lemma_expand_plain_from(s, parent, 0);
    assert(s.subrange(0, s.len() as int) =~= s);
}

proof fn lemma_expand_plain_from(s: Seq<char>, parent: Seq<(Seq<char>, Seq<char>)>, i: int)
    requires
        0 <= i <= s.len(),
        forall|k: int| 0 <= k < s.len() ==> s[k] != '$',
    ensures
        expanded_from(s, parent, i) == s.subrange(i, s.len() as int),
    decreases s.len() - i,
{
    if i < s.len() {
        lemma_expand_plain_from(s, parent, i + 1);
        assert(seq![s[i]] + s.subrange(i + 1, s.len() as int) =~= s.subrange(i, s.len() as int));
    } else {
        assert(s.subrange(i, s.len() as int) =~= Seq::<char>::empty());
    }
}

/// Characters without `$` between `i` and `j` are copied as they are.
proof fn lemma_expand_plain_range(s: Seq<char>, parent: Seq<(Seq<char>, Seq<char>)>, i: int, j: int)
    requires
        0 <= i <= j <= s.len(),
        forall|k: int| i <= k < j ==> s[k] != '$',
    ensures
        expanded_from(s, parent, i) == s.subrange(i, j) + expanded_from(s, parent, j),
    decreases j - i,
{
    if i < j {
        lemma_expand_plain_range(s, parent, i + 1, j);
        assert(!reference_at(s, i));
        assert(seq![s[i]] + s.subrange(i + 1, j) =~= s.subrange(i, j));
    } else {
        assert(s.subrange(i, j) =~= Seq::<char>::empty());
    }
}

/// The run of name characters of `s` from `p` ends where a run of ASCII
/// letters, digits and `_` ends.
proof fn lemma_name_end_of_run(s: Seq<char>, p: int, q: int)
    requires
        0 <= p <= q < s.len(),
        forall|k: int| p <= k < q ==> {
            let c = #[trigger] s[k];
            ('a' <= c && c <= 'z') || ('A' <= c && c <= 'Z') || ('0' <= c && c <= '9') || c == '_'
        },
        s[q] == '}',
    ensures
        name_end(s, p) == q,
    decreases q - p,
{
    if p < q {
        lemma_name_end_of_run(s, p + 1, q);
    }
}

/// A reference `${NAME}`, whose name is an ASCII letter or `_` followed by
/// ASCII letters, digits or `_`, between texts without `$`, is replaced by
/// the parent's variable `NAME` and the texts around it are kept.
pub proof fn lemma_expand_reference(
    before: Seq<char>,
    name: Seq<char>,
    after: Seq<char>,
    parent: Seq<(Seq<char>, Seq<char>)>,
    value: Seq<char>,
)
    requires
        forall|k: int| 0 <= k < before.len() ==> before[k] != '$',
        forall|k: int| 0 <= k < after.len() ==> after[k] != '$',
        name.len() > 0,
        ('a' <= name[0] && name[0] <= 'z') || ('A' <= name[0] && name[0] <= 'Z') || name[0] == '_',
        forall|k: int| 0 <= k < name.len() ==> {
            let c = #[trigger] name[k];
            ('a' <= c && c <= 'z') || ('A' <= c && c <= 'Z') || ('0' <= c && c <= '9') || c == '_'
        },
        value_of(parent, name) == Some(value),
    ensures
        expanded(before + seq!['$', '{'] + name + seq!['}'] + after, parent) == before + value + after,
{
    let s = before + seq!['$', '{'] + name + seq!['}'] + after;
    let b = before.len() as int;
    let q = b + 2 + name.len();
    assert forall|k: int| 0 <= k < b implies s[k] != '$' by {
        assert(s[k] == before[k]);
    }
    lemma_expand_plain_range(s, parent, 0, b);
    assert(s.subrange(0, b) =~= before);
    assert forall|k: int| b + 3 <= k < q implies {
        let c = #[trigger] s[k];
        ('a' <= c && c <= 'z') || ('A' <= c && c <= 'Z') || ('0' <= c && c <= '9') || c == '_'
    } by {
        assert(s[k] == name[k - b - 2]);
    }
    assert(s[q] == '}');
    lemma_name_end_of_run(s, b + 3, q);
    assert(s[b] == '$' && s[b + 1] == '{' && s[b + 2] == name[0]);
    assert(reference_at(s, b));
    assert(s.subrange(b + 2, q) =~= name);
    assert forall|k: int| q + 1 <= k < s.len() implies s[k] != '$' by {
        assert(s[k] == after[k - q - 1]);
    }
    lemma_expand_plain_range(s, parent, q + 1, s.len() as int);
    assert(s.subrange(q + 1, s.len() as int) =~= after);
    assert(expanded_from(s, parent, s.len() as int) == Seq::<char>::empty());
    assert(after + Seq::<char>::empty() =~= after);
    assert(before + (value + after) =~= before + value + after);
}

proof fn lemma_name_end_shift(x: Seq<char>, y: Seq<char>, p: int)
    requires
        0 <= p,
    ensures
        name_end(x + y, x.len() + p) == x.len() + name_end(y, p),
    decreases y.len() - p,
{
    let s = x + y;
    if p < y.len() {
        assert(s[x.len() + p] == y[p]);
        if is_name_char(y[p]) {
            lemma_name_end_shift(x, y, p + 1);
        }
    }
}

/// What follows a prefix is expanded as if the prefix were not there.
proof fn lemma_expanded_shift(x: Seq<char>, y: Seq<char>, parent: Seq<(Seq<char>, Seq<char>)>, i: int)
    requires
        0 <= i,
    ensures
        expanded_from(x + y, parent, x.len() + i) == expanded_from(y, parent, i),
    decreases y.len() - i,
{
    let s = x + y;
    let j = x.len() + i;
    if i < y.len() {
        assert(s[j] == y[i]);
        if i + 1 < y.len() {
            assert(s[j + 1] == y[i + 1]);
        }
        if i + 2 < y.len() {
            assert(s[j + 2] == y[i + 2]);
        }
        lemma_name_end_shift(x, y, i + 3);
        let q = name_end(y, i + 3);
        if i + 3 <= y.len() {
            lemma_name_end_bounds(y, i + 3);
        }
        if q < y.len() {
            assert(s[x.len() + q] == y[q]);
        }
        assert(reference_at(s, j) == reference_at(y, i));
        if reference_at(y, i) {
            if q + 1 > i {
                lemma_expanded_shift(x, y, parent, q + 1);
                assert(s.subrange(j + 2, x.len() + q) =~= y.subrange(i + 2, q));
            }
        } else {
            lemma_expanded_shift(x, y, parent, i + 1);
        }
    }
}

/// A character other than `$` is kept, and the rest is expanded.
pub proof fn lemma_expand_plain_char(c: char, rest: Seq<char>, parent: Seq<(Seq<char>, Seq<char>)>)
    requires
        c != '$',
    ensures
        expanded(seq![c] + rest, parent) == seq![c] + expanded(rest, parent),
{
    let s = seq![c] + rest;
    assert(s[0] == c);
    assert(!reference_at(s, 0));
    lemma_expanded_shift(seq![c], rest, parent, 0);
}

/// A `$` that is not followed by `{` is kept, and the rest is expanded.
pub proof fn lemma_expand_lone_dollar(rest: Seq<char>, parent: Seq<(Seq<char>, Seq<char>)>)
    requires
        rest.len() == 0 || rest[0] != '{',
    ensures
        expanded(seq!['$'] + rest, parent) == seq!['$'] + expanded(rest, parent),
{
    let s = seq!['$'] + rest;
    if rest.len() > 0 {
        assert(s[1] == rest[0]);
    }
    assert(!reference_at(s, 0));
    lemma_expanded_shift(seq!['$'], rest, parent, 0);
}

/// A reference `${NAME}`, whose name is an ASCII letter or `_` followed by
/// ASCII letters, digits or `_`, is replaced by the parent's variable
/// `NAME`, or by nothing where the parent has none, and what follows is
/// expanded in turn.
pub proof fn lemma_expand_leading_reference(name: Seq<char>, rest: Seq<char>, parent: Seq<(Seq<char>, Seq<char>)>)
    requires
        name.len() > 0,
        ('a' <= name[0] && name[0] <= 'z') || ('A' <= name[0] && name[0] <= 'Z') || name[0] == '_',
        forall|k: int| 0 <= k < name.len() ==> {
            let c = #[trigger] name[k];
            ('a' <= c && c <= 'z') || ('A' <= c && c <= 'Z') || ('0' <= c && c <= '9') || c == '_'
        },
    ensures
        expanded(seq!['$', '{'] + name + seq!['}'] + rest, parent) == match value_of(parent, name) {
            Some(v) => v,
            None => Seq::<char>::empty(),
        } + expanded(rest, parent),
{
    let x = seq!['$', '{'] + name + seq!['}'];
    let s = x + rest;
    let q: int = 2 + name.len() as int;
    assert forall|k: int| 3 <= k < q implies {
        let c = #[trigger] s[k];
        ('a' <= c && c <= 'z') || ('A' <= c && c <= 'Z') || ('0' <= c && c <= '9') || c == '_'
    } by {
        assert(s[k] == name[k - 2]);
    }
    assert(s[q] == '}');
    lemma_name_end_of_run(s, 3, q);
    assert(s[0] == '$' && s[1] == '{' && s[2] == name[0]);
    assert(reference_at(s, 0));
    assert(s.subrange(2, q) =~= name);
    lemma_expanded_shift(x, rest, parent, 0);
    assert(x.len() == q + 1);
}

proof fn lemma_name_end_bounds(s: Seq<char>, p: int)
    requires
        0 <= p <= s.len(),
    ensures
        p <= name_end(s, p) <= s.len(),
        forall|k: int| p <= k < name_end(s, p) ==> is_name_char(#[trigger] s[k]),
        name_end(s, p) < s.len() ==> !is_name_char(s[name_end(s, p)]),
    decreases s.len() - p,
{
    if p < s.len() && is_name_char(s[p]) {
        lemma_name_end_bounds(s, p + 1);
    }
}

fn is_name_start_char(c: char) -> (r: bool)
    ensures
        r == is_name_start(c),
{
    ('a' <= c && c <= 'z') || ('A' <= c && c <= 'Z') || c == '_'
}

fn is_name_char_exec(c: char) -> (r: bool)
    ensures
        r == is_name_char(c),
{
    is_name_start_char(c) || ('0' <= c && c <= '9')
}

/// The end of the run of name characters of `s` that starts at `p`.
fn scan_name(s: &Vec<char>, p: usize) -> (q: usize)
    requires
        p <= s@.len(),
    ensures
        q == name_end(s@, p as int),
{
    proof {
        lemma_name_end_bounds(s@, p as int);
    }
    let mut q = p;
    while q < s.len() && is_name_char_exec(s[q])
        invariant
            p <= q <= s@.len(),
            name_end(s@, q as int) == name_end(s@, p as int),
        decreases s@.len() - q,
    {
        q = q + 1;
    }
    q
}

/// The characters `s[from..to]` as a string.
fn text_between(s: &Vec<char>, from: usize, to: usize) -> (r: String)
    requires
        from <= to <= s@.len(),
    ensures
        r@ == s@.subrange(from as int, to as int),
{
    let mut r = String::new();
    let mut k = from;
    while k < to
        invariant
            from <= k <= to <= s@.len(),
            r@ == s@.subrange(from as int, k as int),
        decreases to - k,
    {
        push_char(&mut r, s[k]);
        assert(r@ =~= s@.subrange(from as int, k + 1));
        k = k + 1;
    }
    r
}

/// `text` with each reference `${NAME}` (a name of ASCII letters, digits
/// and `_`, not starting with a digit) replaced by the value of the parent's
/// variable `NAME`, or by nothing where the parent has none.
pub fn expand_variables(text: &str, parent: &StringMap) -> (r: String)
    ensures
        r@ == expanded(text@, parent.view()),
{
    let s = chars_of(text);
    let mut r = String::new();
    let mut i: usize = 0;
    while i < s.len()
        invariant
            i <= s@.len(),
            s@ == text@,
            r@ + expanded_from(s@, parent.view(), i as int) == expanded(s@, parent.view()),
        decreases s@.len() - i,
    {
        let ghost before = r@;
        if s.len() - i > 2 && s[i] == '$' && s[i + 1] == '{' && is_name_start_char(s[i + 2]) {
            let q = scan_name(&s, i + 3);
            proof {
                lemma_name_end_bounds(s@, i + 3);
            }
            if q < s.len() && s[q] == '}' {
                assert(reference_at(s@, i as int));
                let name = text_between(&s, i + 2, q);
                match parent.get(name.as_str()) {
                    Some(v) => r.append(v.as_str()),
                    None => {},
                }
                assert(r@ == before + parent_value(parent.view(), s@.subrange(i + 2, q as int)));
                assert(r@ + expanded_from(s@, parent.view(), q + 1) =~= before + expanded_from(
                    s@,
                    parent.view(),
                    i as int,
                ));
                i = q + 1;
                continue;
            }
        }
        assert(!reference_at(s@, i as int));
        push_char(&mut r, s[i]);
        assert(r@ + expanded_from(s@, parent.view(), i + 1) =~= before + expanded_from(
            s@,
            parent.view(),
            i as int,
        ));
        i = i + 1;
    }
    assert(r@ + expanded_from(s@, parent.view(), i as int) =~= r@);
    r
}

} // verus!
