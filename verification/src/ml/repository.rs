//! The decisions around fetching a model from a repository: the kind of
//! repository, the optional access settings, and which files are weights.
use vstd::prelude::*;
use crate::text::{chars_of, same_text};

verus! {

/// The kind of a repository.
#[derive(Clone, Copy, PartialEq, Eq, Structural)]
pub enum RepoKind {
    Model,
    Dataset,
    Space,
}

/// The kind of repository named `name`: `dataset`, `space`, and a model
/// for any other name.
pub fn repo_kind(name: &str) -> (r: RepoKind)
    ensures
        r == if name@ == seq!['d', 'a', 't', 'a', 's', 'e', 't'] {
            RepoKind::Dataset
        } else if name@ == seq!['s', 'p', 'a', 'c', 'e'] {
            RepoKind::Space
        } else {
            RepoKind::Model
        },
{
    proof {
        reveal_strlit("dataset");
        reveal_strlit("space");
        assert("dataset"@ =~= seq!['d', 'a', 't', 'a', 's', 'e', 't']);
        assert("space"@ =~= seq!['s', 'p', 'a', 'c', 'e']);
    }
    if same_text(name, "dataset") {
        RepoKind::Dataset
    } else if same_text(name, "space") {
        RepoKind::Space
    } else {
        RepoKind::Model
    }
}

/// A setting given as text, absent where the text is empty (the access
/// token, the cache directory).
pub fn nonempty(s: String) -> (r: Option<String>)
    ensures
        match r {
            Some(t) => t@ == s@ && s@.len() > 0,
            None => s@.len() == 0,
        },
{
    if s.as_str().unicode_len() == 0 {
        None
    } else {
        Some(s)
    }
}

/// `.safetensors`.
pub open spec fn weights_suffix() -> Seq<char> {
    seq!['.', 's', 'a', 'f', 'e', 't', 'e', 'n', 's', 'o', 'r', 's']
}

/// Whether a file name ends with `.safetensors`.
pub open spec fn is_weights(name: Seq<char>) -> bool {
    name.len() >= weights_suffix().len() && name.subrange(
        name.len() - weights_suffix().len(),
        name.len() as int,
    ) == weights_suffix()
}

/// Whether the file name `name` ends with `.safetensors`.
pub fn is_weights_file(name: &str) -> (r: bool)
    ensures
        r == is_weights(name@),
{
    proof {
        reveal_strlit(".safetensors");
        assert(".safetensors"@ =~= weights_suffix());
    }
    let n = name.unicode_len();
    let k: usize = 12;
    if n < k {
        return false;
    }
    let tail = name.substring_char(n - k, n);
    same_text(tail, ".safetensors")
}

/// The weight files among `names`, in order.
pub open spec fn weights_among(names: Seq<Seq<char>>) -> Seq<Seq<char>>
    decreases names.len(),
{
    if names.len() == 0 {
        Seq::empty()
    } else if is_weights(names.last()) {
        weights_among(names.drop_last()).push(names.last())
    } else {
        weights_among(names.drop_last())
    }
}

/// The files of a repository that are weight shards: those whose name ends
/// with `.safetensors`, in order.
pub fn weight_files(names: &Vec<String>) -> (r: Vec<String>)
    ensures
        r@.map_values(|s: String| s@) == weights_among(names@.map_values(|s: String| s@)),
{
    let ghost all = names@.map_values(|s: String| s@);
    let mut r: Vec<String> = Vec::new();
    let mut i: usize = 0;
    while i < names.len()
        invariant
            i <= names@.len(),
            all == names@.map_values(|s: String| s@),
            r@.map_values(|s: String| s@) == weights_among(all.subrange(0, i as int)),
        decreases names@.len() - i,
    {
        let ghost r0 = r@;
        assert(all.subrange(0, i + 1).drop_last() =~= all.subrange(0, i as int));
        assert(all.subrange(0, i + 1).last() == names@[i as int]@);
        if is_weights_file(names[i].as_str()) {
            r.push(names[i].clone());
            assert(r@.map_values(|s: String| s@) =~= r0.map_values(|s: String| s@).push(names@[i as int]@));
        }
        i = i + 1;
    }
    assert(all.subrange(0, names@.len() as int) =~= all);
    r
}

/// Whether `a` comes before `b` or equals it, comparing characters in
/// turn (the order of strings, which is that of their bytes in UTF-8).
pub open spec fn text_le(a: Seq<char>, b: Seq<char>) -> bool
    decreases a.len(),
{
    if a.len() == 0 {
        true
    } else if b.len() == 0 {
        false
    } else if (a[0] as u32) < (b[0] as u32) {
        true
    } else if (a[0] as u32) > (b[0] as u32) {
        false
    } else {
        text_le(a.drop_first(), b.drop_first())
    }
}

proof fn lemma_text_le_reflexive(a: Seq<char>)
    ensures
        text_le(a, a),
    decreases a.len(),
{
    if a.len() > 0 {
        lemma_text_le_reflexive(a.drop_first());
    }
}

proof fn lemma_text_le_total(a: Seq<char>, b: Seq<char>)
    ensures
        text_le(a, b) || text_le(b, a),
    decreases a.len(),
{
    if a.len() > 0 && b.len() > 0 && (a[0] as u32) == (b[0] as u32) {
        lemma_text_le_total(a.drop_first(), b.drop_first());
    }
}

proof fn lemma_text_le_transitive(a: Seq<char>, b: Seq<char>, c: Seq<char>)
    requires
        text_le(a, b),
        text_le(b, c),
    ensures
        text_le(a, c),
    decreases a.len(),
{
    if a.len() > 0 && b.len() > 0 && c.len() > 0 && (a[0] as u32) == (b[0] as u32) && (b[0] as u32)
        == (c[0] as u32) {
        lemma_text_le_transitive(a.drop_first(), b.drop_first(), c.drop_first());
    }
}

/// Whether the text `a` comes before `b` or equals it.
fn text_le_exec(a: &String, b: &String) -> (r: bool)
    ensures
        r == text_le(a@, b@),
{
    let x = chars_of(a.as_str());
    let y = chars_of(b.as_str());
    let mut i: usize = 0;
    assert(x@.subrange(0, x@.len() as int) =~= x@);
    assert(y@.subrange(0, y@.len() as int) =~= y@);
    while i < x.len() && i < y.len() && (x[i] as u32) == (y[i] as u32)
        invariant
            i <= x@.len(),
            i <= y@.len(),
            text_le(x@, y@) == text_le(
                x@.subrange(i as int, x@.len() as int),
                y@.subrange(i as int, y@.len() as int),
            ),
        decreases x@.len() - i,
    {
        let ghost s = x@.subrange(i as int, x@.len() as int);
        let ghost t = y@.subrange(i as int, y@.len() as int);
        assert(s.drop_first() =~= x@.subrange(i + 1, x@.len() as int));
        assert(t.drop_first() =~= y@.subrange(i + 1, y@.len() as int));
        i = i + 1;
    }
    let ghost s = x@.subrange(i as int, x@.len() as int);
    let ghost t = y@.subrange(i as int, y@.len() as int);
    if i == x.len() {
        assert(s.len() == 0);
        true
    } else if i == y.len() {
        assert(t.len() == 0 && s.len() > 0);
        false
    } else {
        assert(s[0] == x@[i as int] && t[0] == y@[i as int]);
        (x[i] as u32) < (y[i] as u32)
    }
}

/// The texts are in the order of strings.
pub open spec fn texts_sorted(s: Seq<Seq<char>>) -> bool {
    forall|i: int, j: int| 0 <= i <= j < s.len() ==> text_le(#[trigger] s[i], #[trigger] s[j])
}

/// The local paths of the weight shards, in the order of their text (the
/// order of strings, lexicographic by bytes, which is lexicographic by
/// characters).
pub fn sorted_paths(paths: Vec<String>) -> (r: Vec<String>)
    ensures
        r@.map_values(|s: String| s@).to_multiset() == paths@.map_values(|s: String| s@).to_multiset(),
        texts_sorted(r@.map_values(|s: String| s@)),
{
    broadcast use vstd::seq_lib::to_multiset_build, vstd::seq_lib::to_multiset_insert;

    let ghost input = paths@.map_values(|s: String| s@);
    let mut r: Vec<String> = Vec::new();
    let mut i: usize = 0;
    assert(r@.map_values(|s: String| s@) =~= input.subrange(0, 0));
    while i < paths.len()
        invariant
            i <= paths@.len(),
            input == paths@.map_values(|s: String| s@),
            r@.map_values(|s: String| s@).to_multiset() == input.subrange(0, i as int).to_multiset(),
            texts_sorted(r@.map_values(|s: String| s@)),
        decreases paths@.len() - i,
    {
        let x = paths[i].clone();
        let ghost v = r@.map_values(|s: String| s@);
        let mut p: usize = 0;
        while p < r.len() && text_le_exec(&r[p], &x)
            invariant
                p <= r@.len(),
                v == r@.map_values(|s: String| s@),
                forall|k: int| 0 <= k < p ==> text_le(#[trigger] v[k], x@),
            decreases r@.len() - p,
        {
            p = p + 1;
        }
        proof {
            if p < r@.len() {
                lemma_text_le_total(v[p as int], x@);
                assert forall|k: int| p <= k < v.len() implies text_le(x@, #[trigger] v[k]) by {
                    lemma_text_le_transitive(x@, v[p as int], v[k]);
                }
            }
            lemma_text_le_reflexive(x@);
        }
        r.insert(p, x);
        proof {
            let w = r@.map_values(|s: String| s@);
            assert(w =~= v.insert(p as int, x@));
            assert forall|a: int, b: int| 0 <= a <= b < w.len() implies text_le(#[trigger] w[a], #[trigger] w[b]) by {
                if a < p && b < p {
                    assert(w[a] == v[a] && w[b] == v[b]);
                } else if a < p && b == p {
                    assert(w[a] == v[a]);
                } else if a < p && b > p {
                    assert(w[a] == v[a] && w[b] == v[b - 1]);
                    lemma_text_le_transitive(v[a], x@, v[b - 1]);
                } else if a == p && b == p {
                } else if a == p {
                    assert(w[b] == v[b - 1]);
                } else {
                    assert(w[a] == v[a - 1] && w[b] == v[b - 1]);
                }
            }
            assert(input.subrange(0, i + 1) =~= input.subrange(0, i as int).push(x@));
            vstd::seq_lib::to_multiset_insert(v, p as int, x@);
            vstd::seq_lib::to_multiset_build(input.subrange(0, i as int), x@);
        }
        i = i + 1;
    }
    assert(input.subrange(0, paths@.len() as int) =~= input);
    r
}

} // verus!
