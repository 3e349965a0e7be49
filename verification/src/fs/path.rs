//! The composition of paths: file name, extension, stem and parent.
//!
//! The file name and the parent come from `std::path`; the extension and
//! the stem are what its documentation says they are of the file name. A
//! root path (only `/` characters) has the empty file name.
use vstd::prelude::*;

verus! {

/// The file name of `path` as `std::path::Path::file_name` gives it: the
/// last component if it is a normal one (`bin` for `/usr/bin/`, `etc` for
/// `etc/./`), none if the path ends in `..` or is a root.
pub uninterp spec fn file_name_of(path: Seq<char>) -> Option<Seq<char>>;

/// The parent of `path` as `std::path::Path::parent` gives it: the path
/// without its last component (`/usr` for `/usr/bin`), none for a root.
pub uninterp spec fn parent_of(path: Seq<char>) -> Option<Seq<char>>;

/// The position of the last `.` of `name`, or `-1` if there is none.
pub open spec fn last_dot(name: Seq<char>) -> int
    decreases name.len(),
{
    if name.len() == 0 {
        -1
    } else if name.last() == '.' {
        name.len() - 1
    } else {
        last_dot(name.drop_last())
    }
}

/// The extension of a file name: none where there is no `.` in it, or only
/// a leading one; else what follows the last `.`.
pub open spec fn extension_of(name: Option<Seq<char>>) -> Option<Seq<char>> {
    match name {
        Some(n) => if last_dot(n) <= 0 {
            None
        } else {
            Some(n.subrange(last_dot(n) + 1, n.len() as int))
        },
        None => None,
    }
}

/// The stem of a file name: the whole name where there is no `.` in it, or
/// only a leading one; else what precedes the last `.`.
pub open spec fn stem_of(name: Option<Seq<char>>) -> Option<Seq<char>> {
    match name {
        Some(n) => if last_dot(n) <= 0 {
            Some(n)
        } else {
            Some(n.subrange(0, last_dot(n)))
        },
        None => None,
    }
}

/// `Path::file_name`, as text. Claims the named result.
#[verifier::external_body]
fn std_file_name(path: &str) -> (r: Option<String>)
    ensures
        r is None <==> file_name_of(path@) is None,
        r matches Some(n) ==> n@ == file_name_of(path@)->0,
{
    ::std::path::Path::new(path).file_name().map(|s| s.to_string_lossy().to_string())
}

/// `Path::parent`, as text. Claims the named result.
#[verifier::external_body]
fn std_parent(path: &str) -> (r: Option<String>)
    ensures
        r is None <==> parent_of(path@) is None,
        r matches Some(p) ==> p@ == parent_of(path@)->0,
{
    ::std::path::Path::new(path).parent().map(|s| s.to_string_lossy().to_string())
}

/// `Path::extension`, as text. Claims what the standard library documents:
/// none where there is no file name, no `.` in it or only a leading one;
/// else the part of the file name after its last `.`.
#[verifier::external_body]
fn std_extension(path: &str) -> (r: Option<String>)
    ensures
        r is None <==> extension_of(file_name_of(path@)) is None,
        r matches Some(e) ==> e@ == extension_of(file_name_of(path@))->0,
{
    ::std::path::Path::new(path).extension().map(|s| s.to_string_lossy().to_string())
}

/// `Path::file_stem`, as text. Claims what the standard library documents:
/// none where there is no file name; the whole name where there is no `.`
/// in it or only a leading one; else the part before its last `.`.
#[verifier::external_body]
fn std_file_stem(path: &str) -> (r: Option<String>)
    ensures
        r is None <==> stem_of(file_name_of(path@)) is None,
        r matches Some(s) ==> s@ == stem_of(file_name_of(path@))->0,
{
    ::std::path::Path::new(path).file_stem().map(|s| s.to_string_lossy().to_string())
}

/// The view of an optional string.
pub open spec fn opt_view(o: Option<String>) -> Option<Seq<char>> {
    match o {
        Some(s) => Some(s@),
        None => None,
    }
}

/// The extension of the file `path` names: the part of its name after the
/// last `.`; none if it has no name, no `.` in it, or only a leading one.
pub fn extension(path: &str) -> (r: Option<String>)
    ensures
        opt_view(r) == extension_of(file_name_of(path@)),
{
    std_extension(path)
}

/// `path` is a root: one or more `/` and nothing else.
pub open spec fn is_root(path: Seq<char>) -> bool {
    path.len() > 0 && forall|i: int| 0 <= i < path.len() ==> path[i] == '/'
}

/// The file name of `path`: the one `std::path` gives, and the empty name
/// for a root.
pub open spec fn name_of(path: Seq<char>) -> Option<Seq<char>> {
    if file_name_of(path) is None && is_root(path) {
        Some(Seq::empty())
    } else {
        file_name_of(path)
    }
}

/// Whether `path` is a root.
fn root_path(path: &str) -> (r: bool)
    ensures
        r == is_root(path@),
{
    let n = path.unicode_len();
    if n == 0 {
        return false;
    }
    let mut i: usize = 0;
    while i < n
        invariant
            i <= n,
            n == path@.len(),
            forall|k: int| 0 <= k < i ==> path@[k] == '/',
        decreases n - i,
    {
        if path.get_char(i) != '/' {
            return false;
        }
        i = i + 1;
    }
    true
}

/// The name of the file or directory `path` designates (`bin` for
/// `/usr/bin/`, `bar.txt` for `foo/bar.txt`, `etc` for `etc/./`, empty for
/// `/`); none if it ends in `..`.
pub fn file_name(path: &str) -> (r: Option<String>)
    ensures
        opt_view(r) == name_of(path@),
{
    match std_file_name(path) {
        Some(n) => Some(n),
        None => {
            if root_path(path) {
                let e = String::new();
                Some(e)
            } else {
                None
            }
        },
    }
}

/// The stem of the file `path` names: the part of its name before the last
/// `.`, or the whole name if it has no `.` or only a leading one; none if
/// it has no name.
pub fn file_stem(path: &str) -> (r: Option<String>)
    ensures
        opt_view(r) == stem_of(file_name_of(path@)),
{
    std_file_stem(path)
}

/// The path up to the parent of the component `path` designates; none if
/// it ends in a root.
pub fn parent(path: &str) -> (r: Option<String>)
    ensures
        opt_view(r) == parent_of(path@),
{
    std_parent(path)
}

/// The composition of each path of a stream, output by output.
pub struct Composition {
    pub extension: Vec<Option<String>>,
    pub file_name: Vec<Option<String>>,
    pub file_stem: Vec<Option<String>>,
    pub parent: Vec<Option<String>>,
}

/// The extension, file name, stem and parent of each path, in order.
pub fn composition(paths: &Vec<String>) -> (r: Composition)
    ensures
        r.extension@.len() == paths@.len(),
        r.file_name@.len() == paths@.len(),
        r.file_stem@.len() == paths@.len(),
        r.parent@.len() == paths@.len(),
        forall|i: int|
            #![trigger paths@[i]]
            0 <= i < paths@.len() ==> {
                &&& opt_view(r.extension@[i]) == extension_of(file_name_of(paths@[i]@))
                &&& opt_view(r.file_name@[i]) == name_of(paths@[i]@)
                &&& opt_view(r.file_stem@[i]) == stem_of(file_name_of(paths@[i]@))
                &&& opt_view(r.parent@[i]) == parent_of(paths@[i]@)
            },
{
    let mut r = Composition {
        extension: Vec::new(),
        file_name: Vec::new(),
        file_stem: Vec::new(),
        parent: Vec::new(),
    };
    let mut i: usize = 0;
    while i < paths.len()
        invariant
            i <= paths@.len(),
            r.extension@.len() == i,
            r.file_name@.len() == i,
            r.file_stem@.len() == i,
            r.parent@.len() == i,
            forall|k: int|
                #![trigger paths@[k]]
                0 <= k < i ==> {
                    &&& opt_view(r.extension@[k]) == extension_of(file_name_of(paths@[k]@))
                    &&& opt_view(r.file_name@[k]) == name_of(paths@[k]@)
                    &&& opt_view(r.file_stem@[k]) == stem_of(file_name_of(paths@[k]@))
                    &&& opt_view(r.parent@[k]) == parent_of(paths@[k]@)
                },
        decreases paths@.len() - i,
    {
        let p = paths[i].as_str();
        r.extension.push(extension(p));
        r.file_name.push(file_name(p));
        r.file_stem.push(file_stem(p));
        r.parent.push(parent(p));
        i = i + 1;
    }
    r
}

/// The stem, a `.`, and the extension make the whole file name, where
/// there is an extension.
pub proof fn lemma_stem_dot_extension(name: Seq<char>)
    requires
        extension_of(Some(name)) is Some,
    ensures
        stem_of(Some(name))->0 + seq!['.'] + extension_of(Some(name))->0 == name,
{
    lemma_last_dot(name);
    let d = last_dot(name);
    assert(name.subrange(0, d) + seq!['.'] + name.subrange(d + 1, name.len() as int) =~= name);
}

proof fn lemma_last_dot(name: Seq<char>)
    ensures
        -1 <= last_dot(name) < name.len(),
        last_dot(name) >= 0 ==> name[last_dot(name)] == '.',
        forall|k: int| last_dot(name) < k < name.len() ==> name[k] != '.',
    decreases name.len(),
{
    if name.len() > 0 && name.last() != '.' {
        lemma_last_dot(name.drop_last());
        assert forall|k: int| last_dot(name) < k < name.len() implies name[k] != '.' by {
            if k < name.len() - 1 {
                assert(name[k] == name.drop_last()[k]);
            }
        }
    }
}

} // verus!
