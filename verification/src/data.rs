//! Maps of strings to strings.
use vstd::prelude::*;
use crate::text::same_text;

verus! {

/// A map of string keys to string values, as a list of entries whose keys
/// are all different.
#[derive(Clone)]
pub struct StringMap {
    pub entries: Vec<(String, String)>,
}

/// The keys of `entries` are all different.
pub open spec fn distinct_keys<V>(entries: Seq<(String, V)>) -> bool {
    forall|i: int, j: int|
        0 <= i < entries.len() && 0 <= j < entries.len() && i != j ==> entries[i].0@
            != entries[j].0@
}

/// The view of a list of string pairs.
pub open spec fn pairs_view(entries: Seq<(String, String)>) -> Seq<(Seq<char>, Seq<char>)> {
    entries.map_values(|e: (String, String)| (e.0@, e.1@))
}

/// The value of the first entry whose key is `key`, if any.
pub open spec fn value_of(entries: Seq<(Seq<char>, Seq<char>)>, key: Seq<char>) -> Option<Seq<char>>
    decreases entries.len(),
{
    if entries.len() == 0 {
        None
    } else if entries[0].0 == key {
        Some(entries[0].1)
    } else {
        value_of(entries.drop_first(), key)
    }
}

impl StringMap {
    /// The entries, each key and value by its characters.
    pub open spec fn view(&self) -> Seq<(Seq<char>, Seq<char>)> {
        pairs_view(self.entries@)
    }

    /// The entries are well formed: no key occurs twice.
    pub open spec fn wf(&self) -> bool {
        distinct_keys(self.entries@)
    }

    /// The value of the entry whose key is `key`, if any.
    pub fn get(&self, key: &str) -> (r: Option<&String>)
        ensures
            match r {
                Some(v) => value_of(self.view(), key@) == Some(v@),
                None => value_of(self.view(), key@) is None,
            },
    {
        let mut i: usize = 0;
        assert(self.view().subrange(0, self.view().len() as int) =~= self.view());
        while i < self.entries.len()
            invariant
                i <= self.entries@.len(),
                value_of(self.view(), key@) == value_of(self.view().subrange(i as int, self.view().len() as int), key@),
            decreases self.entries@.len() - i,
        {
            let ghost rest = self.view().subrange(i as int, self.view().len() as int);
            assert(rest.drop_first() =~= self.view().subrange(i + 1, self.view().len() as int));
            assert(self.view()[i as int] == (self.entries@[i as int].0@, self.entries@[i as int].1@));
            assert(rest[0] == self.view()[i as int]);
            if same_text(self.entries[i].0.as_str(), key) {
                return Some(&self.entries[i].1);
            }
            i = i + 1;
        }
        assert(self.view().subrange(i as int, self.view().len() as int).len() == 0);
        None
    }

    /// An empty map.
    pub fn new() -> (r: StringMap)
        ensures
            r.wf(),
            r.entries@.len() == 0,
    {
        StringMap { entries: Vec::new() }
    }
}

} // verus!
