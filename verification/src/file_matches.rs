//! The matches of a query, file by file.

use vstd::prelude::*;
use vstd::set_lib::lemma_subset_equality;
use vstd::std_specs::cmp::PartialEqSpecImpl;
use crate::assoc::{
    assoc_map,
    distinct_keys,
    has_key,
    lemma_assoc_keys,
    lemma_assoc_len,
    lemma_assoc_push,
    lemma_assoc_update,
    lemma_assoc_value,
    position,
};
use crate::line::{same_lines, LineMatch, LineMatchView};

verus! {

/// A map from the path of a file to the matches found in that file, in the
/// order in which the service sent them. A path occurs once; the order of the
/// paths means nothing, and two maps are equal when they hold the same matches
/// under the same paths.
#[derive(Debug, Eq)]
pub struct FileMatches {
    entries: Vec<(String, Vec<LineMatch>)>,
}

impl View for FileMatches {
    type V = Map<Seq<char>, Seq<LineMatchView>>;

    closed spec fn view(&self) -> Map<Seq<char>, Seq<LineMatchView>> {
        assoc_map(self.entries@)
    }
}

impl DeepView for FileMatches {
    type V = Map<Seq<char>, Seq<LineMatchView>>;

    open spec fn deep_view(&self) -> Map<Seq<char>, Seq<LineMatchView>> {
        self@
    }
}

impl FileMatches {
    #[verifier::type_invariant]
    spec fn no_path_twice(&self) -> bool {
        distinct_keys(self.entries@)
    }

    /// A map without files.
    pub fn new() -> (matches: FileMatches)
        ensures
            matches@ == Map::<Seq<char>, Seq<LineMatchView>>::empty(),
    {
        FileMatches { entries: Vec::new() }
    }

    /// The number of files.
    pub fn len(&self) -> (count: usize)
        ensures
            self@.dom().finite(),
            count == self@.len(),
    {
        proof {
            use_type_invariant(self);
            lemma_assoc_len(self.entries@);
        }
        self.entries.len()
    }

    /// Whether the map is without files.
    pub fn is_empty(&self) -> (empty: bool)
        ensures
            empty == (self@ == Map::<Seq<char>, Seq<LineMatchView>>::empty()),
    {
        proof {
            use_type_invariant(self);
            lemma_assoc_len(self.entries@);
            if self.entries@.len() == 0 {
                assert(self@ =~= Map::<Seq<char>, Seq<LineMatchView>>::empty());
            }
        }
        self.entries.len() == 0
    }

    /// Whether the map holds matches for `path`.
    pub fn contains_key(&self, path: &str) -> (found: bool)
        ensures
            found == self@.contains_key(path@),
    {
        proof {
            lemma_assoc_keys(self.entries@);
        }
        position(&self.entries, path).is_some()
    }

    /// The matches in the file `path`.
    pub fn get(&self, path: &str) -> (lines: Option<&Vec<LineMatch>>)
        ensures
            match lines {
                Some(lines) => self@.contains_key(path@) && self@[path@] == lines.deep_view(),
                None => !self@.contains_key(path@),
            },
    {
        proof {
            use_type_invariant(self);
            lemma_assoc_keys(self.entries@);
        }
        match position(&self.entries, path) {
            Some(i) => {
                proof {
                    lemma_assoc_value(self.entries@, i as int);
                }
                Some(&self.entries[i].1)
            },
            None => None,
        }
    }

    /// Puts `lines` under `path`. Matches that stood under that path are
    /// dropped; the other files stay as they are.
    pub fn insert(&mut self, path: String, lines: Vec<LineMatch>)
        ensures
            final(self)@ == old(self)@.insert(path@, lines.deep_view()),
    {
        proof {
            use_type_invariant(&*self);
        }
        let mut entries: Vec<(String, Vec<LineMatch>)> = Vec::new();
        std::mem::swap(&mut self.entries, &mut entries);
        match position(&entries, path.as_str()) {
            Some(i) => {
                proof {
                    lemma_assoc_update(entries@, i as int, path, lines);
                }
                entries.set(i, (path, lines));
            },
            None => {
                proof {
                    lemma_assoc_push(entries@, path, lines);
                }
                entries.push((path, lines));
            },
        }
        self.entries = entries;
    }

    /// The files with their matches, each file once, in no order that means
    /// anything.
    pub fn entries(&self) -> (entries: &Vec<(String, Vec<LineMatch>)>)
        ensures
            entries@.len() == self@.len(),
            forall|i: int, j: int|
                0 <= i < j < entries@.len() ==> entries@[i].0@ != entries@[j].0@,
            forall|i: int|
                0 <= i < entries@.len() ==> self@.contains_key(#[trigger] entries@[i].0@)
                    && self@[entries@[i].0@] == entries@[i].1.deep_view(),
            forall|key: Seq<char>| #[trigger] self@.contains_key(key) ==> has_key(entries@, key),
    {
        proof {
            use_type_invariant(self);
            lemma_assoc_len(self.entries@);
            lemma_assoc_keys(self.entries@);
            assert forall|i: int| 0 <= i < self.entries@.len() implies self@.contains_key(
                #[trigger] self.entries@[i].0@,
            ) && self@[self.entries@[i].0@] == self.entries@[i].1.deep_view() by {
                lemma_assoc_value(self.entries@, i);
            }
        }
        &self.entries
    }
}

impl Default for FileMatches {
    /// A map without files.
    fn default() -> (matches: FileMatches)
        ensures
            matches@ == Map::<Seq<char>, Seq<LineMatchView>>::empty(),
    {
        FileMatches::new()
    }
}

impl PartialEq for FileMatches {
    fn eq(&self, other: &Self) -> (same: bool) {
        proof {
            use_type_invariant(self);
            use_type_invariant(other);
            lemma_assoc_len(self.entries@);
            lemma_assoc_len(other.entries@);
            lemma_assoc_keys(self.entries@);
            lemma_assoc_keys(other.entries@);
        }
        if self.entries.len() != other.entries.len() {
            return false;
        }
        let mut i: usize = 0;
        while i < self.entries.len()
            invariant
                i <= self.entries.len(),
                distinct_keys(self.entries@),
                distinct_keys(other.entries@),
                forall|key: Seq<char>| #[trigger]
                    other@.contains_key(key) <==> has_key(other.entries@, key),
                forall|j: int|
                    0 <= j < i ==> other@.contains_key(#[trigger] self.entries@[j].0@)
                        && other@[self.entries@[j].0@] == self.entries@[j].1.deep_view(),
            decreases self.entries.len() - i,
        {
            proof {
                lemma_assoc_value(self.entries@, i as int);
            }
            match position(&other.entries, self.entries[i].0.as_str()) {
                Some(j) => {
                    proof {
                        lemma_assoc_value(other.entries@, j as int);
                    }
                    if !same_lines(&self.entries[i].1, &other.entries[j].1) {
                        return false;
                    }
                },
                None => {
                    return false;
                },
            }
            i += 1;
        }
        proof {
            assert forall|key: Seq<char>| self@.contains_key(key) implies other@.contains_key(
                key,
            ) && other@[key] == self@[key] by {
                let j: int = choose|j: int| 0 <= j < self.entries@.len() && self.entries@[j].0@ == key;
                lemma_assoc_value(self.entries@, j);
            }
            assert(self@.dom().subset_of(other@.dom()));
            lemma_subset_equality(self@.dom(), other@.dom());
            assert(self@ =~= other@);
        }
        true
    }
}

impl PartialEqSpecImpl for FileMatches {
    open spec fn obeys_eq_spec() -> bool {
        true
    }

    open spec fn eq_spec(&self, other: &Self) -> bool {
        self@ == other@
    }
}

} // verus!
