//! The summaries of the files of one change, keyed by file path.

use vstd::prelude::*;
use crate::text::{pair_views, str_eq};

verus! {

/// The map that a list of entries stands for: a later entry for a path
/// overrides an earlier one.
pub open spec fn entries_map(entries: Seq<(Seq<char>, Seq<char>)>) -> Map<Seq<char>, Seq<char>>
    decreases entries.len(),
{
    if entries.len() == 0 {
        Map::empty()
    } else {
        entries_map(entries.drop_last()).insert(entries.last().0, entries.last().1)
    }
}

/// No path stands twice in `entries`.
pub open spec fn distinct_paths(entries: Seq<(Seq<char>, Seq<char>)>) -> bool {
    forall|i: int, j: int|
        0 <= i < j < entries.len() ==> (#[trigger] entries[i]).0 != (#[trigger] entries[j]).0
}

/// The position of `path` among `entries`, if it has an entry.
pub open spec fn path_index(entries: Seq<(Seq<char>, Seq<char>)>, path: Seq<char>) -> Option<int>
    decreases entries.len(),
{
    if entries.len() == 0 {
        None
    } else if entries.last().0 == path {
        Some(entries.len() - 1)
    } else {
        path_index(entries.drop_last(), path)
    }
}

/// `entries` with `text` entered for `path`: in the place of the entry that
/// `path` has, or at the end if it has none.
pub open spec fn entered(
    entries: Seq<(Seq<char>, Seq<char>)>,
    path: Seq<char>,
    text: Seq<char>,
) -> Seq<(Seq<char>, Seq<char>)> {
    match path_index(entries, path) {
        Some(i) => entries.update(i, (path, text)),
        None => entries.push((path, text)),
    }
}

/// What `path_index` finds is an entry for the path, and a path without an
/// index has no entry.
pub proof fn lemma_path_index(entries: Seq<(Seq<char>, Seq<char>)>, path: Seq<char>)
    ensures
        match path_index(entries, path) {
            Some(i) => 0 <= i < entries.len() && entries[i].0 == path,
            None => forall|j: int| 0 <= j < entries.len() ==> (#[trigger] entries[j]).0 != path,
        },
        path_index(entries, path) is Some <==> entries_map(entries).dom().contains(path),
    decreases entries.len(),
{
    if entries.len() > 0 {
        let init = entries.drop_last();
        lemma_path_index(init, path);
        if entries.last().0 != path {
            assert forall|j: int| 0 <= j < entries.len() && path_index(init, path)
                is None implies (#[trigger] entries[j]).0 != path by {
                if j < init.len() {
                    assert(init[j] == entries[j]);
                }
            }
        }
    }
}

/// The map of a list with distinct paths holds each entry's text under its
/// path.
pub proof fn lemma_entries_map_index(entries: Seq<(Seq<char>, Seq<char>)>, i: int)
    requires
        distinct_paths(entries),
        0 <= i < entries.len(),
    ensures
        entries_map(entries).dom().contains(entries[i].0),
        entries_map(entries)[entries[i].0] == entries[i].1,
    decreases entries.len(),
{
    let init = entries.drop_last();
    if i < entries.len() - 1 {
        assert(distinct_paths(init)) by {
            assert forall|a: int, b: int| 0 <= a < b < init.len() implies (#[trigger] init[a]).0 != (
            #[trigger] init[b]).0 by {
                assert(init[a] == entries[a] && init[b] == entries[b]);
            }
        }
        assert(init[i] == entries[i]);
        lemma_entries_map_index(init, i);
        assert(entries[i].0 != entries[entries.len() - 1].0);
    }
}

/// Entering a text for a path is an insertion into the map, and keeps the
/// paths distinct.
pub proof fn lemma_entered(entries: Seq<(Seq<char>, Seq<char>)>, path: Seq<char>, text: Seq<char>)
    requires
        distinct_paths(entries),
    ensures
        distinct_paths(entered(entries, path, text)),
        entries_map(entered(entries, path, text)) == entries_map(entries).insert(path, text),
    decreases entries.len(),
{
    lemma_path_index(entries, path);
    let after = entered(entries, path, text);
    match path_index(entries, path) {
        None => {
            assert(after.drop_last() =~= entries);
            assert forall|a: int, b: int| 0 <= a < b < after.len() implies (#[trigger] after[a]).0
                != (#[trigger] after[b]).0 by {
                if b < entries.len() {
                    assert(after[a] == entries[a] && after[b] == entries[b]);
                } else {
                    assert(after[a] == entries[a]);
                }
            }
        },
        Some(i) => {
            assert forall|a: int, b: int| 0 <= a < b < after.len() implies (#[trigger] after[a]).0
                != (#[trigger] after[b]).0 by {
                assert(after[a].0 == entries[a].0 && after[b].0 == entries[b].0);
            }
            let init = entries.drop_last();
            assert(distinct_paths(init)) by {
                assert forall|a: int, b: int| 0 <= a < b < init.len() implies (
                #[trigger] init[a]).0 != (#[trigger] init[b]).0 by {
                    assert(init[a] == entries[a] && init[b] == entries[b]);
                }
            }
            if i == entries.len() - 1 {
                assert(after.drop_last() =~= init);
                assert(entries_map(init).insert(path, entries.last().1).insert(path, text)
                    =~= entries_map(init).insert(path, text));
            } else {
                assert(entries.last().0 != path) by {
                    assert(entries[i].0 != entries[entries.len() - 1].0);
                }
                lemma_entered(init, path, text);
                assert(path_index(init, path) == Some(i));
                assert(after.drop_last() =~= entered(init, path, text));
                assert(after.last() == entries.last());
                assert(entries_map(init).insert(path, text).insert(
                    entries.last().0,
                    entries.last().1,
                ) =~= entries_map(init).insert(entries.last().0, entries.last().1).insert(
                    path,
                    text,
                ));
            }
        },
    }
}

/// The summaries of the files of one change: for each file path one text,
/// in the order in which the paths were first entered. An empty text stands
/// for a file without a summary.
#[derive(Debug)]
pub struct FileSummaries {
    entries: Vec<(String, String)>,
}

impl FileSummaries {
    /// The entries as pairs of path and text, in order.
    pub closed spec fn entries(&self) -> Seq<(Seq<char>, Seq<char>)> {
        pair_views(self.entries@)
    }

    #[verifier::type_invariant]
    closed spec fn distinct(&self) -> bool {
        distinct_paths(self.entries())
    }

    /// No summaries at all.
    pub fn new() -> (summaries: Self)
        ensures
            summaries.entries() == Seq::<(Seq<char>, Seq<char>)>::empty(),
            summaries@ == Map::<Seq<char>, Seq<char>>::empty(),
    {
        let summaries = FileSummaries { entries: Vec::new() };
        proof {
            assert(summaries.entries() =~= Seq::empty());
        }
        summaries
    }

    /// The number of files. No path stands twice among the entries.
    pub fn len(&self) -> (n: usize)
        ensures
            n == self.entries().len(),
            distinct_paths(self.entries()),
    {
        proof {
            use_type_invariant(self);
        }
        self.entries.len()
    }

    /// The position of `path` among the entries, if it has an entry.
    fn position(&self, path: &str) -> (found: Option<usize>)
        ensures
            match found {
                Some(i) => path_index(self.entries(), path@) == Some(i as int) && i
                    < self.entries@.len(),
                None => path_index(self.entries(), path@) is None,
            },
    {
        let mut i: usize = self.entries.len();
        proof {
            assert(self.entries().subrange(0, i as int) =~= self.entries());
        }
        while i > 0
            invariant
                i <= self.entries@.len(),
                path_index(self.entries(), path@) == path_index(
                    self.entries().subrange(0, i as int),
                    path@,
                ),
            decreases i,
        {
            proof {
                let cur = self.entries().subrange(0, i as int);
                assert(cur.last() == self.entries()[i - 1]);
                assert(cur.drop_last() =~= self.entries().subrange(0, i - 1));
            }
            if str_eq(self.entries[i - 1].0.as_str(), path) {
                return Some(i - 1);
            }
            i -= 1;
        }
        None
    }

    /// The summary entered for `path`, if there is one.
    pub fn get(&self, path: &str) -> (text: Option<&String>)
        ensures
            match text {
                Some(t) => self@.dom().contains(path@) && self@[path@] == t@,
                None => !self@.dom().contains(path@),
            },
    {
        proof {
            use_type_invariant(self);
            lemma_path_index(self.entries(), path@);
        }
        match self.position(path) {
            Some(i) => {
                proof {
                    lemma_entries_map_index(self.entries(), i as int);
                }
                Some(&self.entries[i].1)
            },
            None => None,
        }
    }

    /// Whether a summary was entered for `path`.
    pub fn contains_key(&self, path: &str) -> (found: bool)
        ensures
            found == self@.dom().contains(path@),
    {
        self.get(path).is_some()
    }

    /// These summaries with `text` entered as the summary of `path`. A path
    /// that has a summary already keeps its place and gets the new text: the
    /// last entry wins.
    pub fn insert(self, path: String, text: String) -> (after: Self)
        ensures
            after@ == self@.insert(path@, text@),
            after.entries() == entered(self.entries(), path@, text@),
    {
        proof {
            use_type_invariant(&self);
            lemma_entered(self.entries(), path@, text@);
        }
        let ghost before = self.entries();
        let found = self.position(path.as_str());
        let mut entries = self.entries;
        match found {
            Some(i) => {
                entries[i] = (path, text);
            },
            None => {
                entries.push((path, text));
            },
        }
        proof {
            assert(pair_views(entries@) =~= entered(before, path@, text@));
        }
        FileSummaries { entries }
    }

    /// The map that these summaries are is the map of their entries.
    pub proof fn lemma_view(&self)
        ensures
            self@ == entries_map(self.entries()),
    {
    }

    /// The path and the summary at position `i`.
    pub fn entry(&self, i: usize) -> (pair: (&String, &String))
        requires
            i < self.entries().len(),
        ensures
            pair.0@ == self.entries()[i as int].0,
            pair.1@ == self.entries()[i as int].1,
    {
        (&self.entries[i].0, &self.entries[i].1)
    }
}

impl View for FileSummaries {
    type V = Map<Seq<char>, Seq<char>>;

    closed spec fn view(&self) -> Map<Seq<char>, Seq<char>> {
        entries_map(self.entries())
    }
}

} // verus!
