//! The workspace cache: the most recent successful structured model per
//! workspace key.
//!
//! The cache is an explicit state object with a defined invalidation rule —
//! replaced on a successful analysis, kept untouched by a failing one — so
//! hover, completion and definition requests keep working while the buffer
//! is momentarily invalid.  Entries live as long as the process; nothing
//! reclaims them.
use vstd::prelude::*;

use crate::model::CachedModel;

verus! {

/// The most recent successful model of each workspace, keyed by directory.
pub struct WorkspaceCache {
    entries: Vec<(Vec<char>, CachedModel)>,
}

/// The map an entry list denotes: later entries win.
pub open spec fn entries_map(s: Seq<(Vec<char>, CachedModel)>) -> Map<Seq<char>, CachedModel>
    decreases s.len(),
{
    if s.len() == 0 {
        Map::empty()
    } else {
        entries_map(s.drop_last()).insert(s.last().0@, s.last().1)
    }
}

impl View for WorkspaceCache {
    type V = Map<Seq<char>, CachedModel>;

    closed spec fn view(&self) -> Map<Seq<char>, CachedModel> {
        entries_map(self.entries@)
    }
}

proof fn lemma_entries_map_no_match(s: Seq<(Vec<char>, CachedModel)>, k: Seq<char>)
    requires
        forall|i: int| 0 <= i < s.len() ==> (#[trigger] s[i].0)@ != k,
    ensures
        !entries_map(s).contains_key(k),
    decreases s.len(),
{
    if s.len() > 0 {
        assert(s[s.len() - 1].0@ != k);
        assert forall|i: int| 0 <= i < s.drop_last().len() implies (#[trigger] s.drop_last()[i].0)@
            != k by {
            assert(s[i].0@ != k);
        }
        lemma_entries_map_no_match(s.drop_last(), k);
    }
}

proof fn lemma_entries_map_last_match(s: Seq<(Vec<char>, CachedModel)>, k: Seq<char>, i: int)
    requires
        0 <= i < s.len(),
        s[i].0@ == k,
        forall|t: int| i < t < s.len() ==> (#[trigger] s[t].0)@ != k,
    ensures
        entries_map(s).contains_key(k),
        entries_map(s)[k] == s[i].1,
    decreases s.len(),
{
    if i == s.len() - 1 {
    } else {
        assert(s[s.len() - 1].0@ != k);
        assert forall|t: int| i < t < s.drop_last().len() implies (#[trigger] s.drop_last()[t].0)@
            != k by {
            assert(s[t].0@ != k);
        }
        assert(s.drop_last()[i].0@ == k);
        lemma_entries_map_last_match(s.drop_last(), k, i);
    }
}

impl WorkspaceCache {
    /// An empty cache: no workspace has been analyzed successfully yet.
    pub fn new() -> (r: WorkspaceCache)
        ensures
            r@ == Map::<Seq<char>, CachedModel>::empty(),
    {
        WorkspaceCache { entries: Vec::new() }
    }

    /// The cached model of the workspace with key `key`, if a successful
    /// analysis has been recorded for it.
    pub fn get(&self, key: &Vec<char>) -> (r: Option<&CachedModel>)
        ensures
            match r {
                Some(m) => self@.contains_key(key@) && *m == self@[key@],
                None => !self@.contains_key(key@),
            },
    {
        let n = self.entries.len();
        let mut i = n;
        while i > 0
            invariant
                i <= n == self.entries@.len(),
                forall|t: int| i <= t < n ==> (#[trigger] self.entries@[t].0)@ != key@,
            decreases i,
        {
            if crate::text::chars_eq(&self.entries[i - 1].0, key) {
                proof {
                    lemma_entries_map_last_match(self.entries@, key@, i - 1);
                }
                return Some(&self.entries[i - 1].1);
            }
            i -= 1;
        }
        proof {
            lemma_entries_map_no_match(self.entries@, key@);
        }
        None
    }

    /// Records the model of a successful analysis for `key`, replacing any
    /// prior model for that key.
    pub fn set(&mut self, key: Vec<char>, model: CachedModel)
        ensures
            final(self)@ == old(self)@.insert(key@, model),
    {
        let ghost k = key@;
        let ghost prior = self.entries@;
        self.entries.push((key, model));
        proof {
            assert(self.entries@.drop_last() =~= prior);
            assert(self.entries@.last().0@ == k);
        }
    }
}

} // verus!
