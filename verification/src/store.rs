//! The document store: the live text of every open buffer, keyed by path.
//!
//! The store wraps a sharded concurrent map so that per-key operations stay
//! atomic under the editor's concurrent requests; to the contracts it is a
//! plain map from path to text, named by [`doc_map_view`].  State lives only
//! as long as the process; a closed buffer leaves the store.
use vstd::prelude::*;

use crate::workspace::MemberFile;

verus! {

#[verifier::external_type_specification]
#[verifier::external_body]
#[verifier::reject_recursive_types(K)]
#[verifier::reject_recursive_types(V)]
#[verifier::reject_recursive_types(S)]
pub struct ExDashMap<K, V, S>(dashmap::DashMap<K, V, S>);

pub uninterp spec fn doc_map_view(m: dashmap::DashMap<Vec<char>, Vec<char>>) -> Map<
    Seq<char>,
    Seq<char>,
>;

/// Relies on dashmap::DashMap::insert: the map afterwards holds `value`
/// under `key` and is otherwise unchanged.
#[verifier::external_body]
fn dm_insert(m: &mut dashmap::DashMap<Vec<char>, Vec<char>>, key: Vec<char>, value: Vec<char>)
    ensures
        doc_map_view(*final(m)) == doc_map_view(*old(m)).insert(key@, value@),
{
    m.insert(key, value);
}

/// Relies on dashmap::DashMap::remove: the map afterwards holds nothing
/// under `key` and is otherwise unchanged.
#[verifier::external_body]
fn dm_remove(m: &mut dashmap::DashMap<Vec<char>, Vec<char>>, key: &Vec<char>)
    ensures
        doc_map_view(*final(m)) == doc_map_view(*old(m)).remove(key@),
{
    m.remove(key);
}

/// Relies on dashmap::DashMap::get: the value stored under `key`, if any.
#[verifier::external_body]
fn dm_get(m: &dashmap::DashMap<Vec<char>, Vec<char>>, key: &Vec<char>) -> (r: Option<Vec<char>>)
    ensures
        match r {
            Some(v) => doc_map_view(*m).contains_key(key@) && v@ == doc_map_view(*m)[key@],
            None => !doc_map_view(*m).contains_key(key@),
        },
{
    m.get(key).map(|e| e.value().clone())
}

/// Relies on dashmap::DashMap::iter: every entry of the map exactly once,
/// in no fixed order.
#[verifier::external_body]
fn dm_entries(m: &dashmap::DashMap<Vec<char>, Vec<char>>) -> (r: Vec<(Vec<char>, Vec<char>)>)
    ensures
        forall|i: int|
            0 <= i < r@.len() ==> doc_map_view(*m).contains_key((#[trigger] r@[i]).0@)
                && doc_map_view(*m)[r@[i].0@] == r@[i].1@,
        forall|i: int, j: int| 0 <= i < j < r@.len() ==> (#[trigger] r@[i]).0@ != (#[trigger] r@[j]).0@,
        forall|k: Seq<char>|
            #[trigger] doc_map_view(*m).contains_key(k) ==> exists|i: int|
                0 <= i < r@.len() && (#[trigger] r@[i]).0@ == k,
{
    m.iter().map(|e| (e.key().clone(), e.value().clone())).collect()
}

/// The store of a process that has no buffer open.
pub open spec fn no_documents() -> Map<Seq<char>, Seq<char>> {
    Map::empty()
}

/// The live text of every open buffer, keyed by path.
pub struct DocumentStore {
    map: dashmap::DashMap<Vec<char>, Vec<char>>,
}

impl View for DocumentStore {
    type V = Map<Seq<char>, Seq<char>>;

    closed spec fn view(&self) -> Map<Seq<char>, Seq<char>> {
        doc_map_view(self.map)
    }
}

impl DocumentStore {
    /// An empty store: no buffer is open.  Relies on dashmap::DashMap::new:
    /// a fresh map holds no entry.
    #[verifier::external_body]
    pub fn new() -> (r: DocumentStore)
        ensures
            r@ == no_documents(),
    {
        DocumentStore { map: dashmap::DashMap::new() }
    }

    /// Records a newly opened buffer's full text.
    pub fn open(&mut self, path: Vec<char>, text: Vec<char>)
        ensures
            final(self)@ == old(self)@.insert(path@, text@),
    {
        dm_insert(&mut self.map, path, text);
    }

    /// Replaces a buffer's text wholesale; no partial edit is tracked.
    pub fn update(&mut self, path: Vec<char>, text: Vec<char>)
        ensures
            final(self)@ == old(self)@.insert(path@, text@),
    {
        dm_insert(&mut self.map, path, text);
    }

    /// Forgets a closed buffer.
    pub fn close(&mut self, path: &Vec<char>)
        ensures
            final(self)@ == old(self)@.remove(path@),
    {
        dm_remove(&mut self.map, path);
    }

    /// The live text of the buffer at `path`, if it is open.
    pub fn get(&self, path: &Vec<char>) -> (r: Option<Vec<char>>)
        ensures
            match r {
                Some(v) => self@.contains_key(path@) && v@ == self@[path@],
                None => !self@.contains_key(path@),
            },
    {
        dm_get(&self.map, path)
    }

    /// Every open buffer with its text, each exactly once, in no fixed
    /// order.
    pub fn open_documents(&self) -> (r: Vec<MemberFile>)
        ensures
            forall|i: int|
                0 <= i < r@.len() ==> self@.contains_key((#[trigger] r@[i]).path@)
                    && self@[r@[i].path@] == r@[i].content@,
            forall|i: int, j: int|
                0 <= i < j < r@.len() ==> (#[trigger] r@[i]).path@ != (#[trigger] r@[j]).path@,
            forall|k: Seq<char>|
                #[trigger] self@.contains_key(k) ==> exists|i: int|
                    0 <= i < r@.len() && (#[trigger] r@[i]).path@ == k,
    {
        let entries = dm_entries(&self.map);
        let mut r: Vec<MemberFile> = Vec::new();
        let n = entries.len();
        let mut i: usize = 0;
        while i < n
            invariant
                i <= n == entries@.len(),
                r@.len() == i,
                forall|t: int|
                    0 <= t < entries@.len() ==> doc_map_view(self.map).contains_key(
                        (#[trigger] entries@[t]).0@,
                    ) && doc_map_view(self.map)[entries@[t].0@] == entries@[t].1@,
                forall|t: int, u: int|
                    0 <= t < u < entries@.len() ==> (#[trigger] entries@[t]).0@ != (
                    #[trigger] entries@[u]).0@,
                forall|k: Seq<char>|
                    #[trigger] doc_map_view(self.map).contains_key(k) ==> exists|t: int|
                        0 <= t < entries@.len() && (#[trigger] entries@[t]).0@ == k,
                forall|t: int|
                    0 <= t < i ==> (#[trigger] r@[t]).path@ == entries@[t].0@ && r@[t].content@
                        == entries@[t].1@,
            decreases n - i,
        {
            let m = MemberFile {
                path: crate::text::span_to_vec(&entries[i].0, 0, entries[i].0.len()),
                content: crate::text::span_to_vec(&entries[i].1, 0, entries[i].1.len()),
            };
            proof {
                assert(entries@[i as int].0@.subrange(0, entries@[i as int].0@.len() as int)
                    =~= entries@[i as int].0@);
                assert(entries@[i as int].1@.subrange(0, entries@[i as int].1@.len() as int)
                    =~= entries@[i as int].1@);
            }
            r.push(m);
            i += 1;
        }
        proof {
            assert forall|k: Seq<char>| #[trigger] self@.contains_key(k) implies exists|t: int|
                0 <= t < r@.len() && (#[trigger] r@[t]).path@ == k by {
                let t = choose|t: int|
                    0 <= t < entries@.len() && (#[trigger] entries@[t]).0@ == k;
                assert(r@[t].path@ == k);
            }
        }
        r
    }
}

} // verus!
