//! The directory of stored files, modelled as a map from stored name to
//! payload bytes. A file is written once and never updated in place, so a
//! store is only allowed under a name that is not yet taken.

use vstd::prelude::*;
use crate::bytes::bytes_eq;

verus! {

/// The map described by a sequence of (name, payload) entries, later entries
/// taking precedence.
pub open spec fn entries_map(s: Seq<(Vec<u8>, Vec<u8>)>) -> Map<Seq<u8>, Seq<u8>>
    decreases s.len(),
{
    if s.len() == 0 {
        Map::empty()
    } else {
        entries_map(s.drop_last()).insert(s.last().0@, s.last().1@)
    }
}

/// A key is in the entry map exactly when some entry carries it.
proof fn lemma_entries_map_keys(s: Seq<(Vec<u8>, Vec<u8>)>, k: Seq<u8>)
    ensures
        entries_map(s).contains_key(k) <==> exists|i: int|
            0 <= i < s.len() && (#[trigger] s[i]).0@ == k,
    decreases s.len(),
{
    if s.len() > 0 {
        lemma_entries_map_keys(s.drop_last(), k);
        if k == s.last().0@ {
            assert(s[s.len() - 1].0@ == k);
        } else {
            if entries_map(s).contains_key(k) {
                let i = choose|i: int| 0 <= i < s.drop_last().len() && (#[trigger] s.drop_last()[
                    i]).0@ == k;
                assert(s[i].0@ == k);
            } else {
                if exists|i: int| 0 <= i < s.len() && (#[trigger] s[i]).0@ == k {
                    let i = choose|i: int| 0 <= i < s.len() && (#[trigger] s[i]).0@ == k;
                    assert(s.drop_last()[i].0@ == k);
                }
            }
        }
    }
}

/// With pairwise distinct names, the map sends each entry's name to its
/// payload.
proof fn lemma_entries_map_value(s: Seq<(Vec<u8>, Vec<u8>)>, i: int)
    requires
        forall|a: int, b: int| 0 <= a < b < s.len() ==> (#[trigger] s[a]).0@ != (
        #[trigger] s[b]).0@,
        0 <= i < s.len(),
    ensures
        entries_map(s).contains_key(s[i].0@),
        entries_map(s)[s[i].0@] == s[i].1@,
    decreases s.len(),
{
    if i == s.len() - 1 {
    } else {
        lemma_entries_map_value(s.drop_last(), i);
        assert(s.drop_last()[i] == s[i]);
        assert(s[i].0@ != s[s.len() - 1].0@);
    }
}

/// The directory of stored files.
pub struct Directory {
    entries: Vec<(Vec<u8>, Vec<u8>)>,
}

impl View for Directory {
    type V = Map<Seq<u8>, Seq<u8>>;

    closed spec fn view(&self) -> Map<Seq<u8>, Seq<u8>> {
        entries_map(self.entries@)
    }
}

/// What a lookup in a directory returns: the payload stored under the name,
/// if any.
pub open spec fn spec_fetch(d: Map<Seq<u8>, Seq<u8>>, name: Seq<u8>) -> Option<Seq<u8>> {
    if d.contains_key(name) {
        Option::Some(d[name])
    } else {
        Option::None
    }
}

impl Directory {
    /// No two entries share a name.
    pub closed spec fn wf(&self) -> bool {
        forall|a: int, b: int| 0 <= a < b < self.entries@.len() ==> (
        #[trigger] self.entries@[a]).0@ != (#[trigger] self.entries@[b]).0@
    }

    /// An empty directory.
    pub fn new() -> (d: Directory)
        ensures
            d.wf(),
            d@ == Map::<Seq<u8>, Seq<u8>>::empty(),
    {
        Directory { entries: Vec::new() }
    }

    /// Stores a payload under a name not yet taken. The directory afterwards
    /// maps that name to exactly the stored bytes and is otherwise unchanged.
    pub fn store(&mut self, name: Vec<u8>, data: Vec<u8>)
        requires
            old(self).wf(),
            !old(self)@.contains_key(name@),
        ensures
            final(self).wf(),
            final(self)@ == old(self)@.insert(name@, data@),
    {
        proof {
            lemma_entries_map_keys(self.entries@, name@);
        }
        let ghost before = self.entries@;
        self.entries.push((name, data));
        proof {
            assert(self.entries@.drop_last() =~= before);
            assert forall|a: int, b: int| 0 <= a < b < self.entries@.len() implies (
            #[trigger] self.entries@[a]).0@ != (#[trigger] self.entries@[b]).0@ by {
                if b < self.entries@.len() - 1 {
                    assert(before[a].0@ != before[b].0@);
                } else {
                    assert(before[a].0@ == self.entries@[a].0@);
                }
            }
        }
    }

    /// Looks a name up: returns the stored payload when the name is taken,
    /// and nothing when it is not.
    pub fn fetch(&self, name: &[u8]) -> (r: Option<&Vec<u8>>)
        requires
            self.wf(),
        ensures
            spec_fetch(self@, name@) == match r {
                Option::Some(d) => Option::Some(d@),
                Option::None => Option::<Seq<u8>>::None,
            },
            r.is_some() <==> self@.contains_key(name@),
    {
        let mut i: usize = 0;
        while i < self.entries.len()
            invariant
                self.wf(),
                i <= self.entries@.len(),
                forall|j: int| 0 <= j < i ==> (#[trigger] self.entries@[j]).0@ != name@,
            decreases self.entries@.len() - i,
        {
            let pair = &self.entries[i];
            if bytes_eq(pair.0.as_slice(), name) {
                proof {
                    lemma_entries_map_value(self.entries@, i as int);
                }
                return Some(&self.entries[i].1);
            }
            i = i + 1;
        }
        proof {
            lemma_entries_map_keys(self.entries@, name@);
        }
        None
    }
}

/// Round trip: storing a payload under a name and fetching that name returns
/// exactly the stored bytes.
pub proof fn lemma_store_then_fetch(d: Map<Seq<u8>, Seq<u8>>, name: Seq<u8>, p: Seq<u8>)
    ensures
        spec_fetch(d.insert(name, p), name) == Option::Some(p),
{
}

/// Retrieval is read-only and deterministic: two lookups of the same name in
/// the same directory agree.
pub proof fn lemma_fetch_idempotent(
    d: Map<Seq<u8>, Seq<u8>>,
    name: Seq<u8>,
    r1: Option<Seq<u8>>,
    r2: Option<Seq<u8>>,
)
    requires
        r1 == spec_fetch(d, name),
        r2 == spec_fetch(d, name),
    ensures
        r1 == r2,
{
}

} // verus!
