//! A small string-keyed store with insert-if-absent semantics. It backs the
//! component cache (fragment path -> fragment text) and the per-call
//! placeholder maps used by hydration.

use vstd::prelude::*;

verus! {

/// The mathematical contents of an entry list: later entries win, though the
/// well-formedness invariant keeps keys unique anyway.
pub open spec fn assoc_map(entries: Seq<(String, String)>) -> Map<Seq<char>, Seq<char>>
    decreases entries.len(),
{
    if entries.len() == 0 {
        Map::empty()
    } else {
        assoc_map(entries.drop_last()).insert(entries.last().0@, entries.last().1@)
    }
}

/// An append-only map from strings to strings.
pub struct StrMap {
    entries: Vec<(String, String)>,
}

impl StrMap {
    /// No two entries share a key.
    pub closed spec fn wf(self) -> bool {
        forall|i: int, j: int|
            0 <= i < j < self.entries@.len() ==> self.entries@[i].0@ != self.entries@[j].0@
    }

    pub closed spec fn view(self) -> Map<Seq<char>, Seq<char>> {
        assoc_map(self.entries@)
    }

    pub fn new() -> (r: StrMap)
        ensures
            r.wf(),
            r@ == Map::<Seq<char>, Seq<char>>::empty(),
    {
        StrMap { entries: Vec::new() }
    }

    /// Returns a copy of the value stored under `key`, if any.
    pub fn lookup(&self, key: &str) -> (r: Option<String>)
        requires
            self.wf(),
        ensures
            match r {
                Some(v) => self@.contains_key(key@) && v@ == self@[key@],
                None => !self@.contains_key(key@),
            },
    {
        let n = self.entries.len();
        let mut i: usize = 0;
        while i < n
            invariant
                self.wf(),
                i <= n,
                n == self.entries@.len(),
                forall|k: int| 0 <= k < i ==> self.entries@[k].0@ != key@,
            decreases n - i,
        {
            if str_eq(self.entries[i].0.as_str(), key) {
                proof {
                    lemma_assoc_map_get(self.entries@, i as int);
                }
                return Some(self.entries[i].1.clone());
            }
            i = i + 1;
        }
        proof {
            lemma_assoc_map_absent(self.entries@, key@);
        }
        None
    }

    /// Stores `val` under `key` unless `key` is already present; an existing
    /// entry is never replaced.
    pub fn insert(&mut self, key: String, val: String)
        requires
            old(self).wf(),
        ensures
            final(self).wf(),
            final(self)@ == if old(self)@.contains_key(key@) {
                old(self)@
            } else {
                old(self)@.insert(key@, val@)
            },
    {
        let present = self.lookup(key.as_str());
        match present {
            Some(_) => {},
            None => {
                proof {
                    assert forall|k: int| 0 <= k < self.entries@.len() implies self.entries@[k].0@
                        != key@ by {
                        if self.entries@[k].0@ == key@ {
                            lemma_assoc_map_get(self.entries@, k);
                        }
                    }
                    lemma_assoc_map_push(self.entries@, (key, val));
                }
                self.entries.push((key, val));
            },
        }
    }
}

/// Law: cache consistency. Once a fragment's text is stored under its
/// path, looking the path up yields exactly that text; storing under the
/// same path again changes nothing, so only the very first load of a path
/// can reach the disk, and every later load returns the identical text.
pub proof fn lemma_cache_consistency(
    m: Map<Seq<char>, Seq<char>>,
    path: Seq<char>,
    text: Seq<char>,
    other: Seq<char>,
)
    requires
        !m.contains_key(path),
    ensures
        m.insert(path, text).contains_key(path),
        m.insert(path, text)[path] == text,
        (if m.insert(path, text).contains_key(path) {
            m.insert(path, text)
        } else {
            m.insert(path, text).insert(path, other)
        }) == m.insert(path, text),
{
}

/// Character-by-character string equality, relying only on vstd's `get_char`.
pub fn str_eq(a: &str, b: &str) -> (r: bool)
    ensures
        r == (a@ == b@),
{
    let na = a.unicode_len();
    let nb = b.unicode_len();
    if na != nb {
        return false;
    }
    let mut i: usize = 0;
    while i < na
        invariant
            i <= na,
            na == a@.len(),
            na == b@.len(),
            forall|k: int| 0 <= k < i ==> a@[k] == b@[k],
        decreases na - i,
    {
        if a.get_char(i) != b.get_char(i) {
            return false;
        }
        i = i + 1;
    }
    proof {
        assert(a@ =~= b@);
    }
    true
}

/// An entry's key is in the map, and if `i` is the unique index holding a
/// key, the map stores that entry's value.
proof fn lemma_assoc_map_get(entries: Seq<(String, String)>, i: int)
    requires
        0 <= i < entries.len(),
        forall|p: int, q: int| 0 <= p < q < entries.len() ==> entries[p].0@ != entries[q].0@,
    ensures
        assoc_map(entries).contains_key(entries[i].0@),
        assoc_map(entries)[entries[i].0@] == entries[i].1@,
    decreases entries.len(),
{
    if i == entries.len() - 1 {
    } else {
        lemma_assoc_map_get(entries.drop_last(), i);
        assert(entries.drop_last()[i] == entries[i]);
        assert(entries[entries.len() - 1].0@ != entries[i].0@);
    }
}

/// A key held by no entry is absent from the map.
proof fn lemma_assoc_map_absent(entries: Seq<(String, String)>, key: Seq<char>)
    requires
        forall|k: int| 0 <= k < entries.len() ==> entries[k].0@ != key,
    ensures
        !assoc_map(entries).contains_key(key),
    decreases entries.len(),
{
    if entries.len() > 0 {
        lemma_assoc_map_absent(entries.drop_last(), key);
    }
}

/// Appending an entry inserts its key.
proof fn lemma_assoc_map_push(entries: Seq<(String, String)>, p: (String, String))
    ensures
        assoc_map(entries.push(p)) == assoc_map(entries).insert(p.0@, p.1@),
{
    assert(entries.push(p).drop_last() =~= entries);
    assert(entries.push(p).last() == p);
}

} // verus!
