//! Maps keyed by name that keep their entries in insertion order.
use vstd::prelude::*;

verus! {

/// True when no two entries share a key.
pub open spec fn keys_unique<V>(entries: Seq<(Seq<char>, V)>) -> bool {
    forall|i: int, j: int|
        0 <= i < entries.len() && 0 <= j < entries.len() && i != j ==> entries[i].0 != entries[j].0
}

/// True when some entry has key `k`.
pub open spec fn has_key<V>(entries: Seq<(Seq<char>, V)>, k: Seq<char>) -> bool {
    exists|i: int| 0 <= i < entries.len() && entries[i].0 == k
}

/// The mapping from keys to values that a sequence of entries describes.
pub open spec fn entries_map<V>(entries: Seq<(Seq<char>, V)>) -> Map<Seq<char>, V> {
    Map::new(
        |k: Seq<char>| has_key(entries, k),
        |k: Seq<char>| entries[choose|i: int| 0 <= i < entries.len() && entries[i].0 == k].1,
    )
}

/// With unique keys, the map sends the key of each entry to that entry's value.
pub proof fn lemma_entries_map_at<V>(entries: Seq<(Seq<char>, V)>, i: int)
    requires
        keys_unique(entries),
        0 <= i < entries.len(),
    ensures
        entries_map(entries).contains_key(entries[i].0),
        entries_map(entries)[entries[i].0] == entries[i].1,
{
    let k = entries[i].0;
    assert(has_key(entries, k));
    let j = choose|j: int| 0 <= j < entries.len() && entries[j].0 == k;
    assert(j == i);
}

/// Two entry sequences that hold the same entries, in whatever order,
/// describe the same map.
pub proof fn lemma_reordered_entries_same_map<V>(s: Seq<(Seq<char>, V)>, t: Seq<(Seq<char>, V)>)
    requires
        keys_unique(s),
        keys_unique(t),
        forall|e: (Seq<char>, V)| s.contains(e) <==> t.contains(e),
    ensures
        entries_map(s) == entries_map(t),
{
    assert forall|k: Seq<char>| #[trigger] has_key(s, k) implies has_key(t, k) && entries_map(t)[k] == entries_map(s)[k] by {
        let i = choose|i: int| 0 <= i < s.len() && s[i].0 == k;
        lemma_entries_map_at(s, i);
        assert(s.contains(s[i]));
        let j = choose|j: int| 0 <= j < t.len() && t[j] == s[i];
        lemma_entries_map_at(t, j);
    }
    assert forall|k: Seq<char>| #[trigger] has_key(t, k) implies has_key(s, k) by {
        let j = choose|j: int| 0 <= j < t.len() && t[j].0 == k;
        assert(t.contains(t[j]));
        let i = choose|i: int| 0 <= i < s.len() && s[i] == t[j];
    }
    assert(entries_map(s) =~= entries_map(t));
}

/// A map from names to values. Entries keep the order in which their keys
/// were first inserted, and keys are unique.
#[derive(Debug)]
pub struct NameMap<V: View> {
    entries: Vec<(String, V)>,
}

/// A map from names to JSON values, each held as its JSON text.
pub type JsonMap = NameMap<String>;

impl<V: View> View for NameMap<V> {
    type V = Map<Seq<char>, V::V>;

    open spec fn view(&self) -> Map<Seq<char>, V::V> {
        entries_map(self.entry_seq())
    }
}

impl<V: View> NameMap<V> {
    /// The entries, as (key, value) pairs in insertion order.
    pub closed spec fn entry_seq(&self) -> Seq<(Seq<char>, V::V)> {
        self.entries@.map_values(|e: (String, V)| (e.0@, e.1@))
    }

    #[verifier::type_invariant]
    spec fn wf(&self) -> bool {
        keys_unique(self.entry_seq())
    }

    pub fn new() -> (r: NameMap<V>)
        ensures
            r.entry_seq() == Seq::<(Seq<char>, V::V)>::empty(),
            r@ == Map::<Seq<char>, V::V>::empty(),
    {
        let r = NameMap { entries: Vec::new() };
        assert(r.entry_seq() =~= Seq::<(Seq<char>, V::V)>::empty());
        assert(r@ =~= Map::<Seq<char>, V::V>::empty());
        r
    }

    pub fn len(&self) -> (r: usize)
        ensures
            r == self.entry_seq().len(),
            keys_unique(self.entry_seq()),
    {
        proof { use_type_invariant(self); }
        self.entries.len()
    }

    pub fn is_empty(&self) -> (r: bool)
        ensures
            r == (self.entry_seq().len() == 0),
    {
        self.entries.len() == 0
    }

    /// The entries themselves, in insertion order.
    pub closed spec fn raw_entries(&self) -> Seq<(String, V)> {
        self.entries@
    }

    /// The entries' views are the views of the raw entries.
    pub proof fn lemma_raw_entries(&self)
        ensures
            self.raw_entries().len() == self.entry_seq().len(),
            forall|i: int|
                0 <= i < self.entry_seq().len() ==> #[trigger] self.entry_seq()[i] == (
                    self.raw_entries()[i].0@,
                    self.raw_entries()[i].1@,
                ),
    {
    }

    /// The key and value of the entry at position `i`.
    pub fn entry(&self, i: usize) -> (r: (&String, &V))
        requires
            i < self.entry_seq().len(),
        ensures
            (r.0@, r.1@) == self.entry_seq()[i as int],
            (*r.0, *r.1) == self.raw_entries()[i as int],
    {
        let e = &self.entries[i];
        (&e.0, &e.1)
    }

    /// Position of the entry with key `key`, if any.
    pub fn position(&self, key: &str) -> (r: Option<usize>)
        ensures
            match r {
                Some(i) => i < self.entry_seq().len() && self.entry_seq()[i as int].0 == key@,
                None => !has_key(self.entry_seq(), key@),
            },
    {
        let wanted: String = key.to_owned();
        let mut i: usize = 0;
        while i < self.entries.len()
            invariant
                i <= self.entries@.len(),
                wanted@ == key@,
                forall|j: int| 0 <= j < i ==> self.entry_seq()[j].0 != key@,
            decreases self.entries@.len() - i,
        {
            assert(self.entry_seq()[i as int] == (self.entries@[i as int].0@, self.entries@[i as int].1@));
            let same = self.entries[i].0 == wanted;
            if same {
                return Some(i);
            }
            i = i + 1;
        }
        None
    }

    pub fn contains_key(&self, key: &str) -> (r: bool)
        ensures
            r == self@.contains_key(key@),
    {
        self.position(key).is_some()
    }

    /// The value stored under `key`; exact, case-sensitive match.
    pub fn get(&self, key: &str) -> (r: Option<&V>)
        ensures
            match r {
                Some(v) => self@.contains_key(key@) && self@[key@] == v@,
                None => !self@.contains_key(key@),
            },
    {
        proof { use_type_invariant(self); }
        match self.position(key) {
            Some(i) => {
                proof { lemma_entries_map_at(self.entry_seq(), i as int); }
                Some(&self.entries[i].1)
            },
            None => None,
        }
    }

    /// Sets the value under `key`. A new key goes last; an existing key
    /// keeps its place and takes the new value.
    pub fn insert(&mut self, key: String, value: V)
        ensures
            final(self)@ == old(self)@.insert(key@, value@),
            has_key(old(self).entry_seq(), key@) ==> final(self).entry_seq()
                == old(self).entry_seq().update(
                choose|i: int|
                    0 <= i < old(self).entry_seq().len() && old(self).entry_seq()[i].0 == key@,
                (key@, value@),
            ),
            !has_key(old(self).entry_seq(), key@) ==> final(self).entry_seq() == old(
                self,
            ).entry_seq().push((key@, value@)),
    {
        proof { use_type_invariant(&*self); }
        let ghost old_seq = self.entry_seq();
        let pos = self.position(key.as_str());
        let mut entries: Vec<(String, V)> = Vec::new();
        std::mem::swap(&mut entries, &mut self.entries);
        match pos {
            Some(i) => {
                entries.set(i, (key, value));
            },
            None => {
                entries.push((key, value));
            },
        }
        let ghost new_seq = entries@.map_values(|e: (String, V)| (e.0@, e.1@));
        proof {
            match pos {
                Some(i) => {
                    assert(new_seq =~= old_seq.update(i as int, (key@, value@)));
                    let c = choose|c: int| 0 <= c < old_seq.len() && old_seq[c].0 == key@;
                    assert(c == i);
                },
                None => {
                    assert(new_seq =~= old_seq.push((key@, value@)));
                },
            }
            assert(keys_unique(new_seq));
            assert(entries_map(new_seq) =~= entries_map(old_seq).insert(key@, value@)) by {
                assert forall|k: Seq<char>| #[trigger] has_key(new_seq, k) == (has_key(old_seq, k) || k == key@) by {
                    if has_key(old_seq, k) {
                        let j = choose|j: int| 0 <= j < old_seq.len() && old_seq[j].0 == k;
                        assert(new_seq[j].0 == k);
                    }
                    if k == key@ {
                        match pos {
                            Some(i) => assert(new_seq[i as int].0 == k),
                            None => assert(new_seq[old_seq.len() as int].0 == k),
                        }
                    }
                }
                assert forall|k: Seq<char>| has_key(new_seq, k) implies entries_map(new_seq)[k] == entries_map(old_seq).insert(key@, value@)[k] by {
                    let j = choose|j: int| 0 <= j < new_seq.len() && new_seq[j].0 == k;
                    lemma_entries_map_at(new_seq, j);
                    if k != key@ {
                        assert(old_seq[j].0 == k);
                        lemma_entries_map_at(old_seq, j);
                    }
                }
            }
        }
        self.entries = entries;
    }
}

impl NameMap<String> {
    /// A copy with the same entries in the same order.
    pub fn duplicate(&self) -> (r: JsonMap)
        ensures
            r.entry_seq() == self.entry_seq(),
            r@ == self@,
    {
        proof { use_type_invariant(self); }
        let mut entries: Vec<(String, String)> = Vec::new();
        let mut i: usize = 0;
        while i < self.entries.len()
            invariant
                i <= self.entries@.len(),
                entries@.len() == i,
                forall|j: int| 0 <= j < i ==> #[trigger] entries@[j].0@ == self.entries@[j].0@
                    && entries@[j].1@ == self.entries@[j].1@,
            decreases self.entries@.len() - i,
        {
            let e = &self.entries[i];
            entries.push((e.0.clone(), e.1.clone()));
            i = i + 1;
        }
        assert(entries@.map_values(|e: (String, String)| (e.0@, e.1@)) =~= self.entry_seq());
        NameMap { entries }
    }

}

impl NameMap<String> {
    /// Compares as maps: the same keys with the same texts, in any order.
    pub fn same_as(&self, other: &JsonMap) -> (r: bool)
        ensures
            r == (self@ == other@),
    {
        let n = self.len();
        let m = other.len();
        let mut i: usize = 0;
        while i < n
            invariant
                i <= n,
                n == self.entry_seq().len(),
                keys_unique(self.entry_seq()),
                forall|j: int|
                    0 <= j < i ==> other@.contains_key(#[trigger] self.entry_seq()[j].0)
                        && other@[self.entry_seq()[j].0] == self.entry_seq()[j].1,
            decreases n - i,
        {
            let (k, v) = self.entry(i);
            proof { lemma_entries_map_at(self.entry_seq(), i as int); }
            match other.get(k.as_str()) {
                Some(w) => {
                    if *w != *v {
                        return false;
                    }
                },
                None => {
                    return false;
                },
            }
            i = i + 1;
        }
        let mut j: usize = 0;
        while j < m
            invariant
                j <= m,
                m == other.entry_seq().len(),
                keys_unique(other.entry_seq()),
                forall|t: int| 0 <= t < j ==> self@.contains_key(#[trigger] other.entry_seq()[t].0),
            decreases m - j,
        {
            let (k, _) = other.entry(j);
            if !self.contains_key(k.as_str()) {
                proof { lemma_entries_map_at(other.entry_seq(), j as int); }
                return false;
            }
            j = j + 1;
        }
        proof {
            assert forall|k: Seq<char>| self@.contains_key(k) implies other@.contains_key(k)
                && other@[k] == self@[k] by {
                let t = choose|t: int| 0 <= t < self.entry_seq().len() && self.entry_seq()[t].0 == k;
                lemma_entries_map_at(self.entry_seq(), t);
            }
            assert forall|k: Seq<char>| other@.contains_key(k) implies self@.contains_key(k) by {
                let t = choose|t: int| 0 <= t < other.entry_seq().len() && other.entry_seq()[t].0 == k;
            }
            assert(self@ =~= other@);
        }
        true
    }
}

impl Clone for NameMap<String> {
    fn clone(&self) -> Self {
        self.duplicate()
    }
}

} // verus!
