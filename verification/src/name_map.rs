//! A map keyed by names (strings), held as a list of entries in which no
//! name occurs twice. Its view is a `Map` from character sequences.

use vstd::prelude::*;
use crate::text::str_eq;

verus! {

/// Whether no key occurs twice in `entries`.
pub open spec fn keys_distinct<V>(entries: Seq<(String, V)>) -> bool {
    forall|i: int, j: int|
        0 <= i < entries.len() && 0 <= j < entries.len() && i != j
            ==> #[trigger] entries[i].0@ != #[trigger] entries[j].0@
}

/// Whether some entry has key `k`.
pub open spec fn has_key<V>(entries: Seq<(String, V)>, k: Seq<char>) -> bool {
    exists|i: int| 0 <= i < entries.len() && #[trigger] entries[i].0@ == k
}

/// The position of key `k` (meaningful when `has_key`).
pub open spec fn key_index<V>(entries: Seq<(String, V)>, k: Seq<char>) -> int {
    choose|i: int| 0 <= i < entries.len() && #[trigger] entries[i].0@ == k
}

/// The map that a list of entries with distinct keys denotes.
pub open spec fn entries_map<V: View>(entries: Seq<(String, V)>) -> Map<Seq<char>, V::V> {
    Map::new(|k: Seq<char>| has_key(entries, k), |k: Seq<char>| entries[key_index(entries, k)].1@)
}

/// In a list with distinct keys, the entry at `i` is the one the map gives for its key.
pub proof fn lemma_entry_in_map<V: View>(entries: Seq<(String, V)>, i: int)
    requires
        keys_distinct(entries),
        0 <= i < entries.len(),
    ensures
        entries_map(entries).contains_key(entries[i].0@),
        entries_map(entries)[entries[i].0@] == entries[i].1@,
        key_index(entries, entries[i].0@) == i,
{
    let k = entries[i].0@;
    assert(has_key(entries, k));
    let j = key_index(entries, k);
    assert(entries[j].0@ == k);
    if j != i {
        assert(entries[i].0@ != entries[j].0@);
    }
}

/// Values that can be copied into a value with the same view.
pub trait Duplicate: Sized + View {
    fn duplicate(&self) -> (r: Self)
        ensures
            r@ == self@,
    ;
}

impl Duplicate for u32 {
    fn duplicate(&self) -> (r: u32) {
        *self
    }
}

impl Duplicate for bool {
    fn duplicate(&self) -> (r: bool) {
        *self
    }
}

impl Duplicate for String {
    fn duplicate(&self) -> (r: String) {
        self.clone()
    }
}

/// A map from names to values.
#[derive(Debug, PartialEq, Eq)]
pub struct NameMap<V: View> {
    entries: Vec<(String, V)>,
}

impl<V: View> View for NameMap<V> {
    type V = Map<Seq<char>, V::V>;

    closed spec fn view(&self) -> Map<Seq<char>, V::V> {
        entries_map(self.entries@)
    }
}

impl<V: View> NameMap<V> {
    #[verifier::type_invariant]
    spec fn distinct(self) -> bool {
        keys_distinct(self.entries@)
    }

    /// The entries, in insertion order.
    pub closed spec fn spec_entries(&self) -> Seq<(String, V)> {
        self.entries@
    }

    /// The map of the entries is the view; with distinct keys it has one
    /// key per entry.
    pub proof fn lemma_entries(&self)
        requires
            keys_distinct(self.spec_entries()),
        ensures
            self@ == entries_map(self.spec_entries()),
            self@.dom().finite(),
            self@.len() == self.spec_entries().len(),
    {
        lemma_entries_dom(self.entries@);
    }

    /// An empty map.
    pub fn new() -> (m: NameMap<V>)
        ensures
            m@ == Map::<Seq<char>, V::V>::empty(),
    {
        let m = NameMap { entries: Vec::new() };
        assert(m@ =~= Map::<Seq<char>, V::V>::empty());
        m
    }

    /// The entries, in insertion order.
    pub fn entries(&self) -> (r: &Vec<(String, V)>)
        ensures
            r@ == self.spec_entries(),
            keys_distinct(r@),
    {
        proof { use_type_invariant(self); }
        &self.entries
    }

    /// Number of entries.
    pub fn len(&self) -> (n: usize)
        ensures
            n == self@.len(),
    {
        proof {
            use_type_invariant(self);
            self.lemma_entries();
        }
        self.entries.len()
    }

    /// Whether the map has no entry.
    pub fn is_empty(&self) -> (b: bool)
        ensures
            b == (self@.len() == 0),
    {
        proof {
            use_type_invariant(self);
            self.lemma_entries();
        }
        self.entries.len() == 0
    }

    /// Position of `key` among the entries.
    pub fn find(&self, key: &str) -> (r: Option<usize>)
        ensures
            r is None <==> !self@.contains_key(key@),
            r matches Some(i) ==> i < self.spec_entries().len() && self.spec_entries()[i as int].0@
                == key@,
    {
        proof { use_type_invariant(self); }
        let mut i: usize = 0;
        while i < self.entries.len()
            invariant
                i <= self.entries@.len(),
                forall|j: int| 0 <= j < i ==> self.entries@[j].0@ != key@,
            decreases self.entries@.len() - i,
        {
            if str_eq(self.entries[i].0.as_str(), key) {
                return Some(i);
            }
            i = i + 1;
        }
        proof {
            if has_key(self.entries@, key@) {
                let j = key_index(self.entries@, key@);
                assert(self.entries@[j].0@ == key@);
            }
        }
        None
    }

    /// Whether `key` has an entry.
    pub fn contains_key(&self, key: &str) -> (b: bool)
        ensures
            b == self@.contains_key(key@),
    {
        self.find(key).is_some()
    }

    /// The value stored under `key`.
    pub fn get(&self, key: &str) -> (r: Option<&V>)
        ensures
            r is None <==> !self@.contains_key(key@),
            r matches Some(v) ==> self@.contains_key(key@) && v@ == self@[key@],
    {
        proof { use_type_invariant(self); }
        match self.find(key) {
            Some(i) => {
                proof { lemma_entry_in_map(self.entries@, i as int); }
                Some(&self.entries[i].1)
            },
            None => None,
        }
    }

    /// The value of entry `i`.
    pub fn value_at(&self, i: usize) -> (r: &V)
        requires
            i < self.spec_entries().len(),
        ensures
            *r == self.spec_entries()[i as int].1,
            r@ == self@[self.spec_entries()[i as int].0@],
    {
        proof {
            use_type_invariant(self);
            lemma_entry_in_map(self.entries@, i as int);
        }
        &self.entries[i].1
    }

    /// Replace the value of entry `i`, keeping its key.
    pub fn set_value_at(&mut self, i: usize, value: V)
        requires
            i < old(self).spec_entries().len(),
        ensures
            final(self)@ == old(self)@.insert(old(self).spec_entries()[i as int].0@, value@),
            final(self).spec_entries().len() == old(self).spec_entries().len(),
            forall|j: int| 0 <= j < final(self).spec_entries().len() ==> #[trigger] final(self).spec_entries()[j].0@
                == old(self).spec_entries()[j].0@,
    {
        proof { use_type_invariant(&*self); }
        let ghost old_entries = self.entries@;
        let ghost k = old_entries[i as int].0@;
        let mut entries: Vec<(String, V)> = Vec::new();
        std::mem::swap(&mut entries, &mut self.entries);
        let key = entries[i].0.clone();
        entries.set(i, (key, value));
        let ghost new_entries = entries@;
        assert(keys_distinct(new_entries)) by {
            assert forall|a: int, b: int|
                0 <= a < new_entries.len() && 0 <= b < new_entries.len() && a != b
                implies #[trigger] new_entries[a].0@ != #[trigger] new_entries[b].0@ by {
                assert(new_entries[a].0@ == old_entries[a].0@);
                assert(new_entries[b].0@ == old_entries[b].0@);
            };
        };
        self.entries = entries;
        proof {
            lemma_entry_in_map(new_entries, i as int);
            assert(entries_map(new_entries) =~= entries_map(old_entries).insert(k, value@)) by {
                assert forall|q: Seq<char>| #[trigger] has_key(new_entries, q) == (q == k || has_key(old_entries, q)) by {
                    if has_key(old_entries, q) {
                        let j = key_index(old_entries, q);
                        assert(new_entries[j].0@ == q);
                    }
                    if has_key(new_entries, q) {
                        let j = key_index(new_entries, q);
                        assert(old_entries[j].0@ == q);
                    }
                };
                assert forall|q: Seq<char>| has_key(new_entries, q) && q != k
                    implies entries_map(new_entries)[q] == entries_map(old_entries)[q] by {
                    let j = key_index(new_entries, q);
                    lemma_entry_in_map(new_entries, j);
                    lemma_entry_in_map(old_entries, j);
                    assert(new_entries[j].0@ == old_entries[j].0@);
                    assert(j != i);
                };
            };
        }
    }

    /// Put `value` in entry `i`, keeping its key, and return the value it
    /// held.
    pub fn replace_value_at(&mut self, i: usize, value: V) -> (prev: V)
        requires
            i < old(self).spec_entries().len(),
        ensures
            final(self)@ == old(self)@.insert(old(self).spec_entries()[i as int].0@, value@),
            prev == old(self).spec_entries()[i as int].1,
            prev@ == old(self)@[old(self).spec_entries()[i as int].0@],
            final(self).spec_entries().len() == old(self).spec_entries().len(),
            forall|j: int| 0 <= j < final(self).spec_entries().len() ==> #[trigger] final(self).spec_entries()[j].0@
                == old(self).spec_entries()[j].0@,
    {
        proof {
            use_type_invariant(&*self);
            lemma_entry_in_map(self.entries@, i as int);
        }
        let ghost old_entries = self.entries@;
        let mut entries: Vec<(String, V)> = Vec::new();
        std::mem::swap(&mut entries, &mut self.entries);
        let (key, prev) = entries.remove(i);
        entries.insert(i, (key, value));
        let ghost new_entries = entries@;
        assert forall|j: int| 0 <= j < new_entries.len() implies #[trigger] new_entries[j].0@
            == old_entries[j].0@ by {
            if j != i {
                assert(new_entries[j] == old_entries[j]);
            }
        };
        assert(keys_distinct(new_entries)) by {
            assert forall|a: int, b: int|
                0 <= a < new_entries.len() && 0 <= b < new_entries.len() && a != b
                implies #[trigger] new_entries[a].0@ != #[trigger] new_entries[b].0@ by {
                assert(new_entries[a].0@ == old_entries[a].0@);
                assert(new_entries[b].0@ == old_entries[b].0@);
            };
        };
        self.entries = entries;
        proof {
            assert forall|j: int| 0 <= j < new_entries.len() && j != i implies new_entries[j].1
                == old_entries[j].1 by {
                assert(new_entries[j] == old_entries[j]);
            };
            lemma_replace_value(old_entries, new_entries, i as int, value);
        }
        prev
    }

    /// Insert or replace the value under `key`. Returns the previous value.
    pub fn insert(&mut self, key: String, value: V) -> (prev: Option<V>)
        ensures
            final(self)@ == old(self)@.insert(key@, value@),
            prev is None <==> !old(self)@.contains_key(key@),
            prev matches Some(p) ==> old(self)@.contains_key(key@) && p@ == old(self)@[key@],
    {
        proof { use_type_invariant(&*self); }
        match self.find(key.as_str()) {
            Some(i) => {
                let ghost old_map = self@;
                let ghost old_entries = self.entries@;
                proof { lemma_entry_in_map(old_entries, i as int); }
                let mut entries: Vec<(String, V)> = Vec::new();
        std::mem::swap(&mut entries, &mut self.entries);
                let (k, old_value) = entries.remove(i);
                entries.insert(i, (k, value));
                let ghost new_entries = entries@;
                assert(keys_distinct(new_entries)) by {
                    assert forall|a: int, b: int|
                        0 <= a < new_entries.len() && 0 <= b < new_entries.len() && a != b
                        implies #[trigger] new_entries[a].0@ != #[trigger] new_entries[b].0@ by {
                        assert(new_entries[a].0@ == old_entries[a].0@);
                        assert(new_entries[b].0@ == old_entries[b].0@);
                    };
                };
                self.entries = entries;
                proof {
                    assert forall|j: int| 0 <= j < new_entries.len() implies #[trigger] new_entries[j].0@
                        == old_entries[j].0@ by {};
                    lemma_replace_value(old_entries, new_entries, i as int, value);
                }
                Some(old_value)
            },
            None => {
                let ghost old_entries = self.entries@;
                let mut entries: Vec<(String, V)> = Vec::new();
        std::mem::swap(&mut entries, &mut self.entries);
                entries.push((key, value));
                let ghost new_entries = entries@;
                assert(keys_distinct(new_entries)) by {
                    assert forall|a: int, b: int|
                        0 <= a < new_entries.len() && 0 <= b < new_entries.len() && a != b
                        implies #[trigger] new_entries[a].0@ != #[trigger] new_entries[b].0@ by {
                        if a < old_entries.len() && b < old_entries.len() {
                            assert(new_entries[a] == old_entries[a]);
                            assert(new_entries[b] == old_entries[b]);
                        } else if a < old_entries.len() {
                            assert(new_entries[a] == old_entries[a]);
                            assert(!has_key(old_entries, new_entries[b].0@));
                        } else {
                            assert(new_entries[b] == old_entries[b]);
                            assert(!has_key(old_entries, new_entries[a].0@));
                        }
                    };
                };
                self.entries = entries;
                proof { lemma_push_entry(old_entries, new_entries); }
                None
            },
        }
    }

    /// Remove the entry for `key`, returning its value.
    pub fn remove(&mut self, key: &str) -> (prev: Option<V>)
        ensures
            final(self)@ == old(self)@.remove(key@),
            prev is None <==> !old(self)@.contains_key(key@),
            prev matches Some(p) ==> old(self)@.contains_key(key@) && p@ == old(self)@[key@],
    {
        proof { use_type_invariant(&*self); }
        match self.find(key) {
            Some(i) => {
                let ghost old_entries = self.entries@;
                proof { lemma_entry_in_map(old_entries, i as int); }
                let mut entries: Vec<(String, V)> = Vec::new();
        std::mem::swap(&mut entries, &mut self.entries);
                let (_k, v) = entries.remove(i);
                let ghost new_entries = entries@;
                assert(new_entries =~= old_entries.remove(i as int));
                assert(keys_distinct(new_entries)) by {
                    assert forall|a: int, b: int|
                        0 <= a < new_entries.len() && 0 <= b < new_entries.len() && a != b
                        implies #[trigger] new_entries[a].0@ != #[trigger] new_entries[b].0@ by {
                        let oa = if a < i { a } else { a + 1 };
                        let ob = if b < i { b } else { b + 1 };
                        assert(new_entries[a] == old_entries[oa]);
                        assert(new_entries[b] == old_entries[ob]);
                    };
                };
                self.entries = entries;
                proof { lemma_remove_entry(old_entries, i as int); }
                Some(v)
            },
            None => {
                proof {
                    assert(self@ =~= self@.remove(key@));
                }
                None
            },
        }
    }

    /// An equal copy of the map, entries in the same order.
    pub fn duplicate(&self) -> (r: NameMap<V>)
        where V: Duplicate,
        ensures
            r@ == self@,
            r.spec_entries().len() == self.spec_entries().len(),
            forall|i: int| 0 <= i < r.spec_entries().len() ==> (#[trigger] r.spec_entries()[i]).0@ == self.spec_entries()[i].0@
                && r.spec_entries()[i].1@ == self.spec_entries()[i].1@,
    {
        proof { use_type_invariant(self); }
        let mut entries: Vec<(String, V)> = Vec::new();
        let mut i: usize = 0;
        while i < self.entries.len()
            invariant
                i <= self.entries@.len(),
                keys_distinct(self.entries@),
                entries@.len() == i,
                forall|j: int| 0 <= j < i ==> (#[trigger] entries@[j]).0@ == self.entries@[j].0@
                    && entries@[j].1@ == self.entries@[j].1@,
            decreases self.entries@.len() - i,
        {
            let k = self.entries[i].0.clone();
            let v = self.entries[i].1.duplicate();
            entries.push((k, v));
            i = i + 1;
        }
        let r = NameMap { entries };
        proof {
            assert(keys_distinct(r.entries@)) by {
                assert forall|a: int, b: int|
                    0 <= a < r.entries@.len() && 0 <= b < r.entries@.len() && a != b
                    implies #[trigger] r.entries@[a].0@ != #[trigger] r.entries@[b].0@ by {
                    assert(r.entries@[a].0@ == self.entries@[a].0@);
                    assert(r.entries@[b].0@ == self.entries@[b].0@);
                };
            };
            assert forall|q: Seq<char>| #[trigger] has_key(r.entries@, q) == has_key(self.entries@, q) by {
                if has_key(r.entries@, q) {
                    let j = key_index(r.entries@, q);
                    assert(self.entries@[j].0@ == q);
                }
                if has_key(self.entries@, q) {
                    let j = key_index(self.entries@, q);
                    assert(r.entries@[j].0@ == q);
                }
            };
            assert forall|q: Seq<char>| has_key(r.entries@, q) implies entries_map(r.entries@)[q] == entries_map(self.entries@)[q] by {
                let j = key_index(r.entries@, q);
                lemma_entry_in_map(r.entries@, j);
                lemma_entry_in_map(self.entries@, j);
            };
            assert(r@ =~= self@);
        }
        r
    }

    /// The keys, in entry order.
    pub fn keys(&self) -> (r: Vec<String>)
        ensures
            r@.len() == self.spec_entries().len(),
            forall|i: int| 0 <= i < r@.len() ==> #[trigger] r@[i]@ == self.spec_entries()[i].0@,
    {
        let mut r: Vec<String> = Vec::new();
        let mut i: usize = 0;
        while i < self.entries.len()
            invariant
                i <= self.entries@.len(),
                r@.len() == i,
                forall|j: int| 0 <= j < i ==> #[trigger] r@[j]@ == self.entries@[j].0@,
            decreases self.entries@.len() - i,
        {
            r.push(self.entries[i].0.clone());
            i = i + 1;
        }
        r
    }
}

proof fn lemma_entries_dom<V: View>(entries: Seq<(String, V)>)
    requires
        keys_distinct(entries),
    ensures
        entries_map(entries).dom().finite(),
        entries_map(entries).len() == entries.len(),
    decreases entries.len(),
{
    if entries.len() == 0 {
        assert(entries_map(entries).dom() =~= Set::<Seq<char>>::empty());
    } else {
        let prefix = entries.drop_last();
        let last = entries.last();
        assert(keys_distinct(prefix)) by {
            assert forall|a: int, b: int|
                0 <= a < prefix.len() && 0 <= b < prefix.len() && a != b
                implies #[trigger] prefix[a].0@ != #[trigger] prefix[b].0@ by {
                assert(prefix[a] == entries[a]);
                assert(prefix[b] == entries[b]);
            };
        };
        lemma_entries_dom(prefix);
        assert(!has_key(prefix, last.0@)) by {
            if has_key(prefix, last.0@) {
                let j = key_index(prefix, last.0@);
                assert(entries[j].0@ == entries[entries.len() - 1].0@);
            }
        };
        assert(entries_map(entries).dom() =~= entries_map(prefix).dom().insert(last.0@)) by {
            assert forall|q: Seq<char>| #[trigger] has_key(entries, q) == (has_key(prefix, q) || q == last.0@) by {
                if has_key(entries, q) {
                    let j = key_index(entries, q);
                    if j < prefix.len() {
                        assert(prefix[j] == entries[j]);
                    }
                }
                if has_key(prefix, q) {
                    let j = key_index(prefix, q);
                    assert(prefix[j] == entries[j]);
                }
                if q == last.0@ {
                    assert(entries[entries.len() - 1].0@ == q);
                }
            };
        };
    }
}

proof fn lemma_replace_value<V: View>(old_entries: Seq<(String, V)>, new_entries: Seq<(String, V)>, i: int, value: V)
    requires
        keys_distinct(old_entries),
        keys_distinct(new_entries),
        0 <= i < old_entries.len(),
        new_entries.len() == old_entries.len(),
        forall|j: int| 0 <= j < new_entries.len() ==> #[trigger] new_entries[j].0@ == old_entries[j].0@,
        forall|j: int| 0 <= j < new_entries.len() && j != i ==> new_entries[j].1 == old_entries[j].1,
        new_entries[i].1 == value,
    ensures
        entries_map(new_entries) == entries_map(old_entries).insert(old_entries[i].0@, value@),
{
    let k = old_entries[i].0@;
    lemma_entry_in_map(new_entries, i);
    assert forall|q: Seq<char>| #[trigger] has_key(new_entries, q) == has_key(old_entries, q) by {
        if has_key(old_entries, q) {
            let j = key_index(old_entries, q);
            assert(new_entries[j].0@ == q);
        }
        if has_key(new_entries, q) {
            let j = key_index(new_entries, q);
            assert(old_entries[j].0@ == q);
        }
    };
    lemma_entry_in_map(old_entries, i);
    assert forall|q: Seq<char>| has_key(new_entries, q) && q != k
        implies entries_map(new_entries)[q] == entries_map(old_entries)[q] by {
        let j = key_index(new_entries, q);
        lemma_entry_in_map(new_entries, j);
        lemma_entry_in_map(old_entries, j);
    };
    assert(entries_map(new_entries) =~= entries_map(old_entries).insert(k, value@));
}

proof fn lemma_push_entry<V: View>(old_entries: Seq<(String, V)>, new_entries: Seq<(String, V)>)
    requires
        keys_distinct(old_entries),
        keys_distinct(new_entries),
        new_entries.len() == old_entries.len() + 1,
        forall|j: int| 0 <= j < old_entries.len() ==> new_entries[j] == old_entries[j],
    ensures
        entries_map(new_entries) == entries_map(old_entries).insert(
            new_entries[old_entries.len() as int].0@,
            new_entries[old_entries.len() as int].1@,
        ),
{
    let n = old_entries.len() as int;
    let k = new_entries[n].0@;
    lemma_entry_in_map(new_entries, n);
    assert forall|q: Seq<char>| #[trigger] has_key(new_entries, q) == (has_key(old_entries, q) || q == k) by {
        if has_key(old_entries, q) {
            let j = key_index(old_entries, q);
            assert(new_entries[j] == old_entries[j]);
        }
        if has_key(new_entries, q) && q != k {
            let j = key_index(new_entries, q);
            assert(j != n);
            assert(new_entries[j] == old_entries[j]);
        }
    };
    assert forall|q: Seq<char>| has_key(new_entries, q) && q != k
        implies entries_map(new_entries)[q] == entries_map(old_entries)[q] by {
        let j = key_index(new_entries, q);
        lemma_entry_in_map(new_entries, j);
        assert(j != n);
        assert(new_entries[j] == old_entries[j]);
        lemma_entry_in_map(old_entries, j);
    };
    assert(entries_map(new_entries) =~= entries_map(old_entries).insert(k, new_entries[n].1@));
}

proof fn lemma_remove_entry<V: View>(old_entries: Seq<(String, V)>, i: int)
    requires
        keys_distinct(old_entries),
        keys_distinct(old_entries.remove(i)),
        0 <= i < old_entries.len(),
    ensures
        entries_map(old_entries.remove(i)) == entries_map(old_entries).remove(old_entries[i].0@),
{
    let new_entries = old_entries.remove(i);
    let k = old_entries[i].0@;
    lemma_entry_in_map(old_entries, i);
    assert forall|q: Seq<char>| #[trigger] has_key(new_entries, q) == (has_key(old_entries, q) && q != k) by {
        if has_key(old_entries, q) && q != k {
            let j = key_index(old_entries, q);
            assert(j != i);
            let nj = if j < i { j } else { j - 1 };
            assert(new_entries[nj] == old_entries[j]);
        }
        if has_key(new_entries, q) {
            let j = key_index(new_entries, q);
            let oj = if j < i { j } else { j + 1 };
            assert(new_entries[j] == old_entries[oj]);
            assert(oj != i);
            assert(old_entries[oj].0@ != old_entries[i].0@);
        }
    };
    assert forall|q: Seq<char>| has_key(new_entries, q)
        implies entries_map(new_entries)[q] == entries_map(old_entries)[q] by {
        let j = key_index(new_entries, q);
        lemma_entry_in_map(new_entries, j);
        let oj = if j < i { j } else { j + 1 };
        assert(new_entries[j] == old_entries[oj]);
        lemma_entry_in_map(old_entries, oj);
    };
    assert(entries_map(new_entries) =~= entries_map(old_entries).remove(k));
}

} // verus!
