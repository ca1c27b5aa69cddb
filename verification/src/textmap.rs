//! A small map keyed by text, kept in insertion order.

use vstd::prelude::*;
use crate::text::same_text;

verus! {

#[derive(Debug, Clone)]
struct Entry<V> {
    key: String,
    value: V,
}

/// A map from text keys to values. No key occurs twice; an insertion under a key
/// that is present replaces its value in place.
#[derive(Debug)]
pub struct TextMap<V> {
    entries: Vec<Entry<V>>,
}

impl<V> View for TextMap<V> {
    type V = Map<Seq<char>, V>;

    closed spec fn view(&self) -> Map<Seq<char>, V> {
        Map::new(
            |key: Seq<char>| exists|i: int| self.holds_at(key, i),
            |key: Seq<char>| self.entries[choose|i: int| self.holds_at(key, i)].value,
        )
    }
}

impl<V> TextMap<V> {
    /// No two entries share a key.
    #[verifier::type_invariant]
    closed spec fn distinct_keys(self) -> bool {
        forall|i: int, j: int|
            0 <= i < j < self.entries.len() ==> self.entries[i].key@ != self.entries[j].key@
    }

    /// The entry at `i` is the one of `key`.
    closed spec fn holds_at(&self, key: Seq<char>, i: int) -> bool {
        0 <= i < self.entries.len() && self.entries[i].key@ == key
    }

    /// The keys of the entries, in their order.
    closed spec fn keys(&self) -> Seq<Seq<char>> {
        Seq::new(self.entries.len() as nat, |i: int| self.entries[i].key@)
    }

    /// With distinct keys the view has one key for each entry, and under it the
    /// entry's value.
    proof fn lemma_view(&self)
        requires
            self.distinct_keys(),
        ensures
            self@.dom() == self.keys().to_set(),
            self@.dom().finite(),
            self@.len() == self.entries.len(),
            forall|i: int|
                0 <= i < self.entries.len() ==> self@.contains_key(#[trigger] self.entries[i].key@)
                    && self@[self.entries[i].key@] == self.entries[i].value,
    {
        let keys = self.keys();
        assert forall|key: Seq<char>| self@.dom().contains(key) <==> keys.to_set().contains(
            key,
        ) by {
            if self@.dom().contains(key) {
                let i = choose|i: int| self.holds_at(key, i);
                assert(keys[i] == key);
            }
            if keys.to_set().contains(key) {
                let i = choose|i: int| 0 <= i < keys.len() && keys[i] == key;
                assert(self.holds_at(key, i));
            }
        }
        assert(self@.dom() =~= keys.to_set());
        vstd::seq_lib::seq_to_set_is_finite(keys);
        keys.unique_seq_to_set();
        assert forall|i: int| 0 <= i < self.entries.len() implies self@.contains_key(
            #[trigger] self.entries[i].key@,
        ) && self@[self.entries[i].key@] == self.entries[i].value by {
            let key = self.entries[i].key@;
            assert(self.holds_at(key, i));
            let j = choose|j: int| self.holds_at(key, j);
            assert(j == i);
        }
    }

    /// The empty map.
    pub fn new() -> (map: Self)
        ensures
            map@ == Map::<Seq<char>, V>::empty(),
    {
        let map = TextMap { entries: Vec::new() };
        assert(map@ =~= Map::<Seq<char>, V>::empty());
        map
    }

    /// The number of keys.
    pub fn len(&self) -> (len: usize)
        ensures
            self@.dom().finite(),
            len == self@.len(),
    {
        proof {
            use_type_invariant(self);
            self.lemma_view();
        }
        self.entries.len()
    }

    /// The key of the entry at `index`, counted in the order of first insertion.
    pub closed spec fn spec_key_at(&self, index: int) -> Seq<char> {
        self.entries[index].key@
    }

    /// The key of the entry at `index`, counted in the order of first insertion.
    pub fn key_at(&self, index: usize) -> (key: &String)
        requires
            index < self@.len(),
        ensures
            key@ == self.spec_key_at(index as int),
            self@.contains_key(key@),
    {
        proof {
            use_type_invariant(self);
            self.lemma_view();
        }
        &self.entries[index].key
    }

    /// The value of the entry at `index`, counted in the order of first insertion.
    pub fn value_at(&self, index: usize) -> (value: &V)
        requires
            index < self@.len(),
        ensures
            self@.contains_key(self.spec_key_at(index as int)),
            *value == self@[self.spec_key_at(index as int)],
    {
        proof {
            use_type_invariant(self);
            self.lemma_view();
        }
        &self.entries[index].value
    }

    fn position(&self, key: &str) -> (at: Option<usize>)
        ensures
            match at {
                Some(i) => self.holds_at(key@, i as int),
                None => !self@.contains_key(key@),
            },
    {
        let mut i: usize = 0;
        while i < self.entries.len()
            invariant
                i <= self.entries.len(),
                forall|k: int| 0 <= k < i ==> !self.holds_at(key@, k),
            decreases self.entries.len() - i,
        {
            if same_text(self.entries[i].key.as_str(), key) {
                return Some(i);
            }
            i += 1;
        }
        None
    }

    /// Whether `key` is present.
    pub fn contains_key(&self, key: &str) -> (present: bool)
        ensures
            present == self@.contains_key(key@),
    {
        match self.position(key) {
            Some(_) => true,
            None => false,
        }
    }

    /// The value under `key`, if it is present.
    pub fn get(&self, key: &str) -> (value: Option<&V>)
        ensures
            match value {
                Some(value) => self@.contains_key(key@) && *value == self@[key@],
                None => !self@.contains_key(key@),
            },
    {
        proof {
            use_type_invariant(self);
            self.lemma_view();
        }
        match self.position(key) {
            Some(i) => Some(&self.entries[i].value),
            None => None,
        }
    }

    /// Puts `value` under `key` and returns the value that was there before, if any.
    /// The entries keep their places; a new key comes last.
    pub fn insert(&mut self, key: String, value: V) -> (previous: Option<V>)
        ensures
            final(self)@ == old(self)@.insert(key@, value),
            previous == if old(self)@.contains_key(key@) {
                Some(old(self)@[key@])
            } else {
                None
            },
            forall|i: int|
                0 <= i < old(self)@.len() ==> final(self).spec_key_at(i) == old(self).spec_key_at(
                    i,
                ),
            !old(self)@.contains_key(key@) ==> final(self).spec_key_at(old(self)@.len() as int)
                == key@,
    {
        proof {
            use_type_invariant(&*self);
            self.lemma_view();
        }
        let ghost before = *self;
        let at = self.position(key.as_str());
        let mut entries: Vec<Entry<V>> = Vec::new();
        std::mem::swap(&mut self.entries, &mut entries);
        let previous = match at {
            Some(i) => {
                let entry = entries.remove(i);
                entries.insert(i, Entry { key, value });
                assert(entries@ =~= before.entries@.update(i as int, Entry { key, value }));
                assert(before.holds_at(key@, i as int));
                Some(entry.value)
            },
            None => {
                entries.push(Entry { key, value });
                assert forall|k: int| 0 <= k < before.entries.len() implies before.entries[k].key@
                    != key@ by {
                    assert(!before.holds_at(key@, k));
                }
                None
            },
        };
        self.entries = entries;
        proof {
            self.lemma_view();
            assert forall|k: Seq<char>| #[trigger]
                self@.contains_key(k) <==> before@.insert(key@, value).contains_key(k) by {
                if self@.contains_key(k) {
                    let j = choose|j: int| self.holds_at(k, j);
                    if k != key@ {
                        assert(before.holds_at(k, j));
                    }
                }
                if before@.contains_key(k) {
                    let j = choose|j: int| before.holds_at(k, j);
                    assert(self.holds_at(k, j));
                }
                if k == key@ {
                    match at {
                        Some(i) => {
                            assert(self.holds_at(k, i as int));
                        },
                        None => {
                            assert(self.holds_at(k, before.entries.len() as int));
                        },
                    }
                }
            }
            assert forall|k: Seq<char>| self@.contains_key(k) implies #[trigger] self@[k]
                == before@.insert(key@, value)[k] by {
                let j = choose|j: int| self.holds_at(k, j);
                assert(self@[k] == self.entries[j].value);
                if k != key@ {
                    assert(before.holds_at(k, j));
                    assert(before.entries[j].key@ == k);
                } else {
                    match at {
                        Some(i) => {
                            assert(self.holds_at(k, i as int));
                        },
                        None => {
                            assert(self.holds_at(k, before.entries.len() as int));
                        },
                    }
                }
            }
            assert(self@ =~= before@.insert(key@, value));
        }
        previous
    }
}

/// Of two values put under one key, the map keeps the later: it neither holds
/// both nor gains a second entry.
pub proof fn lemma_last_write_wins<V>(map: Map<Seq<char>, V>, key: Seq<char>, first: V, second: V)
    requires
        map.dom().finite(),
    ensures
        map.insert(key, first).insert(key, second) == map.insert(key, second),
        map.insert(key, first).insert(key, second)[key] == second,
        map.insert(key, first).insert(key, second).len() == map.insert(key, first).len(),
{
    assert(map.insert(key, first).insert(key, second) =~= map.insert(key, second));
    assert(map.insert(key, first).dom() =~= map.insert(key, second).dom());
}

impl<V: Clone> Clone for TextMap<V> {
    fn clone(&self) -> (copy: Self)
        ensures
            copy@.dom() == self@.dom(),
    {
        proof {
            use_type_invariant(self);
        }
        let mut entries: Vec<Entry<V>> = Vec::new();
        let mut i: usize = 0;
        while i < self.entries.len()
            invariant
                i <= self.entries.len(),
                entries.len() == i,
                forall|k: int| 0 <= k < i ==> entries[k].key@ == self.entries[k].key@,
            decreases self.entries.len() - i,
        {
            let entry = &self.entries[i];
            entries.push(Entry { key: entry.key.clone(), value: entry.value.clone() });
            i += 1;
        }
        let copy = TextMap { entries };
        proof {
            assert forall|key: Seq<char>| copy@.dom().contains(key) <==> self@.dom().contains(
                key,
            ) by {
                if copy@.dom().contains(key) {
                    let i = choose|i: int| copy.holds_at(key, i);
                    assert(self.holds_at(key, i));
                }
                if self@.dom().contains(key) {
                    let i = choose|i: int| self.holds_at(key, i);
                    assert(copy.holds_at(key, i));
                }
            }
            assert(copy@.dom() =~= self@.dom());
        }
        copy
    }
}

} // verus!
