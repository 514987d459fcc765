//! A map keyed by strings, kept as a list of entries with distinct keys.

use vstd::prelude::*;

verus! {

/// No key occurs in two entries.
pub open spec fn keys_distinct<V>(entries: Seq<(String, V)>) -> bool {
    forall|i: int, j: int|
        0 <= i < entries.len() && 0 <= j < entries.len() && i != j ==> #[trigger] entries[i].0@
            != #[trigger] entries[j].0@
}

/// Some entry has the key `key`.
pub open spec fn has_key<V>(entries: Seq<(String, V)>, key: Seq<char>) -> bool {
    exists|i: int| 0 <= i < entries.len() && #[trigger] entries[i].0@ == key
}

/// The map that a list of entries with distinct keys stands for.
pub open spec fn entries_map<V>(entries: Seq<(String, V)>) -> Map<Seq<char>, V> {
    Map::new(
        |key: Seq<char>| has_key(entries, key),
        |key: Seq<char>|
            entries[choose|i: int| 0 <= i < entries.len() && #[trigger] entries[i].0@ == key].1,
    )
}

/// A map from strings to values.
///
/// A `std::collections::HashMap` keyed by `String` comes with no specification
/// from which even its length after one insert follows, so the map is kept as
/// a list of entries whose keys are distinct, and its view is the map they
/// stand for.
#[derive(Debug)]
pub struct StringMap<V> {
    entries: Vec<(String, V)>,
}

impl<V> View for StringMap<V> {
    type V = Map<Seq<char>, V>;

    closed spec fn view(&self) -> Map<Seq<char>, V> {
        entries_map(self.entries@)
    }
}

/// In a list of entries with distinct keys, the entry at `i` gives the value of
/// its key.
proof fn lemma_entry_value<V>(entries: Seq<(String, V)>, i: int)
    requires
        keys_distinct(entries),
        0 <= i < entries.len(),
    ensures
        entries_map(entries).contains_key(entries[i].0@),
        entries_map(entries)[entries[i].0@] == entries[i].1,
{
    let key = entries[i].0@;
    assert(has_key(entries, key));
    let j = choose|j: int| 0 <= j < entries.len() && #[trigger] entries[j].0@ == key;
    assert(entries[j].0@ == key);
}

impl<V> StringMap<V> {
    /// The entries have distinct keys.
    #[verifier::type_invariant]
    spec fn well_formed(self) -> bool {
        keys_distinct(self.entries@)
    }

    /// The empty map.
    pub fn new() -> (r: StringMap<V>)
        ensures
            r@ == Map::<Seq<char>, V>::empty(),
    {
        let r = StringMap { entries: Vec::new() };
        assert(r@ =~= Map::<Seq<char>, V>::empty());
        r
    }

    /// The number of keys in the map.
    pub fn len(&self) -> (r: usize)
        ensures
            r == self@.len(),
    {
        proof {
            use_type_invariant(self);
            self.lemma_len();
        }
        self.entries.len()
    }

    proof fn lemma_len(&self)
        requires
            keys_distinct(self.entries@),
        ensures
            self@.dom().finite(),
            self@.len() == self.entries@.len(),
    {
        let entries = self.entries@;
        let keys = entries.map_values(|e: (String, V)| e.0@);
        assert forall|i: int, j: int| 0 <= i < keys.len() && 0 <= j < keys.len() && i != j implies keys[i]
            != keys[j] by {
            assert(entries[i].0@ != entries[j].0@);
        }
        keys.unique_seq_to_set();
        assert(self@.dom() =~= keys.to_set()) by {
            assert forall|k: Seq<char>| self@.dom().contains(k) implies keys.to_set().contains(k) by {
                let i = choose|i: int| 0 <= i < entries.len() && #[trigger] entries[i].0@ == k;
                assert(keys[i] == k);
            }
            assert forall|k: Seq<char>| keys.to_set().contains(k) implies self@.dom().contains(k) by {
                let i = choose|i: int| 0 <= i < keys.len() && keys[i] == k;
                assert(entries[i].0@ == k);
            }
        }
    }

    /// The value of `key`, if the map has that key.
    pub fn get(&self, key: &str) -> (r: Option<&V>)
        ensures
            self@.contains_key(key@) ==> r == Some(&self@[key@]),
            !self@.contains_key(key@) ==> r is None,
    {
        proof {
            use_type_invariant(self);
        }
        let wanted = key.to_owned();
        let mut i: usize = 0;
        while i < self.entries.len()
            invariant
                wanted@ == key@,
                keys_distinct(self.entries@),
                i <= self.entries@.len(),
                forall|j: int| 0 <= j < i ==> #[trigger] self.entries@[j].0@ != key@,
            decreases self.entries@.len() - i,
        {
            if self.entries[i].0 == wanted {
                proof {
                    lemma_entry_value(self.entries@, i as int);
                }
                return Some(&self.entries[i].1);
            }
            i = i + 1;
        }
        None
    }

    /// Sets the value of `key` to `value`, replacing the value it had.
    pub fn insert(&mut self, key: String, value: V)
        ensures
            final(self)@ == old(self)@.insert(key@, value),
    {
        proof {
            use_type_invariant(&*self);
        }
        let mut entries = Vec::new();
        std::mem::swap(&mut entries, &mut self.entries);
        let ghost before = entries@;
        match find_key(&entries, &key) {
            Some(pos) => {
                entries.set(pos, (key, value));
                proof {
                    assert(entries@ == before.update(pos as int, (key, value)));
                    assert forall|k: Seq<char>|
                        #![auto]
                        entries_map(entries@).dom().contains(k) == entries_map(
                            before,
                        ).insert(key@, value).dom().contains(k) by {
                        if has_key(before, k) {
                            let i = choose|i: int|
                                0 <= i < before.len() && #[trigger] before[i].0@ == k;
                            assert(entries@[i].0@ == k);
                        }
                        if has_key(entries@, k) {
                            let i = choose|i: int|
                                0 <= i < entries@.len() && #[trigger] entries@[i].0@ == k;
                            assert(before[i].0@ == k);
                        }
                    }
                    assert forall|k: Seq<char>|
                        #![auto]
                        entries_map(entries@).dom().contains(k) implies entries_map(entries@)[k]
                        == entries_map(before).insert(key@, value)[k] by {
                        let i = choose|i: int|
                            0 <= i < entries@.len() && #[trigger] entries@[i].0@ == k;
                        lemma_entry_value(entries@, i);
                        if k != key@ {
                            assert(before[i].0@ == k);
                            lemma_entry_value(before, i);
                        }
                    }
                    assert(entries_map(entries@) =~= entries_map(before).insert(key@, value));
                }
            },
            None => {
                entries.push((key, value));
                proof {
                    let n = before.len() as int;
                    assert(entries@ == before.push((key, value)));
                    assert forall|i: int, j: int|
                        0 <= i < entries@.len() && 0 <= j < entries@.len() && i != j implies #[trigger] entries@[i].0@
                        != #[trigger] entries@[j].0@ by {
                        if i < n && j < n {
                            assert(before[i].0@ != before[j].0@);
                        }
                    }
                    assert forall|k: Seq<char>|
                        #![auto]
                        entries_map(entries@).dom().contains(k) == entries_map(
                            before,
                        ).insert(key@, value).dom().contains(k) by {
                        if has_key(before, k) {
                            let i = choose|i: int|
                                0 <= i < before.len() && #[trigger] before[i].0@ == k;
                            assert(entries@[i].0@ == k);
                        }
                        if k == key@ {
                            assert(entries@[n].0@ == k);
                        }
                        if has_key(entries@, k) {
                            let i = choose|i: int|
                                0 <= i < entries@.len() && #[trigger] entries@[i].0@ == k;
                            if i < n {
                                assert(before[i].0@ == k);
                            }
                        }
                    }
                    assert forall|k: Seq<char>|
                        #![auto]
                        entries_map(entries@).dom().contains(k) implies entries_map(entries@)[k]
                        == entries_map(before).insert(key@, value)[k] by {
                        let i = choose|i: int|
                            0 <= i < entries@.len() && #[trigger] entries@[i].0@ == k;
                        lemma_entry_value(entries@, i);
                        if i < n {
                            assert(before[i].0@ == k);
                            lemma_entry_value(before, i);
                        }
                    }
                    assert(entries_map(entries@) =~= entries_map(before).insert(key@, value));
                }
            },
        }
        self.entries = entries;
    }

    /// Gives up the map and returns its entries, each key once.
    pub fn into_entries(self) -> (r: Vec<(String, V)>)
        ensures
            keys_distinct(r@),
            entries_map(r@) == self@,
    {
        proof {
            use_type_invariant(&self);
        }
        self.entries
    }
}

impl<V: Clone> Clone for StringMap<V> {
    /// A map with the same keys, each value cloned.
    fn clone(&self) -> (r: Self)
        ensures
            r@.dom() == self@.dom(),
            forall|k: Seq<char>| #[trigger] r@.contains_key(k) ==> cloned(self@[k], r@[k]),
    {
        proof {
            use_type_invariant(self);
        }
        let mut entries: Vec<(String, V)> = Vec::new();
        let mut i: usize = 0;
        while i < self.entries.len()
            invariant
                keys_distinct(self.entries@),
                i <= self.entries@.len(),
                entries@.len() == i,
                forall|j: int| 0 <= j < i ==> #[trigger] entries@[j].0 == self.entries@[j].0,
                forall|j: int|
                    0 <= j < i ==> cloned(self.entries@[j].1, #[trigger] entries@[j].1),
            decreases self.entries@.len() - i,
        {
            let key = self.entries[i].0.clone();
            let value = self.entries[i].1.clone();
            entries.push((key, value));
            i = i + 1;
        }
        proof {
            assert forall|a: int, b: int|
                0 <= a < entries@.len() && 0 <= b < entries@.len() && a != b implies #[trigger] entries@[a].0@
                != #[trigger] entries@[b].0@ by {
                assert(self.entries@[a].0@ != self.entries@[b].0@);
            }
            assert forall|k: Seq<char>| has_key(entries@, k) == has_key(self.entries@, k) by {
                if has_key(entries@, k) {
                    let a = choose|a: int| 0 <= a < entries@.len() && #[trigger] entries@[a].0@ == k;
                    assert(self.entries@[a].0@ == k);
                }
                if has_key(self.entries@, k) {
                    let a = choose|a: int|
                        0 <= a < self.entries@.len() && #[trigger] self.entries@[a].0@ == k;
                    assert(entries@[a].0@ == k);
                }
            }
            assert(entries_map(entries@).dom() =~= entries_map(self.entries@).dom());
            assert forall|k: Seq<char>| #[trigger]
                entries_map(entries@).contains_key(k) implies cloned(
                entries_map(self.entries@)[k],
                entries_map(entries@)[k],
            ) by {
                let a = choose|a: int| 0 <= a < entries@.len() && #[trigger] entries@[a].0@ == k;
                lemma_entry_value(entries@, a);
                assert(self.entries@[a].0@ == k);
                lemma_entry_value(self.entries@, a);
            }
        }
        StringMap { entries }
    }
}

/// The position of the entry with key `key`, if there is one.
fn find_key<V>(entries: &Vec<(String, V)>, key: &String) -> (r: Option<usize>)
    ensures
        r matches Some(i) ==> i < entries@.len() && entries@[i as int].0@ == key@,
        r is None ==> forall|j: int| 0 <= j < entries@.len() ==> #[trigger] entries@[j].0@ != key@,
{
    let mut i: usize = 0;
    while i < entries.len()
        invariant
            i <= entries@.len(),
            forall|j: int| 0 <= j < i ==> #[trigger] entries@[j].0@ != key@,
        decreases entries@.len() - i,
    {
        if entries[i].0 == *key {
            return Some(i);
        }
        i = i + 1;
    }
    None
}

} // verus!
