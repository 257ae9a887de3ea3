//! A map from textual keys to values, the storage primitive of every pallet.

use vstd::prelude::*;

verus! {

/// No key occurs at two positions of `entries`.
spec fn keys_distinct<V>(entries: Seq<(String, V)>) -> bool {
    forall|i: int, j: int| 0 <= i < j < entries.len() ==> entries[i].0@ != entries[j].0@
}

/// Some position of `entries` holds `key`.
spec fn holds_key<V>(entries: Seq<(String, V)>, key: Seq<char>) -> bool {
    exists|i: int| 0 <= i < entries.len() && #[trigger] entries[i].0@ == key
}

/// A position of `entries` that holds `key`, if there is one.
spec fn position_of<V>(entries: Seq<(String, V)>, key: Seq<char>) -> int {
    choose|i: int| 0 <= i < entries.len() && #[trigger] entries[i].0@ == key
}

/// The mathematical map that `entries` stands for.
spec fn as_map<V: View>(entries: Seq<(String, V)>) -> Map<Seq<char>, V::V> {
    Map::new(
        |key: Seq<char>| holds_key(entries, key),
        |key: Seq<char>| entries[position_of(entries, key)].1@,
    )
}

/// With distinct keys, the entry at position `i` is the one its key maps to.
proof fn lemma_entry_is_mapped<V: View>(entries: Seq<(String, V)>, i: int)
    requires
        keys_distinct(entries),
        0 <= i < entries.len(),
    ensures
        holds_key(entries, entries[i].0@),
        position_of(entries, entries[i].0@) == i,
        as_map(entries).contains_key(entries[i].0@),
        as_map(entries)[entries[i].0@] == entries[i].1@,
{
    let key = entries[i].0@;
    assert(entries[i].0@ == key);
    let p = position_of(entries, key);
    assert(0 <= p < entries.len() && entries[p].0@ == key);
    if p < i {
        assert(entries[p].0@ != entries[i].0@);
    } else if i < p {
        assert(entries[i].0@ != entries[p].0@);
    }
}

/// Replacing the value at position `i` is an insertion under that position's key.
proof fn lemma_update_is_insert<V: View>(entries: Seq<(String, V)>, i: int, key: String, value: V)
    requires
        keys_distinct(entries),
        0 <= i < entries.len(),
        entries[i].0@ == key@,
    ensures
        keys_distinct(entries.update(i, (key, value))),
        as_map(entries.update(i, (key, value))) == as_map(entries).insert(key@, value@),
{
    let updated = entries.update(i, (key, value));
    assert(keys_distinct(updated)) by {
        assert forall|a: int, b: int| 0 <= a < b < updated.len() implies updated[a].0@
            != updated[b].0@ by {
            assert(entries[a].0@ != entries[b].0@);
        }
    }
    assert forall|k: Seq<char>| holds_key(updated, k) <==> (k == key@ || holds_key(entries, k)) by {
        if holds_key(updated, k) {
            let p = position_of(updated, k);
            assert(entries[p].0@ == k);
        }
        if holds_key(entries, k) {
            let p = position_of(entries, k);
            assert(updated[p].0@ == k);
        }
        if k == key@ {
            assert(updated[i].0@ == k);
        }
    }
    assert forall|k: Seq<char>| holds_key(updated, k) implies #[trigger] as_map(updated)[k]
        == as_map(entries).insert(key@, value@)[k] by {
        let p = position_of(updated, k);
        lemma_entry_is_mapped(updated, p);
        if p != i {
            assert(entries[p].0@ == k);
            lemma_entry_is_mapped(entries, p);
        }
    }
    assert(as_map(updated) =~= as_map(entries).insert(key@, value@));
}

/// Appending an entry under a key that is not held is an insertion.
proof fn lemma_push_is_insert<V: View>(entries: Seq<(String, V)>, key: String, value: V)
    requires
        keys_distinct(entries),
        !holds_key(entries, key@),
    ensures
        keys_distinct(entries.push((key, value))),
        as_map(entries.push((key, value))) == as_map(entries).insert(key@, value@),
{
    let pushed = entries.push((key, value));
    let last = entries.len() as int;
    assert(keys_distinct(pushed)) by {
        assert forall|a: int, b: int| 0 <= a < b < pushed.len() implies pushed[a].0@
            != pushed[b].0@ by {
            if b == last {
                assert(entries[a].0@ != key@);
            } else {
                assert(entries[a].0@ != entries[b].0@);
            }
        }
    }
    assert forall|k: Seq<char>| holds_key(pushed, k) <==> (k == key@ || holds_key(entries, k)) by {
        if holds_key(pushed, k) {
            let p = position_of(pushed, k);
            if p != last {
                assert(entries[p].0@ == k);
            }
        }
        if holds_key(entries, k) {
            let p = position_of(entries, k);
            assert(pushed[p].0@ == k);
        }
        if k == key@ {
            assert(pushed[last].0@ == k);
        }
    }
    assert forall|k: Seq<char>| holds_key(pushed, k) implies #[trigger] as_map(pushed)[k]
        == as_map(entries).insert(key@, value@)[k] by {
        let p = position_of(pushed, k);
        lemma_entry_is_mapped(pushed, p);
        if p != last {
            assert(entries[p].0@ == k);
            lemma_entry_is_mapped(entries, p);
        }
    }
    assert(as_map(pushed) =~= as_map(entries).insert(key@, value@));
}

/// Dropping the entry at position `i` removes that position's key.
proof fn lemma_remove_is_remove<V: View>(entries: Seq<(String, V)>, i: int)
    requires
        keys_distinct(entries),
        0 <= i < entries.len(),
    ensures
        keys_distinct(entries.remove(i)),
        as_map(entries.remove(i)) == as_map(entries).remove(entries[i].0@),
{
    let rest = entries.remove(i);
    let key = entries[i].0@;
    assert(keys_distinct(rest)) by {
        assert forall|a: int, b: int| 0 <= a < b < rest.len() implies rest[a].0@ != rest[b].0@ by {
            let first = if a < i { a } else { a + 1 };
            let second = if b < i { b } else { b + 1 };
            assert(rest[a] == entries[first]);
            assert(rest[b] == entries[second]);
            assert(entries[first].0@ != entries[second].0@);
        }
    }
    assert forall|k: Seq<char>| holds_key(rest, k) <==> (k != key && holds_key(entries, k)) by {
        if holds_key(rest, k) {
            let p = position_of(rest, k);
            let source = if p < i { p } else { p + 1 };
            assert(rest[p] == entries[source]);
            assert(entries[source].0@ == k);
            if source < i {
                assert(entries[source].0@ != entries[i].0@);
            } else {
                assert(entries[i].0@ != entries[source].0@);
            }
        }
        if k != key && holds_key(entries, k) {
            let p = position_of(entries, k);
            let q = if p < i { p } else { p - 1 };
            assert(rest[q] == entries[p]);
            assert(rest[q].0@ == k);
        }
    }
    assert forall|k: Seq<char>| holds_key(rest, k) implies #[trigger] as_map(rest)[k] == as_map(
        entries,
    ).remove(key)[k] by {
        let p = position_of(rest, k);
        let source = if p < i { p } else { p + 1 };
        assert(rest[p] == entries[source]);
        lemma_entry_is_mapped(rest, p);
        lemma_entry_is_mapped(entries, source);
    }
    assert(as_map(rest) =~= as_map(entries).remove(key));
}

/// A finite map keyed by strings. Keys are told apart by their text: two
/// strings with the same characters name the same entry.
#[derive(Debug)]
pub struct StorageMap<V> {
    entries: Vec<(String, V)>,
}

impl<V> StorageMap<V> {
    #[verifier::type_invariant]
    spec fn well_formed(self) -> bool {
        keys_distinct(self.entries@)
    }
}

impl<V: View> View for StorageMap<V> {
    type V = Map<Seq<char>, V::V>;

    closed spec fn view(&self) -> Map<Seq<char>, V::V> {
        as_map(self.entries@)
    }
}

/// The position of `key` among `entries`, if it is held.
fn find<V>(entries: &Vec<(String, V)>, key: &String) -> (r: Option<usize>)
    ensures
        match r {
            Some(i) => i < entries@.len() && entries@[i as int].0@ == key@,
            None => !holds_key(entries@, key@),
        },
{
    let mut i: usize = 0;
    while i < entries.len()
        invariant
            i <= entries@.len(),
            forall|j: int| 0 <= j < i ==> entries@[j].0@ != key@,
        decreases entries@.len() - i,
    {
        if entries[i].0 == *key {
            return Some(i);
        }
        i += 1;
    }
    None
}

impl<V: View> StorageMap<V> {
    /// An empty map.
    pub fn new() -> (r: Self)
        ensures
            r@ == Map::<Seq<char>, V::V>::empty(),
    {
        let r = StorageMap { entries: Vec::new() };
        assert(r@ =~= Map::<Seq<char>, V::V>::empty());
        r
    }

    /// Whether `key` has an entry.
    pub fn contains_key(&self, key: &String) -> (r: bool)
        ensures
            r == self@.contains_key(key@),
    {
        find(&self.entries, key).is_some()
    }

    /// The value stored under `key`, if any.
    pub fn get(&self, key: &String) -> (r: Option<&V>)
        ensures
            match r {
                Some(value) => self@.contains_key(key@) && self@[key@] == value@,
                None => !self@.contains_key(key@),
            },
    {
        proof {
            use_type_invariant(self);
        }
        match find(&self.entries, key) {
            Some(i) => {
                proof {
                    lemma_entry_is_mapped(self.entries@, i as int);
                }
                Some(&self.entries[i].1)
            },
            None => None,
        }
    }

    /// Stores `value` under `key`, replacing what was stored there before.
    pub fn insert(&mut self, key: String, value: V)
        ensures
            final(self)@ == old(self)@.insert(key@, value@),
    {
        proof {
            use_type_invariant(&*self);
        }
        let mut entries: Vec<(String, V)> = Vec::new();
        std::mem::swap(&mut entries, &mut self.entries);
        match find(&entries, &key) {
            Some(i) => {
                proof {
                    lemma_update_is_insert(entries@, i as int, key, value);
                }
                entries.set(i, (key, value));
            },
            None => {
                proof {
                    lemma_push_is_insert(entries@, key, value);
                }
                entries.push((key, value));
            },
        }
        self.entries = entries;
    }

    /// Drops the entry of `key` and returns the value it held, if any.
    pub fn remove(&mut self, key: &String) -> (r: Option<V>)
        ensures
            final(self)@ == old(self)@.remove(key@),
            match r {
                Some(value) => old(self)@.contains_key(key@) && old(self)@[key@] == value@,
                None => !old(self)@.contains_key(key@),
            },
    {
        proof {
            use_type_invariant(&*self);
        }
        let mut entries: Vec<(String, V)> = Vec::new();
        std::mem::swap(&mut entries, &mut self.entries);
        let r = match find(&entries, key) {
            Some(i) => {
                proof {
                    lemma_entry_is_mapped(entries@, i as int);
                    lemma_remove_is_remove(entries@, i as int);
                }
                let entry = entries.remove(i);
                Some(entry.1)
            },
            None => {
                assert(as_map(entries@).remove(key@) =~= as_map(entries@));
                None
            },
        };
        self.entries = entries;
        r
    }
}

} // verus!
