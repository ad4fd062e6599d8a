//! A small map from strings to strings, kept as a list of entries with
//! distinct keys.

use vstd::prelude::*;

verus! {

/// A map from strings to strings.
#[derive(Debug)]
pub struct TextMap {
    /// The entries, key and value, no key twice.
    entries: Vec<(String, String)>,
}

/// The keys of a run of entries, in its order.
spec fn keys_of(entries: Seq<(String, String)>) -> Seq<Seq<char>> {
    entries.map_values(|e: (String, String)| e.0@)
}

/// The map that a run of entries with distinct keys stands for.
spec fn map_of(entries: Seq<(String, String)>) -> Map<Seq<char>, Seq<char>> {
    Map::new(
        |k: Seq<char>| keys_of(entries).contains(k),
        |k: Seq<char>| entries[keys_of(entries).index_of(k)].1@,
    )
}

/// In a run of entries with distinct keys each entry is the one that its key
/// finds.
proof fn lemma_entry(entries: Seq<(String, String)>, i: int)
    requires
        keys_of(entries).no_duplicates(),
        0 <= i < entries.len(),
    ensures
        keys_of(entries).contains(entries[i].0@),
        keys_of(entries).index_of(entries[i].0@) == i,
        map_of(entries).contains_key(entries[i].0@),
        map_of(entries)[entries[i].0@] == entries[i].1@,
{
    let keys = keys_of(entries);
    assert(keys[i] == entries[i].0@);
    let at = keys.index_of(entries[i].0@);
    assert(keys[at] == keys[i]);
}

/// A key of the map is the key of one of the entries.
proof fn lemma_key(entries: Seq<(String, String)>, key: Seq<char>) -> (i: int)
    requires
        map_of(entries).contains_key(key),
    ensures
        0 <= i < entries.len(),
        entries[i].0@ == key,
{
    let keys = keys_of(entries);
    let i = keys.index_of(key);
    assert(keys[i] == key);
    i
}

/// An entry with a new key, put at the end, gives its key its value and
/// leaves the other keys as they were.
proof fn lemma_entry_added(entries: Seq<(String, String)>, entry: (String, String))
    requires
        keys_of(entries).no_duplicates(),
        !map_of(entries).contains_key(entry.0@),
    ensures
        keys_of(entries.push(entry)).no_duplicates(),
        map_of(entries.push(entry)) == map_of(entries).insert(entry.0@, entry.1@),
{
    let after = entries.push(entry);
    assert forall|a: int, b: int|
        0 <= a < after.len() && 0 <= b < after.len() && a != b implies keys_of(after)[a]
        != keys_of(after)[b] by {
        if a < entries.len() {
            lemma_entry(entries, a);
        }
        if b < entries.len() {
            lemma_entry(entries, b);
        }
    }
    assert forall|k: Seq<char>|
        map_of(after).contains_key(k) <==> map_of(entries).insert(
            entry.0@,
            entry.1@,
        ).contains_key(k) by {
        if map_of(after).contains_key(k) {
            let i = lemma_key(after, k);
            if i < entries.len() {
                lemma_entry(entries, i);
            }
        }
        if map_of(entries).contains_key(k) {
            let i = lemma_key(entries, k);
            lemma_entry(after, i);
        }
        lemma_entry(after, entries.len() as int);
    }
    assert forall|k: Seq<char>| map_of(after).contains_key(k) implies map_of(after)[k]
        == map_of(entries).insert(entry.0@, entry.1@)[k] by {
        let i = lemma_key(after, k);
        lemma_entry(after, i);
        if i < entries.len() {
            lemma_entry(entries, i);
        }
    }
    assert(map_of(after) =~= map_of(entries).insert(entry.0@, entry.1@));
}

/// An entry put in the place of one with the same key gives the key its new
/// value and leaves the other keys as they were.
proof fn lemma_entry_replaced(entries: Seq<(String, String)>, i: int, entry: (String, String))
    requires
        keys_of(entries).no_duplicates(),
        0 <= i < entries.len(),
        entries[i].0@ == entry.0@,
    ensures
        keys_of(entries.update(i, entry)).no_duplicates(),
        map_of(entries.update(i, entry)) == map_of(entries).insert(entry.0@, entry.1@),
{
    let after = entries.update(i, entry);
    assert(keys_of(after) =~= keys_of(entries));
    lemma_entry(entries, i);
    assert forall|k: Seq<char>| map_of(after).contains_key(k) implies map_of(after)[k]
        == map_of(entries).insert(entry.0@, entry.1@)[k] by {
        let a = lemma_key(after, k);
        lemma_entry(after, a);
        lemma_entry(entries, a);
    }
    assert(map_of(after) =~= map_of(entries).insert(entry.0@, entry.1@));
}

/// Without one of its entries, a run of entries lacks the key of that entry
/// and leaves the other keys as they were.
proof fn lemma_entry_removed(entries: Seq<(String, String)>, i: int)
    requires
        keys_of(entries).no_duplicates(),
        0 <= i < entries.len(),
    ensures
        keys_of(entries.remove(i)).no_duplicates(),
        map_of(entries.remove(i)) == map_of(entries).remove(entries[i].0@),
{
    let after = entries.remove(i);
    assert forall|a: int| 0 <= a < after.len() implies after[a] == entries[if a < i {
        a
    } else {
        a + 1
    }] by {}
    assert forall|a: int, b: int|
        0 <= a < after.len() && 0 <= b < after.len() && a != b implies keys_of(after)[a]
        != keys_of(after)[b] by {
        lemma_entry(entries, if a < i { a } else { a + 1 });
        lemma_entry(entries, if b < i { b } else { b + 1 });
    }
    lemma_entry(entries, i);
    assert forall|k: Seq<char>|
        map_of(after).contains_key(k) <==> map_of(entries).remove(entries[i].0@).contains_key(
            k,
        ) by {
        if map_of(after).contains_key(k) {
            let a = lemma_key(after, k);
            lemma_entry(entries, if a < i { a } else { a + 1 });
        }
        if map_of(entries).contains_key(k) && k != entries[i].0@ {
            let b = lemma_key(entries, k);
            lemma_entry(after, if b < i { b } else { b - 1 });
        }
    }
    assert forall|k: Seq<char>| map_of(after).contains_key(k) implies map_of(after)[k]
        == map_of(entries).remove(entries[i].0@)[k] by {
        let a = lemma_key(after, k);
        lemma_entry(after, a);
        lemma_entry(entries, if a < i { a } else { a + 1 });
    }
    assert(map_of(after) =~= map_of(entries).remove(entries[i].0@));
}

impl View for TextMap {
    type V = Map<Seq<char>, Seq<char>>;

    /// The value of each key.
    closed spec fn view(&self) -> Map<Seq<char>, Seq<char>> {
        map_of(self.entries@)
    }
}

impl Clone for TextMap {
    /// The same entries in a map of their own.
    fn clone(&self) -> (copy: TextMap)
        ensures
            copy@ == self@,
    {
        proof {
            use_type_invariant(self);
        }
        let mut entries: Vec<(String, String)> = Vec::new();
        let mut i: usize = 0;
        while i < self.entries.len()
            invariant
                i <= self.entries@.len(),
                entries@.len() == i,
                forall|k: int|
                    0 <= k < i ==> (#[trigger] entries@[k]).0@ == self.entries@[k].0@
                        && entries@[k].1@ == self.entries@[k].1@,
            decreases self.entries@.len() - i,
        {
            entries.push((self.entries[i].0.clone(), self.entries[i].1.clone()));
            i += 1;
        }
        assert(keys_of(entries@) =~= keys_of(self.entries@));
        let copy = TextMap { entries };
        assert(copy@ =~= self@);
        copy
    }
}

impl TextMap {
    #[verifier::type_invariant]
    spec fn distinct_keys(self) -> bool {
        keys_of(self.entries@).no_duplicates()
    }

    /// A map without entries.
    pub fn new() -> (map: TextMap)
        ensures
            map@ == Map::<Seq<char>, Seq<char>>::empty(),
    {
        let map = TextMap { entries: Vec::new() };
        assert(map@ =~= Map::<Seq<char>, Seq<char>>::empty());
        map
    }

    /// Where the entry of `key` stands, if there is one.
    fn find(&self, key: &String) -> (found: Option<usize>)
        ensures
            match found {
                Some(i) => i < self.entries@.len() && self.entries@[i as int].0@ == key@
                    && self@.contains_key(key@) && self@[key@] == self.entries@[i as int].1@,
                None => !self@.contains_key(key@),
            },
    {
        proof {
            use_type_invariant(self);
        }
        let mut i: usize = 0;
        while i < self.entries.len()
            invariant
                i <= self.entries@.len(),
                keys_of(self.entries@).no_duplicates(),
                forall|k: int| 0 <= k < i ==> keys_of(self.entries@)[k] != key@,
            decreases self.entries@.len() - i,
        {
            if self.entries[i].0 == *key {
                proof {
                    lemma_entry(self.entries@, i as int);
                }
                return Some(i);
            }
            i += 1;
        }
        None
    }

    /// The value of `key`, if it has one.
    pub fn get(&self, key: &str) -> (value: Option<&String>)
        ensures
            match value {
                Some(v) => self@.contains_key(key@) && self@[key@] == v@,
                None => !self@.contains_key(key@),
            },
    {
        let wanted: String = key.to_owned();
        match self.find(&wanted) {
            Some(i) => Some(&self.entries[i].1),
            None => None,
        }
    }

    /// Whether `key` has a value.
    pub fn contains_key(&self, key: &str) -> (present: bool)
        ensures
            present == self@.contains_key(key@),
    {
        self.get(key).is_some()
    }

    /// The entries of the map, key and value, each key once.
    pub fn entries(&self) -> (pairs: Vec<(String, String)>)
        ensures
            forall|i: int|
                0 <= i < pairs@.len() ==> self@.contains_key((#[trigger] pairs@[i]).0@)
                    && self@[pairs@[i].0@] == pairs@[i].1@,
            forall|k: Seq<char>|
                self@.contains_key(k) ==> exists|i: int|
                    0 <= i < pairs@.len() && (#[trigger] pairs@[i]).0@ == k,
            forall|i: int, j: int|
                0 <= i < pairs@.len() && 0 <= j < pairs@.len() && i != j ==> (
                #[trigger] pairs@[i]).0@ != (#[trigger] pairs@[j]).0@,
    {
        proof {
            use_type_invariant(self);
        }
        let mut pairs: Vec<(String, String)> = Vec::new();
        let mut i: usize = 0;
        while i < self.entries.len()
            invariant
                i <= self.entries@.len(),
                pairs@.len() == i,
                forall|k: int|
                    0 <= k < i ==> (#[trigger] pairs@[k]).0@ == self.entries@[k].0@
                        && pairs@[k].1@ == self.entries@[k].1@,
            decreases self.entries@.len() - i,
        {
            pairs.push((self.entries[i].0.clone(), self.entries[i].1.clone()));
            i += 1;
        }
        proof {
            assert forall|k: int| 0 <= k < pairs@.len() implies self@.contains_key(
                (#[trigger] pairs@[k]).0@,
            ) && self@[pairs@[k].0@] == pairs@[k].1@ by {
                lemma_entry(self.entries@, k);
            }
            assert forall|key: Seq<char>| self@.contains_key(key) implies exists|k: int|
                0 <= k < pairs@.len() && (#[trigger] pairs@[k]).0@ == key by {
                let at = lemma_key(self.entries@, key);
                assert(pairs@[at].0@ == key);
            }
            assert forall|a: int, b: int|
                0 <= a < pairs@.len() && 0 <= b < pairs@.len() && a != b implies (
            #[trigger] pairs@[a]).0@ != (#[trigger] pairs@[b]).0@ by {
                lemma_entry(self.entries@, a);
                lemma_entry(self.entries@, b);
            }
        }
        pairs
    }

    /// Whether the map has no entry.
    pub fn is_empty(&self) -> (empty: bool)
        ensures
            empty == (self@ == Map::<Seq<char>, Seq<char>>::empty()),
    {
        let empty: bool = self.entries.len() == 0;
        proof {
            if empty {
                assert(self@ =~= Map::<Seq<char>, Seq<char>>::empty());
            } else {
                use_type_invariant(self);
                lemma_entry(self.entries@, 0);
            }
        }
        empty
    }

    /// Gives `key` the value `value`, and returns the value that it had.
    pub fn insert(&mut self, key: String, value: String) -> (previous: Option<String>)
        ensures
            final(self)@ == old(self)@.insert(key@, value@),
            match previous {
                Some(was) => old(self)@.contains_key(key@) && old(self)@[key@] == was@,
                None => !old(self)@.contains_key(key@),
            },
    {
        proof {
            use_type_invariant(&*self);
        }
        let ghost before: Seq<(String, String)> = self.entries@;
        let found: Option<usize> = self.find(&key);
        let mut entries: Vec<(String, String)> = Vec::new();
        std::mem::swap(&mut self.entries, &mut entries);
        let previous: Option<String> = match found {
            Some(i) => {
                let mut held: String = value;
                std::mem::swap(&mut entries[i].1, &mut held);
                proof {
                    assert(entries@ =~= before.update(i as int, (before[i as int].0, value)));
                    lemma_entry_replaced(before, i as int, (before[i as int].0, value));
                }
                Some(held)
            },
            None => {
                entries.push((key, value));
                proof {
                    lemma_entry_added(before, (key, value));
                }
                None
            },
        };
        std::mem::swap(&mut self.entries, &mut entries);
        previous
    }

    /// Takes the entry of `key` out of the map, and returns the value that
    /// `key` had.
    pub fn remove(&mut self, key: &str) -> (previous: Option<String>)
        ensures
            final(self)@ == old(self)@.remove(key@),
            match previous {
                Some(was) => old(self)@.contains_key(key@) && old(self)@[key@] == was@,
                None => !old(self)@.contains_key(key@),
            },
    {
        proof {
            use_type_invariant(&*self);
        }
        let ghost before: Seq<(String, String)> = self.entries@;
        let wanted: String = key.to_owned();
        match self.find(&wanted) {
            Some(i) => {
                let mut entries: Vec<(String, String)> = Vec::new();
                std::mem::swap(&mut self.entries, &mut entries);
                let entry: (String, String) = entries.remove(i);
                proof {
                    lemma_entry_removed(before, i as int);
                }
                std::mem::swap(&mut self.entries, &mut entries);
                Some(entry.1)
            },
            None => {
                assert(self@ =~= old(self)@.remove(key@));
                None
            },
        }
    }
}

} // verus!
