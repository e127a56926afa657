//! A small map over keys that are compared by what they stand for.

use vstd::prelude::*;

verus! {

/// A key of an [`AssocMap`]: two keys are the same exactly when their views are.
pub trait Key: View + Sized {
    fn same_key(&self, other: &Self) -> (same: bool)
        ensures
            same == (self@ == other@),
    ;
}

impl Key for String {
    fn same_key(&self, other: &Self) -> (same: bool) {
        *self == *other
    }
}

/// A map that holds at most one value for each key. The order in which the entries are stored
/// carries no meaning.
#[derive(Debug)]
pub struct AssocMap<K: Key, T> {
    entries: Vec<(K, T)>,
}

/// The keys of a list of entries, in its order.
pub open spec fn keys_of<K: Key, T>(entries: Seq<(K, T)>) -> Seq<K::V> {
    entries.map_values(|e: (K, T)| e.0@)
}

/// The map that a list of entries with distinct keys stands for.
pub open spec fn map_of<K: Key, T>(entries: Seq<(K, T)>) -> Map<K::V, T> {
    Map::new(
        |k: K::V| keys_of(entries).contains(k),
        |k: K::V| entries[keys_of(entries).index_of(k)].1,
    )
}

impl<K: Key, T> View for AssocMap<K, T> {
    type V = Map<K::V, T>;

    closed spec fn view(&self) -> Map<K::V, T> {
        map_of(self.entries@)
    }
}

/// Where the keys are distinct, each entry is found under its key.
pub proof fn lemma_map_of_entry<K: Key, T>(entries: Seq<(K, T)>, i: int)
    requires
        0 <= i < entries.len(),
        keys_of(entries).no_duplicates(),
    ensures
        map_of(entries).contains_key(entries[i].0@),
        map_of(entries)[entries[i].0@] == entries[i].1,
{
    assert(keys_of(entries)[i] == entries[i].0@);
}

/// An entry with a new key adds that key to the map.
proof fn lemma_map_of_push<K: Key, T>(entries: Seq<(K, T)>, entry: (K, T))
    requires
        keys_of(entries).no_duplicates(),
        !keys_of(entries).contains(entry.0@),
    ensures
        keys_of(entries.push(entry)).no_duplicates(),
        map_of(entries.push(entry)) == map_of(entries).insert(entry.0@, entry.1),
{
    let after = entries.push(entry);
    assert(keys_of(after) =~= keys_of(entries).push(entry.0@));
    lemma_map_of_entry(after, entries.len() as int);
    assert forall|q: K::V| #[trigger] map_of(after).contains_key(q) <==> map_of(entries).insert(
        entry.0@,
        entry.1,
    ).contains_key(q) by {
        if keys_of(entries).contains(q) {
            let j = keys_of(entries).index_of(q);
            assert(keys_of(after)[j] == q);
        }
    }
    assert forall|q: K::V| keys_of(entries).contains(q) implies #[trigger] map_of(after)[q]
        == map_of(entries)[q] by {
        let j = keys_of(entries).index_of(q);
        assert(keys_of(entries)[j] == q);
        lemma_map_of_entry(entries, j);
        lemma_map_of_entry(after, j);
    }
    assert(map_of(after) =~= map_of(entries).insert(entry.0@, entry.1));
}

/// Without one of its entries, a list stands for the map without that entry's key.
proof fn lemma_map_of_remove<K: Key, T>(entries: Seq<(K, T)>, i: int)
    requires
        0 <= i < entries.len(),
        keys_of(entries).no_duplicates(),
    ensures
        keys_of(entries.remove(i)).no_duplicates(),
        map_of(entries.remove(i)) == map_of(entries).remove(entries[i].0@),
{
    let after = entries.remove(i);
    let k = entries[i].0@;
    let keys = keys_of(entries);
    assert(keys_of(after) =~= keys.remove(i));
    assert(keys[i] == k);
    assert(keys_of(after).no_duplicates());
    assert forall|q: K::V| #[trigger] map_of(after).contains_key(q) <==> map_of(entries).remove(
        k,
    ).contains_key(q) by {
        if keys.contains(q) && q != k {
            let j = keys.index_of(q);
            assert(keys_of(after)[if j < i { j } else { j - 1 }] == q);
        }
        if keys_of(after).contains(q) {
            let j = keys_of(after).index_of(q);
            assert(keys[if j < i { j } else { j + 1 }] == q);
        }
    }
    assert forall|q: K::V| keys.contains(q) && q != k implies #[trigger] map_of(after)[q] == map_of(
        entries,
    )[q] by {
        let j = keys.index_of(q);
        assert(keys[j] == q);
        lemma_map_of_entry(entries, j);
        lemma_map_of_entry(after, if j < i { j } else { j - 1 });
    }
    assert(map_of(after) =~= map_of(entries).remove(k));
}

/// The map that a list of pairs makes when they are inserted in its order: of two pairs with one
/// key, the later stays.
pub open spec fn collected<A, B>(pairs: Seq<(A, B)>) -> Map<A, B>
    decreases pairs.len(),
{
    if pairs.len() == 0 {
        Map::empty()
    } else {
        collected(pairs.drop_last()).insert(pairs.last().0, pairs.last().1)
    }
}

/// The keys of a list of pairs, in its order.
pub open spec fn firsts<A, B>(pairs: Seq<(A, B)>) -> Seq<A> {
    pairs.map_values(|p: (A, B)| p.0)
}

/// A list of pairs makes a map of exactly its keys and, where they are distinct, each key has the
/// value that the list pairs it with.
pub proof fn lemma_collected<A, B>(pairs: Seq<(A, B)>)
    ensures
        forall|k: A| #[trigger] collected(pairs).contains_key(k) <==> firsts(pairs).contains(k),
        firsts(pairs).no_duplicates() ==> forall|i: int|
            0 <= i < pairs.len() ==> collected(pairs)[(#[trigger] pairs[i]).0] == pairs[i].1,
    decreases pairs.len(),
{
    if pairs.len() > 0 {
        let init = pairs.drop_last();
        lemma_collected(init);
        let n = pairs.len() - 1;
        assert(firsts(init) =~= firsts(pairs).drop_last());
        assert(firsts(pairs)[n] == pairs.last().0);
        assert forall|k: A| #[trigger] collected(pairs).contains_key(k) <==> firsts(
            pairs,
        ).contains(k) by {
            assert(collected(init).contains_key(k) <==> firsts(init).contains(k));
            if firsts(init).contains(k) {
                let j = firsts(init).index_of(k);
                assert(firsts(pairs)[j] == k);
            }
            if firsts(pairs).contains(k) && k != pairs.last().0 {
                let j = firsts(pairs).index_of(k);
                assert(firsts(init)[j] == k);
            }
        }
        if firsts(pairs).no_duplicates() {
            assert forall|i: int| 0 <= i < pairs.len() implies collected(pairs)[(
            #[trigger] pairs[i]).0] == pairs[i].1 by {
                if i < n {
                    assert(init[i] == pairs[i]);
                    assert(firsts(pairs)[i] == pairs[i].0);
                }
            }
        }
    }
}

impl<K: Key, T> AssocMap<K, T> {
    #[verifier::type_invariant]
    spec fn distinct_keys(self) -> bool {
        keys_of(self.entries@).no_duplicates()
    }

    pub fn new() -> (map: Self)
        ensures
            map@ == Map::<K::V, T>::empty(),
    {
        let map = AssocMap { entries: Vec::new() };
        assert(map@ =~= Map::<K::V, T>::empty());
        map
    }

    /// The position of the entry of a key.
    fn position(&self, key: &K) -> (found: Option<usize>)
        ensures
            match found {
                Some(i) => i < self.entries@.len() && self.entries@[i as int].0@ == key@,
                None => !keys_of(self.entries@).contains(key@),
            },
    {
        let mut i: usize = 0;
        while i < self.entries.len()
            invariant
                i <= self.entries@.len(),
                forall|j: int| 0 <= j < i ==> (#[trigger] self.entries@[j]).0@ != key@,
            decreases self.entries@.len() - i,
        {
            if self.entries[i].0.same_key(key) {
                return Some(i);
            }
            i += 1;
        }
        None
    }

    /// The value of a key.
    pub fn get(&self, key: &K) -> (value: Option<&T>)
        ensures
            match value {
                Some(t) => self@.contains_key(key@) && *t == self@[key@],
                None => !self@.contains_key(key@),
            },
    {
        match self.position(key) {
            Some(i) => {
                proof {
                    use_type_invariant(self);
                    lemma_map_of_entry(self.entries@, i as int);
                }
                Some(&self.entries[i].1)
            },
            None => None,
        }
    }

    /// Gives a key a value, in place of the one that it had.
    pub fn insert(&mut self, key: K, value: T)
        ensures
            final(self)@ == old(self)@.insert(key@, value),
    {
        proof {
            use_type_invariant(&*self);
        }
        let found = self.position(&key);
        let mut entries: Vec<(K, T)> = Vec::new();
        std::mem::swap(&mut entries, &mut self.entries);
        let ghost before = entries@;
        match found {
            Some(i) => {
                let ghost k = key@;
                entries.set(i, (key, value));
                proof {
                    assert(keys_of(entries@) =~= keys_of(before));
                    assert(map_of(entries@) =~= map_of(before).insert(k, value)) by {
                        assert(keys_of(before)[i as int] == k);
                        assert forall|q: K::V| keys_of(before).contains(q) implies map_of(
                            entries@,
                        )[q] == map_of(before).insert(k, value)[q] by {
                            let j = keys_of(before).index_of(q);
                            lemma_map_of_entry(before, j);
                            lemma_map_of_entry(entries@, j);
                            assert(keys_of(before)[j] == q);
                        }
                    }
                }
            },
            None => {
                entries.push((key, value));
                proof {
                    lemma_map_of_push(before, (key, value));
                }
            },
        }
        self.entries = entries;
    }

    /// Takes a key out of the map, with its value.
    pub fn remove(&mut self, key: &K) -> (value: Option<T>)
        ensures
            final(self)@ == old(self)@.remove(key@),
            match value {
                Some(t) => old(self)@.contains_key(key@) && t == old(self)@[key@],
                None => !old(self)@.contains_key(key@),
            },
    {
        proof {
            use_type_invariant(&*self);
        }
        match self.position(key) {
            Some(i) => {
                let mut entries: Vec<(K, T)> = Vec::new();
                std::mem::swap(&mut entries, &mut self.entries);
                let ghost before = entries@;
                let entry = entries.remove(i);
                proof {
                    lemma_map_of_remove(before, i as int);
                    lemma_map_of_entry(before, i as int);
                }
                self.entries = entries;
                Some(entry.1)
            },
            None => {
                assert(self@.remove(key@) =~= self@);
                None
            },
        }
    }

    /// How many keys the map holds.
    pub fn len(&self) -> (n: usize)
        ensures
            n == self@.len(),
    {
        proof {
            use_type_invariant(self);
            let keys = keys_of(self.entries@);
            keys.unique_seq_to_set();
            assert(self@.dom() =~= keys.to_set());
        }
        self.entries.len()
    }

    /// The entries of the map, each key once, in no particular order.
    pub fn entries(&self) -> (entries: &Vec<(K, T)>)
        ensures
            keys_of(entries@).no_duplicates(),
            map_of(entries@) == self@,
    {
        proof {
            use_type_invariant(self);
        }
        &self.entries
    }

    /// Takes the map apart into its entries, each key once, in no particular order.
    pub fn into_entries(self) -> (entries: Vec<(K, T)>)
        ensures
            keys_of(entries@).no_duplicates(),
            map_of(entries@) == self@,
    {
        proof {
            use_type_invariant(&self);
        }
        self.entries
    }
}

} // verus!
