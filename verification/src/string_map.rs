//! A map from names to values that keeps the order in which its keys came.

use vstd::prelude::*;
use crate::text::same_text;

verus! {

/// The keys of `entries`, in order.
pub open spec fn keys_of<V>(entries: Seq<(String, V)>) -> Seq<Seq<char>> {
    entries.map_values(|entry: (String, V)| entry.0@)
}

/// A map keyed by text. No key occurs twice; the entries keep the order in
/// which their keys were first inserted.
#[derive(Debug)]
pub struct StringMap<V> {
    entries: Vec<(String, V)>,
}

impl<V> View for StringMap<V> {
    type V = Map<Seq<char>, V>;

    /// What the map holds under each key.
    closed spec fn view(&self) -> Map<Seq<char>, V> {
        Map::new(
            |key: Seq<char>| keys_of(self.entries@).contains(key),
            |key: Seq<char>| self.entries@[keys_of(self.entries@).index_of(key)].1,
        )
    }
}

impl<V> StringMap<V> {
    #[verifier::type_invariant]
    spec fn distinct(self) -> bool {
        keys_of(self.entries@).no_duplicates()
    }

    /// The keys, in the order in which they were first inserted.
    pub closed spec fn keys(&self) -> Seq<Seq<char>> {
        keys_of(self.entries@)
    }

    /// The values, each at the place of its key in `keys`.
    pub closed spec fn values(&self) -> Seq<V> {
        self.entries@.map_values(|entry: (String, V)| entry.1)
    }

    /// An empty map.
    pub fn new() -> (map: Self)
        ensures
            map@ == Map::<Seq<char>, V>::empty(),
            map.keys() == Seq::<Seq<char>>::empty(),
    {
        let map = StringMap { entries: Vec::new() };
        assert(keys_of(map.entries@) =~= Seq::<Seq<char>>::empty());
        assert(map@ =~= Map::<Seq<char>, V>::empty());
        map
    }

    /// The keys are those under which the map holds a value.
    pub proof fn lemma_keys(&self)
        ensures
            forall|key: Seq<char>| self.keys().contains(key) <==> self@.contains_key(key),
            self.keys().len() == self.values().len(),
    {
    }

    /// How many entries the map holds.
    pub fn len(&self) -> (n: usize)
        ensures
            n == self.keys().len(),
            self.keys().no_duplicates(),
    {
        proof {
            use_type_invariant(self);
        }
        self.entries.len()
    }

    /// The entry at place `i` of the order of insertion, if there are so
    /// many.
    pub fn entry(&self, i: usize) -> (entry: Option<(&String, &V)>)
        ensures
            match entry {
                Some((key, value)) => {
                    &&& i < self.keys().len()
                    &&& key@ == self.keys()[i as int]
                    &&& *value == self.values()[i as int]
                    &&& self@.contains_key(key@)
                    &&& self@[key@] == *value
                },
                None => i >= self.keys().len(),
            },
    {
        if i >= self.entries.len() {
            return None;
        }
        proof {
            use_type_invariant(self);
            let keys = keys_of(self.entries@);
            assert(keys[i as int] == self.entries@[i as int].0@);
            assert(keys.contains(keys[i as int]));
            let at = keys.index_of(keys[i as int]);
            assert(at == i);
        }
        let pair = &self.entries[i];
        Some((&pair.0, &pair.1))
    }

    /// Where `key` stands among the entries, if it does.
    fn position(&self, key: &str) -> (at: Option<usize>)
        ensures
            match at {
                Some(i) => i < self.entries@.len() && keys_of(self.entries@)[i as int] == key@
                    && keys_of(self.entries@).index_of(key@) == i,
                None => !keys_of(self.entries@).contains(key@),
            },
    {
        proof {
            use_type_invariant(self);
        }
        let ghost keys = keys_of(self.entries@);
        let mut i: usize = 0;
        while i < self.entries.len()
            invariant
                i <= self.entries@.len(),
                keys == keys_of(self.entries@),
                keys.no_duplicates(),
                forall|j: int| 0 <= j < i ==> keys[j] != key@,
            decreases self.entries@.len() - i,
        {
            if same_text(self.entries[i].0.as_str(), key) {
                proof {
                    assert(keys[i as int] == key@);
                    assert(keys.contains(key@));
                    let at = keys.index_of(key@);
                    assert(at == i);
                }
                return Some(i);
            }
            i = i + 1;
        }
        None
    }

    /// Whether the map holds a value under `key`.
    pub fn contains_key(&self, key: &str) -> (held: bool)
        ensures
            held == self@.contains_key(key@),
    {
        self.position(key).is_some()
    }

    /// The value under `key`, if the map holds one.
    pub fn get(&self, key: &str) -> (value: Option<&V>)
        ensures
            match value {
                Some(v) => self@.contains_key(key@) && *v == self@[key@],
                None => !self@.contains_key(key@),
            },
    {
        match self.position(key) {
            Some(i) => Some(&self.entries[i].1),
            None => None,
        }
    }

    /// Puts `value` under `key` and returns what stood there before. A new key
    /// comes last in the order of the keys; a key that is held keeps its place.
    pub fn insert(&mut self, key: String, value: V) -> (before: Option<V>)
        ensures
            final(self)@ == old(self)@.insert(key@, value),
            match before {
                Some(v) => old(self)@.contains_key(key@) && v == old(self)@[key@]
                    && final(self).keys() == old(self).keys(),
                None => !old(self)@.contains_key(key@)
                    && final(self).keys() == old(self).keys().push(key@),
            },
    {
        let found = self.position(key.as_str());
        proof {
            use_type_invariant(&*self);
        }
        let mut entries: Vec<(String, V)> = Vec::new();
        assert(keys_of(entries@) =~= Seq::<Seq<char>>::empty());
        std::mem::swap(&mut self.entries, &mut entries);
        let ghost was = entries@;
        let before = match found {
            Some(i) => {
                entries.push((key, value));
                let old_pair = entries.swap_remove(i);
                proof {
                    assert(keys_of(entries@) =~= keys_of(was));
                }
                Some(old_pair.1)
            },
            None => {
                entries.push((key, value));
                proof {
                    assert(keys_of(entries@) =~= keys_of(was).push(key@));
                }
                None
            },
        };
        self.entries = entries;
        proof {
            let keys = keys_of(self.entries@);
            let old_keys = keys_of(was);
            assert forall|k: Seq<char>| #[trigger] self@.dom().contains(k) <==> old(self)@.insert(key@, value).dom().contains(k) by {
                if keys.contains(k) {
                    let j = choose|j: int| 0 <= j < keys.len() && keys[j] == k;
                    if j < old_keys.len() {
                        assert(old_keys[j] == k || k == key@);
                    }
                }
                if old_keys.contains(k) {
                    let j = choose|j: int| 0 <= j < old_keys.len() && old_keys[j] == k;
                    assert(keys[j] == k);
                }
                if k == key@ {
                    match found {
                        Some(i) => { assert(keys[i as int] == k); },
                        None => { assert(keys[keys.len() - 1] == k); },
                    }
                }
            }
            assert forall|k: Seq<char>| self@.dom().contains(k) implies #[trigger] self@[k] == old(self)@.insert(key@, value)[k] by {
                let j = keys.index_of(k);
                assert(0 <= j < keys.len() && keys[j] == k);
                if k == key@ {
                    match found {
                        Some(i) => { assert(keys[i as int] == k); assert(j == i); },
                        None => { assert(keys[keys.len() - 1] == k); assert(j == keys.len() - 1); },
                    }
                } else {
                    assert(j < old_keys.len());
                    assert(old_keys[j] == k);
                    assert(old_keys.contains(k));
                    assert(old_keys.index_of(k) == j);
                }
            }
            assert(self@ =~= old(self)@.insert(key@, value));
        }
        before
    }
}

} // verus!
