//! A map with text keys that can be walked in the order in which the keys came.

use crate::remote::listing::{enumerates, lists_entries};
use vstd::hash_map::StringHashMap;
use vstd::prelude::*;

verus! {

/// The entries in the order in which their keys first came, and the position of
/// each key among them.
struct Slots<V> {
    entries: Vec<(String, V)>,
    positions: StringHashMap<usize>,
}

impl<V> Slots<V> {
    spec fn well_formed(self) -> bool {
        &&& self.positions@.dom().finite()
        &&& forall|i: int|
            0 <= i < self.entries@.len() ==> self.positions@.contains_key(
                #[trigger] self.entries@[i].0@,
            ) && self.positions@[self.entries@[i].0@] == i
        &&& forall|key: Seq<char>| #[trigger]
            self.positions@.contains_key(key) ==> self.positions@[key] < self.entries@.len()
                && self.entries@[self.positions@[key] as int].0@ == key
    }

    spec fn as_map(self) -> Map<Seq<char>, V> {
        Map::new(
            |key: Seq<char>| self.positions@.contains_key(key),
            |key: Seq<char>| self.entries@[self.positions@[key] as int].1,
        )
    }

    fn new() -> (slots: Slots<V>)
        ensures
            slots.well_formed(),
            slots.as_map() == Map::<Seq<char>, V>::empty(),
    {
        let slots = Slots { entries: Vec::new(), positions: StringHashMap::new() };
        assert(slots.as_map() =~= Map::<Seq<char>, V>::empty());
        slots
    }

    fn insert(&mut self, key: String, value: V)
        requires
            old(self).well_formed(),
        ensures
            final(self).well_formed(),
            final(self).as_map() == old(self).as_map().insert(key@, value),
    {
        let ghost before = *self;
        let ghost added = key@;
        let found: Option<&usize> = self.positions.get(key.as_str());
        match found {
            Some(position) => {
                let position: usize = *position;
                self.entries.set(position, (key, value));
            },
            None => {
                let position: usize = self.entries.len();
                self.positions.insert(key.clone(), position);
                self.entries.push((key, value));
            },
        }
        assert(self.well_formed());
        assert(self.as_map() =~= before.as_map().insert(added, value));
    }
}

/// A map from text to values.
pub struct TextMap<V> {
    slots: Slots<V>,
}

impl<V> View for TextMap<V> {
    type V = Map<Seq<char>, V>;

    closed spec fn view(&self) -> Map<Seq<char>, V> {
        self.slots.as_map()
    }
}

/// The entries, with their keys as sequences of characters.
pub open spec fn text_entries<V>(entries: Seq<(String, V)>) -> Seq<(Seq<char>, V)> {
    Seq::new(entries.len(), |i: int| (entries[i].0@, entries[i].1))
}

impl<V> TextMap<V> {
    #[verifier::type_invariant]
    spec fn well_formed(self) -> bool {
        self.slots.well_formed()
    }

    /// An empty map.
    pub fn new() -> (map: TextMap<V>)
        ensures
            map@ == Map::<Seq<char>, V>::empty(),
    {
        TextMap { slots: Slots::new() }
    }

    /// Puts `value` under `key`, in place of what was there.
    pub fn insert(&mut self, key: String, value: V)
        ensures
            final(self)@ == old(self)@.insert(key@, value),
    {
        proof {
            use_type_invariant(&*self);
        }
        let mut slots = Slots::new();
        std::mem::swap(&mut slots, &mut self.slots);
        slots.insert(key, value);
        self.slots = slots;
    }

    /// The value under `key`.
    pub fn get(&self, key: &str) -> (value: Option<&V>)
        ensures
            value == (if self@.contains_key(key@) {
                Some(&self@[key@])
            } else {
                None
            }),
    {
        proof {
            use_type_invariant(self);
        }
        match self.slots.positions.get(key) {
            Some(position) => Some(&self.slots.entries[*position].1),
            None => None,
        }
    }

    /// The number of keys.
    pub fn len(&self) -> (len: usize)
        ensures
            self@.dom().finite(),
            len == self@.len(),
    {
        proof {
            use_type_invariant(self);
            assert(self@.dom() =~= self.slots.positions@.dom());
        }
        self.slots.positions.len()
    }

    /// Whether there is no key.
    pub fn is_empty(&self) -> (empty: bool)
        ensures
            empty == self@.is_empty(),
    {
        proof {
            assert(self@.dom() =~= self.slots.positions@.dom());
        }
        self.slots.positions.is_empty()
    }

    /// The entries, in the order in which their keys first came.
    pub fn entries(&self) -> (entries: &Vec<(String, V)>)
        ensures
            lists_entries(text_entries(entries@), self@),
    {
        let entries = &self.slots.entries;
        proof {
            use_type_invariant(self);
            let keys = Seq::new(entries@.len(), |i: int| entries@[i].0@);
            assert(keys.no_duplicates()) by {
                assert forall|i: int, j: int|
                    0 <= i < keys.len() && 0 <= j < keys.len() && i != j implies keys[i]
                    != keys[j] by {
                    assert(self.slots.positions@[entries@[i].0@] == i);
                    assert(self.slots.positions@[entries@[j].0@] == j);
                }
            }
            assert forall|key: Seq<char>| #[trigger] keys.to_set().contains(key)
                <==> self@.contains_key(key) by {
                if keys.contains(key) {
                    let i = choose|i: int| 0 <= i < keys.len() && keys[i] == key;
                    assert(self.slots.positions@.contains_key(entries@[i].0@));
                }
                if self@.contains_key(key) {
                    let i = self.slots.positions@[key] as int;
                    assert(keys[i] == key);
                }
            }
            assert(keys.to_set() =~= self@.dom());
            assert(enumerates(keys, self@.dom()));
            assert(text_entries(entries@) =~= keys.map_values(|key: Seq<char>| (key, self@[key])));
        }
        entries
    }
}

} // verus!
