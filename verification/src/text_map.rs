//! A map keyed by text that can hand out its entries.
use vstd::hash_map::StringHashMap;
use vstd::prelude::*;
use vstd::string::*;

verus! {

/// Entries under distinct keys, and where each key's stands.
pub struct TextMap<V> {
    places: StringHashMap<usize>,
    entries: Vec<(String, V)>,
}

impl<V> TextMap<V> {
    /// Each key has a place, and its entry stands there.
    pub closed spec fn wf(self) -> bool {
        &&& forall|key: Seq<char>| #[trigger]
            self.places@.dom().contains(key) ==> self.places@[key] < self.entries@.len()
                && self.entries@[self.places@[key] as int].0@ == key
        &&& forall|i: int|
            0 <= i < self.entries@.len() ==> self.places@.dom().contains(
                (#[trigger] self.entries@[i]).0@,
            ) && self.places@[self.entries@[i].0@] == i
    }

    pub fn new() -> (map: Self)
        ensures
            map.wf(),
            map@ == Map::<Seq<char>, V>::empty(),
    {
        let map = TextMap { places: StringHashMap::new(), entries: Vec::new() };
        assert(map@ =~= Map::<Seq<char>, V>::empty());
        map
    }

    /// The value under a key, if there is one.
    pub fn get(&self, key: &str) -> (value: Option<&V>)
        requires
            self.wf(),
        ensures
            match value {
                Some(v) => self@.dom().contains(key@) && *v == self@[key@],
                None => !self@.dom().contains(key@),
            },
    {
        match self.places.get(key) {
            Some(i) => Some(&self.entries[*i].1),
            None => None,
        }
    }

    /// Puts a value under a key, over the one that was there.
    pub fn insert(&mut self, key: String, value: V)
        requires
            old(self).wf(),
        ensures
            final(self).wf(),
            final(self)@ == old(self)@.insert(key@, value),
    {
        let ghost before = *self;
        let ghost name = key@;
        let at: Option<usize> = match self.places.get(key.as_str()) {
            Some(i) => Some(*i),
            None => None,
        };
        match at {
            Some(i) => {
                let entry = &mut self.entries[i];
                entry.1 = value;
                assert(forall|j: int|
                    0 <= j < before.entries@.len() ==> (#[trigger] self.entries@[j]).0
                        == before.entries@[j].0);
            },
            None => {
                self.places.insert(key.clone(), self.entries.len());
                self.entries.push((key, value));
            },
        }
        assert(self@ =~= before@.insert(name, value));
    }

    /// Puts a value under a key that has none yet.
    pub fn insert_new(&mut self, key: String, value: V)
        requires
            old(self).wf(),
        ensures
            final(self).wf(),
            final(self)@ == (if old(self)@.dom().contains(key@) {
                old(self)@
            } else {
                old(self)@.insert(key@, value)
            }),
    {
        let known = self.get(key.as_str()).is_some();
        if !known {
            self.insert(key, value);
        }
    }

    /// Empties the map.
    pub fn clear(&mut self)
        ensures
            final(self).wf(),
            final(self)@ == Map::<Seq<char>, V>::empty(),
    {
        *self = TextMap::new();
    }

    /// Empties the map into a list of its entries.
    pub fn drain(&mut self) -> (list: Vec<(String, V)>)
        requires
            old(self).wf(),
        ensures
            final(self).wf(),
            final(self)@ == Map::<Seq<char>, V>::empty(),
            lists(list@, old(self)@),
    {
        let ghost before = *self;
        let mut other = TextMap::new();
        std::mem::swap(&mut other, self);
        proof {
            assert forall|key: Seq<char>| #[trigger]
                before@.dom().contains(key) implies exists|i: int|
                0 <= i < other.entries@.len() && (#[trigger] other.entries@[i]).0@ == key by {
                let i = before.places@[key] as int;
                assert(other.entries@[i].0@ == key);
            }
        }
        other.entries
    }
}

/// A list holds each entry of a map once.
pub open spec fn lists<V>(list: Seq<(String, V)>, map: Map<Seq<char>, V>) -> bool {
    &&& forall|i: int, j: int|
        0 <= i < j < list.len() ==> (#[trigger] list[i]).0@ != (#[trigger] list[j]).0@
    &&& forall|i: int|
        0 <= i < list.len() ==> map.dom().contains((#[trigger] list[i]).0@) && map[list[i].0@]
            == list[i].1
    &&& forall|key: Seq<char>| #[trigger]
        map.dom().contains(key) ==> exists|i: int|
            0 <= i < list.len() && (#[trigger] list[i]).0@ == key
}

impl<V> View for TextMap<V> {
    type V = Map<Seq<char>, V>;

    closed spec fn view(&self) -> Map<Seq<char>, V> {
        Map::new(
            |key: Seq<char>| self.places@.dom().contains(key),
            |key: Seq<char>| self.entries@[self.places@[key] as int].1,
        )
    }
}

impl<V: Copy> TextMap<V> {
    /// Lets `key` stand for what stands under `other`, if anything does.
    pub fn alias(&mut self, key: &str, other: &str)
        requires
            old(self).wf(),
        ensures
            final(self).wf(),
            final(self)@ == (if old(self)@.dom().contains(other@) {
                old(self)@.insert(key@, old(self)@[other@])
            } else {
                old(self)@
            }),
    {
        let found: Option<V> = match self.get(other) {
            Some(v) => Some(*v),
            None => None,
        };
        if let Some(v) = found {
            self.insert(key.to_owned(), v);
        }
    }
}

} // verus!
