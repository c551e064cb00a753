//! A map keyed by names, kept as a vector of entries in which no name occurs
//! twice. Inserting a name that is already present replaces its value.

use vstd::prelude::*;

verus! {

/// Entries keyed by distinct names, in the order in which names were first inserted.
pub struct NameMap<V: View> {
    entries: Vec<(String, V)>,
}

impl<V: View> NameMap<V> {
    /// The names of the entries, in order.
    pub closed spec fn keys(&self) -> Seq<Seq<char>> {
        self.entries@.map_values(|e: (String, V)| e.0@)
    }

    /// No name occurs twice.
    #[verifier::type_invariant]
    closed spec fn names_distinct(&self) -> bool {
        self.keys().no_duplicates()
    }

    closed spec fn slot(&self, k: Seq<char>) -> int {
        choose|i: int| 0 <= i < self.keys().len() && self.keys()[i] == k
    }

    /// The map from each name to the view of its value.
    pub closed spec fn as_map(&self) -> Map<Seq<char>, V::V> {
        Map::new(
            |k: Seq<char>| self.keys().contains(k),
            |k: Seq<char>| self.entries@[self.slot(k)].1@,
        )
    }

    proof fn lemma_slot(&self, i: int)
        requires
            self.keys().no_duplicates(),
            0 <= i < self.keys().len(),
        ensures
            self.slot(self.keys()[i]) == i,
            self.as_map().contains_key(self.keys()[i]),
            self.as_map()[self.keys()[i]] == self.entries@[i].1@,
    {
        let k = self.keys()[i];
        assert(self.keys().contains(k));
        let j = self.slot(k);
        assert(0 <= j < self.keys().len() && self.keys()[j] == k);
    }

    proof fn lemma_keys(&self)
        requires
            self.keys().no_duplicates(),
        ensures
            self.keys().to_set() == self.as_map().dom(),
            self.keys().len() == self.as_map().len(),
    {
        assert(self.keys().to_set() =~= self.as_map().dom());
        self.keys().unique_seq_to_set();
    }

    /// An empty map.
    pub fn new() -> (m: Self)
        ensures
            m.as_map() == Map::<Seq<char>, V::V>::empty(),
            m.keys().len() == 0,
    {
        let m = NameMap { entries: Vec::new() };
        assert(m.as_map() =~= Map::<Seq<char>, V::V>::empty());
        m
    }

    /// The number of entries; the keys are distinct and are exactly the names of the map.
    pub fn len(&self) -> (n: usize)
        ensures
            n == self.keys().len(),
            n == self.as_map().len(),
            self.keys().no_duplicates(),
            self.keys().to_set() == self.as_map().dom(),
    {
        proof {
            use_type_invariant(self);
            self.lemma_keys();
        }
        self.entries.len()
    }

    /// The `i`-th entry, in insertion order of the names.
    pub fn entry(&self, i: usize) -> (e: (&String, &V))
        requires
            i < self.keys().len(),
        ensures
            e.0@ == self.keys()[i as int],
            self.as_map().contains_key(e.0@),
            self.as_map()[e.0@] == e.1@,
    {
        proof {
            use_type_invariant(self);
            self.lemma_slot(i as int);
        }
        let e = &self.entries[i];
        (&e.0, &e.1)
    }

    fn find(&self, name: &String) -> (r: Option<usize>)
        ensures
            match r {
                Some(i) => i < self.keys().len() && self.keys()[i as int] == name@,
                None => !self.keys().contains(name@),
            },
    {
        let mut i: usize = 0;
        while i < self.entries.len()
            invariant
                i <= self.entries@.len(),
                forall|j: int| 0 <= j < i ==> self.keys()[j] != name@,
            decreases self.entries@.len() - i,
        {
            if self.entries[i].0 == *name {
                return Some(i);
            }
            i = i + 1;
        }
        None
    }

    /// The value stored under `name`, if any.
    pub fn get(&self, name: &String) -> (r: Option<&V>)
        ensures
            match r {
                Some(v) => self.as_map().contains_key(name@) && self.as_map()[name@] == v@,
                None => !self.as_map().contains_key(name@),
            },
    {
        proof { use_type_invariant(self); }
        match self.find(name) {
            Some(i) => {
                proof { self.lemma_slot(i as int); }
                Some(&self.entries[i].1)
            },
            None => None,
        }
    }

    /// Stores `value` under `name`, replacing what was stored there before.
    pub fn insert(&mut self, name: String, value: V)
        ensures
            final(self).as_map() == old(self).as_map().insert(name@, value@),
    {
        proof { use_type_invariant(&*self); }
        let ghost old_self = *self;
        let ghost k = name@;
        let ghost v = value@;
        match self.find(&name) {
            Some(i) => {
                let mut entries: Vec<(String, V)> = Vec::new();
                std::mem::swap(&mut entries, &mut self.entries);
                entries.set(i, (name, value));
                proof {
                    assert(entries@.map_values(|e: (String, V)| e.0@) =~= old_self.keys());
                }
                self.entries = entries;
                proof {
                    assert(self.keys() =~= old_self.keys());
                    assert forall|key: Seq<char>|
                        #[trigger] self.as_map().contains_key(key)
                            == old_self.as_map().insert(k, v).contains_key(key) by {}
                    assert forall|key: Seq<char>| self.as_map().contains_key(key) implies
                        #[trigger] self.as_map()[key] == old_self.as_map().insert(k, v)[key] by {
                        let j = self.slot(key);
                        self.lemma_slot(j);
                        if key != k {
                            old_self.lemma_slot(j);
                        }
                    }
                    assert(self.as_map() =~= old_self.as_map().insert(k, v));
                }
            },
            None => {
                let mut entries: Vec<(String, V)> = Vec::new();
                std::mem::swap(&mut entries, &mut self.entries);
                entries.push((name, value));
                proof {
                    assert(entries@.map_values(|e: (String, V)| e.0@) =~= old_self.keys().push(k));
                }
                self.entries = entries;
                proof {
                    assert(self.keys() =~= old_self.keys().push(k));
                    let n = old_self.keys().len() as int;
                    assert forall|key: Seq<char>|
                        #[trigger] self.as_map().contains_key(key)
                            == old_self.as_map().insert(k, v).contains_key(key) by {
                        if old_self.keys().contains(key) {
                            let j = choose|j: int| 0 <= j < n && old_self.keys()[j] == key;
                            assert(self.keys()[j] == key);
                        }
                        if key == k {
                            assert(self.keys()[n] == key);
                        }
                    }
                    assert forall|key: Seq<char>| self.as_map().contains_key(key) implies
                        #[trigger] self.as_map()[key] == old_self.as_map().insert(k, v)[key] by {
                        let j = self.slot(key);
                        self.lemma_slot(j);
                        if key != k {
                            assert(j < n);
                            old_self.lemma_slot(j);
                        }
                    }
                    assert(self.as_map() =~= old_self.as_map().insert(k, v));
                }
            },
        }
    }
}

impl<V: View> View for NameMap<V> {
    type V = Map<Seq<char>, V::V>;

    open spec fn view(&self) -> Map<Seq<char>, V::V> {
        self.as_map()
    }
}

} // verus!
