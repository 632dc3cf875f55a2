//! A map keyed by names that remembers the order in which its names arrived.

use crate::names::distinct;
use crate::names::holds;
use crate::names::lemma_position;
use crate::names::position;
use crate::names::position_from;
use crate::text::same_text;
use vstd::prelude::*;

verus! {

/// A map from names to values. No name occurs twice; a name keeps the place at which it was
/// first inserted.
#[derive(Debug)]
pub struct NameMap<V> {
    keys: Vec<String>,
    values: Vec<V>,
}

/// The texts of a list of strings.
pub open spec fn texts(strings: Seq<String>) -> Seq<Seq<char>> {
    Seq::new(strings.len(), |i: int| strings[i]@)
}

/// The map that sends each of `names` to the value at its position.
pub open spec fn as_map<V>(names: Seq<Seq<char>>, values: Seq<V>) -> Map<Seq<char>, V> {
    Map::new(|k: Seq<char>| holds(names, k), |k: Seq<char>| values[position(names, k).unwrap()])
}

/// Giving a new name a value adds one entry to the map of the names and values before.
pub proof fn lemma_as_map_push<V>(names: Seq<Seq<char>>, values: Seq<V>, name: Seq<char>, value: V)
    requires
        names.len() == values.len(),
        !holds(names, name),
    ensures
        as_map(names.push(name), values.push(value)) == as_map(names, values).insert(name, value),
{
    let grown = as_map(names.push(name), values.push(value));
    let inserted = as_map(names, values).insert(name, value);
    assert forall|k: Seq<char>| grown.dom().contains(k) <==> inserted.dom().contains(k) by {
        crate::names::lemma_position_push(names, name, k);
    }
    assert forall|k: Seq<char>| grown.dom().contains(k) implies #[trigger] grown[k]
        == inserted[k] by {
        crate::names::lemma_position_push(names, name, k);
        lemma_position(names, k);
    }
    assert(grown =~= inserted);
}

impl<V> NameMap<V> {
    /// The names, in the order in which they were first inserted.
    pub closed spec fn names(&self) -> Seq<Seq<char>> {
        texts(self.keys@)
    }

    /// The values, in the order of their names.
    pub closed spec fn values(&self) -> Seq<V> {
        self.values@
    }

    /// One value per name, and no name twice. Every map is well formed.
    #[verifier::type_invariant]
    pub open spec fn well_formed(&self) -> bool {
        &&& self.names().len() == self.values().len()
        &&& distinct(self.names())
    }

    /// The mapping from each name to its value.
    pub open spec fn view(&self) -> Map<Seq<char>, V> {
        as_map(self.names(), self.values())
    }

    /// The map without names.
    pub fn new() -> (m: NameMap<V>)
        ensures
            m.names() == Seq::<Seq<char>>::empty(),
            m.values() == Seq::<V>::empty(),
            m@ == Map::<Seq<char>, V>::empty(),
            m.well_formed(),
    {
        let m = NameMap { keys: Vec::new(), values: Vec::new() };
        proof {
            assert(m.names() =~= Seq::<Seq<char>>::empty());
            assert(m@ =~= Map::<Seq<char>, V>::empty());
        }
        m
    }

    /// The number of names.
    pub fn len(&self) -> (n: usize)
        ensures
            n == self.names().len(),
            self.well_formed(),
    {
        proof {
            use_type_invariant(self);
        }
        self.keys.len()
    }

    /// The name at `index`.
    pub fn name_at(&self, index: usize) -> (name: &String)
        requires
            index < self.names().len(),
        ensures
            name@ == self.names()[index as int],
            self.well_formed(),
    {
        proof {
            use_type_invariant(self);
        }
        &self.keys[index]
    }

    /// The value at `index`.
    pub fn value_at(&self, index: usize) -> (value: &V)
        requires
            index < self.names().len(),
        ensures
            *value == self.values()[index as int],
            self.well_formed(),
    {
        proof {
            use_type_invariant(self);
        }
        &self.values[index]
    }

    /// The position of `name`.
    pub fn index_of(&self, name: &str) -> (r: Option<usize>)
        ensures
            match r {
                Some(i) => position(self.names(), name@) == Some(i as int) && i
                    < self.names().len(),
                None => position(self.names(), name@) is None,
            },
    {
        let ghost all = self.names();
        let mut i: usize = 0;
        while i < self.keys.len()
            invariant
                i <= self.keys.len(),
                all == texts(self.keys@),
                position(all, name@) == position_from(all, name@, i as int),
            decreases self.keys.len() - i,
        {
            if same_text(self.keys[i].as_str(), name) {
                assert(all[i as int] == name@);
                return Some(i);
            }
            assert(all[i as int] != name@);
            i += 1;
        }
        None
    }

    /// Whether `name` has a value.
    pub fn contains_key(&self, name: &str) -> (b: bool)
        ensures
            b == self@.dom().contains(name@),
            b == holds(self.names(), name@),
    {
        self.index_of(name).is_some()
    }

    /// The value of `name`.
    pub fn get(&self, name: &str) -> (r: Option<&V>)
        ensures
            match r {
                Some(v) => self@.dom().contains(name@) && *v == self@[name@],
                None => !self@.dom().contains(name@),
            },
    {
        proof {
            use_type_invariant(self);
        }
        match self.index_of(name) {
            Some(i) => Some(&self.values[i]),
            None => None,
        }
    }

    /// Gives `name` the value `value`. A new name goes to the end; a known one keeps its place.
    pub fn insert(&mut self, name: String, value: V)
        ensures
            final(self)@ == old(self)@.insert(name@, value),
            final(self).well_formed(),
            holds(old(self).names(), name@) ==> final(self).names() == old(self).names(),
            !holds(old(self).names(), name@) ==> final(self).names() == old(self).names().push(
                name@,
            ),
            match position(old(self).names(), name@) {
                Some(i) => final(self).values() == old(self).values().update(i, value),
                None => final(self).values() == old(self).values().push(value),
            },
    {
        proof {
            use_type_invariant(&*self);
        }
        let ghost before_names = self.names();
        let ghost before_values = self.values();
        let ghost before = self@;
        proof {
            lemma_position(before_names, name@);
        }
        let found = self.index_of(name.as_str());
        let mut taken: NameMap<V> = NameMap { keys: Vec::new(), values: Vec::new() };
        proof {
            assert(taken.names() =~= Seq::<Seq<char>>::empty());
        }
        core::mem::swap(self, &mut taken);
        let NameMap { mut keys, mut values } = taken;
        match found {
            Some(i) => {
                values.set(i, value);
            },
            None => {
                keys.push(name);
                values.push(value);
                proof {
                    let grown = before_names.push(name@);
                    assert(texts(keys@) =~= grown);
                    assert(distinct(grown)) by {
                        assert forall|i: int, j: int| 0 <= i < j < grown.len() implies grown[i]
                            != grown[j] by {
                            if j < before_names.len() {
                                assert(grown[i] == before_names[i]);
                                assert(grown[j] == before_names[j]);
                            } else {
                                assert(grown[i] == before_names[i]);
                            }
                        }
                    }
                }
            },
        }
        *self = NameMap { keys, values };
        proof {
            match found {
                Some(i) => {
                    assert(self.names() == before_names);
                    assert(self@ =~= before.insert(name@, value)) by {
                        assert forall|k: Seq<char>| self@.dom().contains(k) implies #[trigger] self@[k]
                            == before.insert(name@, value)[k] by {
                            lemma_position(before_names, k);
                        }
                    }
                },
                None => {
                    assert(self@ =~= before.insert(name@, value)) by {
                        assert forall|k: Seq<char>|
                            self@.dom().contains(k) <==> before.insert(name@, value).dom().contains(
                                k,
                            ) by {
                            crate::names::lemma_position_push(before_names, name@, k);
                        }
                        assert forall|k: Seq<char>| self@.dom().contains(k) implies #[trigger] self@[k]
                            == before.insert(name@, value)[k] by {
                            crate::names::lemma_position_push(before_names, name@, k);
                            lemma_position(before_names, k);
                        }
                    }
                },
            }
        }
    }
}

} // verus!
