//! A small map keyed by name.
//!
//! The stores of the agent (transfers in progress, running tasks) are keyed by
//! strings and hold a handful of entries. `NameMap` keeps them in a vector in
//! which no name occurs twice; its view is the mathematical map from names to values.

use crate::crypto::str_eq;
use vstd::prelude::*;

verus! {

/// The map that pairs `names[i]` with `values[i]`.
pub open spec fn paired<V>(names: Seq<Seq<char>>, values: Seq<V>) -> Map<Seq<char>, V> {
    Map::new(|k: Seq<char>| names.contains(k), |k: Seq<char>| values[names.index_of(k)])
}

/// In a sequence without duplicates, `paired` maps each name to the value at its position.
pub proof fn lemma_paired_at<V>(names: Seq<Seq<char>>, values: Seq<V>, i: int)
    requires
        names.no_duplicates(),
        0 <= i < names.len(),
    ensures
        names.contains(names[i]),
        paired(names, values).contains_key(names[i]),
        paired(names, values)[names[i]] == values[i],
{
    assert(names.contains(names[i]));
    let j = names.index_of(names[i]);
    assert(0 <= j < names.len() && names[j] == names[i]);
}

/// Appending a new name with its value inserts the pair.
pub proof fn lemma_paired_push<V>(names: Seq<Seq<char>>, values: Seq<V>, name: Seq<char>, value: V)
    requires
        names.no_duplicates(),
        names.len() == values.len(),
        !names.contains(name),
    ensures
        names.push(name).no_duplicates(),
        paired(names.push(name), values.push(value)) == paired(names, values).insert(name, value),
{
    let names2 = names.push(name);
    let values2 = values.push(value);
    assert forall|i: int, j: int| 0 <= i < names2.len() && 0 <= j < names2.len() && i != j implies names2[i]
        != names2[j] by {
        if i < names.len() {
            assert(names.contains(names[i]));
        }
        if j < names.len() {
            assert(names.contains(names[j]));
        }
    }
    assert(names2[names.len() as int] == name);
    assert forall|k: Seq<char>|
        paired(names2, values2).contains_key(k) <==> paired(names, values).insert(
            name,
            value,
        ).contains_key(k) by {
        if names.contains(k) {
            let i = names.index_of(k);
            assert(names2[i] == k);
        }
        if names2.contains(k) && k != name {
            let i = names2.index_of(k);
            assert(names[i] == k);
        }
    }
    assert forall|k: Seq<char>| paired(names2, values2).contains_key(k) implies paired(
        names2,
        values2,
    )[k] == paired(names, values).insert(name, value)[k] by {
        let i = names2.index_of(k);
        lemma_paired_at(names2, values2, i);
        if i < names.len() {
            lemma_paired_at(names, values, i);
        }
    }
    assert(paired(names2, values2) =~= paired(names, values).insert(name, value));
}

/// Replacing the value at a position replaces the value of its name.
pub proof fn lemma_paired_update<V>(names: Seq<Seq<char>>, values: Seq<V>, i: int, value: V)
    requires
        names.no_duplicates(),
        names.len() == values.len(),
        0 <= i < names.len(),
    ensures
        paired(names, values.update(i, value)) == paired(names, values).insert(names[i], value),
{
    let values2 = values.update(i, value);
    lemma_paired_at(names, values, i);
    assert forall|k: Seq<char>| paired(names, values2).contains_key(k) implies paired(
        names,
        values2,
    )[k] == paired(names, values).insert(names[i], value)[k] by {
        let j = names.index_of(k);
        lemma_paired_at(names, values2, j);
        lemma_paired_at(names, values, j);
    }
    assert(paired(names, values2) =~= paired(names, values).insert(names[i], value));
}

/// Removing a position removes its name.
pub proof fn lemma_paired_remove<V>(names: Seq<Seq<char>>, values: Seq<V>, i: int)
    requires
        names.no_duplicates(),
        names.len() == values.len(),
        0 <= i < names.len(),
    ensures
        names.remove(i).no_duplicates(),
        !names.remove(i).contains(names[i]),
        paired(names.remove(i), values.remove(i)) == paired(names, values).remove(names[i]),
{
    let names2 = names.remove(i);
    let values2 = values.remove(i);
    assert forall|a: int| 0 <= a < names2.len() implies #[trigger] names2[a] == names[if a < i {
        a
    } else {
        a + 1
    }] by {}
    assert(names2.no_duplicates());
    assert(!names2.contains(names[i]));
    assert forall|k: Seq<char>|
        paired(names2, values2).contains_key(k) <==> paired(names, values).remove(
            names[i],
        ).contains_key(k) by {
        if names2.contains(k) {
            let a = names2.index_of(k);
            assert(names[if a < i {
                a
            } else {
                a + 1
            }] == k);
        }
        if names.contains(k) && k != names[i] {
            let b = names.index_of(k);
            assert(names2[if b < i {
                b
            } else {
                b - 1
            }] == k);
        }
    }
    assert forall|k: Seq<char>| paired(names2, values2).contains_key(k) implies paired(
        names2,
        values2,
    )[k] == paired(names, values).remove(names[i])[k] by {
        let a = names2.index_of(k);
        lemma_paired_at(names2, values2, a);
        lemma_paired_at(names, values, if a < i {
            a
        } else {
            a + 1
        });
    }
    assert(paired(names2, values2) =~= paired(names, values).remove(names[i]));
}

/// A map paired from distinct names has as many keys as there are names.
pub proof fn lemma_paired_len<V>(names: Seq<Seq<char>>, values: Seq<V>)
    requires
        names.no_duplicates(),
    ensures
        paired(names, values).dom().finite(),
        paired(names, values).dom().len() == names.len(),
{
    assert(paired(names, values).dom() =~= names.to_set());
    names.unique_seq_to_set();
}

struct Slot<V> {
    name: String,
    value: V,
}

/// A finite map from names to values of type `V`.
pub struct NameMap<V> {
    slots: Vec<Slot<V>>,
}

impl<V> View for NameMap<V> {
    type V = Map<Seq<char>, V>;

    /// The map from each stored name to its value.
    open spec fn view(&self) -> Map<Seq<char>, V> {
        paired(self.names(), self.values())
    }
}

impl<V> NameMap<V> {
    #[verifier::type_invariant]
    spec fn distinct(self) -> bool {
        forall|i: int, j: int|
            0 <= i < self.slots@.len() && 0 <= j < self.slots@.len() && i != j
                ==> self.slots@[i].name@ != self.slots@[j].name@
    }

    /// The stored names, in storage order.
    pub closed spec fn names(&self) -> Seq<Seq<char>> {
        Seq::new(self.slots@.len(), |i: int| self.slots@[i].name@)
    }

    /// The stored values, in storage order: `values()[i]` belongs to `names()[i]`.
    pub closed spec fn values(&self) -> Seq<V> {
        Seq::new(self.slots@.len(), |i: int| self.slots@[i].value)
    }

    /// What every map satisfies: a value for each name, and no name twice.
    pub open spec fn consistent(&self) -> bool {
        &&& self.names().len() == self.values().len()
        &&& self.names().no_duplicates()
        &&& self@.dom().finite()
        &&& self@.dom().len() == self.names().len()
    }

    /// The empty map.
    pub fn new() -> (m: Self)
        ensures
            m@ == Map::<Seq<char>, V>::empty(),
            m.names() == Seq::<Seq<char>>::empty(),
            m.values() == Seq::<V>::empty(),
            m.consistent(),
    {
        let m = NameMap { slots: Vec::new() };
        proof {
            assert(m.names() =~= Seq::<Seq<char>>::empty());
            assert(m.values() =~= Seq::<V>::empty());
            assert(m@ =~= Map::<Seq<char>, V>::empty());
            lemma_paired_len(m.names(), m.values());
        }
        m
    }

    /// The number of entries.
    pub fn len(&self) -> (n: usize)
        ensures
            n == self@.dom().len(),
            n == self.names().len(),
            self.consistent(),
    {
        proof {
            use_type_invariant(self);
            lemma_paired_len(self.names(), self.values());
        }
        self.slots.len()
    }

    /// The position at which `name` is stored, if it is.
    pub fn find(&self, name: &str) -> (at: Option<usize>)
        ensures
            self.consistent(),
            at matches Some(i) ==> i < self.names().len() && self.names()[i as int] == name@
                && self@.contains_key(name@) && self@[name@] == self.values()[i as int],
            at is None ==> !self@.contains_key(name@) && !self.names().contains(name@),
    {
        proof {
            use_type_invariant(self);
            lemma_paired_len(self.names(), self.values());
        }
        let n = self.slots.len();
        let mut i: usize = 0;
        while i < n
            invariant
                n == self.slots@.len(),
                i <= n,
                self.consistent(),
                forall|j: int| 0 <= j < i ==> self.names()[j] != name@,
            decreases n - i,
        {
            if str_eq(self.slots[i].name.as_str(), name) {
                proof {
                    lemma_paired_at(self.names(), self.values(), i as int);
                }
                return Some(i);
            }
            i += 1;
        }
        None
    }

    /// Whether `name` has an entry.
    pub fn contains(&self, name: &str) -> (found: bool)
        ensures
            found == self@.contains_key(name@),
    {
        self.find(name).is_some()
    }

    /// The value stored under `name`, if any.
    pub fn get(&self, name: &str) -> (value: Option<&V>)
        ensures
            value matches Some(v) ==> self@.contains_key(name@) && *v == self@[name@],
            value is None ==> !self@.contains_key(name@),
    {
        match self.find(name) {
            Some(i) => Some(&self.slots[i].value),
            None => None,
        }
    }

    /// The name stored at position `i`.
    pub fn name_at(&self, i: usize) -> (name: &String)
        requires
            i < self.names().len(),
        ensures
            name@ == self.names()[i as int],
    {
        &self.slots[i].name
    }

    /// The value stored at position `i`.
    pub fn value_at(&self, i: usize) -> (value: &V)
        requires
            i < self.names().len(),
        ensures
            *value == self.values()[i as int],
            self@.contains_key(self.names()[i as int]),
            self@[self.names()[i as int]] == *value,
            self.consistent(),
    {
        proof {
            use_type_invariant(self);
            lemma_paired_at(self.names(), self.values(), i as int);
            lemma_paired_len(self.names(), self.values());
        }
        &self.slots[i].value
    }

    /// Stores `value` under `name`, replacing what was stored there before.
    pub fn insert(&mut self, name: String, value: V)
        ensures
            final(self)@ == old(self)@.insert(name@, value),
            final(self).consistent(),
            old(self)@.contains_key(name@) ==> final(self).names() == old(self).names(),
            !old(self)@.contains_key(name@) ==> final(self).names() == old(self).names().push(
                name@,
            ) && final(self).values() == old(self).values().push(value),
    {
        proof {
            use_type_invariant(&*self);
        }
        let found = self.find(name.as_str());
        let ghost names = self.names();
        let ghost values = self.values();
        let mut slots: Vec<Slot<V>> = Vec::new();
        std::mem::swap(&mut slots, &mut self.slots);
        match found {
            Some(i) => {
                let _ = slots.remove(i);
                slots.insert(i, Slot { name, value });
                proof {
                    lemma_paired_update(names, values, i as int, value);
                }
            },
            None => {
                slots.push(Slot { name, value });
                proof {
                    lemma_paired_push(names, values, name@, value);
                }
            },
        }
        proof {
            let names2 = Seq::new(slots@.len(), |i: int| slots@[i].name@);
            let values2 = Seq::new(slots@.len(), |i: int| slots@[i].value);
            if found is Some {
                assert(names2 =~= names);
                assert(values2 =~= values.update(found->0 as int, value));
            } else {
                assert(names2 =~= names.push(name@));
                assert(values2 =~= values.push(value));
            }
            lemma_paired_len(names2, values2);
            assert forall|a: int, b: int|
                0 <= a < slots@.len() && 0 <= b < slots@.len() && a != b implies slots@[a].name@
                != slots@[b].name@ by {
                assert(names2[a] != names2[b]);
            }
        }
        self.slots = slots;
    }

    /// Takes out the entry at position `i`.
    pub fn remove_at(&mut self, i: usize) -> (entry: (String, V))
        requires
            i < old(self).names().len(),
        ensures
            entry.0@ == old(self).names()[i as int],
            entry.1 == old(self).values()[i as int],
            final(self).names() == old(self).names().remove(i as int),
            final(self).values() == old(self).values().remove(i as int),
            final(self)@ == old(self)@.remove(entry.0@),
            !final(self)@.contains_key(entry.0@),
            final(self).consistent(),
    {
        proof {
            use_type_invariant(&*self);
        }
        let ghost names = self.names();
        let ghost values = self.values();
        let mut slots: Vec<Slot<V>> = Vec::new();
        std::mem::swap(&mut slots, &mut self.slots);
        let slot = slots.remove(i);
        proof {
            let names2 = Seq::new(slots@.len(), |i: int| slots@[i].name@);
            let values2 = Seq::new(slots@.len(), |i: int| slots@[i].value);
            assert(names2 =~= names.remove(i as int));
            assert(values2 =~= values.remove(i as int));
            lemma_paired_remove(names, values, i as int);
            lemma_paired_len(names2, values2);
            assert forall|a: int, b: int|
                0 <= a < slots@.len() && 0 <= b < slots@.len() && a != b implies slots@[a].name@
                != slots@[b].name@ by {
                assert(names2[a] != names2[b]);
            }
        }
        self.slots = slots;
        (slot.name, slot.value)
    }

    /// Takes out the value stored under `name`; nothing happens if there is none.
    pub fn remove(&mut self, name: &str) -> (value: Option<V>)
        ensures
            final(self)@ == old(self)@.remove(name@),
            final(self).consistent(),
            value matches Some(v) ==> old(self)@.contains_key(name@) && v == old(self)@[name@],
            value is None ==> !old(self)@.contains_key(name@) && final(self).names() == old(
                self,
            ).names() && final(self).values() == old(self).values(),
    {
        match self.find(name) {
            Some(i) => {
                let entry = self.remove_at(i);
                Some(entry.1)
            },
            None => {
                proof {
                    assert(self@.remove(name@) =~= self@);
                }
                None
            },
        }
    }
}

} // verus!
