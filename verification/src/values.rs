//! Values of variables.

use crate::model_description::{ScalarVariable, VariableId};
use vstd::prelude::*;

verus! {

/// The map that a list of entries stands for, where a later entry for a key
/// takes the place of an earlier one.
pub open spec fn to_map<K, T>(entries: Seq<(K, T)>) -> Map<K, T>
    decreases entries.len(),
{
    if entries.len() == 0 {
        Map::empty()
    } else {
        to_map(entries.drop_last()).insert(entries.last().0, entries.last().1)
    }
}

/// Whether no key stands in two entries.
pub open spec fn distinct_keys<K, T>(entries: Seq<(K, T)>) -> bool {
    forall|i: int, j: int| 0 <= i < j < entries.len() ==> entries[i].0 != entries[j].0
}

/// The entries that pair the keys with the values at the same positions, as far
/// as there are both.
pub open spec fn zipped<K, T>(keys: Seq<K>, values: Seq<T>) -> Seq<(K, T)> {
    Seq::new(
        if keys.len() < values.len() {
            keys.len()
        } else {
            values.len()
        },
        |i: int| (keys[i], values[i]),
    )
}

/// A list of entries stands for a map with just their keys, in which the last
/// entry for a key decides its value.
pub proof fn lemma_to_map<K, T>(entries: Seq<(K, T)>)
    ensures
        forall|key: K| #[trigger]
            to_map(entries).dom().contains(key) <==> exists|i: int|
                0 <= i < entries.len() && (#[trigger] entries[i]).0 == key,
        forall|i: int|
            0 <= i < entries.len() && (forall|j: int| i < j < entries.len() ==> entries[j].0 != (
            #[trigger] entries[i]).0) ==> to_map(entries)[entries[i].0] == entries[i].1,
    decreases entries.len(),
{
    if entries.len() > 0 {
        let front = entries.drop_last();
        lemma_to_map(front);
        assert forall|key: K| #[trigger] to_map(entries).dom().contains(key) implies exists|i: int|
            0 <= i < entries.len() && (#[trigger] entries[i]).0 == key by {
            if key == entries.last().0 {
                assert(entries[entries.len() - 1].0 == key);
            } else {
                assert(to_map(front).dom().contains(key));
                let i = choose|i: int| 0 <= i < front.len() && (#[trigger] front[i]).0 == key;
                assert(entries[i].0 == key);
            }
        }
        assert forall|i: int| 0 <= i < entries.len() implies to_map(entries).dom().contains(
            (#[trigger] entries[i]).0,
        ) by {
            if i < entries.len() - 1 {
                assert(front[i] == entries[i]);
                assert(to_map(front).dom().contains(front[i].0));
            }
        }
        assert forall|i: int|
            0 <= i < entries.len() && (forall|j: int| i < j < entries.len() ==> entries[j].0 != (
            #[trigger] entries[i]).0) implies to_map(entries)[entries[i].0] == entries[i].1 by {
            if i < entries.len() - 1 {
                assert(front[i] == entries[i]);
                assert(entries[entries.len() - 1].0 != entries[i].0);
                assert forall|j: int| i < j < front.len() implies front[j].0 != front[i].0 by {
                    assert(entries[j].0 != entries[i].0);
                }
            }
        }
    }
}

/// Entries for different keys stand for a map with as many keys.
pub proof fn lemma_to_map_len<K, T>(entries: Seq<(K, T)>)
    requires
        distinct_keys(entries),
    ensures
        to_map(entries).dom().finite(),
        to_map(entries).len() == entries.len(),
    decreases entries.len(),
{
    if entries.len() > 0 {
        let front = entries.drop_last();
        lemma_to_map_len(front);
        lemma_to_map(front);
        assert(!to_map(front).dom().contains(entries.last().0));
    }
}

/// Values of variables, at most one for each.
#[derive(Debug)]
pub struct VariableValues<'a, T> {
    entries: Vec<(&'a ScalarVariable, T)>,
}

impl<'a, T> View for VariableValues<'a, T> {
    type V = Map<VariableId, T>;

    open spec fn view(&self) -> Map<VariableId, T> {
        to_map(self.spec_entries())
    }
}

impl<'a, T> VariableValues<'a, T> {
    /// The entries, in the order in which their variables came.
    pub closed spec fn spec_entries(&self) -> Seq<(VariableId, T)> {
        self.entries@.map_values(|entry: (&'a ScalarVariable, T)| (entry.0@, entry.1))
    }

    #[verifier::type_invariant]
    spec fn well_formed(&self) -> bool {
        distinct_keys(self.spec_entries())
    }

    /// No values.
    pub fn new() -> (values: Self)
        ensures
            values.spec_entries() == Seq::<(VariableId, T)>::empty(),
            values@ == Map::<VariableId, T>::empty(),
    {
        let values = VariableValues { entries: Vec::new() };
        assert(values.spec_entries() == Seq::<(VariableId, T)>::empty());
        values
    }

    /// The number of variables that have a value.
    pub fn len(&self) -> (len: usize)
        ensures
            len == self@.len(),
            len == self.spec_entries().len(),
            distinct_keys(self.spec_entries()),
    {
        proof {
            use_type_invariant(self);
            lemma_to_map_len(self.spec_entries());
        }
        self.entries.len()
    }

    /// The variable and the value at a position.
    pub fn entry(&self, i: usize) -> (entry: (&'a ScalarVariable, &T))
        requires
            i < self.spec_entries().len(),
        ensures
            (entry.0@, *entry.1) == self.spec_entries()[i as int],
    {
        (self.entries[i].0, &self.entries[i].1)
    }

    /// Where the value of a variable stands, if it has one.
    fn position(&self, signal: &ScalarVariable) -> (position: Option<usize>)
        ensures
            position is None ==> forall|i: int|
                0 <= i < self.spec_entries().len() ==> (#[trigger] self.spec_entries()[i]).0
                    != signal@,
            position is Some ==> position->0 < self.spec_entries().len()
                && self.spec_entries()[position->0 as int].0 == signal@,
    {
        let len: usize = self.entries.len();
        let mut i: usize = 0;
        while i < len
            invariant
                i <= len,
                len == self.entries@.len(),
                forall|j: int|
                    0 <= j < i ==> (#[trigger] self.spec_entries()[j]).0 != signal@,
            decreases len - i,
        {
            assert(self.spec_entries()[i as int].0 == self.entries@[i as int].0@);
            if self.entries[i].0.is_same(signal) {
                return Some(i);
            }
            i = i + 1;
        }
        None
    }

    /// The value of a variable, if it has one.
    pub fn get(&self, signal: &ScalarVariable) -> (value: Option<&T>)
        ensures
            value is Some <==> self@.dom().contains(signal@),
            value is Some ==> *value->0 == self@[signal@],
    {
        proof {
            use_type_invariant(self);
            lemma_to_map(self.spec_entries());
        }
        match self.position(signal) {
            Some(i) => {
                assert(self.spec_entries()[i as int].1 == self.entries@[i as int].1);
                Some(&self.entries[i].1)
            },
            None => None,
        }
    }

    /// Gives a variable a value, in place of the one it may have had.
    pub fn insert(&mut self, signal: &'a ScalarVariable, value: T)
        ensures
            final(self)@ == old(self)@.insert(signal@, value),
            !old(self)@.dom().contains(signal@) ==> final(self).spec_entries() == old(
                self,
            ).spec_entries().push((signal@, value)),
            old(self)@.dom().contains(signal@) ==> exists|i: int|
                0 <= i < old(self).spec_entries().len() && (#[trigger] old(self).spec_entries()[i]).0
                    == signal@ && final(self).spec_entries() == old(self).spec_entries().update(
                    i,
                    (signal@, value),
                ),
    {
        proof {
            use_type_invariant(&*self);
            lemma_to_map(self.spec_entries());
        }
        let ghost before = self.spec_entries();
        let position: Option<usize> = self.position(signal);
        let mut entries: Vec<(&'a ScalarVariable, T)> = Vec::new();
        std::mem::swap(&mut entries, &mut self.entries);
        match position {
            Some(i) => {
                let key: &'a ScalarVariable = entries[i].0;
                entries.set(i, (key, value));
            },
            None => {
                entries.push((signal, value));
            },
        }
        let ghost after = entries@.map_values(|entry: (&'a ScalarVariable, T)| (entry.0@, entry.1));
        proof {
            if position is Some {
                assert(before[position->0 as int].0 == signal@);
                assert(after == before.update(position->0 as int, (signal@, value)));
            } else {
                assert(after == before.push((signal@, value)));
            }
            assert(distinct_keys(after));
            lemma_to_map(after);
            assert(to_map(after) =~= to_map(before).insert(signal@, value)) by {
                assert forall|key: VariableId| #[trigger]
                    to_map(after).dom().contains(key) <==> to_map(before).insert(
                    signal@,
                    value,
                ).dom().contains(key) by {
                    lemma_update_keys(before, after, position, (signal@, value), key);
                }
                assert forall|key: VariableId| #[trigger]
                    to_map(after).dom().contains(key) implies to_map(after)[key] == to_map(
                    before,
                ).insert(signal@, value)[key] by {
                    let i = choose|i: int| 0 <= i < after.len() && (#[trigger] after[i]).0 == key;
                    assert(to_map(after)[after[i].0] == after[i].1);
                    if key != signal@ {
                        assert(before[i] == after[i]);
                        assert(to_map(before)[before[i].0] == before[i].1);
                    }
                }
            }
        }
        self.entries = entries;
    }
}

/// Setting or appending an entry adds its key to those that occur, and no other.
proof fn lemma_update_keys<T>(
    before: Seq<(VariableId, T)>,
    after: Seq<(VariableId, T)>,
    position: Option<usize>,
    entry: (VariableId, T),
    key: VariableId,
)
    requires
        position is None ==> after == before.push(entry),
        position is Some ==> position->0 < before.len() && before[position->0 as int].0 == entry.0
            && after == before.update(position->0 as int, entry),
    ensures
        to_map(after).dom().contains(key) <==> to_map(before).dom().contains(key) || key == entry.0,
{
    lemma_to_map(before);
    lemma_to_map(after);
    if to_map(before).dom().contains(key) {
        let i = choose|i: int| 0 <= i < before.len() && (#[trigger] before[i]).0 == key;
        assert(after[i].0 == key);
    }
    if key == entry.0 {
        if position is Some {
            assert(after[position->0 as int].0 == key);
        } else {
            assert(after[before.len() as int].0 == key);
        }
    }
    if to_map(after).dom().contains(key) {
        let i = choose|i: int| 0 <= i < after.len() && (#[trigger] after[i]).0 == key;
        if i < before.len() {
            assert(before[i].0 == key);
        }
    }
}

} // verus!
