//! Small maps that keep their entries in the order of insertion.

use vstd::prelude::*;
use crate::text;

verus! {

/// A type whose values can be told apart by an identity.
pub trait Key: Sized {
    type Id;

    spec fn id(self) -> Self::Id;

    fn same(&self, other: &Self) -> (yes: bool)
        ensures
            yes == (self.id() == other.id()),
    ;
}

impl Key for u32 {
    type Id = u32;

    open spec fn id(self) -> u32 {
        self
    }

    fn same(&self, other: &Self) -> (yes: bool) {
        *self == *other
    }
}

impl Key for String {
    type Id = Seq<char>;

    open spec fn id(self) -> Seq<char> {
        self@
    }

    fn same(&self, other: &Self) -> (yes: bool) {
        *self == *other
    }
}

/// A type whose values can be compared by what they stand for.
pub trait Comparable: Sized {
    type Meaning;

    spec fn meaning(self) -> Self::Meaning;

    fn equals(&self, other: &Self) -> (yes: bool)
        ensures
            yes == (self.meaning() == other.meaning()),
    ;
}

/// No two entries have the same key.
pub open spec fn distinct<K: Key, V>(entries: Seq<(K, V)>) -> bool {
    forall|i: int, j: int|
        #![trigger entries[i], entries[j]]
        0 <= i < j < entries.len() ==> entries[i].0.id() != entries[j].0.id()
}

/// The entries as a map from identities to values.
pub open spec fn as_map<K: Key, V>(entries: Seq<(K, V)>) -> Map<K::Id, V>
    decreases entries.len(),
{
    if entries.len() == 0 {
        Map::empty()
    } else {
        as_map(entries.drop_last()).insert(entries.last().0.id(), entries.last().1)
    }
}

/// A key is in the map exactly when an entry has it, and its value is that entry's.
pub proof fn lemma_as_map<K: Key, V>(entries: Seq<(K, V)>)
    requires
        distinct(entries),
    ensures
        forall|i: int|
            0 <= i < entries.len() ==> as_map(entries).dom().contains((#[trigger] entries[i]).0.id()) && as_map(
                entries,
            )[entries[i].0.id()] == entries[i].1,
        forall|k: K::Id| #[trigger]
            as_map(entries).dom().contains(k) ==> exists|i: int|
                0 <= i < entries.len() && (#[trigger] entries[i]).0.id() == k,
        as_map(entries).dom().finite(),
        as_map(entries).dom().len() == entries.len(),
    decreases entries.len(),
{
    if entries.len() > 0 {
        let rest = entries.drop_last();
        let last = entries.last();
        assert forall|i: int, j: int| #![trigger rest[i], rest[j]] 0 <= i < j < rest.len() implies rest[i].0.id()
            != rest[j].0.id() by {
            assert(entries[i] == rest[i] && entries[j] == rest[j]);
        }
        lemma_as_map(rest);
        assert(!as_map(rest).dom().contains(last.0.id())) by {
            if as_map(rest).dom().contains(last.0.id()) {
                let i = choose|i: int| 0 <= i < rest.len() && (#[trigger] rest[i]).0.id() == last.0.id();
                assert(entries[i] == rest[i]);
                assert(entries[entries.len() - 1] == last);
            }
        }
        assert forall|i: int| 0 <= i < entries.len() implies as_map(entries).dom().contains(
            (#[trigger] entries[i]).0.id(),
        ) && as_map(entries)[entries[i].0.id()] == entries[i].1 by {
            if i < rest.len() {
                assert(rest[i] == entries[i]);
                assert(entries[entries.len() - 1] == last);
            }
        }
        assert forall|k: K::Id| #[trigger] as_map(entries).dom().contains(k) implies exists|i: int|
            0 <= i < entries.len() && (#[trigger] entries[i]).0.id() == k by {
            if as_map(rest).dom().contains(k) {
                let i = choose|i: int| 0 <= i < rest.len() && (#[trigger] rest[i]).0.id() == k;
                assert(entries[i] == rest[i]);
            } else {
                assert(entries[entries.len() - 1].0.id() == k);
            }
        }
        assert(as_map(entries).dom() =~= as_map(rest).dom().insert(last.0.id()));
    }
}

/// A map with one entry for each key.
#[derive(Debug)]
pub struct Table<K: Key, V> {
    entries: Vec<(K, V)>,
}

impl<K: Key, V> View for Table<K, V> {
    type V = Map<K::Id, V>;

    open spec fn view(&self) -> Map<K::Id, V> {
        as_map(self.pairs())
    }
}

impl<K: Key, V> Table<K, V> {
    #[verifier::type_invariant]
    spec fn keys_are_distinct(self) -> bool {
        distinct(self.entries@)
    }

    /// The entries in the order of insertion.
    pub closed spec fn pairs(self) -> Seq<(K, V)> {
        self.entries@
    }

    pub fn new() -> (table: Self)
        ensures
            table.pairs() == Seq::<(K, V)>::empty(),
            table@ == Map::<K::Id, V>::empty(),
    {
        Table { entries: Vec::new() }
    }

    /// The entries in the order of insertion.
    pub fn entries(&self) -> (entries: &Vec<(K, V)>)
        ensures
            entries@ == self.pairs(),
            distinct(entries@),
    {
        proof {
            use_type_invariant(self);
        }
        &self.entries
    }

    pub fn len(&self) -> (n: usize)
        ensures
            n == self.pairs().len(),
            n == self@.dom().len(),
    {
        proof {
            use_type_invariant(self);
            lemma_as_map(self.entries@);
        }
        self.entries.len()
    }

    pub fn is_empty(&self) -> (yes: bool)
        ensures
            yes == (self.pairs().len() == 0),
            yes == (self@ == Map::<K::Id, V>::empty()),
    {
        proof {
            use_type_invariant(self);
            lemma_as_map(self.entries@);
            if self.entries@.len() > 0 {
                let e = self.entries@[0];
                assert(self@.dom().contains(e.0.id()));
            }
        }
        self.entries.len() == 0
    }

    fn position(&self, key: &K) -> (at: Option<usize>)
        ensures
            match at {
                Some(i) => i < self.pairs().len() && self.pairs()[i as int].0.id() == key.id(),
                None => forall|i: int| 0 <= i < self.pairs().len() ==> (#[trigger] self.pairs()[i]).0.id() != key.id(),
            },
            at is Some == self@.dom().contains(key.id()),
            at is Some ==> self@[key.id()] == self.pairs()[at->0 as int].1,
    {
        proof {
            use_type_invariant(self);
            lemma_as_map(self.entries@);
        }
        let mut i: usize = 0;
        while i < self.entries.len()
            invariant
                i <= self.entries@.len(),
                distinct(self.entries@),
                forall|j: int| 0 <= j < i ==> (#[trigger] self.entries@[j]).0.id() != key.id(),
            decreases self.entries@.len() - i,
        {
            if self.entries[i].0.same(key) {
                proof {
                    lemma_as_map(self.entries@);
                    assert(self.entries@[i as int].0.id() == key.id());
                }
                return Some(i);
            }
            i += 1;
        }
        None
    }

    /// The value under `key`.
    pub fn get(&self, key: &K) -> (value: Option<&V>)
        ensures
            value is Some == self@.dom().contains(key.id()),
            value is Some ==> *value->0 == self@[key.id()],
    {
        match self.position(key) {
            Some(i) => Some(&self.entries[i].1),
            None => None,
        }
    }

    pub fn contains_key(&self, key: &K) -> (yes: bool)
        ensures
            yes == self@.dom().contains(key.id()),
    {
        self.position(key).is_some()
    }

    /// Sets the value under `key`.
    pub fn insert(&mut self, key: K, value: V)
        ensures
            final(self)@ == old(self)@.insert(key.id(), value),
    {
        proof {
            use_type_invariant(&*self);
        }
        let at = self.position(&key);
        let mut entries: Vec<(K, V)> = Vec::new();
        std::mem::swap(&mut self.entries, &mut entries);
        let ghost before = entries@;
        proof {
            lemma_as_map(before);
        }
        match at {
            Some(i) => {
                entries.set(i, (key, value));
                proof {
                    let after = entries@;
                    assert forall|a: int, b: int| #![trigger after[a], after[b]] 0 <= a < b < after.len() implies after[a].0.id()
                        != after[b].0.id() by {
                        assert(before[a].0.id() != before[b].0.id());
                    }
                    lemma_as_map(after);
                    assert(as_map(after) =~= as_map(before).insert(key.id(), value)) by {
                        assert forall|k: K::Id| as_map(after).dom().contains(k) == as_map(before).insert(key.id(), value).dom().contains(k) by {
                            if as_map(after).dom().contains(k) {
                                let x = choose|x: int| 0 <= x < after.len() && (#[trigger] after[x]).0.id() == k;
                                assert(as_map(before).dom().contains(before[x].0.id()));
                            }
                            if as_map(before).dom().contains(k) {
                                let x = choose|x: int| 0 <= x < before.len() && (#[trigger] before[x]).0.id() == k;
                                assert(as_map(after).dom().contains(after[x].0.id()));
                            }
                            assert(as_map(after).dom().contains(after[i as int].0.id()));
                        }
                        assert forall|k: K::Id| as_map(after).dom().contains(k) implies as_map(after)[k]
                            == as_map(before).insert(key.id(), value)[k] by {
                            let x = choose|x: int| 0 <= x < after.len() && (#[trigger] after[x]).0.id() == k;
                            assert(as_map(after)[after[x].0.id()] == after[x].1);
                            if x != i {
                                assert(as_map(before)[before[x].0.id()] == before[x].1);
                                if x < i {
                                    assert(after[x].0.id() != after[i as int].0.id());
                                } else {
                                    assert(after[i as int].0.id() != after[x].0.id());
                                }
                            }
                        }
                    }
                }
            }
            None => {
                entries.push((key, value));
                proof {
                    assert(entries@.drop_last() =~= before);
                    assert forall|a: int, b: int| #![trigger entries@[a], entries@[b]] 0 <= a < b < entries@.len() implies entries@[a].0.id()
                        != entries@[b].0.id() by {
                        assert(entries@[a] == before[a]);
                        if b < before.len() {
                            assert(before[a].0.id() != before[b].0.id());
                        }
                    }
                }
            }
        }
        self.entries = entries;
    }

    /// Removes the entry with that key and returns its value.
    pub fn remove(&mut self, key: &K) -> (value: Option<V>)
        ensures
            final(self)@ == old(self)@.remove(key.id()),
            value is Some == old(self)@.dom().contains(key.id()),
            value is Some ==> value->0 == old(self)@[key.id()],
    {
        proof {
            use_type_invariant(&*self);
            lemma_as_map(self.entries@);
        }
        match self.position(key) {
            None => {
                proof {
                    assert(self@.remove(key.id()) =~= self@);
                }
                None
            }
            Some(i) => {
                let mut entries: Vec<(K, V)> = Vec::new();
                std::mem::swap(&mut self.entries, &mut entries);
                let ghost before = entries@;
                let (_, value) = entries.remove(i);
                proof {
                    lemma_without(before, i as int);
                }
                self.entries = entries;
                Some(value)
            }
        }
    }
}

proof fn lemma_without<K: Key, V>(before: Seq<(K, V)>, i: int)
    requires
        distinct(before),
        0 <= i < before.len(),
    ensures
        distinct(before.remove(i)),
        as_map(before.remove(i)) == as_map(before).remove(before[i].0.id()),
{
    let after = before.remove(i);
    lemma_as_map(before);
    assert forall|a: int, b: int| #![trigger after[a], after[b]] 0 <= a < b < after.len() implies after[a].0.id()
        != after[b].0.id() by {
        let x = if a < i { a } else { a + 1 };
        let y = if b < i { b } else { b + 1 };
        assert(after[a] == before[x] && after[b] == before[y]);
    }
    lemma_as_map(after);
    let gone = before[i].0.id();
    assert forall|k: K::Id| as_map(after).dom().contains(k) == as_map(before).remove(gone).dom().contains(k) by {
        if as_map(after).dom().contains(k) {
            let a = choose|a: int| 0 <= a < after.len() && (#[trigger] after[a]).0.id() == k;
            let x = if a < i { a } else { a + 1 };
            assert(after[a] == before[x]);
            assert(as_map(before).dom().contains(before[x].0.id()));
            if x < i {
                assert(before[x].0.id() != before[i].0.id());
            } else {
                assert(before[i].0.id() != before[x].0.id());
            }
        }
        if as_map(before).remove(gone).dom().contains(k) {
            let x = choose|x: int| 0 <= x < before.len() && (#[trigger] before[x]).0.id() == k;
            let a = if x < i { x } else { x - 1 };
            assert(after[a] == before[x]);
            assert(as_map(after).dom().contains(after[a].0.id()));
        }
    }
    assert forall|k: K::Id| as_map(after).dom().contains(k) implies as_map(after)[k] == as_map(before).remove(gone)[k] by {
        let a = choose|a: int| 0 <= a < after.len() && (#[trigger] after[a]).0.id() == k;
        let x = if a < i { a } else { a + 1 };
        assert(after[a] == before[x]);
        assert(as_map(before)[before[x].0.id()] == before[x].1);
        assert(as_map(after)[after[a].0.id()] == after[a].1);
    }
    assert(as_map(after) =~= as_map(before).remove(gone));
}

impl<V> Table<String, V> {
    /// The value under a name.
    pub fn remove_named(&mut self, name: &str) -> (value: Option<V>)
        ensures
            final(self)@ == old(self)@.remove(name@),
            value is Some == old(self)@.dom().contains(name@),
            value is Some ==> value->0 == old(self)@[name@],
    {
        let key = name.to_owned();
        self.remove(&key)
    }

    pub fn get_named(&self, name: &str) -> (value: Option<&V>)
        ensures
            value is Some == self@.dom().contains(name@),
            value is Some ==> *value->0 == self@[name@],
    {
        let key = name.to_owned();
        self.get(&key)
    }
}

impl<K: Key, V: Comparable> Table<K, V> {
    /// What the table stands for.
    pub open spec fn meanings(self) -> Map<K::Id, V::Meaning> {
        self@.map_values(|v: V| v.meaning())
    }

    fn within(&self, other: &Self) -> (yes: bool)
        ensures
            yes == forall|k: K::Id| #[trigger]
                self.meanings().dom().contains(k) ==> other.meanings().dom().contains(k) && self.meanings()[k]
                    == other.meanings()[k],
    {
        proof {
            use_type_invariant(self);
            lemma_as_map(self.entries@);
        }
        let mut i: usize = 0;
        while i < self.entries.len()
            invariant
                i <= self.entries@.len(),
                distinct(self.entries@),
                forall|j: int|
                    0 <= j < i ==> other.meanings().dom().contains((#[trigger] self.entries@[j]).0.id())
                        && other.meanings()[self.entries@[j].0.id()] == self.entries@[j].1.meaning(),
            decreases self.entries@.len() - i,
        {
            let found = match other.get(&self.entries[i].0) {
                Some(v) => v.equals(&self.entries[i].1),
                None => false,
            };
            if !found {
                proof {
                    lemma_as_map(self.entries@);
                    assert(self.meanings().dom().contains(self.entries@[i as int].0.id()));
                }
                return false;
            }
            i += 1;
        }
        proof {
            lemma_as_map(self.entries@);
            assert forall|k: K::Id| #[trigger] self.meanings().dom().contains(k) implies other.meanings().dom().contains(k)
                && self.meanings()[k] == other.meanings()[k] by {
                assert(self@.dom().contains(k));
                let j = choose|j: int| 0 <= j < self.entries@.len() && (#[trigger] self.entries@[j]).0.id() == k;
                assert(self@[self.entries@[j].0.id()] == self.entries@[j].1);
            }
        }
        true
    }
}

impl<K: Key, V: Comparable> Comparable for Table<K, V> {
    type Meaning = Map<K::Id, V::Meaning>;

    open spec fn meaning(self) -> Map<K::Id, V::Meaning> {
        self.meanings()
    }

    fn equals(&self, other: &Self) -> (yes: bool) {
        let yes = self.within(other) && other.within(self);
        proof {
            if yes {
                assert(self.meanings() =~= other.meanings());
            }
        }
        yes
    }
}

} // verus!
