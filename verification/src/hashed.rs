//! Hash maps and hash sets as lists and as values that can be compared.

use std::collections::{HashMap, HashSet};
use vstd::prelude::*;
use vstd::std_specs::hash::obeys_key_model;
use crate::table::Comparable;

verus! {

/// A set of workspace numbers.
pub type IdSet = HashSet<i32>;

/// The items of a set, in some order.
pub fn items_of<K: Copy>(set: &HashSet<K>) -> (items: Vec<K>)
    requires
        obeys_key_model::<K>(),
    ensures
        items@.no_duplicates(),
        items@.to_set() == set@,
        items@.len() == set@.len(),
{
    let mut items: Vec<K> = Vec::new();
    for item in iter: set.iter()
        invariant
            iter.seq().unref().to_set() == set@,
            iter.seq().no_duplicates(),
            iter.seq().len() == set@.len(),
            items@ == iter.seq().unref().take(iter.index() as int),
            iter.index() == iter.seq().len() ==> items@ == iter.seq().unref(),
    {
        items.push(*item);
    }
    items
}

/// The keys of a map, in some order.
pub fn keys_of<K: Copy, V>(map: &HashMap<K, V>) -> (keys: Vec<K>)
    requires
        obeys_key_model::<K>(),
    ensures
        keys@.no_duplicates(),
        keys@.to_set() == map@.dom(),
        keys@.len() == map@.dom().len(),
{
    let mut keys: Vec<K> = Vec::new();
    for key in iter: map.keys()
        invariant
            iter.seq().unref().to_set() == map@.dom(),
            iter.seq().no_duplicates(),
            iter.seq().len() == map@.dom().len(),
            keys@ == iter.seq().unref().take(iter.index() as int),
            iter.index() == iter.seq().len() ==> keys@ == iter.seq().unref(),
    {
        keys.push(*key);
    }
    keys
}

fn set_within(a: &HashSet<i32>, b: &HashSet<i32>) -> (yes: bool)
    ensures
        yes == a@.subset_of(b@),
{
    let items = items_of(a);
    let mut i: usize = 0;
    while i < items.len()
        invariant
            i <= items@.len(),
            items@.to_set() == a@,
            forall|j: int| 0 <= j < i ==> b@.contains(#[trigger] items@[j]),
        decreases items@.len() - i,
    {
        if !b.contains(&items[i]) {
            assert(a@.contains(items@[i as int]));
            return false;
        }
        i += 1;
    }
    proof {
        assert forall|x: i32| a@.contains(x) implies b@.contains(x) by {
            assert(items@.contains(x));
        }
    }
    true
}

impl Comparable for HashSet<i32> {
    type Meaning = Set<i32>;

    open spec fn meaning(self) -> Set<i32> {
        self@
    }

    fn equals(&self, other: &Self) -> (yes: bool) {
        let yes = set_within(self, other) && set_within(other, self);
        proof {
            if yes {
                assert(self@ =~= other@);
            }
            assert(self.meaning() == self@ && other.meaning() == other@);
        }
        yes
    }
}

fn map_within(a: &HashMap<i32, u32>, b: &HashMap<i32, u32>) -> (yes: bool)
    ensures
        yes == a@.submap_of(b@),
{
    let keys = keys_of(a);
    let mut i: usize = 0;
    while i < keys.len()
        invariant
            i <= keys@.len(),
            keys@.to_set() == a@.dom(),
            forall|j: int|
                0 <= j < i ==> b@.dom().contains(#[trigger] keys@[j]) && a@[keys@[j]] == b@[keys@[j]],
        decreases keys@.len() - i,
    {
        let key: i32 = keys[i];
        assert(a@.dom().contains(keys@[i as int]));
        match (a.get(&key), b.get(&key)) {
            (Some(x), Some(y)) => {
                if *x != *y {
                    return false;
                }
            }
            _ => {
                return false;
            }
        }
        i += 1;
    }
    proof {
        assert forall|k: i32| a@.dom().contains(k) implies b@.dom().contains(k) && a@[k] == b@[k] by {
            assert(keys@.contains(k));
        }
    }
    true
}

impl Comparable for HashMap<i32, u32> {
    type Meaning = Map<i32, u32>;

    open spec fn meaning(self) -> Map<i32, u32> {
        self@
    }

    fn equals(&self, other: &Self) -> (yes: bool) {
        let yes = map_within(self, other) && map_within(other, self);
        proof {
            if yes {
                assert(self@.dom() =~= other@.dom());
                assert forall|k: i32| self@.dom().contains(k) implies self@[k] == other@[k] by {}
                assert(self@ =~= other@);
            }
            assert(self.meaning() == self@ && other.meaning() == other@);
        }
        yes
    }
}

} // verus!
