//! The mutation operators: each makes a candidate layout from the current
//! one without breaking a placement rule.

use crate::constraints::Constraints;
use crate::random::{choose_key, random_index};
use crate::representation::{Element, Key, KeyMap};
use rand::rngs::ThreadRng;
use vstd::prelude::*;

verus! {

broadcast use vstd::std_specs::hash::group_hash_axioms;

/// Whether `key` occurs in `keys`.
pub fn has_key(keys: &Vec<Key>, key: Key) -> (r: bool)
    ensures
        r == keys@.contains(key),
{
    let mut i: usize = 0;
    while i < keys.len()
        invariant
            i <= keys.len(),
            forall|j: int| 0 <= j < i ==> keys@[j] != key,
        decreases keys.len() - i,
    {
        if keys[i] == key {
            return true;
        }
        i += 1;
    }
    false
}

impl Constraints {
    /// The list of keys that `element` may be placed on.
    pub fn allowed_keys(&self, element: Element) -> (keys: &Vec<Key>)
        ensures
            keys@ == self.destinations(element),
    {
        match self.narrowed.get(&element) {
            Some(keys) => keys,
            None => &self.alphabet,
        }
    }

    /// Tests whether every element that may be picked has a key to go to.
    pub fn can_place(&self) -> (r: bool)
        requires
            self.wf(),
        ensures
            r == self.has_destinations(),
    {
        let mut i: usize = 0;
        while i < self.movable.len()
            invariant
                self.wf(),
                i <= self.movable@.len(),
                forall|j: int|
                    0 <= j < i ==> self.destinations(#[trigger] self.movable@[j]).len() > 0,
            decreases self.movable@.len() - i,
        {
            if self.allowed_keys(self.movable[i]).len() == 0 {
                assert(self.is_movable(self.movable@[i as int]));
                return false;
            }
            i += 1;
        }
        assert forall|e: Element| #[trigger] self.is_movable(e) implies self.destinations(e).len()
            > 0 by {
            let j = choose|j: int| 0 <= j < self.movable@.len() && self.movable@[j] == e;
            assert(self.destinations(self.movable@[j]).len() > 0);
        }
        true
    }

    fn get_movable_element(&self, rng: &mut ThreadRng) -> (element: Element)
        requires
            self.wf(),
        ensures
            self.is_movable(element),
    {
        let i = random_index(rng, self.movable.len());
        self.movable[i]
    }

    fn get_swappable_element(&self, rng: &mut ThreadRng) -> (element: Element)
        requires
            self.wf(),
        ensures
            self.is_movable(element),
    {
        let i = random_index(rng, self.movable.len());
        self.movable[i]
    }

    /// Lets `element1` and `element2` try to trade places in a copy of `map`.
    ///
    /// The two sides are judged apart, each against the keys in `map`: one
    /// may move while the other stays.
    pub fn swap_narrowed_elements(&self, map: &KeyMap, element1: Element, element2: Element) -> (next:
        KeyMap)
        requires
            element1 < map@.len(),
            element2 < map@.len(),
        ensures
            next@ == self.swap_result(map@, element1, element2),
    {
        let mut next = map.clone();
        let destinations1 = self.allowed_keys(element1);
        let destinations2 = self.allowed_keys(element2);
        if has_key(destinations1, map[element2]) {
            next[element1] = map[element2];
        }
        if has_key(destinations2, map[element1]) {
            next[element2] = map[element1];
        }
        next
    }

    /// Picks two elements that are not fixed and lets them try to trade places.
    pub fn constrained_random_swap(&self, map: &KeyMap) -> (next: KeyMap)
        requires
            self.wf(),
            map@.len() == self.elements,
        ensures
            self.is_swap(map@, next@),
            self.respects(map@, next@),
    {
        let mut rng = rand::thread_rng();
        let element1 = self.get_swappable_element(&mut rng);
        let element2 = self.get_swappable_element(&mut rng);
        self.swap_narrowed_elements(map, element1, element2)
    }

    /// Lets the elements on `key1` and those on `key2` trade places in a copy
    /// of `map`.  An element that is fixed, or whose rule does not allow the
    /// other key, stays.
    pub fn full_key_swap(&self, map: &KeyMap, key1: Key, key2: Key) -> (next: KeyMap)
        ensures
            next@ == self.group_swap_result(map@, key1, key2),
            self.respects(map@, next@),
    {
        let mut next = map.clone();
        let mut element: usize = 0;
        while element < map.len()
            invariant
                element <= map@.len(),
                next@.len() == map@.len(),
                forall|e: int|
                    0 <= e < element ==> next@[e] == self.group_target(map@, key1, key2, e),
                forall|e: int| element <= e < map@.len() ==> next@[e] == map@[e],
            decreases map@.len() - element,
        {
            let key = map[element];
            if (key == key1 || key == key2) && !self.fixed.contains(&element) {
                let destination = if key == key2 {
                    key1
                } else {
                    key2
                };
                if has_key(self.allowed_keys(element), destination) {
                    next[element] = destination;
                }
            }
            element += 1;
        }
        next
    }

    /// Picks an element that is not fixed and one of the keys that it may go
    /// to, then lets the elements on its present key and those on the picked
    /// key trade places.
    pub fn constrained_full_key_swap(&self, map: &KeyMap) -> (next: KeyMap)
        requires
            self.wf(),
            self.has_destinations(),
            map@.len() == self.elements,
        ensures
            self.is_group_swap(map@, next@),
            self.respects(map@, next@),
    {
        let mut rng = rand::thread_rng();
        let movable_element = self.get_movable_element(&mut rng);
        let key1 = map[movable_element];
        let destinations = self.allowed_keys(movable_element);
        let key2 = choose_key(destinations, &mut rng).unwrap();
        self.full_key_swap(map, key1, key2)
    }

    /// Picks an element that is not fixed and places it on one of the keys
    /// that it may go to.
    pub fn constrained_random_move(&self, map: &KeyMap) -> (next: KeyMap)
        requires
            self.wf(),
            self.has_destinations(),
            map@.len() == self.elements,
        ensures
            self.is_move(map@, next@),
            self.respects(map@, next@),
    {
        let mut rng = rand::thread_rng();
        let mut next = map.clone();
        let movable_element = self.get_movable_element(&mut rng);
        let destinations = self.allowed_keys(movable_element);
        let key = choose_key(destinations, &mut rng).unwrap();
        next[movable_element] = key;
        next
    }
}

} // verus!
