//! Placement rules in compiled form, and how the rules of a scheme are compiled.

use crate::config::AtomicConstraint;
use crate::error::{Error, ErrorView};
use crate::representation::{find_key, Element, Key, Representation};
use crate::rules::{resolve_keys, resolve_targets, rule_effect, Effect};
use std::collections::{HashMap, HashSet};
use vstd::prelude::*;

verus! {

broadcast use vstd::std_specs::hash::group_hash_axioms;

/// Placement rules in the form that the mutation operators query.
#[derive(Debug)]
pub struct Constraints {
    /// Every key that an unrestricted element may be placed on.
    pub alphabet: Vec<Key>,
    /// The number of elements; a layout has this length.
    pub elements: usize,
    /// The elements that stay where they are.
    pub fixed: HashSet<Element>,
    /// The elements that may only be placed on the listed keys.
    pub narrowed: HashMap<Element, Vec<Key>>,
    /// The elements that are not fixed, in ascending order.
    pub movable: Vec<Element>,
}

impl Constraints {
    /// An element that the operators may pick: one of the layout that is not fixed.
    pub open spec fn is_movable(&self, element: Element) -> bool {
        element < self.elements && !self.fixed@.contains(element)
    }

    /// The keys that `element` may be placed on: its own list if it is
    /// narrowed, the whole alphabet otherwise.
    pub open spec fn destinations(&self, element: Element) -> Seq<Key> {
        if self.narrowed@.contains_key(element) {
            self.narrowed@[element]@
        } else {
            self.alphabet@
        }
    }

    /// Whether `element` may be placed on `key`.
    pub open spec fn allows(&self, element: Element, key: Key) -> bool {
        self.destinations(element).contains(key)
    }

    /// The invariant of compiled rules: they speak of elements of the layout
    /// only, no narrowed element is left without a key, and `movable` lists
    /// exactly the elements that are not fixed, of which there is at least one.
    pub open spec fn wf(&self) -> bool {
        &&& forall|e: Element| #[trigger] self.fixed@.contains(e) ==> e < self.elements
        &&& forall|e: Element| #[trigger]
            self.narrowed@.contains_key(e) ==> e < self.elements && self.narrowed@[e]@.len() > 0
        &&& self.movable@.len() > 0
        &&& forall|i: int, j: int|
            0 <= i < j < self.movable@.len() ==> self.movable@[i] < self.movable@[j]
        &&& forall|i: int|
            0 <= i < self.movable@.len() ==> self.is_movable(#[trigger] self.movable@[i])
        &&& forall|e: Element| #[trigger] self.is_movable(e) ==> self.movable@.contains(e)
    }

    /// Every element that may be picked has at least one key to go to.
    pub open spec fn has_destinations(&self) -> bool {
        forall|e: Element| #[trigger] self.is_movable(e) ==> self.destinations(e).len() > 0
    }

    /// What every operator guarantees of the layout `next` that it makes from
    /// `map`: the length is kept, and an element whose key differs is not
    /// fixed and sits on a key that its rule allows.
    pub open spec fn respects(&self, map: Seq<Key>, next: Seq<Key>) -> bool {
        &&& next.len() == map.len()
        &&& forall|e: int|
            0 <= e < map.len() && #[trigger] next[e] != map[e] ==> !self.fixed@.contains(
                e as usize,
            ) && self.allows(e as usize, next[e])
    }

    /// The layout after `element1` and `element2` tried to trade places: each
    /// of them takes the key that the other had in `map` if its own rule
    /// allows that key, whatever the other one does.
    pub open spec fn swap_result(&self, map: Seq<Key>, element1: Element, element2: Element) -> Seq<
        Key,
    > {
        let first = if self.allows(element1, map[element2 as int]) {
            map.update(element1 as int, map[element2 as int])
        } else {
            map
        };
        if self.allows(element2, map[element1 as int]) {
            first.update(element2 as int, map[element1 as int])
        } else {
            first
        }
    }

    /// The key of `element` after the groups on `key1` and `key2` traded
    /// places: an element on one of the two keys goes to the other one, unless
    /// it is fixed or its rule does not allow that key.
    pub open spec fn group_target(&self, map: Seq<Key>, key1: Key, key2: Key, element: int) -> Key {
        let key = map[element];
        let other = if key == key2 {
            key1
        } else {
            key2
        };
        if (key == key1 || key == key2) && !self.fixed@.contains(element as usize) && self.allows(
            element as usize,
            other,
        ) {
            other
        } else {
            key
        }
    }

    /// The layout after the groups on `key1` and `key2` traded places.
    pub open spec fn group_swap_result(&self, map: Seq<Key>, key1: Key, key2: Key) -> Seq<Key> {
        Seq::new(map.len(), |e: int| self.group_target(map, key1, key2, e))
    }

    /// Whether `next` is `map` with one element that is not fixed placed on
    /// a key that it may go to.
    pub open spec fn is_move(&self, map: Seq<Key>, next: Seq<Key>) -> bool {
        exists|e: Element, key: Key|
            self.is_movable(e) && self.allows(e, key) && next == #[trigger] map.update(
                e as int,
                key,
            )
    }

    /// Whether `next` is `map` after two elements that are not fixed tried
    /// to trade places.
    pub open spec fn is_swap(&self, map: Seq<Key>, next: Seq<Key>) -> bool {
        exists|e1: Element, e2: Element|
            self.is_movable(e1) && self.is_movable(e2) && next == #[trigger] self.swap_result(
                map,
                e1,
                e2,
            )
    }

    /// Whether `next` is `map` after the group on the key of an element that
    /// is not fixed traded places with the group on a key that the element
    /// may go to.
    pub open spec fn is_group_swap(&self, map: Seq<Key>, next: Seq<Key>) -> bool {
        exists|e: Element, key2: Key|
            self.is_movable(e) && self.allows(e, key2) && next == #[trigger] self.group_swap_result(
                map,
                map[e as int],
                key2,
            )
    }

    /// Whether one of the three mutation operators can make `next` from `map`.
    pub open spec fn is_step(&self, map: Seq<Key>, next: Seq<Key>) -> bool {
        ||| self.is_move(map, next)
        ||| self.is_swap(map, next)
        ||| self.is_group_swap(map, next)
    }
}

/// Whether rule `i` of `rules` fixes the element `x` in place.
pub open spec fn fixes(repr: &Representation, rules: Seq<AtomicConstraint>, i: int, x: Element)
    -> bool {
    rule_effect(repr, &rules[i]) matches Ok(effect) && effect.keys is None
        && effect.targets.contains(x)
}

/// Whether rule `i` of `rules` restricts the element `x` to a list of keys.
pub open spec fn narrows(repr: &Representation, rules: Seq<AtomicConstraint>, i: int, x: Element)
    -> bool {
    rule_effect(repr, &rules[i]) matches Ok(effect) && effect.keys is Some
        && effect.targets.contains(x)
}

/// The error of the first of the first `n` rules that cannot be resolved.
pub open spec fn first_error(repr: &Representation, rules: Seq<AtomicConstraint>, n: int)
    -> Option<ErrorView>
    decreases n,
{
    if n <= 0 {
        None
    } else {
        match first_error(repr, rules, n - 1) {
            Some(e) => Some(e),
            None => match rule_effect(repr, &rules[n - 1]) {
                Err(e) => Some(e),
                Ok(_) => None,
            },
        }
    }
}

/// Whether one of the first `n` rules fixes the element `x`.
pub open spec fn fixed_by(repr: &Representation, rules: Seq<AtomicConstraint>, n: int, x: Element)
    -> bool {
    exists|i: int| 0 <= i < n && #[trigger] fixes(repr, rules, i, x)
}

/// The keys that the first `n` rules leave to the element `x`, if any of
/// them restricts it: those of the last rule that does.
pub open spec fn narrowed_to(
    repr: &Representation,
    rules: Seq<AtomicConstraint>,
    n: int,
    x: Element,
) -> Option<Seq<Key>>
    decreases n,
{
    if n <= 0 {
        None
    } else if narrows(repr, rules, n - 1, x) {
        rule_effect(repr, &rules[n - 1])->Ok_0.keys
    } else {
        narrowed_to(repr, rules, n - 1, x)
    }
}

/// Whether `fixed` and `narrowed` hold what the first `n` rules say.
pub open spec fn compiled_upto(
    repr: &Representation,
    rules: Seq<AtomicConstraint>,
    n: int,
    fixed: Set<Element>,
    narrowed: Map<Element, Vec<Key>>,
) -> bool {
    &&& forall|x: Element|
        #![trigger fixed.contains(x)]
        #![trigger fixed_by(repr, rules, n, x)]
        fixed.contains(x) <==> fixed_by(repr, rules, n, x)
    &&& forall|x: Element|
        #![trigger narrowed.contains_key(x)]
        #![trigger narrowed_to(repr, rules, n, x)]
        narrowed.contains_key(x) <==> narrowed_to(repr, rules, n, x) is Some
    &&& forall|x: Element| #[trigger]
        narrowed.contains_key(x) ==> narrowed[x]@ == narrowed_to(repr, rules, n, x)->Some_0
}

/// Why the rules of `repr` cannot be compiled, if they cannot: the error of
/// the first rule that cannot be resolved, or, if all can, that they leave
/// no element to move.
pub open spec fn rejection(repr: &Representation) -> Option<ErrorView> {
    let rules = repr.rules();
    match first_error(repr, rules, rules.len() as int) {
        Some(e) => Some(e),
        None => if forall|x: Element|
            x < repr.element_count() ==> #[trigger] fixed_by(repr, rules, rules.len() as int, x) {
            Some(ErrorView::NoMovableElement)
        } else {
            None
        },
    }
}

/// Once a rule has failed, reading more rules does not change the error.
pub proof fn lemma_first_error_stable(
    repr: &Representation,
    rules: Seq<AtomicConstraint>,
    n: int,
    m: int,
)
    requires
        n <= m,
        first_error(repr, rules, n) is Some,
    ensures
        first_error(repr, rules, m) == first_error(repr, rules, n),
    decreases m - n,
{
    if n < m {
        lemma_first_error_stable(repr, rules, n, m - 1);
    }
}

/// Whether `fixed` and `narrowed` speak of the first `count` elements only,
/// and leave every narrowed element at least one key.
pub open spec fn in_range(count: nat, fixed: Set<Element>, narrowed: Map<Element, Vec<Key>>)
    -> bool {
    &&& forall|x: Element| #[trigger] fixed.contains(x) ==> x < count
    &&& forall|x: Element| #[trigger]
        narrowed.contains_key(x) ==> x < count && narrowed[x]@.len() > 0
}

/// Whether `fixed1` and `narrowed1` are `fixed0` and `narrowed0` after a
/// rule with this `effect`: its targets are added to the fixed elements, or
/// are given its keys in place of any they had.
pub open spec fn applied(
    effect: Effect,
    fixed0: Set<Element>,
    narrowed0: Map<Element, Vec<Key>>,
    fixed1: Set<Element>,
    narrowed1: Map<Element, Vec<Key>>,
) -> bool {
    match effect.keys {
        None => {
            &&& narrowed1 == narrowed0
            &&& forall|x: Element| #[trigger]
                fixed1.contains(x) <==> fixed0.contains(x) || effect.targets.contains(x)
        },
        Some(keys) => {
            &&& fixed1 == fixed0
            &&& forall|x: Element| #[trigger]
                narrowed1.contains_key(x) <==> narrowed0.contains_key(x)
                    || effect.targets.contains(x)
            &&& forall|x: Element|
                effect.targets.contains(x) ==> (#[trigger] narrowed1[x])@ == keys
            &&& forall|x: Element|
                !effect.targets.contains(x) && narrowed0.contains_key(x) ==> #[trigger] narrowed1[x]
                    == narrowed0[x]
        },
    }
}

/// One more element of `list` is in reach: what the first `n + 1` hold is
/// what the first `n` hold and the one at `n`.
proof fn lemma_prefix_grows(list: Seq<Element>, n: int)
    requires
        0 <= n < list.len(),
    ensures
        forall|x: Element|
            list.subrange(0, n + 1).contains(x) <==> list.subrange(0, n).contains(x) || x
                == list[n],
{
    let before = list.subrange(0, n);
    let after = list.subrange(0, n + 1);
    assert forall|x: Element| after.contains(x) <==> before.contains(x) || x == list[n] by {
        if x == list[n] {
            assert(after[n] == x);
        }
    }
}

/// Resolves `rule` and records what it says in `fixed` and `narrowed`.
fn apply_rule(
    repr: &Representation,
    rule: &AtomicConstraint,
    fixed: &mut HashSet<Element>,
    narrowed: &mut HashMap<Element, Vec<Key>>,
) -> (r: Result<(), Error>)
    requires
        repr.wf(),
        in_range(repr.element_count(), old(fixed)@, old(narrowed)@),
    ensures
        match r {
            Ok(()) => rule_effect(repr, rule) matches Ok(effect) && applied(
                effect,
                old(fixed)@,
                old(narrowed)@,
                final(fixed)@,
                final(narrowed)@,
            ) && in_range(repr.element_count(), final(fixed)@, final(narrowed)@),
            Err(e) => rule_effect(repr, rule) matches Err(x) && x == e@,
        },
{
    let targets = match resolve_targets(repr, rule) {
        Ok(targets) => targets,
        Err(e) => {
            return Err(e);
        },
    };
    if targets.len() == 0 {
        return Ok(());
    }
    let keys = match resolve_keys(repr, rule) {
        Ok(keys) => keys,
        Err(e) => {
            return Err(e);
        },
    };
    match keys {
        None => {
            let mut j: usize = 0;
            while j < targets.len()
                invariant
                    j <= targets@.len(),
                    forall|x: Element| #[trigger]
                        fixed@.contains(x) <==> old(fixed)@.contains(x) || targets@.subrange(
                            0,
                            j as int,
                        ).contains(x),
                    forall|i: int|
                        0 <= i < targets@.len() ==> #[trigger] targets@[i] < repr.element_count(),
                    in_range(repr.element_count(), fixed@, narrowed@),
                    narrowed@ == old(narrowed)@,
                decreases targets@.len() - j,
            {
                fixed.insert(targets[j]);
                proof {
                    lemma_prefix_grows(targets@, j as int);
                }
                j += 1;
            }
            assert(targets@.subrange(0, targets@.len() as int) == targets@);
            Ok(())
        },
        Some(keys) => {
            let mut j: usize = 0;
            while j < targets.len()
                invariant
                    j <= targets@.len(),
                    keys@.len() > 0,
                    forall|x: Element| #[trigger]
                        narrowed@.contains_key(x) <==> old(narrowed)@.contains_key(x)
                            || targets@.subrange(0, j as int).contains(x),
                    forall|x: Element|
                        targets@.subrange(0, j as int).contains(x) ==> (#[trigger] narrowed@[x])@
                            == keys@,
                    forall|x: Element|
                        !targets@.subrange(0, j as int).contains(x) && old(
                            narrowed,
                        )@.contains_key(x) ==> #[trigger] narrowed@[x] == old(narrowed)@[x],
                    forall|i: int|
                        0 <= i < targets@.len() ==> #[trigger] targets@[i] < repr.element_count(),
                    in_range(repr.element_count(), fixed@, narrowed@),
                    fixed@ == old(fixed)@,
                decreases targets@.len() - j,
            {
                narrowed.insert(targets[j], keys.clone());
                proof {
                    lemma_prefix_grows(targets@, j as int);
                }
                j += 1;
            }
            assert(targets@.subrange(0, targets@.len() as int) == targets@);
            Ok(())
        },
    }
}

/// Applies the rules of `list`, which stand in `all` from `offset` on, to
/// `fixed` and `narrowed`, which hold what the rules before them say.
fn apply_rules(
    repr: &Representation,
    list: &Vec<AtomicConstraint>,
    all: Ghost<Seq<AtomicConstraint>>,
    offset: Ghost<int>,
    fixed: &mut HashSet<Element>,
    narrowed: &mut HashMap<Element, Vec<Key>>,
) -> (r: Result<(), Error>)
    requires
        repr.wf(),
        0 <= offset@,
        offset@ + list@.len() <= all@.len(),
        forall|i: int| 0 <= i < list@.len() ==> all@[offset@ + i] == #[trigger] list@[i],
        first_error(repr, all@, offset@) is None,
        compiled_upto(repr, all@, offset@, old(fixed)@, old(narrowed)@),
        in_range(repr.element_count(), old(fixed)@, old(narrowed)@),
    ensures
        match r {
            Ok(()) => {
                &&& first_error(repr, all@, offset@ + list@.len()) is None
                &&& compiled_upto(
                    repr,
                    all@,
                    offset@ + list@.len(),
                    final(fixed)@,
                    final(narrowed)@,
                )
                &&& in_range(repr.element_count(), final(fixed)@, final(narrowed)@)
            },
            Err(e) => first_error(repr, all@, all@.len() as int) == Some(e@),
        },
{
    let mut i: usize = 0;
    while i < list.len()
        invariant
            repr.wf(),
            i <= list@.len(),
            0 <= offset@,
            offset@ + list@.len() <= all@.len(),
            forall|k: int| 0 <= k < list@.len() ==> all@[offset@ + k] == #[trigger] list@[k],
            first_error(repr, all@, offset@ + i) is None,
            compiled_upto(repr, all@, offset@ + i, fixed@, narrowed@),
            in_range(repr.element_count(), fixed@, narrowed@),
        decreases list@.len() - i,
    {
        let ghost n = offset@ + i;
        match apply_rule(repr, &list[i], fixed, narrowed) {
            Ok(()) => {
                proof {
                    let effect = rule_effect(repr, &all@[n])->Ok_0;
                    assert forall|x: Element|
                        fixes(repr, all@, n, x) <==> effect.keys is None
                            && effect.targets.contains(x) by {}
                    assert forall|x: Element|
                        narrows(repr, all@, n, x) <==> effect.keys is Some
                            && effect.targets.contains(x) by {}
                    assert forall|x: Element|
                        fixed_by(repr, all@, n + 1, x) <==> fixed_by(repr, all@, n, x) || fixes(
                            repr,
                            all@,
                            n,
                            x,
                        ) by {}
                }
            },
            Err(e) => {
                proof {
                    lemma_first_error_stable(repr, all@, n + 1, all@.len() as int);
                }
                return Err(e);
            },
        }
        i += 1;
    }
    Ok(())
}

/// The elements below `count` that are not in `fixed`, in ascending order.
fn movable_elements(count: usize, fixed: &HashSet<Element>) -> (movable: Vec<Element>)
    ensures
        forall|i: int, j: int| 0 <= i < j < movable@.len() ==> movable@[i] < movable@[j],
        forall|i: int|
            0 <= i < movable@.len() ==> (#[trigger] movable@[i]) < count && !fixed@.contains(
                movable@[i],
            ),
        forall|x: Element| x < count && !fixed@.contains(x) ==> movable@.contains(x),
{
    let mut movable: Vec<Element> = Vec::new();
    let mut element: usize = 0;
    while element < count
        invariant
            element <= count,
            forall|i: int, j: int| 0 <= i < j < movable@.len() ==> movable@[i] < movable@[j],
            forall|i: int|
                0 <= i < movable@.len() ==> (#[trigger] movable@[i]) < element && !fixed@.contains(
                    movable@[i],
                ),
            forall|x: Element| x < element && !fixed@.contains(x) ==> movable@.contains(x),
        decreases count - element,
    {
        if !fixed.contains(&element) {
            let ghost before = movable@;
            movable.push(element);
            assert forall|x: Element| x < element + 1 && !fixed@.contains(x) implies movable@.contains(
                x,
            ) by {
                if x < element {
                    let k = choose|k: int| 0 <= k < before.len() && before[k] == x;
                    assert(movable@[k] == x);
                } else {
                    assert(movable@[before.len() as int] == x);
                }
            }
        }
        element += 1;
    }
    movable
}

/// The handles of the keys of the alphabet of `repr`, in its order.
fn alphabet_of(repr: &Representation) -> (alphabet: Vec<Key>)
    requires
        repr.wf(),
    ensures
        alphabet@ == repr.alphabet_keys(),
{
    let letters = repr.alphabet.as_str();
    let count = letters.unicode_len();
    let mut alphabet: Vec<Key> = Vec::new();
    let mut i: usize = 0;
    while i < count
        invariant
            repr.wf(),
            i <= count,
            count == repr.alphabet@.len(),
            letters@ == repr.alphabet@,
            alphabet@.len() == i,
            forall|j: int|
                0 <= j < i ==> alphabet@[j] == repr.key_of(#[trigger] repr.alphabet@[j])->Some_0,
        decreases count - i,
    {
        let letter = letters.get_char(i);
        let key = find_key(&repr.key_repr, letter).unwrap();
        alphabet.push(key);
        i += 1;
    }
    alphabet
}

impl Constraints {
    /// Whether `self` is what the rules of `repr` compile to.
    ///
    /// The alphabet and the number of elements are those of `repr`; an
    /// element is fixed if some rule fixes it; an element is narrowed if
    /// some rule restricts it, and then to the keys of the last rule that
    /// does.
    pub open spec fn compiled_from(&self, repr: &Representation) -> bool {
        &&& self.alphabet@ == repr.alphabet_keys()
        &&& self.elements == repr.element_count()
        &&& compiled_upto(
            repr,
            repr.rules(),
            repr.rules().len() as int,
            self.fixed@,
            self.narrowed@,
        )
        &&& self.wf()
    }

    /// Compiles the placement rules of `representation`.
    ///
    /// Fails if a rule cannot be resolved, or if the rules fix every
    /// element, so that the mutation operators would have nothing to pick.
    pub fn new(representation: &Representation) -> (r: Result<Constraints, Error>)
        requires
            representation.wf(),
        ensures
            match r {
                Ok(constraints) => rejection(representation) is None
                    && constraints.compiled_from(representation),
                Err(e) => rejection(representation) == Some(e@),
            },
    {
        let elements = representation.initial.len();
        let alphabet = alphabet_of(representation);
        let mut fixed: HashSet<Element> = HashSet::new();
        let mut narrowed: HashMap<Element, Vec<Key>> = HashMap::new();
        let ghost all = representation.rules();
        let ghost mut done: int = 0;
        if let Some(lists) = &representation.constraints {
            if let Some(list) = &lists.elements {
                match apply_rules(
                    representation,
                    list,
                    Ghost(all),
                    Ghost(done),
                    &mut fixed,
                    &mut narrowed,
                ) {
                    Ok(()) => {},
                    Err(e) => {
                        return Err(e);
                    },
                }
                proof {
                    done = done + list@.len();
                }
            }
            if let Some(list) = &lists.indices {
                match apply_rules(
                    representation,
                    list,
                    Ghost(all),
                    Ghost(done),
                    &mut fixed,
                    &mut narrowed,
                ) {
                    Ok(()) => {},
                    Err(e) => {
                        return Err(e);
                    },
                }
                proof {
                    done = done + list@.len();
                }
            }
            if let Some(list) = &lists.element_indices {
                match apply_rules(
                    representation,
                    list,
                    Ghost(all),
                    Ghost(done),
                    &mut fixed,
                    &mut narrowed,
                ) {
                    Ok(()) => {},
                    Err(e) => {
                        return Err(e);
                    },
                }
                proof {
                    done = done + list@.len();
                }
            }
        }
        let movable = movable_elements(elements, &fixed);
        if movable.len() == 0 {
            proof {
                assert forall|x: Element| x < representation.element_count() implies #[trigger] fixed_by(
                    representation,
                    all,
                    all.len() as int,
                    x,
                ) by {
                    if !fixed@.contains(x) {
                        assert(movable@.contains(x));
                    }
                }
            }
            return Err(Error::NoMovableElement);
        }
        proof {
            let witness = movable@[0];
            assert(!fixed_by(representation, all, all.len() as int, witness));
        }
        Ok(Constraints { alphabet, elements, fixed, narrowed, movable })
    }
}

} // verus!
