//! What holds of compiled rules and of the mutation operators, whatever the
//! scheme and whatever the random draws.

use crate::config::AtomicConstraint;
use crate::constraints::{
    first_error, lemma_first_error_stable, narrowed_to, narrows, rejection, Constraints,
};
use crate::error::ErrorView;
use crate::representation::{Element, Key, Representation};
use crate::rules::{rule_effect, rule_keys, rule_targets};
use vstd::prelude::*;

verus! {

/// A rule that cannot be resolved makes the compilation fail, wherever it
/// stands among the rules.
pub proof fn lemma_failing_rule_is_rejected(repr: &Representation, i: int)
    requires
        0 <= i < repr.rules().len(),
        rule_effect(repr, &repr.rules()[i]) is Err,
    ensures
        rejection(repr) is Some,
{
    let rules = repr.rules();
    lemma_first_error_stable(repr, rules, i + 1, rules.len() as int);
}

/// A rule that gives neither an element nor an index makes the compilation fail.
pub proof fn law_rule_without_target_is_rejected(repr: &Representation, i: int)
    requires
        0 <= i < repr.rules().len(),
        repr.rules()[i].element is None,
        repr.rules()[i].index is None,
    ensures
        rejection(repr) is Some,
{
    lemma_failing_rule_is_rejected(repr, i);
}

/// A rule with an empty list of keys makes the compilation fail, provided
/// that the rule selects at least one element slot or cannot be resolved at
/// all.  (A rule that selects no slot has no effect, and its keys are not
/// looked at.)
pub proof fn law_empty_key_list_is_rejected(repr: &Representation, i: int)
    requires
        0 <= i < repr.rules().len(),
        repr.rules()[i].keys matches Some(names) && names@.len() == 0,
        rule_targets(repr, &repr.rules()[i]) matches Ok(targets) ==> targets.len() > 0,
    ensures
        rejection(repr) is Some,
{
    lemma_failing_rule_is_rejected(repr, i);
}

/// The last rule that restricts an element decides its keys: they are the
/// keys of that rule alone, whatever earlier rules left to the element.
pub proof fn law_last_rule_wins(
    repr: &Representation,
    constraints: &Constraints,
    i: int,
    x: Element,
)
    requires
        constraints.compiled_from(repr),
        0 <= i < repr.rules().len(),
        narrows(repr, repr.rules(), i, x),
        forall|j: int| i < j < repr.rules().len() ==> !narrows(repr, repr.rules(), j, x),
    ensures
        constraints.narrowed@.contains_key(x),
        rule_keys(repr, &repr.rules()[i]) matches Ok(Some(keys)) && constraints.narrowed@[x]@
            == keys,
{
    let rules = repr.rules();
    lemma_narrowed_to_last(repr, rules, i, rules.len() as int, x);
}

/// The keys that the first `n` rules leave to `x` are those of rule `i`, if
/// that rule restricts `x` and none between it and `n` does.
proof fn lemma_narrowed_to_last(
    repr: &Representation,
    rules: Seq<AtomicConstraint>,
    i: int,
    n: int,
    x: Element,
)
    requires
        0 <= i < n,
        narrows(repr, rules, i, x),
        forall|j: int| i < j < n ==> !narrows(repr, rules, j, x),
    ensures
        narrowed_to(repr, rules, n, x) == rule_effect(repr, &rules[i])->Ok_0.keys,
        rule_keys(repr, &rules[i]) == Ok::<Option<Seq<Key>>, ErrorView>(
            rule_effect(repr, &rules[i])->Ok_0.keys,
        ),
    decreases n,
{
    if n > i + 1 {
        lemma_narrowed_to_last(repr, rules, i, n - 1, x);
    }
}

/// Two strictly ascending lists that hold the same elements are the same list.
proof fn lemma_ascending_lists_agree(a: Seq<Element>, b: Seq<Element>)
    requires
        forall|i: int, j: int| 0 <= i < j < a.len() ==> a[i] < a[j],
        forall|i: int, j: int| 0 <= i < j < b.len() ==> b[i] < b[j],
        forall|x: Element| a.contains(x) <==> b.contains(x),
    ensures
        a == b,
    decreases a.len(),
{
    if a.len() == 0 {
        if b.len() > 0 {
            assert(b.contains(b[0]));
        }
        assert(a =~= b);
    } else {
        // The last element of each list is the greatest of all.
        let top = a.last();
        assert(a.contains(top));
        let k = choose|k: int| 0 <= k < b.len() && b[k] == top;
        if k < b.len() - 1 {
            assert(b.contains(b.last()));
            let m = choose|m: int| 0 <= m < a.len() && a[m] == b.last();
            assert(a[m] <= top);
        }
        let a0 = a.drop_last();
        let b0 = b.drop_last();
        assert forall|x: Element| a0.contains(x) <==> b0.contains(x) by {
            if a0.contains(x) {
                let m = choose|m: int| 0 <= m < a0.len() && a0[m] == x;
                assert(a[m] == x);
                assert(a.contains(x));
                let q = choose|q: int| 0 <= q < b.len() && b[q] == x;
                assert(b0[q] == x);
            }
            if b0.contains(x) {
                let m = choose|m: int| 0 <= m < b0.len() && b0[m] == x;
                assert(b[m] == x);
                assert(b.contains(x));
                let q = choose|q: int| 0 <= q < a.len() && a[q] == x;
                assert(a0[q] == x);
            }
        }
        lemma_ascending_lists_agree(a0, b0);
        assert(a =~= a0.push(top));
        assert(b =~= b0.push(top));
    }
}

/// Compiling is a function of the scheme: whatever two values the rules
/// of one scheme compile to, they hold the same alphabet, the same fixed
/// elements, the same keys for the same narrowed elements, and the same
/// list of elements to pick from.
pub proof fn law_compiling_is_deterministic(
    repr: &Representation,
    one: &Constraints,
    other: &Constraints,
)
    requires
        one.compiled_from(repr),
        other.compiled_from(repr),
    ensures
        one.alphabet@ == other.alphabet@,
        one.elements == other.elements,
        one.fixed@ == other.fixed@,
        one.narrowed@.dom() == other.narrowed@.dom(),
        forall|x: Element| #[trigger]
            one.narrowed@.contains_key(x) ==> one.narrowed@[x]@ == other.narrowed@[x]@,
        one.movable@ == other.movable@,
{
    assert forall|x: Element| one.movable@.contains(x) <==> other.movable@.contains(x) by {
        if one.movable@.contains(x) {
            let k = choose|k: int| 0 <= k < one.movable@.len() && one.movable@[k] == x;
            assert(one.is_movable(one.movable@[k]));
            assert(other.is_movable(x));
        }
        if other.movable@.contains(x) {
            let k = choose|k: int| 0 <= k < other.movable@.len() && other.movable@[k] == x;
            assert(other.is_movable(other.movable@[k]));
            assert(one.is_movable(x));
        }
    }
    lemma_ascending_lists_agree(one.movable@, other.movable@);
}

/// An element that trades places with itself stays where it is.
pub proof fn law_swap_with_itself(constraints: &Constraints, map: Seq<Key>, element: Element)
    requires
        element < map.len(),
    ensures
        constraints.swap_result(map, element, element) == map,
{
}

/// Each operator keeps the length of the layout, leaves fixed elements
/// where they are, and places an element only on a key that its rule allows.
pub proof fn law_step_respects_rules(constraints: &Constraints, map: Seq<Key>, next: Seq<Key>)
    requires
        map.len() == constraints.elements,
        constraints.is_step(map, next),
    ensures
        constraints.respects(map, next),
{
}

/// Whether `trace` is a run of the search: each layout but the first is made
/// from the one before it by one of the three mutation operators.
pub open spec fn is_run(constraints: &Constraints, trace: Seq<Seq<Key>>) -> bool {
    &&& trace.len() > 0
    &&& trace[0].len() == constraints.elements
    &&& forall|i: int|
        0 <= i < trace.len() - 1 ==> constraints.is_step(#[trigger] trace[i], trace[i + 1])
}

/// If `next` obeys the rules as a successor of `map`, and `last` as a
/// successor of `next`, then `last` obeys them as a successor of `map`.
pub proof fn law_respects_is_transitive(
    constraints: &Constraints,
    map: Seq<Key>,
    next: Seq<Key>,
    last: Seq<Key>,
)
    requires
        constraints.respects(map, next),
        constraints.respects(next, last),
    ensures
        constraints.respects(map, last),
{
    assert forall|e: int| 0 <= e < map.len() && #[trigger] last[e] != map[e] implies
        !constraints.fixed@.contains(e as usize) && constraints.allows(e as usize, last[e]) by {
        if last[e] == next[e] {
            assert(next[e] != map[e]);
        }
    }
}

/// However many operators are applied in a row, every layout has the length
/// of the first one, every fixed element is still on its first key, and an
/// element that is on another key than at first is on one that its rule
/// allows.
pub proof fn law_run_respects_rules(constraints: &Constraints, trace: Seq<Seq<Key>>, i: int)
    requires
        is_run(constraints, trace),
        0 <= i < trace.len(),
    ensures
        constraints.respects(trace[0], trace[i]),
    decreases i,
{
    if i > 0 {
        law_run_respects_rules(constraints, trace, i - 1);
        law_step_respects_rules(constraints, trace[i - 1], trace[i]);
        law_respects_is_transitive(constraints, trace[0], trace[i - 1], trace[i]);
    }
}

} // verus!
