use chai::config::{AtomicConstraint, ConstraintsConfig, Mapped};
use chai::constraints::Constraints;
use chai::mutation::has_key;
use chai::representation::{ElementEntry, KeyEntry, MappingEntry, Representation};
use std::collections::{HashMap, HashSet};

const A: usize = 0;
const B: usize = 1;
const C: usize = 2;
const D: usize = 3;

fn constraints(
    elements: usize,
    fixed: Vec<usize>,
    narrowed: Vec<(usize, Vec<usize>)>,
) -> Constraints {
    let fixed: HashSet<usize> = fixed.into_iter().collect();
    let narrowed: HashMap<usize, Vec<usize>> = narrowed.into_iter().collect();
    let movable = (0..elements).filter(|e| !fixed.contains(e)).collect();
    Constraints { alphabet: vec![A, B, C, D], elements, fixed, narrowed, movable }
}

/// Four elements on the alphabet A to D: element 0 is fixed, element 1 may
/// go to C and D only, elements 2 and 3 may go anywhere.
fn compiled() -> Constraints {
    let names = ["s", "t", "u", "v"];
    let rule = |element: &str, keys: Option<&str>| AtomicConstraint {
        element: Some(element.to_string()),
        index: Some(0),
        keys: keys.map(|k| k.chars().collect()),
    };
    let repr = Representation {
        alphabet: "ABCD".to_string(),
        mapping: names
            .iter()
            .map(|n| MappingEntry { name: n.to_string(), code: Mapped::Basic("A".to_string()) })
            .collect(),
        constraints: Some(ConstraintsConfig {
            elements: None,
            indices: None,
            element_indices: Some(vec![rule("s", None), rule("t", Some("CD"))]),
        }),
        initial: vec![A, C, A, B],
        element_repr: names
            .iter()
            .enumerate()
            .map(|(i, n)| ElementEntry { name: n.to_string(), index: 0, element: i })
            .collect(),
        key_repr: "ABCD".chars().enumerate().map(|(i, name)| KeyEntry { name, key: i }).collect(),
    };
    assert!(repr.is_well_formed());
    Constraints::new(&repr).unwrap()
}

fn obeys(constraints: &Constraints, map: &[usize], next: &[usize]) -> bool {
    next.len() == map.len()
        && (0..map.len()).all(|e| {
            next[e] == map[e]
                || (!constraints.fixed.contains(&e)
                    && constraints.allowed_keys(e).contains(&next[e]))
        })
}

#[test]
fn has_key_tells_membership() {
    assert!(has_key(&vec![3, 1, 2], 1));
    assert!(has_key(&vec![3, 1, 2], 2));
    assert!(!has_key(&vec![3, 1, 2], 0));
    assert!(!has_key(&vec![], 0));
}

#[test]
fn allowed_keys_are_the_narrowed_list_or_the_alphabet() {
    let c = constraints(3, vec![0], vec![(1, vec![C, D]), (0, vec![B])]);
    assert_eq!(c.allowed_keys(1), &vec![C, D]);
    assert_eq!(c.allowed_keys(2), &vec![A, B, C, D]);
    assert_eq!(c.allowed_keys(0), &vec![B]);
}

#[test]
fn swap_exchanges_the_keys_when_both_sides_may() {
    let c = constraints(3, vec![], vec![(0, vec![A, B])]);
    assert_eq!(c.swap_narrowed_elements(&vec![A, B, C], 0, 1), vec![B, A, C]);
    assert_eq!(c.swap_narrowed_elements(&vec![A, B, C], 1, 0), vec![B, A, C]);
    assert_eq!(c.swap_narrowed_elements(&vec![A, B, C], 1, 2), vec![A, C, B]);
}

#[test]
fn swap_can_move_one_side_only() {
    // Element 0 may go anywhere; element 1 may not go to the key of element 0.
    let c = constraints(2, vec![], vec![(1, vec![B, C])]);
    let map = vec![A, B];
    assert_eq!(c.swap_narrowed_elements(&map, 0, 1), vec![B, B]);
    assert_eq!(c.swap_narrowed_elements(&map, 1, 0), vec![B, B]);
    assert_eq!(map, vec![A, B]);
    // The other way round: only the narrowed element can move.
    let c = constraints(2, vec![], vec![(0, vec![A]), (1, vec![A, B])]);
    assert_eq!(c.swap_narrowed_elements(&vec![A, B], 0, 1), vec![A, A]);
}

#[test]
fn swap_that_neither_side_may_make_changes_nothing() {
    let c = constraints(3, vec![], vec![(0, vec![A]), (1, vec![B])]);
    assert_eq!(c.swap_narrowed_elements(&vec![A, B, C], 0, 1), vec![A, B, C]);
}

#[test]
fn swap_of_an_element_with_itself_changes_nothing() {
    let c = constraints(3, vec![], vec![(1, vec![C])]);
    assert_eq!(c.swap_narrowed_elements(&vec![A, B, C], 0, 0), vec![A, B, C]);
    assert_eq!(c.swap_narrowed_elements(&vec![A, B, C], 1, 1), vec![A, B, C]);
}

#[test]
fn full_key_swap_moves_both_groups() {
    let c = constraints(6, vec![], vec![]);
    let map = vec![A, B, A, C, B, D];
    assert_eq!(c.full_key_swap(&map, A, B), vec![B, A, B, C, A, D]);
    assert_eq!(c.full_key_swap(&map, B, A), vec![B, A, B, C, A, D]);
    assert_eq!(c.full_key_swap(&map, C, C), map);
    assert_eq!(c.full_key_swap(&map, A, A), map);
    assert_eq!(map, vec![A, B, A, C, B, D]);
}

#[test]
fn full_key_swap_leaves_fixed_and_disallowed_elements() {
    // Element 0 is fixed, element 2 may not go to B, element 4 may go to A.
    let c = constraints(6, vec![0], vec![(2, vec![A, C]), (4, vec![A, B])]);
    let map = vec![A, B, A, C, B, A];
    assert_eq!(c.full_key_swap(&map, A, B), vec![A, A, A, C, A, B]);
    // A fixed element stays even if it is narrowed to the other key.
    let c = constraints(2, vec![0], vec![(0, vec![B])]);
    assert_eq!(c.full_key_swap(&vec![A, B], A, B), vec![A, A]);
}

#[test]
fn full_key_swap_with_a_key_off_the_alphabet_moves_nothing_there() {
    let c = constraints(3, vec![], vec![(1, vec![A, 9])]);
    // Elements 0 and 2 may not go to key 9; element 1 may.
    assert_eq!(c.full_key_swap(&vec![A, A, B], A, 9), vec![A, 9, B]);
}

#[test]
fn random_move_changes_one_allowed_entry_at_most() {
    let c = compiled();
    let map = vec![A, C, A, B];
    for _ in 0..2000 {
        let next = c.constrained_random_move(&map);
        assert!(obeys(&c, &map, &next));
        let changed = (0..4).filter(|&e| next[e] != map[e]).count();
        assert!(changed <= 1);
    }
    assert_eq!(map, vec![A, C, A, B]);
}

#[test]
fn random_move_end_to_end() {
    let c = compiled();
    assert_eq!(c.movable, vec![1, 2, 3]);
    assert_eq!(c.narrowed.get(&1), Some(&vec![C, D]));
    let mut map = vec![A, C, A, B];
    let mut seen = [[0usize; 4]; 4];
    for _ in 0..10_000 {
        map = c.constrained_random_move(&map);
        assert_eq!(map.len(), 4);
        assert_eq!(map[0], A);
        assert!(map[1] == C || map[1] == D);
        for e in 0..4 {
            assert!(map[e] <= D);
            seen[e][map[e]] += 1;
        }
    }
    assert_eq!(seen[0], [10_000, 0, 0, 0]);
    assert_eq!(seen[1][A] + seen[1][B], 0);
    assert!(seen[1][C] > 0 && seen[1][D] > 0);
    for e in 2..4 {
        for key in [A, B, C, D] {
            assert!(seen[e][key] > 0);
        }
    }
}

#[test]
fn random_swap_obeys_the_rules() {
    let c = compiled();
    let map = vec![A, C, D, B];
    let mut moved = false;
    for _ in 0..2000 {
        let next = c.constrained_random_swap(&map);
        assert!(obeys(&c, &map, &next));
        assert_eq!(next[0], A);
        moved = moved || next != map;
    }
    assert!(moved);
}

#[test]
fn random_full_key_swap_obeys_the_rules() {
    let c = compiled();
    let map = vec![A, C, A, C];
    let mut moved = false;
    for _ in 0..2000 {
        let next = c.constrained_full_key_swap(&map);
        assert!(obeys(&c, &map, &next));
        assert_eq!(next[0], A);
        moved = moved || next != map;
    }
    assert!(moved);
}

#[test]
fn operators_keep_the_length_however_often_they_are_applied() {
    let c = compiled();
    let first = vec![A, C, A, B];
    let mut map = first.clone();
    for round in 0..3000 {
        let next = match round % 3 {
            0 => c.constrained_random_move(&map),
            1 => c.constrained_random_swap(&map),
            _ => c.constrained_full_key_swap(&map),
        };
        assert_eq!(next.len(), first.len());
        assert!(obeys(&c, &map, &next));
        assert!(obeys(&c, &first, &next));
        map = next;
    }
}

#[test]
fn single_movable_element_is_always_the_one_picked() {
    let c = constraints(3, vec![0, 2], vec![(1, vec![D])]);
    for _ in 0..200 {
        assert_eq!(c.constrained_random_move(&vec![A, B, C]), vec![A, D, C]);
        assert_eq!(c.constrained_random_swap(&vec![A, B, C]), vec![A, B, C]);
        assert_eq!(c.constrained_full_key_swap(&vec![A, B, B]), vec![A, D, B]);
    }
}
