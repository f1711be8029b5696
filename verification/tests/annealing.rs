use chai::annealing::{Controller, Operator, Outcome, Phase, Ratio, Settings, Trial, Verdict, Weights};
use chai::constraints::Constraints;
use std::collections::{HashMap, HashSet};

fn rules() -> Constraints {
    let fixed: HashSet<usize> = [0].into_iter().collect();
    let narrowed: HashMap<usize, Vec<usize>> = [(1, vec![2, 3])].into_iter().collect();
    Constraints { alphabet: vec![0, 1, 2, 3], elements: 4, fixed, narrowed, movable: vec![1, 2, 3] }
}

fn settings(trial_length: usize, steps: usize) -> Settings {
    Settings {
        trial_length,
        accept_target: Ratio { num: 2, den: 3 },
        improve_target: Ratio { num: 1, den: 2 },
        steps,
        report_interval: 2,
        weights: Weights { random_move: 1, random_swap: 1, full_key_swap: 1 },
    }
}

fn verdict(improves: bool, chance: bool, record: bool) -> Verdict {
    Verdict { improves, chance, record }
}

fn obeys(constraints: &Constraints, first: &[usize], map: &[usize]) -> bool {
    map.len() == first.len()
        && (0..first.len()).all(|e| {
            map[e] == first[e]
                || (!constraints.fixed.contains(&e)
                    && constraints.allowed_keys(e).contains(&map[e]))
        })
}

/// Proposes and settles one round, and returns the candidate and the outcome.
fn round(controller: &mut Controller, v: Verdict) -> (Vec<usize>, Outcome) {
    assert!(controller.propose());
    let candidate = controller.candidate().unwrap().clone();
    let outcome = controller.settle(v).unwrap();
    assert!(controller.candidate().is_none());
    (candidate, outcome)
}

#[test]
fn ratio_is_compared_exactly() {
    let two_thirds = Ratio { num: 2, den: 3 };
    assert!(two_thirds.is_met_by(2, 3));
    assert!(two_thirds.is_met_by(667, 1000));
    assert!(!two_thirds.is_met_by(666, 1000));
    assert!(!two_thirds.is_met_by(1, 2));
    assert!(two_thirds.is_met_by(0, 0));
    let all = Ratio { num: u64::MAX, den: u64::MAX };
    assert!(all.is_met_by(usize::MAX, usize::MAX));
    assert!(!all.is_met_by(usize::MAX - 1, usize::MAX));
    assert!(Ratio { num: 0, den: 1 }.is_met_by(0, 5));
}

#[test]
fn weights_deal_the_draws_out_in_order() {
    let weights = Weights { random_move: 2, random_swap: 0, full_key_swap: 3 };
    assert_eq!(weights.sum(), 5);
    assert_eq!(weights.pick(0), Operator::Move);
    assert_eq!(weights.pick(1), Operator::Move);
    assert_eq!(weights.pick(2), Operator::GroupSwap);
    assert_eq!(weights.pick(4), Operator::GroupSwap);
    let weights = Weights { random_move: 1, random_swap: 2, full_key_swap: 1 };
    assert_eq!(weights.pick(0), Operator::Move);
    assert_eq!(weights.pick(1), Operator::Swap);
    assert_eq!(weights.pick(2), Operator::Swap);
    assert_eq!(weights.pick(3), Operator::GroupSwap);
    let heavy = Weights { random_move: u16::MAX, random_swap: u16::MAX, full_key_swap: u16::MAX };
    assert_eq!(heavy.sum(), 3 * 65535);
}

#[test]
fn settings_are_validated() {
    assert!(settings(1, 0).is_valid());
    assert!(!settings(0, 5).is_valid());
    let mut s = settings(3, 5);
    s.report_interval = 0;
    assert!(!s.is_valid());
    let mut s = settings(3, 5);
    s.weights = Weights { random_move: 0, random_swap: 0, full_key_swap: 0 };
    assert!(!s.is_valid());
    let mut s = settings(3, 5);
    s.accept_target = Ratio { num: 4, den: 3 };
    assert!(!s.is_valid());
    let mut s = settings(3, 5);
    s.improve_target = Ratio { num: 0, den: 0 };
    assert!(!s.is_valid());
}

#[test]
fn controller_is_refused_what_it_cannot_run_with() {
    assert!(Controller::new(rules(), settings(0, 5), vec![0, 2, 1, 1]).is_none());
    assert!(Controller::new(rules(), settings(3, 5), vec![0, 2, 1]).is_none());
    let mut no_keys = rules();
    no_keys.alphabet = vec![];
    assert!(!no_keys.can_place());
    assert!(Controller::new(no_keys, settings(3, 5), vec![0, 2, 1, 1]).is_none());
    let mut all_narrowed = rules();
    all_narrowed.alphabet = vec![];
    all_narrowed.narrowed.insert(2, vec![0]);
    all_narrowed.narrowed.insert(3, vec![1]);
    assert!(all_narrowed.can_place());
    assert!(Controller::new(all_narrowed, settings(3, 5), vec![0, 2, 0, 1]).is_some());
}

#[test]
fn controller_begins_in_its_first_phase() {
    let first = vec![0, 2, 1, 1];
    let mut c = Controller::new(rules(), settings(3, 5), first.clone()).unwrap();
    assert_eq!(c.phase(), Phase::Init);
    assert_eq!(c.current(), &first);
    assert_eq!(c.best(), &first);
    assert!(c.candidate().is_none());
    assert_eq!((c.level(), c.hottest(), c.coldest(), c.step()), (0, 0, 0, 0));
    assert_eq!(c.settings(), settings(3, 5));
    assert_eq!(c.constraints().movable, vec![1, 2, 3]);
    // Nothing is proposed or settled before the start.
    assert!(!c.propose());
    assert!(c.candidate().is_none());
    assert_eq!(c.settle(verdict(true, true, true)), None);
    assert_eq!(c.phase(), Phase::Init);
    c.start();
    assert_eq!(c.phase(), Phase::CalibrateTMax);
    c.start();
    assert_eq!(c.phase(), Phase::CalibrateTMax);
    // Nothing is settled while no candidate awaits a verdict.
    assert_eq!(c.settle(verdict(true, true, true)), None);
    assert_eq!(c.current(), &first);
}

#[test]
fn calibration_raises_the_level_until_enough_is_accepted() {
    let mut c = Controller::new(rules(), settings(3, 4), vec![0, 2, 1, 1]).unwrap();
    c.start();
    // First trial: one of three accepted, which is short of two thirds.
    let (_, o) = round(&mut c, verdict(false, false, false));
    assert_eq!(
        o,
        Outcome { accepted: false, new_best: false, trial: None, resolved: false, progress: false }
    );
    let (_, o) = round(&mut c, verdict(false, true, true));
    assert!(o.accepted && !o.new_best && o.trial.is_none());
    let (_, o) = round(&mut c, verdict(false, false, false));
    assert_eq!(o.trial, Some(Trial { proposals: 3, accepted: 1, improved: 0 }));
    assert!(!o.resolved);
    assert_eq!((c.phase(), c.level()), (Phase::CalibrateTMax, 1));
    // Second trial: two of three accepted.
    round(&mut c, verdict(true, false, false));
    round(&mut c, verdict(false, false, false));
    let (_, o) = round(&mut c, verdict(false, true, false));
    assert_eq!(o.trial, Some(Trial { proposals: 3, accepted: 2, improved: 1 }));
    assert!(o.resolved);
    assert_eq!((c.phase(), c.hottest(), c.level()), (Phase::CalibrateTMin, 1, 0));
    // Third trial, now for the lowest temperature: one of three improves.
    round(&mut c, verdict(true, false, false));
    round(&mut c, verdict(false, true, false));
    let (_, o) = round(&mut c, verdict(false, false, false));
    assert_eq!(o.trial, Some(Trial { proposals: 3, accepted: 2, improved: 1 }));
    assert!(!o.resolved);
    assert_eq!((c.phase(), c.level()), (Phase::CalibrateTMin, -1));
    // Fourth trial: two of three improve.
    round(&mut c, verdict(true, false, false));
    round(&mut c, verdict(true, true, false));
    let (_, o) = round(&mut c, verdict(false, false, false));
    assert_eq!(o.trial, Some(Trial { proposals: 3, accepted: 2, improved: 2 }));
    assert!(o.resolved);
    assert_eq!(c.phase(), Phase::Schedule);
    assert_eq!((c.hottest(), c.coldest(), c.step()), (1, -1, 0));
    assert_eq!(c.best(), c.current());
}

#[test]
fn accepted_candidate_becomes_current_and_rejected_one_is_dropped() {
    let first = vec![0, 2, 1, 1];
    let mut c = Controller::new(rules(), settings(100, 4), first.clone()).unwrap();
    c.start();
    let (candidate, o) = round(&mut c, verdict(false, false, true));
    assert!(!o.accepted);
    assert_eq!(c.current(), &first);
    let _ = candidate;
    let (candidate, o) = round(&mut c, verdict(false, true, false));
    assert!(o.accepted);
    assert_eq!(c.current(), &candidate);
    let (candidate, o) = round(&mut c, verdict(true, false, false));
    assert!(o.accepted);
    assert_eq!(c.current(), &candidate);
    // Calibration leaves the best layout alone.
    assert_eq!(c.best(), &first);
}

fn scheduled(steps: usize) -> Controller {
    let mut c = Controller::new(rules(), settings(1, steps), vec![0, 2, 1, 1]).unwrap();
    c.start();
    let (_, o) = round(&mut c, verdict(true, false, false));
    assert!(o.resolved);
    assert_eq!(c.phase(), Phase::CalibrateTMin);
    let (_, o) = round(&mut c, verdict(true, false, false));
    assert!(o.resolved);
    c
}

#[test]
fn schedule_runs_exactly_its_steps() {
    let mut c = scheduled(5);
    assert_eq!(c.phase(), Phase::Schedule);
    for step in 0..5 {
        assert_eq!(c.phase(), Phase::Schedule);
        assert_eq!(c.step(), step);
        let (_, o) = round(&mut c, verdict(step % 2 == 0, false, false));
        assert_eq!(o.progress, step % 2 == 0);
        assert_eq!(o.accepted, step % 2 == 0);
        assert!(o.trial.is_none() && !o.resolved && !o.new_best);
    }
    assert_eq!(c.phase(), Phase::Done);
    assert_eq!(c.step(), 5);
    assert!(!c.propose());
    assert_eq!(c.settle(verdict(true, true, true)), None);
    assert_eq!(c.phase(), Phase::Done);
}

#[test]
fn schedule_without_steps_is_over_at_once() {
    let c = scheduled(0);
    assert_eq!(c.phase(), Phase::Done);
    assert_eq!(c.best(), c.current());
}

#[test]
fn best_layout_is_replaced_by_accepted_records_only() {
    let mut c = scheduled(4);
    let start = c.best().clone();
    // A record that is not accepted cannot be: the best layout stays.
    let (_, o) = round(&mut c, verdict(false, false, true));
    assert!(!o.accepted && !o.new_best);
    assert_eq!(c.best(), &start);
    let (candidate, o) = round(&mut c, verdict(true, false, true));
    assert!(o.accepted && o.new_best);
    assert_eq!(c.best(), &candidate);
    assert_eq!(c.current(), &candidate);
    let (later, o) = round(&mut c, verdict(false, true, false));
    assert!(o.accepted && !o.new_best);
    assert_eq!(c.best(), &candidate);
    assert_eq!(c.current(), &later);
}

#[test]
fn second_proposal_replaces_the_first() {
    let mut c = scheduled(3);
    let before = c.current().clone();
    assert!(c.propose());
    assert!(c.propose());
    let candidate = c.candidate().unwrap().clone();
    assert!(obeys(c.constraints(), &before, &candidate));
    assert_eq!(c.step(), 0);
    c.settle(verdict(true, false, false)).unwrap();
    assert_eq!(c.current(), &candidate);
    assert_eq!(c.step(), 1);
}

#[test]
fn search_obeys_the_rules_throughout() {
    let first = vec![0, 2, 1, 1];
    let mut c = Controller::new(rules(), settings(7, 500), first.clone()).unwrap();
    c.start();
    let mut rounds = 0usize;
    let mut last_rank = 1;
    while c.phase() != Phase::Done {
        let before = c.current().clone();
        assert!(c.propose());
        let candidate = c.candidate().unwrap().clone();
        assert!(obeys(c.constraints(), &before, &candidate));
        assert!(obeys(c.constraints(), &first, &candidate));
        let v = verdict(rounds % 2 == 0, rounds % 5 != 1, rounds % 7 == 0);
        c.settle(v).unwrap();
        assert!(obeys(c.constraints(), &first, c.current()));
        assert!(obeys(c.constraints(), &first, c.best()));
        assert_eq!(c.current()[0], 0);
        assert!(c.current()[1] == 2 || c.current()[1] == 3);
        let rank = match c.phase() {
            Phase::Init => 0,
            Phase::CalibrateTMax => 1,
            Phase::CalibrateTMin => 2,
            Phase::Schedule => 3,
            Phase::Done => 4,
        };
        assert!(rank >= last_rank);
        last_rank = rank;
        rounds += 1;
        assert!(rounds < 10_000);
    }
    assert_eq!(c.step(), 500);
}

#[test]
fn only_operators_with_weight_are_applied() {
    // With the weight on the swap alone no element ever leaves the keys
    // that are on the layout at first.
    let mut s = settings(1, 300);
    s.weights = Weights { random_move: 0, random_swap: 5, full_key_swap: 0 };
    let mut rules = rules();
    rules.narrowed.clear();
    let mut c = Controller::new(rules, s, vec![0, 1, 1, 1]).unwrap();
    c.start();
    while c.phase() != Phase::Done {
        assert!(c.propose());
        c.settle(verdict(true, false, false)).unwrap();
        assert_eq!(c.current(), &vec![0, 1, 1, 1]);
    }
}

#[test]
fn operators_are_applied_by_name() {
    let rules = rules();
    let map = vec![0, 2, 1, 1];
    for _ in 0..200 {
        let next = Operator::Move.apply(&rules, &map);
        assert!(obeys(&rules, &map, &next));
        assert!((0..4).filter(|&e| next[e] != map[e]).count() <= 1);
        let next = Operator::Swap.apply(&rules, &map);
        assert!(obeys(&rules, &map, &next));
        let next = Operator::GroupSwap.apply(&rules, &map);
        assert!(obeys(&rules, &map, &next));
    }
}
