//! The controller of the search.
//!
//! A search first measures how hot the chain has to be for nearly every
//! proposal to be accepted, then how cold for it to be greedy, and then cools
//! from the one temperature to the other in a fixed number of steps.
//!
//! Scores and temperatures are real numbers, which this library does not
//! compute with.  The controller therefore holds everything else: the
//! layouts, the counters and the phase.  Its caller scores the candidate that
//! the controller proposes, at the temperature that the controller's state
//! stands for, and hands back a [`Verdict`]; the controller decides what
//! follows from it.

use crate::constraints::Constraints;
use crate::laws::{law_respects_is_transitive, law_step_respects_rules};
use crate::random::random_index;
use crate::representation::{Key, KeyMap};
use vstd::prelude::*;

verus! {

/// Where a search stands.
#[derive(Debug, Clone, Copy, PartialEq, Eq, Structural)]
pub enum Phase {
    /// Nothing has happened yet.
    Init,
    /// Trials at rising temperatures look for the highest temperature of the schedule.
    CalibrateTMax,
    /// Trials at falling temperatures look for the lowest temperature of the schedule.
    CalibrateTMin,
    /// The schedule cools from the highest temperature to the lowest.
    Schedule,
    /// The search is over; the best layout is its result.
    Done,
}

impl Phase {
    /// The place of the phase in the order in which a search goes through them.
    pub open spec fn rank(self) -> int {
        match self {
            Phase::Init => 0,
            Phase::CalibrateTMax => 1,
            Phase::CalibrateTMin => 2,
            Phase::Schedule => 3,
            Phase::Done => 4,
        }
    }

    /// Whether candidates are proposed and judged in this phase.
    pub open spec fn is_active(self) -> bool {
        self is CalibrateTMax || self is CalibrateTMin || self is Schedule
    }
}

/// The fraction `num / den`, which a measured rate is held against.
#[derive(Debug, Clone, Copy, PartialEq, Eq)]
pub struct Ratio {
    pub num: u64,
    pub den: u64,
}

impl Ratio {
    /// Whether `hits` out of `total` is at least this fraction.
    pub open spec fn met_by(self, hits: nat, total: nat) -> bool {
        hits * self.den >= self.num * total
    }

    /// Tests whether `hits` out of `total` is at least this fraction.
    pub fn is_met_by(&self, hits: usize, total: usize) -> (r: bool)
        ensures
            r == self.met_by(hits as nat, total as nat),
    {
        let left: u128 = product(hits as u64, self.den);
        let right: u128 = product(self.num, total as u64);
        left >= right
    }
}

/// The product of two 64-bit numbers, which 128 bits hold.
fn product(a: u64, b: u64) -> (p: u128)
    ensures
        p == a * b,
{
    assert(a * b <= 0xffff_ffff_ffff_ffff * 0xffff_ffff_ffff_ffff) by (nonlinear_arith)
        requires
            0 <= a <= 0xffff_ffff_ffff_ffff,
            0 <= b <= 0xffff_ffff_ffff_ffff,
    ;
    (a as u128) * (b as u128)
}

/// One of the three mutation operators.
#[derive(Debug, Clone, Copy, PartialEq, Eq, Structural)]
pub enum Operator {
    /// Place one element on another key.
    Move,
    /// Let two elements trade places.
    Swap,
    /// Let the elements on two keys trade places.
    GroupSwap,
}

impl Operator {
    /// Whether this operator can make `next` from `map`.
    pub open spec fn makes(self, constraints: &Constraints, map: Seq<Key>, next: Seq<Key>) -> bool {
        match self {
            Operator::Move => constraints.is_move(map, next),
            Operator::Swap => constraints.is_swap(map, next),
            Operator::GroupSwap => constraints.is_group_swap(map, next),
        }
    }

    /// Makes a layout from `map` with this operator.
    pub fn apply(self, constraints: &Constraints, map: &KeyMap) -> (next: KeyMap)
        requires
            constraints.wf(),
            constraints.has_destinations(),
            map@.len() == constraints.elements,
        ensures
            self.makes(constraints, map@, next@),
            constraints.respects(map@, next@),
    {
        match self {
            Operator::Move => constraints.constrained_random_move(map),
            Operator::Swap => constraints.constrained_random_swap(map),
            Operator::GroupSwap => constraints.constrained_full_key_swap(map),
        }
    }
}

/// How often each operator is to be picked, relative to the others.
#[derive(Debug, Clone, Copy, PartialEq, Eq)]
pub struct Weights {
    pub random_move: u16,
    pub random_swap: u16,
    pub full_key_swap: u16,
}

impl Weights {
    /// The sum of the three weights.
    pub open spec fn total(self) -> nat {
        (self.random_move + self.random_swap + self.full_key_swap) as nat
    }

    /// The weight of `operator`.
    pub open spec fn of(self, operator: Operator) -> nat {
        match operator {
            Operator::Move => self.random_move as nat,
            Operator::Swap => self.random_swap as nat,
            Operator::GroupSwap => self.full_key_swap as nat,
        }
    }

    /// The operator that the draw `draw` stands for: the numbers below the
    /// total are dealt out to the operators in their order, to each as many
    /// as its weight.
    pub open spec fn operator_at(self, draw: nat) -> Operator {
        if draw < self.random_move {
            Operator::Move
        } else if draw < self.random_move + self.random_swap {
            Operator::Swap
        } else {
            Operator::GroupSwap
        }
    }

    /// The sum of the three weights.
    pub fn sum(&self) -> (r: usize)
        ensures
            r == self.total(),
    {
        self.random_move as usize + self.random_swap as usize + self.full_key_swap as usize
    }

    /// The operator that the draw `draw` stands for.  A draw below the
    /// sum of the weights stands for an operator that has weight.
    pub fn pick(&self, draw: usize) -> (r: Operator)
        ensures
            r == self.operator_at(draw as nat),
            draw < self.total() ==> self.of(r) > 0,
    {
        if draw < self.random_move as usize {
            Operator::Move
        } else if draw < self.random_move as usize + self.random_swap as usize {
            Operator::Swap
        } else {
            Operator::GroupSwap
        }
    }
}

/// What the caller fixes before a search.
#[derive(Debug, Clone, Copy, PartialEq, Eq)]
pub struct Settings {
    /// The number of proposals that one calibration trial measures.
    pub trial_length: usize,
    /// The share of accepted proposals from which on a temperature is hot enough.
    pub accept_target: Ratio,
    /// The share of improving proposals from which on a temperature is cold enough.
    pub improve_target: Ratio,
    /// The number of steps of the schedule.
    pub steps: usize,
    /// Progress is due at every step whose number this divides.
    pub report_interval: usize,
    /// How often each operator is picked.
    pub weights: Weights,
}

impl Settings {
    /// Settings that a search can run with: a trial measures something,
    /// both targets are shares between nothing and all, progress can be
    /// counted, and some operator can be picked.
    pub open spec fn valid(self) -> bool {
        &&& self.trial_length > 0
        &&& 0 < self.accept_target.den && self.accept_target.num <= self.accept_target.den
        &&& 0 < self.improve_target.den && self.improve_target.num <= self.improve_target.den
        &&& self.report_interval > 0
        &&& self.weights.total() > 0
    }

    /// Tests whether a search can run with these settings.
    pub fn is_valid(&self) -> (r: bool)
        ensures
            r == self.valid(),
    {
        self.trial_length > 0 && 0 < self.accept_target.den && self.accept_target.num
            <= self.accept_target.den && 0 < self.improve_target.den && self.improve_target.num
            <= self.improve_target.den && self.report_interval > 0 && self.weights.sum() > 0
    }
}

/// What was counted in a calibration trial.
#[derive(Debug, Clone, Copy, PartialEq, Eq)]
pub struct Trial {
    /// The proposals judged.
    pub proposals: usize,
    /// Those of them that were accepted.
    pub accepted: usize,
    /// Those of them that scored better than the layout they came from.
    pub improved: usize,
}

/// What the caller found out about a candidate.
#[derive(Debug, Clone, Copy, PartialEq, Eq)]
pub struct Verdict {
    /// The candidate scores better than the current layout.
    pub improves: bool,
    /// The random draw of the acceptance rule, made at the present
    /// temperature for the loss that the candidate brings, is in its favour.
    pub chance: bool,
    /// The candidate scores better than the best layout.
    pub record: bool,
}

impl Verdict {
    /// The acceptance rule: a candidate that improves is always accepted, any
    /// other one if the draw is in its favour.
    pub open spec fn accepts(self) -> bool {
        self.improves || self.chance
    }
}

/// What became of a verdict.
#[derive(Debug, Clone, Copy, PartialEq, Eq)]
pub struct Outcome {
    /// The candidate is now the current layout.
    pub accepted: bool,
    /// The candidate is now the best layout.
    pub new_best: bool,
    /// The verdict was the last of a calibration trial, which counted this.
    pub trial: Option<Trial>,
    /// The trial found the temperature that its phase was looking for.
    pub resolved: bool,
    /// Progress is due for the step of the schedule that the verdict was for.
    pub progress: bool,
}

/// The temperature one level above `level`; the highest level is its own successor.
pub open spec fn hotter(level: i64) -> i64 {
    if level < i64::MAX {
        (level + 1) as i64
    } else {
        level
    }
}

/// The temperature one level below `level`; the lowest level is its own successor.
pub open spec fn colder(level: i64) -> i64 {
    if level > i64::MIN {
        (level - 1) as i64
    } else {
        level
    }
}

/// The state of a search, as mathematics sees it.
pub struct SearchView {
    pub settings: Settings,
    pub phase: Phase,
    /// The layout that the search started from.
    pub initial: Seq<Key>,
    /// The layout that the next candidate is made from.
    pub current: Seq<Key>,
    /// The best layout of the schedule so far.
    pub best: Seq<Key>,
    /// The candidate that awaits its verdict, if one does.
    pub candidate: Option<Seq<Key>>,
    /// The level of the temperature at which candidates are judged during calibration.
    pub level: i64,
    /// The level that the calibration found for the highest temperature.
    pub hottest: i64,
    /// The level that the calibration found for the lowest temperature.
    pub coldest: i64,
    /// The counts of the trial that is under way.
    pub trial: Trial,
    /// The number of steps of the schedule that are settled.
    pub step: usize,
}

impl SearchView {
    /// The state in which a search over `initial` begins.
    pub open spec fn begin(settings: Settings, initial: Seq<Key>) -> SearchView {
        SearchView {
            settings,
            phase: Phase::Init,
            initial,
            current: initial,
            best: initial,
            candidate: None,
            level: 0,
            hottest: 0,
            coldest: 0,
            trial: Trial { proposals: 0, accepted: 0, improved: 0 },
            step: 0,
        }
    }

    /// The state after the search was started: the first trial is under way.
    pub open spec fn started(self) -> SearchView {
        if self.phase is Init {
            SearchView { phase: Phase::CalibrateTMax, ..self }
        } else {
            self
        }
    }

    /// The state after `candidate` was proposed.
    pub open spec fn proposed(self, candidate: Seq<Key>) -> SearchView {
        SearchView { candidate: Some(candidate), ..self }
    }

    /// The counts of the trial under way after one more verdict.
    pub open spec fn counted(self, verdict: Verdict) -> Trial {
        Trial {
            proposals: (self.trial.proposals + 1) as usize,
            accepted: if verdict.accepts() {
                (self.trial.accepted + 1) as usize
            } else {
                self.trial.accepted
            },
            improved: if verdict.improves {
                (self.trial.improved + 1) as usize
            } else {
                self.trial.improved
            },
        }
    }

    /// Whether `verdict` is the last of the trial under way.
    pub open spec fn ends_trial(self, verdict: Verdict) -> bool {
        (self.phase is CalibrateTMax || self.phase is CalibrateTMin) && self.counted(
            verdict,
        ).proposals >= self.settings.trial_length
    }

    /// Whether the trial that `verdict` ends finds the temperature that the
    /// phase is looking for: the highest one is found once the share of
    /// accepted proposals reaches its target, the lowest one once the share
    /// of improving proposals reaches its target.
    pub open spec fn resolves(self, verdict: Verdict) -> bool {
        let trial = self.counted(verdict);
        self.ends_trial(verdict) && if self.phase is CalibrateTMax {
            self.settings.accept_target.met_by(trial.accepted as nat, trial.proposals as nat)
        } else {
            self.settings.improve_target.met_by(trial.improved as nat, trial.proposals as nat)
        }
    }

    /// Whether a verdict is awaited.
    pub open spec fn awaits_verdict(self) -> bool {
        self.phase.is_active() && self.candidate is Some
    }

    /// The layout that is current once `verdict` is settled: the candidate
    /// if it is accepted, the layout before it otherwise.
    pub open spec fn kept(self, verdict: Verdict) -> Seq<Key> {
        if verdict.accepts() {
            self.candidate->Some_0
        } else {
            self.current
        }
    }

    /// The state after `verdict` on the candidate was settled.
    ///
    /// During calibration, a verdict is counted in the trial under way.
    /// The last verdict of a trial ends it: if the trial finds what its
    /// phase is looking for, the level is kept and the next phase begins,
    /// the search for the lowest temperature one level below the highest
    /// one; if not, the next trial runs one level hotter or colder.  The
    /// schedule starts out with the current layout as the best one.
    ///
    /// In the schedule, an accepted candidate that beats the best layout
    /// takes its place, and the step is over; the last step ends the search.
    pub open spec fn settled(self, verdict: Verdict) -> SearchView {
        if !self.awaits_verdict() {
            self
        } else {
            let current = self.kept(verdict);
            let rest = Trial { proposals: 0, accepted: 0, improved: 0 };
            match self.phase {
                Phase::CalibrateTMax => if !self.ends_trial(verdict) {
                    SearchView { current, candidate: None, trial: self.counted(verdict), ..self }
                } else if self.resolves(verdict) {
                    SearchView {
                        current,
                        candidate: None,
                        trial: rest,
                        hottest: self.level,
                        level: colder(self.level),
                        phase: Phase::CalibrateTMin,
                        ..self
                    }
                } else {
                    SearchView {
                        current,
                        candidate: None,
                        trial: rest,
                        level: hotter(self.level),
                        ..self
                    }
                },
                Phase::CalibrateTMin => if !self.ends_trial(verdict) {
                    SearchView { current, candidate: None, trial: self.counted(verdict), ..self }
                } else if self.resolves(verdict) {
                    SearchView {
                        current,
                        best: current,
                        candidate: None,
                        trial: rest,
                        coldest: self.level,
                        step: 0,
                        phase: if self.settings.steps == 0 {
                            Phase::Done
                        } else {
                            Phase::Schedule
                        },
                        ..self
                    }
                } else {
                    SearchView {
                        current,
                        candidate: None,
                        trial: rest,
                        level: colder(self.level),
                        ..self
                    }
                },
                _ => SearchView {
                    current,
                    best: if verdict.accepts() && verdict.record {
                        self.candidate->Some_0
                    } else {
                        self.best
                    },
                    candidate: None,
                    step: (self.step + 1) as usize,
                    phase: if self.step + 1 >= self.settings.steps {
                        Phase::Done
                    } else {
                        Phase::Schedule
                    },
                    ..self
                },
            }
        }
    }

    /// What the caller is told when `verdict` is settled; nothing, if no
    /// verdict was awaited.
    pub open spec fn outcome(self, verdict: Verdict) -> Option<Outcome> {
        if !self.awaits_verdict() {
            None
        } else if self.phase is Schedule {
            Some(
                Outcome {
                    accepted: verdict.accepts(),
                    new_best: verdict.accepts() && verdict.record,
                    trial: None,
                    resolved: false,
                    progress: self.step as int % self.settings.report_interval as int == 0,
                },
            )
        } else {
            Some(
                Outcome {
                    accepted: verdict.accepts(),
                    new_best: false,
                    trial: if self.ends_trial(verdict) {
                        Some(self.counted(verdict))
                    } else {
                        None
                    },
                    resolved: self.resolves(verdict),
                    progress: false,
                },
            )
        }
    }

    /// What holds of the state of every search under `constraints`.
    ///
    /// The settings are valid and the rules can be followed.  The layouts
    /// have one key for each element, and each of them obeys the rules as a
    /// successor of the first layout.  The counts of a trial are consistent
    /// and short of a whole trial, and the schedule has steps left while it
    /// runs.
    pub open spec fn sound(self, constraints: &Constraints) -> bool {
        &&& self.settings.valid()
        &&& constraints.wf()
        &&& constraints.has_destinations()
        &&& self.initial.len() == constraints.elements
        &&& constraints.respects(self.initial, self.current)
        &&& constraints.respects(self.initial, self.best)
        &&& self.candidate matches Some(candidate) ==> constraints.respects(
            self.initial,
            candidate,
        )
        &&& self.trial.improved <= self.trial.accepted <= self.trial.proposals
            < self.settings.trial_length
        &&& self.phase is Schedule ==> self.step < self.settings.steps
    }
}

/// A search under way.
#[derive(Debug)]
pub struct Controller {
    constraints: Constraints,
    settings: Settings,
    phase: Phase,
    initial: KeyMap,
    current: KeyMap,
    best: KeyMap,
    candidate: Option<KeyMap>,
    level: i64,
    hottest: i64,
    coldest: i64,
    trial: Trial,
    step: usize,
}

impl View for Controller {
    type V = SearchView;

    closed spec fn view(&self) -> SearchView {
        SearchView {
            settings: self.settings,
            phase: self.phase,
            initial: self.initial@,
            current: self.current@,
            best: self.best@,
            candidate: match self.candidate {
                Some(candidate) => Some(candidate@),
                None => None,
            },
            level: self.level,
            hottest: self.hottest,
            coldest: self.coldest,
            trial: self.trial,
            step: self.step,
        }
    }
}

impl Controller {
    /// The rules that the search obeys.
    pub closed spec fn rules(&self) -> &Constraints {
        &self.constraints
    }

    #[verifier::type_invariant]
    closed spec fn inv(&self) -> bool {
        self@.sound(&self.constraints)
    }

    /// Sets a search over `initial` up.
    ///
    /// There is no search if the settings are not valid, if an element that
    /// may be picked has no key to go to, or if `initial` is not a layout of
    /// as many elements as the rules speak of.
    pub fn new(constraints: Constraints, settings: Settings, initial: KeyMap) -> (r: Option<
        Controller,
    >)
        requires
            constraints.wf(),
        ensures
            r is Some <==> settings.valid() && constraints.has_destinations() && initial@.len()
                == constraints.elements,
            r matches Some(controller) ==> controller@ == SearchView::begin(settings, initial@)
                && *controller.rules() == constraints && controller@.sound(&constraints),
    {
        if !settings.is_valid() || !constraints.can_place() || initial.len()
            != constraints.elements {
            return None;
        }
        let current = initial.clone();
        let best = initial.clone();
        Some(
            Controller {
                constraints,
                settings,
                phase: Phase::Init,
                initial,
                current,
                best,
                candidate: None,
                level: 0,
                hottest: 0,
                coldest: 0,
                trial: Trial { proposals: 0, accepted: 0, improved: 0 },
                step: 0,
            },
        )
    }

    /// The rules that the search obeys.
    pub fn constraints(&self) -> (r: &Constraints)
        ensures
            r == self.rules(),
    {
        &self.constraints
    }

    /// What was fixed before the search.
    pub fn settings(&self) -> (r: Settings)
        ensures
            r == self@.settings,
    {
        self.settings
    }

    /// Where the search stands.
    pub fn phase(&self) -> (r: Phase)
        ensures
            r == self@.phase,
    {
        self.phase
    }

    /// The layout that the next candidate is made from.
    pub fn current(&self) -> (r: &KeyMap)
        ensures
            r@ == self@.current,
    {
        &self.current
    }

    /// The best layout of the schedule so far.
    pub fn best(&self) -> (r: &KeyMap)
        ensures
            r@ == self@.best,
    {
        &self.best
    }

    /// The candidate that awaits its verdict, if one does.
    pub fn candidate(&self) -> (r: Option<&KeyMap>)
        ensures
            match r {
                Some(candidate) => self@.candidate == Some(candidate@),
                None => self@.candidate is None,
            },
    {
        match &self.candidate {
            Some(candidate) => Some(candidate),
            None => None,
        }
    }

    /// The level of the temperature at which candidates are judged during calibration.
    pub fn level(&self) -> (r: i64)
        ensures
            r == self@.level,
    {
        self.level
    }

    /// The level that the calibration found for the highest temperature.
    pub fn hottest(&self) -> (r: i64)
        ensures
            r == self@.hottest,
    {
        self.hottest
    }

    /// The level that the calibration found for the lowest temperature.
    pub fn coldest(&self) -> (r: i64)
        ensures
            r == self@.coldest,
    {
        self.coldest
    }

    /// The number of steps of the schedule that are settled.
    pub fn step(&self) -> (r: usize)
        ensures
            r == self@.step,
    {
        self.step
    }

    /// Starts the search: the first calibration trial is under way.
    /// A search that was started already is left as it is.
    pub fn start(&mut self)
        ensures
            final(self)@ == old(self)@.started(),
            final(self).rules() == old(self).rules(),
            final(self)@.sound(final(self).rules()),
    {
        proof {
            use_type_invariant(&*self);
        }
        if self.phase == Phase::Init {
            self.phase = Phase::CalibrateTMax;
        }
    }

    /// Proposes a candidate: a layout that one of the mutation operators,
    /// picked at random by the weights, makes from the current one.
    ///
    /// Nothing is proposed, and `false` returned, before the search is
    /// started and after it is over.  A candidate that still awaits its
    /// verdict is replaced.
    pub fn propose(&mut self) -> (proposed: bool)
        ensures
            proposed == old(self)@.phase.is_active(),
            final(self).rules() == old(self).rules(),
            !proposed ==> final(self)@ == old(self)@,
            proposed ==> exists|operator: Operator, candidate: Seq<Key>|
                old(self)@.settings.weights.of(operator) > 0 && #[trigger] operator.makes(
                    old(self).rules(),
                    old(self)@.current,
                    candidate,
                ) && final(self)@ == old(self)@.proposed(candidate),
            final(self)@.sound(final(self).rules()),
    {
        proof {
            use_type_invariant(&*self);
        }
        match self.phase {
            Phase::Init => false,
            Phase::Done => false,
            _ => {
                let mut rng = rand::thread_rng();
                let draw = random_index(&mut rng, self.settings.weights.sum());
                let operator = self.settings.weights.pick(draw);
                let candidate = operator.apply(&self.constraints, &self.current);
                proof {
                    law_respects_is_transitive(
                        &self.constraints,
                        self.initial@,
                        self.current@,
                        candidate@,
                    );
                }
                let ghost before = self@;
                let ghost made = candidate@;
                self.candidate = Some(candidate);
                proof {
                    assert(self@ == before.proposed(made));
                    assert(operator.makes(self.rules(), before.current, made));
                }
                true
            },
        }
    }

    /// Settles the verdict on the candidate.
    ///
    /// Nothing happens, and `None` is returned, if no candidate awaits a verdict.
    pub fn settle(&mut self, verdict: Verdict) -> (outcome: Option<Outcome>)
        ensures
            final(self)@ == old(self)@.settled(verdict),
            outcome == old(self)@.outcome(verdict),
            final(self).rules() == old(self).rules(),
            final(self)@.sound(final(self).rules()),
    {
        proof {
            use_type_invariant(&*self);
        }
        match self.phase {
            Phase::Init => {
                return None;
            },
            Phase::Done => {
                return None;
            },
            _ => {},
        }
        let candidate = match &self.candidate {
            Some(candidate) => candidate.clone(),
            None => {
                return None;
            },
        };
        self.candidate = None;
        let accepted = verdict.improves || verdict.chance;
        if self.phase == Phase::Schedule {
            let progress = self.step % self.settings.report_interval == 0;
            let new_best = accepted && verdict.record;
            if new_best {
                self.best = candidate.clone();
            }
            if accepted {
                self.current = candidate;
            }
            if self.step + 1 >= self.settings.steps {
                self.phase = Phase::Done;
            }
            self.step = self.step + 1;
            return Some(Outcome { accepted, new_best, trial: None, resolved: false, progress });
        }
        if accepted {
            self.current = candidate;
        }
        let trial = Trial {
            proposals: self.trial.proposals + 1,
            accepted: if accepted {
                self.trial.accepted + 1
            } else {
                self.trial.accepted
            },
            improved: if verdict.improves {
                self.trial.improved + 1
            } else {
                self.trial.improved
            },
        };
        if trial.proposals < self.settings.trial_length {
            self.trial = trial;
            return Some(
                Outcome { accepted, new_best: false, trial: None, resolved: false, progress: false },
            );
        }
        self.trial = Trial { proposals: 0, accepted: 0, improved: 0 };
        let resolved = if self.phase == Phase::CalibrateTMax {
            self.settings.accept_target.is_met_by(trial.accepted, trial.proposals)
        } else {
            self.settings.improve_target.is_met_by(trial.improved, trial.proposals)
        };
        if self.phase == Phase::CalibrateTMax {
            if resolved {
                self.hottest = self.level;
                self.level = lower(self.level);
                self.phase = Phase::CalibrateTMin;
            } else {
                self.level = raise(self.level);
            }
        } else {
            if resolved {
                self.coldest = self.level;
                self.best = self.current.clone();
                self.step = 0;
                self.phase = if self.settings.steps == 0 {
                    Phase::Done
                } else {
                    Phase::Schedule
                };
            } else {
                self.level = lower(self.level);
            }
        }
        Some(Outcome { accepted, new_best: false, trial: Some(trial), resolved, progress: false })
    }
}

/// The level above `level`.
fn raise(level: i64) -> (r: i64)
    ensures
        r == hotter(level),
{
    if level < i64::MAX {
        level + 1
    } else {
        level
    }
}

/// The level below `level`.
fn lower(level: i64) -> (r: i64)
    ensures
        r == colder(level),
{
    if level > i64::MIN {
        level - 1
    } else {
        level
    }
}

/// A search never goes back to an earlier phase.
pub proof fn law_phases_go_forward(state: SearchView, candidate: Seq<Key>, verdict: Verdict)
    ensures
        state.started().phase.rank() >= state.phase.rank(),
        state.proposed(candidate).phase == state.phase,
        state.settled(verdict).phase.rank() >= state.phase.rank(),
{
}

/// A sound state stays sound when a candidate that a mutation operator
/// made from the current layout is proposed, and when a verdict is settled.
pub proof fn law_search_stays_sound(
    constraints: &Constraints,
    state: SearchView,
    candidate: Seq<Key>,
    verdict: Verdict,
)
    requires
        state.sound(constraints),
    ensures
        state.started().sound(constraints),
        constraints.is_step(state.current, candidate) ==> state.proposed(candidate).sound(
            constraints,
        ),
        state.settled(verdict).sound(constraints),
{
    if constraints.is_step(state.current, candidate) {
        law_step_respects_rules(constraints, state.current, candidate);
        law_respects_is_transitive(constraints, state.initial, state.current, candidate);
    }
}

/// The trial that ends the search for the highest temperature has reached
/// the target share of accepted proposals, the one that ends the search
/// for the lowest temperature the target share of improving proposals; the
/// level of that trial is the one that is kept.
pub proof fn law_calibration_meets_its_target(state: SearchView, verdict: Verdict)
    requires
        state.awaits_verdict(),
        state.phase is CalibrateTMax || state.phase is CalibrateTMin,
        state.settled(verdict).phase != state.phase,
    ensures
        state.outcome(verdict) matches Some(outcome) && outcome.resolved && outcome.trial is Some,
        state.phase is CalibrateTMax ==> state.settled(verdict).hottest == state.level && ({
            let trial = state.outcome(verdict)->Some_0.trial->Some_0;
            state.settings.accept_target.met_by(trial.accepted as nat, trial.proposals as nat)
        }),
        state.phase is CalibrateTMin ==> state.settled(verdict).coldest == state.level && ({
            let trial = state.outcome(verdict)->Some_0.trial->Some_0;
            state.settings.improve_target.met_by(trial.improved as nat, trial.proposals as nat)
        }),
{
}

/// Whether `next` is `state` one round later: a candidate that a mutation
/// operator made from the current layout was proposed, and its verdict settled.
pub open spec fn is_round(constraints: &Constraints, state: SearchView, next: SearchView) -> bool {
    state.phase.is_active() && exists|candidate: Seq<Key>, verdict: Verdict|
        constraints.is_step(state.current, candidate) && next == #[trigger] state.proposed(
            candidate,
        ).settled(verdict)
}

/// Whether `trace` is the course of a search: each state but the first is
/// the one before it, one round later.
pub open spec fn is_search(constraints: &Constraints, trace: Seq<SearchView>) -> bool {
    &&& trace.len() > 0
    &&& trace[0].sound(constraints)
    &&& forall|i: int|
        0 <= i < trace.len() - 1 ==> is_round(constraints, #[trigger] trace[i], trace[i + 1])
}

/// Throughout a search the state is sound: whatever the verdicts, the
/// current layout, the best layout and the candidate obey the rules as
/// successors of the first layout.
pub proof fn law_search_obeys_rules(constraints: &Constraints, trace: Seq<SearchView>, i: int)
    requires
        is_search(constraints, trace),
        0 <= i < trace.len(),
    ensures
        trace[i].sound(constraints),
        trace[i].initial == trace[0].initial,
        trace[i].settings == trace[0].settings,
        trace[i].phase.rank() >= trace[0].phase.rank(),
    decreases i,
{
    if i > 0 {
        law_search_obeys_rules(constraints, trace, i - 1);
        let state = trace[i - 1];
        assert(is_round(constraints, state, trace[i]));
        let (candidate, verdict) = choose|candidate: Seq<Key>, verdict: Verdict|
            constraints.is_step(state.current, candidate) && trace[i] == #[trigger] state.proposed(
                candidate,
            ).settled(verdict);
        law_search_stays_sound(constraints, state, candidate, verdict);
        law_search_stays_sound(constraints, state.proposed(candidate), candidate, verdict);
    }
}

/// A schedule takes exactly as many rounds as it has steps: after `i`
/// rounds `i` steps are settled, the schedule is still running if steps
/// are left, and the search is over if none is.
pub proof fn law_schedule_takes_its_steps(
    constraints: &Constraints,
    trace: Seq<SearchView>,
    i: int,
)
    requires
        is_search(constraints, trace),
        trace[0].phase is Schedule,
        trace[0].step == 0,
        0 <= i < trace.len(),
    ensures
        trace[i].step == i,
        i <= trace[0].settings.steps,
        trace[i].phase == if i < trace[0].settings.steps {
            Phase::Schedule
        } else {
            Phase::Done
        },
    decreases i,
{
    law_search_obeys_rules(constraints, trace, i);
    if i > 0 {
        law_schedule_takes_its_steps(constraints, trace, i - 1);
        law_search_obeys_rules(constraints, trace, i - 1);
    }
}

} // verus!
