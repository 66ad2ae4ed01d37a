//! A motion analyzer is a finite-state machine over one exercise. Each frame
//! it tries the transitions leaving the current state in declaration order,
//! takes the first one whose conditions all hold, and updates the duration
//! accumulator of every active warning.

use vstd::prelude::*;
use crate::condition::{Condition, ControlFactorMap, MappedCondition};

verus! {

/// Duration a warning's condition must hold before it fires, when an
/// exercise does not choose another.
pub const DEFAULT_WARNING_THRESHOLD: u64 = 100;

/// Something an exercise reports about its execution.
#[derive(Clone, Copy, Debug, PartialEq, Eq, Structural)]
pub enum Event {
    RepetitionComplete,
}

/// Informs the patient of a non-optimal joint pose once its condition has
/// held for at least `threshold` ticks in a row.
#[derive(Clone, Debug)]
pub struct Warning {
    pub name: String,
    pub description: String,
    pub condition: MappedCondition,
    pub threshold: u64,
}

impl Warning {
    /// A warning that fires after the default threshold.
    pub fn new(name: String, description: String, condition: MappedCondition) -> (r: Warning)
        ensures
            r.name == name,
            r.description == description,
            r.condition == condition,
            r.threshold == DEFAULT_WARNING_THRESHOLD,
    {
        Warning { name, description, condition, threshold: DEFAULT_WARNING_THRESHOLD }
    }

    pub open spec fn holds(self, cfs: ControlFactorMap) -> bool {
        self.condition.holds(cfs)
    }

    pub fn is_valid(&self, cfs: &ControlFactorMap) -> (r: bool)
        ensures
            r == self.holds(*cfs),
    {
        self.condition.is_valid(cfs)
    }

    /// An equal copy of this warning.
    pub fn duplicate(&self) -> (r: Warning)
        ensures
            r == *self,
    {
        Warning {
            name: self.name.clone(),
            description: self.description.clone(),
            condition: self.condition.duplicate(),
            threshold: self.threshold,
        }
    }
}

/// A move to state `to`, taken when every condition holds, emitting `emit`.
#[derive(Clone, Debug)]
pub struct Transition {
    pub conditions: Vec<MappedCondition>,
    pub to: String,
    pub emit: Vec<Event>,
}

impl Transition {
    pub open spec fn satisfied(self, cfs: ControlFactorMap) -> bool {
        forall|i: int| 0 <= i < self.conditions@.len() ==> #[trigger] self.conditions@[i].holds(cfs)
    }

    /// `self` and `other` have the same conditions, target and events.
    pub open spec fn same_as(self, other: Transition) -> bool {
        &&& self.conditions@ == other.conditions@
        &&& self.to == other.to
        &&& self.emit@ == other.emit@
    }

    /// A copy with the same conditions, target and events.
    pub fn duplicate(&self) -> (r: Transition)
        ensures
            r.same_as(*self),
    {
        let mut conditions: Vec<MappedCondition> = Vec::new();
        let mut i: usize = 0;
        while i < self.conditions.len()
            invariant
                i <= self.conditions@.len(),
                conditions@ == self.conditions@.take(i as int),
            decreases self.conditions@.len() - i,
        {
            conditions.push(self.conditions[i].duplicate());
            assert(conditions@ =~= self.conditions@.take(i + 1));
            i = i + 1;
        }
        assert(self.conditions@.take(i as int) =~= self.conditions@);
        Transition { conditions, to: self.to.clone(), emit: copy_events(&self.emit) }
    }

    /// Whether every condition holds; stops at the first that does not.
    pub fn is_satisfied(&self, cfs: &ControlFactorMap) -> (r: bool)
        ensures
            r == self.satisfied(*cfs),
    {
        let mut i: usize = 0;
        while i < self.conditions.len()
            invariant
                i <= self.conditions@.len(),
                forall|j: int| 0 <= j < i ==> #[trigger] self.conditions@[j].holds(*cfs),
            decreases self.conditions@.len() - i,
        {
            if !self.conditions[i].is_valid(cfs) {
                return false;
            }
            i = i + 1;
        }
        true
    }
}

/// One state of an exercise: its outgoing transitions and its own warnings.
#[derive(Clone, Debug)]
pub struct JsonState {
    pub name: String,
    pub transitions: Vec<Transition>,
    pub warnings: Vec<Warning>,
}

/// An exercise given as data: its states, the state it starts in, and the
/// warnings checked in every state.
#[derive(Clone, Debug)]
pub struct JsonExercise {
    pub states: Vec<JsonState>,
    pub initial_state: String,
    pub warnings: Vec<Warning>,
}

/// The transitions of every state named `id`, in declaration order.
pub open spec fn transitions_in(states: Seq<JsonState>, id: Seq<char>) -> Seq<Transition>
    decreases states.len(),
{
    if states.len() == 0 {
        Seq::empty()
    } else {
        transitions_in(states.drop_last(), id) + if states.last().name@ == id {
            states.last().transitions@
        } else {
            Seq::empty()
        }
    }
}

/// The warnings of every state named `id`, in declaration order.
pub open spec fn warnings_in(states: Seq<JsonState>, id: Seq<char>) -> Seq<Warning>
    decreases states.len(),
{
    if states.len() == 0 {
        Seq::empty()
    } else {
        warnings_in(states.drop_last(), id) + if states.last().name@ == id {
            states.last().warnings@
        } else {
            Seq::empty()
        }
    }
}

/// The first transition of `ts` whose conditions all hold.
pub open spec fn first_satisfied(ts: Seq<Transition>, cfs: ControlFactorMap) -> Option<Transition>
    decreases ts.len(),
{
    if ts.len() == 0 {
        None
    } else if ts[0].satisfied(cfs) {
        Some(ts[0])
    } else {
        first_satisfied(ts.drop_first(), cfs)
    }
}

/// Skipping transitions that do not hold does not change which one fires.
pub proof fn lemma_first_satisfied_skip(ts: Seq<Transition>, cfs: ControlFactorMap, k: int)
    requires
        0 <= k <= ts.len(),
        forall|j: int| 0 <= j < k ==> !(#[trigger] ts[j]).satisfied(cfs),
    ensures
        first_satisfied(ts, cfs) == first_satisfied(ts.subrange(k, ts.len() as int), cfs),
    decreases k,
{
    if k > 0 {
        let rest = ts.drop_first();
        assert forall|j: int| 0 <= j < k - 1 implies !(#[trigger] rest[j]).satisfied(cfs) by {
            assert(rest[j] == ts[j + 1]);
        }
        lemma_first_satisfied_skip(rest, cfs, k - 1);
        assert(rest.subrange(k - 1, rest.len() as int) =~= ts.subrange(k, ts.len() as int));
    } else {
        assert(ts.subrange(0, ts.len() as int) =~= ts);
    }
}

proof fn lemma_transitions_prefix(states: Seq<JsonState>, id: Seq<char>, a: int, b: int)
    requires
        0 <= a <= b <= states.len(),
    ensures
        transitions_in(states.take(a), id).len() <= transitions_in(states.take(b), id).len(),
        transitions_in(states.take(b), id).take(transitions_in(states.take(a), id).len() as int)
            =~= transitions_in(states.take(a), id),
    decreases b - a,
{
    if a < b {
        lemma_transitions_prefix(states, id, a, b - 1);
        assert(states.take(b).drop_last() =~= states.take(b - 1));
    }
}

/// `t` leads to `to`, emitting `emit`, when both arm angles lie in `[lo, hi)`.
pub open spec fn is_arms_transition(t: Transition, to: Seq<char>, lo: i64, hi: i64, emit: Seq<Event>) -> bool {
    &&& t.to@ == to
    &&& t.emit@ == emit
    &&& t.conditions@.len() == 2
    &&& t.conditions@[0].control_factor@ == "arm_angle_l"@
    &&& t.conditions@[0].condition == Condition::InRange { lo, hi }
    &&& t.conditions@[1].control_factor@ == "arm_angle_r"@
    &&& t.conditions@[1].condition == Condition::InRange { lo, hi }
}

/// A state named `name` with no warnings and exactly one transition.
pub open spec fn is_single_transition_state(st: JsonState, name: Seq<char>) -> bool {
    &&& st.name@ == name
    &&& st.warnings@.len() == 0
    &&& st.transitions@.len() == 1
}

fn arms_transition(to: &str, lo: i64, hi: i64, emit: Vec<Event>) -> (r: Transition)
    ensures
        is_arms_transition(r, to@, lo, hi, emit@),
{
    let mut conditions: Vec<MappedCondition> = Vec::new();
    conditions.push(MappedCondition { control_factor: "arm_angle_l".to_owned(), condition: Condition::InRange { lo, hi } });
    conditions.push(MappedCondition { control_factor: "arm_angle_r".to_owned(), condition: Condition::InRange { lo, hi } });
    proof {
        reveal_strlit("arm_angle_l");
        reveal_strlit("arm_angle_r");
    }
    Transition { conditions, to: to.to_owned(), emit }
}

fn single_transition_state(name: &str, t: Transition) -> (r: JsonState)
    ensures
        is_single_transition_state(r, name@),
        r.transitions@[0] == t,
{
    let mut transitions: Vec<Transition> = Vec::new();
    transitions.push(t);
    JsonState { name: name.to_owned(), transitions, warnings: Vec::new() }
}

impl JsonExercise {
    /// A simple arm exercise in units of degrees: from `start`, lowering
    /// both arms below 30 leads to `down`; raising both into `[45, 90)`
    /// leads to `up`; lowering them again completes a repetition.
    pub fn simple() -> (r: JsonExercise)
        ensures
            r.initial_state@ == "start"@,
            r.warnings@.len() == 0,
            r.states@.len() == 3,
            is_single_transition_state(r.states@[0], "start"@),
            is_arms_transition(r.states@[0].transitions@[0], "down"@, 0, 30, Seq::empty()),
            is_single_transition_state(r.states@[1], "up"@),
            is_arms_transition(r.states@[1].transitions@[0], "down"@, 0, 30, seq![Event::RepetitionComplete]),
            is_single_transition_state(r.states@[2], "down"@),
            is_arms_transition(r.states@[2].transitions@[0], "up"@, 45, 90, Seq::empty()),
    {
        let mut rep: Vec<Event> = Vec::new();
        rep.push(Event::RepetitionComplete);
        let mut states: Vec<JsonState> = Vec::new();
        states.push(single_transition_state("start", arms_transition("down", 0, 30, Vec::new())));
        states.push(single_transition_state("up", arms_transition("down", 0, 30, rep)));
        states.push(single_transition_state("down", arms_transition("up", 45, 90, Vec::new())));
        proof {
            reveal_strlit("start");
            reveal_strlit("up");
            reveal_strlit("down");
        }
        JsonExercise { states, initial_state: "start".to_owned(), warnings: Vec::new() }
    }

    /// The transitions leaving state `id`, in the order they are tried.
    pub open spec fn transitions_from(self, id: Seq<char>) -> Seq<Transition> {
        transitions_in(self.states@, id)
    }

    /// The warnings checked while in state `id`: the state's own, then the
    /// global ones.
    pub open spec fn active_warnings(self, id: Seq<char>) -> Seq<Warning> {
        warnings_in(self.states@, id) + self.warnings@
    }

    /// The names of all states, in declaration order.
    pub fn states(&self) -> (r: Vec<String>)
        ensures
            r@.len() == self.states@.len(),
            forall|i: int| 0 <= i < r@.len() ==> #[trigger] r@[i] == self.states@[i].name,
    {
        let mut r: Vec<String> = Vec::new();
        let mut i: usize = 0;
        while i < self.states.len()
            invariant
                i <= self.states@.len(),
                r@.len() == i,
                forall|j: int| 0 <= j < i ==> #[trigger] r@[j] == self.states@[j].name,
            decreases self.states@.len() - i,
        {
            r.push(self.states[i].name.clone());
            i = i + 1;
        }
        r
    }

    pub fn initial_state(&self) -> (r: String)
        ensures
            r == self.initial_state,
    {
        self.initial_state.clone()
    }

    /// Copies of the transitions leaving `state`, in the order they are tried.
    pub fn state_transitions(&self, state: &String) -> (r: Vec<Transition>)
        ensures
            r@.len() == self.transitions_from(state@).len(),
            forall|i: int| 0 <= i < r@.len() ==> (#[trigger] r@[i]).same_as(self.transitions_from(state@)[i]),
    {
        let mut r: Vec<Transition> = Vec::new();
        let mut i: usize = 0;
        while i < self.states.len()
            invariant
                i <= self.states@.len(),
                r@.len() == transitions_in(self.states@.take(i as int), state@).len(),
                forall|j: int|
                    0 <= j < r@.len() ==> (#[trigger] r@[j]).same_as(
                        transitions_in(self.states@.take(i as int), state@)[j],
                    ),
            decreases self.states@.len() - i,
        {
            assert(self.states@.take(i + 1).drop_last() =~= self.states@.take(i as int));
            let ghost prev = transitions_in(self.states@.take(i as int), state@);
            if self.states[i].name == *state {
                let ts = &self.states[i].transitions;
                let ghost next = prev + ts@;
                assert(transitions_in(self.states@.take(i + 1), state@) == next);
                let mut k: usize = 0;
                while k < ts.len()
                    invariant
                        k <= ts@.len(),
                        next == prev + ts@,
                        r@.len() == prev.len() + k,
                        forall|j: int| 0 <= j < r@.len() ==> (#[trigger] r@[j]).same_as(next[j]),
                    decreases ts@.len() - k,
                {
                    r.push(ts[k].duplicate());
                    k = k + 1;
                }
            } else {
                assert(transitions_in(self.states@.take(i + 1), state@) =~= prev);
            }
            i = i + 1;
        }
        assert(self.states@.take(i as int) =~= self.states@);
        r
    }

    /// The warnings of the states named `state`.
    pub fn state_warnings(&self, state: &String) -> (r: Vec<Warning>)
        ensures
            r@ == warnings_in(self.states@, state@),
    {
        let mut r: Vec<Warning> = Vec::new();
        let mut i: usize = 0;
        while i < self.states.len()
            invariant
                i <= self.states@.len(),
                r@ == warnings_in(self.states@.take(i as int), state@),
            decreases self.states@.len() - i,
        {
            assert(self.states@.take(i + 1).drop_last() =~= self.states@.take(i as int));
            if self.states[i].name == *state {
                let ws = &self.states[i].warnings;
                let ghost before = r@;
                let mut k: usize = 0;
                while k < ws.len()
                    invariant
                        k <= ws@.len(),
                        r@ == before + ws@.take(k as int),
                    decreases ws@.len() - k,
                {
                    r.push(ws[k].duplicate());
                    assert(r@ =~= before + ws@.take(k + 1));
                    k = k + 1;
                }
                assert(ws@.take(k as int) =~= ws@);
            } else {
                assert(r@ =~= r@ + Seq::<Warning>::empty());
            }
            i = i + 1;
        }
        assert(self.states@.take(i as int) =~= self.states@);
        r
    }

    /// The warnings checked in every state.
    pub fn global_warnings(&self) -> (r: Vec<Warning>)
        ensures
            r@ == self.warnings@,
    {
        let mut r: Vec<Warning> = Vec::new();
        let mut k: usize = 0;
        while k < self.warnings.len()
            invariant
                k <= self.warnings@.len(),
                r@ == self.warnings@.take(k as int),
            decreases self.warnings@.len() - k,
        {
            r.push(self.warnings[k].duplicate());
            assert(r@ =~= self.warnings@.take(k + 1));
            k = k + 1;
        }
        assert(self.warnings@.take(k as int) =~= self.warnings@);
        r
    }

    /// The warnings checked while in `state`: its own, then the global ones.
    pub fn active_warnings_of(&self, state: &String) -> (r: Vec<Warning>)
        ensures
            r@ == self.active_warnings(state@),
    {
        let mut r = self.state_warnings(state);
        let mut g = self.global_warnings();
        r.append(&mut g);
        r
    }

    /// Where the first satisfied transition leaving `state` is declared:
    /// the index of its state and its index within that state.
    pub fn first_fired(&self, state: &String, cfs: &ControlFactorMap) -> (r: Option<(usize, usize)>)
        ensures
            match r {
                Some((si, ti)) => {
                    &&& si < self.states@.len()
                    &&& ti < self.states@[si as int].transitions@.len()
                    &&& first_satisfied(self.transitions_from(state@), *cfs)
                        == Some(self.states@[si as int].transitions@[ti as int])
                },
                None => first_satisfied(self.transitions_from(state@), *cfs) is None,
            },
    {
        let ghost all = self.transitions_from(state@);
        let mut si: usize = 0;
        while si < self.states.len()
            invariant
                si <= self.states@.len(),
                all == transitions_in(self.states@, state@),
                forall|j: int|
                    0 <= j < transitions_in(self.states@.take(si as int), state@).len()
                        ==> !(#[trigger] transitions_in(self.states@.take(si as int), state@)[j]).satisfied(*cfs),
            decreases self.states@.len() - si,
        {
            let ghost prev = transitions_in(self.states@.take(si as int), state@);
            assert(self.states@.take(si + 1).drop_last() =~= self.states@.take(si as int));
            let ghost next = transitions_in(self.states@.take(si + 1), state@);
            if self.states[si].name == *state {
                let ts = &self.states[si].transitions;
                assert(next =~= prev + ts@);
                let mut ti: usize = 0;
                while ti < ts.len()
                    invariant
                        ti <= ts@.len(),
                        si < self.states@.len(),
                        *ts == self.states@[si as int].transitions,
                        all == transitions_in(self.states@, state@),
                        prev == transitions_in(self.states@.take(si as int), state@),
                        next == transitions_in(self.states@.take(si + 1), state@),
                        next == prev + ts@,
                        forall|j: int| 0 <= j < prev.len() ==> !(#[trigger] prev[j]).satisfied(*cfs),
                        forall|j: int| 0 <= j < ti ==> !(#[trigger] ts@[j]).satisfied(*cfs),
                    decreases ts@.len() - ti,
                {
                    if ts[ti].is_satisfied(cfs) {
                        proof {
                            let k = prev.len() + ti;
                            lemma_transitions_prefix(self.states@, state@, si + 1, self.states@.len() as int);
                            assert(self.states@.take(self.states@.len() as int) =~= self.states@);
                            assert(all.take(next.len() as int) =~= next);
                            assert forall|j: int| 0 <= j < k implies !(#[trigger] all[j]).satisfied(*cfs) by {
                                assert(all[j] == all.take(next.len() as int)[j]);
                                if j < prev.len() {
                                    assert(next[j] == prev[j]);
                                } else {
                                    assert(next[j] == ts@[j - prev.len()]);
                                }
                            }
                            assert(all[k] == next[k]);
                            lemma_first_satisfied_skip(all, *cfs, k);
                            let rest = all.subrange(k, all.len() as int);
                            assert(rest[0] == all[k]);
                        }
                        return Some((si, ti));
                    }
                    ti = ti + 1;
                }
                assert forall|j: int| 0 <= j < next.len() implies !(#[trigger] next[j]).satisfied(*cfs) by {
                    if j < prev.len() {
                        assert(next[j] == prev[j]);
                    } else {
                        assert(next[j] == ts@[j - prev.len()]);
                    }
                }
            } else {
                assert(next =~= prev);
            }
            si = si + 1;
        }
        proof {
            assert(self.states@.take(si as int) =~= self.states@);
            lemma_first_satisfied_skip(all, *cfs, all.len() as int);
            assert(all.subrange(all.len() as int, all.len() as int) =~= Seq::<Transition>::empty());
        }
        None
    }
}


/// What a motion analyzer remembers between frames: its current state and
/// one duration accumulator per active warning.
pub struct AnalyzerModel {
    pub state: Seq<char>,
    pub accumulators: Seq<u64>,
}

/// What one frame reports.
pub struct FrameReport {
    pub state: Seq<char>,
    pub events: Seq<Event>,
    pub warnings: Seq<Warning>,
}

/// `a + b`, or `u64::MAX` where the sum does not fit.
pub open spec fn sat_add(a: u64, b: u64) -> u64 {
    if a + b > u64::MAX {
        u64::MAX
    } else {
        (a + b) as u64
    }
}

/// The accumulators after a frame of `dt` ticks: grown where the warning's
/// condition holds, cleared where it does not.
pub open spec fn accumulate(ws: Seq<Warning>, acc: Seq<u64>, dt: u64, cfs: ControlFactorMap) -> Seq<u64> {
    Seq::new(ws.len(), |i: int| if ws[i].holds(cfs) { sat_add(acc[i], dt) } else { 0u64 })
}

/// The warnings among the first `n` whose accumulator reached its threshold.
pub open spec fn fired_upto(ws: Seq<Warning>, acc: Seq<u64>, n: nat) -> Seq<Warning>
    decreases n,
{
    if n == 0 {
        Seq::empty()
    } else {
        fired_upto(ws, acc, (n - 1) as nat) + if acc[n - 1] >= ws[n - 1].threshold {
            seq![ws[n - 1]]
        } else {
            Seq::empty()
        }
    }
}

/// The analyzer's memory after one frame of `dt` ticks with factors `cfs`.
pub open spec fn step(ex: JsonExercise, m: AnalyzerModel, dt: u64, cfs: ControlFactorMap) -> AnalyzerModel {
    match first_satisfied(ex.transitions_from(m.state), cfs) {
        Some(t) => AnalyzerModel {
            state: t.to@,
            accumulators: accumulate(
                ex.active_warnings(t.to@),
                Seq::new(ex.active_warnings(t.to@).len(), |i: int| 0u64),
                dt,
                cfs,
            ),
        },
        None => AnalyzerModel {
            state: m.state,
            accumulators: accumulate(ex.active_warnings(m.state), m.accumulators, dt, cfs),
        },
    }
}

/// What one frame of `dt` ticks with factors `cfs` reports.
pub open spec fn report(ex: JsonExercise, m: AnalyzerModel, dt: u64, cfs: ControlFactorMap) -> FrameReport {
    let n = step(ex, m, dt, cfs);
    let ws = ex.active_warnings(n.state);
    FrameReport {
        state: n.state,
        events: match first_satisfied(ex.transitions_from(m.state), cfs) {
            Some(t) => t.emit@,
            None => Seq::empty(),
        },
        warnings: fired_upto(ws, n.accumulators, ws.len()),
    }
}

/// The reports of a sequence of frames, each a duration and its factors.
pub open spec fn run(ex: JsonExercise, m: AnalyzerModel, frames: Seq<(u64, ControlFactorMap)>) -> Seq<FrameReport>
    decreases frames.len(),
{
    if frames.len() == 0 {
        Seq::empty()
    } else {
        seq![report(ex, m, frames[0].0, frames[0].1)] + run(
            ex,
            step(ex, m, frames[0].0, frames[0].1),
            frames.drop_first(),
        )
    }
}

/// Determinism: two analyzers of one exercise that remember the same thing
/// report the same for every sequence of frames.
pub proof fn lemma_run_deterministic(
    ex: JsonExercise,
    m1: AnalyzerModel,
    m2: AnalyzerModel,
    frames: Seq<(u64, ControlFactorMap)>,
)
    requires
        m1 == m2,
    ensures
        run(ex, m1, frames) == run(ex, m2, frames),
{
}

/// Accumulator reset: after any frame, the accumulator of a warning whose
/// condition is false is zero; after a frame in which a transition fired,
/// each accumulator holds at most that frame's duration, so nothing from
/// before the transition.
pub proof fn lemma_warning_reset(ex: JsonExercise, m: AnalyzerModel, dt: u64, cfs: ControlFactorMap)
    requires
        m.accumulators.len() == ex.active_warnings(m.state).len(),
    ensures
        ({
            let n = step(ex, m, dt, cfs);
            let ws = ex.active_warnings(n.state);
            &&& n.accumulators.len() == ws.len()
            &&& forall|i: int| 0 <= i < ws.len() && !ws[i].holds(cfs) ==> #[trigger] n.accumulators[i] == 0
            &&& first_satisfied(ex.transitions_from(m.state), cfs) is Some ==> forall|i: int|
                0 <= i < ws.len() ==> #[trigger] n.accumulators[i] == if ws[i].holds(cfs) {
                    dt
                } else {
                    0u64
                }
        }),
{
}

/// Transition priority: when transitions `i < j` leaving a state both hold,
/// the one that fires is declared no later than `i` (it is the first that
/// holds), so `j` never wins over `i`.
pub proof fn lemma_transition_priority(ts: Seq<Transition>, cfs: ControlFactorMap, i: int, j: int)
    requires
        0 <= i < j < ts.len(),
        ts[i].satisfied(cfs),
        ts[j].satisfied(cfs),
    ensures
        exists|k: int|
            0 <= k <= i && first_satisfied(ts, cfs) == Some(#[trigger] ts[k]) && forall|l: int|
                0 <= l < k ==> !(#[trigger] ts[l]).satisfied(cfs),
    decreases i,
{
    if forall|l: int| 0 <= l < i ==> !(#[trigger] ts[l]).satisfied(cfs) {
        lemma_first_satisfied_skip(ts, cfs, i);
        assert(ts.subrange(i, ts.len() as int)[0] == ts[i]);
    } else {
        let l = choose|l: int| 0 <= l < i && (#[trigger] ts[l]).satisfied(cfs);
        lemma_transition_priority(ts, cfs, l, j);
    }
}

/// What one frame produced.
#[derive(Debug)]
pub struct ProgresState {
    /// The state after the frame.
    pub current_state: String,
    /// The warnings whose condition has held for at least their threshold.
    pub warnings: Vec<Warning>,
    /// The events emitted by the transition taken, if any.
    pub events: Vec<Event>,
}

/// Runs one exercise's state machine, frame by frame.
pub struct MotionAnalyzer {
    state_id: String,
    accumulators: Vec<u64>,
    exercise: JsonExercise,
}

impl View for MotionAnalyzer {
    type V = AnalyzerModel;

    closed spec fn view(&self) -> AnalyzerModel {
        AnalyzerModel { state: self.state_id@, accumulators: self.accumulators@ }
    }
}

fn copy_events(v: &Vec<Event>) -> (r: Vec<Event>)
    ensures
        r@ == v@,
{
    let mut r: Vec<Event> = Vec::new();
    let mut i: usize = 0;
    while i < v.len()
        invariant
            i <= v@.len(),
            r@ == v@.take(i as int),
        decreases v@.len() - i,
    {
        r.push(v[i]);
        assert(r@ =~= v@.take(i + 1));
        i = i + 1;
    }
    assert(v@.take(i as int) =~= v@);
    r
}

impl MotionAnalyzer {
    /// The exercise this analyzer runs.
    pub closed spec fn exercise(&self) -> JsonExercise {
        self.exercise
    }

    /// One accumulator for each warning active in the current state.
    pub open spec fn wf(&self) -> bool {
        self@.accumulators.len() == self.exercise().active_warnings(self@.state).len()
    }

    /// An analyzer in the exercise's initial state, with every accumulator at zero.
    pub fn new(exercise: JsonExercise) -> (r: MotionAnalyzer)
        ensures
            r.wf(),
            r.exercise() == exercise,
            r@.state == exercise.initial_state@,
            r@.accumulators == Seq::new(r@.accumulators.len(), |i: int| 0u64),
    {
        let state_id = exercise.initial_state.clone();
        let ws = exercise.active_warnings_of(&state_id);
        let mut accumulators: Vec<u64> = Vec::new();
        let mut i: usize = 0;
        while i < ws.len()
            invariant
                i <= ws@.len(),
                accumulators@ == Seq::new(i as nat, |j: int| 0u64),
            decreases ws@.len() - i,
        {
            accumulators.push(0);
            assert(accumulators@ =~= Seq::new((i + 1) as nat, |j: int| 0u64));
            i = i + 1;
        }
        MotionAnalyzer { state_id, accumulators, exercise }
    }

    /// The name of the current state.
    pub fn current_state(&self) -> (r: &String)
        ensures
            r@ == self@.state,
    {
        &self.state_id
    }

    /// Advances the state machine by one frame lasting `deltatime` ticks.
    ///
    /// The first transition leaving the current state whose conditions all
    /// hold is taken, its events are reported, and the accumulators start
    /// over for the new state's warnings. Then, whether or not a transition
    /// was taken, each active warning's accumulator grows by `deltatime`
    /// where its condition holds and is cleared where it does not; every
    /// warning whose accumulator reached its threshold is reported.
    pub fn progress(&mut self, deltatime: u64, cfs: &ControlFactorMap) -> (r: ProgresState)
        requires
            old(self).wf(),
        ensures
            final(self).wf(),
            final(self).exercise() == old(self).exercise(),
            final(self)@ == step(old(self).exercise(), old(self)@, deltatime, *cfs),
            r.current_state@ == report(old(self).exercise(), old(self)@, deltatime, *cfs).state,
            r.events@ == report(old(self).exercise(), old(self)@, deltatime, *cfs).events,
            r.warnings@ == report(old(self).exercise(), old(self)@, deltatime, *cfs).warnings,
    {
        let ghost ex = self.exercise;
        let ghost m = self@;
        let mut events: Vec<Event> = Vec::new();
        let mut reset = false;
        match self.exercise.first_fired(&self.state_id, cfs) {
            Some((si, ti)) => {
                let to = self.exercise.states[si].transitions[ti].to.clone();
                events = copy_events(&self.exercise.states[si].transitions[ti].emit);
                self.state_id = to;
                reset = true;
            },
            None => {},
        }
        let ghost next = step(ex, m, deltatime, *cfs);
        assert(self.state_id@ == next.state);
        let ws = self.exercise.active_warnings_of(&self.state_id);
        let mut acc: Vec<u64> = Vec::new();
        let mut fired: Vec<Warning> = Vec::new();
        let mut i: usize = 0;
        while i < ws.len()
            invariant
                i <= ws@.len(),
                ws@ == ex.active_warnings(next.state),
                self.exercise == ex,
                self.state_id@ == next.state,
                !reset ==> self.accumulators@ == m.accumulators && next.state == m.state,
                !reset ==> self.accumulators@.len() == ws@.len(),
                next.accumulators.len() == ws@.len(),
                reset ==> next.accumulators == accumulate(ws@, Seq::new(ws@.len(), |j: int| 0u64), deltatime, *cfs),
                !reset ==> next.accumulators == accumulate(ws@, m.accumulators, deltatime, *cfs),
                acc@ == next.accumulators.take(i as int),
                fired@ == fired_upto(ws@, next.accumulators, i as nat),
            decreases ws@.len() - i,
        {
            let base: u64 = if reset { 0 } else { self.accumulators[i] };
            let v: u64 = if ws[i].is_valid(cfs) {
                if base > u64::MAX - deltatime { u64::MAX } else { base + deltatime }
            } else {
                0
            };
            assert(v == next.accumulators[i as int]);
            acc.push(v);
            assert(acc@ =~= next.accumulators.take(i + 1));
            if v >= ws[i].threshold {
                fired.push(ws[i].duplicate());
            }
            assert(fired@ =~= fired_upto(ws@, next.accumulators, (i + 1) as nat));
            i = i + 1;
        }
        assert(acc@ =~= next.accumulators);
        self.accumulators = acc;
        ProgresState { current_state: self.state_id.clone(), warnings: fired, events }
    }
}

} // verus!
