//! The session orchestrator: sequences the exercises of one session, counts
//! repetitions, and answers each command or frame with the actions its
//! collaborators (pose source, display, store) must perform. It performs no
//! I/O itself; the caller runs the actions and feeds back what comes in.

use vstd::prelude::*;
use crate::condition::ControlFactorMap;
use crate::motion::{report, step, AnalyzerModel, Event, JsonExercise, MotionAnalyzer, ProgresState, Warning};

verus! {

/// How many repetitions of which exercise a session asks for.
#[derive(Clone, Debug, PartialEq, Eq)]
pub struct RequestExerciseReps {
    pub exercise_id: String,
    pub num_repetitions: u32,
}

/// Commands that reach the orchestrator from outside.
#[derive(Clone, Debug, PartialEq, Eq)]
pub enum Request {
    /// Starts a session running `exercises` in order; `save` asks for the
    /// result to be stored when it ends.
    SessionStart { exercises: Vec<RequestExerciseReps>, save: bool },
    /// Pauses or resumes the frame analysis.
    SetPlayState { running: bool },
    /// Ends the current session.
    SessionEnd,
    /// Ends the current session, if any, and closes every connection.
    CloseAll,
}

/// Repetitions done for one exercise, as stored when a session ends.
#[derive(Clone, Debug, PartialEq, Eq)]
pub struct ExerciseStore {
    pub num_repetitions_done: u32,
    pub exercise: String,
}

/// A completed session, as stored.
#[derive(Clone, Debug, PartialEq, Eq)]
pub struct SessionStore {
    pub exercises: Vec<ExerciseStore>,
    pub timestamp: String,
}

/// Work that the orchestrator hands to its collaborators, in order.
#[derive(Clone, Debug)]
pub enum Action {
    /// Ask the store for the templates of these exercises, in this order.
    LookupTemplates { ids: Vec<String> },
    /// Start pose acquisition.
    PoseStart,
    /// Stop pose acquisition.
    PoseStop,
    /// Tell the display that a session with these exercises started.
    UiSessionStart { exercise_ids: Vec<String> },
    /// Tell the display that an exercise started.
    UiExerciseStart { exercise_id: String, repetitions_target: u32 },
    /// Show the progress of the current exercise after a frame.
    UiExerciseUpdate { repetitions: u32, warnings: Vec<Warning> },
    /// Tell the display that the current exercise ended.
    UiExerciseEnd,
    /// Tell the display that the session ended.
    UiSessionEnd,
    /// Store the repetitions done in each exercise of the session.
    StoreSession { exercises: Vec<ExerciseStore> },
    /// A command came that the current state does not accept; it was ignored.
    LogInvalidState,
    /// A session could not start: no template was found for this exercise.
    LogLookupError { exercise_id: String },
    /// The current exercise's script failed; the session was ended.
    LogScriptError,
    /// Close every connection.
    CloseConnections,
}

/// One exercise of a session, with its analyzer and repetition count.
pub struct SessionExercise {
    pub name: String,
    pub analyzer: MotionAnalyzer,
    pub repetitions_target: u32,
    pub repetitions: u32,
}

/// The exercises of the running session, the index of the current one, and
/// whether frames are being analyzed.
pub struct SessionState {
    pub exercises: Vec<SessionExercise>,
    pub current_idx: usize,
    pub running: bool,
    pub save: bool,
}

/// How many repetitions `events` complete.
pub open spec fn count_repetitions(events: Seq<Event>) -> nat
    decreases events.len(),
{
    if events.len() == 0 {
        0
    } else {
        count_repetitions(events.drop_last()) + if events.last() == Event::RepetitionComplete {
            1nat
        } else {
            0nat
        }
    }
}

/// `done` increased by the repetitions that `events` complete, at most `u32::MAX`.
pub open spec fn add_repetitions(done: u32, events: Seq<Event>) -> u32 {
    if done + count_repetitions(events) > u32::MAX {
        u32::MAX
    } else {
        (done + count_repetitions(events)) as u32
    }
}

fn count_events(done: u32, events: &Vec<Event>) -> (r: u32)
    ensures
        r == add_repetitions(done, events@),
{
    let mut r: u32 = done;
    let mut i: usize = 0;
    while i < events.len()
        invariant
            i <= events@.len(),
            r == add_repetitions(done, events@.take(i as int)),
        decreases events@.len() - i,
    {
        assert(events@.take(i + 1).drop_last() =~= events@.take(i as int));
        if events[i] == Event::RepetitionComplete && r < u32::MAX {
            r = r + 1;
        }
        i = i + 1;
    }
    assert(events@.take(i as int) =~= events@);
    r
}

/// The repetitions to store for exercise `k` when the current one has done `cur`.
pub open spec fn repetitions_of(s: SessionState, k: int, cur: u32) -> u32 {
    if k == s.current_idx {
        cur
    } else {
        s.exercises@[k].repetitions
    }
}

/// `a` stores every exercise of `s` with its repetitions, the current one having done `cur`.
pub open spec fn is_store_of(a: Action, s: SessionState, cur: u32) -> bool {
    match a {
        Action::StoreSession { exercises } => {
            &&& exercises@.len() == s.exercises@.len()
            &&& forall|k: int|
                0 <= k < exercises@.len() ==> {
                    &&& (#[trigger] exercises@[k]).exercise@ == s.exercises@[k].name@
                    &&& exercises@[k].num_repetitions_done == repetitions_of(s, k, cur)
                }
        },
        _ => false,
    }
}

/// `r` is what ending session `s` does, the current exercise having done `cur`:
/// stop the pose source, tell the display, and store the result if asked.
pub open spec fn is_end_of(r: Seq<Action>, s: SessionState, cur: u32) -> bool {
    &&& r.len() == if s.save { 3int } else { 2int }
    &&& r[0] == Action::PoseStop
    &&& r[1] == Action::UiSessionEnd
    &&& s.save ==> is_store_of(r[2], s, cur)
}

/// `a` names the exercises `reqs` asks for, in order.
pub open spec fn is_lookup_of(a: Action, reqs: Seq<RequestExerciseReps>) -> bool {
    match a {
        Action::LookupTemplates { ids } => {
            &&& ids@.len() == reqs.len()
            &&& forall|k: int| 0 <= k < ids@.len() ==> (#[trigger] ids@[k])@ == reqs[k].exercise_id@
        },
        _ => false,
    }
}

/// `a` starts exercise `e` on the display.
pub open spec fn is_exercise_start_of(a: Action, e: SessionExercise) -> bool {
    match a {
        Action::UiExerciseStart { exercise_id, repetitions_target } => {
            exercise_id@ == e.name@ && repetitions_target == e.repetitions_target
        },
        _ => false,
    }
}

/// Template `k` was found.
pub open spec fn resolved(templates: Seq<Option<JsonExercise>>, k: int) -> bool {
    k < templates.len() && templates[k] is Some
}

impl SessionState {
    pub open spec fn wf(&self) -> bool {
        &&& 0 < self.exercises@.len()
        &&& self.current_idx < self.exercises@.len()
        &&& forall|k: int| 0 <= k < self.exercises@.len() ==> (#[trigger] self.exercises@[k]).analyzer.wf()
    }

    /// `new` is `old` after one frame of `dt` ticks with factors `cfs`, the
    /// current exercise having done `done` repetitions and being `finished`.
    pub open spec fn frame_processed(
        old: SessionState,
        new: SessionState,
        dt: u64,
        cfs: ControlFactorMap,
    ) -> bool {
        let i = old.current_idx as int;
        let e = old.exercises@[i];
        let done = add_repetitions(e.repetitions, report(e.analyzer.exercise(), e.analyzer@, dt, cfs).events);
        let finished = done >= e.repetitions_target;
        &&& new.exercises@.len() == old.exercises@.len()
        &&& new.running == old.running
        &&& new.save == old.save
        &&& new.current_idx == if finished && i + 1 < old.exercises@.len() {
            old.current_idx + 1
        } else {
            old.current_idx as int
        }
        &&& forall|k: int| 0 <= k < old.exercises@.len() && k != i ==> #[trigger] new.exercises@[k] == old.exercises@[k]
        &&& new.exercises@[i].name == e.name
        &&& new.exercises@[i].repetitions_target == e.repetitions_target
        &&& new.exercises@[i].repetitions == done
        &&& new.exercises@[i].analyzer.exercise() == e.analyzer.exercise()
        &&& new.exercises@[i].analyzer@ == step(e.analyzer.exercise(), e.analyzer@, dt, cfs)
    }

    /// Repetitions done by the current exercise after a frame.
    pub open spec fn done_after(self, dt: u64, cfs: ControlFactorMap) -> u32 {
        let e = self.exercises@[self.current_idx as int];
        add_repetitions(e.repetitions, report(e.analyzer.exercise(), e.analyzer@, dt, cfs).events)
    }

    /// Feeds a frame to the current exercise and counts the repetitions it
    /// completes. Returns whether the exercise reached its target, whether
    /// that finished the session (it was the last one), and the analyzer's
    /// report. A finished exercise that is not the last one makes the next
    /// one current.
    pub fn process(&mut self, deltatime: u64, cfs: &ControlFactorMap) -> (r: (bool, bool, ProgresState))
        requires
            old(self).wf(),
        ensures
            final(self).wf(),
            SessionState::frame_processed(*old(self), *final(self), deltatime, *cfs),
            r.0 == (old(self).done_after(deltatime, *cfs)
                >= old(self).exercises@[old(self).current_idx as int].repetitions_target),
            r.1 == (r.0 && old(self).current_idx + 1 == old(self).exercises@.len()),
            ({
                let e = old(self).exercises@[old(self).current_idx as int];
                let rep = report(e.analyzer.exercise(), e.analyzer@, deltatime, *cfs);
                &&& r.2.current_state@ == rep.state
                &&& r.2.events@ == rep.events
                &&& r.2.warnings@ == rep.warnings
            }),
    {
        let idx = self.current_idx;
        let mut e = self.exercises.remove(idx);
        let output = e.analyzer.progress(deltatime, cfs);
        e.repetitions = count_events(e.repetitions, &output.events);
        let finished = e.repetitions >= e.repetitions_target;
        self.exercises.insert(idx, e);
        let mut completed = false;
        if finished {
            if idx < self.exercises.len() - 1 {
                self.current_idx = idx + 1;
            } else {
                completed = true;
            }
        }
        proof {
            assert forall|k: int| 0 <= k < old(self).exercises@.len() && k != idx implies
                #[trigger] self.exercises@[k] == old(self).exercises@[k] by {
                if k < idx {
                    assert(self.exercises@[k] == old(self).exercises@.remove(idx as int)[k]);
                } else {
                    assert(self.exercises@[k] == old(self).exercises@.remove(idx as int)[k - 1]);
                }
            }
            assert forall|k: int| 0 <= k < self.exercises@.len() implies (#[trigger] self.exercises@[k]).analyzer.wf() by {
                if k != idx {
                    assert(self.exercises@[k] == old(self).exercises@[k]);
                }
            }
        }
        (finished, completed, output)
    }

    /// The name of the current exercise.
    pub fn current_exercise_name(&self) -> (r: String)
        requires
            self.wf(),
        ensures
            r == self.exercises@[self.current_idx as int].name,
    {
        self.exercises[self.current_idx].name.clone()
    }

    /// The target and the repetitions done of the current exercise.
    pub fn current_repetitions(&self) -> (r: (u32, u32))
        requires
            self.wf(),
        ensures
            r.0 == self.exercises@[self.current_idx as int].repetitions_target,
            r.1 == self.exercises@[self.current_idx as int].repetitions,
    {
        let ex = &self.exercises[self.current_idx];
        (ex.repetitions_target, ex.repetitions)
    }

    /// What ending this session does, the current exercise having done `cur` repetitions.
    fn end_actions(&self, cur: u32) -> (r: Vec<Action>)
        requires
            self.wf(),
        ensures
            is_end_of(r@, *self, cur),
    {
        let mut r: Vec<Action> = Vec::new();
        r.push(Action::PoseStop);
        r.push(Action::UiSessionEnd);
        if self.save {
            let mut stored: Vec<ExerciseStore> = Vec::new();
            let mut k: usize = 0;
            while k < self.exercises.len()
                invariant
                    k <= self.exercises@.len(),
                    self.wf(),
                    stored@.len() == k,
                    forall|j: int|
                        0 <= j < k ==> {
                            &&& (#[trigger] stored@[j]).exercise@ == self.exercises@[j].name@
                            &&& stored@[j].num_repetitions_done == repetitions_of(*self, j, cur)
                        },
                decreases self.exercises@.len() - k,
            {
                let done = if k == self.current_idx { cur } else { self.exercises[k].repetitions };
                stored.push(ExerciseStore { num_repetitions_done: done, exercise: self.exercises[k].name.clone() });
                k = k + 1;
            }
            r.push(Action::StoreSession { exercises: stored });
        }
        r
    }
}

/// `a` starts, on the display, a session with the exercises `reqs` asks for.
pub open spec fn is_session_start_of(a: Action, reqs: Seq<RequestExerciseReps>) -> bool {
    match a {
        Action::UiSessionStart { exercise_ids } => {
            &&& exercise_ids@.len() == reqs.len()
            &&& forall|k: int| 0 <= k < exercise_ids@.len() ==> (#[trigger] exercise_ids@[k])@ == reqs[k].exercise_id@
        },
        _ => false,
    }
}

/// The orchestrator: at most one session at a time.
pub struct Session {
    session: Option<SessionState>,
}

impl Session {
    /// The running session, if any.
    pub closed spec fn current(&self) -> Option<SessionState> {
        self.session
    }

    pub open spec fn wf(&self) -> bool {
        match self.current() {
            Some(s) => s.wf(),
            None => true,
        }
    }

    /// An orchestrator with no session.
    pub fn new() -> (r: Session)
        ensures
            r.wf(),
            r.current() is None,
    {
        Session { session: None }
    }

    /// Whether a session is running.
    pub fn is_active(&self) -> (r: bool)
        ensures
            r == self.current() is Some,
    {
        self.session.is_some()
    }

    /// The running session, if any.
    pub fn state(&self) -> (r: &Option<SessionState>)
        ensures
            *r == self.current(),
    {
        &self.session
    }

    /// Answers a command. A session start is only answered with the lookup
    /// of its templates (see `session_start` for the rest); commands that the
    /// current state does not accept change nothing and are logged.
    pub fn handle_request(&mut self, req: Request) -> (r: Vec<Action>)
        requires
            old(self).wf(),
        ensures
            final(self).wf(),
            match req {
                Request::SessionStart { exercises, save } => {
                    &&& final(self).current() == old(self).current()
                    &&& old(self).current() is Some ==> r@ == seq![Action::LogInvalidState]
                    &&& old(self).current() is None ==> r@.len() == 1 && is_lookup_of(r@[0], exercises@)
                },
                Request::SetPlayState { running } => match old(self).current() {
                    Some(s) => {
                        &&& r@.len() == 0
                        &&& final(self).current() matches Some(t) && t.running == running && t.exercises
                            == s.exercises && t.current_idx == s.current_idx && t.save == s.save
                    },
                    None => final(self).current() is None && r@ == seq![Action::LogInvalidState],
                },
                Request::SessionEnd => match old(self).current() {
                    Some(s) => final(self).current() is None && is_end_of(
                        r@,
                        s,
                        s.exercises@[s.current_idx as int].repetitions,
                    ),
                    None => final(self).current() is None && r@ == seq![Action::LogInvalidState],
                },
                Request::CloseAll => {
                    &&& final(self).current() is None
                    &&& r@.len() > 0
                    &&& r@.last() == Action::CloseConnections
                    &&& old(self).current() matches Some(s) ==> is_end_of(
                        r@.drop_last(),
                        s,
                        s.exercises@[s.current_idx as int].repetitions,
                    )
                    &&& old(self).current() is None ==> r@.len() == 1
                },
            },
    {
        match req {
            Request::SessionStart { exercises, save } => {
                let mut r: Vec<Action> = Vec::new();
                if self.session.is_some() {
                    r.push(Action::LogInvalidState);
                } else {
                    let mut ids: Vec<String> = Vec::new();
                    let mut k: usize = 0;
                    while k < exercises.len()
                        invariant
                            k <= exercises@.len(),
                            ids@.len() == k,
                            forall|j: int| 0 <= j < k ==> (#[trigger] ids@[j])@ == exercises@[j].exercise_id@,
                        decreases exercises@.len() - k,
                    {
                        ids.push(exercises[k].exercise_id.clone());
                        k = k + 1;
                    }
                    r.push(Action::LookupTemplates { ids });
                }
                r
            },
            Request::SetPlayState { running } => {
                let mut r: Vec<Action> = Vec::new();
                match self.session.take() {
                    Some(mut s) => {
                        s.running = running;
                        self.session = Some(s);
                    },
                    None => {
                        r.push(Action::LogInvalidState);
                    },
                }
                r
            },
            Request::SessionEnd => {
                match self.session.take() {
                    Some(s) => {
                        let cur = s.exercises[s.current_idx].repetitions;
                        s.end_actions(cur)
                    },
                    None => {
                        let mut r: Vec<Action> = Vec::new();
                        r.push(Action::LogInvalidState);
                        r
                    },
                }
            },
            Request::CloseAll => {
                let mut r: Vec<Action> = match self.session.take() {
                    Some(s) => {
                        let cur = s.exercises[s.current_idx].repetitions;
                        s.end_actions(cur)
                    },
                    None => Vec::new(),
                };
                let ghost before = r@;
                r.push(Action::CloseConnections);
                assert(r@.drop_last() =~= before);
                r
            },
        }
    }

    /// Starts a session once the store has answered the lookup of its
    /// templates: `templates[k]` is the template found for `requests[k]`.
    ///
    /// While a session runs, or when no exercise is asked for, nothing
    /// changes and the command is logged as invalid. When a template is
    /// missing, nothing changes and the first missing exercise is reported.
    /// Otherwise the session starts at its first exercise, running, each
    /// exercise's analyzer in its initial state with no repetition done; the
    /// pose source is started and the display told of the session and of its
    /// first exercise.
    pub fn session_start(
        &mut self,
        requests: &Vec<RequestExerciseReps>,
        save: bool,
        templates: Vec<Option<JsonExercise>>,
    ) -> (r: Vec<Action>)
        requires
            old(self).wf(),
        ensures
            final(self).wf(),
            old(self).current() is Some ==> final(self).current() == old(self).current() && r@ == seq![
                Action::LogInvalidState,
            ],
            old(self).current() is None && requests@.len() == 0 ==> final(self).current() is None && r@ == seq![
                Action::LogInvalidState,
            ],
            old(self).current() is None && 0 < requests@.len() && (exists|k: int|
                0 <= k < requests@.len() && !resolved(templates@, k)) ==> {
                &&& final(self).current() is None
                &&& r@.len() == 1
                &&& r@[0] matches Action::LogLookupError { exercise_id } && exists|k: int|
                    {
                        &&& 0 <= k < requests@.len()
                        &&& !resolved(templates@, k)
                        &&& forall|j: int| 0 <= j < k ==> resolved(templates@, j)
                        &&& exercise_id@ == (#[trigger] requests@[k]).exercise_id@
                    }
            },
            old(self).current() is None && 0 < requests@.len() && (forall|k: int|
                0 <= k < requests@.len() ==> resolved(templates@, k)) ==> {
                &&& final(self).current() matches Some(s) && {
                    &&& s.current_idx == 0
                    &&& s.running
                    &&& s.save == save
                    &&& s.exercises@.len() == requests@.len()
                    &&& forall|k: int|
                        0 <= k < requests@.len() ==> {
                            let e = #[trigger] s.exercises@[k];
                            &&& e.name@ == requests@[k].exercise_id@
                            &&& e.repetitions_target == requests@[k].num_repetitions
                            &&& e.repetitions == 0
                            &&& Some(e.analyzer.exercise()) == templates@[k]
                            &&& e.analyzer@.state == e.analyzer.exercise().initial_state@
                            &&& forall|w: int| 0 <= w < e.analyzer@.accumulators.len() ==> #[trigger] e.analyzer@.accumulators[w] == 0
                        }
                    &&& r@.len() == 3
                    &&& r@[0] == Action::PoseStart
                    &&& is_session_start_of(r@[1], requests@)
                    &&& is_exercise_start_of(r@[2], s.exercises@[0])
                }
            },
    {
        let mut r: Vec<Action> = Vec::new();
        if self.session.is_some() || requests.len() == 0 {
            r.push(Action::LogInvalidState);
            return r;
        }
        let mut k: usize = 0;
        while k < requests.len()
            invariant
                k <= requests@.len(),
                *self == *old(self),
                self.current() is None,
                r@.len() == 0,
                forall|j: int| 0 <= j < k ==> resolved(templates@, j),
            decreases requests@.len() - k,
        {
            if k >= templates.len() || templates[k].is_none() {
                assert(!resolved(templates@, k as int));
                r.push(Action::LogLookupError { exercise_id: requests[k].exercise_id.clone() });
                return r;
            }
            k = k + 1;
        }
        let ghost orig = templates@;
        assert(resolved(orig, requests@.len() - 1));
        let mut templates = templates;
        let mut exercises: Vec<SessionExercise> = Vec::new();
        let mut ids: Vec<String> = Vec::new();
        let mut i: usize = 0;
        while i < requests.len()
            invariant
                i <= requests@.len(),
                requests@.len() <= orig.len(),
                forall|j: int| 0 <= j < requests@.len() ==> resolved(orig, j),
                templates@ == orig.subrange(i as int, orig.len() as int),
                exercises@.len() == i,
                ids@.len() == i,
                forall|j: int|
                    0 <= j < i ==> {
                        let e = #[trigger] exercises@[j];
                        &&& e.name@ == requests@[j].exercise_id@
                        &&& ids@[j]@ == requests@[j].exercise_id@
                        &&& e.repetitions_target == requests@[j].num_repetitions
                        &&& e.repetitions == 0
                        &&& Some(e.analyzer.exercise()) == orig[j]
                        &&& e.analyzer.wf()
                        &&& e.analyzer@.state == e.analyzer.exercise().initial_state@
                        &&& forall|w: int| 0 <= w < e.analyzer@.accumulators.len() ==> #[trigger] e.analyzer@.accumulators[w] == 0
                    },
            decreases requests@.len() - i,
        {
            assert(resolved(orig, i as int));
            assert(templates@[0] == orig[i as int]);
            let t = templates.remove(0);
            assert(templates@ =~= orig.subrange(i + 1, orig.len() as int));
            let analyzer = MotionAnalyzer::new(t.unwrap());
            assert(analyzer@.accumulators =~= Seq::new(analyzer@.accumulators.len(), |w: int| 0u64));
            exercises.push(SessionExercise {
                name: requests[i].exercise_id.clone(),
                analyzer,
                repetitions_target: requests[i].num_repetitions,
                repetitions: 0,
            });
            ids.push(requests[i].exercise_id.clone());
            i = i + 1;
        }
        let first_name = exercises[0].name.clone();
        let first_target = exercises[0].repetitions_target;
        self.session = Some(SessionState { exercises, current_idx: 0, running: true, save });
        r.push(Action::PoseStart);
        r.push(Action::UiSessionStart { exercise_ids: ids });
        r.push(Action::UiExerciseStart { exercise_id: first_name, repetitions_target: first_target });
        proof {
            let st = self.session->Some_0;
            assert(st.wf());
            if let Action::UiSessionStart { exercise_ids } = r@[1] {
                assert forall|k: int| 0 <= k < exercise_ids@.len() implies (#[trigger] exercise_ids@[k])@
                    == requests@[k].exercise_id@ by {
                    let e = st.exercises@[k];
                }
            }
            assert(is_session_start_of(r@[1], requests@));
            assert(is_exercise_start_of(r@[2], st.exercises@[0]));
        }
        r
    }

    /// Analyzes a frame of `deltatime` ticks with factors `cfs`.
    ///
    /// Without a session, or while it is paused, the frame is dropped. Else
    /// the current exercise's analyzer advances, the repetitions it completes
    /// are counted and shown. An exercise that reaches its target hands over
    /// to the next one (the pose source restarts and the display switches),
    /// or, when it was the last, ends the session.
    pub fn handle_frame(&mut self, deltatime: u64, cfs: &ControlFactorMap) -> (r: Vec<Action>)
        requires
            old(self).wf(),
        ensures
            final(self).wf(),
            match old(self).current() {
                None => final(self).current() is None && r@.len() == 0,
                Some(s) => if !s.running {
                    final(self).current() == old(self).current() && r@.len() == 0
                } else {
                    let i = s.current_idx as int;
                    let e = s.exercises@[i];
                    let rep = report(e.analyzer.exercise(), e.analyzer@, deltatime, *cfs);
                    let done = s.done_after(deltatime, *cfs);
                    let finished = done >= e.repetitions_target;
                    &&& r@.len() > 0
                    &&& r@[0] matches Action::UiExerciseUpdate { repetitions, warnings } && repetitions == done
                        && warnings@ == rep.warnings
                    &&& !finished ==> (r@.len() == 1 && (final(self).current() matches Some(t)
                        && SessionState::frame_processed(s, t, deltatime, *cfs)))
                    &&& finished && i + 1 < s.exercises@.len() ==> (final(self).current() matches Some(t) && {
                        &&& SessionState::frame_processed(s, t, deltatime, *cfs)
                        &&& r@.len() == 5
                        &&& r@[1] == Action::PoseStop
                        &&& r@[2] == Action::UiExerciseEnd
                        &&& r@[3] == Action::PoseStart
                        &&& is_exercise_start_of(r@[4], t.exercises@[i + 1])
                    })
                    &&& finished && i + 1 == s.exercises@.len() ==> final(self).current() is None
                        && is_end_of(r@.drop_first(), s, done)
                },
            },
    {
        let mut s = match self.session.take() {
            None => {
                return Vec::new();
            },
            Some(s) => s,
        };
        if !s.running {
            self.session = Some(s);
            return Vec::new();
        }
        let ghost s0 = s;
        let idx = s.current_idx;
        let (finished, completed, output) = s.process(deltatime, cfs);
        let done = s.exercises[idx].repetitions;
        let mut r: Vec<Action> = Vec::new();
        r.push(Action::UiExerciseUpdate { repetitions: done, warnings: output.warnings });
        if completed {
            let mut end = s.end_actions(done);
            proof {
                if s.save {
                    let a = end@[2];
                    assert(is_store_of(a, s, done));
                    if let Action::StoreSession { exercises } = a {
                        assert forall|k: int| 0 <= k < exercises@.len() implies {
                            &&& (#[trigger] exercises@[k]).exercise@ == s0.exercises@[k].name@
                            &&& exercises@[k].num_repetitions_done == repetitions_of(s0, k, done)
                        } by {
                            if k != idx {
                                assert(s.exercises@[k] == s0.exercises@[k]);
                            }
                        }
                    }
                    assert(is_store_of(a, s0, done));
                }
            }
            let ghost before = r@;
            let ghost tail = end@;
            r.append(&mut end);
            assert(r@ == before + tail);
            assert(r@.drop_first() =~= tail);
        } else if finished {
            r.push(Action::PoseStop);
            r.push(Action::UiExerciseEnd);
            r.push(Action::PoseStart);
            let next = &s.exercises[s.current_idx];
            r.push(Action::UiExerciseStart { exercise_id: next.name.clone(), repetitions_target: next.repetitions_target });
            self.session = Some(s);
        } else {
            self.session = Some(s);
        }
        r
    }

    /// Reacts to a fault of the current exercise's script (a malformed
    /// result or a runtime error): the fault is logged and the session ends,
    /// as with an explicit end. Without a session nothing happens.
    pub fn handle_script_error(&mut self) -> (r: Vec<Action>)
        requires
            old(self).wf(),
        ensures
            final(self).wf(),
            final(self).current() is None,
            match old(self).current() {
                Some(s) => {
                    &&& r@.len() > 0
                    &&& r@[0] == Action::LogScriptError
                    &&& is_end_of(r@.drop_first(), s, s.exercises@[s.current_idx as int].repetitions)
                },
                None => r@.len() == 0,
            },
    {
        let mut r: Vec<Action> = Vec::new();
        match self.session.take() {
            Some(s) => {
                r.push(Action::LogScriptError);
                let cur = s.exercises[s.current_idx].repetitions;
                let mut end = s.end_actions(cur);
                let ghost tail = end@;
                r.append(&mut end);
                assert(r@.drop_first() =~= tail);
            },
            None => {},
        }
        r
    }
}

} // verus!
