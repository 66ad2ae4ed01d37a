use actionq::{Action, ControlFactorMap, JsonExercise, Request, RequestExerciseReps, Session};

fn factors(l: i64, r: i64) -> ControlFactorMap {
    let mut m = ControlFactorMap::new();
    m.insert("arm_angle_l".to_string(), l);
    m.insert("arm_angle_r".to_string(), r);
    m
}

fn req(id: &str, reps: u32) -> RequestExerciseReps {
    RequestExerciseReps { exercise_id: id.to_string(), num_repetitions: reps }
}

fn started(reqs: Vec<RequestExerciseReps>, save: bool) -> Session {
    let mut s = Session::new();
    let actions = s.handle_request(Request::SessionStart { exercises: reqs.clone(), save });
    assert_eq!(actions.len(), 1);
    match &actions[0] {
        Action::LookupTemplates { ids } => {
            let want: Vec<String> = reqs.iter().map(|r| r.exercise_id.clone()).collect();
            assert_eq!(ids, &want);
        }
        other => panic!("unexpected {:?}", other),
    }
    let templates = reqs.iter().map(|_| Some(JsonExercise::simple())).collect();
    let actions = s.session_start(&reqs, save, templates);
    assert_eq!(actions.len(), 3);
    assert!(matches!(actions[0], Action::PoseStart));
    s
}

/// Frames that make the simple exercise complete one repetition; the first
/// cycle also leaves `start`.
fn one_repetition(s: &mut Session, first: bool) -> Vec<Vec<Action>> {
    let mut out = vec![];
    if first {
        out.push(s.handle_frame(100, &factors(10, 10)));
    }
    out.push(s.handle_frame(100, &factors(60, 60)));
    out.push(s.handle_frame(100, &factors(10, 10)));
    out
}

fn current(s: &Session) -> (String, u32, u32) {
    let st = s.state().as_ref().expect("a session");
    let (target, done) = st.current_repetitions();
    (st.current_exercise_name(), target, done)
}

#[test]
fn repetition_gating_moves_through_exercises() {
    let mut s = started(vec![req("A", 2), req("B", 1)], true);
    assert_eq!(current(&s), ("A".to_string(), 2, 0));

    let frames = one_repetition(&mut s, true);
    assert!(frames.iter().all(|a| a.len() == 1));
    assert_eq!(current(&s), ("A".to_string(), 2, 1));

    let frames = one_repetition(&mut s, false);
    let last = frames.last().unwrap();
    assert_eq!(last.len(), 5);
    assert!(matches!(last[0], Action::UiExerciseUpdate { repetitions: 2, .. }));
    assert!(matches!(last[1], Action::PoseStop));
    assert!(matches!(last[2], Action::UiExerciseEnd));
    assert!(matches!(last[3], Action::PoseStart));
    match &last[4] {
        Action::UiExerciseStart { exercise_id, repetitions_target } => {
            assert_eq!(exercise_id, "B");
            assert_eq!(*repetitions_target, 1);
        }
        other => panic!("unexpected {:?}", other),
    }
    assert_eq!(current(&s), ("B".to_string(), 1, 0));

    let frames = one_repetition(&mut s, true);
    assert!(frames[..2].iter().all(|a| a.len() == 1));
    let last = frames.last().unwrap();
    assert_eq!(last.len(), 4);
    assert!(matches!(last[1], Action::PoseStop));
    assert!(matches!(last[2], Action::UiSessionEnd));
    match &last[3] {
        Action::StoreSession { exercises } => {
            assert_eq!(exercises.len(), 2);
            assert_eq!(exercises[0].exercise, "A");
            assert_eq!(exercises[0].num_repetitions_done, 2);
            assert_eq!(exercises[1].exercise, "B");
            assert_eq!(exercises[1].num_repetitions_done, 1);
        }
        other => panic!("unexpected {:?}", other),
    }
    assert!(!s.is_active());
}

#[test]
fn start_while_active_is_ignored() {
    let mut s = started(vec![req("A", 2)], false);
    one_repetition(&mut s, true);
    let before = current(&s);
    let actions = s.handle_request(Request::SessionStart { exercises: vec![req("C", 9)], save: true });
    assert_eq!(actions.len(), 1);
    assert!(matches!(actions[0], Action::LogInvalidState));
    assert_eq!(current(&s), before);
    let again = s.session_start(&vec![req("C", 9)], true, vec![Some(JsonExercise::simple())]);
    assert_eq!(again.len(), 1);
    assert!(matches!(again[0], Action::LogInvalidState));
    assert_eq!(current(&s), before);
}

#[test]
fn missing_template_aborts_start() {
    let mut s = Session::new();
    let reqs = vec![req("A", 1), req("B", 1), req("C", 1)];
    let actions = s.session_start(&reqs, false, vec![Some(JsonExercise::simple()), None, None]);
    assert_eq!(actions.len(), 1);
    match &actions[0] {
        Action::LogLookupError { exercise_id } => assert_eq!(exercise_id, "B"),
        other => panic!("unexpected {:?}", other),
    }
    assert!(!s.is_active());
}

#[test]
fn empty_start_is_rejected() {
    let mut s = Session::new();
    let actions = s.session_start(&vec![], false, vec![]);
    assert!(matches!(actions[0], Action::LogInvalidState));
    assert!(!s.is_active());
}

#[test]
fn paused_session_drops_frames() {
    let mut s = started(vec![req("A", 1)], false);
    assert!(s.handle_request(Request::SetPlayState { running: false }).is_empty());
    assert!(s.handle_frame(100, &factors(10, 10)).is_empty());
    assert!(s.handle_frame(100, &factors(60, 60)).is_empty());
    assert!(s.handle_request(Request::SetPlayState { running: true }).is_empty());
    // Still in "start": the first low frame only reaches "down".
    let a = s.handle_frame(100, &factors(60, 60));
    assert!(matches!(a[0], Action::UiExerciseUpdate { repetitions: 0, .. }));
}

#[test]
fn commands_without_session_are_logged() {
    let mut s = Session::new();
    let a = s.handle_request(Request::SetPlayState { running: true });
    assert!(matches!(a[..], [Action::LogInvalidState]));
    let a = s.handle_request(Request::SessionEnd);
    assert!(matches!(a[..], [Action::LogInvalidState]));
    assert!(s.handle_frame(10, &factors(1, 1)).is_empty());
    let a = s.handle_request(Request::CloseAll);
    assert!(matches!(a[..], [Action::CloseConnections]));
}

#[test]
fn explicit_end_stores_counts() {
    let mut s = started(vec![req("A", 3), req("B", 1)], true);
    one_repetition(&mut s, true);
    let a = s.handle_request(Request::SessionEnd);
    assert_eq!(a.len(), 3);
    assert!(matches!(a[0], Action::PoseStop));
    assert!(matches!(a[1], Action::UiSessionEnd));
    match &a[2] {
        Action::StoreSession { exercises } => {
            assert_eq!(exercises[0].num_repetitions_done, 1);
            assert_eq!(exercises[1].num_repetitions_done, 0);
        }
        other => panic!("unexpected {:?}", other),
    }
    assert!(!s.is_active());
}

#[test]
fn end_without_save_stores_nothing() {
    let mut s = started(vec![req("A", 3)], false);
    let a = s.handle_request(Request::CloseAll);
    assert_eq!(a.len(), 3);
    assert!(matches!(a[0], Action::PoseStop));
    assert!(matches!(a[1], Action::UiSessionEnd));
    assert!(matches!(a[2], Action::CloseConnections));
    assert!(!s.is_active());
}

#[test]
fn script_error_ends_session() {
    let mut s = started(vec![req("A", 2)], true);
    one_repetition(&mut s, true);
    let a = s.handle_script_error();
    assert_eq!(a.len(), 4);
    assert!(matches!(a[0], Action::LogScriptError));
    assert!(matches!(a[1], Action::PoseStop));
    assert!(matches!(a[2], Action::UiSessionEnd));
    match &a[3] {
        Action::StoreSession { exercises } => assert_eq!(exercises[0].num_repetitions_done, 1),
        other => panic!("unexpected {:?}", other),
    }
    assert!(!s.is_active());
    assert!(s.handle_script_error().is_empty());
}
