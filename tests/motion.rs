use actionq::{
    from_document, to_document, Condition, DEFAULT_WARNING_THRESHOLD, ControlFactorMap, Event, JsonExercise, JsonState, MappedCondition, MotionAnalyzer,
    Transition, Warning,
};

fn factors(pairs: &[(&str, i64)]) -> ControlFactorMap {
    let mut m = ControlFactorMap::new();
    for (k, v) in pairs {
        m.insert(k.to_string(), *v);
    }
    m
}

fn mapped(cf: &str, condition: Condition) -> MappedCondition {
    MappedCondition { control_factor: cf.to_string(), condition }
}

fn warning(name: &str, cf: &str, condition: Condition, threshold: u64) -> Warning {
    let mut w = Warning::new(name.to_string(), "blah blah blah".to_string(), mapped(cf, condition));
    w.threshold = threshold;
    w
}

fn transition(to: &str, conditions: Vec<MappedCondition>, emit: Vec<Event>) -> Transition {
    Transition { conditions, to: to.to_string(), emit }
}

/// Feet distance exercise, distances in tenths.
fn sample_exercise() -> JsonExercise {
    let feet = |c: Condition| vec![mapped("feet_distance", c)];
    JsonExercise {
        states: vec![
            JsonState {
                name: "setup".to_string(),
                transitions: vec![transition(
                    "high_distance",
                    feet(Condition::NotInRange { lo: -100, hi: 100 }),
                    vec![],
                )],
                warnings: vec![warning(
                    "incorrect_initial_state_1",
                    "feet_distance",
                    Condition::InRange { lo: -100, hi: 100 },
                    100,
                )],
            },
            JsonState {
                name: "high_distance".to_string(),
                transitions: vec![transition(
                    "small_distance",
                    feet(Condition::InRange { lo: -100, hi: 100 }),
                    vec![],
                )],
                warnings: vec![warning(
                    "feet_too_far_away",
                    "feet_distance",
                    Condition::NotInRange { lo: -120, hi: 120 },
                    100,
                )],
            },
            JsonState {
                name: "small_distance".to_string(),
                transitions: vec![transition(
                    "high_distance",
                    feet(Condition::NotInRange { lo: -100, hi: 100 }),
                    vec![Event::RepetitionComplete],
                )],
                warnings: vec![warning(
                    "feet_too_clone_for_confort",
                    "feet_distance",
                    Condition::InRange { lo: -60, hi: 60 },
                    100,
                )],
            },
        ],
        initial_state: "setup".to_string(),
        warnings: vec![],
    }
}

fn names(ws: &[Warning]) -> Vec<String> {
    ws.iter().map(|w| w.name.clone()).collect()
}

fn check_engine(ex: JsonExercise) {
    let poses = [30, -10, 50, 80, 110, 115, 120, 80, 50, 140, 160];
    let mut analyzer = MotionAnalyzer::new(ex);
    let mut states = vec![];
    for pose in poses {
        states.push(analyzer.progress(100, &factors(&[("feet_distance", pose)])).current_state);
    }
    assert_eq!(states[3], "setup");
    assert_eq!(states[4], "high_distance");
    assert_eq!(states[7], "small_distance");
    assert_eq!(states[10], "high_distance");
}

#[test]
fn serialize() {
    let ex = sample_exercise();
    let doc = to_document(&ex);
    assert!(from_document(&doc).is_some());
    check_engine(ex);
}

#[test]
fn deserialize() {
    let ex = from_document(&to_document(&sample_exercise())).expect("document reads back");
    assert_eq!(format!("{:?}", ex), format!("{:?}", sample_exercise()));
    check_engine(ex);
}

#[test]
fn default_threshold_is_used() {
    let w = Warning::new("a".to_string(), "b".to_string(), mapped("c", Condition::LessThanValue { value: 0 }));
    assert_eq!(w.threshold, DEFAULT_WARNING_THRESHOLD);
    assert_eq!(w.threshold, 100);
}

#[test]
fn it_works_tm() {
    let poses = [30, -10, 50, 80, 110, 115, 120, 80, 50, 140, 160];
    let expected_states = [
        "setup",
        "setup",
        "setup",
        "setup",
        "high_distance",
        "high_distance",
        "high_distance",
        "small_distance",
        "small_distance",
        "high_distance",
        "high_distance",
    ];
    let mut analyzer = MotionAnalyzer::new(sample_exercise());
    let mut reps = 0;
    for (pose, state) in poses.iter().zip(expected_states.iter()) {
        let out = analyzer.progress(100, &factors(&[("feet_distance", *pose)]));
        assert_eq!(out.current_state, *state);
        reps += out.events.len();
    }
    assert_eq!(reps, 1);
}

#[test]
fn sample_exercise_warnings() {
    let mut analyzer = MotionAnalyzer::new(sample_exercise());
    // In setup the feet are close: the warning holds for 100 ticks and fires.
    let out = analyzer.progress(100, &factors(&[("feet_distance", 30)]));
    assert_eq!(names(&out.warnings), vec!["incorrect_initial_state_1"]);
    // After 50 ticks it has not yet held long enough.
    let mut analyzer = MotionAnalyzer::new(sample_exercise());
    let out = analyzer.progress(50, &factors(&[("feet_distance", 30)]));
    assert!(out.warnings.is_empty());
    let out = analyzer.progress(50, &factors(&[("feet_distance", 30)]));
    assert_eq!(names(&out.warnings), vec!["incorrect_initial_state_1"]);
}

#[test]
fn arm_scenario_fires_start_to_down() {
    let mut analyzer = MotionAnalyzer::new(JsonExercise::simple());
    let out = analyzer.progress(100, &factors(&[("arm_angle_l", 15), ("arm_angle_r", 20)]));
    assert_eq!(out.current_state, "down");
    assert!(out.events.is_empty());
    assert_eq!(analyzer.current_state(), "down");
}

#[test]
fn arm_scenario_stays_in_start() {
    let mut analyzer = MotionAnalyzer::new(JsonExercise::simple());
    let out = analyzer.progress(100, &factors(&[("arm_angle_l", 45), ("arm_angle_r", 20)]));
    assert_eq!(out.current_state, "start");
    assert!(out.events.is_empty());
}

#[test]
fn simple_exercise_counts_a_repetition() {
    let mut analyzer = MotionAnalyzer::new(JsonExercise::simple());
    let low = factors(&[("arm_angle_l", 10), ("arm_angle_r", 10)]);
    let high = factors(&[("arm_angle_l", 60), ("arm_angle_r", 70)]);
    assert_eq!(analyzer.progress(10, &low).current_state, "down");
    assert_eq!(analyzer.progress(10, &high).current_state, "up");
    let out = analyzer.progress(10, &low);
    assert_eq!(out.current_state, "down");
    assert_eq!(out.events, vec![Event::RepetitionComplete]);
}

#[test]
fn missing_factor_blocks_transition() {
    let mut analyzer = MotionAnalyzer::new(JsonExercise::simple());
    let out = analyzer.progress(100, &factors(&[("arm_angle_l", 15)]));
    assert_eq!(out.current_state, "start");
}

#[test]
fn runs_are_deterministic() {
    let frames: Vec<(u64, ControlFactorMap)> = vec![
        (40, factors(&[("feet_distance", 30)])),
        (40, factors(&[("feet_distance", 130)])),
        (40, factors(&[("feet_distance", 130)])),
        (80, factors(&[("feet_distance", 50)])),
        (80, factors(&[("feet_distance", 20)])),
        (80, factors(&[("feet_distance", 150)])),
    ];
    let mut a = MotionAnalyzer::new(sample_exercise());
    let mut b = MotionAnalyzer::new(sample_exercise());
    for (dt, cfs) in &frames {
        let ra = a.progress(*dt, cfs);
        let rb = b.progress(*dt, cfs);
        assert_eq!(ra.current_state, rb.current_state);
        assert_eq!(ra.events, rb.events);
        assert_eq!(names(&ra.warnings), names(&rb.warnings));
    }
}

fn one_state_with_warning(threshold: u64) -> JsonExercise {
    JsonExercise {
        states: vec![
            JsonState {
                name: "a".to_string(),
                transitions: vec![transition(
                    "b",
                    vec![mapped("go", Condition::GreaterThanValue { value: 1 })],
                    vec![],
                )],
                warnings: vec![],
            },
            JsonState { name: "b".to_string(), transitions: vec![], warnings: vec![] },
        ],
        initial_state: "a".to_string(),
        warnings: vec![warning("slouch", "back", Condition::LessThanValue { value: 10 }, threshold)],
    }
}

#[test]
fn warning_accumulates_and_resets() {
    let mut analyzer = MotionAnalyzer::new(one_state_with_warning(300));
    let bad = factors(&[("back", 5)]);
    let good = factors(&[("back", 50)]);
    assert!(analyzer.progress(100, &bad).warnings.is_empty());
    assert!(analyzer.progress(100, &bad).warnings.is_empty());
    assert_eq!(names(&analyzer.progress(100, &bad).warnings), vec!["slouch"]);
    // Keeps firing while the condition holds.
    assert_eq!(names(&analyzer.progress(100, &bad).warnings), vec!["slouch"]);
    // A frame where it is false clears the accumulator.
    assert!(analyzer.progress(100, &good).warnings.is_empty());
    assert!(analyzer.progress(100, &bad).warnings.is_empty());
    assert!(analyzer.progress(100, &bad).warnings.is_empty());
    assert_eq!(names(&analyzer.progress(100, &bad).warnings), vec!["slouch"]);
}

#[test]
fn warning_restarts_after_transition() {
    let mut analyzer = MotionAnalyzer::new(one_state_with_warning(300));
    let bad = factors(&[("back", 5)]);
    assert!(analyzer.progress(100, &bad).warnings.is_empty());
    assert!(analyzer.progress(100, &bad).warnings.is_empty());
    // The transition to "b" restarts the global warning: only this frame counts.
    let out = analyzer.progress(100, &factors(&[("back", 5), ("go", 2)]));
    assert_eq!(out.current_state, "b");
    assert!(out.warnings.is_empty());
    assert!(analyzer.progress(100, &bad).warnings.is_empty());
    assert_eq!(names(&analyzer.progress(100, &bad).warnings), vec!["slouch"]);
}

#[test]
fn first_declared_transition_wins() {
    let ex = JsonExercise {
        states: vec![JsonState {
            name: "s".to_string(),
            transitions: vec![
                transition("first", vec![mapped("x", Condition::GreaterThanValue { value: 0 })], vec![]),
                transition(
                    "second",
                    vec![mapped("x", Condition::GreaterThanValue { value: 0 })],
                    vec![Event::RepetitionComplete],
                ),
            ],
            warnings: vec![],
        }],
        initial_state: "s".to_string(),
        warnings: vec![],
    };
    let mut analyzer = MotionAnalyzer::new(ex);
    let out = analyzer.progress(1, &factors(&[("x", 5)]));
    assert_eq!(out.current_state, "first");
    assert!(out.events.is_empty());
}

#[test]
fn conditions_evaluate() {
    let cfs = factors(&[("v", 10)]);
    let check = |c: Condition| mapped("v", c).is_valid(&cfs);
    assert!(check(Condition::InRange { lo: 10, hi: 11 }));
    assert!(!check(Condition::InRange { lo: 0, hi: 10 }));
    assert!(check(Condition::NotInRange { lo: 0, hi: 10 }));
    assert!(!check(Condition::NotInRange { lo: 5, hi: 15 }));
    assert!(check(Condition::GreaterThanValue { value: 10 }));
    assert!(!check(Condition::GreaterThanValue { value: 11 }));
    assert!(check(Condition::LessThanValue { value: 10 }));
    assert!(!check(Condition::LessThanValue { value: 9 }));
    assert!(!mapped("w", Condition::LessThanValue { value: 100 }).is_valid(&cfs));
}

#[test]
fn later_insert_shadows_earlier() {
    let mut m = ControlFactorMap::new();
    m.insert("k".to_string(), 1);
    m.insert("k".to_string(), 2);
    assert_eq!(m.get(&"k".to_string()), Some(2));
    assert_eq!(m.get(&"z".to_string()), None);
}

#[test]
fn exercise_accessors() {
    let ex = sample_exercise();
    assert_eq!(ex.states(), vec!["setup", "high_distance", "small_distance"]);
    assert_eq!(ex.initial_state(), "setup");
    assert_eq!(names(&ex.state_warnings(&"high_distance".to_string())), vec!["feet_too_far_away"]);
    assert!(ex.state_warnings(&"nowhere".to_string()).is_empty());
    let g = one_state_with_warning(5);
    assert_eq!(names(&g.active_warnings_of(&"b".to_string())), vec!["slouch"]);
    assert_eq!(names(&g.global_warnings()), vec!["slouch"]);
}

#[test]
fn state_transitions_are_copied_in_order() {
    let ex = sample_exercise();
    let ts = ex.state_transitions(&"small_distance".to_string());
    assert_eq!(ts.len(), 1);
    assert_eq!(ts[0].to, "high_distance");
    assert_eq!(ts[0].emit, vec![Event::RepetitionComplete]);
    assert_eq!(ts[0].conditions.len(), 1);
    assert_eq!(ts[0].conditions[0].control_factor, "feet_distance");
    assert_eq!(ts[0].conditions[0].condition, Condition::NotInRange { lo: -100, hi: 100 });
    assert!(ex.state_transitions(&"nowhere".to_string()).is_empty());
}
