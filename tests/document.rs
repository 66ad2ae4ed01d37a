use actionq::{
    from_document, to_document, Condition, ControlFactorMap, Event, JsonExercise, JsonState,
    MappedCondition, MotionAnalyzer, Node, Transition, Warning,
};

fn exercise() -> JsonExercise {
    JsonExercise {
        states: vec![
            JsonState {
                name: "rest".to_string(),
                transitions: vec![Transition {
                    conditions: vec![
                        MappedCondition {
                            control_factor: "knee".to_string(),
                            condition: Condition::GreaterThanValue { value: -5 },
                        },
                        MappedCondition {
                            control_factor: "hip".to_string(),
                            condition: Condition::NotInRange { lo: 1, hi: 9 },
                        },
                    ],
                    to: "bent".to_string(),
                    emit: vec![Event::RepetitionComplete],
                }],
                warnings: vec![Warning {
                    name: "lean".to_string(),
                    description: "keep the back straight".to_string(),
                    condition: MappedCondition {
                        control_factor: "back".to_string(),
                        condition: Condition::LessThanValue { value: 12 },
                    },
                    threshold: u64::MAX,
                }],
            },
            JsonState { name: "bent".to_string(), transitions: vec![], warnings: vec![] },
        ],
        initial_state: "rest".to_string(),
        warnings: vec![Warning {
            name: "far".to_string(),
            description: "".to_string(),
            condition: MappedCondition {
                control_factor: "distance".to_string(),
                condition: Condition::InRange { lo: i64::MIN, hi: i64::MAX },
            },
            threshold: 0,
        }],
    }
}

fn summary(e: &JsonExercise) -> String {
    format!("{:?}", e)
}

#[test]
fn document_round_trip_keeps_exercise() {
    let e = exercise();
    let back = from_document(&to_document(&e)).expect("a written document reads back");
    assert_eq!(summary(&back), summary(&e));
    assert_eq!(back.initial_state, "rest");
}

#[test]
fn simple_exercise_round_trips() {
    let e = JsonExercise::simple();
    let back = from_document(&to_document(&e)).expect("a written document reads back");
    assert_eq!(summary(&back), summary(&e));
    let mut a = MotionAnalyzer::new(back);
    let mut cfs = ControlFactorMap::new();
    cfs.insert("arm_angle_l".to_string(), 15);
    cfs.insert("arm_angle_r".to_string(), 20);
    assert_eq!(a.progress(1, &cfs).current_state, "down");
}

#[test]
fn document_layout() {
    let doc = to_document(&JsonExercise::simple());
    match &doc {
        Node::Obj(fields) => {
            let keys: Vec<&str> = fields.iter().map(|(k, _)| k.as_str()).collect();
            assert_eq!(keys, vec!["initial_state", "states", "warnings"]);
            assert!(matches!(&fields[0].1, Node::Str(s) if s == "start"));
        }
        other => panic!("unexpected {:?}", other),
    }
}

#[test]
fn malformed_documents_are_rejected() {
    assert!(from_document(&Node::Int(3)).is_none());
    assert!(from_document(&Node::Obj(vec![])).is_none());
    // A field out of order.
    let doc = Node::Obj(vec![
        ("states".to_string(), Node::List(vec![])),
        ("initial_state".to_string(), Node::Str("a".to_string())),
        ("warnings".to_string(), Node::List(vec![])),
    ]);
    assert!(from_document(&doc).is_none());
    // A threshold that does not fit.
    let mut e = exercise();
    e.states.truncate(1);
    let mut doc = to_document(&e);
    if let Node::Obj(fields) = &mut doc {
        fields[2].1 = Node::List(vec![Node::Obj(vec![
            ("condition".to_string(), Node::Int(0)),
            ("description".to_string(), Node::Str(String::new())),
            ("name".to_string(), Node::Str(String::new())),
            ("threshold".to_string(), Node::Int(-1)),
        ])]);
    }
    assert!(from_document(&doc).is_none());
    // An unknown event.
    let mut doc = to_document(&JsonExercise::simple());
    assert!(replace_str(&mut doc, "RepetitionComplete", "Jump"));
    assert!(from_document(&doc).is_none());
}

fn replace_str(n: &mut Node, from: &str, to: &str) -> bool {
    match n {
        Node::Str(s) if s.as_str() == from => {
            *s = to.to_string();
            true
        }
        Node::List(items) => items.iter_mut().any(|i| replace_str(i, from, to)),
        Node::Obj(fields) => fields.iter_mut().any(|(_, v)| replace_str(v, from, to)),
        _ => false,
    }
}

#[test]
fn empty_exercise_round_trips() {
    let e = JsonExercise { states: vec![], initial_state: String::new(), warnings: vec![] };
    let back = from_document(&to_document(&e)).unwrap();
    assert_eq!(summary(&back), summary(&e));
}
