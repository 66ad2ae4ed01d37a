//! The document form of an exercise definition: a tree of integers,
//! strings, lists and objects, as stored on disk (as JSON text, whose
//! reading and writing is left to the caller). Object fields are kept in
//! ascending key order.

use vstd::prelude::*;
use crate::condition::{Condition, MappedCondition};
use crate::motion::{Event, JsonExercise, JsonState, Transition, Warning};

verus! {

/// A document tree.
#[derive(Debug)]
pub enum Node {
    Int(i128),
    Str(String),
    List(Vec<Node>),
    Obj(Vec<(String, Node)>),
}

/// The fields of an object node (none for other nodes).
pub open spec fn fields(n: Node) -> Seq<(String, Node)> {
    match n {
        Node::Obj(f) => f@,
        _ => Seq::empty(),
    }
}

/// The items of a list node (none for other nodes).
pub open spec fn items(n: Node) -> Seq<Node> {
    match n {
        Node::List(v) => v@,
        _ => Seq::empty(),
    }
}

/// The value of field `i` of an object node.
pub open spec fn field(n: Node, i: int) -> Node {
    fields(n)[i].1
}

/// `n` is an object whose keys are exactly `keys`, in order.
pub open spec fn has_fields(n: Node, keys: Seq<Seq<char>>) -> bool {
    &&& n is Obj
    &&& fields(n).len() == keys.len()
    &&& forall|i: int| 0 <= i < keys.len() ==> (#[trigger] fields(n)[i]).0@ == keys[i]
}

pub open spec fn int_node(n: Node, v: int) -> bool {
    match n {
        Node::Int(i) => i == v,
        _ => false,
    }
}

pub open spec fn str_node(n: Node, s: Seq<char>) -> bool {
    match n {
        Node::Str(t) => t@ == s,
        _ => false,
    }
}

/// The key under which a condition's variant is written.
pub open spec fn variant_name(c: Condition) -> Seq<char> {
    match c {
        Condition::InRange { .. } => "InRange"@,
        Condition::NotInRange { .. } => "NotInRange"@,
        Condition::GreaterThanValue { .. } => "GreaterThanValue"@,
        Condition::LessThanValue { .. } => "LessThanValue"@,
    }
}

pub open spec fn range_node(n: Node, lo: i64, hi: i64) -> bool {
    &&& has_fields(n, seq!["range"@])
    &&& has_fields(field(n, 0), seq!["end"@, "start"@])
    &&& int_node(field(field(n, 0), 0), hi as int)
    &&& int_node(field(field(n, 0), 1), lo as int)
}

pub open spec fn value_node(n: Node, v: i64) -> bool {
    &&& has_fields(n, seq!["value"@])
    &&& int_node(field(n, 0), v as int)
}

/// `n` is the document of condition `c`.
pub open spec fn condition_node(n: Node, c: Condition) -> bool {
    &&& has_fields(n, seq![variant_name(c)])
    &&& match c {
        Condition::InRange { lo, hi } => range_node(field(n, 0), lo, hi),
        Condition::NotInRange { lo, hi } => range_node(field(n, 0), lo, hi),
        Condition::GreaterThanValue { value } => value_node(field(n, 0), value),
        Condition::LessThanValue { value } => value_node(field(n, 0), value),
    }
}

/// `n` is the document of `m`.
pub open spec fn mapped_node(n: Node, m: MappedCondition) -> bool {
    &&& has_fields(n, seq!["condition"@, "control_factor"@])
    &&& condition_node(field(n, 0), m.condition)
    &&& str_node(field(n, 1), m.control_factor@)
}

/// `n` is the document of `w`.
pub open spec fn warning_node(n: Node, w: Warning) -> bool {
    &&& has_fields(n, seq!["condition"@, "description"@, "name"@, "threshold"@])
    &&& mapped_node(field(n, 0), w.condition)
    &&& str_node(field(n, 1), w.description@)
    &&& str_node(field(n, 2), w.name@)
    &&& int_node(field(n, 3), w.threshold as int)
}

/// `n` is the document of `e`.
pub open spec fn event_node(n: Node, e: Event) -> bool {
    str_node(n, "RepetitionComplete"@)
}

pub open spec fn mapped_list(n: Node, xs: Seq<MappedCondition>) -> bool {
    &&& n is List
    &&& items(n).len() == xs.len()
    &&& forall|i: int| 0 <= i < xs.len() ==> mapped_node(#[trigger] items(n)[i], xs[i])
}

pub open spec fn event_list(n: Node, xs: Seq<Event>) -> bool {
    &&& n is List
    &&& items(n).len() == xs.len()
    &&& forall|i: int| 0 <= i < xs.len() ==> event_node(#[trigger] items(n)[i], xs[i])
}

pub open spec fn warning_list(n: Node, xs: Seq<Warning>) -> bool {
    &&& n is List
    &&& items(n).len() == xs.len()
    &&& forall|i: int| 0 <= i < xs.len() ==> warning_node(#[trigger] items(n)[i], xs[i])
}

/// `n` is the document of `t`.
pub open spec fn transition_node(n: Node, t: Transition) -> bool {
    &&& has_fields(n, seq!["conditions"@, "emit"@, "to"@])
    &&& mapped_list(field(n, 0), t.conditions@)
    &&& event_list(field(n, 1), t.emit@)
    &&& str_node(field(n, 2), t.to@)
}

pub open spec fn transition_list(n: Node, xs: Seq<Transition>) -> bool {
    &&& n is List
    &&& items(n).len() == xs.len()
    &&& forall|i: int| 0 <= i < xs.len() ==> transition_node(#[trigger] items(n)[i], xs[i])
}

/// `n` is the document of `s`.
pub open spec fn state_node(n: Node, s: JsonState) -> bool {
    &&& has_fields(n, seq!["name"@, "transitions"@, "warnings"@])
    &&& str_node(field(n, 0), s.name@)
    &&& transition_list(field(n, 1), s.transitions@)
    &&& warning_list(field(n, 2), s.warnings@)
}

pub open spec fn state_list(n: Node, xs: Seq<JsonState>) -> bool {
    &&& n is List
    &&& items(n).len() == xs.len()
    &&& forall|i: int| 0 <= i < xs.len() ==> state_node(#[trigger] items(n)[i], xs[i])
}

/// `n` is the document of exercise `e`.
pub open spec fn exercise_node(n: Node, e: JsonExercise) -> bool {
    &&& has_fields(n, seq!["initial_state"@, "states"@, "warnings"@])
    &&& str_node(field(n, 0), e.initial_state@)
    &&& state_list(field(n, 1), e.states@)
    &&& warning_list(field(n, 2), e.warnings@)
}

// Structural equality of exercise definitions: equal names, values and
// conditions, in the same order.

pub open spec fn same_mapped(a: MappedCondition, b: MappedCondition) -> bool {
    a.control_factor@ == b.control_factor@ && a.condition == b.condition
}

pub open spec fn same_warning(a: Warning, b: Warning) -> bool {
    &&& a.name@ == b.name@
    &&& a.description@ == b.description@
    &&& same_mapped(a.condition, b.condition)
    &&& a.threshold == b.threshold
}

pub open spec fn same_warnings(a: Seq<Warning>, b: Seq<Warning>) -> bool {
    a.len() == b.len() && forall|i: int| 0 <= i < a.len() ==> same_warning(#[trigger] a[i], b[i])
}

pub open spec fn same_transition(a: Transition, b: Transition) -> bool {
    &&& a.to@ == b.to@
    &&& a.emit@ == b.emit@
    &&& a.conditions@.len() == b.conditions@.len()
    &&& forall|i: int| 0 <= i < a.conditions@.len() ==> same_mapped(#[trigger] a.conditions@[i], b.conditions@[i])
}

pub open spec fn same_state(a: JsonState, b: JsonState) -> bool {
    &&& a.name@ == b.name@
    &&& a.transitions@.len() == b.transitions@.len()
    &&& forall|i: int|
        0 <= i < a.transitions@.len() ==> same_transition(#[trigger] a.transitions@[i], b.transitions@[i])
    &&& same_warnings(a.warnings@, b.warnings@)
}

/// `a` and `b` define the same exercise.
pub open spec fn same_exercise(a: JsonExercise, b: JsonExercise) -> bool {
    &&& a.initial_state@ == b.initial_state@
    &&& a.states@.len() == b.states@.len()
    &&& forall|i: int| 0 <= i < a.states@.len() ==> same_state(#[trigger] a.states@[i], b.states@[i])
    &&& same_warnings(a.warnings@, b.warnings@)
}

fn obj1(k0: &str, v0: Node) -> (r: Node)
    ensures
        has_fields(r, seq![k0@]),
        field(r, 0) == v0,
{
    let mut f: Vec<(String, Node)> = Vec::new();
    f.push((k0.to_owned(), v0));
    Node::Obj(f)
}

fn obj2(k0: &str, v0: Node, k1: &str, v1: Node) -> (r: Node)
    ensures
        has_fields(r, seq![k0@, k1@]),
        field(r, 0) == v0,
        field(r, 1) == v1,
{
    let mut f: Vec<(String, Node)> = Vec::new();
    f.push((k0.to_owned(), v0));
    f.push((k1.to_owned(), v1));
    Node::Obj(f)
}

fn obj3(k0: &str, v0: Node, k1: &str, v1: Node, k2: &str, v2: Node) -> (r: Node)
    ensures
        has_fields(r, seq![k0@, k1@, k2@]),
        field(r, 0) == v0,
        field(r, 1) == v1,
        field(r, 2) == v2,
{
    let mut f: Vec<(String, Node)> = Vec::new();
    f.push((k0.to_owned(), v0));
    f.push((k1.to_owned(), v1));
    f.push((k2.to_owned(), v2));
    Node::Obj(f)
}

fn obj4(k0: &str, v0: Node, k1: &str, v1: Node, k2: &str, v2: Node, k3: &str, v3: Node) -> (r: Node)
    ensures
        has_fields(r, seq![k0@, k1@, k2@, k3@]),
        field(r, 0) == v0,
        field(r, 1) == v1,
        field(r, 2) == v2,
        field(r, 3) == v3,
{
    let mut f: Vec<(String, Node)> = Vec::new();
    f.push((k0.to_owned(), v0));
    f.push((k1.to_owned(), v1));
    f.push((k2.to_owned(), v2));
    f.push((k3.to_owned(), v3));
    Node::Obj(f)
}

fn range_doc(lo: i64, hi: i64) -> (r: Node)
    ensures
        range_node(r, lo, hi),
{
    obj1("range", obj2("end", Node::Int(hi as i128), "start", Node::Int(lo as i128)))
}

fn value_doc(v: i64) -> (r: Node)
    ensures
        value_node(r, v),
{
    obj1("value", Node::Int(v as i128))
}

fn condition_doc(c: Condition) -> (r: Node)
    ensures
        condition_node(r, c),
{
    match c {
        Condition::InRange { lo, hi } => obj1("InRange", range_doc(lo, hi)),
        Condition::NotInRange { lo, hi } => obj1("NotInRange", range_doc(lo, hi)),
        Condition::GreaterThanValue { value } => obj1("GreaterThanValue", value_doc(value)),
        Condition::LessThanValue { value } => obj1("LessThanValue", value_doc(value)),
    }
}

fn mapped_doc(m: &MappedCondition) -> (r: Node)
    ensures
        mapped_node(r, *m),
{
    obj2("condition", condition_doc(m.condition), "control_factor", Node::Str(m.control_factor.clone()))
}

fn warning_doc(w: &Warning) -> (r: Node)
    ensures
        warning_node(r, *w),
{
    obj4(
        "condition",
        mapped_doc(&w.condition),
        "description",
        Node::Str(w.description.clone()),
        "name",
        Node::Str(w.name.clone()),
        "threshold",
        Node::Int(w.threshold as i128),
    )
}

fn mapped_list_doc(xs: &Vec<MappedCondition>) -> (r: Node)
    ensures
        mapped_list(r, xs@),
{
    let mut v: Vec<Node> = Vec::new();
    let mut i: usize = 0;
    while i < xs.len()
        invariant
            i <= xs@.len(),
            v@.len() == i,
            forall|j: int| 0 <= j < i ==> mapped_node(#[trigger] v@[j], xs@[j]),
        decreases xs@.len() - i,
    {
        v.push(mapped_doc(&xs[i]));
        i = i + 1;
    }
    Node::List(v)
}

fn event_list_doc(xs: &Vec<Event>) -> (r: Node)
    ensures
        event_list(r, xs@),
{
    let mut v: Vec<Node> = Vec::new();
    let mut i: usize = 0;
    while i < xs.len()
        invariant
            i <= xs@.len(),
            v@.len() == i,
            forall|j: int| 0 <= j < i ==> event_node(#[trigger] v@[j], xs@[j]),
        decreases xs@.len() - i,
    {
        v.push(Node::Str("RepetitionComplete".to_owned()));
        i = i + 1;
    }
    Node::List(v)
}

fn warning_list_doc(xs: &Vec<Warning>) -> (r: Node)
    ensures
        warning_list(r, xs@),
{
    let mut v: Vec<Node> = Vec::new();
    let mut i: usize = 0;
    while i < xs.len()
        invariant
            i <= xs@.len(),
            v@.len() == i,
            forall|j: int| 0 <= j < i ==> warning_node(#[trigger] v@[j], xs@[j]),
        decreases xs@.len() - i,
    {
        v.push(warning_doc(&xs[i]));
        i = i + 1;
    }
    Node::List(v)
}

fn transition_doc(t: &Transition) -> (r: Node)
    ensures
        transition_node(r, *t),
{
    obj3("conditions", mapped_list_doc(&t.conditions), "emit", event_list_doc(&t.emit), "to", Node::Str(t.to.clone()))
}

fn transition_list_doc(xs: &Vec<Transition>) -> (r: Node)
    ensures
        transition_list(r, xs@),
{
    let mut v: Vec<Node> = Vec::new();
    let mut i: usize = 0;
    while i < xs.len()
        invariant
            i <= xs@.len(),
            v@.len() == i,
            forall|j: int| 0 <= j < i ==> transition_node(#[trigger] v@[j], xs@[j]),
        decreases xs@.len() - i,
    {
        v.push(transition_doc(&xs[i]));
        i = i + 1;
    }
    Node::List(v)
}

fn state_doc(s: &JsonState) -> (r: Node)
    ensures
        state_node(r, *s),
{
    obj3(
        "name",
        Node::Str(s.name.clone()),
        "transitions",
        transition_list_doc(&s.transitions),
        "warnings",
        warning_list_doc(&s.warnings),
    )
}

/// The document of exercise `e`.
pub fn to_document(e: &JsonExercise) -> (r: Node)
    ensures
        exercise_node(r, *e),
{
    let mut v: Vec<Node> = Vec::new();
    let mut i: usize = 0;
    while i < e.states.len()
        invariant
            i <= e.states@.len(),
            v@.len() == i,
            forall|j: int| 0 <= j < i ==> state_node(#[trigger] v@[j], e.states@[j]),
        decreases e.states@.len() - i,
    {
        v.push(state_doc(&e.states[i]));
        i = i + 1;
    }
    obj3("initial_state", Node::Str(e.initial_state.clone()), "states", Node::List(v), "warnings", warning_list_doc(&e.warnings))
}

proof fn lemma_variant_names_differ()
    ensures
        "InRange"@ != "NotInRange"@,
        "InRange"@ != "GreaterThanValue"@,
        "InRange"@ != "LessThanValue"@,
        "NotInRange"@ != "GreaterThanValue"@,
        "NotInRange"@ != "LessThanValue"@,
        "GreaterThanValue"@ != "LessThanValue"@,
{
    reveal_strlit("InRange");
    reveal_strlit("NotInRange");
    reveal_strlit("GreaterThanValue");
    reveal_strlit("LessThanValue");
    assert("InRange"@[0] != "NotInRange"@[0]);
    assert("InRange"@[0] != "GreaterThanValue"@[0]);
    assert("InRange"@[0] != "LessThanValue"@[0]);
    assert("NotInRange"@[0] != "GreaterThanValue"@[0]);
    assert("NotInRange"@[0] != "LessThanValue"@[0]);
    assert("GreaterThanValue"@[0] != "LessThanValue"@[0]);
}

fn is_key(f: &(String, Node), k: &str) -> (r: bool)
    ensures
        r == (f.0@ == k@),
{
    f.0 == k.to_owned()
}

fn i64_from(n: &Node) -> (r: Option<i64>)
    ensures
        r matches Some(v) ==> int_node(*n, v as int),
        r is None ==> forall|v: i64| !int_node(*n, v as int),
{
    match n {
        Node::Int(i) => if i64::MIN as i128 <= *i && *i <= i64::MAX as i128 {
            Some(*i as i64)
        } else {
            None
        },
        _ => None,
    }
}

fn u64_from(n: &Node) -> (r: Option<u64>)
    ensures
        r matches Some(v) ==> int_node(*n, v as int),
        r is None ==> forall|v: u64| !int_node(*n, v as int),
{
    match n {
        Node::Int(i) => if 0 <= *i && *i <= u64::MAX as i128 {
            Some(*i as u64)
        } else {
            None
        },
        _ => None,
    }
}

fn string_from(n: &Node) -> (r: Option<String>)
    ensures
        r matches Some(s) ==> str_node(*n, s@),
        r is None ==> forall|s: Seq<char>| !str_node(*n, s),
{
    match n {
        Node::Str(s) => Some(s.clone()),
        _ => None,
    }
}

fn range_from(n: &Node) -> (r: Option<(i64, i64)>)
    ensures
        r matches Some((lo, hi)) ==> range_node(*n, lo, hi),
        r is None ==> forall|lo: i64, hi: i64| !range_node(*n, lo, hi),
{
    let f = match n {
        Node::Obj(f) => f,
        _ => {
            return None;
        },
    };
    if f.len() != 1 || !is_key(&f[0], "range") {
        assert(f.len() == 1 ==> fields(*n)[0] == f@[0]);
        return None;
    }
    let g = match &f[0].1 {
        Node::Obj(g) => g,
        _ => {
            return None;
        },
    };
    if g.len() != 2 || !is_key(&g[0], "end") || !is_key(&g[1], "start") {
        assert(g.len() == 2 ==> fields(field(*n, 0))[0] == g@[0] && fields(field(*n, 0))[1] == g@[1]);
        return None;
    }
    let hi = match i64_from(&g[0].1) {
        Some(v) => v,
        None => {
            return None;
        },
    };
    let lo = match i64_from(&g[1].1) {
        Some(v) => v,
        None => {
            return None;
        },
    };
    Some((lo, hi))
}

fn value_from(n: &Node) -> (r: Option<i64>)
    ensures
        r matches Some(v) ==> value_node(*n, v),
        r is None ==> forall|v: i64| !value_node(*n, v),
{
    let f = match n {
        Node::Obj(f) => f,
        _ => {
            return None;
        },
    };
    if f.len() != 1 || !is_key(&f[0], "value") {
        assert(f.len() == 1 ==> fields(*n)[0] == f@[0]);
        return None;
    }
    i64_from(&f[0].1)
}

fn condition_from(n: &Node) -> (r: Option<Condition>)
    ensures
        r matches Some(c) ==> condition_node(*n, c),
        r is None ==> forall|c: Condition| !condition_node(*n, c),
{
    proof {
        lemma_variant_names_differ();
    }
    let f = match n {
        Node::Obj(f) => f,
        _ => {
            return None;
        },
    };
    if f.len() != 1 {
        return None;
    }
    assert(fields(*n)[0] == f@[0]);
    let body = &f[0].1;
    if is_key(&f[0], "InRange") {
        match range_from(body) {
            Some((lo, hi)) => Some(Condition::InRange { lo, hi }),
            None => None,
        }
    } else if is_key(&f[0], "NotInRange") {
        match range_from(body) {
            Some((lo, hi)) => Some(Condition::NotInRange { lo, hi }),
            None => None,
        }
    } else if is_key(&f[0], "GreaterThanValue") {
        match value_from(body) {
            Some(value) => Some(Condition::GreaterThanValue { value }),
            None => None,
        }
    } else if is_key(&f[0], "LessThanValue") {
        match value_from(body) {
            Some(value) => Some(Condition::LessThanValue { value }),
            None => None,
        }
    } else {
        None
    }
}

fn mapped_from(n: &Node) -> (r: Option<MappedCondition>)
    ensures
        r matches Some(m) ==> mapped_node(*n, m),
        r is None ==> forall|m: MappedCondition| !mapped_node(*n, m),
{
    let f = match n {
        Node::Obj(f) => f,
        _ => {
            return None;
        },
    };
    if f.len() != 2 || !is_key(&f[0], "condition") || !is_key(&f[1], "control_factor") {
        assert(f.len() == 2 ==> fields(*n)[0] == f@[0] && fields(*n)[1] == f@[1]);
        return None;
    }
    let condition = match condition_from(&f[0].1) {
        Some(c) => c,
        None => {
            return None;
        },
    };
    let control_factor = match string_from(&f[1].1) {
        Some(s) => s,
        None => {
            return None;
        },
    };
    Some(MappedCondition { control_factor, condition })
}

fn warning_from(n: &Node) -> (r: Option<Warning>)
    ensures
        r matches Some(w) ==> warning_node(*n, w),
        r is None ==> forall|w: Warning| !warning_node(*n, w),
{
    let f = match n {
        Node::Obj(f) => f,
        _ => {
            return None;
        },
    };
    if f.len() != 4 || !is_key(&f[0], "condition") || !is_key(&f[1], "description") || !is_key(&f[2], "name")
        || !is_key(&f[3], "threshold") {
        assert(f.len() == 4 ==> fields(*n)[0] == f@[0] && fields(*n)[1] == f@[1] && fields(*n)[2] == f@[2]
            && fields(*n)[3] == f@[3]);
        return None;
    }
    let condition = match mapped_from(&f[0].1) {
        Some(c) => c,
        None => {
            return None;
        },
    };
    let description = match string_from(&f[1].1) {
        Some(s) => s,
        None => {
            return None;
        },
    };
    let name = match string_from(&f[2].1) {
        Some(s) => s,
        None => {
            return None;
        },
    };
    let threshold = match u64_from(&f[3].1) {
        Some(v) => v,
        None => {
            return None;
        },
    };
    Some(Warning { name, description, condition, threshold })
}

fn event_from(n: &Node) -> (r: Option<Event>)
    ensures
        r matches Some(e) ==> event_node(*n, e),
        r is None ==> forall|e: Event| !event_node(*n, e),
{
    match n {
        Node::Str(s) => if *s == "RepetitionComplete".to_owned() {
            Some(Event::RepetitionComplete)
        } else {
            None
        },
        _ => None,
    }
}

fn mapped_list_from(n: &Node) -> (r: Option<Vec<MappedCondition>>)
    ensures
        r matches Some(xs) ==> mapped_list(*n, xs@),
        r is None ==> forall|xs: Seq<MappedCondition>| !mapped_list(*n, xs),
{
    let v = match n {
        Node::List(v) => v,
        _ => {
            return None;
        },
    };
    let mut out: Vec<MappedCondition> = Vec::new();
    let mut i: usize = 0;
    while i < v.len()
        invariant
            i <= v@.len(),
            items(*n) == v@,
            n is List,
            out@.len() == i,
            forall|j: int| 0 <= j < i ==> mapped_node(#[trigger] v@[j], out@[j]),
        decreases v@.len() - i,
    {
        match mapped_from(&v[i]) {
            Some(x) => out.push(x),
            None => {
                assert forall|xs: Seq<MappedCondition>| !mapped_list(*n, xs) by {
                    if mapped_list(*n, xs) {
                        assert(mapped_node(items(*n)[i as int], xs[i as int]));
                    }
                }
                return None;
            },
        }
        i = i + 1;
    }
    Some(out)
}

fn event_list_from(n: &Node) -> (r: Option<Vec<Event>>)
    ensures
        r matches Some(xs) ==> event_list(*n, xs@),
        r is None ==> forall|xs: Seq<Event>| !event_list(*n, xs),
{
    let v = match n {
        Node::List(v) => v,
        _ => {
            return None;
        },
    };
    let mut out: Vec<Event> = Vec::new();
    let mut i: usize = 0;
    while i < v.len()
        invariant
            i <= v@.len(),
            items(*n) == v@,
            n is List,
            out@.len() == i,
            forall|j: int| 0 <= j < i ==> event_node(#[trigger] v@[j], out@[j]),
        decreases v@.len() - i,
    {
        match event_from(&v[i]) {
            Some(x) => out.push(x),
            None => {
                assert forall|xs: Seq<Event>| !event_list(*n, xs) by {
                    if event_list(*n, xs) {
                        assert(event_node(items(*n)[i as int], xs[i as int]));
                    }
                }
                return None;
            },
        }
        i = i + 1;
    }
    Some(out)
}

fn warning_list_from(n: &Node) -> (r: Option<Vec<Warning>>)
    ensures
        r matches Some(xs) ==> warning_list(*n, xs@),
        r is None ==> forall|xs: Seq<Warning>| !warning_list(*n, xs),
{
    let v = match n {
        Node::List(v) => v,
        _ => {
            return None;
        },
    };
    let mut out: Vec<Warning> = Vec::new();
    let mut i: usize = 0;
    while i < v.len()
        invariant
            i <= v@.len(),
            items(*n) == v@,
            n is List,
            out@.len() == i,
            forall|j: int| 0 <= j < i ==> warning_node(#[trigger] v@[j], out@[j]),
        decreases v@.len() - i,
    {
        match warning_from(&v[i]) {
            Some(x) => out.push(x),
            None => {
                assert forall|xs: Seq<Warning>| !warning_list(*n, xs) by {
                    if warning_list(*n, xs) {
                        assert(warning_node(items(*n)[i as int], xs[i as int]));
                    }
                }
                return None;
            },
        }
        i = i + 1;
    }
    Some(out)
}

fn transition_from(n: &Node) -> (r: Option<Transition>)
    ensures
        r matches Some(t) ==> transition_node(*n, t),
        r is None ==> forall|t: Transition| !transition_node(*n, t),
{
    let f = match n {
        Node::Obj(f) => f,
        _ => {
            return None;
        },
    };
    if f.len() != 3 || !is_key(&f[0], "conditions") || !is_key(&f[1], "emit") || !is_key(&f[2], "to") {
        assert(f.len() == 3 ==> fields(*n)[0] == f@[0] && fields(*n)[1] == f@[1] && fields(*n)[2] == f@[2]);
        return None;
    }
    let conditions = match mapped_list_from(&f[0].1) {
        Some(xs) => xs,
        None => {
            return None;
        },
    };
    let emit = match event_list_from(&f[1].1) {
        Some(xs) => xs,
        None => {
            return None;
        },
    };
    let to = match string_from(&f[2].1) {
        Some(s) => s,
        None => {
            return None;
        },
    };
    Some(Transition { conditions, to, emit })
}

fn transition_list_from(n: &Node) -> (r: Option<Vec<Transition>>)
    ensures
        r matches Some(xs) ==> transition_list(*n, xs@),
        r is None ==> forall|xs: Seq<Transition>| !transition_list(*n, xs),
{
    let v = match n {
        Node::List(v) => v,
        _ => {
            return None;
        },
    };
    let mut out: Vec<Transition> = Vec::new();
    let mut i: usize = 0;
    while i < v.len()
        invariant
            i <= v@.len(),
            items(*n) == v@,
            n is List,
            out@.len() == i,
            forall|j: int| 0 <= j < i ==> transition_node(#[trigger] v@[j], out@[j]),
        decreases v@.len() - i,
    {
        match transition_from(&v[i]) {
            Some(x) => out.push(x),
            None => {
                assert forall|xs: Seq<Transition>| !transition_list(*n, xs) by {
                    if transition_list(*n, xs) {
                        assert(transition_node(items(*n)[i as int], xs[i as int]));
                    }
                }
                return None;
            },
        }
        i = i + 1;
    }
    Some(out)
}

fn state_from(n: &Node) -> (r: Option<JsonState>)
    ensures
        r matches Some(st) ==> state_node(*n, st),
        r is None ==> forall|st: JsonState| !state_node(*n, st),
{
    let f = match n {
        Node::Obj(f) => f,
        _ => {
            return None;
        },
    };
    if f.len() != 3 || !is_key(&f[0], "name") || !is_key(&f[1], "transitions") || !is_key(&f[2], "warnings") {
        assert(f.len() == 3 ==> fields(*n)[0] == f@[0] && fields(*n)[1] == f@[1] && fields(*n)[2] == f@[2]);
        return None;
    }
    let name = match string_from(&f[0].1) {
        Some(s) => s,
        None => {
            return None;
        },
    };
    let transitions = match transition_list_from(&f[1].1) {
        Some(xs) => xs,
        None => {
            return None;
        },
    };
    let warnings = match warning_list_from(&f[2].1) {
        Some(xs) => xs,
        None => {
            return None;
        },
    };
    Some(JsonState { name, transitions, warnings })
}

fn state_list_from(n: &Node) -> (r: Option<Vec<JsonState>>)
    ensures
        r matches Some(xs) ==> state_list(*n, xs@),
        r is None ==> forall|xs: Seq<JsonState>| !state_list(*n, xs),
{
    let v = match n {
        Node::List(v) => v,
        _ => {
            return None;
        },
    };
    let mut out: Vec<JsonState> = Vec::new();
    let mut i: usize = 0;
    while i < v.len()
        invariant
            i <= v@.len(),
            items(*n) == v@,
            n is List,
            out@.len() == i,
            forall|j: int| 0 <= j < i ==> state_node(#[trigger] v@[j], out@[j]),
        decreases v@.len() - i,
    {
        match state_from(&v[i]) {
            Some(x) => out.push(x),
            None => {
                assert forall|xs: Seq<JsonState>| !state_list(*n, xs) by {
                    if state_list(*n, xs) {
                        assert(state_node(items(*n)[i as int], xs[i as int]));
                    }
                }
                return None;
            },
        }
        i = i + 1;
    }
    Some(out)
}

/// Reads an exercise from its document. Fails exactly when `n` is the
/// document of no exercise.
pub fn from_document(n: &Node) -> (r: Option<JsonExercise>)
    ensures
        r matches Some(e) ==> exercise_node(*n, e),
        r is None ==> forall|e: JsonExercise| !exercise_node(*n, e),
{
    let f = match n {
        Node::Obj(f) => f,
        _ => {
            return None;
        },
    };
    if f.len() != 3 || !is_key(&f[0], "initial_state") || !is_key(&f[1], "states") || !is_key(&f[2], "warnings") {
        assert(f.len() == 3 ==> fields(*n)[0] == f@[0] && fields(*n)[1] == f@[1] && fields(*n)[2] == f@[2]);
        return None;
    }
    let initial_state = match string_from(&f[0].1) {
        Some(s) => s,
        None => {
            return None;
        },
    };
    let states = match state_list_from(&f[1].1) {
        Some(xs) => xs,
        None => {
            return None;
        },
    };
    let warnings = match warning_list_from(&f[2].1) {
        Some(xs) => xs,
        None => {
            return None;
        },
    };
    Some(JsonExercise { states, initial_state, warnings })
}

proof fn lemma_condition_node_unique(n: Node, a: Condition, b: Condition)
    requires
        condition_node(n, a),
        condition_node(n, b),
    ensures
        a == b,
{
    lemma_variant_names_differ();
    assert(fields(n)[0].0@ == variant_name(a));
    assert(fields(n)[0].0@ == variant_name(b));
}

proof fn lemma_mapped_node_unique(n: Node, a: MappedCondition, b: MappedCondition)
    requires
        mapped_node(n, a),
        mapped_node(n, b),
    ensures
        same_mapped(a, b),
{
    lemma_condition_node_unique(field(n, 0), a.condition, b.condition);
}

proof fn lemma_warning_node_unique(n: Node, a: Warning, b: Warning)
    requires
        warning_node(n, a),
        warning_node(n, b),
    ensures
        same_warning(a, b),
{
    lemma_mapped_node_unique(field(n, 0), a.condition, b.condition);
}

proof fn lemma_warning_list_unique(n: Node, a: Seq<Warning>, b: Seq<Warning>)
    requires
        warning_list(n, a),
        warning_list(n, b),
    ensures
        same_warnings(a, b),
{
    assert forall|i: int| 0 <= i < a.len() implies same_warning(#[trigger] a[i], b[i]) by {
        lemma_warning_node_unique(items(n)[i], a[i], b[i]);
    }
}

proof fn lemma_transition_node_unique(n: Node, a: Transition, b: Transition)
    requires
        transition_node(n, a),
        transition_node(n, b),
    ensures
        same_transition(a, b),
{
    let c = field(n, 0);
    assert forall|i: int| 0 <= i < a.conditions@.len() implies same_mapped(
        #[trigger] a.conditions@[i],
        b.conditions@[i],
    ) by {
        lemma_mapped_node_unique(items(c)[i], a.conditions@[i], b.conditions@[i]);
    }
    let e = field(n, 1);
    assert(a.emit@ =~= b.emit@) by {
        assert forall|i: int| 0 <= i < a.emit@.len() implies a.emit@[i] == b.emit@[i] by {
            assert(event_node(items(e)[i], a.emit@[i]));
            match a.emit@[i] {
                Event::RepetitionComplete => match b.emit@[i] {
                    Event::RepetitionComplete => {},
                },
            }
        }
    }
}

proof fn lemma_state_node_unique(n: Node, a: JsonState, b: JsonState)
    requires
        state_node(n, a),
        state_node(n, b),
    ensures
        same_state(a, b),
{
    let t = field(n, 1);
    assert forall|i: int| 0 <= i < a.transitions@.len() implies same_transition(
        #[trigger] a.transitions@[i],
        b.transitions@[i],
    ) by {
        lemma_transition_node_unique(items(t)[i], a.transitions@[i], b.transitions@[i]);
    }
    lemma_warning_list_unique(field(n, 2), a.warnings@, b.warnings@);
}

/// Round trip: two exercises with the same document define the same
/// exercise. So an exercise written with `to_document` and read back with
/// `from_document` (which succeeds on every document `to_document` writes)
/// has the same initial state and structurally equal states, transitions
/// and warnings.
pub proof fn lemma_document_round_trip(n: Node, written: JsonExercise, read: JsonExercise)
    requires
        exercise_node(n, written),
        exercise_node(n, read),
    ensures
        read.initial_state@ == written.initial_state@,
        same_exercise(read, written),
{
    let st = field(n, 1);
    assert forall|i: int| 0 <= i < read.states@.len() implies same_state(
        #[trigger] read.states@[i],
        written.states@[i],
    ) by {
        lemma_state_node_unique(items(st)[i], read.states@[i], written.states@[i]);
    }
    lemma_warning_list_unique(field(n, 2), read.warnings@, written.warnings@);
}

} // verus!
