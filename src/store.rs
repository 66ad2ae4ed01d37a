//! Records exchanged with the store of exercise templates and sessions.

use vstd::prelude::*;

verus! {

/// An exercise as the store holds it: its id, a description, and the
/// definition of its state machine.
#[derive(Clone, Debug, PartialEq, Eq)]
pub struct ExerciseTemplate {
    pub name: String,
    pub description: String,
    pub fsm: String,
}

/// A request or response carried through the store's command buffer.
#[derive(Clone, Debug, PartialEq, Eq)]
pub struct IdempotencyWrap<T> {
    pub inner: T,
}

} // verus!
