//! Motion analysis and session orchestration for guided physiotherapy
//! exercises.
//!
//! A camera-derived skeleton is reduced, frame by frame, to named scalar
//! control factors. The [`motion`] module runs one exercise's state machine
//! over those factors, and the [`session`] module sequences several exercises,
//! counting repetitions and deciding what the collaborators around it must do.
//! The [`document`] module writes an exercise definition as a document tree
//! and reads it back.
//!
//! Control factors are fixed-point integers (the unit is chosen by whoever
//! extracts them, e.g. hundredths of a degree) and elapsed time is counted in
//! integer ticks (e.g. milliseconds).

pub mod condition;
pub mod document;
pub mod motion;
pub mod session;
pub mod skeleton;
pub mod store;

pub use condition::{Condition, ControlFactor, ControlFactorMap, MappedCondition};
pub use motion::{
    Event, JsonExercise, JsonState, MotionAnalyzer, ProgresState, Transition, Warning,
    DEFAULT_WARNING_THRESHOLD,
};
pub use session::{
    Action, ExerciseStore, Request, RequestExerciseReps, Session, SessionExercise, SessionState,
    SessionStore,
};
pub use skeleton::{coco18_keypoint, skeleton_map_body_coco18, Framebuffer, Resolution, COCO18_LEN};
pub use store::{ExerciseTemplate, IdempotencyWrap};
pub use document::{from_document, to_document, Node};
