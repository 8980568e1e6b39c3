//! Context nodes and the compiler that selects them for a task.

pub mod candidate;
pub mod capsule;
pub mod compiler;
pub mod graph;
pub mod independence;
pub mod laws;
pub mod node;
pub mod outcomes;
pub mod ranked;
pub mod ranking;
pub mod receipt;
pub mod searching;
pub mod selection;
pub mod signature;
pub mod standings;
pub mod validate;
