//! The rebuildable projection of context nodes from the event journal.

pub mod admission;
pub mod apply;
pub mod budget;
pub mod canonical;
pub mod checkpoint;
pub mod counting;
pub mod course;
pub mod decode;
pub mod delta;
pub mod digest;
pub mod durable;
pub mod error;
pub mod held;
pub mod identity;
pub mod index;
pub mod journal;
pub mod load;
pub mod replay;
pub mod rules;
pub mod snapshot;
pub mod sources;
pub mod sync;
pub mod verified;
