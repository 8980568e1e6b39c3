//! The event journal and the schedules projected from it.

pub mod binding;
pub mod json;
pub mod laws;
pub mod record;
pub mod recurrence;
pub mod schedule;
