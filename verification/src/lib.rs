//! Verified core of the ditto runtime: leases, context compilation, event
//! projection and schedules.

pub mod binary32;
pub mod context;
pub mod effect_policy;
pub mod events;
pub mod executor;
pub mod order;
pub mod private_path;
pub mod projection;
pub mod retrieval;
pub mod table;
pub mod text;
pub mod time;
