//! Failures of the projection, of durable admission and of scans.

use vstd::prelude::*;

use crate::context::node::ContextOrigin;
use crate::events::record::EventActor;
use crate::retrieval::RetrievalError;

verus! {

/// A failure of the projection.
#[derive(Debug, PartialEq, Eq)]
pub enum ContextProjectionError {
    SourceDatabaseCollision,
    Retrieval(RetrievalError),
    HighWaterAhead { requested: i64, available: i64 },
    HighWaterBehindCheckpoint { requested: i64, checkpoint: i64 },
    NonMonotonicPage { after: i64, found: i64 },
    HighWaterUnreachable { cursor: i64, high_water: i64 },
    TargetEventMismatch { event_id: String, seq: i64 },
    ProjectionNotSynchronized { checkpoint: i64, high_water: i64 },
    MalformedPayload { seq: i64, reason: String },
    UnsupportedEventVersion { seq: i64, found: u64 },
    InvalidActor { seq: i64, found: EventActor },
    UnexpectedSpan { seq: i64 },
    InvalidScope { seq: i64, reason: String },
    CorrelationMismatch { seq: i64, expected: String, actual: Option<String> },
    CausationMismatch { seq: i64, expected: String, actual: Option<String> },
    InvalidNode { node_id: String, reason: String },
    NonCanonicalValidityPrecision { node_id: String, field: &'static str },
    DurableBytesExceeded { field: &'static str, actual: usize, maximum: usize },
    DurableListOutOfRange {
        field: &'static str,
        actual: usize,
        minimum: usize,
        maximum: usize,
    },
    EmptyReference { field: &'static str, index: usize },
    DuplicateReference { field: &'static str, id: String },
    SelfSupersession { node_id: String },
    MissingSource { node_id: String, source_event_id: String },
    SourceNotPrior { node_id: String, source_event_id: String, source_seq: i64 },
    SourceSessionMismatch { node_id: String, source_event_id: String },
    SourceTaskMismatch { node_id: String, source_event_id: String },
    OriginNotAttested { node_id: String, origin: ContextOrigin },
    DuplicateNodeIdentity { session_id: String, node_id: String, event_id: String, seq: i64 },
    MissingSupersededNode { node_id: String, superseded_id: String },
    SupersessionScopeMismatch { node_id: String, superseded_id: String },
    CorruptProjectionRow { seq: i64, reason: String },
    ProjectionSnapshotIntegrityMismatch { high_water: i64 },
    SessionIndexIntegrityMismatch { high_water: i64 },
    SessionIndexLimitExceeded { dimension: &'static str, attempted: u64, maximum: u64 },
    MissingCheckpointDuringPage,
}

} // verus!
