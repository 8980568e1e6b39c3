//! The durable anchor of the projection.

use vstd::prelude::*;

use crate::events::record::EventRecord;
use crate::projection::digest::{
    digest_from_blob, empty_digest, empty_state_digest, same_digest, GLOBAL_INDEX_DIGEST_DOMAIN,
};
use crate::projection::error::ContextProjectionError;
use crate::projection::index::corrupt;
use crate::text::{
    ascii_lower, copy_optional_text, is_same_but_case, optional_text, same_but_case,
    same_optional_text, same_text,
};

verus! {

/// Version of the independently rebuildable projection schema.
pub const CONTEXT_PROJECTION_SCHEMA_VERSION: i64 = 4;

/// The fixed name of the projection's database.
pub const CONTEXT_PROJECTION_DATABASE_FILENAME: &'static str = "context-projection.db";

/// The name of the journal's database, in any case of letters.
pub const EVENT_STORE_DATABASE_FILENAME: &'static str = "state.db";

/// Refuses to take the journal's database for the projection's: by its name,
/// and by the table of events in it.
pub fn check_database(file_name: &Option<String>, holds_events: bool) -> (r: Result<
    (),
    ContextProjectionError,
>)
    ensures
        database_outcome(optional_text(*file_name), holds_events, r),
        r == if holds_events || (optional_text(*file_name) matches Some(name) && same_but_case(
            name,
            EVENT_STORE_DATABASE_FILENAME@,
        )) {
            Err::<(), ContextProjectionError>(ContextProjectionError::SourceDatabaseCollision)
        } else {
            Ok(())
        },
{
    let named = match file_name {
        Some(name) => is_same_but_case(name, EVENT_STORE_DATABASE_FILENAME),
        None => false,
    };
    if holds_events || named {
        return Err(ContextProjectionError::SourceDatabaseCollision);
    }
    Ok(())
}

/// Exact durable anchor of the projection cache.
#[derive(Debug, PartialEq, Eq)]
pub struct ProjectionCheckpoint {
    pub schema_version: i64,
    pub through_seq: i64,
    pub through_event_id: Option<String>,
    pub canonical_state_digest: [u8; 32],
}

/// The model of a checkpoint.
pub struct CheckpointModel {
    pub schema_version: i64,
    pub through_seq: i64,
    pub through_event_id: Option<Seq<char>>,
    pub canonical_state_digest: Seq<u8>,
}

impl View for ProjectionCheckpoint {
    type V = CheckpointModel;

    open spec fn view(&self) -> CheckpointModel {
        CheckpointModel {
            schema_version: self.schema_version,
            through_seq: self.through_seq,
            through_event_id: optional_text(self.through_event_id),
            canonical_state_digest: self.canonical_state_digest@,
        }
    }
}

impl Clone for ProjectionCheckpoint {
    fn clone(&self) -> (r: ProjectionCheckpoint)
        ensures
            r@ == self@,
    {
        ProjectionCheckpoint {
            schema_version: self.schema_version,
            through_seq: self.through_seq,
            through_event_id: copy_optional_text(&self.through_event_id),
            canonical_state_digest: self.canonical_state_digest,
        }
    }
}

/// The checkpoint of an empty projection.
pub open spec fn zero_checkpoint() -> CheckpointModel {
    CheckpointModel {
        schema_version: CONTEXT_PROJECTION_SCHEMA_VERSION,
        through_seq: 0,
        through_event_id: None,
        canonical_state_digest: empty_digest(GLOBAL_INDEX_DIGEST_DOMAIN@),
    }
}

/// The model of an optional checkpoint.
pub open spec fn checkpoint_model(c: Option<ProjectionCheckpoint>) -> Option<CheckpointModel> {
    match c {
        Some(v) => Some(v@),
        None => None,
    }
}

/// The event is the one at that sequence with that identity.
pub open spec fn is_event(event: Option<EventRecord>, seq: i64, event_id: Seq<char>) -> bool {
    event matches Some(e) && e.seq == seq && e.event_id@ == event_id
}

/// The journal still holds the checkpoint's anchor: nothing for an empty
/// projection, and otherwise one event that is found under both its sequence
/// and its identity.
pub open spec fn anchored(
    c: CheckpointModel,
    by_seq: Option<EventRecord>,
    by_id: Option<EventRecord>,
) -> bool {
    if c.through_seq == 0 {
        c.through_event_id is None
    } else {
        c.through_event_id matches Some(id) && is_event(by_seq, c.through_seq, id) && is_event(
            by_id,
            c.through_seq,
            id,
        )
    }
}

/// Whether the event is the one at that sequence with that identity.
pub fn event_matches(event: &Option<EventRecord>, seq: i64, event_id: &str) -> (r: bool)
    ensures
        r == is_event(*event, seq, event_id@),
{
    match event {
        Some(e) => e.seq == seq && same_text(&e.event_id, event_id),
        None => false,
    }
}

impl ProjectionCheckpoint {
    /// The checkpoint of an empty projection.
    pub fn zero() -> (r: ProjectionCheckpoint)
        ensures
            r@ == zero_checkpoint(),
    {
        ProjectionCheckpoint {
            schema_version: CONTEXT_PROJECTION_SCHEMA_VERSION,
            through_seq: 0,
            through_event_id: None,
            canonical_state_digest: empty_state_digest(GLOBAL_INDEX_DIGEST_DOMAIN),
        }
    }

    pub fn equals(&self, other: &ProjectionCheckpoint) -> (r: bool)
        ensures
            r == (self@ == other@),
    {
        self.schema_version == other.schema_version && self.through_seq == other.through_seq
            && same_optional_text(&self.through_event_id, &other.through_event_id) && same_digest(
            &self.canonical_state_digest,
            &other.canonical_state_digest,
        )
    }

    /// Whether the journal still holds the anchor. `by_seq` and `by_id` are the
    /// events found under its sequence and under its identity.
    pub fn anchor_matches(&self, by_seq: &Option<EventRecord>, by_id: &Option<EventRecord>) -> (r:
        bool)
        ensures
            r == anchored(self@, *by_seq, *by_id),
    {
        if self.through_seq == 0 {
            return self.through_event_id.is_none();
        }
        match &self.through_event_id {
            None => false,
            Some(id) => event_matches(by_seq, self.through_seq, id) && event_matches(
                by_id,
                self.through_seq,
                id,
            ),
        }
    }
}

/// Whether an optional checkpoint is the given one.
pub fn is_checkpoint(c: &Option<ProjectionCheckpoint>, wanted: &ProjectionCheckpoint) -> (r: bool)
    ensures
        r == (checkpoint_model(*c) == Some(wanted@)),
{
    match c {
        Some(v) => v.equals(wanted),
        None => false,
    }
}

/// A checkpoint as it is stored.
#[derive(Debug)]
pub struct RawCheckpoint {
    pub schema_version: i64,
    pub through_seq: i64,
    pub through_event_id: Option<String>,
    pub canonical_state_digest: Vec<u8>,
}

/// Reads a stored checkpoint; its digest must have its length.
pub fn read_checkpoint(raw: &RawCheckpoint) -> (r: Result<
    ProjectionCheckpoint,
    ContextProjectionError,
>)
    ensures
        stored_outcome(*raw, r),
        match r {
            Ok(c) => raw.canonical_state_digest@.len() == 32 && c@ == (CheckpointModel {
                schema_version: raw.schema_version,
                through_seq: raw.through_seq,
                through_event_id: optional_text(raw.through_event_id),
                canonical_state_digest: raw.canonical_state_digest@,
            }),
            Err(e) => raw.canonical_state_digest@.len() != 32 && corrupt(
                e,
                raw.through_seq,
                "projection checkpoint canonical state digest is not exactly 32 bytes"@,
            ),
        },
{
    match digest_from_blob(&raw.canonical_state_digest) {
        Some(d) => Ok(
            ProjectionCheckpoint {
                schema_version: raw.schema_version,
                through_seq: raw.through_seq,
                through_event_id: copy_optional_text(&raw.through_event_id),
                canonical_state_digest: d,
            },
        ),
        None => Err(
            ContextProjectionError::CorruptProjectionRow {
                seq: raw.through_seq,
                reason: "projection checkpoint canonical state digest is not exactly 32 bytes".to_owned(),
            },
        ),
    }
}

/// The stored checkpoint; a cache without one is corrupt.
pub fn require_checkpoint(stored: Option<ProjectionCheckpoint>) -> (r: Result<
    ProjectionCheckpoint,
    ContextProjectionError,
>)
    ensures
        match stored {
            Some(c) => r == Ok::<ProjectionCheckpoint, ContextProjectionError>(c),
            None => r is Err && corrupt(r->Err_0, 0, "singleton checkpoint is missing"@),
        },
{
    match stored {
        Some(c) => Ok(c),
        None => Err(
            ContextProjectionError::CorruptProjectionRow {
                seq: 0,
                reason: "singleton checkpoint is missing".to_owned(),
            },
        ),
    }
}

/// What a source verification knows: the checkpoint it was made at, and the
/// generation of the cache it was made of.
#[derive(Debug)]
pub struct VerifiedGeneration {
    pub checkpoint: ProjectionCheckpoint,
    pub sqlite_data_version: i64,
}

/// The cache is still the one that was verified: same checkpoint and same
/// generation.
pub open spec fn generation_matches(
    source: Option<VerifiedGeneration>,
    cached: Option<ProjectionCheckpoint>,
    data_version: i64,
) -> bool {
    source matches Some(s) && cached matches Some(c) && s.checkpoint@ == c@
        && s.sqlite_data_version == data_version
}

/// Whether the cache is still the one that was verified.
pub fn source_verification_matches_cache(
    source: &Option<VerifiedGeneration>,
    cached: &Option<ProjectionCheckpoint>,
    data_version: i64,
) -> (r: bool)
    ensures
        r == generation_matches(*source, *cached, data_version),
{
    match (source, cached) {
        (Some(s), Some(c)) => s.checkpoint.equals(c) && s.sqlite_data_version == data_version,
        _ => false,
    }
}

/// Checks that a target event is the journal's record, found under both its
/// sequence and its identity.
pub fn check_target(
    seq: i64,
    event_id: &str,
    by_seq: &Option<EventRecord>,
    by_id: &Option<EventRecord>,
) -> (r: Result<(), ContextProjectionError>)
    ensures
        target_outcome(seq, event_id@, *by_seq, *by_id, r),
        is_event(*by_seq, seq, event_id@) && is_event(*by_id, seq, event_id@) ==> r is Ok,
        !(is_event(*by_seq, seq, event_id@) && is_event(*by_id, seq, event_id@)) ==> r is Err
            && target_mismatch(r->Err_0, seq, event_id@),
{
    if event_matches(by_seq, seq, event_id) && event_matches(by_id, seq, event_id) {
        return Ok(());
    }
    Err(ContextProjectionError::TargetEventMismatch { event_id: event_id.to_owned(), seq })
}

/// The error reports a target that is not the journal's record.
pub open spec fn target_mismatch(e: ContextProjectionError, seq: i64, event_id: Seq<char>) -> bool {
    &&& e is TargetEventMismatch
    &&& e->TargetEventMismatch_event_id@ == event_id
    &&& e->TargetEventMismatch_seq == seq
}

/// Checks that synchronizing reached exactly the target event.
pub fn check_reached(seq: i64, event_id: &str, reached: &ProjectionCheckpoint) -> (r: Result<
    (),
    ContextProjectionError,
>)
    ensures
        reached_outcome(seq, event_id@, reached@, r),
        reached.through_seq == seq && optional_text(reached.through_event_id) == Some(event_id@)
            ==> r is Ok,
        !(reached.through_seq == seq && optional_text(reached.through_event_id) == Some(
            event_id@,
        )) ==> r is Err && target_mismatch(r->Err_0, seq, event_id@),
{
    let same = match &reached.through_event_id {
        Some(id) => same_text(id, event_id),
        None => false,
    };
    if reached.through_seq == seq && same {
        return Ok(());
    }
    Err(ContextProjectionError::TargetEventMismatch { event_id: event_id.to_owned(), seq })
}

/// Checks that a requested high-water lies in the journal.
pub fn check_high_water(high_water: i64, available: i64) -> (r: Result<(), ContextProjectionError>)
    ensures
        high_water_outcome(high_water, available, r),
        0 <= high_water <= available ==> r is Ok,
        !(0 <= high_water <= available) ==> r == Err::<(), ContextProjectionError>(
            ContextProjectionError::HighWaterAhead { requested: high_water, available },
        ),
{
    if high_water < 0 || high_water > available {
        return Err(ContextProjectionError::HighWaterAhead { requested: high_water, available });
    }
    Ok(())
}

/// The result of checking which database was opened.
pub open spec fn database_outcome(
    file_name: Option<Seq<char>>,
    holds_events: bool,
    r: Result<(), ContextProjectionError>,
) -> bool {
    if holds_events || (file_name matches Some(name) && same_but_case(
        name,
        EVENT_STORE_DATABASE_FILENAME@,
    )) {
        r == Err::<(), ContextProjectionError>(ContextProjectionError::SourceDatabaseCollision)
    } else {
        r is Ok
    }
}

/// The journal's database is never taken for the projection's: not by its name, in
/// whatever case of letters, and not by what it holds. Any other is taken, the
/// projection's own name among them.
pub proof fn the_journal_is_not_overwritten(
    file_name: Option<Seq<char>>,
    holds_events: bool,
    r: Result<(), ContextProjectionError>,
)
    requires
        database_outcome(file_name, holds_events, r),
    ensures
        holds_events ==> r is Err && r->Err_0 is SourceDatabaseCollision,
        file_name == Some("state.db"@) ==> r is Err,
        file_name == Some("STATE.DB"@) ==> r is Err,
        !holds_events && file_name is None ==> r is Ok,
        !holds_events && file_name is Some && file_name->0.len() != 8 ==> r is Ok,
        CONTEXT_PROJECTION_DATABASE_FILENAME@ == "context-projection.db"@,
        !holds_events && file_name == Some(CONTEXT_PROJECTION_DATABASE_FILENAME@) ==> r is Ok,
        r is Err && !holds_events ==> file_name is Some && same_but_case(
            file_name->0,
            "state.db"@,
        ),
{
    reveal_strlit("state.db");
    reveal_strlit("STATE.DB");
    reveal_strlit("context-projection.db");
    let (a, b) = ("STATE.DB"@, "state.db"@);
    assert forall|i: int| 0 <= i < a.len() implies ascii_lower(#[trigger] a[i]) == ascii_lower(
        b[i],
    ) by {
        assert(i == 0 || i == 1 || i == 2 || i == 3 || i == 4 || i == 5 || i == 6 || i == 7);
    }
}

/// The result of checking a target event.
pub open spec fn target_outcome(
    seq: i64,
    event_id: Seq<char>,
    by_seq: Option<EventRecord>,
    by_id: Option<EventRecord>,
    r: Result<(), ContextProjectionError>,
) -> bool {
    if is_event(by_seq, seq, event_id) && is_event(by_id, seq, event_id) {
        r is Ok
    } else {
        r is Err && target_mismatch(r->Err_0, seq, event_id)
    }
}

/// The result of checking that a target event was reached.
pub open spec fn reached_outcome(
    seq: i64,
    event_id: Seq<char>,
    reached: CheckpointModel,
    r: Result<(), ContextProjectionError>,
) -> bool {
    if reached.through_seq == seq && reached.through_event_id == Some(event_id) {
        r is Ok
    } else {
        r is Err && target_mismatch(r->Err_0, seq, event_id)
    }
}

/// A target is an event of the journal, found under its sequence and under its
/// identity, and it is reached where the checkpoint stands at both; otherwise it is
/// refused by both.
pub proof fn targets_are_reached_exactly(
    seq: i64,
    event_id: Seq<char>,
    by_seq: Option<EventRecord>,
    by_id: Option<EventRecord>,
    r: Result<(), ContextProjectionError>,
    reached: CheckpointModel,
    q: Result<(), ContextProjectionError>,
)
    requires
        target_outcome(seq, event_id, by_seq, by_id, r),
        reached_outcome(seq, event_id, reached, q),
    ensures
        r is Ok <==> by_seq is Some && by_id is Some && by_seq->0.seq == seq && by_id->0.seq == seq
            && by_seq->0.event_id@ == event_id && by_id->0.event_id@ == event_id,
        r matches Err(e) ==> (e matches ContextProjectionError::TargetEventMismatch {
            event_id: i,
            seq: s,
        } && i@ == event_id && s == seq),
        q is Ok <==> reached.through_seq == seq && reached.through_event_id is Some
            && reached.through_event_id->0 == event_id,
        q matches Err(e) ==> (e matches ContextProjectionError::TargetEventMismatch {
            event_id: i,
            seq: s,
        } && i@ == event_id && s == seq),
{
}

/// The result of checking a high-water.
pub open spec fn high_water_outcome(
    high_water: i64,
    available: i64,
    r: Result<(), ContextProjectionError>,
) -> bool {
    if 0 <= high_water <= available {
        r is Ok
    } else {
        r == Err::<(), ContextProjectionError>(
            ContextProjectionError::HighWaterAhead { requested: high_water, available },
        )
    }
}

/// A high-water lies in the journal where it is neither negative nor beyond the
/// last event; zero and the last event themselves do.
pub proof fn high_waters_lie_in_the_journal(
    high_water: i64,
    available: i64,
    r: Result<(), ContextProjectionError>,
)
    requires
        high_water_outcome(high_water, available, r),
    ensures
        high_water < 0 ==> r is Err,
        high_water > available ==> r is Err,
        high_water == available && available >= 0 ==> r is Ok,
        high_water == 0 && available >= 0 ==> r is Ok,
        0 < high_water < available ==> r is Ok,
        r matches Err(e) ==> (e matches ContextProjectionError::HighWaterAhead {
            requested,
            available: a,
        } && requested == high_water && a == available),
{
}

/// The result of reading a stored checkpoint.
pub open spec fn stored_outcome(
    raw: RawCheckpoint,
    r: Result<ProjectionCheckpoint, ContextProjectionError>,
) -> bool {
    if raw.canonical_state_digest@.len() == 32 {
        r is Ok && r->Ok_0@ == (CheckpointModel {
            schema_version: raw.schema_version,
            through_seq: raw.through_seq,
            through_event_id: optional_text(raw.through_event_id),
            canonical_state_digest: raw.canonical_state_digest@,
        })
    } else {
        r is Err && corrupt(
            r->Err_0,
            raw.through_seq,
            "projection checkpoint canonical state digest is not exactly 32 bytes"@,
        )
    }
}

/// A stored checkpoint is read as it stands where its digest has 32 bytes, and
/// refused otherwise.
pub proof fn checkpoints_are_read_as_they_stand(
    raw: RawCheckpoint,
    r: Result<ProjectionCheckpoint, ContextProjectionError>,
)
    requires
        stored_outcome(raw, r),
    ensures
        r is Ok <==> raw.canonical_state_digest@.len() == 32,
        r is Ok ==> r->Ok_0.schema_version == raw.schema_version && r->Ok_0.through_seq
            == raw.through_seq && optional_text(r->Ok_0.through_event_id) == optional_text(
            raw.through_event_id,
        ) && r->Ok_0.canonical_state_digest@ == raw.canonical_state_digest@,
        r is Err ==> r->Err_0 is CorruptProjectionRow && r->Err_0->CorruptProjectionRow_seq
            == raw.through_seq,
{
}

} // verus!
