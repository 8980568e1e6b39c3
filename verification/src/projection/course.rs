//! How synchronizing, verifying and copying take their course, told step by step.

use vstd::prelude::*;
use vstd::utf8::*;

use crate::context::node::ContextScope;
use crate::events::record::EventRecord;
use crate::projection::admission::{readiness, IndexReadiness};
use crate::projection::budget::{no_work, CatchUpMode, CatchUpWork, ProjectionVerificationMetrics};
use crate::projection::canonical::{
    addition_outcome, comparison_outcome, relevant_edge, relevant_edges, row_verified, selected,
    CanonicalAdmissionView,
};
use crate::projection::checkpoint::{
    anchored, generation_matches, zero_checkpoint, CheckpointModel, ProjectionCheckpoint,
    VerifiedGeneration,
};
use crate::projection::decode::ValidatedRecordedNode;
use crate::projection::delta::{committed, CatchUpModel};
use crate::projection::digest::{sha256_of, text_frame};
use crate::projection::durable::durable;
use crate::projection::error::ContextProjectionError;
use crate::projection::identity::IdentityIndex;
use crate::projection::index::{CachedEdgeModel, RawSessionIndexEntry, RawSessionIndexState};
use crate::projection::load::{
    identity_in, index_digest, load_outcome, row_fine, rows_fine, session_state,
};
use crate::projection::snapshot::{
    active_outcome, active_row_fine, budget_after_rows, reports_unsound_row, row_sound,
    snapshot_outcome, unsuperseded, DerivedContextSnapshot, RawProjectedRow,
};
use crate::projection::sync::{
    after_event, finish_outcome, start_outcome, update_for, CacheState, ProjectionSync, SyncEvent,
    SyncModel, SyncStage, Synchronization, VerificationUpdate,
};
use crate::projection::verified::{
    after_snapshot_event, beyond, first_stage, update_repeats, updated_at, IdentityUpdate,
    SnapshotEvent, SnapshotStage,
};
use crate::retrieval::{RetrievalError, RetrievalWorkBudget};
use crate::text::{blank, optional_text, utf8_len};
use crate::time::Timestamp;

verus! {

/// An empty projection stands at nothing: version four, sequence zero, no event,
/// and the digest of no entries.
pub proof fn empty_projections_stand_at_nothing()
    ensures
        zero_checkpoint().schema_version == 4,
        zero_checkpoint().through_seq == 0,
        zero_checkpoint().through_event_id is None,
        zero_checkpoint().canonical_state_digest == sha256_of(
            text_frame("ditto.context-index.global.v1"@),
        ),
{
}

/// A checkpoint is anchored where the journal still has its event under both its
/// sequence and its identity, as one and the same; an empty one needs no event and
/// must name none.
pub proof fn anchors_are_found_both_ways(
    c: CheckpointModel,
    by_seq: Option<EventRecord>,
    by_id: Option<EventRecord>,
)
    ensures
        c.through_seq == 0 ==> (anchored(c, by_seq, by_id) <==> c.through_event_id is None),
        c.through_seq != 0 && anchored(c, by_seq, by_id) ==> by_seq is Some && by_id is Some
            && by_seq->0.seq == c.through_seq && by_id->0.seq == c.through_seq
            && c.through_event_id is Some && by_seq->0.event_id@ == c.through_event_id->0
            && by_id->0.event_id@ == c.through_event_id->0,
        c.through_seq != 0 && by_seq is Some && by_id is Some && by_seq->0.seq == c.through_seq
            && by_id->0.seq == c.through_seq && c.through_event_id is Some && by_seq->0.event_id@
            == c.through_event_id->0 && by_id->0.event_id@ == c.through_event_id->0 ==> anchored(
            c,
            by_seq,
            by_id,
        ),
{
}

/// A cache is the verified one where its checkpoint and its generation are those
/// that were verified.
pub proof fn verified_caches_keep_their_generation(
    source: Option<VerifiedGeneration>,
    cached: Option<ProjectionCheckpoint>,
    version: i64,
)
    ensures
        generation_matches(source, cached, version) ==> source is Some && cached is Some
            && source->0.checkpoint.through_seq == cached->0.through_seq
            && source->0.checkpoint.schema_version == cached->0.schema_version && optional_text(
            source->0.checkpoint.through_event_id,
        ) == optional_text(cached->0.through_event_id)
            && source->0.checkpoint.canonical_state_digest@ == cached->0.canonical_state_digest@
            && source->0.sqlite_data_version == version,
        source is Some && cached is Some && source->0.checkpoint@ == cached->0@
            && source->0.sqlite_data_version == version ==> generation_matches(
            source,
            cached,
            version,
        ),
{
}

/// The index is asked only at its high-water: one that stands elsewhere, or whose
/// anchor is gone, is refused; an empty one and a verified one are ready, and any
/// other is rebuilt.
pub proof fn indexes_are_asked_where_they_stand(
    c: CheckpointModel,
    high_water: i64,
    anchor: bool,
    verified: bool,
)
    ensures
        readiness(c, high_water, anchor, verified) is Ok <==> c.through_seq == high_water && anchor,
        readiness(c, high_water, anchor, verified) is Err ==> readiness(
            c,
            high_water,
            anchor,
            verified,
        )->Err_0 == (ContextProjectionError::ProjectionNotSynchronized {
            checkpoint: c.through_seq,
            high_water,
        }),
        c.through_seq == high_water && anchor && verified ==> readiness(
            c,
            high_water,
            anchor,
            verified,
        )->Ok_0 == IndexReadiness::Ready,
        c.through_seq == high_water && anchor && !verified && (high_water != 0
            || c.canonical_state_digest != zero_checkpoint().canonical_state_digest) ==> readiness(
            c,
            high_water,
            anchor,
            verified,
        )->Ok_0 == IndexReadiness::Rebuild,
        high_water == 0 && anchor && c == zero_checkpoint() ==> readiness(
            c,
            high_water,
            anchor,
            verified,
        )->Ok_0 == IndexReadiness::Ready,
{
}

/// A committed page moves the checkpoint and the cursor to its last event, under
/// version four, and changes nothing else.
pub proof fn committed_pages_move_the_checkpoint(
    m: CatchUpModel,
    seq: i64,
    event_id: Seq<char>,
    digest: Seq<u8>,
)
    ensures
        committed(m, seq, event_id, digest) == (CatchUpModel {
            checkpoint: CheckpointModel {
                schema_version: 4,
                through_seq: seq,
                through_event_id: Some(event_id),
                canonical_state_digest: digest,
            },
            cursor: seq,
            ..m
        }),
{
}

/// A synchronization starts only at a high-water that the journal has, and not
/// behind what the cache has reached. A cache of another version, without its
/// anchor, or ahead of the journal is emptied first. Nothing is replayed that was
/// verified, and a delta on a changed cache at the verified checkpoint is checked
/// first.
pub proof fn synchronizations_start_where_they_may(
    high_water: i64,
    available: i64,
    source_verified: bool,
    source: Option<CheckpointModel>,
    already_rebuilt: bool,
    cache: CacheState,
    r: Result<Synchronization, ContextProjectionError>,
)
    requires
        start_outcome(
            high_water,
            available,
            source_verified,
            source,
            already_rebuilt,
            cache,
            r,
        ),
    ensures
        high_water < 0 || high_water > available <==> (r is Err && r->Err_0 is HighWaterAhead),
        r is Err ==> r->Err_0 is HighWaterAhead || r->Err_0 is HighWaterBehindCheckpoint,
        r matches Err(ContextProjectionError::HighWaterBehindCheckpoint { requested, checkpoint })
            ==> requested == high_water && cache.checkpoint is Some && checkpoint
            == cache.checkpoint->0.through_seq && high_water < checkpoint,
        r is Ok ==> r->Ok_0.high_water == high_water && r->Ok_0.source_verified == source_verified
            && r->Ok_0.rebuilt == already_rebuilt && r->Ok_0.work == no_work(),
        r is Ok && (!cache.schema_current || !cache.anchor_matches || cache.checkpoint is None
            || cache.checkpoint->0.schema_version != 4 || cache.checkpoint->0.through_seq
            > available) ==> r->Ok_0.stage == SyncStage::ResettingAtStart,
        r is Ok && cache.schema_current && cache.anchor_matches && cache.checkpoint is Some
            && cache.checkpoint->0.schema_version == 4 && cache.checkpoint->0.through_seq
            <= available ==> {
            let c = cache.checkpoint->0;
            &&& r->Ok_0.checkpoint@ == c@
            &&& c.through_seq <= high_water
            &&& r->Ok_0.stage == SyncStage::Prevalidating <==> c.through_seq < high_water
                && !source_verified && source == Some(c@)
            &&& r->Ok_0.stage != SyncStage::Prevalidating ==> r->Ok_0.stage
                == SyncStage::CatchingUp
            &&& r->Ok_0.recovery == (r->Ok_0.stage == SyncStage::Prevalidating)
            &&& c.through_seq > 0 ==> r->Ok_0.mode == CatchUpMode::VerifiedDelta
            &&& c.through_seq == 0 && !already_rebuilt && source_verified ==> r->Ok_0.mode
                == CatchUpMode::VerifiedDelta
            &&& c.through_seq == 0 && (already_rebuilt || !source_verified) ==> r->Ok_0.mode
                == CatchUpMode::FullReplay
        },
{
}

/// A synchronization takes only what it waits for. Emptying the cache leaves
/// nothing in it; validating comes before recovering, and recovering before
/// catching up; a cache that diverges is emptied and replayed once, and where it
/// was rebuilt before, or diverges again, the synchronization ends without success.
pub proof fn synchronizations_take_what_they_wait_for(
    m: SyncModel,
    event: SyncEvent,
    zero_is_source: bool,
)
    ensures
        ({
            let next = after_event(m, event, zero_is_source);
            &&& m.stage == SyncStage::Finished || m.stage == SyncStage::Diverged ==> next is None
            &&& event is CacheReset && next is Some ==> m.stage == SyncStage::ResettingAtStart
                || m.stage == SyncStage::ResettingAfterRecovery || m.stage
                == SyncStage::ResettingForRepair
            &&& event is CacheReset && next is Some ==> next->0.rebuilt
                && next->0.checkpoint.through_seq == 0 && next->0.checkpoint.through_event_id
                is None
            &&& event is CacheReset && next is Some && m.stage != SyncStage::ResettingAtStart
                ==> next->0.mode == CatchUpMode::FullReplay
            &&& m.stage == SyncStage::ResettingAtStart && event is CacheReset ==> next is Some
                && next->0.mode == CatchUpMode::FullReplay && (next->0.stage
                == SyncStage::Prevalidating <==> 0 < m.high_water && !m.source_verified
                && zero_is_source)
            &&& m.stage == SyncStage::Prevalidating && event is DeltaValidated ==> next is Some
                && next->0.stage == SyncStage::Recovering && next->0.checkpoint == m.checkpoint
            &&& next is Some && next->0.stage == SyncStage::Recovering ==> m.stage
                == SyncStage::Prevalidating && event is DeltaValidated
            &&& m.stage == SyncStage::Recovering && event == SyncEvent::Recovery(true) ==> next
                is Some && next->0.stage == SyncStage::CatchingUp && next->0.checkpoint
                == m.checkpoint && next->0.mode == m.mode
            &&& m.stage == SyncStage::Recovering && event == SyncEvent::Recovery(false) ==> next
                is Some && next->0.stage == SyncStage::ResettingAfterRecovery
            &&& m.stage == SyncStage::ResettingAfterRecovery && event is CacheReset ==> next is Some
                && next->0.stage == SyncStage::CatchingUp && !next->0.recovery
            &&& next is Some && next->0.stage == SyncStage::Finished ==> event is CaughtUp && (
            m.stage == SyncStage::CatchingUp || m.stage == SyncStage::Replaying)
                && next->0.checkpoint == event->checkpoint@ && next->0.work == event->work
                && next->0.rebuilt == m.rebuilt
            &&& (m.stage == SyncStage::CatchingUp || m.stage == SyncStage::Replaying) && event
                is CaughtUp ==> next is Some && next->0.stage == SyncStage::Finished
            &&& m.stage == SyncStage::CatchingUp && event is CacheDiverged ==> next is Some && (
            if m.rebuilt {
                next->0.stage == SyncStage::Diverged
            } else {
                next->0.stage == SyncStage::ResettingForRepair
            })
            &&& m.stage == SyncStage::ResettingForRepair && event is CacheReset ==> next is Some
                && next->0.stage == SyncStage::Replaying
            &&& m.stage == SyncStage::Replaying && event is CacheDiverged ==> next is Some
                && next->0.stage == SyncStage::Diverged
            &&& next is Some ==> next->0.high_water == m.high_water && next->0.source_verified
                == m.source_verified
        }),
{
}

/// A finished synchronization reports what it did: its high-water, its checkpoint,
/// whether it rebuilt, and whether it recovered without rebuilding.
pub proof fn finished_synchronizations_report_what_they_did(m: SyncModel, r: ProjectionSync)
    requires
        finish_outcome(m, r),
    ensures
        r.captured_high_water == m.high_water,
        r.checkpoint@ == m.checkpoint,
        r.rebuilt == m.rebuilt,
        r.rebuilt ==> !r.source_index_recovery,
        r.source_index_recovery ==> m.recovery,
        m.recovery && !m.rebuilt ==> r.source_index_recovery,
{
}

/// After synchronizing, a rebuilt cache is verified as a whole, and counted as a
/// repair exactly where it had been verified before; so is one that started empty
/// and unverified, but that is no repair. A verified cache is extended, a changed
/// one recovered, and any other left as it is.
pub proof fn verification_follows_what_was_done(
    rebuilt: bool,
    recovery: bool,
    verified: bool,
    before: Option<i64>,
    through_seq: i64,
    from_zero: bool,
)
    ensures
        ({
            let u = update_for(rebuilt, recovery, verified, before, through_seq, from_zero);
            &&& u is Verify <==> rebuilt || (from_zero && !verified)
            &&& u is Verify ==> u->cache_repair == (rebuilt && verified)
            &&& u is Extend <==> !rebuilt && verified
            &&& u is Extend ==> (u->advanced <==> before is None || before->0 < through_seq)
            &&& u == VerificationUpdate::Recover <==> !rebuilt && !verified && !from_zero
                && recovery
        }),
{
}

/// The counters add up what was done: a full replay counts its events apart from
/// those of a delta, and a delta also its bytes and its work; a verification counts
/// as a replay or a repair where it was one. The other counters stay.
pub proof fn counters_add_up(
    m: ProjectionVerificationMetrics,
    work: CatchUpWork,
    replay: bool,
    repair: bool,
)
    requires
        m.full_replay_events + work.events <= u64::MAX,
        m.delta_events + work.events <= u64::MAX,
        m.delta_context_payload_bytes + work.context_payload_bytes <= u64::MAX,
        m.delta_verification_work + work.verification_work <= u64::MAX,
        m.full_replays < u64::MAX,
        m.cache_repairs < u64::MAX,
    ensures
        m.caught_up(CatchUpMode::FullReplay, work) == (ProjectionVerificationMetrics {
            full_replay_events: (m.full_replay_events + work.events) as u64,
            ..m
        }),
        m.caught_up(CatchUpMode::VerifiedDelta, work) == (ProjectionVerificationMetrics {
            delta_events: (m.delta_events + work.events) as u64,
            delta_context_payload_bytes: (m.delta_context_payload_bytes
                + work.context_payload_bytes) as u64,
            delta_verification_work: (m.delta_verification_work + work.verification_work) as u64,
            ..m
        }),
        m.verified(replay, repair).full_replays == m.full_replays + if replay {
            1int
        } else {
            0
        },
        m.verified(replay, repair).cache_repairs == m.cache_repairs + if repair {
            1int
        } else {
            0
        },
        m.verified(replay, repair).delta_events == m.delta_events,
        m.verified(replay, repair).full_replay_events == m.full_replay_events,
        m.verified(replay, repair).fast_snapshots == m.fast_snapshots,
        m.verified(replay, repair).delta_synchronizations == m.delta_synchronizations,
        m.verified(replay, repair).admission_index_lookups == m.admission_index_lookups,
{
}

/// A stored row is sound where its text reads as a durable node of the identity it
/// is stored under, in a scope that fits its session and task.
pub proof fn sound_rows_hold_their_nodes(raw: RawProjectedRow)
    ensures
        row_sound(raw) <==> {
            &&& raw.parsed is Ok
            &&& raw.parsed->Ok_0@.id == raw.node_id@
            &&& durable(raw.parsed->Ok_0@)
            &&& !blank(raw.session_id@)
            &&& (raw.task_id is None && raw.parsed->Ok_0.scope == ContextScope::Session) || (
            raw.task_id is Some && !blank(raw.task_id->0@) && raw.parsed->Ok_0.scope
                == ContextScope::Task)
        },
{
}

proof fn lemma_kept(rows: Seq<RawProjectedRow>, i: int)
    requires
        0 <= i < rows.len(),
        !rows[i].superseded,
    ensures
        unsuperseded(rows).contains(rows[i].parsed->Ok_0@),
    decreases rows.len(),
{
    let rest = rows.drop_last();
    let whole = unsuperseded(rows);
    if i == rows.len() - 1 {
        assert(whole[whole.len() - 1] == rows[i].parsed->Ok_0@);
    } else {
        assert(rest[i] == rows[i]);
        lemma_kept(rest, i);
        let k = choose|k: int|
            0 <= k < unsuperseded(rest).len() && unsuperseded(rest)[k] == rows[i].parsed->Ok_0@;
        assert(whole[k] == rows[i].parsed->Ok_0@);
    }
}

proof fn lemma_kept_origin(rows: Seq<RawProjectedRow>, k: int) -> (i: int)
    requires
        0 <= k < unsuperseded(rows).len(),
    ensures
        0 <= i < rows.len(),
        !rows[i].superseded,
        unsuperseded(rows)[k] == rows[i].parsed->Ok_0@,
        k <= i,
    decreases rows.len(),
{
    let rest = rows.drop_last();
    if k < unsuperseded(rest).len() {
        let i = lemma_kept_origin(rest, k);
        assert(rest[i] == rows[i]);
        i
    } else {
        lemma_kept_len(rest);
        rows.len() - 1
    }
}

proof fn lemma_kept_len(rows: Seq<RawProjectedRow>)
    ensures
        unsuperseded(rows).len() <= rows.len(),
    decreases rows.len(),
{
    if rows.len() > 0 {
        lemma_kept_len(rows.drop_last());
    }
}

/// A snapshot copies every sound row that nothing supersedes, and no other node;
/// it looks at no more than 10,000 rows, counts them all, and keeps the checkpoint
/// it was taken at.
pub proof fn snapshots_copy_what_nothing_supersedes(
    checkpoint: CheckpointModel,
    rows: Seq<RawProjectedRow>,
    snapshot: DerivedContextSnapshot,
    i: int,
    k: int,
)
    requires
        snapshot_outcome(checkpoint, rows, Ok(snapshot)),
    ensures
        rows.len() <= 10_000,
        snapshot@.checkpoint == checkpoint,
        snapshot@.scanned_rows == rows.len(),
        0 <= i < rows.len() ==> row_sound(rows[i]),
        0 <= i < rows.len() && !rows[i].superseded ==> snapshot@.candidates.contains(
            rows[i].parsed->Ok_0@,
        ),
        0 <= k < snapshot@.candidates.len() ==> exists|j: int|
            0 <= j < rows.len() && !(#[trigger] rows[j]).superseded && rows[j].parsed->Ok_0@
                == snapshot@.candidates[k],
        snapshot@.candidates.len() <= rows.len(),
{
    lemma_kept_len(rows);
    if 0 <= i < rows.len() && !rows[i].superseded {
        lemma_kept(rows, i);
    }
    if 0 <= k < snapshot@.candidates.len() {
        let j = lemma_kept_origin(rows, k);
        assert(!rows[j].superseded);
    }
}

/// A snapshot is refused only for too many rows or for a row that is not sound.
pub proof fn snapshots_are_refused_for_cause(
    checkpoint: CheckpointModel,
    rows: Seq<RawProjectedRow>,
    r: Result<DerivedContextSnapshot, ContextProjectionError>,
)
    requires
        snapshot_outcome(checkpoint, rows, r),
    ensures
        r is Ok <==> rows.len() <= 10_000 && forall|i: int|
            0 <= i < rows.len() ==> row_sound(#[trigger] rows[i]),
        rows.len() > 10_000 ==> r is Err && r->Err_0 == (ContextProjectionError::Retrieval(
            RetrievalError::CandidateCountExceeded { actual: 10_001, maximum: 10_000 },
        )),
{
    if let Err(e) = r {
        if rows.len() <= 10_000 {
            let i = choose|i: int| #[trigger] reports_unsound_row(e, rows, i);
            assert(!row_sound(rows[i]));
        }
    }
}

/// The bytes of the first `k` texts.
pub open spec fn texts_sum(rows: Seq<RawProjectedRow>, k: int) -> int
    decreases k,
{
    if k <= 0 {
        0
    } else {
        texts_sum(rows, k - 1) + utf8_len(rows[k - 1].node_json@)
    }
}

proof fn lemma_charged_rows(
    rows: Seq<RawProjectedRow>,
    now: Timestamp,
    budget: RetrievalWorkBudget,
    k: int,
)
    requires
        0 <= k <= rows.len(),
        budget.max_candidate_bytes < usize::MAX,
        forall|i: int| 0 <= i < rows.len() ==> utf8_len((#[trigger] rows[i]).node_json@)
            <= usize::MAX,
        forall|i: int| 0 <= i < k ==> #[trigger] active_row_fine(rows, now, budget, i),
    ensures
        budget_after_rows(rows, k, budget).candidate_bytes == budget.candidate_bytes + texts_sum(
            rows,
            k,
        ),
        budget_after_rows(rows, k, budget) == (RetrievalWorkBudget {
            candidate_bytes: budget_after_rows(rows, k, budget).candidate_bytes,
            ..budget
        }),
        k > 0 ==> budget_after_rows(rows, k, budget).candidate_bytes <= budget.max_candidate_bytes,
    decreases k,
{
    if k > 0 {
        lemma_charged_rows(rows, now, budget, k - 1);
        assert(active_row_fine(rows, now, budget, k - 1));
    }
}

/// An active snapshot copies its rows one for one, each sound, not superseded and
/// active at the time, at most 10,000 of them, and is charged the bytes of their
/// texts.
pub proof fn active_snapshots_copy_active_rows(
    checkpoint: CheckpointModel,
    rows: Seq<RawProjectedRow>,
    now: Timestamp,
    budget: RetrievalWorkBudget,
    left: RetrievalWorkBudget,
    snapshot: DerivedContextSnapshot,
    i: int,
)
    requires
        active_outcome(checkpoint, rows, now, budget, left, Ok(snapshot)),
        budget.max_candidate_bytes < usize::MAX,
        forall|i: int| 0 <= i < rows.len() ==> utf8_len((#[trigger] rows[i]).node_json@)
            <= usize::MAX,
    ensures
        rows.len() <= 10_000,
        snapshot@.checkpoint == checkpoint,
        snapshot@.scanned_rows == rows.len(),
        snapshot@.candidates.len() == rows.len(),
        0 <= i < rows.len() ==> snapshot@.candidates[i] == rows[i].parsed->Ok_0@ && row_sound(
            rows[i],
        ) && !rows[i].superseded && rows[i].parsed->Ok_0@.active_at(now),
        left.candidate_bytes == budget.candidate_bytes + texts_sum(rows, rows.len() as int),
        rows.len() > 0 ==> left.candidate_bytes <= budget.max_candidate_bytes,
        left.document_bytes == budget.document_bytes,
        left.lexical_bytes == budget.lexical_bytes,
{
    lemma_charged_rows(rows, now, budget, rows.len() as int);
    if rows.len() > 0 {
        assert(active_row_fine(rows, now, budget, rows.len() - 1));
    }
    if 0 <= i < rows.len() {
        assert(active_row_fine(rows, now, budget, i));
    }
}

/// Where taking a verified snapshot starts and how it goes on. Each copy is
/// compared with what was verified; where that fails, the cache is rebuilt once,
/// and compared and copied again. A second failure ends without a snapshot.
pub proof fn verified_snapshots_are_compared(
    cache_verified: bool,
    at_source: bool,
    had: bool,
    stage: SnapshotStage,
    rebuilt: bool,
    event: SnapshotEvent,
)
    ensures
        cache_verified ==> first_stage(cache_verified, at_source, had) == (
        SnapshotStage::Synchronizing { verified: true }),
        !cache_verified && at_source ==> first_stage(cache_verified, at_source, had) == (
        SnapshotStage::Synchronizing { verified: false }),
        !cache_verified && !at_source ==> first_stage(cache_verified, at_source, had) == (
        SnapshotStage::Rebuilding { cache_repair: had }),
        ({
            let next = after_snapshot_event(stage, rebuilt, event);
            &&& stage == SnapshotStage::Done || stage == SnapshotStage::Failed || stage
                == SnapshotStage::Capturing || stage == SnapshotStage::CapturingAgain ==> next
                is None
            &&& stage is Synchronizing && event == (SnapshotEvent::Synchronized { rebuilt: true })
                ==> next == Some((SnapshotStage::VerifyingRebuild, rebuilt))
            &&& stage == (SnapshotStage::Synchronizing { verified: true }) && event == (
            SnapshotEvent::Synchronized { rebuilt: false }) ==> next == Some(
                (SnapshotStage::ExtendingVerification, rebuilt),
            )
            &&& stage == (SnapshotStage::Synchronizing { verified: false }) && event == (
            SnapshotEvent::Synchronized { rebuilt: false }) ==> next == Some(
                (SnapshotStage::Recovering, rebuilt),
            )
            &&& stage == SnapshotStage::Recovering && event == SnapshotEvent::Recovery(false)
                ==> next is Some && (next->0).0 is Rebuilding
            &&& stage == SnapshotStage::Recovering && event == SnapshotEvent::Recovery(true) ==> next
                == Some((SnapshotStage::Checking, rebuilt))
            &&& next is Some && (next->0).0 == SnapshotStage::Capturing ==> (stage
                == SnapshotStage::Checking && event == SnapshotEvent::Compared(true)) || (stage
                == SnapshotStage::RebuildingAfterCheck && event == SnapshotEvent::Rebuilt)
            &&& stage == SnapshotStage::Checking && event == SnapshotEvent::Compared(true) ==> next
                == Some((SnapshotStage::Capturing, rebuilt))
            &&& next is Some && (next->0).0 == SnapshotStage::Done ==> stage
                == SnapshotStage::CheckingCapture && event == SnapshotEvent::Compared(true)
            &&& stage == SnapshotStage::CheckingCapture && event == SnapshotEvent::Compared(true)
                ==> next == Some((SnapshotStage::Done, rebuilt))
            &&& next is Some && (next->0).0 == SnapshotStage::CapturingAgain ==> stage
                == SnapshotStage::CheckingRebuild && event == SnapshotEvent::Compared(true)
            &&& event == SnapshotEvent::Compared(false) && next is Some && rebuilt ==> (next->0).0
                == SnapshotStage::Failed
            &&& event == SnapshotEvent::Compared(false) && stage == SnapshotStage::CheckingRebuild
                ==> next is Some && (next->0).0 == SnapshotStage::Failed
            &&& event == SnapshotEvent::Compared(false) && !rebuilt && stage
                == SnapshotStage::Checking ==> next == Some(
                (SnapshotStage::RebuildingAfterCheck, rebuilt),
            )
            &&& event == SnapshotEvent::Compared(false) && !rebuilt && stage
                == SnapshotStage::CheckingCapture ==> next == Some(
                (SnapshotStage::RebuildingAfterCapture, rebuilt),
            )
            &&& event == SnapshotEvent::Rebuilt && next is Some ==> (next->0).1
            &&& stage == SnapshotStage::VerifyingRebuild && event == SnapshotEvent::Recorded ==> next
                == Some((SnapshotStage::Checking, true))
            &&& stage == SnapshotStage::ExtendingVerification && event == SnapshotEvent::Recorded
                ==> next == Some((SnapshotStage::Checking, rebuilt))
        }),
{
}

/// A high-water lies beyond what was verified where nothing was, or less far.
pub proof fn what_is_beyond(before: Option<i64>, high_water: i64)
    ensures
        before is None ==> beyond(before, high_water),
        before is Some ==> (beyond(before, high_water) <==> before->0 < high_water),
{
}

/// A delta adds its identities to those before it and changes none of them: after
/// the updates, a node is recorded where the last update of it says, or else where
/// it was before. No update may record again what is recorded.
pub proof fn updates_add_identities(
    index: IdentityIndex,
    updates: Seq<IdentityUpdate>,
    k: nat,
    i: int,
    session: Seq<char>,
    node: Seq<char>,
)
    requires
        k <= updates.len(),
    ensures
        (forall|j: int|
            0 <= j < k ==> !((#[trigger] updates[j]).session_id@ == session && updates[j].node_id@
                == node)) ==> updated_at(index, updates, k, session, node) == index.at(
            session,
            node,
        ),
        0 <= i < k && (forall|j: int| 0 <= j < k ==> !#[trigger] update_repeats(index, updates, j))
            ==> updated_at(index, updates, k, updates[i].session_id@, updates[i].node_id@) == Some(
            updates[i].identity@,
        ) && index.at(updates[i].session_id@, updates[i].node_id@) is None,
    decreases k,
{
    if k > 0 {
        updates_add_identities(index, updates, (k - 1) as nat, i, session, node);
        if 0 <= i < k && (forall|j: int|
            0 <= j < k ==> !#[trigger] update_repeats(index, updates, j)) {
            let (s, n) = (updates[i].session_id@, updates[i].node_id@);
            assert(!update_repeats(index, updates, k - 1));
            if i == k - 1 {
                lemma_updates_keep(index, updates, (k - 1) as nat, s, n);
            } else if updates[k - 1].session_id@ == s && updates[k - 1].node_id@ == n {
                assert(updated_at(index, updates, (k - 1) as nat, s, n) is Some);
            }
        }
    }
}

proof fn lemma_updates_keep(
    index: IdentityIndex,
    updates: Seq<IdentityUpdate>,
    k: nat,
    s: Seq<char>,
    n: Seq<char>,
)
    requires
        updated_at(index, updates, k, s, n) is None,
    ensures
        index.at(s, n) is None,
    decreases k,
{
    if k > 0 {
        lemma_updates_keep(index, updates, (k - 1) as nat, s, n);
    }
}

/// An identity is found in the entries exactly where an entry records it, and the
/// answer is what that entry says.
pub proof fn identities_are_found_in_their_entries(
    rows: Seq<RawSessionIndexEntry>,
    session: Seq<char>,
    node: Seq<char>,
)
    ensures
        identity_in(rows, session, node) is Some <==> exists|i: int|
            0 <= i < rows.len() && (#[trigger] rows[i]).session_id@ == session && rows[i].node_id@
                == node,
        identity_in(rows, session, node) matches Some(found) ==> exists|i: int|
            0 <= i < rows.len() && (#[trigger] rows[i]).session_id@ == session && rows[i].node_id@
                == node && found.event_seq == rows[i].event_seq && found.event_id
                == rows[i].event_id@ && found.task_id == optional_text(rows[i].task_id),
    decreases rows.len(),
{
    if rows.len() > 0 {
        let rest = rows.drop_last();
        identities_are_found_in_their_entries(rest, session, node);
        let last = rows.len() - 1;
        assert(rows[last] == rows.last());
        if rows.last().session_id@ == session && rows.last().node_id@ == node {
            assert(rows[last].session_id@ == session);
        } else {
            if identity_in(rest, session, node) is Some {
                let i = choose|i: int|
                    0 <= i < rest.len() && (#[trigger] rest[i]).session_id@ == session
                        && rest[i].node_id@ == node && identity_in(
                        rest,
                        session,
                        node,
                    )->0.event_seq == rest[i].event_seq && identity_in(
                        rest,
                        session,
                        node,
                    )->0.event_id == rest[i].event_id@ && identity_in(
                        rest,
                        session,
                        node,
                    )->0.task_id == optional_text(rest[i].task_id);
                assert(rows[i] == rest[i]);
            }
            if exists|i: int|
                0 <= i < rows.len() && (#[trigger] rows[i]).session_id@ == session
                    && rows[i].node_id@ == node {
                let i = choose|i: int|
                    0 <= i < rows.len() && (#[trigger] rows[i]).session_id@ == session
                        && rows[i].node_id@ == node;
                assert(rest[i] == rows[i]);
            }
        }
    }
}

/// A loaded index is that of verified entries: none records what another does, each
/// session's entries ascend, the digest over all is the checkpoint's, there are as
/// many as there are stored nodes, and it answers from them.
pub proof fn loaded_indexes_answer_from_verified_entries(
    rows: Seq<RawSessionIndexEntry>,
    digest: Seq<u8>,
    through_seq: i64,
    projected_count: i64,
    stored: Seq<RawSessionIndexState>,
    index: IdentityIndex,
    i: int,
    j: int,
)
    requires
        load_outcome(rows, digest, through_seq, projected_count, stored, Ok(index)),
    ensures
        0 <= i < rows.len() ==> rows[i].verified(),
        0 <= i < j < rows.len() ==> !(rows[i].session_id@ == rows[j].session_id@ && rows[i].node_id@
            == rows[j].node_id@),
        0 <= i < j < rows.len() && rows[i].session_id@ == rows[j].session_id@ ==> rows[i].event_seq
            < rows[j].event_seq,
        digest == index_digest(rows),
        projected_count == rows.len(),
        index.size() == rows.len(),
        0 <= i < rows.len() ==> index.at(rows[i].session_id@, rows[i].node_id@) is Some,
{
    if 0 <= i < rows.len() {
        assert(row_fine(rows, i));
        identities_are_found_in_their_entries(rows, rows[i].session_id@, rows[i].node_id@);
        assert(rows[i].session_id@ == rows[i].session_id@);
    }
    if 0 <= i < j < rows.len() {
        assert(row_fine(rows, j));
        identities_are_found_in_their_entries(
            rows.take(j),
            rows[j].session_id@,
            rows[j].node_id@,
        );
        assert(rows.take(j)[i] == rows[i]);
        lemma_sessions_ascend(rows, j, i);
    }
}

proof fn lemma_sessions_ascend(rows: Seq<RawSessionIndexEntry>, p: int, i: int)
    requires
        0 <= i < p <= rows.len(),
        rows_fine(rows),
    ensures
        session_state(rows.take(p), rows[i].session_id@) is Some,
        session_state(rows.take(p), rows[i].session_id@)->0.through_seq >= rows[i].event_seq,
    decreases p,
{
    assert(rows.take(p).drop_last() =~= rows.take(p - 1));
    assert(rows.take(p).last() == rows[p - 1]);
    assert(row_fine(rows, p - 1));
    if i < p - 1 {
        lemma_sessions_ascend(rows, p - 1, i);
    }
}

/// A scan selects the recorded nodes of its session that belong to no task, or to
/// the task it was asked for, and no others.
pub proof fn scans_select_their_scope(event: EventRecord, task_id: Option<Seq<char>>)
    ensures
        selected(event, task_id) ==> event.kind@ == "context.node.recorded"@,
        event.kind@ == "context.node.recorded"@ && event.task_id is None ==> selected(
            event,
            task_id,
        ),
        event.kind@ == "context.node.recorded"@ && event.task_id is Some && task_id == Some(
            event.task_id->0@,
        ) ==> selected(event, task_id),
        event.task_id is Some && task_id is None ==> !selected(event, task_id),
        event.task_id is Some && task_id is Some && event.task_id->0@ != task_id->0 ==> !selected(
            event,
            task_id,
        ),
{
}

/// A node is added to the view under its own identity, once, up to 10,000 nodes;
/// the rows of all other nodes stay as they were.
pub proof fn views_add_each_node_once(
    event: EventRecord,
    v: ValidatedRecordedNode,
    json: Seq<char>,
    session_id: Seq<char>,
    before: CanonicalAdmissionView,
    after: CanonicalAdmissionView,
    r: Result<(), ContextProjectionError>,
    other: Seq<char>,
)
    requires
        addition_outcome(event, v, json, session_id, before, after, r),
    ensures
        r is Ok <==> before.size() < 10_000 && before.row(v.node@.id) is None,
        r is Ok ==> after.size() == before.size() + 1 && after.row(v.node@.id) is Some,
        r is Ok ==> ({
            let row = after.row(v.node@.id)->0;
            &&& row.event_seq == event.seq
            &&& row.event_id == event.event_id@
            &&& row.task_id == optional_text(v.task_id)
            &&& row.node_digest == sha256_of(encode_utf8(json))
            &&& row.outgoing_edge_count == v.node@.supersedes.len()
        }),
        other != v.node@.id ==> after.row(other) == before.row(other),
        r is Err ==> after == before,
        r matches Err(ContextProjectionError::DuplicateNodeIdentity {
            session_id: s,
            node_id,
            event_id,
            seq,
        }) ==> s@ == session_id && node_id@ == v.node@.id && before.row(v.node@.id) is Some
            && event_id@ == before.row(v.node@.id)->0.event_id && seq == before.row(
            v.node@.id,
        )->0.event_seq,
{
}

/// A comparison hands out a snapshot only where the cache agrees with the journal:
/// same checkpoint, as many rows as the journal defines and at most 10,000, each of
/// them the journal's own by task, event and text, and sound.
pub proof fn compared_caches_agree_with_the_journal(
    view: CanonicalAdmissionView,
    cached: Option<ProjectionCheckpoint>,
    expected: ProjectionCheckpoint,
    task_id: Option<Seq<char>>,
    edges: Seq<CachedEdgeModel>,
    rows: Seq<RawProjectedRow>,
    snapshot: DerivedContextSnapshot,
    i: int,
)
    requires
        comparison_outcome(view, cached, expected, task_id, edges, rows, Ok(Some(snapshot))),
    ensures
        cached is Some && cached->0@ == expected@,
        rows.len() <= 10_000,
        rows.len() == view.size(),
        snapshot@.checkpoint == expected@,
        snapshot@.scanned_rows == rows.len(),
        snapshot@.candidates == unsuperseded(rows),
        relevant_edges(view, task_id, edges).len() == view.edge_total(),
        0 <= i < rows.len() ==> {
            let raw = rows[i];
            let row = view.row(raw.node_id@);
            &&& row is Some
            &&& raw.event_seq == row->0.event_seq
            &&& raw.event_id@ == row->0.event_id
            &&& optional_text(raw.task_id) == row->0.task_id
            &&& sha256_of(encode_utf8(raw.node_json@)) == row->0.node_digest
            &&& raw.parsed is Ok
            &&& raw.parsed->Ok_0@.id == raw.node_id@
            &&& durable(raw.parsed->Ok_0@)
        },
{
    if 0 <= i < rows.len() {
        assert(row_verified(view, relevant_edges(view, task_id, edges), rows, i));
    }
}

/// An edge concerns a scope where it is of no task, of the task asked for, or
/// touches a node of the view.
pub proof fn edges_concern_the_scope_they_touch(
    view: CanonicalAdmissionView,
    task_id: Option<Seq<char>>,
    e: CachedEdgeModel,
)
    ensures
        relevant_edge(view, task_id, e) <==> e.task_key.len() == 0 || task_id == Some(e.task_key)
            || view.row(e.superseding) is Some || view.row(e.superseded) is Some,
{
}

} // verus!
