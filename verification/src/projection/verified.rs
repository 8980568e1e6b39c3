//! Deciding how a source-verified snapshot is taken.
//!
//! The machine synchronizes or rebuilds, takes the snapshot, and hands it out
//! only if the cache was still the verified one; it rebuilds at most once.

use vstd::prelude::*;

use crate::projection::checkpoint::{CheckpointModel, ProjectionCheckpoint};
use crate::projection::error::ContextProjectionError;
use crate::projection::identity::{IdentityIndex, IdentityModel, SessionIndexIdentity};
use crate::projection::snapshot::{
    active_outcome, capture_active_snapshot, DerivedContextSnapshot, RawProjectedRow,
    SnapshotModel, VerifiedContextSnapshot,
};
use crate::retrieval::RetrievalWorkBudget;
use crate::text::joined3;
use crate::time::Timestamp;

verus! {

/// Where taking a snapshot stands.
#[derive(Debug, Clone, Copy, PartialEq, Eq, Structural)]
pub enum SnapshotStage {
    /// Synchronize. Where `verified`, the cache is the verified one; otherwise
    /// it changed at the verified checkpoint.
    Synchronizing { verified: bool },
    /// Verify the rebuilt cache as a whole.
    VerifyingRebuild,
    /// Add the delta to what was verified.
    ExtendingVerification,
    /// Recover the verification from the cache.
    Recovering,
    /// Rebuild, then go on.
    Rebuilding { cache_repair: bool },
    /// Compare the cache with what was verified.
    Checking,
    /// Rebuild after the comparison failed.
    RebuildingAfterCheck,
    /// Copy the active rows.
    Capturing,
    /// Compare the cache with what was verified, once more.
    CheckingCapture,
    /// Rebuild after the second comparison failed.
    RebuildingAfterCapture,
    /// Compare the rebuilt cache.
    CheckingRebuild,
    /// Copy the active rows again.
    CapturingAgain,
    /// The cache keeps disagreeing with the journal.
    Failed,
    /// The snapshot is taken.
    Done,
}

/// What came of the last action, apart from copied rows.
#[derive(Debug, Clone, Copy, PartialEq, Eq, Structural)]
pub enum SnapshotEvent {
    /// Synchronized; whether the cache was rebuilt for it.
    Synchronized { rebuilt: bool },
    /// The verification was recorded.
    Recorded,
    /// Whether the verification could be recovered.
    Recovery(bool),
    /// The cache was rebuilt and verified.
    Rebuilt,
    /// Whether the cache is the verified one.
    Compared(bool),
}

/// How far along a stage is.
pub open spec fn advance_rank(stage: SnapshotStage) -> nat {
    match stage {
        SnapshotStage::Synchronizing { .. } => 0,
        SnapshotStage::VerifyingRebuild => 1,
        SnapshotStage::ExtendingVerification => 1,
        SnapshotStage::Recovering => 1,
        SnapshotStage::Rebuilding { .. } => 2,
        SnapshotStage::Checking => 3,
        SnapshotStage::RebuildingAfterCheck => 4,
        SnapshotStage::Capturing => 5,
        SnapshotStage::CheckingCapture => 6,
        SnapshotStage::RebuildingAfterCapture => 7,
        SnapshotStage::CheckingRebuild => 8,
        SnapshotStage::CapturingAgain => 9,
        SnapshotStage::Failed => 10,
        SnapshotStage::Done => 10,
    }
}

/// The stage after an event and whether the cache has been rebuilt by then.
pub open spec fn after_snapshot_event(
    stage: SnapshotStage,
    rebuilt: bool,
    event: SnapshotEvent,
) -> Option<(SnapshotStage, bool)> {
    match (stage, event) {
        (SnapshotStage::Synchronizing { verified }, SnapshotEvent::Synchronized { rebuilt: r }) =>
        Some(
            if r {
                (SnapshotStage::VerifyingRebuild, rebuilt)
            } else if verified {
                (SnapshotStage::ExtendingVerification, rebuilt)
            } else {
                (SnapshotStage::Recovering, rebuilt)
            },
        ),
        (SnapshotStage::VerifyingRebuild, SnapshotEvent::Recorded) => Some(
            (SnapshotStage::Checking, true),
        ),
        (SnapshotStage::ExtendingVerification, SnapshotEvent::Recorded) => Some(
            (SnapshotStage::Checking, rebuilt),
        ),
        (SnapshotStage::Recovering, SnapshotEvent::Recovery(recovered)) => Some(
            if recovered {
                (SnapshotStage::Checking, rebuilt)
            } else {
                (SnapshotStage::Rebuilding { cache_repair: true }, rebuilt)
            },
        ),
        (SnapshotStage::Rebuilding { .. }, SnapshotEvent::Rebuilt) => Some(
            (SnapshotStage::Checking, true),
        ),
        (SnapshotStage::Checking, SnapshotEvent::Compared(same)) => Some(
            if same {
                (SnapshotStage::Capturing, rebuilt)
            } else if rebuilt {
                (SnapshotStage::Failed, rebuilt)
            } else {
                (SnapshotStage::RebuildingAfterCheck, rebuilt)
            },
        ),
        (SnapshotStage::RebuildingAfterCheck, SnapshotEvent::Rebuilt) => Some(
            (SnapshotStage::Capturing, true),
        ),
        (SnapshotStage::CheckingCapture, SnapshotEvent::Compared(same)) => Some(
            if same {
                (SnapshotStage::Done, rebuilt)
            } else if rebuilt {
                (SnapshotStage::Failed, rebuilt)
            } else {
                (SnapshotStage::RebuildingAfterCapture, rebuilt)
            },
        ),
        (SnapshotStage::RebuildingAfterCapture, SnapshotEvent::Rebuilt) => Some(
            (SnapshotStage::CheckingRebuild, true),
        ),
        (SnapshotStage::CheckingRebuild, SnapshotEvent::Compared(same)) => Some(
            if same {
                (SnapshotStage::CapturingAgain, rebuilt)
            } else {
                (SnapshotStage::Failed, rebuilt)
            },
        ),
        _ => None,
    }
}

/// The stage asks for a rebuild.
pub open spec fn rebuilds(stage: SnapshotStage) -> bool {
    stage is Rebuilding || stage == SnapshotStage::RebuildingAfterCheck || stage
        == SnapshotStage::RebuildingAfterCapture
}

/// Taking a snapshot only moves forward, and rebuilds at most once: a rebuild is
/// asked for only while none has happened, and a rebuild that happened is never
/// forgotten.
pub proof fn snapshots_rebuild_at_most_once(
    stage: SnapshotStage,
    rebuilt: bool,
    event: SnapshotEvent,
)
    requires
        after_snapshot_event(stage, rebuilt, event) is Some,
        rebuilds(stage) ==> !rebuilt,
        stage is Synchronizing || stage == SnapshotStage::Recovering ==> !rebuilt,
    ensures
        ({
            let (next, after) = after_snapshot_event(stage, rebuilt, event)->0;
            &&& advance_rank(stage) < advance_rank(next)
            &&& rebuilds(next) ==> !after
            &&& next == SnapshotStage::Recovering ==> !after
            &&& rebuilt ==> after
            &&& event == SnapshotEvent::Rebuilt ==> after
        }),
{
}

/// A snapshot is done only once the cache was found to be the verified one:
/// right after the copy, or after the one rebuild and before the second copy.
pub proof fn snapshots_end_verified(stage: SnapshotStage, rebuilt: bool, event: SnapshotEvent)
    requires
        after_snapshot_event(stage, rebuilt, event) is Some,
    ensures
        ({
            let (next, _) = after_snapshot_event(stage, rebuilt, event)->0;
            &&& next == SnapshotStage::Done ==> event == SnapshotEvent::Compared(true)
            &&& next == SnapshotStage::CapturingAgain ==> event == SnapshotEvent::Compared(true)
        }),
{
}

/// Taking a snapshot.
#[derive(Debug)]
pub struct VerifiedSnapshotWork {
    high_water: i64,
    evaluated_at: Timestamp,
    stage: SnapshotStage,
    rebuilt: bool,
    attempted: RetrievalWorkBudget,
    snapshot: Option<DerivedContextSnapshot>,
}

/// The model of taking a snapshot.
pub struct SnapshotWorkModel {
    pub high_water: i64,
    pub evaluated_at: Timestamp,
    pub stage: SnapshotStage,
    pub rebuilt: bool,
    pub attempted: RetrievalWorkBudget,
    pub snapshot: Option<SnapshotModel>,
}

/// The model of an optional snapshot.
pub open spec fn snapshot_model(s: Option<DerivedContextSnapshot>) -> Option<SnapshotModel> {
    match s {
        Some(v) => Some(v@),
        None => None,
    }
}

impl View for VerifiedSnapshotWork {
    type V = SnapshotWorkModel;

    closed spec fn view(&self) -> SnapshotWorkModel {
        SnapshotWorkModel {
            high_water: self.high_water,
            evaluated_at: self.evaluated_at,
            stage: self.stage,
            rebuilt: self.rebuilt,
            attempted: self.attempted,
            snapshot: snapshot_model(self.snapshot),
        }
    }
}

/// The snapshot was copied from those rows, and the budget charged for them.
pub open spec fn captured(
    checkpoint: CheckpointModel,
    rows: Seq<RawProjectedRow>,
    now: Timestamp,
    before: RetrievalWorkBudget,
    after: RetrievalWorkBudget,
    snapshot: Option<SnapshotModel>,
) -> bool {
    exists|s: DerivedContextSnapshot|
        #[trigger] active_outcome(checkpoint, rows, now, before, after, Ok(s)) && snapshot == Some(
            s@,
        )
}

/// How taking a snapshot starts: the verified cache is synchronized; one that
/// changed at the verified checkpoint is synchronized so that the journal's own
/// failures come first; any other is rebuilt.
pub open spec fn first_stage(
    cache_verified: bool,
    at_source: bool,
    had_verification: bool,
) -> SnapshotStage {
    if cache_verified {
        SnapshotStage::Synchronizing { verified: true }
    } else if at_source {
        SnapshotStage::Synchronizing { verified: false }
    } else {
        SnapshotStage::Rebuilding { cache_repair: had_verification }
    }
}

impl VerifiedSnapshotWork {
    /// Starts taking a snapshot at a high-water of the journal. `cache_verified`
    /// says whether the cache is the verified one, `at_source` whether it stands
    /// at the verified checkpoint, and `had_verification` whether anything was
    /// verified before.
    pub fn start(
        high_water: i64,
        available: i64,
        evaluated_at: Timestamp,
        budget: RetrievalWorkBudget,
        cache_verified: bool,
        at_source: bool,
        had_verification: bool,
    ) -> (r: Result<VerifiedSnapshotWork, ContextProjectionError>)
        ensures
            0 <= high_water <= available ==> r is Ok && r->Ok_0@ == (SnapshotWorkModel {
                high_water,
                evaluated_at,
                stage: first_stage(cache_verified, at_source, had_verification),
                rebuilt: false,
                attempted: budget,
                snapshot: None,
            }),
            !(0 <= high_water <= available) ==> r is Err && r->Err_0
                == (ContextProjectionError::HighWaterAhead { requested: high_water, available }),
    {
        if high_water < 0 || high_water > available {
            return Err(
                ContextProjectionError::HighWaterAhead { requested: high_water, available },
            );
        }
        let stage = if cache_verified {
            SnapshotStage::Synchronizing { verified: true }
        } else if at_source {
            SnapshotStage::Synchronizing { verified: false }
        } else {
            SnapshotStage::Rebuilding { cache_repair: had_verification }
        };
        Ok(
            VerifiedSnapshotWork {
                high_water,
                evaluated_at,
                stage,
                rebuilt: false,
                attempted: budget,
                snapshot: None,
            },
        )
    }

    /// What to do next.
    pub fn stage(&self) -> (s: SnapshotStage)
        ensures
            s == self@.stage,
    {
        self.stage
    }

    /// Takes what came of the last action. An event that the stage does not wait
    /// for changes nothing and is reported.
    pub fn advance(&mut self, event: SnapshotEvent) -> (taken: bool)
        ensures
            match after_snapshot_event(old(self)@.stage, old(self)@.rebuilt, event) {
                Some((stage, rebuilt)) => taken && final(self)@ == (SnapshotWorkModel {
                    stage,
                    rebuilt,
                    ..old(self)@
                }),
                None => !taken && final(self)@ == old(self)@,
            },
    {
        match (self.stage, event) {
            (
                SnapshotStage::Synchronizing { verified },
                SnapshotEvent::Synchronized { rebuilt },
            ) => {
                self.stage = if rebuilt {
                    SnapshotStage::VerifyingRebuild
                } else if verified {
                    SnapshotStage::ExtendingVerification
                } else {
                    SnapshotStage::Recovering
                };
                true
            },
            (SnapshotStage::VerifyingRebuild, SnapshotEvent::Recorded) => {
                self.stage = SnapshotStage::Checking;
                self.rebuilt = true;
                true
            },
            (SnapshotStage::ExtendingVerification, SnapshotEvent::Recorded) => {
                self.stage = SnapshotStage::Checking;
                true
            },
            (SnapshotStage::Recovering, SnapshotEvent::Recovery(recovered)) => {
                self.stage = if recovered {
                    SnapshotStage::Checking
                } else {
                    SnapshotStage::Rebuilding { cache_repair: true }
                };
                true
            },
            (SnapshotStage::Rebuilding { cache_repair }, SnapshotEvent::Rebuilt) => {
                self.stage = SnapshotStage::Checking;
                self.rebuilt = true;
                true
            },
            (SnapshotStage::Checking, SnapshotEvent::Compared(same)) => {
                self.stage = if same {
                    SnapshotStage::Capturing
                } else if self.rebuilt {
                    SnapshotStage::Failed
                } else {
                    SnapshotStage::RebuildingAfterCheck
                };
                true
            },
            (SnapshotStage::RebuildingAfterCheck, SnapshotEvent::Rebuilt) => {
                self.stage = SnapshotStage::Capturing;
                self.rebuilt = true;
                true
            },
            (SnapshotStage::CheckingCapture, SnapshotEvent::Compared(same)) => {
                self.stage = if same {
                    SnapshotStage::Done
                } else if self.rebuilt {
                    SnapshotStage::Failed
                } else {
                    SnapshotStage::RebuildingAfterCapture
                };
                true
            },
            (SnapshotStage::RebuildingAfterCapture, SnapshotEvent::Rebuilt) => {
                self.stage = SnapshotStage::CheckingRebuild;
                self.rebuilt = true;
                true
            },
            (SnapshotStage::CheckingRebuild, SnapshotEvent::Compared(same)) => {
                self.stage = if same {
                    SnapshotStage::CapturingAgain
                } else {
                    SnapshotStage::Failed
                };
                true
            },
            _ => false,
        }
    }

    /// Copies the active rows, charging them on top of what earlier copies were
    /// charged. The first copy is compared afterwards; the second one is the
    /// last.
    pub fn capture(&mut self, checkpoint: ProjectionCheckpoint, rows: &Vec<RawProjectedRow>) -> (r:
        Result<(), ContextProjectionError>)
        requires
            old(self)@.stage == SnapshotStage::Capturing || old(self)@.stage
                == SnapshotStage::CapturingAgain,
        ensures
            capture_outcome(old(self)@, checkpoint@, rows@, final(self)@, r),
            final(self)@.high_water == old(self)@.high_water,
            final(self)@.evaluated_at == old(self)@.evaluated_at,
            final(self)@.rebuilt == old(self)@.rebuilt,
            match r {
                Ok(_) => {
                    &&& captured(
                        checkpoint@,
                        rows@,
                        old(self)@.evaluated_at,
                        old(self)@.attempted,
                        final(self)@.attempted,
                        final(self)@.snapshot,
                    )
                    &&& final(self)@.stage == if old(self)@.stage == SnapshotStage::Capturing {
                        SnapshotStage::CheckingCapture
                    } else {
                        SnapshotStage::Done
                    }
                },
                Err(e) => {
                    &&& active_outcome(
                        checkpoint@,
                        rows@,
                        old(self)@.evaluated_at,
                        old(self)@.attempted,
                        final(self)@.attempted,
                        Err(e),
                    )
                    &&& final(self)@.stage == old(self)@.stage
                    &&& final(self)@.snapshot == old(self)@.snapshot
                },
            },
    {
        let ghost before = self.attempted;
        match capture_active_snapshot(checkpoint, rows, self.evaluated_at, &mut self.attempted) {
            Err(e) => Err(e),
            Ok(s) => {
                let ghost taken = s;
                assert(active_outcome(
                    checkpoint@,
                    rows@,
                    self.evaluated_at,
                    before,
                    self.attempted,
                    Ok(taken),
                ));
                self.snapshot = Some(s);
                self.stage = if self.stage == SnapshotStage::Capturing {
                    SnapshotStage::CheckingCapture
                } else {
                    SnapshotStage::Done
                };
                assert(self@.snapshot == Some(taken@));
                Ok(())
            },
        }
    }

    /// Hands out the snapshot with the budget as charged, if the snapshot was
    /// taken at the high-water. Otherwise the cache keeps disagreeing with the
    /// journal, and the caller's budget stays as it was.
    pub fn finish(self) -> (r: Result<
        (VerifiedContextSnapshot, RetrievalWorkBudget),
        ContextProjectionError,
    >)
        ensures
            handed_out(self@, r),
            match r {
                Ok((snapshot, budget)) => {
                    &&& self@.stage == SnapshotStage::Done
                    &&& self@.snapshot == Some(snapshot@)
                    &&& snapshot@.checkpoint.through_seq == self@.high_water
                    &&& budget == self@.attempted
                },
                Err(e) => {
                    &&& !(self@.stage == SnapshotStage::Done && (self@.snapshot matches Some(s)
                        && s.checkpoint.through_seq == self@.high_water))
                    &&& e == (ContextProjectionError::ProjectionSnapshotIntegrityMismatch {
                        high_water: self@.high_water,
                    })
                },
            },
    {
        if self.stage == SnapshotStage::Done {
            if let Some(s) = self.snapshot {
                if s.checkpoint.through_seq == self.high_water {
                    return Ok((VerifiedContextSnapshot::new(s), self.attempted));
                }
            }
        }
        Err(
            ContextProjectionError::ProjectionSnapshotIntegrityMismatch {
                high_water: self.high_water,
            },
        )
    }
}

/// An identity that a delta added to the stored index.
#[derive(Debug)]
pub struct IdentityUpdate {
    pub session_id: String,
    pub node_id: String,
    pub identity: SessionIndexIdentity,
}

/// The identity after the first `k` updates.
pub open spec fn updated_at(
    index: IdentityIndex,
    updates: Seq<IdentityUpdate>,
    k: nat,
    session: Seq<char>,
    node: Seq<char>,
) -> Option<IdentityModel>
    decreases k,
{
    if k == 0 {
        index.at(session, node)
    } else if updates[k - 1].session_id@ == session && updates[k - 1].node_id@ == node {
        Some(updates[k - 1].identity@)
    } else {
        updated_at(index, updates, (k - 1) as nat, session, node)
    }
}

/// Update `i` repeats an identity that is already there.
pub open spec fn update_repeats(
    index: IdentityIndex,
    updates: Seq<IdentityUpdate>,
    i: int,
) -> bool {
    updated_at(index, updates, i as nat, updates[i].session_id@, updates[i].node_id@) is Some
}

/// Adds the identities of a delta, unless one of them repeats one that is
/// already there; then the index holds what came before it, and the place of the
/// update is reported.
pub fn extend_identities(index: &mut IdentityIndex, updates: &Vec<IdentityUpdate>) -> (r: Result<
    (),
    usize,
>)
    requires
        old(index).well_formed(),
    ensures
        final(index).well_formed(),
        match r {
            Ok(_) => {
                &&& forall|i: int|
                    0 <= i < updates@.len() ==> !#[trigger] update_repeats(
                        *old(index),
                        updates@,
                        i,
                    )
                &&& holds_updates(*old(index), updates@, updates@.len(), *final(index))
            },
            Err(at) => {
                &&& at < updates@.len()
                &&& update_repeats(*old(index), updates@, at as int)
                &&& forall|i: int|
                    0 <= i < at ==> !#[trigger] update_repeats(*old(index), updates@, i)
                &&& holds_updates(*old(index), updates@, at as nat, *final(index))
            },
        },
{
    let ghost start = *index;
    let mut i: usize = 0;
    while i < updates.len()
        invariant
            start == *old(index),
            0 <= i <= updates@.len(),
            index.well_formed(),
            forall|j: int| 0 <= j < i ==> !#[trigger] update_repeats(start, updates@, j),
            forall|s: Seq<char>, n: Seq<char>| #[trigger]
                index.at(s, n) == updated_at(start, updates@, i as nat, s, n),
        decreases updates.len() - i,
    {
        let u = &updates[i];
        let added = index.insert(u.session_id.clone(), u.node_id.clone(), u.identity.clone());
        if !added {
            assert(update_repeats(start, updates@, i as int));
            return Err(i);
        }
        assert(!update_repeats(start, updates@, i as int));
        i += 1;
    }
    Ok(())
}

/// The index holds the identities after the first `k` updates.
pub open spec fn holds_updates(
    before: IdentityIndex,
    updates: Seq<IdentityUpdate>,
    k: nat,
    after: IdentityIndex,
) -> bool {
    forall|s: Seq<char>, n: Seq<char>| #[trigger]
        after.at(s, n) == updated_at(before, updates, k, s, n)
}

/// The refusal of a delta that repeats an identity.
pub open spec fn refuses_repeat(
    e: ContextProjectionError,
    through_seq: i64,
    update: IdentityUpdate,
) -> bool {
    &&& e is CorruptProjectionRow
    &&& e->CorruptProjectionRow_seq == through_seq
    &&& e->CorruptProjectionRow_reason@ == "session index delta repeats identity ("@
        + update.session_id@ + ", "@ + update.node_id@ + ")"@
}

/// Adds the identities of a delta through a sequence to the verified ones, and
/// refuses a delta that repeats one.
pub fn extend_verification(
    index: &mut IdentityIndex,
    updates: &Vec<IdentityUpdate>,
    through_seq: i64,
) -> (r: Result<(), ContextProjectionError>)
    requires
        old(index).well_formed(),
    ensures
        final(index).well_formed(),
        match r {
            Ok(_) => {
                &&& forall|i: int|
                    0 <= i < updates@.len() ==> !#[trigger] update_repeats(
                        *old(index),
                        updates@,
                        i,
                    )
                &&& holds_updates(*old(index), updates@, updates@.len(), *final(index))
            },
            Err(e) => exists|at: int|
                {
                    &&& 0 <= at < updates@.len()
                    &&& #[trigger] update_repeats(*old(index), updates@, at)
                    &&& forall|i: int|
                        0 <= i < at ==> !#[trigger] update_repeats(*old(index), updates@, i)
                    &&& refuses_repeat(e, through_seq, updates@[at])
                    &&& holds_updates(*old(index), updates@, at as nat, *final(index))
                },
        },
{
    match extend_identities(index, updates) {
        Ok(()) => Ok(()),
        Err(at) => {
            let mut reason = joined3(
                "session index delta repeats identity (",
                &updates[at].session_id,
                ", ",
            );
            reason.append(&updates[at].node_id);
            reason.append(")");
            let e = ContextProjectionError::CorruptProjectionRow { seq: through_seq, reason };
            assert(update_repeats(*old(index), updates@, at as int));
            assert(refuses_repeat(e, through_seq, updates@[at as int]));
            assert(holds_updates(*old(index), updates@, at as nat, *index));
            Err(e)
        },
    }
}

/// The high-water lies beyond what was verified before.
pub open spec fn beyond(before: Option<i64>, high_water: i64) -> bool {
    before matches Some(seq) ==> seq < high_water
}

/// Whether the high-water lies beyond what was verified before.
pub fn advances_past(before: Option<i64>, high_water: i64) -> (r: bool)
    ensures
        r == beyond(before, high_water),
{
    match before {
        Some(seq) => seq < high_water,
        None => true,
    }
}

/// The stored index itself is wrong, rather than that it could not be loaded.
pub open spec fn unrecoverable(e: ContextProjectionError) -> bool {
    e is SessionIndexIntegrityMismatch || e is CorruptProjectionRow
        || e is SessionIndexLimitExceeded
}

/// Whether an error of loading the stored index means that the verification
/// cannot be recovered from it, rather than that loading failed.
pub fn precludes_recovery(e: &ContextProjectionError) -> (r: bool)
    ensures
        r == unrecoverable(*e),
        r == (e is SessionIndexIntegrityMismatch || e is CorruptProjectionRow
            || e is SessionIndexLimitExceeded),
{
    match e {
        ContextProjectionError::SessionIndexIntegrityMismatch { .. } => true,
        ContextProjectionError::CorruptProjectionRow { .. } => true,
        ContextProjectionError::SessionIndexLimitExceeded { .. } => true,
        _ => false,
    }
}

/// Whether the identities that the cache holds are those that were verified and
/// what the delta added.
pub fn recovers(
    prior: IdentityIndex,
    updates: &Vec<IdentityUpdate>,
    actual: &IdentityIndex,
) -> (r: bool)
    requires
        prior.well_formed(),
        actual.well_formed(),
    ensures
        r == ((forall|i: int|
            0 <= i < updates@.len() ==> !#[trigger] update_repeats(prior, updates@, i)) && (
        forall|s: Seq<char>, n: Seq<char>| #[trigger]
            actual.at(s, n) == updated_at(prior, updates@, updates@.len(), s, n))),
{
    let mut expected = prior;
    match extend_identities(&mut expected, updates) {
        Err(at) => {
            assert(update_repeats(prior, updates@, at as int));
            false
        },
        Ok(()) => {
            let same = expected.equals(actual);
            proof {
                if same {
                    assert forall|s: Seq<char>, n: Seq<char>| #[trigger]
                        actual.at(s, n) == updated_at(prior, updates@, updates@.len(), s, n) by {
                        assert(expected.at(s, n) == actual.at(s, n));
                    }
                } else {
                    let (s, n) = choose|s: Seq<char>, n: Seq<char>|
                        expected.at(s, n) != #[trigger] actual.at(s, n);
                    assert(expected.at(s, n) == updated_at(
                        prior,
                        updates@,
                        updates@.len(),
                        s,
                        n,
                    ));
                }
            }
            same
        },
    }
}

/// The result of copying the active rows.
pub open spec fn capture_outcome(
    before: SnapshotWorkModel,
    checkpoint: CheckpointModel,
    rows: Seq<RawProjectedRow>,
    after: SnapshotWorkModel,
    r: Result<(), ContextProjectionError>,
) -> bool {
    &&& after.high_water == before.high_water
    &&& after.evaluated_at == before.evaluated_at
    &&& after.rebuilt == before.rebuilt
    &&& match r {
        Ok(_) => {
            &&& captured(
                checkpoint,
                rows,
                before.evaluated_at,
                before.attempted,
                after.attempted,
                after.snapshot,
            )
            &&& after.stage == if before.stage == SnapshotStage::Capturing {
                SnapshotStage::CheckingCapture
            } else {
                SnapshotStage::Done
            }
        },
        Err(e) => {
            &&& active_outcome(
                checkpoint,
                rows,
                before.evaluated_at,
                before.attempted,
                after.attempted,
                Err(e),
            )
            &&& after.stage == before.stage
            &&& after.snapshot == before.snapshot
        },
    }
}

/// The result of handing out a snapshot.
pub open spec fn handed_out(
    work: SnapshotWorkModel,
    r: Result<(VerifiedContextSnapshot, RetrievalWorkBudget), ContextProjectionError>,
) -> bool {
    if work.stage == SnapshotStage::Done && (work.snapshot matches Some(s)
        && s.checkpoint.through_seq == work.high_water) {
        r is Ok && (r->Ok_0).0@ == work.snapshot->0 && (r->Ok_0).1 == work.attempted
    } else {
        r is Err && r->Err_0 == (ContextProjectionError::ProjectionSnapshotIntegrityMismatch {
            high_water: work.high_water,
        })
    }
}

/// A copy that was taken once is compared before another is taken, and only the
/// second is final; it is handed out where it stands at the high-water, and what
/// is handed out is what was copied.
pub proof fn snapshots_are_compared_before_they_are_handed_out(
    before: SnapshotWorkModel,
    checkpoint: CheckpointModel,
    rows: Seq<RawProjectedRow>,
    after: SnapshotWorkModel,
    r: Result<(), ContextProjectionError>,
    h: Result<(VerifiedContextSnapshot, RetrievalWorkBudget), ContextProjectionError>,
)
    requires
        before.stage == SnapshotStage::Capturing || before.stage == SnapshotStage::CapturingAgain,
        capture_outcome(before, checkpoint, rows, after, r),
        handed_out(after, h),
    ensures
        before.stage == SnapshotStage::Capturing ==> h is Err,
        r is Err ==> h is Err && after.stage == before.stage && after.snapshot == before.snapshot,
        r is Ok ==> after.snapshot is Some && after.snapshot->0.checkpoint == checkpoint,
        r is Ok && before.stage == SnapshotStage::Capturing ==> after.stage
            == SnapshotStage::CheckingCapture,
        h is Ok <==> r is Ok && before.stage == SnapshotStage::CapturingAgain
            && checkpoint.through_seq == before.high_water,
        h is Ok ==> (h->Ok_0).0@.checkpoint == checkpoint && (h->Ok_0).1 == after.attempted,
        h matches Err(e) ==> e == (ContextProjectionError::ProjectionSnapshotIntegrityMismatch {
            high_water: before.high_water,
        }),
{
}

/// What cannot be recovered is a wrong row, a wrong index or one too large; a
/// database or a journal that fails is an error of its own.
pub proof fn wrong_indexes_are_not_recovered(e: ContextProjectionError, high_water: i64)
    ensures
        unrecoverable(ContextProjectionError::SessionIndexIntegrityMismatch { high_water }),
        e is CorruptProjectionRow ==> unrecoverable(e),
        e is SessionIndexLimitExceeded ==> unrecoverable(e),
        unrecoverable(e) ==> e !is HighWaterAhead && e !is ProjectionNotSynchronized
            && e !is SourceDatabaseCollision && e !is TargetEventMismatch && e !is InvalidScope
            && e !is MissingCheckpointDuringPage
            && e !is ProjectionSnapshotIntegrityMismatch,
{
}

/// A delta that repeats an identity is refused at its sequence, with the session
/// and the node that it repeats.
pub proof fn repeated_identities_are_named(
    e: ContextProjectionError,
    through_seq: i64,
    update: IdentityUpdate,
)
    requires
        refuses_repeat(e, through_seq, update),
    ensures
        e matches ContextProjectionError::CorruptProjectionRow { seq, reason } && seq == through_seq
            && reason@ == "session index delta repeats identity ("@ + update.session_id@ + ", "@
            + update.node_id@ + ")"@,
        unrecoverable(e),
{
}

} // verus!
