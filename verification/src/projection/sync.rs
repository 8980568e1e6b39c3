//! Deciding how the projection is brought to a high-water of the journal.
//!
//! Reading and writing the cache is outside work. The machine says what to do
//! next and takes what came of it.

use vstd::prelude::*;

use crate::projection::budget::{no_work, CatchUpMode, CatchUpWork, DeltaVerificationBudget};
use crate::projection::checkpoint::{
    checkpoint_model, is_checkpoint, zero_checkpoint, CheckpointModel, ProjectionCheckpoint,
    CONTEXT_PROJECTION_SCHEMA_VERSION,
};
use crate::projection::delta::{
    catching_up_ends_at_the_high_water, reached, CatchUpModel, CommittedPage,
};
use crate::projection::error::ContextProjectionError;

verus! {

/// What is stored in the cache when synchronization starts.
#[derive(Debug)]
pub struct CacheState {
    pub schema_current: bool,
    pub checkpoint: Option<ProjectionCheckpoint>,
    pub anchor_matches: bool,
}

/// Observable outcome of one bounded-high-water synchronization.
#[derive(Debug)]
pub struct ProjectionSync {
    pub captured_high_water: i64,
    pub checkpoint: ProjectionCheckpoint,
    pub rebuilt: bool,
    pub source_index_recovery: bool,
}

/// Where a synchronization stands.
#[derive(Debug, Clone, Copy, PartialEq, Eq, Structural)]
pub enum SyncStage {
    ResettingAtStart,
    Prevalidating,
    Recovering,
    ResettingAfterRecovery,
    CatchingUp,
    ResettingForRepair,
    Replaying,
    Diverged,
    Finished,
}

/// What came of the last action.
#[derive(Debug)]
pub enum SyncEvent {
    /// The cache was emptied.
    CacheReset,
    /// The delta passed validation against the verified index.
    DeltaValidated,
    /// Whether source verification could be recovered from the cache.
    Recovery(bool),
    /// The projection reached the high-water.
    CaughtUp { checkpoint: ProjectionCheckpoint, work: CatchUpWork },
    /// The cache disagrees with the journal.
    CacheDiverged,
}

/// A synchronization under way.
#[derive(Debug)]
pub struct Synchronization {
    pub high_water: i64,
    pub source_verified: bool,
    pub stage: SyncStage,
    pub checkpoint: ProjectionCheckpoint,
    pub rebuilt: bool,
    pub recovery: bool,
    pub mode: CatchUpMode,
    pub work: CatchUpWork,
}

/// The model of a synchronization under way.
pub struct SyncModel {
    pub high_water: i64,
    pub source_verified: bool,
    pub stage: SyncStage,
    pub checkpoint: CheckpointModel,
    pub rebuilt: bool,
    pub recovery: bool,
    pub mode: CatchUpMode,
    pub work: CatchUpWork,
}

impl View for Synchronization {
    type V = SyncModel;

    open spec fn view(&self) -> SyncModel {
        SyncModel {
            high_water: self.high_water,
            source_verified: self.source_verified,
            stage: self.stage,
            checkpoint: self.checkpoint@,
            rebuilt: self.rebuilt,
            recovery: self.recovery,
            mode: self.mode,
            work: self.work,
        }
    }
}

/// The stored checkpoint can be built upon.
pub open spec fn usable(cache: CacheState, available: i64) -> bool {
    &&& cache.schema_current
    &&& cache.anchor_matches
    &&& cache.checkpoint matches Some(c) && c.schema_version == CONTEXT_PROJECTION_SCHEMA_VERSION
        && c.through_seq <= available
}

/// How to catch up: a full replay from nothing, unless what is there was
/// verified; otherwise a verified delta.
pub open spec fn mode_for(through_seq: i64, rebuilt: bool, source_verified: bool) -> CatchUpMode {
    if through_seq == 0 && (rebuilt || !source_verified) {
        CatchUpMode::FullReplay
    } else {
        CatchUpMode::VerifiedDelta
    }
}

fn choose_mode(through_seq: i64, rebuilt: bool, source_verified: bool) -> (m: CatchUpMode)
    ensures
        m == mode_for(through_seq, rebuilt, source_verified),
{
    if through_seq == 0 && (rebuilt || !source_verified) {
        CatchUpMode::FullReplay
    } else {
        CatchUpMode::VerifiedDelta
    }
}

/// A delta over a cache that changed since it was verified, at the verified
/// checkpoint, is checked against the verified index before it is applied.
pub open spec fn needs_recovery(
    through_seq: i64,
    high_water: i64,
    source_verified: bool,
    at_source: bool,
) -> bool {
    through_seq < high_water && !source_verified && at_source
}

/// Ready to go on from a checkpoint.
pub open spec fn ready(m: SyncModel, at_source: bool) -> SyncModel {
    let recovery = needs_recovery(
        m.checkpoint.through_seq,
        m.high_water,
        m.source_verified,
        at_source,
    );
    SyncModel {
        recovery,
        stage: if recovery {
            SyncStage::Prevalidating
        } else {
            SyncStage::CatchingUp
        },
        mode: mode_for(m.checkpoint.through_seq, m.rebuilt, m.source_verified),
        ..m
    }
}

/// Emptied, and ready to replay.
pub open spec fn emptied(m: SyncModel) -> SyncModel {
    SyncModel { checkpoint: zero_checkpoint(), rebuilt: true, ..m }
}

/// What the next stage is, given what came of the last action.
pub open spec fn after_event(m: SyncModel, event: SyncEvent, zero_is_source: bool) -> Option<
    SyncModel,
> {
    match (m.stage, event) {
        (SyncStage::ResettingAtStart, SyncEvent::CacheReset) => Some(
            ready(emptied(m), zero_is_source),
        ),
        (SyncStage::Prevalidating, SyncEvent::DeltaValidated) => Some(
            SyncModel { stage: SyncStage::Recovering, ..m },
        ),
        (SyncStage::Recovering, SyncEvent::Recovery(recovered)) => Some(
            if recovered {
                SyncModel { stage: SyncStage::CatchingUp, ..m }
            } else {
                SyncModel { stage: SyncStage::ResettingAfterRecovery, ..m }
            },
        ),
        (SyncStage::ResettingAfterRecovery, SyncEvent::CacheReset) => Some(
            SyncModel {
                stage: SyncStage::CatchingUp,
                recovery: false,
                mode: CatchUpMode::FullReplay,
                ..emptied(m)
            },
        ),
        (SyncStage::CatchingUp, SyncEvent::CaughtUp { checkpoint, work }) => Some(
            SyncModel { stage: SyncStage::Finished, checkpoint: checkpoint@, work, ..m },
        ),
        (SyncStage::CatchingUp, SyncEvent::CacheDiverged) => Some(
            SyncModel {
                stage: if m.rebuilt {
                    SyncStage::Diverged
                } else {
                    SyncStage::ResettingForRepair
                },
                ..m
            },
        ),
        (SyncStage::ResettingForRepair, SyncEvent::CacheReset) => Some(
            SyncModel {
                stage: SyncStage::Replaying,
                mode: CatchUpMode::FullReplay,
                ..emptied(m)
            },
        ),
        (SyncStage::Replaying, SyncEvent::CaughtUp { checkpoint, work }) => Some(
            SyncModel { stage: SyncStage::Finished, checkpoint: checkpoint@, work, ..m },
        ),
        (SyncStage::Replaying, SyncEvent::CacheDiverged) => Some(
            SyncModel { stage: SyncStage::Diverged, ..m },
        ),
        _ => None,
    }
}

/// How far along a stage is.
pub open spec fn progress(stage: SyncStage) -> nat {
    match stage {
        SyncStage::ResettingAtStart => 0,
        SyncStage::Prevalidating => 1,
        SyncStage::Recovering => 2,
        SyncStage::ResettingAfterRecovery => 3,
        SyncStage::CatchingUp => 4,
        SyncStage::ResettingForRepair => 5,
        SyncStage::Replaying => 6,
        SyncStage::Diverged => 7,
        SyncStage::Finished => 7,
    }
}

/// A synchronization only moves forward: it ends within seven steps, and the
/// cache is rebuilt for divergence at most once.
pub proof fn synchronization_moves_forward(m: SyncModel, event: SyncEvent, zero_is_source: bool)
    requires
        after_event(m, event, zero_is_source) is Some,
    ensures
        progress(m.stage) < progress(after_event(m, event, zero_is_source)->0.stage) <= 7,
        after_event(m, event, zero_is_source)->0.high_water == m.high_water,
        m.rebuilt ==> after_event(m, event, zero_is_source)->0.rebuilt,
        m.rebuilt ==> after_event(m, event, zero_is_source)->0.stage
            != SyncStage::ResettingForRepair,
        event is CacheReset ==> after_event(m, event, zero_is_source)->0.rebuilt
            && after_event(m, event, zero_is_source)->0.checkpoint == zero_checkpoint(),
{
}

/// The start of a synchronization: a high-water outside the journal is refused,
/// a cache that cannot be built upon is emptied, and a high-water behind the
/// cache is refused.
pub open spec fn start_outcome(
    high_water: i64,
    available: i64,
    source_verified: bool,
    source: Option<CheckpointModel>,
    already_rebuilt: bool,
    cache: CacheState,
    r: Result<Synchronization, ContextProjectionError>,
) -> bool {
    if !(0 <= high_water <= available) {
        r is Err && r->Err_0 == ContextProjectionError::HighWaterAhead {
            requested: high_water,
            available,
        }
    } else if !usable(cache, available) {
        &&& r is Ok
        &&& r->Ok_0@ == (SyncModel {
            high_water,
            source_verified,
            stage: SyncStage::ResettingAtStart,
            checkpoint: zero_checkpoint(),
            rebuilt: already_rebuilt,
            recovery: false,
            mode: CatchUpMode::FullReplay,
            work: no_work(),
        })
    } else if high_water < cache.checkpoint->0.through_seq {
        r is Err && r->Err_0 == ContextProjectionError::HighWaterBehindCheckpoint {
            requested: high_water,
            checkpoint: cache.checkpoint->0.through_seq,
        }
    } else {
        let at_source = source == Some(cache.checkpoint->0@);
        &&& r is Ok
        &&& r->Ok_0@.high_water == high_water
        &&& r->Ok_0@.source_verified == source_verified
        &&& r->Ok_0@.checkpoint == cache.checkpoint->0@
        &&& r->Ok_0@.rebuilt == already_rebuilt
        &&& r->Ok_0@.work == no_work()
        &&& r->Ok_0@ == ready(r->Ok_0@, at_source)
    }
}

/// The outcome of a finished synchronization.
pub open spec fn finish_outcome(m: SyncModel, r: ProjectionSync) -> bool {
    &&& r.captured_high_water == m.high_water
    &&& r.checkpoint@ == m.checkpoint
    &&& r.rebuilt == m.rebuilt
    &&& r.source_index_recovery == (m.recovery && !m.rebuilt)
}

/// Where catching up starts when a synchronization asks for it.
pub open spec fn catch_up_start(m: SyncModel, budget: Option<DeltaVerificationBudget>) ->
    CatchUpModel {
    CatchUpModel {
        high_water: m.high_water,
        checkpoint: m.checkpoint,
        cursor: m.checkpoint.through_seq,
        budget,
        events: 0,
    }
}

/// What came of the last action is what happened: a synchronization is told that
/// it caught up only where committed pages led from its checkpoint to the
/// high-water.
pub open spec fn happened(m: SyncModel, event: SyncEvent) -> bool {
    match event {
        SyncEvent::CaughtUp { checkpoint, .. } => exists|
            budget: Option<DeltaVerificationBudget>,
            pages: Seq<CommittedPage>,
        | #[trigger] reached(catch_up_start(m, budget), pages, checkpoint@),
        _ => true,
    }
}

/// The synchronization after the first `k` events, each of which was taken.
pub open spec fn sync_after(
    start: SyncModel,
    events: Seq<SyncEvent>,
    zero_is_source: bool,
    k: nat,
) -> SyncModel
    decreases k,
{
    if k == 0 {
        start
    } else {
        after_event(
            sync_after(start, events, zero_is_source, (k - 1) as nat),
            events[k - 1],
            zero_is_source,
        )->0
    }
}

/// Each event was waited for, and is what happened.
pub open spec fn sync_runs(start: SyncModel, events: Seq<SyncEvent>, zero_is_source: bool) -> bool {
    forall|i: int|
        0 <= i < events.len() ==> {
            let m = sync_after(start, events, zero_is_source, i as nat);
            &&& after_event(m, #[trigger] events[i], zero_is_source) is Some
            &&& happened(m, events[i])
        }
}

/// The checkpoint lies within the high-water, and a finished synchronization
/// stands at it.
pub open spec fn within_high_water(m: SyncModel) -> bool {
    &&& 0 <= m.high_water
    &&& m.checkpoint.through_seq <= m.high_water
    &&& m.stage == SyncStage::Finished ==> m.checkpoint.through_seq == m.high_water
}

/// Every event that happens keeps a synchronization within its high-water, and
/// the one that finishes it leaves it there.
pub proof fn synchronizations_stay_within_the_high_water(
    m: SyncModel,
    event: SyncEvent,
    zero_is_source: bool,
)
    requires
        within_high_water(m),
        after_event(m, event, zero_is_source) is Some,
        happened(m, event),
    ensures
        within_high_water(after_event(m, event, zero_is_source)->0),
{
    if let SyncEvent::CaughtUp { checkpoint, .. } = event {
        let (budget, pages) = choose|
            budget: Option<DeltaVerificationBudget>,
            pages: Seq<CommittedPage>,
        | #[trigger] reached(catch_up_start(m, budget), pages, checkpoint@);
        catching_up_ends_at_the_high_water(catch_up_start(m, budget), pages, checkpoint@);
    }
}

proof fn lemma_run_within(
    start: SyncModel,
    events: Seq<SyncEvent>,
    zero_is_source: bool,
    k: nat,
)
    requires
        within_high_water(start),
        sync_runs(start, events, zero_is_source),
        k <= events.len(),
    ensures
        within_high_water(sync_after(start, events, zero_is_source, k)),
        sync_after(start, events, zero_is_source, k).high_water == start.high_water,
    decreases k,
{
    if k > 0 {
        lemma_run_within(start, events, zero_is_source, (k - 1) as nat);
        let m = sync_after(start, events, zero_is_source, (k - 1) as nat);
        let event = events[k - 1];
        assert(after_event(m, event, zero_is_source) is Some);
        synchronizations_stay_within_the_high_water(m, event, zero_is_source);
        synchronization_moves_forward(m, event, zero_is_source);
    }
}

/// A synchronization that ran from its start to its finish reports a checkpoint
/// that stands at the high-water it was asked for.
pub proof fn finished_synchronizations_stand_at_the_high_water(
    high_water: i64,
    available: i64,
    source_verified: bool,
    source: Option<CheckpointModel>,
    already_rebuilt: bool,
    cache: CacheState,
    start: Synchronization,
    events: Seq<SyncEvent>,
    zero_is_source: bool,
    r: ProjectionSync,
)
    requires
        start_outcome(
            high_water,
            available,
            source_verified,
            source,
            already_rebuilt,
            cache,
            Ok(start),
        ),
        sync_runs(start@, events, zero_is_source),
        sync_after(start@, events, zero_is_source, events.len()).stage == SyncStage::Finished,
        finish_outcome(sync_after(start@, events, zero_is_source, events.len()), r),
    ensures
        r.captured_high_water == high_water,
        r.checkpoint.through_seq == high_water,
{
    lemma_run_within(start@, events, zero_is_source, events.len());
}

impl Synchronization {
    /// Starts a synchronization. `source_verified` says whether the cache is the
    /// one that was verified, and `source` is the checkpoint at which it was.
    pub fn start(
        high_water: i64,
        available: i64,
        source_verified: bool,
        source: &Option<ProjectionCheckpoint>,
        already_rebuilt: bool,
        cache: CacheState,
    ) -> (r: Result<Synchronization, ContextProjectionError>)
        ensures
            start_outcome(
                high_water,
                available,
                source_verified,
                checkpoint_model(*source),
                already_rebuilt,
                cache,
                r,
            ),
    {
        if high_water < 0 || high_water > available {
            return Err(
                ContextProjectionError::HighWaterAhead { requested: high_water, available },
            );
        }
        let none = CatchUpWork { events: 0, context_payload_bytes: 0, verification_work: 0 };
        if cache.schema_current && cache.anchor_matches {
            if let Some(checkpoint) = cache.checkpoint {
                if checkpoint.schema_version == CONTEXT_PROJECTION_SCHEMA_VERSION
                    && checkpoint.through_seq <= available {
                    if high_water < checkpoint.through_seq {
                        return Err(
                            ContextProjectionError::HighWaterBehindCheckpoint {
                                requested: high_water,
                                checkpoint: checkpoint.through_seq,
                            },
                        );
                    }
                    let at_source = is_checkpoint(source, &checkpoint);
                    let recovery = checkpoint.through_seq < high_water && !source_verified
                        && at_source;
                    let mode = choose_mode(
                        checkpoint.through_seq,
                        already_rebuilt,
                        source_verified,
                    );
                    return Ok(
                        Synchronization {
                            high_water,
                            source_verified,
                            stage: if recovery {
                                SyncStage::Prevalidating
                            } else {
                                SyncStage::CatchingUp
                            },
                            checkpoint,
                            rebuilt: already_rebuilt,
                            recovery,
                            mode,
                            work: none,
                        },
                    );
                }
            }
        }
        Ok(
            Synchronization {
                high_water,
                source_verified,
                stage: SyncStage::ResettingAtStart,
                checkpoint: ProjectionCheckpoint::zero(),
                rebuilt: already_rebuilt,
                recovery: false,
                mode: CatchUpMode::FullReplay,
                work: none,
            },
        )
    }

    fn empty(&mut self)
        ensures
            final(self)@ == emptied(old(self)@),
    {
        self.checkpoint = ProjectionCheckpoint::zero();
        self.rebuilt = true;
    }

    /// Takes what came of the last action. An event that the stage does not wait
    /// for changes nothing and is reported.
    pub fn advance(&mut self, event: SyncEvent, source: &Option<ProjectionCheckpoint>) -> (taken:
        bool)
        ensures
            ({
                let zero_is_source = checkpoint_model(*source) == Some(zero_checkpoint());
                match after_event(old(self)@, event, zero_is_source) {
                    Some(next) => taken && final(self)@ == next,
                    None => !taken && final(self)@ == old(self)@,
                }
            }),
    {
        match (self.stage, event) {
            (SyncStage::ResettingAtStart, SyncEvent::CacheReset) => {
                self.empty();
                let zero = ProjectionCheckpoint::zero();
                let recovery = 0 < self.high_water && !self.source_verified && is_checkpoint(
                    source,
                    &zero,
                );
                self.recovery = recovery;
                self.stage = if recovery {
                    SyncStage::Prevalidating
                } else {
                    SyncStage::CatchingUp
                };
                self.mode = choose_mode(0, true, self.source_verified);
                true
            },
            (SyncStage::Prevalidating, SyncEvent::DeltaValidated) => {
                self.stage = SyncStage::Recovering;
                true
            },
            (SyncStage::Recovering, SyncEvent::Recovery(recovered)) => {
                self.stage = if recovered {
                    SyncStage::CatchingUp
                } else {
                    SyncStage::ResettingAfterRecovery
                };
                true
            },
            (SyncStage::ResettingAfterRecovery, SyncEvent::CacheReset) => {
                self.empty();
                self.recovery = false;
                self.mode = CatchUpMode::FullReplay;
                self.stage = SyncStage::CatchingUp;
                true
            },
            (SyncStage::CatchingUp, SyncEvent::CaughtUp { checkpoint, work }) => {
                self.checkpoint = checkpoint;
                self.work = work;
                self.stage = SyncStage::Finished;
                true
            },
            (SyncStage::CatchingUp, SyncEvent::CacheDiverged) => {
                self.stage = if self.rebuilt {
                    SyncStage::Diverged
                } else {
                    SyncStage::ResettingForRepair
                };
                true
            },
            (SyncStage::ResettingForRepair, SyncEvent::CacheReset) => {
                self.empty();
                self.mode = CatchUpMode::FullReplay;
                self.stage = SyncStage::Replaying;
                true
            },
            (SyncStage::Replaying, SyncEvent::CaughtUp { checkpoint, work }) => {
                self.checkpoint = checkpoint;
                self.work = work;
                self.stage = SyncStage::Finished;
                true
            },
            (SyncStage::Replaying, SyncEvent::CacheDiverged) => {
                self.stage = SyncStage::Diverged;
                true
            },
            _ => false,
        }
    }

    /// The outcome of a synchronization that reached the high-water.
    pub fn finish(self) -> (r: ProjectionSync)
        requires
            self.stage == SyncStage::Finished,
        ensures
            finish_outcome(self@, r),
    {
        ProjectionSync {
            captured_high_water: self.high_water,
            checkpoint: self.checkpoint,
            rebuilt: self.rebuilt,
            source_index_recovery: self.recovery && !self.rebuilt,
        }
    }
}

/// How a divergence that a rebuild did not mend is reported.
pub fn synchronize_divergence(checkpoint: i64, high_water: i64) -> (e: ContextProjectionError)
    ensures
        e == (ContextProjectionError::ProjectionNotSynchronized { checkpoint, high_water }),
{
    ContextProjectionError::ProjectionNotSynchronized { checkpoint, high_water }
}

/// What to record of the source verification once synchronized.
#[derive(Debug, Clone, Copy, PartialEq, Eq, Structural)]
pub enum VerificationUpdate {
    /// Verify the whole cache again.
    Verify { cache_repair: bool },
    /// Add the delta to what was verified.
    Extend { advanced: bool },
    /// Recover the verification from the cache, and count a delta if it worked.
    Recover,
    /// Nothing.
    Keep,
}

/// What to record of the source verification: a rebuilt cache, or one that
/// started empty and was not verified, is verified as a whole; a verified one is
/// extended; one that changed is recovered.
pub open spec fn update_for(
    rebuilt: bool,
    source_index_recovery: bool,
    source_verified: bool,
    before: Option<i64>,
    through_seq: i64,
    cache_started_at_zero: bool,
) -> VerificationUpdate {
    if rebuilt {
        VerificationUpdate::Verify { cache_repair: source_verified }
    } else if cache_started_at_zero && !source_verified {
        VerificationUpdate::Verify { cache_repair: false }
    } else if source_verified {
        VerificationUpdate::Extend {
            advanced: match before {
                Some(b) => b < through_seq,
                None => true,
            },
        }
    } else if source_index_recovery {
        VerificationUpdate::Recover
    } else {
        VerificationUpdate::Keep
    }
}

/// What to record of the source verification once synchronized.
pub fn preserve_source_verification(
    sync: &ProjectionSync,
    source_verified: bool,
    before: Option<i64>,
    cache_started_at_zero: bool,
) -> (r: VerificationUpdate)
    ensures
        r == update_for(
            sync.rebuilt,
            sync.source_index_recovery,
            source_verified,
            before,
            sync.checkpoint.through_seq,
            cache_started_at_zero,
        ),
{
    if sync.rebuilt {
        return VerificationUpdate::Verify { cache_repair: source_verified };
    }
    if cache_started_at_zero && !source_verified {
        return VerificationUpdate::Verify { cache_repair: false };
    }
    if source_verified {
        let advanced = match before {
            Some(b) => b < sync.checkpoint.through_seq,
            None => true,
        };
        return VerificationUpdate::Extend { advanced };
    }
    if sync.source_index_recovery {
        VerificationUpdate::Recover
    } else {
        VerificationUpdate::Keep
    }
}

} // verus!
