//! Bounded counters for the work of one synchronization.

use vstd::prelude::*;

use crate::projection::error::ContextProjectionError;

verus! {

/// Maximum canonical events inspected by one normal delta synchronization.
pub const MAX_NORMAL_DELTA_EVENTS: u64 = 65_536;

/// Maximum serialized context payload bytes inspected by one normal delta.
pub const MAX_NORMAL_DELTA_CONTEXT_BYTES: u64 = 67_108_864;

/// Maximum deterministic verification work charged by one normal delta.
pub const MAX_NORMAL_DELTA_VERIFICATION_WORK: u64 = 2_000_000;

/// The most events read in one page.
pub const SYNC_PAGE_SIZE: u64 = 500;

/// What adding `amount` to `current` attempts, held at the greatest count.
pub open spec fn attempted_sum(current: u64, amount: u64) -> u64 {
    if current + amount > u64::MAX {
        u64::MAX
    } else {
        (current + amount) as u64
    }
}

/// The error refuses a count beyond its limit.
pub open spec fn refuses_count(
    e: ContextProjectionError,
    dimension: Seq<char>,
    attempted: u64,
    maximum: u64,
) -> bool {
    &&& e is SessionIndexLimitExceeded
    &&& e->dimension@ == dimension
    &&& e->attempted == attempted
    &&& e->SessionIndexLimitExceeded_maximum == maximum
}

/// The result of adding to a bounded counter.
pub open spec fn bounded_sum_outcome(
    current: u64,
    amount: u64,
    dimension: Seq<char>,
    maximum: u64,
    r: Result<u64, ContextProjectionError>,
) -> bool {
    if attempted_sum(current, amount) > maximum {
        r is Err && refuses_count(r->Err_0, dimension, attempted_sum(current, amount), maximum)
    } else {
        r == Ok::<u64, ContextProjectionError>(attempted_sum(current, amount))
    }
}

/// Adds to a bounded counter.
pub fn checked_bounded_sum(current: u64, amount: u64, dimension: &'static str, maximum: u64) -> (r:
    Result<u64, ContextProjectionError>)
    ensures
        bounded_sum_outcome(current, amount, dimension@, maximum, r),
{
    let attempted: u64 = current.saturating_add(amount);
    if attempted > maximum {
        Err(ContextProjectionError::SessionIndexLimitExceeded { dimension, attempted, maximum })
    } else {
        Ok(attempted)
    }
}

/// The work of catching up.
#[derive(Debug, Clone, Copy, PartialEq, Eq, Structural)]
pub struct CatchUpWork {
    pub events: u64,
    pub context_payload_bytes: u64,
    pub verification_work: u64,
}

/// No work yet.
pub open spec fn no_work() -> CatchUpWork {
    CatchUpWork { events: 0, context_payload_bytes: 0, verification_work: 0 }
}

/// The work of one normal delta, against fixed ceilings.
#[derive(Debug, Clone, Copy, PartialEq, Eq, Structural)]
pub struct DeltaVerificationBudget {
    pub work: CatchUpWork,
}

impl DeltaVerificationBudget {
    /// Every counter is within its ceiling.
    pub open spec fn within_limits(self) -> bool {
        &&& self.work.events <= MAX_NORMAL_DELTA_EVENTS
        &&& self.work.context_payload_bytes <= MAX_NORMAL_DELTA_CONTEXT_BYTES
        &&& self.work.verification_work <= MAX_NORMAL_DELTA_VERIFICATION_WORK
    }

    /// The counters after `amount` more work.
    pub open spec fn worked(self, amount: u64) -> DeltaVerificationBudget {
        DeltaVerificationBudget {
            work: CatchUpWork {
                verification_work: attempted_sum(self.work.verification_work, amount),
                ..self.work
            },
        }
    }

    /// The counters after one more event, before its work is charged.
    pub open spec fn evented(self) -> DeltaVerificationBudget {
        DeltaVerificationBudget {
            work: CatchUpWork { events: attempted_sum(self.work.events, 1), ..self.work },
        }
    }

    /// The counters after one more payload, before its work is charged.
    pub open spec fn loaded(self, bytes: u64) -> DeltaVerificationBudget {
        DeltaVerificationBudget {
            work: CatchUpWork {
                context_payload_bytes: attempted_sum(self.work.context_payload_bytes, bytes),
                ..self.work
            },
        }
    }

    /// An unused budget.
    pub fn new() -> (r: DeltaVerificationBudget)
        ensures
            r.work == no_work(),
            r.within_limits(),
    {
        DeltaVerificationBudget {
            work: CatchUpWork { events: 0, context_payload_bytes: 0, verification_work: 0 },
        }
    }

    /// The result of charging work: a refused charge changes nothing.
    pub open spec fn work_outcome(
        self,
        amount: u64,
        after: DeltaVerificationBudget,
        r: Result<(), ContextProjectionError>,
    ) -> bool {
        let attempted = attempted_sum(self.work.verification_work, amount);
        if attempted > MAX_NORMAL_DELTA_VERIFICATION_WORK {
            &&& r is Err
            &&& refuses_count(
                r->Err_0,
                "normal delta verification work"@,
                attempted,
                MAX_NORMAL_DELTA_VERIFICATION_WORK,
            )
            &&& after == self
        } else {
            r is Ok && after == self.worked(amount)
        }
    }

    /// The result of charging one event: the event, then its work.
    pub open spec fn event_outcome(
        self,
        after: DeltaVerificationBudget,
        r: Result<(), ContextProjectionError>,
    ) -> bool {
        let attempted = attempted_sum(self.work.events, 1);
        if attempted > MAX_NORMAL_DELTA_EVENTS {
            &&& r is Err
            &&& refuses_count(
                r->Err_0,
                "normal delta events"@,
                attempted,
                MAX_NORMAL_DELTA_EVENTS,
            )
            &&& after == self
        } else {
            self.evented().work_outcome(1, after, r)
        }
    }

    /// The result of charging one payload: its bytes, then its work.
    pub open spec fn payload_outcome(
        self,
        bytes: usize,
        after: DeltaVerificationBudget,
        r: Result<(), ContextProjectionError>,
    ) -> bool {
        let attempted = attempted_sum(self.work.context_payload_bytes, bytes as u64);
        if attempted > MAX_NORMAL_DELTA_CONTEXT_BYTES {
            &&& r is Err
            &&& refuses_count(
                r->Err_0,
                "normal delta context payload bytes"@,
                attempted,
                MAX_NORMAL_DELTA_CONTEXT_BYTES,
            )
            &&& after == self
        } else {
            self.loaded(bytes as u64).work_outcome(1, after, r)
        }
    }

    pub fn charge_work(&mut self, amount: u64) -> (r: Result<(), ContextProjectionError>)
        ensures
            old(self).work_outcome(amount, *final(self), r),
    {
        match checked_bounded_sum(
            self.work.verification_work,
            amount,
            "normal delta verification work",
            MAX_NORMAL_DELTA_VERIFICATION_WORK,
        ) {
            Ok(n) => {
                self.work.verification_work = n;
                Ok(())
            },
            Err(e) => Err(e),
        }
    }

    pub fn charge_lookup(&mut self) -> (r: Result<(), ContextProjectionError>)
        ensures
            old(self).work_outcome(1, *final(self), r),
    {
        self.charge_work(1)
    }

    pub fn charge_event(&mut self) -> (r: Result<(), ContextProjectionError>)
        ensures
            old(self).event_outcome(*final(self), r),
    {
        match checked_bounded_sum(
            self.work.events,
            1,
            "normal delta events",
            MAX_NORMAL_DELTA_EVENTS,
        ) {
            Ok(n) => {
                self.work.events = n;
                self.charge_work(1)
            },
            Err(e) => Err(e),
        }
    }

    pub fn charge_context_payload(&mut self, bytes: usize) -> (r: Result<
        (),
        ContextProjectionError,
    >)
        ensures
            old(self).payload_outcome(bytes, *final(self), r),
    {
        match checked_bounded_sum(
            self.work.context_payload_bytes,
            bytes as u64,
            "normal delta context payload bytes",
            MAX_NORMAL_DELTA_CONTEXT_BYTES,
        ) {
            Ok(n) => {
                self.work.context_payload_bytes = n;
                self.charge_work(1)
            },
            Err(e) => Err(e),
        }
    }

    /// How many more events may be inspected.
    pub open spec fn events_left(self) -> u64 {
        if self.work.events > MAX_NORMAL_DELTA_EVENTS {
            0
        } else {
            (MAX_NORMAL_DELTA_EVENTS - self.work.events) as u64
        }
    }

    pub fn remaining_events(&self) -> (n: u64)
        ensures
            n == self.events_left(),
    {
        MAX_NORMAL_DELTA_EVENTS.saturating_sub(self.work.events)
    }
}

/// Charges a lookup where a budget is kept.
pub fn charge_lookup_if(budget: &mut Option<DeltaVerificationBudget>) -> (r: Result<
    (),
    ContextProjectionError,
>)
    ensures
        match *old(budget) {
            None => r is Ok && *final(budget) is None,
            Some(b) => *final(budget) is Some && b.work_outcome(1, final(budget)->0, r),
        },
{
    match *budget {
        None => Ok(()),
        Some(b) => {
            let mut next = b;
            let r = next.charge_lookup();
            *budget = Some(next);
            r
        },
    }
}

/// Charging keeps every counter within its ceiling.
pub proof fn charging_stays_within_limits(
    before: DeltaVerificationBudget,
    after: DeltaVerificationBudget,
    bytes: usize,
    amount: u64,
    r: Result<(), ContextProjectionError>,
)
    requires
        before.within_limits(),
        before.work_outcome(amount, after, r) || before.event_outcome(after, r)
            || before.payload_outcome(bytes, after, r),
    ensures
        after.within_limits(),
        after.work.events >= before.work.events,
        after.work.context_payload_bytes >= before.work.context_payload_bytes,
        after.work.verification_work >= before.work.verification_work,
{
}

/// Work counters of source verification.
#[derive(Debug, Clone, Copy, PartialEq, Eq, Structural)]
pub struct ProjectionVerificationMetrics {
    pub full_replays: u64,
    pub delta_synchronizations: u64,
    pub fast_snapshots: u64,
    pub cache_repairs: u64,
    pub full_replay_events: u64,
    pub delta_events: u64,
    pub delta_context_payload_bytes: u64,
    pub delta_verification_work: u64,
    pub admission_index_lookups: u64,
}

/// How the projection catches up with the journal.
#[derive(Debug, Clone, Copy, PartialEq, Eq, Structural)]
pub enum CatchUpMode {
    FullReplay,
    VerifiedDelta,
}

impl ProjectionVerificationMetrics {
    /// The counters after catching up.
    pub open spec fn caught_up(self, mode: CatchUpMode, work: CatchUpWork) ->
        ProjectionVerificationMetrics {
        match mode {
            CatchUpMode::FullReplay => ProjectionVerificationMetrics {
                full_replay_events: attempted_sum(self.full_replay_events, work.events),
                ..self
            },
            CatchUpMode::VerifiedDelta => ProjectionVerificationMetrics {
                delta_events: attempted_sum(self.delta_events, work.events),
                delta_context_payload_bytes: attempted_sum(
                    self.delta_context_payload_bytes,
                    work.context_payload_bytes,
                ),
                delta_verification_work: attempted_sum(
                    self.delta_verification_work,
                    work.verification_work,
                ),
                ..self
            },
        }
    }

    /// The counters after a source verification.
    pub open spec fn verified(self, full_replay: bool, cache_repair: bool) ->
        ProjectionVerificationMetrics {
        ProjectionVerificationMetrics {
            full_replays: if full_replay {
                attempted_sum(self.full_replays, 1)
            } else {
                self.full_replays
            },
            cache_repairs: if cache_repair {
                attempted_sum(self.cache_repairs, 1)
            } else {
                self.cache_repairs
            },
            ..self
        }
    }

    pub fn new() -> (r: ProjectionVerificationMetrics)
        ensures
            r == (ProjectionVerificationMetrics {
                full_replays: 0,
                delta_synchronizations: 0,
                fast_snapshots: 0,
                cache_repairs: 0,
                full_replay_events: 0,
                delta_events: 0,
                delta_context_payload_bytes: 0,
                delta_verification_work: 0,
                admission_index_lookups: 0,
            }),
    {
        ProjectionVerificationMetrics {
            full_replays: 0,
            delta_synchronizations: 0,
            fast_snapshots: 0,
            cache_repairs: 0,
            full_replay_events: 0,
            delta_events: 0,
            delta_context_payload_bytes: 0,
            delta_verification_work: 0,
            admission_index_lookups: 0,
        }
    }

    /// Counts the work of catching up.
    pub fn record_catch_up(&mut self, mode: CatchUpMode, work: CatchUpWork)
        ensures
            *final(self) == old(self).caught_up(mode, work),
    {
        match mode {
            CatchUpMode::FullReplay => {
                self.full_replay_events = self.full_replay_events.saturating_add(work.events);
            },
            CatchUpMode::VerifiedDelta => {
                self.delta_events = self.delta_events.saturating_add(work.events);
                self.delta_context_payload_bytes =
                self.delta_context_payload_bytes.saturating_add(work.context_payload_bytes);
                self.delta_verification_work =
                self.delta_verification_work.saturating_add(work.verification_work);
            },
        }
    }

    /// Counts a source verification.
    pub fn record_verification(&mut self, full_replay: bool, cache_repair: bool)
        ensures
            *final(self) == old(self).verified(full_replay, cache_repair),
    {
        if full_replay {
            self.full_replays = self.full_replays.saturating_add(1);
        }
        if cache_repair {
            self.cache_repairs = self.cache_repairs.saturating_add(1);
        }
    }

    /// Counts a delta synchronization that moved the projection forward.
    pub fn record_delta(&mut self, advanced: bool)
        ensures
            *final(self) == (ProjectionVerificationMetrics {
                delta_synchronizations: if advanced {
                    attempted_sum(old(self).delta_synchronizations, 1)
                } else {
                    old(self).delta_synchronizations
                },
                ..*old(self)
            }),
    {
        if advanced {
            self.delta_synchronizations = self.delta_synchronizations.saturating_add(1);
        }
    }

    /// Counts a snapshot.
    pub fn record_snapshot(&mut self)
        ensures
            *final(self) == (ProjectionVerificationMetrics {
                fast_snapshots: attempted_sum(old(self).fast_snapshots, 1),
                ..*old(self)
            }),
    {
        self.fast_snapshots = self.fast_snapshots.saturating_add(1);
    }

    /// Counts lookups in the index.
    pub fn record_lookups(&mut self, lookups: u64)
        ensures
            *final(self) == (ProjectionVerificationMetrics {
                admission_index_lookups: attempted_sum(old(self).admission_index_lookups, lookups),
                ..*old(self)
            }),
    {
        self.admission_index_lookups = self.admission_index_lookups.saturating_add(lookups);
    }
}

/// A bounded counter adds up to its maximum and no further; beyond it nothing is
/// counted, and the refusal tells what was counted, how far it would have gone and
/// how far it may go.
pub proof fn bounded_counters_stop_at_their_maximum(
    current: u64,
    amount: u64,
    dimension: Seq<char>,
    maximum: u64,
    r: Result<u64, ContextProjectionError>,
)
    requires
        bounded_sum_outcome(current, amount, dimension, maximum, r),
    ensures
        current + amount <= maximum ==> r is Ok,
        current + amount > maximum && maximum < u64::MAX ==> r is Err,
        r is Ok && current + amount <= u64::MAX ==> r->Ok_0 == current + amount,
        r is Ok ==> r->Ok_0 <= maximum,
        r matches Err(e) ==> (e matches ContextProjectionError::SessionIndexLimitExceeded {
            dimension: d,
            attempted,
            maximum: m,
        } && d@ == dimension && m == maximum && (current + amount <= u64::MAX ==> attempted
            == current + amount) && (current + amount > u64::MAX ==> attempted == u64::MAX)),
{
}

} // verus!
