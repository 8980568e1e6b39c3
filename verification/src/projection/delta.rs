//! Catching the projection up with the journal, page by page.

use vstd::prelude::*;

use crate::context::node::ContextNode;
use crate::events::record::EventRecord;
use crate::projection::budget::{
    attempted_sum, charge_lookup_if, no_work, refuses_count, CatchUpMode, CatchUpWork,
    DeltaVerificationBudget, MAX_NORMAL_DELTA_EVENTS, MAX_NORMAL_DELTA_VERIFICATION_WORK,
    SYNC_PAGE_SIZE,
};
use crate::projection::checkpoint::{
    CheckpointModel, ProjectionCheckpoint, CONTEXT_PROJECTION_SCHEMA_VERSION,
};
use crate::projection::decode::{decode_outcome, decode_recorded_node, ValidatedRecordedNode};
use crate::projection::error::ContextProjectionError;
use crate::projection::identity::{IdentityIndex, IdentityModel, SessionIndexIdentity};
use crate::projection::sources::{after_lookups, lookup_allowed, refuses_lookup};
use crate::text::{copy_optional_text, optional_text, same_optional_text};

verus! {

/// How many events the next page may hold: a full page, or what is left of the
/// budget where one is kept.
pub open spec fn page_limit_of(budget: Option<DeltaVerificationBudget>) -> u64 {
    match budget {
        Some(b) => if b.events_left() < SYNC_PAGE_SIZE {
            b.events_left()
        } else {
            SYNC_PAGE_SIZE
        },
        None => SYNC_PAGE_SIZE,
    }
}

/// The error refuses one event more than a delta may inspect.
pub open spec fn refuses_next_page(e: ContextProjectionError) -> bool {
    refuses_count(
        e,
        "normal delta events"@,
        (MAX_NORMAL_DELTA_EVENTS + 1) as u64,
        MAX_NORMAL_DELTA_EVENTS,
    )
}

/// How many events the next page may hold.
pub fn page_limit(budget: &Option<DeltaVerificationBudget>) -> (r: Result<
    u64,
    ContextProjectionError,
>)
    ensures
        match r {
            Ok(n) => n == page_limit_of(*budget) && 0 < n <= SYNC_PAGE_SIZE,
            Err(e) => page_limit_of(*budget) == 0 && refuses_next_page(e),
        },
{
    match budget {
        None => Ok(SYNC_PAGE_SIZE),
        Some(b) => {
            let left: u64 = b.remaining_events();
            if left == 0 {
                return Err(
                    ContextProjectionError::SessionIndexLimitExceeded {
                        dimension: "normal delta events",
                        attempted: MAX_NORMAL_DELTA_EVENTS + 1,
                        maximum: MAX_NORMAL_DELTA_EVENTS,
                    },
                );
            }
            if left < SYNC_PAGE_SIZE {
                Ok(left)
            } else {
                Ok(SYNC_PAGE_SIZE)
            }
        },
    }
}

/// The event follows the one before it and lies within the high-water.
pub open spec fn in_sequence(previous: i64, seq: i64, high_water: i64) -> bool {
    previous < seq <= high_water
}

/// The sequence before event `i` of a page.
pub open spec fn before_event(cursor: i64, page: Seq<EventRecord>, i: int) -> i64 {
    if i <= 0 {
        cursor
    } else {
        page[i - 1].seq
    }
}

/// Catching up from a checkpoint to a high-water.
pub struct CatchUp {
    pub high_water: i64,
    pub checkpoint: ProjectionCheckpoint,
    pub cursor: i64,
    pub budget: Option<DeltaVerificationBudget>,
    pub events: u64,
}

/// The model of catching up.
pub struct CatchUpModel {
    pub high_water: i64,
    pub checkpoint: CheckpointModel,
    pub cursor: i64,
    pub budget: Option<DeltaVerificationBudget>,
    pub events: u64,
}

impl View for CatchUp {
    type V = CatchUpModel;

    open spec fn view(&self) -> CatchUpModel {
        CatchUpModel {
            high_water: self.high_water,
            checkpoint: self.checkpoint@,
            cursor: self.cursor,
            budget: self.budget,
            events: self.events,
        }
    }
}

/// What to do next when catching up.
#[derive(Debug, Clone, Copy, PartialEq, Eq, Structural)]
pub enum CatchUpAction {
    /// Read at most `limit` events after `after`.
    ReadPage { after: i64, limit: u64 },
    /// The high-water is reached.
    Finished,
}

/// The counters after one more event: the budget's, or else the plain count.
pub open spec fn counted(m: CatchUpModel) -> CatchUpModel {
    match m.budget {
        Some(b) => CatchUpModel { budget: Some(b.evented().worked(1)), ..m },
        None => CatchUpModel { events: attempted_sum(m.events, 1), ..m },
    }
}

/// The counters after `k` more events.
pub open spec fn counted_times(m: CatchUpModel, k: nat) -> CatchUpModel
    decreases k,
{
    if k == 0 {
        m
    } else {
        counted(counted_times(m, (k - 1) as nat))
    }
}

/// One more event is within the budget.
pub open spec fn event_allowed(budget: Option<DeltaVerificationBudget>) -> bool {
    match budget {
        Some(b) => attempted_sum(b.work.events, 1) <= MAX_NORMAL_DELTA_EVENTS && attempted_sum(
            b.work.verification_work,
            1,
        ) <= MAX_NORMAL_DELTA_VERIFICATION_WORK,
        None => true,
    }
}

/// Event `i` of a page is counted and in sequence.
pub open spec fn event_fine(m: CatchUpModel, page: Seq<EventRecord>, i: int) -> bool {
    &&& event_allowed(counted_times(m, i as nat).budget)
    &&& in_sequence(before_event(m.cursor, page, i), page[i].seq, m.high_water)
}

/// The error reports event `i`, the first of the page that is not fine.
pub open spec fn reports_event(
    e: ContextProjectionError,
    m: CatchUpModel,
    page: Seq<EventRecord>,
    after: CatchUpModel,
    i: int,
) -> bool {
    &&& 0 <= i < page.len()
    &&& forall|j: int| 0 <= j < i ==> #[trigger] event_fine(m, page, j)
    &&& if !event_allowed(counted_times(m, i as nat).budget) {
        &&& counted_times(m, i as nat).budget is Some
        &&& after.budget is Some
        &&& counted_times(m, i as nat).budget->0.event_outcome(after.budget->0, Err(e))
    } else {
        &&& !event_fine(m, page, i)
        &&& e == ContextProjectionError::NonMonotonicPage {
            after: before_event(m.cursor, page, i),
            found: page[i].seq,
        }
    }
}

/// The result of taking a page: an empty page before the high-water, or the
/// first event that is over budget or out of sequence, refuses it.
pub open spec fn page_outcome(
    m: CatchUpModel,
    page: Seq<EventRecord>,
    after: CatchUpModel,
    r: Result<(), ContextProjectionError>,
) -> bool {
    if page.len() == 0 {
        &&& after == m
        &&& r == Err::<(), ContextProjectionError>(
            ContextProjectionError::HighWaterUnreachable {
                cursor: m.cursor,
                high_water: m.high_water,
            },
        )
    } else {
        match r {
            Ok(_) => {
                &&& forall|i: int| 0 <= i < page.len() ==> #[trigger] event_fine(m, page, i)
                &&& after == counted_times(m, page.len())
            },
            Err(e) => exists|i: int| #[trigger] reports_event(e, m, page, after, i),
        }
    }
}

/// The checkpoint at an event, with the digest of what was applied through it.
pub open spec fn checkpoint_at(seq: i64, event_id: Seq<char>, digest: Seq<u8>) -> CheckpointModel {
    CheckpointModel {
        schema_version: CONTEXT_PROJECTION_SCHEMA_VERSION,
        through_seq: seq,
        through_event_id: Some(event_id),
        canonical_state_digest: digest,
    }
}

/// Catching up once the page that ends with an event is committed.
pub open spec fn committed(m: CatchUpModel, seq: i64, event_id: Seq<char>, digest: Seq<u8>) ->
    CatchUpModel {
    CatchUpModel { checkpoint: checkpoint_at(seq, event_id, digest), cursor: seq, ..m }
}

fn charge_event_if(budget: &mut Option<DeltaVerificationBudget>) -> (r: Result<
    (),
    ContextProjectionError,
>)
    ensures
        match *old(budget) {
            None => r is Ok && *final(budget) is None,
            Some(b) => *final(budget) is Some && b.event_outcome(final(budget)->0, r),
        },
{
    match *budget {
        None => Ok(()),
        Some(b) => {
            let mut next = b;
            let r = next.charge_event();
            *budget = Some(next);
            r
        },
    }
}

impl CatchUp {
    /// Starts at a checkpoint. A verified delta is held to its budget; a full
    /// replay only counts its events.
    pub fn new(high_water: i64, checkpoint: ProjectionCheckpoint, mode: CatchUpMode) -> (r: CatchUp)
        ensures
            r@.high_water == high_water,
            r@.checkpoint == checkpoint@,
            r@.cursor == checkpoint@.through_seq,
            r@.events == 0,
            match mode {
                CatchUpMode::VerifiedDelta => r@.budget is Some && r@.budget->0.work == no_work(),
                CatchUpMode::FullReplay => r@.budget is None,
            },
    {
        let cursor: i64 = checkpoint.through_seq;
        let budget: Option<DeltaVerificationBudget> = match mode {
            CatchUpMode::VerifiedDelta => Some(DeltaVerificationBudget::new()),
            CatchUpMode::FullReplay => None,
        };
        CatchUp { high_water, checkpoint, cursor, budget, events: 0 }
    }

    /// What to do next.
    pub fn next_action(&self) -> (r: Result<CatchUpAction, ContextProjectionError>)
        ensures
            next_outcome(self.cursor, self.high_water, self.budget, r),
            self.cursor >= self.high_water ==> r == Ok::<CatchUpAction, ContextProjectionError>(
                CatchUpAction::Finished,
            ),
            self.cursor < self.high_water && page_limit_of(self.budget) > 0 ==> r == Ok::<
                CatchUpAction,
                ContextProjectionError,
            >(
                CatchUpAction::ReadPage {
                    after: self.cursor,
                    limit: page_limit_of(self.budget),
                },
            ),
            self.cursor < self.high_water && page_limit_of(self.budget) == 0 ==> r is Err
                && refuses_next_page(r->Err_0),
    {
        if self.cursor >= self.high_water {
            return Ok(CatchUpAction::Finished);
        }
        match page_limit(&self.budget) {
            Ok(limit) => Ok(CatchUpAction::ReadPage { after: self.cursor, limit }),
            Err(e) => Err(e),
        }
    }

    /// Counts the events of a page and checks their sequence.
    pub fn take_page(&mut self, page: &Vec<EventRecord>) -> (r: Result<
        (),
        ContextProjectionError,
    >)
        ensures
            page_outcome(old(self)@, page@, final(self)@, r),
    {
        if page.len() == 0 {
            return Err(
                ContextProjectionError::HighWaterUnreachable {
                    cursor: self.cursor,
                    high_water: self.high_water,
                },
            );
        }
        let ghost m = self@;
        let mut previous: i64 = self.cursor;
        let mut i: usize = 0;
        while i < page.len()
            invariant
                m == old(self)@,
                0 <= i <= page@.len(),
                page@.len() > 0,
                self@ == counted_times(m, i as nat),
                self.cursor == m.cursor,
                self.high_water == m.high_water,
                previous == before_event(m.cursor, page@, i as int),
                forall|j: int| 0 <= j < i ==> #[trigger] event_fine(m, page@, j),
            decreases page.len() - i,
        {
            match charge_event_if(&mut self.budget) {
                Err(e) => {
                    assert(reports_event(e, m, page@, self@, i as int));
                    return Err(e);
                },
                Ok(()) => {},
            }
            if self.budget.is_none() {
                self.events = self.events.saturating_add(1);
            }
            assert(self@ == counted_times(m, (i + 1) as nat));
            let seq: i64 = page[i].seq;
            if seq <= previous || seq > self.high_water {
                let e = ContextProjectionError::NonMonotonicPage { after: previous, found: seq };
                assert(!event_fine(m, page@, i as int));
                assert(reports_event(e, m, page@, self@, i as int));
                return Err(e);
            }
            assert(event_fine(m, page@, i as int));
            previous = seq;
            i += 1;
        }
        Ok(())
    }

    /// Moves the checkpoint to the last event of an applied page. `updated` is
    /// the number of stored checkpoints that were moved.
    pub fn commit_page(&mut self, last: &EventRecord, digest: [u8; 32], updated: usize) -> (r:
        Result<(), ContextProjectionError>)
        ensures
            commit_outcome(old(self)@, last.seq, last.event_id@, digest@, updated, final(self)@, r),
            updated != 1 ==> r == Err::<(), ContextProjectionError>(
                ContextProjectionError::MissingCheckpointDuringPage,
            ) && final(self)@ == old(self)@,
            updated == 1 ==> r is Ok && final(self)@ == committed(
                old(self)@,
                last.seq,
                last.event_id@,
                digest@,
            ),
    {
        if updated != 1 {
            return Err(ContextProjectionError::MissingCheckpointDuringPage);
        }
        self.checkpoint = ProjectionCheckpoint {
            schema_version: CONTEXT_PROJECTION_SCHEMA_VERSION,
            through_seq: last.seq,
            through_event_id: Some(last.event_id.clone()),
            canonical_state_digest: digest,
        };
        self.cursor = last.seq;
        Ok(())
    }

    /// The work done so far.
    pub fn work(&self) -> (w: CatchUpWork)
        ensures
            w == match self.budget {
                Some(b) => b.work,
                None => CatchUpWork {
                    events: self.events,
                    context_payload_bytes: 0,
                    verification_work: 0,
                },
            },
    {
        match self.budget {
            Some(b) => b.work,
            None => CatchUpWork {
                events: self.events,
                context_payload_bytes: 0,
                verification_work: 0,
            },
        }
    }
}

/// The events of a page that was taken ascend strictly, and none lies beyond
/// the high-water.
pub proof fn taken_pages_ascend(
    m: CatchUpModel,
    page: Seq<EventRecord>,
    after: CatchUpModel,
    i: int,
    j: int,
)
    requires
        page_outcome(m, page, after, Ok(())),
        0 <= i < j < page.len(),
    ensures
        m.cursor < page[i].seq < page[j].seq <= m.high_water,
    decreases j,
{
    assert(event_fine(m, page, j));
    assert(event_fine(m, page, i));
    if i > 0 {
        taken_pages_ascend(m, page, after, i - 1, i);
    }
    if j > i + 1 {
        taken_pages_ascend(m, page, after, i, j - 1);
    }
}

/// Committing a page that was taken moves the cursor forward and never beyond
/// the high-water, so catching up ends exactly there.
pub proof fn committed_pages_advance(
    m: CatchUpModel,
    page: Seq<EventRecord>,
    after: CatchUpModel,
)
    requires
        page_outcome(m, page, after, Ok(())),
    ensures
        page.len() > 0,
        m.cursor < page.last().seq <= m.high_water,
{
    let n = page.len() as int;
    assert(event_fine(m, page, n - 1));
    if n > 1 {
        taken_pages_ascend(m, page, after, 0, n - 1);
    }
}

/// A page that was taken, applied and committed: its events, what taking it
/// left, the budget that applying its events left, and the digest that it was
/// committed with.
pub struct CommittedPage {
    pub events: Seq<EventRecord>,
    pub taken: CatchUpModel,
    pub budget: Option<DeltaVerificationBudget>,
    pub digest: Seq<u8>,
}

/// Catching up once a page is committed.
pub open spec fn after_page(p: CommittedPage) -> CatchUpModel {
    committed(
        CatchUpModel { budget: p.budget, ..p.taken },
        p.events.last().seq,
        p.events.last().event_id@,
        p.digest,
    )
}

/// Catching up once the pages are committed, one after the other.
pub open spec fn after_pages(start: CatchUpModel, pages: Seq<CommittedPage>) -> CatchUpModel {
    if pages.len() == 0 {
        start
    } else {
        after_page(pages.last())
    }
}

/// Each page was taken where the page before it left off.
pub open spec fn pages_taken(start: CatchUpModel, pages: Seq<CommittedPage>) -> bool {
    forall|i: int|
        0 <= i < pages.len() ==> page_outcome(
            after_pages(start, pages.take(i)),
            (#[trigger] pages[i]).events,
            pages[i].taken,
            Ok(()),
        )
}

proof fn lemma_counting_keeps_place(m: CatchUpModel, k: nat)
    ensures
        counted_times(m, k).high_water == m.high_water,
        counted_times(m, k).checkpoint == m.checkpoint,
        counted_times(m, k).cursor == m.cursor,
    decreases k,
{
    if k > 0 {
        lemma_counting_keeps_place(m, (k - 1) as nat);
    }
}

/// Committed pages keep the high-water, keep the checkpoint at the cursor, and
/// never pass the high-water.
pub proof fn committed_pages_stay_within(start: CatchUpModel, pages: Seq<CommittedPage>)
    requires
        pages_taken(start, pages),
        start.cursor == start.checkpoint.through_seq,
        start.cursor <= start.high_water,
    ensures
        ({
            let end = after_pages(start, pages);
            &&& end.high_water == start.high_water
            &&& end.cursor == end.checkpoint.through_seq
            &&& start.cursor <= end.cursor <= end.high_water
        }),
    decreases pages.len(),
{
    if pages.len() > 0 {
        let n = pages.len() - 1;
        let before = pages.take(n);
        let p = pages[n];
        assert(page_outcome(after_pages(start, before), p.events, p.taken, Ok(())));
        assert forall|i: int| 0 <= i < before.len() implies page_outcome(
            after_pages(start, before.take(i)),
            (#[trigger] before[i]).events,
            before[i].taken,
            Ok(()),
        ) by {
            assert(before.take(i) =~= pages.take(i));
            assert(pages[i] == before[i]);
        }
        committed_pages_stay_within(start, before);
        let m = after_pages(start, before);
        committed_pages_advance(m, p.events, p.taken);
        lemma_counting_keeps_place(m, p.events.len());
    }
}

/// The checkpoint is where catching up from another ends: the pages between them
/// were committed, and the cursor reached the high-water.
pub open spec fn reached(
    start: CatchUpModel,
    pages: Seq<CommittedPage>,
    checkpoint: CheckpointModel,
) -> bool {
    &&& start.cursor == start.checkpoint.through_seq
    &&& pages_taken(start, pages)
    &&& after_pages(start, pages).cursor >= start.high_water
    &&& after_pages(start, pages).checkpoint == checkpoint
}

/// Catching up from within the high-water ends exactly there.
pub proof fn catching_up_ends_at_the_high_water(
    start: CatchUpModel,
    pages: Seq<CommittedPage>,
    checkpoint: CheckpointModel,
)
    requires
        start.checkpoint.through_seq <= start.high_water,
        reached(start, pages, checkpoint),
    ensures
        checkpoint.through_seq == start.high_water,
{
    committed_pages_stay_within(start, pages);
}

/// Checking a delta against the verified identities before it is applied.
pub struct DeltaCheck {
    overlay: IdentityIndex,
    budget: Option<DeltaVerificationBudget>,
    previous: i64,
    through_seq: i64,
}

/// Where an identity is recorded: in the delta so far, or else before it.
pub open spec fn known(
    overlay: Option<IdentityModel>,
    source: Option<IdentityModel>,
) -> Option<IdentityModel> {
    match overlay {
        Some(i) => Some(i),
        None => source,
    }
}

/// Where a node of a session is recorded: in the delta so far, or else before
/// it.
pub open spec fn known_at(
    overlay: IdentityIndex,
    source: IdentityIndex,
    session: Seq<char>,
    node: Seq<char>,
) -> Option<IdentityModel> {
    known(overlay.at(session, node), source.at(session, node))
}

/// The overlay holds what it held and one more identity.
pub open spec fn overlay_with(
    before: IdentityIndex,
    after: IdentityIndex,
    session: Seq<char>,
    node: Seq<char>,
    identity: IdentityModel,
) -> bool {
    forall|s: Seq<char>, n: Seq<char>| #[trigger]
        after.at(s, n) == if s == session && n == node {
            Some(identity)
        } else {
            before.at(s, n)
        }
}

/// The result of checking a recorded node of a delta: decoding decides first,
/// then the identities known so far.
pub open spec fn recorded_outcome(
    event: EventRecord,
    parsed: Result<ContextNode, String>,
    found: Seq<Option<EventRecord>>,
    source: IdentityIndex,
    before: DeltaCheck,
    after: DeltaCheck,
    r: Result<(), ContextProjectionError>,
) -> bool {
    match r {
        Err(e) => {
            &&& after.recorded() == before.recorded()
            &&& {
                ||| decode_outcome(
                    event,
                    parsed,
                    found,
                    before.counters(),
                    after.counters(),
                    Err(e),
                )
                ||| exists|v: ValidatedRecordedNode, b: Option<DeltaVerificationBudget>|
                    {
                        &&& #[trigger] decode_outcome(
                            event,
                            parsed,
                            found,
                            before.counters(),
                            b,
                            Ok(v),
                        )
                        &&& admission_refusal(
                            v,
                            before.recorded(),
                            source,
                            b,
                            after.counters(),
                            e,
                        )
                    }
            }
        },
        Ok(_) => exists|v: ValidatedRecordedNode, b: Option<DeltaVerificationBudget>|
            {
                &&& #[trigger] decode_outcome(event, parsed, found, before.counters(), b, Ok(v))
                &&& admissible_node(v, before.recorded(), source, b)
                &&& after.counters() == after_lookups(b, v.node@.supersedes.len() + 1)
                &&& overlay_with(
                    before.recorded(),
                    after.recorded(),
                    v.session_id@,
                    v.node@.id,
                    IdentityModel {
                        task_id: optional_text(v.task_id),
                        event_seq: event.seq,
                        event_id: event.event_id@,
                    },
                )
            },
    }
}

impl DeltaCheck {
    /// The identities that the delta has recorded so far.
    pub closed spec fn recorded(&self) -> IdentityIndex {
        self.overlay
    }

    /// Where the delta has recorded a node of a session so far.
    pub open spec fn at(&self, session: Seq<char>, node: Seq<char>) -> Option<IdentityModel> {
        self.recorded().at(session, node)
    }

    pub closed spec fn counters(&self) -> Option<DeltaVerificationBudget> {
        self.budget
    }

    pub closed spec fn position(&self) -> i64 {
        self.previous
    }

    pub closed spec fn limit(&self) -> i64 {
        self.through_seq
    }

    pub closed spec fn well_formed(&self) -> bool {
        self.overlay.well_formed() && self.budget is Some
    }

    /// Starts after a sequence.
    pub fn new(after_seq: i64, through_seq: i64) -> (r: DeltaCheck)
        ensures
            r.well_formed(),
            r.counters() is Some,
            r.counters()->0.work == no_work(),
            r.position() == after_seq,
            r.limit() == through_seq,
            forall|s: Seq<char>, n: Seq<char>| #[trigger] r.at(s, n) is None,
    {
        DeltaCheck {
            overlay: IdentityIndex::new(),
            budget: Some(DeltaVerificationBudget::new()),
            previous: after_seq,
            through_seq,
        }
    }

    /// What to do next.
    pub fn next_action(&self) -> (r: Result<CatchUpAction, ContextProjectionError>)
        ensures
            next_outcome(self.position(), self.limit(), self.counters(), r),
            self.position() >= self.limit() ==> r == Ok::<CatchUpAction, ContextProjectionError>(
                CatchUpAction::Finished,
            ),
            self.position() < self.limit() && page_limit_of(self.counters()) > 0 ==> r == Ok::<
                CatchUpAction,
                ContextProjectionError,
            >(
                CatchUpAction::ReadPage {
                    after: self.position(),
                    limit: page_limit_of(self.counters()),
                },
            ),
            self.position() < self.limit() && page_limit_of(self.counters()) == 0 ==> r is Err
                && refuses_next_page(r->Err_0),
    {
        if self.previous >= self.through_seq {
            return Ok(CatchUpAction::Finished);
        }
        match page_limit(&self.budget) {
            Ok(limit) => Ok(CatchUpAction::ReadPage { after: self.previous, limit }),
            Err(e) => Err(e),
        }
    }

    /// Refuses an empty page before the end.
    pub fn check_not_empty(&self, page_len: usize) -> (r: Result<(), ContextProjectionError>)
        ensures
            page_len > 0 ==> r is Ok,
            page_len == 0 ==> r == Err::<(), ContextProjectionError>(
                ContextProjectionError::HighWaterUnreachable {
                    cursor: self.position(),
                    high_water: self.limit(),
                },
            ),
    {
        if page_len == 0 {
            return Err(
                ContextProjectionError::HighWaterUnreachable {
                    cursor: self.previous,
                    high_water: self.through_seq,
                },
            );
        }
        Ok(())
    }

    /// Counts the next event and checks its sequence.
    pub fn step(&mut self, seq: i64) -> (r: Result<(), ContextProjectionError>)
        requires
            old(self).well_formed(),
        ensures
            final(self).well_formed(),
            final(self).limit() == old(self).limit(),
            final(self).recorded() == old(self).recorded(),
            step_outcome(
                old(self).counters()->0,
                old(self).position(),
                old(self).limit(),
                seq,
                final(self).counters()->0,
                final(self).position(),
                r,
            ),
    {
        match charge_event_if(&mut self.budget) {
            Err(e) => {
                return Err(e);
            },
            Ok(()) => {},
        }
        if seq <= self.previous || seq > self.through_seq {
            return Err(
                ContextProjectionError::NonMonotonicPage { after: self.previous, found: seq },
            );
        }
        self.previous = seq;
        Ok(())
    }

    fn find(&self, source: &IdentityIndex, session: &str, node: &str) -> (r: Option<
        SessionIndexIdentity,
    >)
        requires
            self.well_formed(),
            source.well_formed(),
        ensures
            match r {
                Some(i) => known_at(self.overlay, *source, session@, node@) == Some(i@),
                None => known_at(self.overlay, *source, session@, node@) is None,
            },
    {
        match self.overlay.lookup(session, node) {
            Some(i) => Some(i),
            None => source.lookup(session, node),
        }
    }

    /// Checks a recorded node of the delta against the identities known so far:
    /// its own must be new, and those it supersedes recorded in its own task.
    pub fn check_recorded_node(
        &mut self,
        event: &EventRecord,
        parsed: &Result<ContextNode, String>,
        found: &Vec<Option<EventRecord>>,
        source: &IdentityIndex,
    ) -> (r: Result<(), ContextProjectionError>)
        requires
            old(self).well_formed(),
            source.well_formed(),
            parsed matches Ok(node) ==> found@.len() == node.source_event_ids@.len(),
        ensures
            final(self).well_formed(),
            final(self).position() == old(self).position(),
            final(self).limit() == old(self).limit(),
            recorded_outcome(*event, *parsed, found@, *source, *old(self), *final(self), r),
    {
        let ghost before = *self;
        let v = match decode_recorded_node(event, parsed, found, &mut self.budget) {
            Ok(v) => v,
            Err(e) => {
                return Err(e);
            },
        };
        let ghost b = self.budget;
        assert(decode_outcome(*event, *parsed, found@, before.counters(), b, Ok(v)));
        match self.admit_identity(&v, source) {
            Err(e) => {
                return Err(e);
            },
            Ok(()) => {},
        }
        let added = self.overlay.insert(
            v.session_id.clone(),
            v.node.id.clone(),
            SessionIndexIdentity {
                task_id: copy_optional_text(&v.task_id),
                event_seq: event.seq,
                event_id: event.event_id.clone(),
            },
        );
        assert(known_at(before.recorded(), *source, v.session_id@, v.node@.id) is None);
        Ok(())
    }

    /// Checks a decoded node against the identities known so far.
    fn admit_identity(&mut self, v: &ValidatedRecordedNode, source: &IdentityIndex) -> (r: Result<
        (),
        ContextProjectionError,
    >)
        requires
            old(self).well_formed(),
            source.well_formed(),
        ensures
            final(self).well_formed(),
            final(self).overlay == old(self).overlay,
            final(self).previous == old(self).previous,
            final(self).through_seq == old(self).through_seq,
            match r {
                Ok(_) => admissible_node(
                    *v,
                    old(self).overlay,
                    *source,
                    old(self).budget,
                ) && final(self).budget == after_lookups(
                    old(self).budget,
                    v.node@.supersedes.len() + 1,
                ),
                Err(e) => admission_refusal(
                    *v,
                    old(self).overlay,
                    *source,
                    old(self).budget,
                    final(self).budget,
                    e,
                ),
            },
    {
        let ghost before = *self;
        let ghost overlay = self.overlay;
        let ghost start = self.budget;
        reveal_with_fuel(after_lookups, 2);
        match charge_lookup_if(&mut self.budget) {
            Err(e) => {
                return Err(e);
            },
            Ok(()) => {},
        }
        let ghost b1 = after_lookups(start, 1);
        assert(self.budget == b1);
        if let Some(existing) = self.find(source, &v.session_id, &v.node.id) {
            return Err(
                ContextProjectionError::DuplicateNodeIdentity {
                    session_id: v.session_id.clone(),
                    node_id: v.node.id.clone(),
                    event_id: existing.event_id.clone(),
                    seq: existing.event_seq,
                },
            );
        }
        let mut i: usize = 0;
        while i < v.node.supersedes.len()
            invariant
                source.well_formed(),
                self.well_formed(),
                before == *old(self),
                self.overlay == before.overlay,
                self.previous == before.previous,
                self.through_seq == before.through_seq,
                overlay == before.overlay,
                start == before.budget,
                b1 == after_lookups(start, 1),
                lookup_allowed(start),
                known_at(overlay, *source, v.session_id@, v.node@.id) is None,
                0 <= i <= v.node.supersedes@.len(),
                self.budget == after_lookups(b1, i as nat),
                forall|j: int| 0 <= j < i ==> #[trigger] target_fine(*v, overlay, *source, b1, j),
            decreases v.node.supersedes.len() - i,
        {
            let target = &v.node.supersedes[i];
            assert(v.node@.supersedes[i as int] == target@);
            match charge_lookup_if(&mut self.budget) {
                Err(e) => {
                    assert(!target_fine(*v, overlay, *source, b1, i as int));
                    assert(reports_target(e, *v, overlay, *source, b1, self.budget, i as int));
                    return Err(e);
                },
                Ok(()) => {},
            }
            assert(self.budget == after_lookups(b1, (i + 1) as nat));
            match self.find(source, &v.session_id, target) {
                None => {
                    let e = ContextProjectionError::MissingSupersededNode {
                        node_id: v.node.id.clone(),
                        superseded_id: target.clone(),
                    };
                    assert(!target_fine(*v, overlay, *source, b1, i as int));
                    assert(reports_target(e, *v, overlay, *source, b1, self.budget, i as int));
                    return Err(e);
                },
                Some(existing) => {
                    if !same_optional_text(&existing.task_id, &v.task_id) {
                        let e = ContextProjectionError::SupersessionScopeMismatch {
                            node_id: v.node.id.clone(),
                            superseded_id: target.clone(),
                        };
                        assert(!target_fine(*v, overlay, *source, b1, i as int));
                        assert(reports_target(e, *v, overlay, *source, b1, self.budget, i as int));
                        return Err(e);
                    }
                },
            }
            assert(target_fine(*v, overlay, *source, b1, i as int));
            i += 1;
        }
        proof {
            lemma_after_lookups_add(start, 1, v.node@.supersedes.len());
        }
        Ok(())
    }
}

/// Lookups add up.
pub proof fn lemma_after_lookups_add(budget: Option<DeltaVerificationBudget>, a: nat, b: nat)
    ensures
        after_lookups(after_lookups(budget, a), b) == after_lookups(budget, a + b),
    decreases b,
{
    if b > 0 {
        lemma_after_lookups_add(budget, a, (b - 1) as nat);
    }
}

/// The result of counting the next event and checking its sequence.
pub open spec fn step_outcome(
    budget: DeltaVerificationBudget,
    previous: i64,
    through_seq: i64,
    seq: i64,
    budget_left: DeltaVerificationBudget,
    position: i64,
    r: Result<(), ContextProjectionError>,
) -> bool {
    if !event_allowed(Some(budget)) {
        r is Err && budget.event_outcome(budget_left, r) && position == previous
    } else {
        &&& budget_left == budget.evented().worked(1)
        &&& if in_sequence(previous, seq, through_seq) {
            r is Ok && position == seq
        } else {
            &&& r == Err::<(), ContextProjectionError>(
                ContextProjectionError::NonMonotonicPage { after: previous, found: seq },
            )
            &&& position == previous
        }
    }
}

/// Target `i` is recorded in the node's own task, and looking it up is within
/// the budget.
pub open spec fn target_fine(
    v: ValidatedRecordedNode,
    overlay: IdentityIndex,
    source: IdentityIndex,
    budget: Option<DeltaVerificationBudget>,
    i: int,
) -> bool {
    &&& lookup_allowed(after_lookups(budget, i as nat))
    &&& known_at(overlay, source, v.session_id@, v.node@.supersedes[i]) matches Some(t)
        && t.task_id == optional_text(v.task_id)
}

/// The node's identity is new and everything it supersedes is recorded in its
/// own task, all within the budget.
pub open spec fn admissible_node(
    v: ValidatedRecordedNode,
    overlay: IdentityIndex,
    source: IdentityIndex,
    budget: Option<DeltaVerificationBudget>,
) -> bool {
    &&& lookup_allowed(budget)
    &&& known_at(overlay, source, v.session_id@, v.node@.id) is None
    &&& forall|i: int|
        0 <= i < v.node@.supersedes.len() ==> #[trigger] target_fine(
            v,
            overlay,
            source,
            after_lookups(budget, 1),
            i,
        )
}

/// The error reports target `i`, the first that is not fine.
pub open spec fn reports_target(
    e: ContextProjectionError,
    v: ValidatedRecordedNode,
    overlay: IdentityIndex,
    source: IdentityIndex,
    budget: Option<DeltaVerificationBudget>,
    budget_left: Option<DeltaVerificationBudget>,
    i: int,
) -> bool {
    let target = v.node@.supersedes[i];
    &&& 0 <= i < v.node@.supersedes.len()
    &&& forall|j: int| 0 <= j < i ==> #[trigger] target_fine(v, overlay, source, budget, j)
    &&& !target_fine(v, overlay, source, budget, i)
    &&& if !lookup_allowed(after_lookups(budget, i as nat)) {
        refuses_lookup(e, after_lookups(budget, i as nat)) && budget_left == after_lookups(
            budget,
            i as nat,
        )
    } else {
        &&& budget_left == after_lookups(budget, (i + 1) as nat)
        &&& if known_at(overlay, source, v.session_id@, target) is None {
            &&& e is MissingSupersededNode
            &&& e->MissingSupersededNode_node_id@ == v.node@.id
            &&& e->MissingSupersededNode_superseded_id@ == target
        } else {
            &&& e is SupersessionScopeMismatch
            &&& e->SupersessionScopeMismatch_node_id@ == v.node@.id
            &&& e->SupersessionScopeMismatch_superseded_id@ == target
        }
    }
}

/// The refusal of a node by the identities known so far.
pub open spec fn admission_refusal(
    v: ValidatedRecordedNode,
    overlay: IdentityIndex,
    source: IdentityIndex,
    budget: Option<DeltaVerificationBudget>,
    budget_left: Option<DeltaVerificationBudget>,
    e: ContextProjectionError,
) -> bool {
    if !lookup_allowed(budget) {
        refuses_lookup(e, budget) && budget_left == budget
    } else {
        match known_at(overlay, source, v.session_id@, v.node@.id) {
            Some(taken) => {
                &&& e is DuplicateNodeIdentity
                &&& e->DuplicateNodeIdentity_session_id@ == v.session_id@
                &&& e->DuplicateNodeIdentity_node_id@ == v.node@.id
                &&& e->DuplicateNodeIdentity_event_id@ == taken.event_id
                &&& e->DuplicateNodeIdentity_seq == taken.event_seq
                &&& budget_left == after_lookups(budget, 1)
            },
            None => exists|i: int| #[trigger]
                reports_target(
                    e,
                    v,
                    overlay,
                    source,
                    after_lookups(budget, 1),
                    budget_left,
                    i,
                ),
        }
    }
}

/// A recorded node of a delta passes where it decodes, its identity is new, in the
/// delta and before it, and what it supersedes is recorded in its own task. It then
/// counts as recorded, by its own event, and nothing else that the delta recorded
/// changes; a refused one changes nothing that was recorded.
pub proof fn deltas_record_each_node_once(
    event: EventRecord,
    parsed: Result<ContextNode, String>,
    found: Seq<Option<EventRecord>>,
    source: IdentityIndex,
    before: DeltaCheck,
    after: DeltaCheck,
    r: Result<(), ContextProjectionError>,
    session: Seq<char>,
    node: Seq<char>,
)
    requires
        recorded_outcome(event, parsed, found, source, before, after, r),
    ensures
        r is Err ==> after.at(session, node) == before.at(session, node),
        r is Ok ==> parsed is Ok && event.session_id is Some,
        r is Ok ==> before.at(event.session_id->0@, parsed->Ok_0@.id) is None && source.at(
            event.session_id->0@,
            parsed->Ok_0@.id,
        ) is None,
        r is Ok ==> after.at(event.session_id->0@, parsed->Ok_0@.id) == Some(
            IdentityModel {
                task_id: optional_text(event.task_id),
                event_seq: event.seq,
                event_id: event.event_id@,
            },
        ),
        r is Ok && !(session == event.session_id->0@ && node == parsed->Ok_0@.id) ==> after.at(
            session,
            node,
        ) == before.at(session, node),
        r matches Err(ContextProjectionError::DuplicateNodeIdentity {
            session_id,
            node_id,
            event_id,
            seq,
        }) ==> parsed is Ok && session_id@ == event.session_id->0@ && node_id@ == parsed->Ok_0@.id
            && (before.at(session_id@, node_id@) is Some || source.at(session_id@, node_id@)
            is Some),
{
    if let Ok(u) = r {
        let (v, b) = choose|v: ValidatedRecordedNode, b: Option<DeltaVerificationBudget>|
            {
                &&& #[trigger] decode_outcome(event, parsed, found, before.counters(), b, Ok(v))
                &&& admissible_node(v, before.recorded(), source, b)
                &&& after.counters() == after_lookups(b, v.node@.supersedes.len() + 1)
                &&& overlay_with(
                    before.recorded(),
                    after.recorded(),
                    v.session_id@,
                    v.node@.id,
                    IdentityModel {
                        task_id: optional_text(v.task_id),
                        event_seq: event.seq,
                        event_id: event.event_id@,
                    },
                )
            };
        assert(v.node@ == parsed->Ok_0@);
        assert(v.session_id@ == event.session_id->0@);
        assert(after.recorded().at(session, node) == after.at(session, node));
        assert(after.recorded().at(v.session_id@, v.node@.id) == after.at(v.session_id@, v.node@.id));
    }
}

/// The next step of catching up.
pub open spec fn next_outcome(
    cursor: i64,
    high_water: i64,
    budget: Option<DeltaVerificationBudget>,
    r: Result<CatchUpAction, ContextProjectionError>,
) -> bool {
    if cursor >= high_water {
        r == Ok::<CatchUpAction, ContextProjectionError>(CatchUpAction::Finished)
    } else if page_limit_of(budget) > 0 {
        r == Ok::<CatchUpAction, ContextProjectionError>(
            CatchUpAction::ReadPage { after: cursor, limit: page_limit_of(budget) },
        )
    } else {
        r is Err && refuses_next_page(r->Err_0)
    }
}

/// Catching up is finished exactly where the cursor has reached the high-water;
/// before that, the next page starts right after the cursor, unless the budget has
/// no event left.
pub proof fn catching_up_goes_on_to_the_high_water(
    cursor: i64,
    high_water: i64,
    budget: Option<DeltaVerificationBudget>,
    r: Result<CatchUpAction, ContextProjectionError>,
)
    requires
        next_outcome(cursor, high_water, budget, r),
    ensures
        r == Ok::<CatchUpAction, ContextProjectionError>(CatchUpAction::Finished) <==> cursor
            >= high_water,
        r matches Ok(CatchUpAction::ReadPage { after, limit }) ==> after == cursor && cursor
            < high_water && 0 < limit <= 500 && (budget matches Some(b) ==> b.work.events + limit
            <= 65_536),
        cursor < high_water && budget is None ==> r is Ok,
        cursor < high_water && budget is Some && budget->0.work.events < 65_536 ==> r is Ok,
        r matches Err(e) ==> budget is Some && budget->0.work.events >= 65_536 && (
        e matches ContextProjectionError::SessionIndexLimitExceeded {
            dimension,
            attempted,
            maximum,
        } && dimension@ == "normal delta events"@ && attempted == 65_537 && maximum == 65_536),
{
}

/// The result of committing a page.
pub open spec fn commit_outcome(
    before: CatchUpModel,
    seq: i64,
    event_id: Seq<char>,
    digest: Seq<u8>,
    updated: usize,
    after: CatchUpModel,
    r: Result<(), ContextProjectionError>,
) -> bool {
    if updated == 1 {
        r is Ok && after == committed(before, seq, event_id, digest)
    } else {
        r == Err::<(), ContextProjectionError>(ContextProjectionError::MissingCheckpointDuringPage)
            && after == before
    }
}

/// A page is committed where exactly one stored checkpoint was moved, to its last
/// event; otherwise nothing moves.
pub proof fn pages_commit_one_checkpoint(
    before: CatchUpModel,
    seq: i64,
    event_id: Seq<char>,
    digest: Seq<u8>,
    updated: usize,
    after: CatchUpModel,
    r: Result<(), ContextProjectionError>,
)
    requires
        commit_outcome(before, seq, event_id, digest, updated, after, r),
    ensures
        r is Ok <==> updated == 1,
        r is Ok ==> after.cursor == seq && after.checkpoint.through_seq == seq
            && after.checkpoint.through_event_id == Some(event_id)
            && after.checkpoint.canonical_state_digest == digest && after.high_water
            == before.high_water && after.budget == before.budget && after.events == before.events,
        r is Err ==> after == before && r->Err_0 is MissingCheckpointDuringPage,
{
}

} // verus!
