//! What synchronizing counts, and how the index grows: told in numbers.

use vstd::prelude::*;
use vstd::utf8::*;

use crate::events::record::EventRecord;
use crate::projection::apply::{
    plan_outcome, recorded_in_task, reports_supersession, stored_in_task, supersession_fine,
    ApplyContextEventError, CacheLookups, ContextEventPlan,
};
use crate::projection::budget::{CatchUpWork, DeltaVerificationBudget};
use crate::projection::decode::ValidatedRecordedNode;
use crate::projection::delta::{
    admissible_node, counted_times, event_allowed, event_fine, page_limit_of,
    page_outcome, reports_event, step_outcome, target_fine, CatchUpModel,
};
use crate::projection::digest::{sha256_of, text_frame, IndexEntryModel};
use crate::projection::error::ContextProjectionError;
use crate::projection::identity::IdentityIndex;
use crate::projection::index::{
    advance_refusal, advanced_state, advances, columns_hold, edges_view, entry_size,
    RawSessionIndexEntry, StateModel,
};
use crate::projection::rules::has_room;
use crate::projection::sources::{after_lookups, lookup_allowed};
use crate::text::{optional_text, utf8_len};
use crate::time::Timestamp;

verus! {

/// An event costs one event and one unit of work, up to 65,536 events and 2,000,000
/// units; nothing else is touched, and an event beyond either is refused by the
/// name of what ran out.
pub proof fn events_cost_one_event_and_one_unit(
    b: DeltaVerificationBudget,
    after: DeltaVerificationBudget,
    r: Result<(), ContextProjectionError>,
)
    requires
        b.event_outcome(after, r),
    ensures
        r is Ok <==> b.work.events < 65_536 && b.work.verification_work < 2_000_000,
        r is Ok ==> after.work == (CatchUpWork {
            events: (b.work.events + 1) as u64,
            verification_work: (b.work.verification_work + 1) as u64,
            ..b.work
        }),
        b.work.events >= 65_536 ==> after == b && (r matches Err(
            ContextProjectionError::SessionIndexLimitExceeded { dimension, attempted, maximum },
        ) && dimension@ == "normal delta events"@ && attempted > maximum && maximum == 65_536),
        b.work.events < 65_536 && b.work.verification_work >= 2_000_000 ==> (r matches Err(
            ContextProjectionError::SessionIndexLimitExceeded { dimension, attempted, maximum },
        ) && dimension@ == "normal delta verification work"@ && attempted > maximum && maximum
            == 2_000_000),
{
}

/// A payload costs its bytes and one unit of work, up to 67,108,864 bytes.
pub proof fn payloads_cost_their_bytes(
    b: DeltaVerificationBudget,
    bytes: usize,
    after: DeltaVerificationBudget,
    r: Result<(), ContextProjectionError>,
)
    requires
        b.payload_outcome(bytes, after, r),
    ensures
        r is Ok <==> b.work.context_payload_bytes + bytes <= 67_108_864 && b.work.verification_work
            < 2_000_000,
        r is Ok ==> after.work.context_payload_bytes == b.work.context_payload_bytes + bytes
            && after.work.verification_work == b.work.verification_work + 1 && after.work.events
            == b.work.events,
        b.work.context_payload_bytes + bytes > 67_108_864 ==> after == b && (r matches Err(
            ContextProjectionError::SessionIndexLimitExceeded { dimension, attempted, maximum },
        ) && dimension@ == "normal delta context payload bytes"@ && attempted > maximum && maximum
            == 67_108_864),
{
}

/// Work costs what it amounts to; a refused charge changes nothing.
pub proof fn work_costs_its_amount(
    b: DeltaVerificationBudget,
    amount: u64,
    after: DeltaVerificationBudget,
    r: Result<(), ContextProjectionError>,
)
    requires
        b.work_outcome(amount, after, r),
    ensures
        r is Ok <==> b.work.verification_work + amount <= 2_000_000,
        r is Ok ==> after.work == (CatchUpWork {
            verification_work: (b.work.verification_work + amount) as u64,
            ..b.work
        }),
        r is Err ==> after == b,
{
}

/// A page holds at most 500 events, and no more than the events that a budget has
/// left.
pub proof fn pages_are_bounded(budget: Option<DeltaVerificationBudget>)
    ensures
        page_limit_of(budget) <= 500,
        budget is None ==> page_limit_of(budget) == 500,
        budget is Some && budget->0.work.events <= 65_036 ==> page_limit_of(budget) == 500,
        budget is Some && 65_036 <= budget->0.work.events <= 65_536 ==> page_limit_of(budget)
            == 65_536 - budget->0.work.events,
        budget is Some && budget->0.work.events >= 65_536 ==> page_limit_of(budget) == 0,
{
}

proof fn lemma_counted(m: CatchUpModel, k: nat)
    requires
        forall|i: int|
            0 <= i < k ==> event_allowed(
                #[trigger] counted_times(m, i as nat).budget,
            ),
        m.events + k <= u64::MAX,
    ensures
        counted_times(m, k).cursor == m.cursor,
        counted_times(m, k).checkpoint == m.checkpoint,
        counted_times(m, k).high_water == m.high_water,
        m.budget is None ==> counted_times(m, k).budget is None && counted_times(m, k).events
            == m.events + k,
        m.budget is Some ==> counted_times(m, k).budget is Some && counted_times(m, k).events
            == m.events && counted_times(m, k).budget->0.work == (CatchUpWork {
            events: (m.budget->0.work.events + k) as u64,
            verification_work: (m.budget->0.work.verification_work + k) as u64,
            ..m.budget->0.work
        }) && (k > 0 ==> m.budget->0.work.events + k <= 65_536
            && m.budget->0.work.verification_work + k <= 2_000_000),
    decreases k,
{
    if k > 0 {
        assert forall|i: int| 0 <= i < k - 1 implies event_allowed(
            #[trigger] counted_times(m, i as nat).budget,
        ) by {}
        lemma_counted(m, (k - 1) as nat);
        assert(event_allowed(counted_times(m, (k - 1) as nat).budget));
    }
}

/// A page is taken where its events ascend from the cursor and stay within the
/// high-water, and each is counted: one event and one unit of work each against a
/// budget, or one each in the plain count.
pub proof fn taken_pages_are_counted(
    m: CatchUpModel,
    page: Seq<EventRecord>,
    after: CatchUpModel,
    i: int,
)
    requires
        page_outcome(m, page, after, Ok(())),
        0 <= i < page.len(),
        m.events + page.len() <= u64::MAX,
    ensures
        m.cursor < page[0].seq,
        i > 0 ==> page[i - 1].seq < page[i].seq,
        page[i].seq <= m.high_water,
        after.cursor == m.cursor,
        after.checkpoint == m.checkpoint,
        m.budget is None ==> after.budget is None && after.events == m.events + page.len(),
        m.budget is Some ==> after.budget is Some && after.budget->0.work.events
            == m.budget->0.work.events + page.len() && after.budget->0.work.verification_work
            == m.budget->0.work.verification_work + page.len() && after.budget->0.work.events
            <= 65_536 && after.budget->0.work.context_payload_bytes
            == m.budget->0.work.context_payload_bytes,
{
    assert(event_fine(m, page, i));
    assert(event_fine(m, page, 0));
    assert forall|k: int| 0 <= k < page.len() implies event_allowed(
        #[trigger] counted_times(m, k as nat).budget,
    ) by {
        assert(event_fine(m, page, k));
    }
    lemma_counted(m, page.len());
}

/// An empty page before the end is refused, and so is a page with an event that
/// does not ascend or lies beyond the high-water; the refusal names it.
pub proof fn faulty_pages_are_refused(
    m: CatchUpModel,
    page: Seq<EventRecord>,
    after: CatchUpModel,
    e: ContextProjectionError,
)
    requires
        page_outcome(m, page, after, Err(e)),
    ensures
        page.len() == 0 <==> e is HighWaterUnreachable,
        page.len() == 0 ==> e == (ContextProjectionError::HighWaterUnreachable {
            cursor: m.cursor,
            high_water: m.high_water,
        }),
        e matches ContextProjectionError::NonMonotonicPage { after: a, found } ==> exists|i: int|
            0 <= i < page.len() && (#[trigger] page[i]).seq == found && (found <= a || found
                > m.high_water) && (i == 0 ==> a == m.cursor) && (i > 0 ==> a == page[i - 1].seq),
        e is HighWaterUnreachable || e is NonMonotonicPage || (e is SessionIndexLimitExceeded
            && m.budget is Some),
{
    if page.len() > 0 {
        let i = choose|i: int| #[trigger] reports_event(e, m, page, after, i);
        assert(reports_event(e, m, page, after, i));
        lemma_budget_kind(m, i as nat);
        assert(page[i].seq == page[i].seq);
    }
}

proof fn lemma_budget_kind(m: CatchUpModel, k: nat)
    ensures
        counted_times(m, k).budget is Some == m.budget is Some,
    decreases k,
{
    if k > 0 {
        lemma_budget_kind(m, (k - 1) as nat);
    }
}

/// A delta is checked event by event in the same way: each is counted, and each
/// must ascend and lie within the end of the delta.
pub proof fn deltas_are_checked_in_sequence(
    b: DeltaVerificationBudget,
    previous: i64,
    through_seq: i64,
    seq: i64,
    left: DeltaVerificationBudget,
    position: i64,
    r: Result<(), ContextProjectionError>,
)
    requires
        step_outcome(b, previous, through_seq, seq, left, position, r),
    ensures
        r is Ok <==> previous < seq <= through_seq && b.work.events < 65_536
            && b.work.verification_work < 2_000_000,
        r is Ok ==> position == seq && left.work.events == b.work.events + 1
            && left.work.verification_work == b.work.verification_work + 1,
        r is Err ==> position == previous,
        r matches Err(ContextProjectionError::NonMonotonicPage { after, found }) ==> after
            == previous && found == seq && !(previous < seq <= through_seq),
{
}

/// A node of a delta is admitted where its identity is new, both in the delta so
/// far and before it, and all that it supersedes was recorded, in the delta or
/// before it, in its own task; looking all of that up stays within two million.
pub proof fn delta_nodes_take_new_identities(
    v: ValidatedRecordedNode,
    overlay: IdentityIndex,
    source: IdentityIndex,
    budget: Option<DeltaVerificationBudget>,
    i: int,
)
    requires
        admissible_node(v, overlay, source, budget),
    ensures
        overlay.at(v.session_id@, v.node@.id) is None,
        source.at(v.session_id@, v.node@.id) is None,
        budget matches Some(b) ==> b.work.verification_work + v.node@.supersedes.len() + 1
            <= 2_000_000,
        0 <= i < v.node@.supersedes.len() ==> {
            let target = v.node@.supersedes[i];
            let inside = overlay.at(v.session_id@, target);
            let earlier = source.at(v.session_id@, target);
            &&& inside is Some ==> inside->0.task_id == optional_text(v.task_id)
            &&& inside is None ==> earlier is Some && earlier->0.task_id == optional_text(v.task_id)
        },
{
    if 0 <= i < v.node@.supersedes.len() {
        assert(target_fine(v, overlay, source, after_lookups(budget, 1), i));
    }
    let charged = after_lookups(budget, 1);
    assert(after_lookups(budget, 0) == budget);
    assert forall|k: nat| k < v.node@.supersedes.len() implies lookup_allowed(
        #[trigger] after_lookups(charged, k),
    ) by {
        assert(target_fine(v, overlay, source, charged, k as int));
    }
    lemma_room_used(charged, v.node@.supersedes.len());
}

proof fn lemma_room_used(budget: Option<DeltaVerificationBudget>, n: nat)
    requires
        forall|k: nat| k < n ==> lookup_allowed(#[trigger] after_lookups(budget, k)),
    ensures
        after_lookups(budget, n) is Some == budget is Some,
        budget is Some ==> after_lookups(budget, n)->0.work.verification_work
            == budget->0.work.verification_work + n,
        budget is Some && n > 0 ==> budget->0.work.verification_work + n <= 2_000_000,
    decreases n,
{
    if n > 0 {
        lemma_room_used(budget, (n - 1) as nat);
        assert(lookup_allowed(after_lookups(budget, (n - 1) as nat)));
    }
}

proof fn lemma_room(budget: Option<DeltaVerificationBudget>, k: nat, n: nat)
    requires
        has_room(budget, n),
        k <= n,
    ensures
        after_lookups(budget, k) is Some == budget is Some,
        budget is Some ==> after_lookups(budget, k)->0.work.verification_work
            == budget->0.work.verification_work + k,
        k < n ==> lookup_allowed(after_lookups(budget, k)),
    decreases k,
{
    if k > 0 {
        lemma_room(budget, (k - 1) as nat, n);
    }
}

/// Such a node is admitted, given room for its lookups.
pub proof fn new_identities_are_admitted(
    v: ValidatedRecordedNode,
    overlay: IdentityIndex,
    source: IdentityIndex,
    budget: Option<DeltaVerificationBudget>,
)
    requires
        overlay.at(v.session_id@, v.node@.id) is None,
        source.at(v.session_id@, v.node@.id) is None,
        has_room(budget, v.node@.supersedes.len() + 1),
        forall|i: int|
            0 <= i < v.node@.supersedes.len() ==> {
                let target = #[trigger] v.node@.supersedes[i];
                let inside = overlay.at(v.session_id@, target);
                let earlier = source.at(v.session_id@, target);
                &&& inside is Some ==> inside->0.task_id == optional_text(v.task_id)
                &&& inside is None ==> earlier is Some && earlier->0.task_id == optional_text(
                    v.task_id,
                )
            },
    ensures
        admissible_node(v, overlay, source, budget),
{
    let n = v.node@.supersedes.len();
    lemma_room(budget, 0, n + 1);
    lemma_room(budget, 1, n + 1);
    assert forall|i: int| 0 <= i < n implies #[trigger] target_fine(
        v,
        overlay,
        source,
        after_lookups(budget, 1),
        i,
    ) by {
        let target = v.node@.supersedes[i];
        assert(has_room(after_lookups(budget, 1), n));
        lemma_room(after_lookups(budget, 1), i as nat, n);
    }
}

/// An index entry accounts for 136 bytes and those of its texts.
pub proof fn entries_account_for_their_texts(
    session_id: Seq<char>,
    task_id: Option<Seq<char>>,
    node_id: Seq<char>,
    event_id: Seq<char>,
    causation: Seq<char>,
)
    ensures
        task_id is None ==> entry_size(session_id, task_id, node_id, event_id, causation) == 136
            + utf8_len(session_id) + utf8_len(node_id) + utf8_len(event_id) + utf8_len(causation),
        task_id is Some ==> entry_size(session_id, task_id, node_id, event_id, causation)
            == entry_size(session_id, None, node_id, event_id, causation) + utf8_len(task_id->0),
{
}

/// A session's index grows by one entry at a time, to 65,536 entries and
/// 268,435,456 bytes: the entry comes after the last one and is counted with its
/// bytes, and the digest chains it to all before it.
pub proof fn sessions_grow_by_one_entry(prior: Option<StateModel>, entry: IndexEntryModel)
    ensures
        advances(prior, entry) <==> {
            &&& prior is Some ==> prior->0.through_seq < entry.event_seq
            &&& prior is Some ==> prior->0.entry_count < 65_536
            &&& prior is Some ==> prior->0.accounted_bytes + entry.accounted_bytes <= 268_435_456
            &&& prior is None ==> entry.accounted_bytes <= 268_435_456
        },
        advances(prior, entry) ==> {
            let next = advanced_state(prior, entry);
            &&& next.through_seq == entry.event_seq
            &&& next.through_event_id == entry.event_id
            &&& prior is Some ==> next.entry_count == prior->0.entry_count + 1
            &&& prior is None ==> next.entry_count == 1
            &&& prior is Some ==> next.accounted_bytes == prior->0.accounted_bytes
                + entry.accounted_bytes
            &&& prior is None ==> next.accounted_bytes == entry.accounted_bytes
            &&& prior is Some ==> next.state_digest == sha256_of(
                text_frame("ditto.context-index.session.v1"@) + (prior->0.state_digest
                    + entry.bytes()),
            )
            &&& prior is None ==> next.state_digest == sha256_of(
                text_frame("ditto.context-index.session.v1"@) + (sha256_of(
                    text_frame("ditto.context-index.session.v1"@),
                ) + entry.bytes()),
            )
        },
{
}

/// A refused entry did not come after the last one, or would be one too many, or
/// would take too many bytes, as the refusal says.
pub proof fn refused_entries_have_the_named_fault(
    prior: Option<StateModel>,
    entry: IndexEntryModel,
    e: ContextProjectionError,
)
    requires
        advance_refusal(prior, entry, e),
        !advances(prior, entry),
    ensures
        e matches ContextProjectionError::CorruptProjectionRow { seq, reason } ==> seq
            == entry.event_seq && prior is Some && prior->0.through_seq >= entry.event_seq
            && reason@ == "session index event sequence did not advance"@,
        e matches ContextProjectionError::SessionIndexLimitExceeded {
            dimension,
            attempted,
            maximum,
        } ==> attempted > maximum && prior is Some && dimension@ == "session index identities"@
            && maximum == 65_536 && prior->0.entry_count >= 65_536 || (dimension@
            == "session index accounted bytes"@ && maximum == 268_435_456 && attempted
            > maximum),
        e is CorruptProjectionRow || e is SessionIndexLimitExceeded,
{
}

/// The stored columns of a time hold its milliseconds and the nanoseconds beyond
/// them, and stay empty where there is no time.
pub proof fn columns_hold_whole_times(t: Option<Timestamp>, millis: Option<i64>, rest: Option<i64>)
    ensures
        t is None ==> (columns_hold(t, millis, rest) <==> millis is None && rest is None),
        t is Some && columns_hold(t, millis, rest) ==> millis is Some && rest is Some && millis->0
            * 1_000_000 + rest->0 == t->0.secs * 1_000_000_000 + t->0.nanos && 0 <= rest->0
            < 1_000_000,
        t is Some && millis is Some && rest is Some && 0 <= rest->0 < 1_000_000 && millis->0
            * 1_000_000 + rest->0 == t->0.secs * 1_000_000_000 + t->0.nanos ==> columns_hold(
            t,
            millis,
            rest,
        ),
{
}

/// A verified entry stands beside the node it indexes: same identity, task and
/// event; a text of the indexed digest; as many sources and edges as it counts,
/// within the limits; a cause among the sources that came before it; and the bytes
/// that its texts account for.
pub proof fn verified_entries_stand_beside_their_nodes(raw: RawSessionIndexEntry)
    requires
        raw.verified(),
    ensures
        raw.parsed is Ok,
        raw.projected_node_json is Some,
        sha256_of(encode_utf8(raw.projected_node_json->0@)) == raw.node_digest@,
        raw.projected_node_id is Some && raw.projected_node_id->0@ == raw.node_id@,
        raw.parsed->Ok_0@.id == raw.node_id@,
        raw.projected_task_id is Some == raw.task_id is Some,
        raw.task_id is Some ==> raw.projected_task_id->0@ == raw.task_id->0@,
        raw.projected_event_seq == Some(raw.event_seq),
        raw.projected_event_id is Some && raw.projected_event_id->0@ == raw.event_id@,
        1 <= raw.source_count <= 64,
        raw.parsed->Ok_0@.source_event_ids.len() == raw.source_count,
        0 <= raw.supersession_count <= 64,
        raw.parsed->Ok_0@.supersedes.len() == raw.supersession_count,
        raw.edges@.len() == raw.supersession_count,
        raw.parsed->Ok_0@.source_event_ids.contains(raw.causation_event_id@),
        0 < raw.causation_seq < raw.event_seq,
        raw.task_id is None ==> raw.accounted_bytes == 136 + utf8_len(raw.session_id@) + utf8_len(
            raw.node_id@,
        ) + utf8_len(raw.event_id@) + utf8_len(raw.causation_event_id@),
        raw.node_digest@.len() == 32,
        raw.provenance_digest@.len() == 32,
        raw.supersession_digest@.len() == 32,
        columns_hold(
            raw.parsed->Ok_0@.valid_from,
            raw.projected_valid_from_millis,
            raw.projected_valid_from_submillis_nanos,
        ),
        columns_hold(
            raw.parsed->Ok_0@.valid_until,
            raw.projected_valid_until_millis,
            raw.projected_valid_until_submillis_nanos,
        ),
{
}

/// A recorded node is planned where its identity is free, all that it supersedes
/// was recorded in its own task, nothing of it is stored yet, and what it
/// supersedes is stored in its own task. The plan writes the node under its own
/// identity, session, task and event, one edge to each node it supersedes, and
/// counts it in its session.
pub proof fn planned_nodes_are_written_whole(
    event: EventRecord,
    v: ValidatedRecordedNode,
    lookups: CacheLookups,
    json: Seq<char>,
    prior_digest: Seq<u8>,
    budget: Option<DeltaVerificationBudget>,
    budget_left: Option<DeltaVerificationBudget>,
    plan: ContextEventPlan,
    i: int,
)
    requires
        plan_outcome(
            event,
            v,
            lookups,
            json,
            prior_digest,
            budget,
            budget_left,
            Ok(plan),
        ),
        lookups.answers(v.node@.supersedes.len()),
    ensures
        lookups.identity is None,
        !lookups.event_occupied,
        !lookups.node_has_edges,
        !lookups.node_projected,
        0 <= i < v.node@.supersedes.len() ==> lookups.superseded@[i] is Some && optional_text(
            lookups.superseded@[i]->0.task_id,
        ) == optional_text(v.task_id) && lookups.projected_tasks@[i] is Some && optional_text(
            lookups.projected_tasks@[i]->0.task_id,
        ) == optional_text(v.task_id),
        plan.row.session_id@ == v.session_id@,
        optional_text(plan.row.task_id) == optional_text(v.task_id),
        plan.row.node_id@ == v.node@.id,
        plan.row.event_seq == event.seq,
        plan.row.event_id@ == event.event_id@,
        plan.row.node_json@ == json,
        plan.edges@.len() == v.node@.supersedes.len(),
        0 <= i < plan.edges@.len() ==> plan.edges@[i].superseding_node_id@ == v.node@.id
            && plan.edges@[i].superseded_node_id@ == v.node@.supersedes[i]
            && plan.edges@[i].event_seq == event.seq && (v.task_id is Some
            ==> plan.edges@[i].task_key@ == v.task_id->0@) && (v.task_id is None
            ==> plan.edges@[i].task_key@.len() == 0),
        plan.entry.session_id@ == v.session_id@,
        plan.entry.node_id@ == v.node@.id,
        plan.entry.event_seq == event.seq,
        plan.entry.event_id@ == event.event_id@,
        plan.entry.node_digest@ == sha256_of(encode_utf8(json)),
        plan.entry.provenance_digest@ == v.resolved.provenance_digest@,
        plan.entry.source_count == v.resolved.source_count,
        plan.entry.causation_seq == v.resolved.causation_seq,
        plan.entry.causation_event_id@ == v.resolved.causation_id@,
        v.node@.supersedes.len() <= u64::MAX ==> plan.entry.supersession_count
            == v.node@.supersedes.len(),
        plan.state.through_seq == event.seq,
        plan.state.through_event_id@ == event.event_id@,
        lookups.state is None ==> plan.state.entry_count == 1,
        lookups.state is Some ==> lookups.state->0.entry_count >= 0 && plan.state.entry_count
            == lookups.state->0.entry_count + 1 && lookups.state->0.through_seq < event.seq,
        plan.digest@ == sha256_of(
            text_frame("ditto.context-index.global.v1"@) + (prior_digest + plan.entry@.bytes()),
        ),
{
    let b1 = after_lookups(budget, 1);
    if 0 <= i < v.node@.supersedes.len() {
        assert(supersession_fine(v, lookups.superseded@, b1, i));
        assert(stored_in_task(lookups.projected_tasks@[i], optional_text(v.task_id)));
    }
    assert(edges_view(plan.edges@).len() == plan.edges@.len());
    if 0 <= i < plan.edges@.len() {
        assert(edges_view(plan.edges@)[i] == plan.edges@[i]@);
    }
    sessions_grow_by_one_entry(lookups.prior(), plan.entry@);
}

/// A refused plan has the fault that the refusal names: the identity is taken, by
/// the event that is named; what is superseded was never recorded, or in another
/// task; or the cache holds what it should not, or lacks what it should hold.
pub proof fn refused_plans_have_the_named_fault(
    event: EventRecord,
    v: ValidatedRecordedNode,
    lookups: CacheLookups,
    json: Seq<char>,
    prior_digest: Seq<u8>,
    budget: Option<DeltaVerificationBudget>,
    budget_left: Option<DeltaVerificationBudget>,
    e: ApplyContextEventError,
)
    requires
        plan_outcome(
            event,
            v,
            lookups,
            json,
            prior_digest,
            budget,
            budget_left,
            Err::<ContextEventPlan, ApplyContextEventError>(e),
        ),
        lookups.answers(v.node@.supersedes.len()),
    ensures
        e matches ApplyContextEventError::Public(
            ContextProjectionError::DuplicateNodeIdentity { session_id, node_id, event_id, seq },
        ) ==> session_id@ == v.session_id@ && node_id@ == v.node@.id && lookups.identity is Some
            && event_id@ == lookups.identity->0.event_id@ && seq
            == lookups.identity->0.event_seq,
        e matches ApplyContextEventError::Public(
            ContextProjectionError::MissingSupersededNode { node_id, superseded_id },
        ) ==> node_id@ == v.node@.id && exists|i: int|
            0 <= i < v.node@.supersedes.len() && #[trigger] v.node@.supersedes[i] == superseded_id@
                && lookups.superseded@[i] is None,
        e matches ApplyContextEventError::Public(
            ContextProjectionError::SupersessionScopeMismatch { node_id, superseded_id },
        ) ==> node_id@ == v.node@.id && exists|i: int|
            0 <= i < v.node@.supersedes.len() && #[trigger] v.node@.supersedes[i] == superseded_id@
                && lookups.superseded@[i] is Some && optional_text(
                lookups.superseded@[i]->0.task_id,
            ) != optional_text(v.task_id),
        e is RepairableCacheDivergence ==> lookups.identity is None && (lookups.event_occupied
            || lookups.node_has_edges || lookups.node_projected || exists|i: int|
            0 <= i < lookups.projected_tasks@.len() && ((
            #[trigger] lookups.projected_tasks@[i]) is None || optional_text(
                lookups.projected_tasks@[i]->0.task_id,
            ) != optional_text(v.task_id))),
{
    let b1 = after_lookups(budget, 1);
    if let ApplyContextEventError::Public(p) = e {
        if exists|i: int| #[trigger]
            reports_supersession(p, v, lookups.superseded@, b1, budget_left, i) {
            let i = choose|i: int| #[trigger]
                reports_supersession(p, v, lookups.superseded@, b1, budget_left, i);
            assert(v.node@.supersedes[i] == v.node@.supersedes[i]);
            assert(!recorded_in_task(lookups.superseded@[i], optional_text(v.task_id))
                || !lookup_allowed(after_lookups(b1, i as nat)));
        }
    }
}

} // verus!
