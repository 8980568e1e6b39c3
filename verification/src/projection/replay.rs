//! What a replay of the journal leaves in the cache.

use vstd::prelude::*;

use crate::context::node::ContextNode;
use crate::events::record::EventRecord;
use crate::projection::apply::{
    apply_outcome, entry_for, plan_outcome, planned, planned_rows_verify, row_for, stores,
    supersession_fine, supersessions_fine, CacheLookups, ContextEventPlan,
};
use crate::projection::budget::DeltaVerificationBudget;
use crate::projection::decode::{
    content_accepted, decode_outcome, decoded_nodes_are_durable, recording_of,
    ValidatedRecordedNode,
};
use crate::projection::digest::{empty_digest, GLOBAL_INDEX_DIGEST_DOMAIN};
use crate::projection::error::ContextProjectionError;
use crate::projection::identity::{IdentityIndex, IdentityModel, SessionIndexIdentity};
use crate::projection::index::{RawSessionIndexEntry, RawSessionIndexState, StateModel};
use crate::projection::load::{
    identity_in, index_digest, load_outcome, row_fine, rows_fine, session_state, sessions_of,
    sound_indexes_load, state_confirmed, stored_for,
};
use crate::projection::sources::{after_lookups, greatest, resolved_from};
use crate::text::optional_text;

verus! {

/// One applied event: what was read for it, and what was written.
pub struct Applied {
    pub event: EventRecord,
    pub parsed: Result<ContextNode, String>,
    pub found: Seq<Option<EventRecord>>,
    pub lookups: CacheLookups,
    pub json: Seq<char>,
    pub budget: Option<DeltaVerificationBudget>,
    pub budget_left: Option<DeltaVerificationBudget>,
    pub plan: ContextEventPlan,
}

impl Applied {
    /// The sources that were looked up are events of those identities.
    pub open spec fn sources_looked_up(self) -> bool {
        let sources = self.parsed->Ok_0@.source_event_ids;
        &&& self.found.len() == sources.len()
        &&& forall|i: int|
            0 <= i < self.found.len() && (#[trigger] self.found[i]) is Some
                ==> self.found[i]->0.event_id@ == sources[i] && self.found[i]->0.seq > 0
    }

    /// The cache held those entries when it was looked up.
    pub open spec fn cache_looked_up(self, before: Seq<RawSessionIndexEntry>) -> bool {
        let session = self.event.session_id->0@;
        &&& self.lookups.identity is None == (identity_in(
            before,
            session,
            self.parsed->Ok_0@.id,
        ) is None)
        &&& self.lookups.prior() == session_state(before, session)
        &&& self.lookups.answers(self.parsed->Ok_0@.supersedes.len())
        &&& forall|i: int|
            0 <= i < self.lookups.superseded@.len() ==> identity_model(
                #[trigger] self.lookups.superseded@[i],
            ) == identity_in(before, session, self.parsed->Ok_0@.supersedes[i])
    }

    /// The event was applied to a cache of those entries, and left one more.
    #[verifier::opaque]
    pub open spec fn extends(
        self,
        before: Seq<RawSessionIndexEntry>,
        raw: RawSessionIndexEntry,
    ) -> bool {
        &&& apply_outcome(
            self.event,
            self.parsed,
            self.found,
            self.lookups,
            self.json,
            index_digest(before),
            self.budget,
            self.budget_left,
            Ok(self.plan),
        )
        &&& self.sources_looked_up()
        &&& self.cache_looked_up(before)
        &&& stores(raw, self.plan, self.parsed->Ok_0@)
    }
}

/// The entries are what applying the events left, one after the other.
pub open spec fn replayed(steps: Seq<Applied>, rows: Seq<RawSessionIndexEntry>) -> bool {
    &&& steps.len() == rows.len()
    &&& forall|i: int|
        0 <= i < rows.len() ==> (#[trigger] steps[i]).extends(rows.take(i), rows[i])
}

/// The digest that the last event left.
pub open spec fn last_digest(steps: Seq<Applied>) -> Seq<u8> {
    if steps.len() == 0 {
        empty_digest(GLOBAL_INDEX_DIGEST_DOMAIN@)
    } else {
        steps.last().plan.digest@
    }
}

/// The state that the last event of a session left.
pub open spec fn last_state(steps: Seq<Applied>, session: Seq<char>) -> Option<StateModel>
    decreases steps.len(),
{
    if steps.len() == 0 {
        None
    } else if steps.last().plan.entry.session_id@ == session {
        Some(steps.last().plan.state@)
    } else {
        last_state(steps.drop_last(), session)
    }
}

/// The identity that was looked up, where there is one.
pub open spec fn identity_model(found: Option<SessionIndexIdentity>) -> Option<IdentityModel> {
    match found {
        Some(i) => Some(i@),
        None => None,
    }
}

/// An applied event was decoded to a durable node of its scope, whose sources
/// are valid and whose superseded nodes are recorded in its own task; the entry
/// that it left is the one of that node.
pub proof fn applied_events_are_decoded(
    a: Applied,
    before: Seq<RawSessionIndexEntry>,
    raw: RawSessionIndexEntry,
) -> (v: ValidatedRecordedNode)
    requires
        a.extends(before, raw),
    ensures
        a.parsed is Ok,
        a.event.session_id is Some,
        content_accepted(a.event, a.parsed),
        v.node@ == a.parsed->Ok_0@,
        v.session_id@ == a.event.session_id->0@,
        optional_text(v.task_id) == optional_text(a.event.task_id),
        recording_of(a.event, a.parsed->Ok_0).sources_valid(a.found),
        resolved_from(a.found, v.resolved),
        raw.entry() == entry_for(a.event, v, a.json),
        row_for(a.event, v, a.json, a.plan.row),
        stores(raw, a.plan, a.parsed->Ok_0@),
        a.sources_looked_up(),
        identity_in(before, v.session_id@, v.node@.id) is None,
        forall|i: int|
            0 <= i < v.node@.supersedes.len() ==> {
                let found = identity_in(before, v.session_id@, #[trigger] v.node@.supersedes[i]);
                found is Some && found->0.task_id == optional_text(v.task_id)
            },
{
    reveal(Applied::extends);
    let digest = index_digest(before);
    let (v, middle) = choose|v: ValidatedRecordedNode, middle: Option<DeltaVerificationBudget>|
        {
            &&& #[trigger] decode_outcome(a.event, a.parsed, a.found, a.budget, middle, Ok(v))
            &&& plan_outcome(
                a.event,
                v,
                a.lookups,
                a.json,
                digest,
                middle,
                a.budget_left,
                Ok(a.plan),
            )
        };
    assert(planned(a.event, v, a.json, digest, a.lookups.prior(), a.plan));
    let asked = a.lookups.superseded@;
    let b1 = after_lookups(middle, 1);
    assert(supersessions_fine(v, asked, b1));
    assert forall|i: int| 0 <= i < v.node@.supersedes.len() implies ({
        let found = identity_in(before, v.session_id@, #[trigger] v.node@.supersedes[i]);
        found is Some && found->0.task_id == optional_text(v.task_id)
    }) by {
        assert(supersession_fine(v, asked, b1, i));
        assert(identity_model(asked[i]) == identity_in(
            before,
            v.session_id@,
            v.node@.supersedes[i],
        ));
    }
    v
}

/// What applying one event leaves is fine, and advances the digest and the
/// state of its session.
proof fn lemma_extends(a: Applied, rows: Seq<RawSessionIndexEntry>, i: int)
    requires
        0 <= i < rows.len(),
        a.extends(rows.take(i), rows[i]),
    ensures
        row_fine(rows, i),
        a.plan.digest@ == index_digest(rows.take(i + 1)),
        a.plan.entry.session_id@ == rows[i].session_id@,
        Some(a.plan.state@) == session_state(rows.take(i + 1), rows[i].session_id@),
{
    reveal(Applied::extends);
    let before = rows.take(i);
    let raw = rows[i];
    let digest = index_digest(before);
    let (v, middle) = choose|v: ValidatedRecordedNode, middle: Option<DeltaVerificationBudget>|
        {
            &&& #[trigger] decode_outcome(a.event, a.parsed, a.found, a.budget, middle, Ok(v))
            &&& plan_outcome(
                a.event,
                v,
                a.lookups,
                a.json,
                digest,
                middle,
                a.budget_left,
                Ok(a.plan),
            )
        };
    decoded_nodes_are_durable(a.event, a.parsed, a.found, a.budget, middle, v);
    let m = choose|m: int|
        #[trigger] greatest(a.found, m) && v.resolved.causation_id@ == a.found[m]->0.event_id@
            && v.resolved.causation_seq == a.found[m]->0.seq;
    let x = recording_of(a.event, a.parsed->Ok_0);
    assert(greatest(a.found, m));
    assert(x.fault_of(a.found[m]) is None);
    assert(a.found[m] is Some);
    assert(v.node@.source_event_ids[m] == v.resolved.causation_id@);
    planned_rows_verify(
        a.event,
        v,
        a.json,
        digest,
        a.lookups.prior(),
        a.plan,
        raw,
    );
    let after = rows.take(i + 1);
    assert(after.drop_last() =~= before);
    assert(after.last() == raw);
    assert(raw.entry() == entry_for(a.event, v, a.json));
}

/// A cache that was filled by applying events one after the other passes
/// verification: its entries, the digest that the last event left, and the state
/// that the last event of each session left.
pub proof fn replayed_caches_verify(
    steps: Seq<Applied>,
    rows: Seq<RawSessionIndexEntry>,
    stored: Seq<RawSessionIndexState>,
    projected_count: i64,
    through_seq: i64,
    r: Result<IdentityIndex, ContextProjectionError>,
)
    requires
        replayed(steps, rows),
        projected_count == rows.len(),
        stored.len() == sessions_of(rows).len(),
        forall|k: int|
            0 <= k < sessions_of(rows).len() ==> {
                let session = #[trigger] sessions_of(rows)[k];
                &&& stored_for(stored, session, 0) is Some
                &&& stored_for(stored, session, 0)->0.readable()
                &&& Some(stored_for(stored, session, 0)->0.state()) == last_state(steps, session)
            },
        load_outcome(rows, last_digest(steps), through_seq, projected_count, stored, r),
    ensures
        r is Ok,
        r->Ok_0.size() == rows.len(),
{
    lemma_replay_rows(steps, rows);
    lemma_replay_totals(steps, rows);
    assert forall|k: int| 0 <= k < sessions_of(rows).len() implies state_confirmed(
        rows,
        stored,
        #[trigger] sessions_of(rows)[k],
    ) by {
        lemma_replay_state(steps, rows, sessions_of(rows)[k]);
    }
    sound_indexes_load(rows, last_digest(steps), through_seq, projected_count, stored, r);
}

proof fn lemma_replay_rows(steps: Seq<Applied>, rows: Seq<RawSessionIndexEntry>)
    requires
        replayed(steps, rows),
    ensures
        rows_fine(rows),
{
    assert forall|i: int| 0 <= i < rows.len() implies #[trigger] row_fine(rows, i) by {
        assert(steps[i].extends(rows.take(i), rows[i]));
        lemma_extends(steps[i], rows, i);
    }
}

proof fn lemma_replay_totals(steps: Seq<Applied>, rows: Seq<RawSessionIndexEntry>)
    requires
        replayed(steps, rows),
    ensures
        last_digest(steps) == index_digest(rows),
{
    if rows.len() > 0 {
        let i = rows.len() - 1;
        assert(steps[i].extends(rows.take(i), rows[i]));
        lemma_extends(steps[i], rows, i);
        assert(rows.take(i + 1) =~= rows);
    }
}

proof fn lemma_replay_state(
    steps: Seq<Applied>,
    rows: Seq<RawSessionIndexEntry>,
    session: Seq<char>,
)
    requires
        replayed(steps, rows),
    ensures
        last_state(steps, session) == session_state(rows, session),
    decreases steps.len(),
{
    if rows.len() > 0 {
        let i = rows.len() - 1;
        assert(steps[i].extends(rows.take(i), rows[i]));
        lemma_extends(steps[i], rows, i);
        assert(rows.take(i + 1) =~= rows);
        let (fewer, shorter) = (steps.drop_last(), rows.drop_last());
        assert forall|j: int| 0 <= j < shorter.len() implies (#[trigger] fewer[j]).extends(
            shorter.take(j),
            shorter[j],
        ) by {
            assert(steps[j].extends(rows.take(j), rows[j]));
            assert(shorter.take(j) =~= rows.take(j));
        }
        lemma_replay_state(fewer, shorter, session);
    }
}

/// Replays that leave the same entries leave the same digest and the same
/// states, in however many pages and on whatever budget the events were applied.
pub proof fn replays_agree(
    a: Seq<Applied>,
    b: Seq<Applied>,
    x: Seq<RawSessionIndexEntry>,
    y: Seq<RawSessionIndexEntry>,
    session: Seq<char>,
)
    requires
        replayed(a, x),
        replayed(b, y),
        x.len() == y.len(),
        forall|i: int| 0 <= i < x.len() ==> (#[trigger] x[i]).entry() == y[i].entry(),
    ensures
        last_digest(a) == last_digest(b),
        last_state(a, session) == last_state(b, session),
{
    lemma_replay_totals(a, x);
    lemma_replay_totals(b, y);
    lemma_replay_state(a, x, session);
    lemma_replay_state(b, y, session);
    lemma_same_entries(x, y, session);
}

proof fn lemma_same_entries(
    x: Seq<RawSessionIndexEntry>,
    y: Seq<RawSessionIndexEntry>,
    session: Seq<char>,
)
    requires
        x.len() == y.len(),
        forall|i: int| 0 <= i < x.len() ==> (#[trigger] x[i]).entry() == y[i].entry(),
    ensures
        index_digest(x) == index_digest(y),
        session_state(x, session) == session_state(y, session),
    decreases x.len(),
{
    if x.len() > 0 {
        let (p, q) = (x.drop_last(), y.drop_last());
        assert forall|i: int| 0 <= i < p.len() implies (#[trigger] p[i]).entry()
            == q[i].entry() by {
            assert(x[i].entry() == y[i].entry());
        }
        lemma_same_entries(p, q, session);
        assert(x[x.len() - 1].entry() == y[y.len() - 1].entry());
    }
}

} // verus!
