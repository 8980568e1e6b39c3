//! Applying one recorded node to the projection.

use vstd::prelude::*;
use vstd::utf8::*;

use crate::context::node::{ContextNode, NodeModel};
use crate::events::record::EventRecord;
use crate::order::arranged;
use crate::projection::budget::{charge_lookup_if, DeltaVerificationBudget};
use crate::projection::decode::{
    decode_outcome, decode_recorded_node, ValidatedRecordedNode,
};
use crate::projection::digest::{
    advance_state_digest, advanced_digest, canonical_edge_digest, digest_text, edge_digest,
    outgoing_bytes, sha256_of, task_key, task_key_of, text_order, IndexEntryModel,
    SessionIndexEntry, GLOBAL_INDEX_DIGEST_DOMAIN,
};
use crate::projection::durable::{
    durable, epistemic_status, projection_timestamp_parts, status_name,
};
use crate::projection::error::ContextProjectionError;
use crate::projection::identity::SessionIndexIdentity;
use crate::projection::index::{
    advance_refusal, advance_session_index_state, advanced_state, advances, columns_hold,
    edges_bytes, edges_view, entry_size, read_session_index_state, refuses_entry_size,
    session_index_entry_bytes, state_model, CachedEdge, CachedEdgeModel, RawSessionIndexEntry,
    RawSessionIndexState, SessionIndexState, StateModel,
};
use crate::projection::sources::{after_lookups, lookup_allowed, refuses_lookup};
use crate::text::{copy_optional_text, optional_text, same_optional_text};
use crate::time::Timestamp;

verus! {

/// The task of a stored node, where the node is stored.
#[derive(Debug)]
pub struct ProjectedTask {
    pub task_id: Option<String>,
}

/// What the cache holds about a recorded node before it is applied: the index
/// entry of its identity and of each identity it supersedes, whether the event
/// or its edges are already there, whether the node itself is, the tasks of the
/// stored nodes it supersedes, and its session's state.
#[derive(Debug)]
pub struct CacheLookups {
    pub identity: Option<SessionIndexIdentity>,
    pub superseded: Vec<Option<SessionIndexIdentity>>,
    pub event_occupied: bool,
    pub node_has_edges: bool,
    pub node_projected: bool,
    pub projected_tasks: Vec<Option<ProjectedTask>>,
    pub state: Option<RawSessionIndexState>,
}

impl CacheLookups {
    /// There is one answer for each superseded identity.
    pub open spec fn answers(self, n: nat) -> bool {
        self.superseded@.len() == n && self.projected_tasks@.len() == n
    }

    /// The cache disagrees with the index: the event, its edges or the node are
    /// already there, or a superseded node is missing or in another task.
    pub open spec fn conflicts(self, task_id: Option<Seq<char>>) -> bool {
        ||| self.event_occupied
        ||| self.node_has_edges
        ||| self.node_projected
        ||| exists|i: int|
            0 <= i < self.projected_tasks@.len() && !stored_in_task(
                #[trigger] self.projected_tasks@[i],
                task_id,
            )
    }

    /// The session's state before the node.
    pub open spec fn prior(self) -> Option<StateModel> {
        match self.state {
            Some(raw) => Some(raw.state()),
            None => None,
        }
    }

    /// The session's state can be read.
    pub open spec fn state_readable(self) -> bool {
        self.state matches Some(raw) ==> raw.readable()
    }
}

/// The node is stored in that task.
pub open spec fn stored_in_task(
    found: Option<ProjectedTask>,
    task_id: Option<Seq<char>>,
) -> bool {
    found matches Some(t) && optional_text(t.task_id) == task_id
}

/// The identity is recorded in that task.
pub open spec fn recorded_in_task(
    found: Option<SessionIndexIdentity>,
    task_id: Option<Seq<char>>,
) -> bool {
    found matches Some(i) && optional_text(i.task_id) == task_id
}

/// A refused event: either the journal is at fault, or the cache has diverged
/// from it and can be rebuilt.
#[derive(Debug)]
pub enum ApplyContextEventError {
    Public(ContextProjectionError),
    RepairableCacheDivergence,
}

/// A row of the stored nodes.
#[derive(Debug)]
pub struct ProjectedNodeRow {
    pub session_id: String,
    pub task_id: Option<String>,
    pub node_id: String,
    pub event_seq: i64,
    pub event_id: String,
    pub node_json: String,
    pub epistemic_status: &'static str,
    pub valid_from: Option<(i64, i64)>,
    pub valid_until: Option<(i64, i64)>,
}

/// Everything that applying a recorded node writes.
#[derive(Debug)]
pub struct ContextEventPlan {
    pub row: ProjectedNodeRow,
    pub edges: Vec<CachedEdge>,
    pub entry: SessionIndexEntry,
    pub state: SessionIndexState,
    pub digest: [u8; 32],
}

/// The index entry of a recorded node.
pub open spec fn entry_for(event: EventRecord, v: ValidatedRecordedNode, json: Seq<char>) ->
    IndexEntryModel {
    let task_id = optional_text(v.task_id);
    IndexEntryModel {
        session_id: v.session_id@,
        node_id: v.node@.id,
        task_id,
        event_seq: event.seq,
        event_id: event.event_id@,
        node_digest: sha256_of(encode_utf8(json)),
        provenance_digest: v.resolved.provenance_digest@,
        source_count: v.resolved.source_count,
        causation_seq: v.resolved.causation_seq,
        causation_event_id: v.resolved.causation_id@,
        supersession_digest: edge_digest(
            v.node@.id,
            task_key_of(task_id),
            event.seq,
            v.node@.supersedes,
        ),
        supersession_count: v.node@.supersedes.len() as u64,
        accounted_bytes: size_for(event, v) as u64,
    }
}

/// The accounted size of a recorded node's entry.
pub open spec fn size_for(event: EventRecord, v: ValidatedRecordedNode) -> int {
    entry_size(
        v.session_id@,
        optional_text(v.task_id),
        v.node@.id,
        event.event_id@,
        v.resolved.causation_id@,
    )
}

/// The edges from a recorded node, in the order it names its targets.
pub open spec fn edges_for(event: EventRecord, v: ValidatedRecordedNode) -> Seq<CachedEdgeModel> {
    v.node@.supersedes.map_values(
        |target: Seq<char>|
            CachedEdgeModel {
                superseding: v.node@.id,
                task_key: task_key_of(optional_text(v.task_id)),
                event_seq: event.seq,
                superseded: target,
            },
    )
}

/// The row of a recorded node.
pub open spec fn row_for(
    event: EventRecord,
    v: ValidatedRecordedNode,
    json: Seq<char>,
    row: ProjectedNodeRow,
) -> bool {
    &&& row.session_id@ == v.session_id@
    &&& optional_text(row.task_id) == optional_text(v.task_id)
    &&& row.node_id@ == v.node@.id
    &&& row.event_seq == event.seq
    &&& row.event_id@ == event.event_id@
    &&& row.node_json@ == json
    &&& row.epistemic_status@ == status_name(v.node@.epistemic)
    &&& columns_hold(v.node@.valid_from, first_part(row.valid_from), second_part(row.valid_from))
    &&& columns_hold(
        v.node@.valid_until,
        first_part(row.valid_until),
        second_part(row.valid_until),
    )
}

pub open spec fn first_part(parts: Option<(i64, i64)>) -> Option<i64> {
    match parts {
        Some((a, _)) => Some(a),
        None => None,
    }
}

pub open spec fn second_part(parts: Option<(i64, i64)>) -> Option<i64> {
    match parts {
        Some((_, b)) => Some(b),
        None => None,
    }
}

/// What applying a recorded node writes.
pub open spec fn planned(
    event: EventRecord,
    v: ValidatedRecordedNode,
    json: Seq<char>,
    prior_digest: Seq<u8>,
    prior: Option<StateModel>,
    plan: ContextEventPlan,
) -> bool {
    let entry = entry_for(event, v, json);
    &&& row_for(event, v, json, plan.row)
    &&& edges_view(plan.edges@) == edges_for(event, v)
    &&& plan.entry@ == entry
    &&& plan.state@ == advanced_state(prior, entry)
    &&& plan.digest@ == advanced_digest(GLOBAL_INDEX_DIGEST_DOMAIN@, prior_digest, entry)
}

/// The error refuses a node whose identity is taken.
pub open spec fn refuses_identity(
    e: ContextProjectionError,
    v: ValidatedRecordedNode,
    taken: SessionIndexIdentity,
) -> bool {
    &&& e is DuplicateNodeIdentity
    &&& e->DuplicateNodeIdentity_session_id@ == v.session_id@
    &&& e->DuplicateNodeIdentity_node_id@ == v.node@.id
    &&& e->DuplicateNodeIdentity_event_id@ == taken.event_id@
    &&& e->DuplicateNodeIdentity_seq == taken.event_seq
}

/// The error refuses a node for what it supersedes.
pub open spec fn refuses_superseded(
    e: ContextProjectionError,
    node_id: Seq<char>,
    superseded_id: Seq<char>,
    found: Option<SessionIndexIdentity>,
) -> bool {
    if found is None {
        &&& e is MissingSupersededNode
        &&& e->MissingSupersededNode_node_id@ == node_id
        &&& e->MissingSupersededNode_superseded_id@ == superseded_id
    } else {
        &&& e is SupersessionScopeMismatch
        &&& e->SupersessionScopeMismatch_node_id@ == node_id
        &&& e->SupersessionScopeMismatch_superseded_id@ == superseded_id
    }
}

/// Every superseded identity is recorded in the node's own task, and looking it
/// up is within the budget.
pub open spec fn supersessions_fine(
    v: ValidatedRecordedNode,
    superseded: Seq<Option<SessionIndexIdentity>>,
    budget: Option<DeltaVerificationBudget>,
) -> bool {
    forall|i: int|
        0 <= i < superseded.len() ==> #[trigger] supersession_fine(v, superseded, budget, i)
}

pub open spec fn supersession_fine(
    v: ValidatedRecordedNode,
    superseded: Seq<Option<SessionIndexIdentity>>,
    budget: Option<DeltaVerificationBudget>,
    i: int,
) -> bool {
    lookup_allowed(after_lookups(budget, i as nat)) && recorded_in_task(
        superseded[i],
        optional_text(v.task_id),
    )
}

/// The error reports supersession `i`, the first that is not fine.
pub open spec fn reports_supersession(
    e: ContextProjectionError,
    v: ValidatedRecordedNode,
    superseded: Seq<Option<SessionIndexIdentity>>,
    budget: Option<DeltaVerificationBudget>,
    budget_left: Option<DeltaVerificationBudget>,
    i: int,
) -> bool {
    &&& 0 <= i < superseded.len()
    &&& forall|j: int| 0 <= j < i ==> #[trigger] supersession_fine(v, superseded, budget, j)
    &&& !supersession_fine(v, superseded, budget, i)
    &&& if !lookup_allowed(after_lookups(budget, i as nat)) {
        refuses_lookup(e, after_lookups(budget, i as nat)) && budget_left == after_lookups(
            budget,
            i as nat,
        )
    } else {
        refuses_superseded(e, v.node@.id, v.node@.supersedes[i], superseded[i]) && budget_left
            == after_lookups(budget, (i + 1) as nat)
    }
}

/// The result is that error.
pub open spec fn fails_with(
    r: Result<ContextEventPlan, ApplyContextEventError>,
) -> Option<ContextProjectionError> {
    match r {
        Err(ApplyContextEventError::Public(e)) => Some(e),
        _ => None,
    }
}

/// The result of planning a decoded node: identity, supersessions, the cache,
/// the size, and the session's state decide, in that order, each lookup being
/// charged before its answer is looked at.
pub open spec fn plan_outcome(
    event: EventRecord,
    v: ValidatedRecordedNode,
    lookups: CacheLookups,
    json: Seq<char>,
    prior_digest: Seq<u8>,
    budget: Option<DeltaVerificationBudget>,
    budget_left: Option<DeltaVerificationBudget>,
    r: Result<ContextEventPlan, ApplyContextEventError>,
) -> bool {
    let n = v.node@.supersedes.len();
    let b1 = after_lookups(budget, 1);
    let b2 = after_lookups(b1, n);
    let b3 = after_lookups(b2, 1);
    let b4 = after_lookups(b3, 1);
    let b5 = after_lookups(b4, 1);
    let entry = entry_for(event, v, json);
    if !lookup_allowed(budget) {
        fails_with(r) is Some && refuses_lookup(fails_with(r)->0, budget) && budget_left == budget
    } else if lookups.identity is Some {
        fails_with(r) is Some && refuses_identity(fails_with(r)->0, v, lookups.identity->0)
            && budget_left == b1
    } else if !supersessions_fine(v, lookups.superseded@, b1) {
        fails_with(r) is Some && exists|i: int| #[trigger]
            reports_supersession(
                fails_with(r)->0,
                v,
                lookups.superseded@,
                b1,
                budget_left,
                i,
            )
    } else if !lookup_allowed(b2) {
        fails_with(r) is Some && refuses_lookup(fails_with(r)->0, b2) && budget_left == b2
    } else if !lookup_allowed(b3) {
        fails_with(r) is Some && refuses_lookup(fails_with(r)->0, b3) && budget_left == b3
    } else if lookups.conflicts(optional_text(v.task_id)) {
        r == Err::<ContextEventPlan, ApplyContextEventError>(
            ApplyContextEventError::RepairableCacheDivergence,
        ) && budget_left == b4
    } else if size_for(event, v) > u64::MAX {
        fails_with(r) is Some && refuses_entry_size(fails_with(r)->0) && budget_left == b4
    } else if !lookup_allowed(b4) {
        fails_with(r) is Some && refuses_lookup(fails_with(r)->0, b4) && budget_left == b4
    } else if !lookups.state_readable() {
        fails_with(r) is Some && lookups.state->0.refusal(fails_with(r)->0) && budget_left == b5
    } else if !advances(lookups.prior(), entry) {
        fails_with(r) is Some && advance_refusal(lookups.prior(), entry, fails_with(r)->0)
            && budget_left == b5
    } else {
        r is Ok && planned(event, v, json, prior_digest, lookups.prior(), r->Ok_0) && budget_left
            == b5
    }
}

/// The result of applying an event: decoding decides first, then planning.
pub open spec fn apply_outcome(
    event: EventRecord,
    parsed: Result<ContextNode, String>,
    found: Seq<Option<EventRecord>>,
    lookups: CacheLookups,
    json: Seq<char>,
    prior_digest: Seq<u8>,
    budget: Option<DeltaVerificationBudget>,
    budget_left: Option<DeltaVerificationBudget>,
    r: Result<ContextEventPlan, ApplyContextEventError>,
) -> bool {
    ||| fails_with(r) is Some && decode_outcome(
        event,
        parsed,
        found,
        budget,
        budget_left,
        Err(fails_with(r)->0),
    )
    ||| exists|v: ValidatedRecordedNode, middle: Option<DeltaVerificationBudget>|
        {
            &&& #[trigger] decode_outcome(event, parsed, found, budget, middle, Ok(v))
            &&& plan_outcome(event, v, lookups, json, prior_digest, middle, budget_left, r)
        }
}

fn cache_conflicts(lookups: &CacheLookups, task_id: &Option<String>) -> (r: bool)
    ensures
        r == lookups.conflicts(optional_text(*task_id)),
{
    if lookups.event_occupied || lookups.node_has_edges || lookups.node_projected {
        return true;
    }
    let mut i: usize = 0;
    while i < lookups.projected_tasks.len()
        invariant
            0 <= i <= lookups.projected_tasks@.len(),
            forall|j: int|
                0 <= j < i ==> stored_in_task(
                    #[trigger] lookups.projected_tasks@[j],
                    optional_text(*task_id),
                ),
        decreases lookups.projected_tasks.len() - i,
    {
        let same = match &lookups.projected_tasks[i] {
            Some(t) => same_optional_text(&t.task_id, task_id),
            None => false,
        };
        if !same {
            assert(!stored_in_task(
                lookups.projected_tasks@[i as int],
                optional_text(*task_id),
            ));
            return true;
        }
        i += 1;
    }
    false
}

fn edges_from(event: &EventRecord, v: &ValidatedRecordedNode) -> (r: Vec<CachedEdge>)
    ensures
        edges_view(r@) == edges_for(*event, *v),
{
    let mut edges: Vec<CachedEdge> = Vec::new();
    let mut i: usize = 0;
    while i < v.node.supersedes.len()
        invariant
            0 <= i <= v.node.supersedes@.len(),
            edges@.len() == i,
            forall|j: int| 0 <= j < i ==> (#[trigger] edges@[j])@ == edges_for(*event, *v)[j],
        decreases v.node.supersedes.len() - i,
    {
        assert(v.node@.supersedes[i as int] == v.node.supersedes@[i as int]@);
        edges.push(
            CachedEdge {
                superseding_node_id: v.node.id.clone(),
                task_key: task_key(&v.task_id),
                event_seq: event.seq,
                superseded_node_id: v.node.supersedes[i].clone(),
            },
        );
        i += 1;
    }
    assert(edges_view(edges@) =~= edges_for(*event, *v));
    edges
}

fn parts_of(t: &Option<Timestamp>) -> (r: Option<(i64, i64)>)
    requires
        t matches Some(v) ==> v.representable(),
    ensures
        columns_hold(*t, first_part(r), second_part(r)),
{
    match t {
        Some(v) => Some(projection_timestamp_parts(v)),
        None => None,
    }
}

/// Checks that every superseded identity is recorded in the node's own task.
fn check_supersessions(
    v: &ValidatedRecordedNode,
    superseded: &Vec<Option<SessionIndexIdentity>>,
    budget: &mut Option<DeltaVerificationBudget>,
) -> (r: Result<(), ContextProjectionError>)
    requires
        superseded@.len() == v.node.supersedes@.len(),
    ensures
        match r {
            Ok(_) => supersessions_fine(*v, superseded@, *old(budget)) && *final(budget)
                == after_lookups(*old(budget), superseded@.len()),
            Err(e) => !supersessions_fine(*v, superseded@, *old(budget)) && exists|i: int|
                #[trigger]
                reports_supersession(e, *v, superseded@, *old(budget), *final(budget), i),
        },
{
    let ghost start = *budget;
    let mut i: usize = 0;
    while i < superseded.len()
        invariant
            superseded@.len() == v.node.supersedes@.len(),
            start == *old(budget),
            0 <= i <= superseded@.len(),
            *budget == after_lookups(start, i as nat),
            forall|j: int| 0 <= j < i ==> #[trigger] supersession_fine(*v, superseded@, start, j),
        decreases superseded.len() - i,
    {
        assert(v.node@.supersedes[i as int] == v.node.supersedes@[i as int]@);
        match charge_lookup_if(budget) {
            Err(e) => {
                proof {
                    assert(!supersession_fine(*v, superseded@, start, i as int));
                    assert(reports_supersession(e, *v, superseded@, start, *budget, i as int));
                }
                return Err(e);
            },
            Ok(()) => {},
        }
        assert(*budget == after_lookups(start, (i + 1) as nat));
        match &superseded[i] {
            None => {
                let e = ContextProjectionError::MissingSupersededNode {
                    node_id: v.node.id.clone(),
                    superseded_id: v.node.supersedes[i].clone(),
                };
                proof {
                    assert(!supersession_fine(*v, superseded@, start, i as int));
                    assert(reports_supersession(e, *v, superseded@, start, *budget, i as int));
                }
                return Err(e);
            },
            Some(existing) => {
                if !same_optional_text(&existing.task_id, &v.task_id) {
                    let e = ContextProjectionError::SupersessionScopeMismatch {
                        node_id: v.node.id.clone(),
                        superseded_id: v.node.supersedes[i].clone(),
                    };
                    proof {
                        assert(!supersession_fine(*v, superseded@, start, i as int));
                        assert(reports_supersession(e, *v, superseded@, start, *budget, i as int));
                    }
                    return Err(e);
                }
            },
        }
        assert(supersession_fine(*v, superseded@, start, i as int));
        i += 1;
    }
    Ok(())
}

/// Plans what a decoded node writes.
pub fn plan_recorded_node(
    event: &EventRecord,
    v: &ValidatedRecordedNode,
    lookups: &CacheLookups,
    json: &str,
    prior_digest: &[u8; 32],
    budget: &mut Option<DeltaVerificationBudget>,
) -> (r: Result<ContextEventPlan, ApplyContextEventError>)
    requires
        lookups.answers(v.node.supersedes@.len()),
        v.node.valid_from matches Some(t) ==> t.representable(),
        v.node.valid_until matches Some(t) ==> t.representable(),
    ensures
        plan_outcome(
            *event,
            *v,
            *lookups,
            json@,
            prior_digest@,
            *old(budget),
            *final(budget),
            r,
        ),
{
    let ghost n = v.node@.supersedes.len();
    let ghost start = *budget;
    reveal_with_fuel(after_lookups, 2);
    match charge_lookup_if(budget) {
        Err(e) => {
            return Err(ApplyContextEventError::Public(e));
        },
        Ok(()) => {},
    }
    let ghost b1 = after_lookups(start, 1);
    assert(*budget == b1);
    if let Some(taken) = &lookups.identity {
        return Err(
            ApplyContextEventError::Public(
                ContextProjectionError::DuplicateNodeIdentity {
                    session_id: v.session_id.clone(),
                    node_id: v.node.id.clone(),
                    event_id: taken.event_id.clone(),
                    seq: taken.event_seq,
                },
            ),
        );
    }
    match check_supersessions(v, &lookups.superseded, budget) {
        Err(e) => {
            return Err(ApplyContextEventError::Public(e));
        },
        Ok(()) => {},
    }
    let ghost b2 = after_lookups(b1, n);
    assert(*budget == b2);
    match charge_lookup_if(budget) {
        Err(e) => {
            return Err(ApplyContextEventError::Public(e));
        },
        Ok(()) => {},
    }
    let ghost b3 = after_lookups(b2, 1);
    assert(*budget == b3);
    match charge_lookup_if(budget) {
        Err(e) => {
            return Err(ApplyContextEventError::Public(e));
        },
        Ok(()) => {},
    }
    let ghost b4 = after_lookups(b3, 1);
    assert(*budget == b4);
    if cache_conflicts(lookups, &v.task_id) {
        return Err(ApplyContextEventError::RepairableCacheDivergence);
    }
    let size: u64 = match session_index_entry_bytes(
        &v.session_id,
        &v.task_id,
        &v.node.id,
        &event.event_id,
        &v.resolved.causation_id,
    ) {
        Ok(s) => s,
        Err(e) => {
            return Err(ApplyContextEventError::Public(e));
        },
    };
    let key = task_key(&v.task_id);
    let entry = SessionIndexEntry {
        session_id: v.session_id.clone(),
        node_id: v.node.id.clone(),
        task_id: copy_optional_text(&v.task_id),
        event_seq: event.seq,
        event_id: event.event_id.clone(),
        node_digest: digest_text(json),
        provenance_digest: v.resolved.provenance_digest,
        source_count: v.resolved.source_count,
        causation_seq: v.resolved.causation_seq,
        causation_event_id: v.resolved.causation_id.clone(),
        supersession_digest: canonical_edge_digest(
            &v.node.id,
            &key,
            event.seq,
            &v.node.supersedes,
        ),
        supersession_count: v.node.supersedes.len() as u64,
        accounted_bytes: size,
    };
    assert(entry@ == entry_for(*event, *v, json@));
    match charge_lookup_if(budget) {
        Err(e) => {
            return Err(ApplyContextEventError::Public(e));
        },
        Ok(()) => {},
    }
    let prior: Option<SessionIndexState> = match &lookups.state {
        None => None,
        Some(raw) => match read_session_index_state(raw) {
            Ok(s) => Some(s),
            Err(e) => {
                return Err(ApplyContextEventError::Public(e));
            },
        },
    };
    assert(state_model(prior) == lookups.prior());
    let state = match advance_session_index_state(&prior, &entry) {
        Ok(s) => s,
        Err(e) => {
            return Err(ApplyContextEventError::Public(e));
        },
    };
    let digest = advance_state_digest(GLOBAL_INDEX_DIGEST_DOMAIN, prior_digest, &entry);
    let row = ProjectedNodeRow {
        session_id: v.session_id.clone(),
        task_id: copy_optional_text(&v.task_id),
        node_id: v.node.id.clone(),
        event_seq: event.seq,
        event_id: event.event_id.clone(),
        node_json: json.to_owned(),
        epistemic_status: epistemic_status(v.node.epistemic),
        valid_from: parts_of(&v.node.valid_from),
        valid_until: parts_of(&v.node.valid_until),
    };
    Ok(ContextEventPlan { row, edges: edges_from(event, v), entry, state, digest })
}

/// Applies a recorded node: decodes the event and plans what it writes. `json`
/// is the text of the decoded node, `parsed` and `found` are what reading the
/// payload's node and looking its sources up gave, and `lookups` what the cache
/// holds.
pub fn apply_context_event(
    event: &EventRecord,
    parsed: &Result<ContextNode, String>,
    found: &Vec<Option<EventRecord>>,
    lookups: &CacheLookups,
    json: &str,
    prior_digest: &[u8; 32],
    budget: &mut Option<DeltaVerificationBudget>,
) -> (r: Result<ContextEventPlan, ApplyContextEventError>)
    requires
        parsed matches Ok(node) ==> {
            &&& found@.len() == node.source_event_ids@.len()
            &&& lookups.answers(node.supersedes@.len())
            &&& node.valid_from matches Some(t) ==> t.representable()
            &&& node.valid_until matches Some(t) ==> t.representable()
        },
    ensures
        apply_outcome(
            *event,
            *parsed,
            found@,
            *lookups,
            json@,
            prior_digest@,
            *old(budget),
            *final(budget),
            r,
        ),
{
    let ghost start = *budget;
    let v = match decode_recorded_node(event, parsed, found, budget) {
        Ok(v) => v,
        Err(e) => {
            return Err(ApplyContextEventError::Public(e));
        },
    };
    let ghost middle = *budget;
    proof {
        assert(decode_outcome(*event, *parsed, found@, start, middle, Ok(v)));
        assert(v.node@ == parsed->Ok_0@);
        assert(v.node@.supersedes.len() == v.node.supersedes@.len());
        assert(parsed->Ok_0@.supersedes.len() == parsed->Ok_0.supersedes@.len());
        assert(v.node@.valid_from == v.node.valid_from);
        assert(v.node@.valid_until == v.node.valid_until);
    }
    plan_recorded_node(event, &v, lookups, json, prior_digest, budget)
}

/// The stored row, entry and edges are those of the plan. Stored edges come back
/// in the order of their targets.
pub open spec fn stores(
    raw: RawSessionIndexEntry,
    plan: ContextEventPlan,
    node: NodeModel,
) -> bool {
    &&& raw.entry() == plan.entry@
    &&& raw.node_digest@ == plan.entry.node_digest@
    &&& raw.source_count == plan.entry.source_count
    &&& raw.supersession_count == plan.entry.supersession_count
    &&& raw.accounted_bytes == plan.entry.accounted_bytes
    &&& optional_text(raw.projected_node_id) == Some(plan.row.node_id@)
    &&& optional_text(raw.projected_task_id) == optional_text(plan.row.task_id)
    &&& raw.projected_event_seq == Some(plan.row.event_seq)
    &&& optional_text(raw.projected_event_id) == Some(plan.row.event_id@)
    &&& optional_text(raw.projected_node_json) == Some(plan.row.node_json@)
    &&& optional_text(raw.projected_epistemic_status) == Some(plan.row.epistemic_status@)
    &&& raw.projected_valid_from_millis == first_part(plan.row.valid_from)
    &&& raw.projected_valid_from_submillis_nanos == second_part(plan.row.valid_from)
    &&& raw.projected_valid_until_millis == first_part(plan.row.valid_until)
    &&& raw.projected_valid_until_submillis_nanos == second_part(plan.row.valid_until)
    &&& raw.parsed matches Ok(n) && n@ == node
    &&& edges_view(raw.edges@) == sorted_edges(plan.entry@, node.supersedes)
}

/// The edges from an entry's node, in the order of their targets.
pub open spec fn sorted_edges(entry: IndexEntryModel, targets: Seq<Seq<char>>) -> Seq<
    CachedEdgeModel,
> {
    arranged(targets, text_order()).map_values(
        |target: Seq<char>|
            CachedEdgeModel {
                superseding: entry.node_id,
                task_key: task_key_of(entry.task_id),
                event_seq: entry.event_seq,
                superseded: target,
            },
    )
}

proof fn lemma_sorted_edges(entry: IndexEntryModel, list: Seq<Seq<char>>)
    ensures
        edges_bytes(
            list.map_values(
                |target: Seq<char>|
                    CachedEdgeModel {
                        superseding: entry.node_id,
                        task_key: task_key_of(entry.task_id),
                        event_seq: entry.event_seq,
                        superseded: target,
                    },
            ),
        ) == outgoing_bytes(entry.node_id, task_key_of(entry.task_id), entry.event_seq, list),
    decreases list.len(),
{
    let edges = list.map_values(
        |target: Seq<char>|
            CachedEdgeModel {
                superseding: entry.node_id,
                task_key: task_key_of(entry.task_id),
                event_seq: entry.event_seq,
                superseded: target,
            },
    );
    if list.len() > 0 {
        lemma_sorted_edges(entry, list.drop_last());
        assert(edges.drop_last() =~= list.drop_last().map_values(
            |target: Seq<char>|
                CachedEdgeModel {
                    superseding: entry.node_id,
                    task_key: task_key_of(entry.task_id),
                    event_seq: entry.event_seq,
                    superseded: target,
                },
        ));
    }
}

/// What is written verifies when it is read back: the stored form of a planned
/// node passes the verification of its index entry.
pub proof fn planned_rows_verify(
    event: EventRecord,
    v: ValidatedRecordedNode,
    json: Seq<char>,
    prior_digest: Seq<u8>,
    prior: Option<StateModel>,
    plan: ContextEventPlan,
    raw: RawSessionIndexEntry,
)
    requires
        planned(event, v, json, prior_digest, prior, plan),
        stores(raw, plan, v.node@),
        durable(v.node@),
        v.resolved.source_count == v.node@.source_event_ids.len(),
        v.node@.source_event_ids.contains(v.resolved.causation_id@),
        0 < v.resolved.causation_seq < event.seq,
        size_for(event, v) <= u64::MAX,
    ensures
        raw.verified(),
{
    assert(plan.entry.provenance_digest@.len() == 32);
    assert(plan.entry.supersession_digest@.len() == 32);
    let entry = entry_for(event, v, json);
    assert(raw.node_digest@.len() == 32);
    lemma_sorted_edges(entry, arranged(v.node@.supersedes, text_order()));
    crate::order::lemma_arranged_all(v.node@.supersedes, text_order(), |t: Seq<char>| true);
    assert(raw.edges@.len() == edges_view(raw.edges@).len());
    assert(raw.readable());
    assert(raw.row_agrees());
    assert(raw.shape_agrees());
}

} // verus!
