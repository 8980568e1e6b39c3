//! Admitting new nodes and looking up committed ones.

use vstd::prelude::*;

use crate::context::node::{ContextNode, NodeModel};
use crate::context::ranking::MAX_CONTEXT_NODE_ID_BYTES;
use crate::events::record::{EventActor, EventRecord};
use crate::projection::budget::DeltaVerificationBudget;
use crate::projection::checkpoint::{check_high_water, CheckpointModel, ProjectionCheckpoint};
use crate::projection::decode::{
    correlation_of, decode_outcome, payload_version, recording_of, ValidatedRecordedNode,
    CONTEXT_NODE_EVENT_VERSION,
};
use crate::projection::digest::{
    empty_digest, empty_state_digest, same_digest, GLOBAL_INDEX_DIGEST_DOMAIN,
};
use crate::projection::durable::{
    bounded_bytes, durable, durable_outcome, identity_outcome, identity_shaped, precision_outcome,
    scope_fault, scope_outcome, too_long, validate_durable_node, validate_new_validity_precision,
    validate_node_identity_shape, validate_requested_scope,
};
use crate::projection::error::ContextProjectionError;
use crate::projection::identity::IdentityIndex;
use crate::projection::sources::{
    after_lookups, greatest, resolve_outcome, resolve_sources, resolved_from, stops_at, Recording,
    ResolvedNode,
};
use crate::retrieval::RetrievalError;
use crate::text::{
    blank, byte_len, copy_optional_text, is_blank, optional_text, same_optional_text, utf8_len,
};

verus! {

/// Version-1 payload of a recorded node.
#[derive(Debug)]
pub struct ContextNodeRecordedPayloadV1 {
    pub event_version: u16,
    pub node: ContextNode,
}

impl ContextNodeRecordedPayloadV1 {
    pub fn new(node: ContextNode) -> (r: ContextNodeRecordedPayloadV1)
        ensures
            r.event_version == CONTEXT_NODE_EVENT_VERSION,
            r.node@ == node@,
    {
        ContextNodeRecordedPayloadV1 { event_version: CONTEXT_NODE_EVENT_VERSION, node }
    }
}

/// Kernel-trusted context request, without any event-envelope authority.
#[derive(Debug)]
pub struct ContextNodeDraft {
    node: ContextNode,
    session_id: String,
    task_id: Option<String>,
}

/// The model of a draft.
pub struct DraftModel {
    pub node: NodeModel,
    pub session_id: Seq<char>,
    pub task_id: Option<Seq<char>>,
}

impl View for ContextNodeDraft {
    type V = DraftModel;

    closed spec fn view(&self) -> DraftModel {
        DraftModel {
            node: self.node@,
            session_id: self.session_id@,
            task_id: optional_text(self.task_id),
        }
    }
}

impl ContextNodeDraft {
    /// A draft for a session.
    pub fn session(session_id: String, node: ContextNode) -> (r: ContextNodeDraft)
        ensures
            r@ == (DraftModel { node: node@, session_id: session_id@, task_id: None }),
    {
        ContextNodeDraft { node, session_id, task_id: None }
    }

    /// A draft for a task of a session.
    pub fn task(session_id: String, task_id: String, node: ContextNode) -> (r: ContextNodeDraft)
        ensures
            r@ == (DraftModel {
                node: node@,
                session_id: session_id@,
                task_id: Some(task_id@),
            }),
    {
        ContextNodeDraft { node, session_id, task_id: Some(task_id) }
    }

    pub fn node(&self) -> (r: &ContextNode)
        ensures
            r@ == self@.node,
    {
        &self.node
    }

    pub fn session_id(&self) -> (r: &String)
        ensures
            r@ == self@.session_id,
    {
        &self.session_id
    }

    pub fn task_id(&self) -> (r: &Option<String>)
        ensures
            optional_text(*r) == self@.task_id,
    {
        &self.task_id
    }
}

/// A draft that was checked against canonical history.
#[derive(Debug)]
pub struct ValidatedContextNodeDraft {
    node: ContextNode,
    session_id: String,
    task_id: Option<String>,
    causation_id: String,
}

/// The model of a checked draft.
pub struct ValidatedDraftModel {
    pub node: NodeModel,
    pub session_id: Seq<char>,
    pub task_id: Option<Seq<char>>,
    pub causation_id: Seq<char>,
}

impl View for ValidatedContextNodeDraft {
    type V = ValidatedDraftModel;

    closed spec fn view(&self) -> ValidatedDraftModel {
        ValidatedDraftModel {
            node: self.node@,
            session_id: self.session_id@,
            task_id: optional_text(self.task_id),
            causation_id: self.causation_id@,
        }
    }
}

impl ValidatedContextNodeDraft {
    pub fn node(&self) -> (r: &ContextNode)
        ensures
            r@ == self@.node,
    {
        &self.node
    }

    pub fn session_id(&self) -> (r: &String)
        ensures
            r@ == self@.session_id,
    {
        &self.session_id
    }

    pub fn task_id(&self) -> (r: &Option<String>)
        ensures
            optional_text(*r) == self@.task_id,
    {
        &self.task_id
    }

    pub fn causation_id(&self) -> (r: &String)
        ensures
            r@ == self@.causation_id,
    {
        &self.causation_id
    }

    /// Task records correlate to their task, session records to the session.
    pub fn correlation_id(&self) -> (r: &String)
        ensures
            r@ == correlation_of(self@.session_id, self@.task_id),
    {
        match &self.task_id {
            Some(t) => t,
            None => &self.session_id,
        }
    }

    /// The payload that records the node.
    pub fn payload(&self) -> (r: ContextNodeRecordedPayloadV1)
        ensures
            r.event_version == CONTEXT_NODE_EVENT_VERSION,
            r.node@ == self@.node,
    {
        ContextNodeRecordedPayloadV1::new(self.node.clone())
    }
}

/// The result of checking a draft on its own: its identifiers, the node's
/// identity and window, and the high-water decide, in that order.
pub open spec fn shape_outcome(
    draft: DraftModel,
    identifiers: Result<(), RetrievalError>,
    high_water: i64,
    available: i64,
    r: Result<(), ContextProjectionError>,
) -> bool {
    if identifiers is Err {
        r == Err::<(), ContextProjectionError>(
            ContextProjectionError::Retrieval(identifiers->Err_0),
        )
    } else if !identity_shaped(draft.node) {
        identity_outcome(draft.node, r)
    } else if !precise(draft.node) {
        precision_outcome(draft.node, r)
    } else if !(0 <= high_water <= available) {
        r == Err::<(), ContextProjectionError>(
            ContextProjectionError::HighWaterAhead { requested: high_water, available },
        )
    } else {
        r is Ok
    }
}

/// The node's window has whole milliseconds.
pub open spec fn precise(n: NodeModel) -> bool {
    &&& n.valid_from matches Some(t) ==> t.whole_millis()
    &&& n.valid_until matches Some(t) ==> t.whole_millis()
}

/// Checks a draft on its own. `identifiers` is what checking its session, task
/// and node identifiers gave.
pub fn check_draft_shape(
    draft: &ContextNodeDraft,
    identifiers: Result<(), RetrievalError>,
    high_water: i64,
    available: i64,
) -> (r: Result<(), ContextProjectionError>)
    ensures
        shape_outcome(draft@, identifiers, high_water, available, r),
{
    match identifiers {
        Err(e) => {
            return Err(ContextProjectionError::Retrieval(e));
        },
        Ok(()) => {},
    }
    match validate_node_identity_shape(&draft.node) {
        Err(e) => {
            return Err(e);
        },
        Ok(()) => {},
    }
    match validate_new_validity_precision(&draft.node) {
        Err(e) => {
            return Err(e);
        },
        Ok(()) => {},
    }
    check_high_water(high_water, available)
}

/// A superseded identity is recorded in the draft's own task.
pub open spec fn target_admitted(
    index: IdentityIndex,
    draft: DraftModel,
    i: int,
) -> bool {
    index.at(draft.session_id, draft.node.supersedes[i]) matches Some(t) && t.task_id
        == draft.task_id
}

/// Every superseded identity is recorded in the draft's own task.
pub open spec fn targets_admitted(index: IdentityIndex, draft: DraftModel) -> bool {
    forall|i: int|
        0 <= i < draft.node.supersedes.len() ==> #[trigger] target_admitted(index, draft, i)
}

/// The error reports superseded identity `i`, the first that is refused.
pub open spec fn reports_target(
    e: ContextProjectionError,
    index: IdentityIndex,
    draft: DraftModel,
    i: int,
) -> bool {
    let target = draft.node.supersedes[i];
    &&& 0 <= i < draft.node.supersedes.len()
    &&& forall|j: int| 0 <= j < i ==> #[trigger] target_admitted(index, draft, j)
    &&& !target_admitted(index, draft, i)
    &&& if index.at(draft.session_id, target) is None {
        &&& e is MissingSupersededNode
        &&& e->MissingSupersededNode_node_id@ == draft.node.id
        &&& e->MissingSupersededNode_superseded_id@ == target
    } else {
        &&& e is SupersessionScopeMismatch
        &&& e->SupersessionScopeMismatch_node_id@ == draft.node.id
        &&& e->SupersessionScopeMismatch_superseded_id@ == target
    }
}

/// The sequence just after the high-water, held at the greatest.
pub open spec fn next_sequence(high_water: i64) -> i64 {
    if high_water == i64::MAX {
        i64::MAX
    } else {
        (high_water + 1) as i64
    }
}

/// The draft's node as it would be recorded after the high-water.
pub open spec fn draft_recording(draft: DraftModel, high_water: i64) -> Recording {
    Recording {
        node: draft.node,
        session_id: draft.session_id,
        task_id: draft.task_id,
        seq: next_sequence(high_water),
    }
}

/// The result of admitting a draft against the verified index, and how many
/// identities were looked up for it: the session, the draft's own identity, its
/// scope, the durable rules, what it supersedes and its sources decide, in that
/// order.
pub open spec fn admission_outcome(
    draft: DraftModel,
    index: IdentityIndex,
    high_water: i64,
    found: Seq<Option<EventRecord>>,
    lookups: u64,
    r: Result<ValidatedContextNodeDraft, ContextProjectionError>,
) -> bool {
    if blank(draft.session_id) {
        &&& r is Err
        &&& r->Err_0 is InvalidScope
        &&& r->Err_0->InvalidScope_seq == 0
        &&& r->Err_0->InvalidScope_reason@ == "session_id is empty"@
        &&& lookups == 0
    } else if index.at(draft.session_id, draft.node.id) is Some {
        let taken = index.at(draft.session_id, draft.node.id)->0;
        &&& r is Err
        &&& r->Err_0 is DuplicateNodeIdentity
        &&& r->Err_0->DuplicateNodeIdentity_session_id@ == draft.session_id
        &&& r->Err_0->DuplicateNodeIdentity_node_id@ == draft.node.id
        &&& r->Err_0->DuplicateNodeIdentity_event_id@ == taken.event_id
        &&& r->Err_0->DuplicateNodeIdentity_seq == taken.event_seq
        &&& lookups == 1
    } else if scope_fault(draft.session_id, draft.task_id, draft.node.scope) is Some {
        &&& r is Err
        &&& scope_outcome(
            0,
            draft.session_id,
            draft.task_id,
            draft.node.scope,
            Err(r->Err_0),
        )
        &&& lookups == 1
    } else if !durable(draft.node) {
        r is Err && durable_outcome(draft.node, Err(r->Err_0)) && lookups == 1
    } else if !targets_admitted(index, draft) {
        r is Err && exists|i: int| #[trigger]
            reports_target(r->Err_0, index, draft, i) && lookups == i + 2
    } else {
        &&& lookups == draft.node.supersedes.len() + 1
        &&& match r {
            Err(e) => resolve_outcome(
                draft_recording(draft, high_water),
                found,
                None,
                None,
                Err(e),
            ),
            Ok(v) => exists|resolved: ResolvedNode|
                {
                    &&& #[trigger] resolve_outcome(
                        draft_recording(draft, high_water),
                        found,
                        None,
                        None,
                        Ok(resolved),
                    )
                    &&& v@ == (ValidatedDraftModel {
                        node: draft.node,
                        session_id: draft.session_id,
                        task_id: draft.task_id,
                        causation_id: resolved.causation_id@,
                    })
                },
        }
    }
}

fn check_targets(draft: &ContextNodeDraft, index: &IdentityIndex) -> (r: (
    u64,
    Result<(), ContextProjectionError>,
))
    requires
        index.well_formed(),
        draft.node.supersedes@.len() < u64::MAX,
    ensures
        match r.1 {
            Ok(_) => targets_admitted(*index, draft@) && r.0 == draft@.node.supersedes.len(),
            Err(e) => !targets_admitted(*index, draft@) && exists|i: int| #[trigger]
                reports_target(e, *index, draft@, i) && r.0 == i + 1,
        },
{
    let ghost d = draft@;
    let mut i: usize = 0;
    while i < draft.node.supersedes.len()
        invariant
            index.well_formed(),
            d == draft@,
            draft.node.supersedes@.len() < u64::MAX,
            0 <= i <= draft.node.supersedes@.len(),
            forall|j: int| 0 <= j < i ==> #[trigger] target_admitted(*index, d, j),
        decreases draft.node.supersedes.len() - i,
    {
        let target = &draft.node.supersedes[i];
        assert(d.node.supersedes[i as int] == target@);
        let looked_up: u64 = i as u64 + 1;
        match index.lookup(&draft.session_id, target) {
            None => {
                let e = ContextProjectionError::MissingSupersededNode {
                    node_id: draft.node.id.clone(),
                    superseded_id: target.clone(),
                };
                assert(!target_admitted(*index, d, i as int));
                assert(reports_target(e, *index, d, i as int));
                return (looked_up, Err(e));
            },
            Some(existing) => {
                if !same_optional_text(&existing.task_id, &draft.task_id) {
                    let e = ContextProjectionError::SupersessionScopeMismatch {
                        node_id: draft.node.id.clone(),
                        superseded_id: target.clone(),
                    };
                    assert(!target_admitted(*index, d, i as int));
                    assert(reports_target(e, *index, d, i as int));
                    return (looked_up, Err(e));
                }
            },
        }
        assert(target_admitted(*index, d, i as int));
        i += 1;
    }
    (draft.node.supersedes.len() as u64, Ok(()))
}

/// Admits a draft against the verified index at a high-water. `found` holds, for
/// each source that the node cites, the event of that identity where there is
/// one. Returns also how many identities were looked up.
pub fn validate_draft(
    draft: &ContextNodeDraft,
    index: &IdentityIndex,
    high_water: i64,
    found: &Vec<Option<EventRecord>>,
) -> (r: (u64, Result<ValidatedContextNodeDraft, ContextProjectionError>))
    requires
        index.well_formed(),
        found@.len() == draft@.node.source_event_ids.len(),
    ensures
        admission_outcome(draft@, *index, high_water, found@, r.0, r.1),
{
    if is_blank(&draft.session_id) {
        return (
            0,
            Err(
                ContextProjectionError::InvalidScope {
                    seq: 0,
                    reason: "session_id is empty".to_owned(),
                },
            ),
        );
    }
    if let Some(taken) = index.lookup(&draft.session_id, &draft.node.id) {
        return (
            1,
            Err(
                ContextProjectionError::DuplicateNodeIdentity {
                    session_id: draft.session_id.clone(),
                    node_id: draft.node.id.clone(),
                    event_id: taken.event_id,
                    seq: taken.event_seq,
                },
            ),
        );
    }
    match validate_requested_scope(0, &draft.session_id, &draft.task_id, draft.node.scope) {
        Err(e) => {
            return (1, Err(e));
        },
        Ok(()) => {},
    }
    match validate_durable_node(&draft.node) {
        Err(e) => {
            return (1, Err(e));
        },
        Ok(()) => {},
    }
    assert(draft.node@.supersedes.len() == draft.node.supersedes@.len());
    let (targets, checked) = check_targets(draft, index);
    let lookups: u64 = targets + 1;
    match checked {
        Err(e) => {
            return (lookups, Err(e));
        },
        Ok(()) => {},
    }
    let next: i64 = if high_water == i64::MAX {
        i64::MAX
    } else {
        high_water + 1
    };
    let mut unbudgeted: Option<DeltaVerificationBudget> = None;
    assert(draft.node@.source_event_ids.len() == draft.node.source_event_ids@.len());
    match resolve_sources(
        &draft.node,
        &draft.session_id,
        &draft.task_id,
        next,
        found,
        &mut unbudgeted,
    ) {
        Err(e) => (lookups, Err(e)),
        Ok(resolved) => {
            assert(resolve_outcome(
                draft_recording(draft@, high_water),
                found@,
                None,
                None,
                Ok(resolved),
            ));
            (
                lookups,
                Ok(
                    ValidatedContextNodeDraft {
                        node: draft.node.clone(),
                        session_id: draft.session_id.clone(),
                        task_id: copy_optional_text(&draft.task_id),
                        causation_id: resolved.causation_id.clone(),
                    },
                ),
            )
        },
    }
}

/// An admitted draft keeps the durable rules and takes an identity that was
/// free.
pub proof fn admitted_drafts_are_durable(
    draft: DraftModel,
    index: IdentityIndex,
    high_water: i64,
    found: Seq<Option<EventRecord>>,
    lookups: u64,
    v: ValidatedContextNodeDraft,
)
    requires
        admission_outcome(draft, index, high_water, found, lookups, Ok(v)),
    ensures
        durable(v@.node),
        index.at(v@.session_id, v@.node.id) is None,
        v@.node == draft.node,
{
}

/// The event records an admitted draft: it is the system's, it carries the
/// draft's node, scope and causation, and it comes after the high-water.
pub open spec fn records_draft(
    event: EventRecord,
    parsed: Result<ContextNode, String>,
    v: ValidatedDraftModel,
    high_water: i64,
) -> bool {
    &&& event.seq > high_water
    &&& event.actor == EventActor::System
    &&& event.span_id is None
    &&& optional_text(event.session_id) == Some(v.session_id)
    &&& optional_text(event.task_id) == v.task_id
    &&& optional_text(event.causation_id) == Some(v.causation_id)
    &&& optional_text(event.correlation_id) == Some(correlation_of(v.session_id, v.task_id))
    &&& payload_version(event.payload) == Some(CONTEXT_NODE_EVENT_VERSION as u64)
    &&& parsed matches Ok(node) && node@ == v.node
    &&& v.node.encoding.payload_bytes == Some(event.payload_bytes)
}

/// A draft is admitted by the rules that a replay applies: once it is recorded,
/// the recorded node decodes.
pub proof fn admitted_drafts_replay(
    draft: DraftModel,
    index: IdentityIndex,
    high_water: i64,
    found: Seq<Option<EventRecord>>,
    lookups: u64,
    v: ValidatedContextNodeDraft,
    event: EventRecord,
    parsed: Result<ContextNode, String>,
    r: Result<ValidatedRecordedNode, ContextProjectionError>,
)
    requires
        admission_outcome(draft, index, high_water, found, lookups, Ok(v)),
        records_draft(event, parsed, v@, high_water),
        decode_outcome(event, parsed, found, None, None, r),
    ensures
        r is Ok,
        r->Ok_0.node@ == draft.node,
        r->Ok_0.resolved.causation_id@ == v@.causation_id,
{
    let x = draft_recording(draft, high_water);
    let y = recording_of(event, parsed->Ok_0);
    let resolved = choose|resolved: ResolvedNode|
        {
            &&& #[trigger] resolve_outcome(x, found, None, None, Ok(resolved))
            &&& v@.causation_id == resolved.causation_id@
        };
    assert(x.sources_valid(found));
    assert(parsed->Ok_0@.scope == parsed->Ok_0.scope);
    assert forall|i: int| 0 <= i < found.len() implies y.fault_of(#[trigger] found[i]) is None by {
        assert(x.fault_of(found[i]) is None);
    }
    assert(y.sources_valid(found));
    lemma_no_budget(found.len());
    if let Err(e) = r {
        if resolve_outcome(y, found, None, None, Err(e)) {
            assert(y.attested(found));
            let i = choose|i: int| #[trigger] stops_at(y, found, None, i);
            assert(stops_at(y, found, None, i));
            lemma_no_budget(i as nat);
            assert(false);
        } else {
            let other = choose|other: ResolvedNode|
                {
                    &&& #[trigger] resolve_outcome(y, found, None, None, Ok(other))
                    &&& optional_text(event.causation_id) != Some(other.causation_id@)
                };
            lemma_same_causation(found, resolved, other);
            assert(false);
        }
    }
}

/// Without a budget nothing is counted.
proof fn lemma_no_budget(k: nat)
    ensures
        after_lookups(None, k) is None,
    decreases k,
{
    if k > 0 {
        lemma_no_budget((k - 1) as nat);
    }
}

/// The same sources have one latest source.
proof fn lemma_same_causation(found: Seq<Option<EventRecord>>, a: ResolvedNode, b: ResolvedNode)
    requires
        resolved_from(found, a),
        resolved_from(found, b),
    ensures
        a.causation_id@ == b.causation_id@,
{
    let m = choose|m: int|
        #[trigger] greatest(found, m) && a.causation_id@ == found[m]->0.event_id@
            && a.causation_seq == found[m]->0.seq;
    let n = choose|n: int|
        #[trigger] greatest(found, n) && b.causation_id@ == found[n]->0.event_id@
            && b.causation_seq == found[n]->0.seq;
    assert(greatest(found, m) && greatest(found, n));
    if m < n {
        assert(found[n]->0.seq < found[m]->0.seq);
    } else if n < m {
        assert(found[m]->0.seq < found[n]->0.seq);
    }
}

/// Canonical recording identity for one session-wide node ID.
#[derive(Debug)]
pub struct CommittedContextIdentity {
    pub session_id: String,
    pub task_id: Option<String>,
    pub node_id: String,
    pub event_id: String,
    pub event_seq: i64,
}

/// The result of checking a lookup before the index is asked.
pub open spec fn lookup_request_outcome(
    session_id: Seq<char>,
    node_id: Seq<char>,
    high_water: i64,
    available: i64,
    r: Result<(), ContextProjectionError>,
) -> bool {
    if blank(session_id) || blank(node_id) {
        &&& r is Err
        &&& r->Err_0 is InvalidScope
        &&& r->Err_0->InvalidScope_seq == 0
        &&& r->Err_0->InvalidScope_reason@ == "identity lookup session/node ID is empty"@
    } else if utf8_len(node_id) > MAX_CONTEXT_NODE_ID_BYTES {
        r is Err && too_long(
            r->Err_0,
            "context node id"@,
            utf8_len(node_id),
            MAX_CONTEXT_NODE_ID_BYTES,
        )
    } else if !(0 <= high_water <= available) {
        r == Err::<(), ContextProjectionError>(
            ContextProjectionError::HighWaterAhead { requested: high_water, available },
        )
    } else {
        r is Ok
    }
}

/// Checks a lookup before the index is asked.
pub fn check_lookup_request(session_id: &str, node_id: &str, high_water: i64, available: i64) -> (r:
    Result<(), ContextProjectionError>)
    ensures
        lookup_request_outcome(session_id@, node_id@, high_water, available, r),
{
    if is_blank(session_id) || is_blank(node_id) {
        return Err(
            ContextProjectionError::InvalidScope {
                seq: 0,
                reason: "identity lookup session/node ID is empty".to_owned(),
            },
        );
    }
    match bounded_bytes("context node id", byte_len(node_id), MAX_CONTEXT_NODE_ID_BYTES) {
        Err(e) => {
            return Err(e);
        },
        Ok(()) => {},
    }
    check_high_water(high_water, available)
}

/// Looks up a committed identity in the verified index.
pub fn lookup_committed_identity(index: &IdentityIndex, session_id: &str, node_id: &str) -> (r:
    Option<CommittedContextIdentity>)
    requires
        index.well_formed(),
    ensures
        match index.at(session_id@, node_id@) {
            None => r is None,
            Some(i) => {
                &&& r is Some
                &&& r->0.session_id@ == session_id@
                &&& r->0.node_id@ == node_id@
                &&& optional_text(r->0.task_id) == i.task_id
                &&& r->0.event_id@ == i.event_id
                &&& r->0.event_seq == i.event_seq
            },
        },
{
    match index.lookup(session_id, node_id) {
        None => None,
        Some(i) => Some(
            CommittedContextIdentity {
                session_id: session_id.to_owned(),
                task_id: i.task_id,
                node_id: node_id.to_owned(),
                event_id: i.event_id,
                event_seq: i.event_seq,
            },
        ),
    }
}

/// What the index needs before it can be asked.
#[derive(Debug, Clone, Copy, PartialEq, Eq, Structural)]
pub enum IndexReadiness {
    /// Nothing.
    Ready,
    /// A rebuild.
    Rebuild,
}

/// The result of checking that the index stands at a high-water: one that does
/// not is refused; an empty projection and a verified cache are ready.
pub open spec fn readiness(
    checkpoint: CheckpointModel,
    high_water: i64,
    anchored: bool,
    cache_verified: bool,
) -> Result<IndexReadiness, ContextProjectionError> {
    if checkpoint.through_seq != high_water || !anchored {
        Err(
            ContextProjectionError::ProjectionNotSynchronized {
                checkpoint: checkpoint.through_seq,
                high_water,
            },
        )
    } else if (high_water == 0 && checkpoint.canonical_state_digest == empty_digest(
        GLOBAL_INDEX_DIGEST_DOMAIN@,
    )) || cache_verified {
        Ok(IndexReadiness::Ready)
    } else {
        Ok(IndexReadiness::Rebuild)
    }
}

/// Checks that the index stands at a high-water.
pub fn ensure_verified_index(
    checkpoint: &ProjectionCheckpoint,
    high_water: i64,
    anchored: bool,
    cache_verified: bool,
) -> (r: Result<IndexReadiness, ContextProjectionError>)
    ensures
        r == readiness(checkpoint@, high_water, anchored, cache_verified),
{
    if checkpoint.through_seq != high_water || !anchored {
        return Err(
            ContextProjectionError::ProjectionNotSynchronized {
                checkpoint: checkpoint.through_seq,
                high_water,
            },
        );
    }
    if (high_water == 0 && same_digest(
        &checkpoint.canonical_state_digest,
        &empty_state_digest(GLOBAL_INDEX_DIGEST_DOMAIN),
    )) || cache_verified {
        return Ok(IndexReadiness::Ready);
    }
    Ok(IndexReadiness::Rebuild)
}

/// Checks a rebuilt index: one that still disagrees is refused.
pub fn check_rebuilt_index(cache_verified: bool, high_water: i64) -> (r: Result<
    (),
    ContextProjectionError,
>)
    ensures
        rebuilt_outcome(cache_verified, high_water, r),
        cache_verified ==> r is Ok,
        !cache_verified ==> r == Err::<(), ContextProjectionError>(
            ContextProjectionError::SessionIndexIntegrityMismatch { high_water },
        ),
{
    if cache_verified {
        return Ok(());
    }
    Err(ContextProjectionError::SessionIndexIntegrityMismatch { high_water })
}

/// What an audit does after comparing the cache with the journal.
#[derive(Debug, Clone, Copy, PartialEq, Eq, Structural)]
pub enum AuditStep {
    /// The cache agrees.
    Accept,
    /// Rebuild the cache and compare once more.
    Rebuild,
}

/// What an audit does after a comparison: agreement is accepted, a first
/// disagreement rebuilds the cache, and one after a rebuild is refused.
pub fn audit_step(agreed: bool, rebuilt: bool, high_water: i64) -> (r: Result<
    AuditStep,
    ContextProjectionError,
>)
    ensures
        audit_outcome(agreed, rebuilt, high_water, r),
        agreed ==> r == Ok::<AuditStep, ContextProjectionError>(AuditStep::Accept),
        !agreed && !rebuilt ==> r == Ok::<AuditStep, ContextProjectionError>(AuditStep::Rebuild),
        !agreed && rebuilt ==> r == Err::<AuditStep, ContextProjectionError>(
            ContextProjectionError::ProjectionSnapshotIntegrityMismatch { high_water },
        ),
{
    if agreed {
        return Ok(AuditStep::Accept);
    }
    if rebuilt {
        return Err(ContextProjectionError::ProjectionSnapshotIntegrityMismatch { high_water });
    }
    Ok(AuditStep::Rebuild)
}

/// The result of an audit's comparison.
pub open spec fn audit_outcome(
    agreed: bool,
    rebuilt: bool,
    high_water: i64,
    r: Result<AuditStep, ContextProjectionError>,
) -> bool {
    if agreed {
        r == Ok::<AuditStep, ContextProjectionError>(AuditStep::Accept)
    } else if rebuilt {
        r == Err::<AuditStep, ContextProjectionError>(
            ContextProjectionError::ProjectionSnapshotIntegrityMismatch { high_water },
        )
    } else {
        r == Ok::<AuditStep, ContextProjectionError>(AuditStep::Rebuild)
    }
}

/// The result of checking a rebuilt index.
pub open spec fn rebuilt_outcome(
    cache_verified: bool,
    high_water: i64,
    r: Result<(), ContextProjectionError>,
) -> bool {
    if cache_verified {
        r is Ok
    } else {
        r == Err::<(), ContextProjectionError>(
            ContextProjectionError::SessionIndexIntegrityMismatch { high_water },
        )
    }
}

/// An audit never accepts a cache that disagrees, rebuilds it at most once, and
/// never rebuilds one that agrees; a rebuilt index that still disagrees is refused.
pub proof fn audits_accept_only_agreement(
    agreed: bool,
    rebuilt: bool,
    high_water: i64,
    r: Result<AuditStep, ContextProjectionError>,
    q: Result<(), ContextProjectionError>,
)
    requires
        audit_outcome(agreed, rebuilt, high_water, r),
        rebuilt_outcome(agreed, high_water, q),
    ensures
        r is Ok && r->Ok_0 == AuditStep::Accept <==> agreed,
        r is Ok && r->Ok_0 == AuditStep::Rebuild <==> !agreed && !rebuilt,
        r is Err <==> !agreed && rebuilt,
        r matches Err(e) ==> e == (
        ContextProjectionError::ProjectionSnapshotIntegrityMismatch { high_water }),
        q is Ok <==> agreed,
        q matches Err(e) ==> e == (
        ContextProjectionError::SessionIndexIntegrityMismatch { high_water }),
{
}

/// A lookup names a session and a node, neither blank, the node in at most 256
/// bytes, and a high-water of the journal; it is refused for what it lacks.
pub proof fn lookups_name_what_they_look_for(
    session_id: Seq<char>,
    node_id: Seq<char>,
    high_water: i64,
    available: i64,
    r: Result<(), ContextProjectionError>,
)
    requires
        lookup_request_outcome(session_id, node_id, high_water, available, r),
    ensures
        r is Ok <==> !blank(session_id) && !blank(node_id) && utf8_len(node_id) <= 256 && 0
            <= high_water <= available,
        r is Err && r->Err_0 is InvalidScope <==> blank(session_id) || blank(node_id),
        r matches Err(ContextProjectionError::DurableBytesExceeded { field, actual, maximum })
            ==> actual == utf8_len(node_id) && maximum == 256 && actual > 256,
        r matches Err(ContextProjectionError::HighWaterAhead { requested, available: a })
            ==> requested == high_water && a == available && !(0 <= high_water <= available),
{
}

} // verus!
