//! What every admitted and every decoded node keeps to, told from the events that
//! it cites and from its own fields.

use vstd::prelude::*;

use crate::context::node::{ContextNode, ContextOrigin, ContextScope, NodeModel};
use crate::events::json::{member, Json};
use crate::events::record::{EventActor, EventRecord};
use crate::projection::admission::{
    admission_outcome, draft_recording, reports_target, shape_outcome, target_admitted,
    DraftModel, ValidatedContextNodeDraft, ValidatedDraftModel,
};
use crate::projection::budget::DeltaVerificationBudget;
use crate::projection::decode::{
    after_payload, decode_outcome, recording_of, ValidatedRecordedNode,
};
use crate::projection::durable::{
    attesting_actor, durable, durable_outcome, reference_fault, references_outcome,
    references_valid, reports_reference, scope_outcome,
};
use crate::projection::error::ContextProjectionError;
use crate::projection::identity::IdentityIndex;
use crate::projection::sources::{
    after_lookups, greatest, lookup_allowed, refuses_lookup, resolve_outcome, stops_at, Recording,
    ResolvedNode,
};
use crate::retrieval::RetrievalError;
use crate::text::{blank, optional_text, utf8_len};

verus! {

/// Some found event was caused by the actor.
pub open spec fn caused_by(found: Seq<Option<EventRecord>>, actor: EventActor) -> bool {
    exists|i: int| 0 <= i < found.len() && (#[trigger] found[i]) is Some && found[i]->0.actor == actor
}

/// The event was found, came before the recording, in the same session, and in no
/// other task than that of the recording.
pub open spec fn citable(x: Recording, source: Option<EventRecord>) -> bool {
    &&& source is Some
    &&& source->0.seq < x.seq
    &&& source->0.session_id is Some
    &&& source->0.session_id->0@ == x.session_id
    &&& x.task_id is None || source->0.task_id is None || source->0.task_id->0@ == x.task_id->0
}

/// The work that a budget has left covers that many lookups.
pub open spec fn has_room(budget: Option<DeltaVerificationBudget>, lookups: nat) -> bool {
    budget matches Some(b) ==> b.work.verification_work + lookups <= 2_000_000
}

proof fn lemma_lookups(budget: Option<DeltaVerificationBudget>, k: nat, n: nat)
    requires
        has_room(budget, n),
        k <= n,
    ensures
        after_lookups(budget, k) is Some == budget is Some,
        budget is Some ==> after_lookups(budget, k)->0.work.verification_work
            == budget->0.work.verification_work + k,
        k < n ==> lookup_allowed(after_lookups(budget, k)),
    decreases k,
{
    if k > 0 {
        lemma_lookups(budget, (k - 1) as nat, n);
    }
}

proof fn lemma_vouched_for(x: Recording, found: Seq<Option<EventRecord>>)
    requires
        x.attested(found),
    ensures
        x.node.origin == ContextOrigin::User ==> caused_by(found, EventActor::User),
        x.node.origin == ContextOrigin::Model ==> caused_by(found, EventActor::Model),
        x.node.origin == ContextOrigin::Capability ==> caused_by(found, EventActor::Capability),
        x.node.origin == ContextOrigin::Policy ==> caused_by(found, EventActor::Policy),
        x.node.origin == ContextOrigin::System ==> caused_by(found, EventActor::System),
{
}

/// A node is resolved only where someone vouches for its origin: what is said to
/// come from the user cites an event of the user, and likewise for the model, a
/// capability, a policy and the system. No other actor can stand in. Its sources
/// were all found, came before it, in its session, and in no other task.
pub proof fn resolved_nodes_are_vouched_for(
    x: Recording,
    found: Seq<Option<EventRecord>>,
    budget: Option<DeltaVerificationBudget>,
    budget_left: Option<DeltaVerificationBudget>,
    r: ResolvedNode,
)
    requires
        resolve_outcome(x, found, budget, budget_left, Ok(r)),
    ensures
        x.node.origin == ContextOrigin::User ==> caused_by(found, EventActor::User),
        x.node.origin == ContextOrigin::Model ==> caused_by(found, EventActor::Model),
        x.node.origin == ContextOrigin::Capability ==> caused_by(found, EventActor::Capability),
        x.node.origin == ContextOrigin::Policy ==> caused_by(found, EventActor::Policy),
        x.node.origin == ContextOrigin::System ==> caused_by(found, EventActor::System),
        forall|i: int| 0 <= i < found.len() ==> citable(x, #[trigger] found[i]),
        r.source_count == found.len(),
        exists|m: int|
            0 <= m < found.len() && (#[trigger] found[m])->0.event_id@ == r.causation_id@
                && found[m]->0.seq == r.causation_seq,
        forall|i: int| 0 <= i < found.len() ==> (#[trigger] found[i])->0.seq <= r.causation_seq,
{
    lemma_vouched_for(x, found);
    assert forall|i: int| 0 <= i < found.len() implies citable(x, #[trigger] found[i]) by {
        assert(x.fault_of(found[i]) is None);
    }
    let m = choose|m: int|
        #[trigger] greatest(found, m) && r.causation_id@ == found[m]->0.event_id@
            && r.causation_seq == found[m]->0.seq;
    assert(greatest(found, m));
}

/// An origin that nobody vouches for is refused as such: where every source is
/// sound and none was caused by the actor of the node's origin, the node is refused
/// by name, and no other actor helps it.
pub proof fn unvouched_nodes_are_refused(
    x: Recording,
    found: Seq<Option<EventRecord>>,
    budget: Option<DeltaVerificationBudget>,
    budget_left: Option<DeltaVerificationBudget>,
    r: Result<ResolvedNode, ContextProjectionError>,
)
    requires
        resolve_outcome(x, found, budget, budget_left, r),
        forall|i: int| 0 <= i < found.len() ==> citable(x, #[trigger] found[i]),
        has_room(budget, found.len()),
        x.node.origin == ContextOrigin::User ==> !caused_by(found, EventActor::User),
        x.node.origin == ContextOrigin::Model ==> !caused_by(found, EventActor::Model),
        x.node.origin == ContextOrigin::Capability ==> !caused_by(found, EventActor::Capability),
        x.node.origin == ContextOrigin::Policy ==> !caused_by(found, EventActor::Policy),
        x.node.origin == ContextOrigin::System ==> !caused_by(found, EventActor::System),
    ensures
        r matches Err(ContextProjectionError::OriginNotAttested { node_id, origin }) && node_id@
            == x.node.id && origin == x.node.origin,
{
    if let Ok(v) = r {
        resolved_nodes_are_vouched_for(x, found, budget, budget_left, v);
    }
    if exists|i: int| #[trigger] stops_at(x, found, budget, i) {
        let i = choose|i: int| #[trigger] stops_at(x, found, budget, i);
        lemma_lookups(budget, i as nat, found.len());
        assert(citable(x, found[i]));
        assert(x.fault_of(found[i]) is None);
    }
}

/// A node whose sources are sound and among which someone vouches for its origin is
/// resolved.
pub proof fn vouched_nodes_are_resolved(
    x: Recording,
    found: Seq<Option<EventRecord>>,
    budget: Option<DeltaVerificationBudget>,
    budget_left: Option<DeltaVerificationBudget>,
    r: Result<ResolvedNode, ContextProjectionError>,
)
    requires
        resolve_outcome(x, found, budget, budget_left, r),
        forall|i: int| 0 <= i < found.len() ==> citable(x, #[trigger] found[i]),
        has_room(budget, found.len()),
        x.node.origin == ContextOrigin::User ==> caused_by(found, EventActor::User),
        x.node.origin == ContextOrigin::Model ==> caused_by(found, EventActor::Model),
        x.node.origin == ContextOrigin::Capability ==> caused_by(found, EventActor::Capability),
        x.node.origin == ContextOrigin::Policy ==> caused_by(found, EventActor::Policy),
        x.node.origin == ContextOrigin::System ==> caused_by(found, EventActor::System),
    ensures
        r is Ok,
        budget_left is Some == budget is Some,
        budget is Some ==> budget_left->0.work.verification_work
            == budget->0.work.verification_work + found.len(),
{
    lemma_lookups(budget, found.len(), found.len());
    if exists|i: int| #[trigger] stops_at(x, found, budget, i) {
        let i = choose|i: int| #[trigger] stops_at(x, found, budget, i);
        lemma_lookups(budget, i as nat, found.len());
        assert(citable(x, found[i]));
        assert(x.fault_of(found[i]) is None);
    }
    let actor = match x.node.origin {
        ContextOrigin::User => EventActor::User,
        ContextOrigin::Model => EventActor::Model,
        ContextOrigin::Capability => EventActor::Capability,
        ContextOrigin::Policy => EventActor::Policy,
        ContextOrigin::System => EventActor::System,
    };
    assert(caused_by(found, actor));
    let i = choose|i: int|
        0 <= i < found.len() && (#[trigger] found[i]) is Some && found[i]->0.actor == actor;
    assert(x.attested(found));
}

/// A refused source has the fault that the refusal names: it was not found, it did
/// not come before the recording, it is of another session, or of another task. The
/// sources cited before it are sound.
pub proof fn refused_sources_have_the_named_fault(
    x: Recording,
    found: Seq<Option<EventRecord>>,
    budget: Option<DeltaVerificationBudget>,
    budget_left: Option<DeltaVerificationBudget>,
    e: ContextProjectionError,
) -> (i: int)
    requires
        resolve_outcome(x, found, budget, budget_left, Err(e)),
        found.len() == x.node.source_event_ids.len(),
    ensures
        e is MissingSource || e is SourceNotPrior || e is SourceSessionMismatch
            || e is SourceTaskMismatch || e is OriginNotAttested || e is SessionIndexLimitExceeded,
        e is MissingSource || e is SourceNotPrior || e is SourceSessionMismatch
            || e is SourceTaskMismatch ==> 0 <= i < found.len() && forall|j: int|
            0 <= j < i ==> citable(x, #[trigger] found[j]),
        e matches ContextProjectionError::MissingSource { node_id, source_event_id } ==> node_id@
            == x.node.id && source_event_id@ == x.node.source_event_ids[i] && found[i] is None,
        e matches ContextProjectionError::SourceNotPrior { node_id, source_event_id, source_seq }
            ==> node_id@ == x.node.id && source_event_id@ == x.node.source_event_ids[i] && found[i]
            is Some && source_seq == found[i]->0.seq && source_seq >= x.seq,
        e matches ContextProjectionError::SourceSessionMismatch { node_id, source_event_id } ==>
            node_id@ == x.node.id && source_event_id@ == x.node.source_event_ids[i] && found[i]
            is Some && (found[i]->0.session_id is None || found[i]->0.session_id->0@
            != x.session_id),
        e matches ContextProjectionError::SourceTaskMismatch { node_id, source_event_id } ==>
            node_id@ == x.node.id && source_event_id@ == x.node.source_event_ids[i] && found[i]
            is Some && x.task_id is Some && found[i]->0.task_id is Some && found[i]->0.task_id->0@
            != x.task_id->0,
        e is SessionIndexLimitExceeded ==> budget is Some,
{
    if exists|i: int| #[trigger] stops_at(x, found, budget, i) {
        let i = choose|i: int|
            {
                &&& #[trigger] stops_at(x, found, budget, i)
                &&& if !lookup_allowed(after_lookups(budget, i as nat)) {
                    refuses_lookup(
                        e,
                        after_lookups(budget, i as nat),
                    )
                } else {
                    x.reports(found, i, e)
                }
            };
        if stops_at(x, found, budget, i) {
            assert forall|j: int| 0 <= j < i implies citable(x, #[trigger] found[j]) by {
                assert(x.fault_of(found[j]) is None);
            }
            lemma_budget_kept(budget, i as nat);
        }
        i
    } else {
        0
    }
}

proof fn lemma_budget_kept(budget: Option<DeltaVerificationBudget>, k: nat)
    ensures
        after_lookups(budget, k) is Some == budget is Some,
    decreases k,
{
    if k > 0 {
        lemma_budget_kept(budget, (k - 1) as nat);
    }
}

/// A list of references is sound where each says something in at most 256 bytes,
/// none occurs twice, and none is the identity that must not be referred to.
pub proof fn sound_references_are_distinct(values: Seq<Seq<char>>, own: Option<Seq<char>>)
    ensures
        references_valid(values, own) <==> {
            &&& forall|i: int|
                0 <= i < values.len() ==> !blank(#[trigger] values[i]) && utf8_len(values[i])
                    <= 256 && own != Some(values[i])
            &&& forall|i: int, j: int|
                0 <= i < j < values.len() ==> #[trigger] values[i] != #[trigger] values[j]
        },
{
    if references_valid(values, own) {
        assert forall|i: int| 0 <= i < values.len() implies !blank(#[trigger] values[i])
            && utf8_len(values[i]) <= 256 && own != Some(values[i]) by {
            assert(reference_fault(values, own, i) is None);
        }
        assert forall|i: int, j: int| 0 <= i < j < values.len() implies #[trigger] values[i]
            != #[trigger] values[j] by {
            assert(reference_fault(values, own, j) is None);
        }
    }
}

/// A node is durable where its identity says something in at most 256 bytes, its
/// summary has at most 65,000 bytes, it cites between one and 64 sources and
/// supersedes at most 64 nodes by sound references, itself not among them, it is
/// valid, and its JSON forms have at most 131,072 bytes.
pub proof fn durable_nodes_keep_to_limits(n: NodeModel)
    ensures
        durable(n) <==> {
            &&& !blank(n.id)
            &&& utf8_len(n.id) <= 256
            &&& utf8_len(n.summary) <= 65_000
            &&& 1 <= n.source_event_ids.len() <= 64
            &&& n.supersedes.len() <= 64
            &&& references_valid(n.source_event_ids, None)
            &&& references_valid(n.supersedes, Some(n.id))
            &&& n.valid()
            &&& n.encoding.node_bytes is Some && n.encoding.node_bytes->0 <= 131_072
            &&& n.encoding.payload_bytes is Some && n.encoding.payload_bytes->0 <= 131_072
        },
{
}

/// A durable rule's refusal tells what it measured: the bytes of the identity, the
/// summary, a reference or a JSON form, the length of a list, a reference that is
/// blank, repeated or to itself, or the node's own fault. What it measured exceeds
/// the limit that it names.
pub proof fn durable_refusals_tell_what_they_measured(
    n: NodeModel,
    r: Result<(), ContextProjectionError>,
)
    requires
        durable_outcome(n, r),
    ensures
        r is Ok <==> durable(n),
        r matches Err(ContextProjectionError::DurableBytesExceeded { field, actual, maximum }) ==> {
            &&& actual > maximum
            &&& {
                ||| field@ == "context node id"@ && actual == utf8_len(n.id) && maximum == 256
                ||| field@ == "context node summary"@ && actual == utf8_len(n.summary) && maximum
                    == 65_000
                ||| field@ == "source_event_ids"@ && maximum == 256 && exists|i: int|
                    0 <= i < n.source_event_ids.len() && actual == utf8_len(
                        #[trigger] n.source_event_ids[i],
                    )
                ||| field@ == "supersedes"@ && maximum == 256 && exists|i: int|
                    0 <= i < n.supersedes.len() && actual == utf8_len(#[trigger] n.supersedes[i])
                ||| field@ == "serialized context node"@ && n.encoding.node_bytes == Some(actual)
                    && maximum == 131_072
                ||| field@ == "serialized context payload"@ && n.encoding.payload_bytes == Some(
                    actual,
                ) && maximum == 131_072
            }
        },
        r matches Err(
            ContextProjectionError::DurableListOutOfRange { field, actual, minimum, maximum },
        ) ==> {
            ||| field@ == "source_event_ids"@ && actual == n.source_event_ids.len() && minimum == 1
                && maximum == 64 && !(1 <= actual <= 64)
            ||| field@ == "supersedes"@ && actual == n.supersedes.len() && minimum == 0 && maximum
                == 64 && actual > 64
        },
        r matches Err(ContextProjectionError::EmptyReference { field, index }) ==> {
            ||| field@ == "source_event_ids"@ && index < n.source_event_ids.len() && blank(
                n.source_event_ids[index as int],
            )
            ||| field@ == "supersedes"@ && index < n.supersedes.len() && blank(
                n.supersedes[index as int],
            )
        },
        r matches Err(ContextProjectionError::DuplicateReference { field, id }) ==> {
            ||| field@ == "source_event_ids"@ && exists|i: int, j: int|
                0 <= i < j < n.source_event_ids.len() && #[trigger] n.source_event_ids[i] == id@
                    && #[trigger] n.source_event_ids[j] == id@
            ||| field@ == "supersedes"@ && exists|i: int, j: int|
                0 <= i < j < n.supersedes.len() && #[trigger] n.supersedes[i] == id@
                    && #[trigger] n.supersedes[j] == id@
        },
        r matches Err(ContextProjectionError::SelfSupersession { node_id }) ==> node_id@ == n.id
            && n.supersedes.contains(n.id),
        r matches Err(ContextProjectionError::InvalidNode { node_id, reason }) ==> node_id@ == n.id,
{
    if let Err(e) = r {
        lemma_reference_refusal("source_event_ids"@, n.source_event_ids, None, e);
        lemma_reference_refusal("supersedes"@, n.supersedes, Some(n.id), e);
    }
}

proof fn lemma_reference_refusal(
    field: Seq<char>,
    values: Seq<Seq<char>>,
    own: Option<Seq<char>>,
    e: ContextProjectionError,
)
    ensures
        references_outcome(
            field,
            values,
            own,
            Err::<(), ContextProjectionError>(e),
        ) ==> {
            &&& e matches ContextProjectionError::DurableBytesExceeded {
                field: f,
                actual,
                maximum,
            } ==> f@ == field && maximum == 256 && actual > 256 && exists|i: int|
                0 <= i < values.len() && actual == utf8_len(#[trigger] values[i])
            &&& e matches ContextProjectionError::EmptyReference { field: f, index } ==> f@ == field
                && index < values.len() && blank(values[index as int])
            &&& e matches ContextProjectionError::DuplicateReference { field: f, id } ==> f@
                == field && exists|i: int, j: int|
                0 <= i < j < values.len() && #[trigger] values[i] == id@ && #[trigger] values[j]
                    == id@
            &&& e matches ContextProjectionError::SelfSupersession { node_id } ==> own == Some(
                node_id@,
            ) && values.contains(node_id@)
            &&& !(e is InvalidNode) && !(e is DurableListOutOfRange)
        },
{
    if references_outcome(
        field,
        values,
        own,
        Err::<(), ContextProjectionError>(e),
    ) {
        let i = choose|i: int|
            {
                &&& 0 <= i < values.len()
                &&& #[trigger] reports_reference(e, field, values, own, i)
            };
        assert(reports_reference(e, field, values, own, i));
        assert(values[i] == values[i]);
        if exists|j: int| 0 <= j < i && #[trigger] values[j] == values[i] {
            let j = choose|j: int| 0 <= j < i && #[trigger] values[j] == values[i];
            assert(values[j] == values[i]);
        }
        assert(values.contains(values[i]));
    }
}

/// A durable node lives in a session or in a task: one of a session names no task,
/// one of a task names one, neither name is blank, and no other scope is durable.
/// The refusal says which of these fails.
pub proof fn durable_scopes_name_what_they_need(
    seq: i64,
    session_id: Seq<char>,
    task_id: Option<Seq<char>>,
    scope: ContextScope,
    r: Result<(), ContextProjectionError>,
)
    requires
        scope_outcome(seq, session_id, task_id, scope, r),
    ensures
        r is Ok <==> !blank(session_id) && ((scope == ContextScope::Session && task_id is None) || (
        scope == ContextScope::Task && task_id is Some && !blank(task_id->0))),
        r is Err ==> r->Err_0 is InvalidScope && r->Err_0->InvalidScope_seq == seq,
        blank(session_id) ==> r is Err && r->Err_0->InvalidScope_reason@ == "session_id is empty"@,
        !blank(session_id) && task_id is Some && blank(task_id->0) ==> r is Err
            && r->Err_0->InvalidScope_reason@ == "task_id is empty"@,
        !blank(session_id) && task_id is Some && !blank(task_id->0) && scope
            == ContextScope::Session ==> r is Err && r->Err_0->InvalidScope_reason@
            == "session-scoped node has a task_id"@,
        !blank(session_id) && task_id is None && scope == ContextScope::Task ==> r is Err
            && r->Err_0->InvalidScope_reason@ == "task-scoped node has no task_id"@,
        !blank(session_id) && task_id is None && scope == ContextScope::Turn ==> r is Err
            && r->Err_0->InvalidScope_reason@ == "unsupported durable node scope "@ + "Turn"@,
        !blank(session_id) && task_id is None && scope == ContextScope::Project ==> r is Err
            && r->Err_0->InvalidScope_reason@ == "unsupported durable node scope "@ + "Project"@,
        !blank(session_id) && task_id is None && scope == ContextScope::Device ==> r is Err
            && r->Err_0->InvalidScope_reason@ == "unsupported durable node scope "@ + "Device"@,
        !blank(session_id) && task_id is None && scope == ContextScope::Global ==> r is Err
            && r->Err_0->InvalidScope_reason@ == "unsupported durable node scope "@ + "Global"@,
{
}

/// A decoded node was recorded as every node is: by the system, outside any span,
/// in at most 131,072 bytes, under version one, correlated to its task or else to
/// its session, and caused by the latest of its sources. Someone vouches for its
/// origin.
pub proof fn decoded_nodes_were_recorded_properly(
    event: EventRecord,
    parsed: Result<ContextNode, String>,
    found: Seq<Option<EventRecord>>,
    budget: Option<DeltaVerificationBudget>,
    budget_left: Option<DeltaVerificationBudget>,
    v: ValidatedRecordedNode,
)
    requires
        decode_outcome(event, parsed, found, budget, budget_left, Ok(v)),
    ensures
        event.actor == EventActor::System,
        event.span_id is None,
        event.payload_bytes <= 131_072,
        member(event.payload, "event_version"@) == Some(Json::Unsigned(1)),
        parsed is Ok,
        v.node@ == parsed->Ok_0@,
        durable(v.node@),
        event.session_id is Some,
        v.session_id@ == event.session_id->0@,
        !blank(v.session_id@),
        v.task_id is Some == event.task_id is Some,
        v.task_id is Some ==> v.task_id->0@ == event.task_id->0@,
        event.task_id is None ==> parsed->Ok_0.scope == ContextScope::Session,
        event.task_id is Some ==> parsed->Ok_0.scope == ContextScope::Task && !blank(
            event.task_id->0@,
        ),
        event.correlation_id is Some,
        event.task_id is Some ==> event.correlation_id->0@ == event.task_id->0@,
        event.task_id is None ==> event.correlation_id->0@ == event.session_id->0@,
        event.causation_id is Some,
        exists|m: int|
            0 <= m < found.len() && (#[trigger] found[m]) is Some && found[m]->0.event_id@
                == event.causation_id->0@ && forall|i: int|
                0 <= i < found.len() ==> (#[trigger] found[i])->0.seq <= found[m]->0.seq,
        forall|i: int|
            0 <= i < found.len() ==> citable(
                (Recording {
                    node: v.node@,
                    session_id: v.session_id@,
                    task_id: optional_text(v.task_id),
                    seq: event.seq,
                }),
                #[trigger] found[i],
            ),
        v.node@.origin == ContextOrigin::User ==> caused_by(found, EventActor::User),
        v.node@.origin == ContextOrigin::Model ==> caused_by(found, EventActor::Model),
        v.node@.origin == ContextOrigin::Capability ==> caused_by(found, EventActor::Capability),
        v.node@.origin == ContextOrigin::Policy ==> caused_by(found, EventActor::Policy),
        v.node@.origin == ContextOrigin::System ==> caused_by(found, EventActor::System),
{
    let x = recording_of(event, parsed->Ok_0);
    let charged = after_payload(budget, event.payload_bytes);
    resolved_nodes_are_vouched_for(x, found, charged, budget_left, v.resolved);
    assert(parsed->Ok_0@.scope == parsed->Ok_0.scope);
    let m = choose|m: int|
        0 <= m < found.len() && (#[trigger] found[m])->0.event_id@ == v.resolved.causation_id@
            && found[m]->0.seq == v.resolved.causation_seq;
    assert(citable(x, found[m]));
}

/// A refused event has the fault that the refusal names.
pub proof fn refused_events_have_the_named_fault(
    event: EventRecord,
    parsed: Result<ContextNode, String>,
    found: Seq<Option<EventRecord>>,
    budget: Option<DeltaVerificationBudget>,
    budget_left: Option<DeltaVerificationBudget>,
    e: ContextProjectionError,
)
    requires
        decode_outcome(event, parsed, found, budget, budget_left, Err(e)),
    ensures
        event.actor != EventActor::System ==> e == (ContextProjectionError::InvalidActor {
            seq: event.seq,
            found: event.actor,
        }),
        e is InvalidActor ==> event.actor != EventActor::System,
        event.actor == EventActor::System && event.span_id is Some ==> e == (
        ContextProjectionError::UnexpectedSpan { seq: event.seq }),
        e is UnexpectedSpan ==> event.span_id is Some,
        e matches ContextProjectionError::UnsupportedEventVersion { seq, found: version } ==> seq
            == event.seq && version != 1 && member(event.payload, "event_version"@) == Some(
            Json::Unsigned(version),
        ),
        e matches ContextProjectionError::MalformedPayload { seq, reason } ==> seq == event.seq && (
        match member(event.payload, "event_version"@) {
            Some(Json::Unsigned(version)) => version == 1 && parsed is Err && reason@
                == parsed->Err_0@,
            _ => reason@ == "event_version is missing or is not an unsigned integer"@,
        }),
        e matches ContextProjectionError::CorrelationMismatch { seq, expected, actual } ==> seq
            == event.seq && event.session_id is Some && expected@ == (if event.task_id is Some {
            event.task_id->0@
        } else {
            event.session_id->0@
        }) && actual is Some == event.correlation_id is Some && (actual is Some ==> actual->0@
            == event.correlation_id->0@ && actual->0@ != expected@),
        e matches ContextProjectionError::CausationMismatch { seq, expected, actual } ==> seq
            == event.seq && actual is Some == event.causation_id is Some && (actual is Some
            ==> actual->0@ == event.causation_id->0@ && actual->0@ != expected@) && exists|m: int|
            0 <= m < found.len() && (#[trigger] found[m])->0.event_id@ == expected@
                && forall|i: int|
                0 <= i < found.len() ==> (#[trigger] found[i])->0.seq <= found[m]->0.seq,
        e matches ContextProjectionError::OriginNotAttested { node_id, origin } ==> parsed is Ok
            && node_id@ == parsed->Ok_0@.id && origin == parsed->Ok_0@.origin && (origin
            == ContextOrigin::User ==> !caused_by(found, EventActor::User)) && (origin
            == ContextOrigin::Model ==> !caused_by(found, EventActor::Model)) && (origin
            == ContextOrigin::Capability ==> !caused_by(found, EventActor::Capability)) && (origin
            == ContextOrigin::Policy ==> !caused_by(found, EventActor::Policy)) && (origin
            == ContextOrigin::System ==> !caused_by(found, EventActor::System)),
{
    let charged = after_payload(budget, event.payload_bytes);
    if parsed is Ok {
        let x = recording_of(event, parsed->Ok_0);
        lemma_reference_refusal(
            "source_event_ids"@,
            parsed->Ok_0@.source_event_ids,
            None,
            e,
        );
        lemma_reference_refusal("supersedes"@, parsed->Ok_0@.supersedes, Some(parsed->Ok_0@.id), e);
        if e is OriginNotAttested {
            lemma_not_attested(x, found);
        }
        if exists|resolved: ResolvedNode|
            #[trigger] resolve_outcome(x, found, charged, budget_left, Ok(resolved)) {
            let resolved = choose|resolved: ResolvedNode|
                {
                    &&& #[trigger] resolve_outcome(x, found, charged, budget_left, Ok(resolved))
                    &&& optional_text(event.causation_id) != Some(resolved.causation_id@)
                    &&& e is CausationMismatch
                    &&& e->CausationMismatch_seq == event.seq
                    &&& e->CausationMismatch_expected@ == resolved.causation_id@
                    &&& optional_text(e->CausationMismatch_actual) == optional_text(
                        event.causation_id,
                    )
                };
            if resolve_outcome(x, found, charged, budget_left, Ok(resolved)) {
                resolved_nodes_are_vouched_for(x, found, charged, budget_left, resolved);
            }
        }
    }
}

proof fn lemma_not_attested(x: Recording, found: Seq<Option<EventRecord>>)
    ensures
        !x.attested(found) ==> {
            &&& x.node.origin == ContextOrigin::User ==> !caused_by(found, EventActor::User)
            &&& x.node.origin == ContextOrigin::Model ==> !caused_by(found, EventActor::Model)
            &&& x.node.origin == ContextOrigin::Capability ==> !caused_by(
                found,
                EventActor::Capability,
            )
            &&& x.node.origin == ContextOrigin::Policy ==> !caused_by(found, EventActor::Policy)
            &&& x.node.origin == ContextOrigin::System ==> !caused_by(found, EventActor::System)
        },
{
    let actor = attesting_actor(x.node.origin);
    if caused_by(found, actor) {
        let i = choose|i: int|
            0 <= i < found.len() && (#[trigger] found[i]) is Some && found[i]->0.actor == actor;
        assert(x.attested(found));
    }
}

/// What was recorded properly decodes: by the system, outside any span, within the
/// size, under version one, in a fitting scope, correlated and caused as it should
/// be, of a durable node with sound sources among which someone vouches for its
/// origin. Nothing else is asked of it.
pub proof fn properly_recorded_nodes_decode(
    event: EventRecord,
    parsed: Result<ContextNode, String>,
    found: Seq<Option<EventRecord>>,
    budget: Option<DeltaVerificationBudget>,
    budget_left: Option<DeltaVerificationBudget>,
    r: Result<ValidatedRecordedNode, ContextProjectionError>,
    m: int,
)
    requires
        decode_outcome(event, parsed, found, budget, budget_left, r),
        event.actor == EventActor::System,
        event.span_id is None,
        event.payload_bytes <= 131_072,
        member(event.payload, "event_version"@) == Some(Json::Unsigned(1)),
        parsed is Ok,
        durable(parsed->Ok_0@),
        event.session_id is Some,
        !blank(event.session_id->0@),
        event.task_id is None ==> parsed->Ok_0@.scope == ContextScope::Session,
        event.task_id is Some ==> parsed->Ok_0@.scope == ContextScope::Task && !blank(
            event.task_id->0@,
        ),
        event.correlation_id is Some,
        event.task_id is Some ==> event.correlation_id->0@ == event.task_id->0@,
        event.task_id is None ==> event.correlation_id->0@ == event.session_id->0@,
        budget matches Some(b) ==> b.work.context_payload_bytes + event.payload_bytes <= 67_108_864
            && b.work.verification_work + 1 + found.len() <= 2_000_000,
        forall|i: int|
            0 <= i < found.len() ==> citable(
                (Recording {
                    node: parsed->Ok_0@,
                    session_id: event.session_id->0@,
                    task_id: optional_text(event.task_id),
                    seq: event.seq,
                }),
                #[trigger] found[i],
            ),
        0 <= m < found.len(),
        forall|i: int|
            0 <= i < found.len() && i != m ==> (#[trigger] found[i])->0.seq < found[m]->0.seq,
        event.causation_id is Some,
        event.causation_id->0@ == found[m]->0.event_id@,
        parsed->Ok_0@.origin == ContextOrigin::User ==> caused_by(found, EventActor::User),
        parsed->Ok_0@.origin == ContextOrigin::Model ==> caused_by(found, EventActor::Model),
        parsed->Ok_0@.origin == ContextOrigin::Capability ==> caused_by(
            found,
            EventActor::Capability,
        ),
        parsed->Ok_0@.origin == ContextOrigin::Policy ==> caused_by(found, EventActor::Policy),
        parsed->Ok_0@.origin == ContextOrigin::System ==> caused_by(found, EventActor::System),
    ensures
        r is Ok,
{
    let x = recording_of(event, parsed->Ok_0);
    let charged = after_payload(budget, event.payload_bytes);
    assert(parsed->Ok_0@.scope == parsed->Ok_0.scope);
    assert(has_room(charged, found.len()));
    if let Err(e) = r {
        if resolve_outcome(x, found, charged, budget_left, Err(e)) {
            vouched_nodes_are_resolved(x, found, charged, budget_left, Err(e));
        } else {
            let resolved = choose|resolved: ResolvedNode|
                {
                    &&& #[trigger] resolve_outcome(x, found, charged, budget_left, Ok(resolved))
                    &&& optional_text(event.causation_id) != Some(resolved.causation_id@)
                };
            let k = choose|k: int|
                #[trigger] greatest(found, k) && resolved.causation_id@ == found[k]->0.event_id@
                    && resolved.causation_seq == found[k]->0.seq;
            assert(greatest(found, k));
            if k != m {
                assert(found[k]->0.seq < found[m]->0.seq);
            }
        }
    }
}

/// A draft is taken up for checking where its identifiers are in order, its node's
/// identity says something in at most 256 bytes, its window lies on whole
/// milliseconds, and the high-water lies in the journal.
pub proof fn drafts_are_taken_up_in_shape(
    draft: DraftModel,
    identifiers: Result<(), RetrievalError>,
    high_water: i64,
    available: i64,
    r: Result<(), ContextProjectionError>,
)
    requires
        shape_outcome(draft, identifiers, high_water, available, r),
    ensures
        r is Ok <==> {
            &&& identifiers is Ok
            &&& !blank(draft.node.id)
            &&& utf8_len(draft.node.id) <= 256
            &&& draft.node.valid_from is Some ==> draft.node.valid_from->0.nanos % 1_000_000 == 0
            &&& draft.node.valid_until is Some ==> draft.node.valid_until->0.nanos % 1_000_000 == 0
            &&& 0 <= high_water <= available
        },
        r matches Err(ContextProjectionError::Retrieval(e)) ==> identifiers == Err::<
            (),
            RetrievalError,
        >(e),
        r matches Err(ContextProjectionError::NonCanonicalValidityPrecision { node_id, field })
            ==> node_id@ == draft.node.id && ((field@ == "valid_from"@ && draft.node.valid_from
            is Some && draft.node.valid_from->0.nanos % 1_000_000 != 0) || (field@
            == "valid_until"@ && draft.node.valid_until is Some
            && draft.node.valid_until->0.nanos % 1_000_000 != 0)),
        r matches Err(ContextProjectionError::HighWaterAhead { requested, available: a })
            ==> requested == high_water && a == available,
{
}

/// An admitted draft takes a free identity, in a scope that fits, keeps the durable
/// rules, supersedes only nodes of its own session that were recorded in its own
/// task, cites only events at or below the high-water, and has someone vouch for
/// its origin. It is handed on unchanged, caused by the latest of its sources.
pub proof fn admitted_drafts_keep_every_rule(
    draft: DraftModel,
    index: IdentityIndex,
    high_water: i64,
    found: Seq<Option<EventRecord>>,
    lookups: u64,
    v: ValidatedContextNodeDraft,
)
    requires
        admission_outcome(draft, index, high_water, found, lookups, Ok(v)),
        high_water < i64::MAX,
    ensures
        v@.node == draft.node,
        v@.session_id == draft.session_id,
        v@.task_id == draft.task_id,
        !blank(draft.session_id),
        index.at(draft.session_id, draft.node.id) is None,
        draft.task_id is None ==> draft.node.scope == ContextScope::Session,
        draft.task_id is Some ==> draft.node.scope == ContextScope::Task && !blank(
            draft.task_id->0,
        ),
        durable(draft.node),
        forall|i: int|
            0 <= i < draft.node.supersedes.len() ==> index.at(
                draft.session_id,
                #[trigger] draft.node.supersedes[i],
            ) is Some && index.at(draft.session_id, draft.node.supersedes[i])->0.task_id
                == draft.task_id,
        lookups == draft.node.supersedes.len() + 1,
        forall|i: int|
            0 <= i < found.len() ==> (#[trigger] found[i]) is Some && found[i]->0.seq <= high_water
                && found[i]->0.session_id is Some && found[i]->0.session_id->0@ == draft.session_id
                && (draft.task_id is None || found[i]->0.task_id is None || found[i]->0.task_id->0@
                == draft.task_id->0),
        exists|m: int|
            0 <= m < found.len() && (#[trigger] found[m]) is Some && found[m]->0.event_id@
                == v@.causation_id && forall|i: int|
                0 <= i < found.len() ==> (#[trigger] found[i])->0.seq <= found[m]->0.seq,
        draft.node.origin == ContextOrigin::User ==> caused_by(found, EventActor::User),
        draft.node.origin == ContextOrigin::Model ==> caused_by(found, EventActor::Model),
        draft.node.origin == ContextOrigin::Capability ==> caused_by(found, EventActor::Capability),
        draft.node.origin == ContextOrigin::Policy ==> caused_by(found, EventActor::Policy),
        draft.node.origin == ContextOrigin::System ==> caused_by(found, EventActor::System),
{
    let x = draft_recording(draft, high_water);
    let resolved = choose|resolved: ResolvedNode|
        {
            &&& #[trigger] resolve_outcome(x, found, None, None, Ok(resolved))
            &&& v@ == (ValidatedDraftModel {
                node: draft.node,
                session_id: draft.session_id,
                task_id: draft.task_id,
                causation_id: resolved.causation_id@,
            })
        };
    resolved_nodes_are_vouched_for(x, found, None, None, resolved);
    assert forall|i: int| 0 <= i < draft.node.supersedes.len() implies index.at(
        draft.session_id,
        #[trigger] draft.node.supersedes[i],
    ) is Some && index.at(draft.session_id, draft.node.supersedes[i])->0.task_id
        == draft.task_id by {
        assert(target_admitted(index, draft, i));
    }
    assert forall|i: int| 0 <= i < found.len() implies citable(x, #[trigger] found[i]) by {}
    let m = choose|m: int|
        0 <= m < found.len() && (#[trigger] found[m])->0.event_id@ == resolved.causation_id@
            && found[m]->0.seq == resolved.causation_seq;
    assert(citable(x, found[m]));
}

/// A draft that keeps every rule is admitted.
pub proof fn drafts_that_keep_every_rule_are_admitted(
    draft: DraftModel,
    index: IdentityIndex,
    high_water: i64,
    found: Seq<Option<EventRecord>>,
    lookups: u64,
    r: Result<ValidatedContextNodeDraft, ContextProjectionError>,
)
    requires
        admission_outcome(draft, index, high_water, found, lookups, r),
        high_water < i64::MAX,
        !blank(draft.session_id),
        index.at(draft.session_id, draft.node.id) is None,
        draft.task_id is None ==> draft.node.scope == ContextScope::Session,
        draft.task_id is Some ==> draft.node.scope == ContextScope::Task && !blank(
            draft.task_id->0,
        ),
        durable(draft.node),
        forall|i: int|
            0 <= i < draft.node.supersedes.len() ==> index.at(
                draft.session_id,
                #[trigger] draft.node.supersedes[i],
            ) is Some && index.at(draft.session_id, draft.node.supersedes[i])->0.task_id
                == draft.task_id,
        forall|i: int|
            0 <= i < found.len() ==> (#[trigger] found[i]) is Some && found[i]->0.seq <= high_water
                && found[i]->0.session_id is Some && found[i]->0.session_id->0@ == draft.session_id
                && (draft.task_id is None || found[i]->0.task_id is None || found[i]->0.task_id->0@
                == draft.task_id->0),
        draft.node.origin == ContextOrigin::User ==> caused_by(found, EventActor::User),
        draft.node.origin == ContextOrigin::Model ==> caused_by(found, EventActor::Model),
        draft.node.origin == ContextOrigin::Capability ==> caused_by(found, EventActor::Capability),
        draft.node.origin == ContextOrigin::Policy ==> caused_by(found, EventActor::Policy),
        draft.node.origin == ContextOrigin::System ==> caused_by(found, EventActor::System),
    ensures
        r is Ok,
{
    let x = draft_recording(draft, high_water);
    assert forall|i: int| 0 <= i < found.len() implies citable(x, #[trigger] found[i]) by {}
    if let Err(e) = r {
        if resolve_outcome(x, found, None, None, Err(e)) {
            vouched_nodes_are_resolved(x, found, None, None, Err(e));
        }
        if exists|i: int| #[trigger] reports_target(e, index, draft, i) {
            let i = choose|i: int| #[trigger] reports_target(e, index, draft, i);
            assert(index.at(draft.session_id, draft.node.supersedes[i]) is Some);
        }
        assert forall|i: int| 0 <= i < draft.node.supersedes.len() implies #[trigger] target_admitted(
            index,
            draft,
            i,
        ) by {
            assert(index.at(draft.session_id, draft.node.supersedes[i]) is Some);
        }
    }
}

/// A refused draft has the fault that the refusal names: its identity is taken, by
/// the event that the refusal names; what it supersedes was never recorded, or was
/// recorded in another task; or nobody vouches for its origin.
pub proof fn refused_drafts_have_the_named_fault(
    draft: DraftModel,
    index: IdentityIndex,
    high_water: i64,
    found: Seq<Option<EventRecord>>,
    lookups: u64,
    e: ContextProjectionError,
)
    requires
        admission_outcome(
            draft,
            index,
            high_water,
            found,
            lookups,
            Err::<ValidatedContextNodeDraft, ContextProjectionError>(e),
        ),
    ensures
        e matches ContextProjectionError::DuplicateNodeIdentity {
            session_id,
            node_id,
            event_id,
            seq,
        } ==> session_id@ == draft.session_id && node_id@ == draft.node.id && index.at(
            draft.session_id,
            draft.node.id,
        ) is Some && event_id@ == index.at(draft.session_id, draft.node.id)->0.event_id && seq
            == index.at(draft.session_id, draft.node.id)->0.event_seq,
        e matches ContextProjectionError::MissingSupersededNode { node_id, superseded_id } ==>
            node_id@ == draft.node.id && draft.node.supersedes.contains(superseded_id@)
            && index.at(draft.session_id, superseded_id@) is None,
        e matches ContextProjectionError::SupersessionScopeMismatch { node_id, superseded_id } ==>
            node_id@ == draft.node.id && draft.node.supersedes.contains(superseded_id@)
            && index.at(draft.session_id, superseded_id@) is Some && index.at(
            draft.session_id,
            superseded_id@,
        )->0.task_id != draft.task_id,
        e matches ContextProjectionError::OriginNotAttested { node_id, origin } ==> node_id@
            == draft.node.id && origin == draft.node.origin && (origin == ContextOrigin::User
            ==> !caused_by(found, EventActor::User)) && (origin == ContextOrigin::Model
            ==> !caused_by(found, EventActor::Model)) && (origin == ContextOrigin::Capability
            ==> !caused_by(found, EventActor::Capability)) && (origin == ContextOrigin::Policy
            ==> !caused_by(found, EventActor::Policy)) && (origin == ContextOrigin::System
            ==> !caused_by(found, EventActor::System)),
{
    let x = draft_recording(draft, high_water);
    lemma_not_attested(x, found);
    lemma_reference_refusal("source_event_ids"@, draft.node.source_event_ids, None, e);
    lemma_reference_refusal("supersedes"@, draft.node.supersedes, Some(draft.node.id), e);
    if exists|i: int| #[trigger] reports_target(e, index, draft, i) {
        let i = choose|i: int| #[trigger] reports_target(e, index, draft, i);
        assert(draft.node.supersedes.contains(draft.node.supersedes[i]));
    }
}

} // verus!
