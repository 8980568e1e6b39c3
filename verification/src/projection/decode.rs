//! Decoding a recorded node from its event.

use vstd::prelude::*;

use crate::context::node::ContextNode;
use crate::events::json::{member, Json};
use crate::events::record::{text_is, EventActor, EventRecord};
use crate::projection::budget::{
    attempted_sum, DeltaVerificationBudget, MAX_NORMAL_DELTA_CONTEXT_BYTES,
    MAX_NORMAL_DELTA_VERIFICATION_WORK,
};
use crate::projection::durable::{
    bounded_bytes, durable, durable_outcome, scope_fault, scope_outcome, too_long,
    validate_durable_node, validate_requested_scope, MAX_SERIALIZED_CONTEXT_PAYLOAD_BYTES,
};
use crate::projection::error::ContextProjectionError;
use crate::projection::sources::{
    resolve_outcome, resolve_sources, Recording, ResolvedNode,
};
use crate::text::{copy_optional_text, optional_text};

verus! {

/// Version of the durable context-node event payload.
pub const CONTEXT_NODE_EVENT_VERSION: u16 = 1;

/// The kind of the event that records a context node.
pub const CONTEXT_NODE_RECORDED: &'static str = "context.node.recorded";

/// A node that was recorded in keeping with every durable rule.
#[derive(Debug)]
pub struct ValidatedRecordedNode {
    pub node: ContextNode,
    pub session_id: String,
    pub task_id: Option<String>,
    pub resolved: ResolvedNode,
}

/// Charging the payload is within the budget.
pub open spec fn payload_allowed(budget: Option<DeltaVerificationBudget>, bytes: usize) -> bool {
    match budget {
        Some(b) => attempted_sum(b.work.context_payload_bytes, bytes as u64)
            <= MAX_NORMAL_DELTA_CONTEXT_BYTES && attempted_sum(b.work.verification_work, 1)
            <= MAX_NORMAL_DELTA_VERIFICATION_WORK,
        None => true,
    }
}

/// The budget once the payload is charged.
pub open spec fn after_payload(budget: Option<DeltaVerificationBudget>, bytes: usize) -> Option<
    DeltaVerificationBudget,
> {
    match budget {
        Some(b) => Some(b.loaded(bytes as u64).worked(1)),
        None => None,
    }
}

/// The payload's version.
pub open spec fn payload_version(payload: Json) -> Option<u64> {
    match member(payload, "event_version"@) {
        Some(Json::Unsigned(n)) => Some(n),
        _ => None,
    }
}

/// What an event's scope correlates to: its task, or else its session.
pub open spec fn correlation_of(session_id: Seq<char>, task_id: Option<Seq<char>>) -> Seq<char> {
    match task_id {
        Some(t) => t,
        None => session_id,
    }
}

/// The error reports a malformed payload.
pub open spec fn malformed(e: ContextProjectionError, seq: i64, reason: Seq<char>) -> bool {
    &&& e is MalformedPayload
    &&& e->MalformedPayload_seq == seq
    &&& e->MalformedPayload_reason@ == reason
}

/// What the envelope alone refuses, in order: the actor, the span, the size.
pub open spec fn envelope_accepted(event: EventRecord) -> bool {
    &&& event.actor == EventActor::System
    &&& event.span_id is None
    &&& event.payload_bytes <= MAX_SERIALIZED_CONTEXT_PAYLOAD_BYTES
}

/// The refusal of an envelope.
pub open spec fn envelope_refusal(event: EventRecord, e: ContextProjectionError) -> bool {
    if event.actor != EventActor::System {
        e == ContextProjectionError::InvalidActor { seq: event.seq, found: event.actor }
    } else if event.span_id is Some {
        e == ContextProjectionError::UnexpectedSpan { seq: event.seq }
    } else {
        too_long(
            e,
            "serialized context payload"@,
            event.payload_bytes as nat,
            MAX_SERIALIZED_CONTEXT_PAYLOAD_BYTES,
        )
    }
}

/// The payload names the version and holds a node in a scope that fits the
/// event.
pub open spec fn content_accepted(
    event: EventRecord,
    parsed: Result<ContextNode, String>,
) -> bool {
    &&& payload_version(event.payload) == Some(CONTEXT_NODE_EVENT_VERSION as u64)
    &&& parsed is Ok
    &&& event.session_id is Some
    &&& scope_fault(
        event.session_id->0@,
        optional_text(event.task_id),
        parsed->Ok_0.scope,
    ) is None
    &&& optional_text(event.correlation_id) == Some(
        correlation_of(event.session_id->0@, optional_text(event.task_id)),
    )
    &&& durable(parsed->Ok_0@)
}

/// The refusal of a payload's content: the version, the node, the session, the
/// scope, the correlation and the durable rules decide, in that order.
pub open spec fn content_refusal(
    event: EventRecord,
    parsed: Result<ContextNode, String>,
    e: ContextProjectionError,
) -> bool {
    match payload_version(event.payload) {
        None => malformed(
            e,
            event.seq,
            "event_version is missing or is not an unsigned integer"@,
        ),
        Some(version) => if version != CONTEXT_NODE_EVENT_VERSION as u64 {
            e is UnsupportedEventVersion && e->UnsupportedEventVersion_seq == event.seq
                && e->UnsupportedEventVersion_found == version
        } else {
            match parsed {
                Err(reason) => malformed(e, event.seq, reason@),
                Ok(node) => if event.session_id is None {
                    e is InvalidScope && e->InvalidScope_seq == event.seq
                        && e->InvalidScope_reason@ == "session_id is missing"@
                } else if scope_fault(
                    event.session_id->0@,
                    optional_text(event.task_id),
                    node.scope,
                ) is Some {
                    scope_outcome(
                        event.seq,
                        event.session_id->0@,
                        optional_text(event.task_id),
                        node.scope,
                        Err(e),
                    )
                } else if optional_text(event.correlation_id) != Some(
                    correlation_of(event.session_id->0@, optional_text(event.task_id)),
                ) {
                    &&& e is CorrelationMismatch
                    &&& e->CorrelationMismatch_seq == event.seq
                    &&& e->CorrelationMismatch_expected@ == correlation_of(
                        event.session_id->0@,
                        optional_text(event.task_id),
                    )
                    &&& optional_text(e->CorrelationMismatch_actual) == optional_text(
                        event.correlation_id,
                    )
                } else {
                    durable_outcome(node@, Err(e))
                },
            }
        },
    }
}

/// The node of an accepted payload, where and when it is recorded.
pub open spec fn recording_of(event: EventRecord, node: ContextNode) -> Recording {
    Recording {
        node: node@,
        session_id: event.session_id->0@,
        task_id: optional_text(event.task_id),
        seq: event.seq,
    }
}

/// The result of decoding a recorded node. The envelope decides first, then the
/// payload's charge, its content, its sources and its causation.
pub open spec fn decode_outcome(
    event: EventRecord,
    parsed: Result<ContextNode, String>,
    found: Seq<Option<EventRecord>>,
    budget: Option<DeltaVerificationBudget>,
    budget_left: Option<DeltaVerificationBudget>,
    r: Result<ValidatedRecordedNode, ContextProjectionError>,
) -> bool {
    let charged = after_payload(budget, event.payload_bytes);
    if !envelope_accepted(event) {
        r is Err && envelope_refusal(event, r->Err_0) && budget_left == budget
    } else if !payload_allowed(budget, event.payload_bytes) {
        &&& r is Err
        &&& budget_left is Some
        &&& budget->0.payload_outcome(event.payload_bytes, budget_left->0, Err(r->Err_0))
    } else if !content_accepted(event, parsed) {
        r is Err && content_refusal(event, parsed, r->Err_0) && budget_left == charged
    } else {
        let x = recording_of(event, parsed->Ok_0);
        match r {
            Ok(v) => {
                &&& resolve_outcome(x, found, charged, budget_left, Ok(v.resolved))
                &&& optional_text(event.causation_id) == Some(v.resolved.causation_id@)
                &&& v.node@ == parsed->Ok_0@
                &&& v.session_id@ == event.session_id->0@
                &&& optional_text(v.task_id) == optional_text(event.task_id)
            },
            Err(e) => {
                ||| resolve_outcome(x, found, charged, budget_left, Err(e))
                ||| exists|resolved: ResolvedNode|
                    {
                        &&& #[trigger] resolve_outcome(x, found, charged, budget_left, Ok(resolved))
                        &&& optional_text(event.causation_id) != Some(resolved.causation_id@)
                        &&& e is CausationMismatch
                        &&& e->CausationMismatch_seq == event.seq
                        &&& e->CausationMismatch_expected@ == resolved.causation_id@
                        &&& optional_text(e->CausationMismatch_actual) == optional_text(
                            event.causation_id,
                        )
                    }
            },
        }
    }
}

fn check_envelope(event: &EventRecord) -> (r: Result<(), ContextProjectionError>)
    ensures
        match r {
            Ok(_) => envelope_accepted(*event),
            Err(e) => !envelope_accepted(*event) && envelope_refusal(*event, e),
        },
{
    if event.actor != EventActor::System {
        return Err(
            ContextProjectionError::InvalidActor { seq: event.seq, found: event.actor },
        );
    }
    if event.span_id.is_some() {
        return Err(ContextProjectionError::UnexpectedSpan { seq: event.seq });
    }
    bounded_bytes(
        "serialized context payload",
        event.payload_bytes,
        MAX_SERIALIZED_CONTEXT_PAYLOAD_BYTES,
    )
}

fn charge_payload_if(budget: &mut Option<DeltaVerificationBudget>, bytes: usize) -> (r: Result<
    (),
    ContextProjectionError,
>)
    ensures
        match *old(budget) {
            None => r is Ok && *final(budget) is None,
            Some(b) => *final(budget) is Some && b.payload_outcome(bytes, final(budget)->0, r),
        },
{
    match *budget {
        None => Ok(()),
        Some(b) => {
            let mut next = b;
            let r = next.charge_context_payload(bytes);
            *budget = Some(next);
            r
        },
    }
}

/// Checks a payload's content, and hands out its node and the event's session.
fn check_content<'a>(event: &'a EventRecord, parsed: &'a Result<ContextNode, String>) -> (r: Result<
    (&'a ContextNode, &'a String),
    ContextProjectionError,
>)
    ensures
        match r {
            Ok((node, session_id)) => {
                &&& content_accepted(*event, *parsed)
                &&& *node == parsed->Ok_0
                &&& *session_id == event.session_id->0
            },
            Err(e) => !content_accepted(*event, *parsed) && content_refusal(*event, *parsed, e),
        },
{
    let version: u64 = match event.payload.get("event_version") {
        Some(Json::Unsigned(n)) => *n,
        _ => {
            return Err(
                ContextProjectionError::MalformedPayload {
                    seq: event.seq,
                    reason: "event_version is missing or is not an unsigned integer".to_owned(),
                },
            );
        },
    };
    if version != CONTEXT_NODE_EVENT_VERSION as u64 {
        return Err(
            ContextProjectionError::UnsupportedEventVersion { seq: event.seq, found: version },
        );
    }
    let node = match parsed {
        Ok(n) => n,
        Err(reason) => {
            return Err(
                ContextProjectionError::MalformedPayload {
                    seq: event.seq,
                    reason: reason.clone(),
                },
            );
        },
    };
    let session_id = match &event.session_id {
        Some(s) => s,
        None => {
            return Err(
                ContextProjectionError::InvalidScope {
                    seq: event.seq,
                    reason: "session_id is missing".to_owned(),
                },
            );
        },
    };
    match validate_requested_scope(event.seq, session_id, &event.task_id, node.scope) {
        Err(e) => {
            return Err(e);
        },
        Ok(()) => {},
    }
    let expected = match &event.task_id {
        Some(t) => t.clone(),
        None => session_id.clone(),
    };
    if !text_is(&event.correlation_id, &expected) {
        return Err(
            ContextProjectionError::CorrelationMismatch {
                seq: event.seq,
                expected,
                actual: copy_optional_text(&event.correlation_id),
            },
        );
    }
    match validate_durable_node(node) {
        Err(e) => Err(e),
        Ok(()) => Ok((node, session_id)),
    }
}

/// Decodes a recorded node. `parsed` is what reading the payload's node gave,
/// and `found` holds, for each source that the node cites, the event of that
/// identity where there is one.
pub fn decode_recorded_node(
    event: &EventRecord,
    parsed: &Result<ContextNode, String>,
    found: &Vec<Option<EventRecord>>,
    budget: &mut Option<DeltaVerificationBudget>,
) -> (r: Result<ValidatedRecordedNode, ContextProjectionError>)
    requires
        parsed matches Ok(node) ==> found@.len() == node.source_event_ids@.len(),
    ensures
        decode_outcome(*event, *parsed, found@, *old(budget), *final(budget), r),
        *final(budget) is Some == *old(budget) is Some,
{
    match check_envelope(event) {
        Err(e) => {
            return Err(e);
        },
        Ok(()) => {},
    }
    let ghost start = *budget;
    match charge_payload_if(budget, event.payload_bytes) {
        Err(e) => {
            return Err(e);
        },
        Ok(()) => {},
    }
    assert(payload_allowed(start, event.payload_bytes));
    assert(*budget == after_payload(start, event.payload_bytes));
    let (node, session_id) = match check_content(event, parsed) {
        Err(e) => {
            return Err(e);
        },
        Ok(content) => content,
    };
    let resolved = match resolve_sources(
        node,
        session_id,
        &event.task_id,
        event.seq,
        found,
        budget,
    ) {
        Ok(v) => v,
        Err(e) => {
            return Err(e);
        },
    };
    if !text_is(&event.causation_id, &resolved.causation_id) {
        let e = ContextProjectionError::CausationMismatch {
            seq: event.seq,
            expected: resolved.causation_id.clone(),
            actual: copy_optional_text(&event.causation_id),
        };
        assert(resolve_outcome(
            recording_of(*event, *node),
            found@,
            after_payload(start, event.payload_bytes),
            *budget,
            Ok(resolved),
        ));
        return Err(e);
    }
    Ok(
        ValidatedRecordedNode {
            node: node.clone(),
            session_id: session_id.clone(),
            task_id: copy_optional_text(&event.task_id),
            resolved,
        },
    )
}

/// A decoded node keeps every durable rule, was recorded by the system, and was
/// caused by its latest source.
pub proof fn decoded_nodes_are_durable(
    event: EventRecord,
    parsed: Result<ContextNode, String>,
    found: Seq<Option<EventRecord>>,
    budget: Option<DeltaVerificationBudget>,
    budget_left: Option<DeltaVerificationBudget>,
    v: ValidatedRecordedNode,
)
    requires
        decode_outcome(event, parsed, found, budget, budget_left, Ok(v)),
    ensures
        durable(v.node@),
        event.actor == EventActor::System,
        v.resolved.causation_seq < event.seq,
        optional_text(event.causation_id) == Some(v.resolved.causation_id@),
{
    crate::projection::sources::causation_is_the_latest_source(
        recording_of(event, parsed->Ok_0),
        found,
        after_payload(budget, event.payload_bytes),
        budget_left,
        v.resolved,
    );
}

} // verus!
