//! The durable rules of recorded context nodes.

use vstd::prelude::*;

use crate::context::node::{
    fault_text, ContextNode, ContextOrigin, ContextScope, EpistemicStatus, NodeModel,
};
use crate::context::ranking::{
    first_reference_fault, rankable, MAX_CONTEXT_NODE_ID_BYTES, MAX_CONTEXT_REFERENCE_ID_BYTES,
    MAX_CONTEXT_SOURCE_EVENT_IDS, MAX_CONTEXT_SUPERSEDES, MAX_SERIALIZED_CONTEXT_NODE_BYTES,
};
use crate::events::record::EventActor;
use crate::projection::error::ContextProjectionError;
use crate::text::{
    blank, byte_len, decimal, decimal_text, is_blank, joined, joined3, optional_text, same_text,
    texts, utf8_len,
};
use crate::time::Timestamp;

verus! {

/// Maximum UTF-8 byte length of a durable node summary.
pub const MAX_CONTEXT_SUMMARY_BYTES: usize = 65_000;

/// Maximum serialized JSON byte length of a version-1 node payload.
pub const MAX_SERIALIZED_CONTEXT_PAYLOAD_BYTES: usize = 131_072;

/// What can be wrong with a reference.
pub enum ReferenceFault {
    Empty,
    TooLong,
    Duplicate,
    OwnId,
}

/// What is wrong with reference `i` of a list.
pub open spec fn reference_fault(
    values: Seq<Seq<char>>,
    self_id: Option<Seq<char>>,
    i: int,
) -> Option<ReferenceFault> {
    if blank(values[i]) {
        Some(ReferenceFault::Empty)
    } else if utf8_len(values[i]) > MAX_CONTEXT_REFERENCE_ID_BYTES {
        Some(ReferenceFault::TooLong)
    } else if exists|j: int| 0 <= j < i && #[trigger] values[j] == values[i] {
        Some(ReferenceFault::Duplicate)
    } else if self_id == Some(values[i]) {
        Some(ReferenceFault::OwnId)
    } else {
        None
    }
}

/// Every reference of the list is well formed.
pub open spec fn references_valid(values: Seq<Seq<char>>, self_id: Option<Seq<char>>) -> bool {
    forall|i: int| 0 <= i < values.len() ==> #[trigger] reference_fault(values, self_id, i) is None
}

/// The error reports the fault of reference `i`.
pub open spec fn reports_reference(
    e: ContextProjectionError,
    field: Seq<char>,
    values: Seq<Seq<char>>,
    self_id: Option<Seq<char>>,
    i: int,
) -> bool {
    match reference_fault(values, self_id, i) {
        Some(ReferenceFault::Empty) => e is EmptyReference && e->EmptyReference_field@ == field
            && e->index == i,
        Some(ReferenceFault::TooLong) => too_long(
            e,
            field,
            utf8_len(values[i]),
            MAX_CONTEXT_REFERENCE_ID_BYTES,
        ),
        Some(ReferenceFault::Duplicate) => e is DuplicateReference
            && e->DuplicateReference_field@ == field && e->id@ == values[i],
        Some(ReferenceFault::OwnId) => e is SelfSupersession && e->SelfSupersession_node_id@
            == values[i],
        None => false,
    }
}

/// The error refuses too many bytes.
pub open spec fn too_long(
    e: ContextProjectionError,
    field: Seq<char>,
    actual: nat,
    maximum: usize,
) -> bool {
    &&& e is DurableBytesExceeded
    &&& e->DurableBytesExceeded_field@ == field
    &&& e->DurableBytesExceeded_actual == actual
    &&& e->DurableBytesExceeded_maximum == maximum
}

/// The error refuses a list of the wrong length.
pub open spec fn out_of_range(
    e: ContextProjectionError,
    field: Seq<char>,
    actual: nat,
    minimum: usize,
    maximum: usize,
) -> bool {
    &&& e is DurableListOutOfRange
    &&& e->DurableListOutOfRange_field@ == field
    &&& e->DurableListOutOfRange_actual == actual
    &&& e->minimum == minimum
    &&& e->DurableListOutOfRange_maximum == maximum
}

/// The error refuses an invalid node.
pub open spec fn invalid_node(e: ContextProjectionError, id: Seq<char>, reason: Seq<char>) -> bool {
    &&& e is InvalidNode
    &&& e->InvalidNode_node_id@ == id
    &&& e->InvalidNode_reason@ == reason
}

/// Refuses too many bytes.
pub fn bounded_bytes(field: &'static str, actual: usize, maximum: usize) -> (r: Result<
    (),
    ContextProjectionError,
>)
    ensures
        actual <= maximum ==> r is Ok,
        actual > maximum ==> r is Err && too_long(r->Err_0, field@, actual as nat, maximum),
{
    if actual > maximum {
        Err(ContextProjectionError::DurableBytesExceeded { field, actual, maximum })
    } else {
        Ok(())
    }
}

/// Refuses a list of the wrong length.
pub fn bounded_list(field: &'static str, actual: usize, minimum: usize, maximum: usize) -> (r:
    Result<(), ContextProjectionError>)
    ensures
        minimum <= actual <= maximum ==> r is Ok,
        !(minimum <= actual <= maximum) ==> r is Err && out_of_range(
            r->Err_0,
            field@,
            actual as nat,
            minimum,
            maximum,
        ),
{
    if actual < minimum || actual > maximum {
        Err(ContextProjectionError::DurableListOutOfRange { field, actual, minimum, maximum })
    } else {
        Ok(())
    }
}

/// The result of checking a list of references: the first fault decides.
pub open spec fn references_outcome(
    field: Seq<char>,
    values: Seq<Seq<char>>,
    self_id: Option<Seq<char>>,
    r: Result<(), ContextProjectionError>,
) -> bool {
    match r {
        Ok(_) => references_valid(values, self_id),
        Err(e) => exists|i: int|
            {
                &&& 0 <= i < values.len()
                &&& forall|j: int|
                    0 <= j < i ==> #[trigger] reference_fault(values, self_id, j) is None
                &&& #[trigger] reports_reference(e, field, values, self_id, i)
            },
    }
}

/// Checks a list of references.
pub fn validate_references(
    field: &'static str,
    values: &Vec<String>,
    self_id: &Option<String>,
) -> (r: Result<(), ContextProjectionError>)
    ensures
        references_outcome(field@, texts(values@), optional_text(*self_id), r),
{
    let ghost vs = texts(values@);
    let ghost me = optional_text(*self_id);
    let mut i: usize = 0;
    while i < values.len()
        invariant
            vs == texts(values@),
            me == optional_text(*self_id),
            0 <= i <= values@.len(),
            forall|j: int| 0 <= j < i ==> #[trigger] reference_fault(vs, me, j) is None,
        decreases values.len() - i,
    {
        let value = &values[i];
        assert(vs[i as int] == value@);
        if is_blank(value) {
            let e = ContextProjectionError::EmptyReference { field, index: i };
            assert(reports_reference(e, field@, vs, me, i as int));
            return Err(e);
        }
        match bounded_bytes(field, byte_len(value), MAX_CONTEXT_REFERENCE_ID_BYTES) {
            Err(e) => {
                assert(reports_reference(e, field@, vs, me, i as int));
                return Err(e);
            },
            Ok(()) => {},
        }
        let mut j: usize = 0;
        while j < i
            invariant
                vs == texts(values@),
                me == optional_text(*self_id),
                0 <= j <= i < values@.len(),
                vs[i as int] == value@,
                !blank(value@),
                utf8_len(value@) <= MAX_CONTEXT_REFERENCE_ID_BYTES,
                forall|k: int| 0 <= k < i ==> #[trigger] reference_fault(vs, me, k) is None,
                forall|k: int| 0 <= k < j ==> #[trigger] vs[k] != value@,
            decreases i - j,
        {
            if same_text(&values[j], value) {
                assert(vs[j as int] == vs[i as int]);
                let e = ContextProjectionError::DuplicateReference { field, id: value.clone() };
                assert(reports_reference(e, field@, vs, me, i as int));
                return Err(e);
            }
            j += 1;
        }
        let own = match self_id {
            Some(id) => same_text(id, value),
            None => false,
        };
        if own {
            let e = ContextProjectionError::SelfSupersession { node_id: value.clone() };
            assert(reports_reference(e, field@, vs, me, i as int));
            return Err(e);
        }
        i += 1;
    }
    Ok(())
}

/// The identity is bounded and not blank.
pub open spec fn identity_shaped(n: NodeModel) -> bool {
    utf8_len(n.id) <= MAX_CONTEXT_NODE_ID_BYTES && !blank(n.id)
}

/// The result of checking an identity.
pub open spec fn identity_outcome(n: NodeModel, r: Result<(), ContextProjectionError>) -> bool {
    if utf8_len(n.id) > MAX_CONTEXT_NODE_ID_BYTES {
        r is Err && too_long(
            r->Err_0,
            "context node id"@,
            utf8_len(n.id),
            MAX_CONTEXT_NODE_ID_BYTES,
        )
    } else if blank(n.id) {
        r is Err && invalid_node(r->Err_0, n.id, "context id is empty"@)
    } else {
        r is Ok
    }
}

/// Checks that an identity is bounded and not blank.
pub fn validate_node_identity_shape(node: &ContextNode) -> (r: Result<(), ContextProjectionError>)
    ensures
        identity_outcome(node@, r),
{
    match bounded_bytes("context node id", byte_len(&node.id), MAX_CONTEXT_NODE_ID_BYTES) {
        Err(e) => {
            return Err(e);
        },
        Ok(()) => {},
    }
    if is_blank(&node.id) {
        return Err(
            ContextProjectionError::InvalidNode {
                node_id: node.id.clone(),
                reason: "context id is empty".to_owned(),
            },
        );
    }
    Ok(())
}

/// The node keeps every durable rule.
pub open spec fn durable(n: NodeModel) -> bool {
    &&& identity_shaped(n)
    &&& utf8_len(n.summary) <= MAX_CONTEXT_SUMMARY_BYTES
    &&& 1 <= n.source_event_ids.len() <= MAX_CONTEXT_SOURCE_EVENT_IDS
    &&& n.supersedes.len() <= MAX_CONTEXT_SUPERSEDES
    &&& references_valid(n.source_event_ids, None)
    &&& references_valid(n.supersedes, Some(n.id))
    &&& n.valid()
    &&& n.encoding.node_bytes matches Some(b) && b <= MAX_SERIALIZED_CONTEXT_NODE_BYTES
    &&& n.encoding.payload_bytes matches Some(b) && b <= MAX_SERIALIZED_CONTEXT_PAYLOAD_BYTES
}

/// The result of checking the durable rules: the first broken one decides.
pub open spec fn durable_outcome(n: NodeModel, r: Result<(), ContextProjectionError>) -> bool {
    if !identity_shaped(n) {
        identity_outcome(n, r)
    } else if utf8_len(n.summary) > MAX_CONTEXT_SUMMARY_BYTES {
        r is Err && too_long(
            r->Err_0,
            "context node summary"@,
            utf8_len(n.summary),
            MAX_CONTEXT_SUMMARY_BYTES,
        )
    } else if !(1 <= n.source_event_ids.len() <= MAX_CONTEXT_SOURCE_EVENT_IDS) {
        r is Err && out_of_range(
            r->Err_0,
            "source_event_ids"@,
            n.source_event_ids.len(),
            1,
            MAX_CONTEXT_SOURCE_EVENT_IDS,
        )
    } else if n.supersedes.len() > MAX_CONTEXT_SUPERSEDES {
        r is Err && out_of_range(
            r->Err_0,
            "supersedes"@,
            n.supersedes.len(),
            0,
            MAX_CONTEXT_SUPERSEDES,
        )
    } else if !references_valid(n.source_event_ids, None) {
        r is Err && references_outcome("source_event_ids"@, n.source_event_ids, None, r)
    } else if !references_valid(n.supersedes, Some(n.id)) {
        r is Err && references_outcome("supersedes"@, n.supersedes, Some(n.id), r)
    } else if !n.valid() {
        r is Err && invalid_node(r->Err_0, n.id, fault_text(n.fault()->0, n))
    } else if n.encoding.node_bytes is None {
        r is Err && invalid_node(r->Err_0, n.id, n.encoding.failure)
    } else if n.encoding.node_bytes->0 > MAX_SERIALIZED_CONTEXT_NODE_BYTES {
        r is Err && too_long(
            r->Err_0,
            "serialized context node"@,
            n.encoding.node_bytes->0 as nat,
            MAX_SERIALIZED_CONTEXT_NODE_BYTES,
        )
    } else if n.encoding.payload_bytes is None {
        r is Err && invalid_node(r->Err_0, n.id, n.encoding.failure)
    } else if n.encoding.payload_bytes->0 > MAX_SERIALIZED_CONTEXT_PAYLOAD_BYTES {
        r is Err && too_long(
            r->Err_0,
            "serialized context payload"@,
            n.encoding.payload_bytes->0 as nat,
            MAX_SERIALIZED_CONTEXT_PAYLOAD_BYTES,
        )
    } else {
        r is Ok
    }
}

/// Checks the durable rules of a node.
pub fn validate_durable_node(node: &ContextNode) -> (r: Result<(), ContextProjectionError>)
    ensures
        durable_outcome(node@, r),
        r is Ok == durable(node@),
{
    match validate_node_identity_shape(node) {
        Err(e) => {
            return Err(e);
        },
        Ok(()) => {},
    }
    match bounded_bytes(
        "context node summary",
        byte_len(&node.summary),
        MAX_CONTEXT_SUMMARY_BYTES,
    ) {
        Err(e) => {
            return Err(e);
        },
        Ok(()) => {},
    }
    match bounded_list(
        "source_event_ids",
        node.source_event_ids.len(),
        1,
        MAX_CONTEXT_SOURCE_EVENT_IDS,
    ) {
        Err(e) => {
            return Err(e);
        },
        Ok(()) => {},
    }
    match bounded_list("supersedes", node.supersedes.len(), 0, MAX_CONTEXT_SUPERSEDES) {
        Err(e) => {
            return Err(e);
        },
        Ok(()) => {},
    }
    let sources = validate_references("source_event_ids", &node.source_event_ids, &None);
    if sources.is_err() {
        proof {
            lemma_references_refused("source_event_ids"@, node@.source_event_ids, None, sources);
        }
        return sources;
    }
    let superseded = validate_references("supersedes", &node.supersedes, &Some(node.id.clone()));
    if superseded.is_err() {
        proof {
            lemma_references_refused("supersedes"@, node@.supersedes, Some(node@.id), superseded);
        }
        return superseded;
    }
    if let Some(reason) = node.invalid_reason() {
        return Err(ContextProjectionError::InvalidNode { node_id: node.id.clone(), reason });
    }
    match node.encoding.node_bytes {
        None => {
            return Err(
                ContextProjectionError::InvalidNode {
                    node_id: node.id.clone(),
                    reason: node.encoding.failure.clone(),
                },
            );
        },
        Some(bytes) => match bounded_bytes(
            "serialized context node",
            bytes,
            MAX_SERIALIZED_CONTEXT_NODE_BYTES,
        ) {
            Err(e) => {
                return Err(e);
            },
            Ok(()) => {},
        },
    }
    match node.encoding.payload_bytes {
        None => {
            return Err(
                ContextProjectionError::InvalidNode {
                    node_id: node.id.clone(),
                    reason: node.encoding.failure.clone(),
                },
            );
        },
        Some(bytes) => bounded_bytes(
            "serialized context payload",
            bytes,
            MAX_SERIALIZED_CONTEXT_PAYLOAD_BYTES,
        ),
    }
}

proof fn lemma_references_refused(
    field: Seq<char>,
    values: Seq<Seq<char>>,
    self_id: Option<Seq<char>>,
    r: Result<(), ContextProjectionError>,
)
    requires
        references_outcome(field, values, self_id, r),
        r is Err,
    ensures
        !references_valid(values, self_id),
{
    let i = choose|i: int|
        {
            &&& 0 <= i < values.len()
            &&& #[trigger] reports_reference(r->Err_0, field, values, self_id, i)
        };
    assert(reference_fault(values, self_id, i) is Some);
}

/// A durable rule's refusal, in words.
pub open spec fn durable_message(e: ContextProjectionError) -> Seq<char> {
    match e {
        ContextProjectionError::InvalidNode { node_id, reason } => "context node "@ + node_id@
            + " is invalid: "@ + reason@,
        ContextProjectionError::DurableBytesExceeded { field, actual, maximum } => field@ + " is "@
            + decimal_text(actual as nat) + " bytes, exceeding the "@ + decimal_text(
            maximum as nat,
        ) + "-byte durable limit"@,
        ContextProjectionError::DurableListOutOfRange { field, actual, minimum, maximum } => field@
            + " has "@ + decimal_text(actual as nat) + " entries, outside the durable range "@
            + decimal_text(minimum as nat) + "..="@ + decimal_text(maximum as nat),
        ContextProjectionError::EmptyReference { field, index } => field@
            + " contains an empty identifier at index "@ + decimal_text(index as nat),
        ContextProjectionError::DuplicateReference { field, id } => field@
            + " contains duplicate identifier "@ + id@,
        ContextProjectionError::SelfSupersession { node_id } => "context node "@ + node_id@
            + " cannot supersede itself"@,
        _ => Seq::empty(),
    }
}

/// The error is a durable rule's refusal.
pub open spec fn is_durable_refusal(e: ContextProjectionError) -> bool {
    e is InvalidNode || e is DurableBytesExceeded || e is DurableListOutOfRange
        || e is EmptyReference || e is DuplicateReference || e is SelfSupersession
}

/// A durable rule's refusal, in words.
pub fn durable_refusal_text(e: &ContextProjectionError) -> (s: String)
    requires
        is_durable_refusal(*e),
    ensures
        s@ == durable_message(*e),
{
    match e {
        ContextProjectionError::InvalidNode { node_id, reason } => {
            let mut s = joined3("context node ", node_id, " is invalid: ");
            s.append(reason);
            s
        },
        ContextProjectionError::DurableBytesExceeded { field, actual, maximum } => {
            let mut s = joined(*field, " is ");
            s.append(&decimal(*actual as u64));
            s.append(" bytes, exceeding the ");
            s.append(&decimal(*maximum as u64));
            s.append("-byte durable limit");
            s
        },
        ContextProjectionError::DurableListOutOfRange { field, actual, minimum, maximum } => {
            let mut s = joined(*field, " has ");
            s.append(&decimal(*actual as u64));
            s.append(" entries, outside the durable range ");
            s.append(&decimal(*minimum as u64));
            s.append("..=");
            s.append(&decimal(*maximum as u64));
            s
        },
        ContextProjectionError::EmptyReference { field, index } => {
            joined3(
                *field,
                " contains an empty identifier at index ",
                &decimal(*index as u64),
            )
        },
        ContextProjectionError::DuplicateReference { field, id } => {
            joined3(*field, " contains duplicate identifier ", id)
        },
        ContextProjectionError::SelfSupersession { node_id } => {
            joined3("context node ", node_id, " cannot supersede itself")
        },
        _ => String::new(),
    }
}

/// Every refusal of a durable rule has words.
pub proof fn durable_refusals_have_words(n: NodeModel, r: Result<(), ContextProjectionError>)
    requires
        durable_outcome(n, r),
        r is Err,
    ensures
        is_durable_refusal(r->Err_0),
{
}

/// A durable node does not supersede itself and has a source.
pub proof fn durable_nodes_do_not_supersede_themselves(n: NodeModel)
    requires
        durable(n),
    ensures
        n.source_event_ids.len() > 0,
        !n.supersedes.contains(n.id),
{
    assert forall|i: int| 0 <= i < n.supersedes.len() implies n.supersedes[i] != n.id by {
        assert(reference_fault(n.supersedes, Some(n.id), i) is None);
    }
}

proof fn lemma_no_reference_fault(
    id: Seq<char>,
    field: Seq<char>,
    values: Seq<Seq<char>>,
    reject_self: bool,
    from: int,
)
    requires
        references_valid(
            values,
            if reject_self {
                Some(id)
            } else {
                None
            },
        ),
        0 <= from <= values.len(),
    ensures
        first_reference_fault(id, field, values, reject_self, from) is None,
    decreases values.len() - from,
{
    if from < values.len() {
        let self_id = if reject_self {
            Some(id)
        } else {
            None
        };
        assert(reference_fault(values, self_id, from) is None);
        lemma_no_reference_fault(id, field, values, reject_self, from + 1);
    }
}

/// Ranking accepts every durable node: it rechecks no rule that admission does
/// not.
pub proof fn durable_nodes_are_rankable(n: NodeModel)
    requires
        durable(n),
    ensures
        rankable(n),
{
    lemma_no_reference_fault(n.id, "source_event_ids"@, n.source_event_ids, false, 0);
    lemma_no_reference_fault(n.id, "supersedes"@, n.supersedes, true, 0);
}

/// The result of checking the precision of a new node's window.
pub open spec fn precision_outcome(n: NodeModel, r: Result<(), ContextProjectionError>) -> bool {
    if n.valid_from matches Some(t) && !t.whole_millis() {
        imprecise(r, n.id, "valid_from"@)
    } else if n.valid_until matches Some(t) && !t.whole_millis() {
        imprecise(r, n.id, "valid_until"@)
    } else {
        r is Ok
    }
}

/// The result refuses an imprecise time.
pub open spec fn imprecise(
    r: Result<(), ContextProjectionError>,
    id: Seq<char>,
    field: Seq<char>,
) -> bool {
    &&& r is Err
    &&& r->Err_0 is NonCanonicalValidityPrecision
    &&& r->Err_0->NonCanonicalValidityPrecision_node_id@ == id
    &&& r->Err_0->NonCanonicalValidityPrecision_field@ == field
}

/// Checks that a new node's window has whole milliseconds.
pub fn validate_new_validity_precision(node: &ContextNode) -> (r: Result<
    (),
    ContextProjectionError,
>)
    ensures
        precision_outcome(node@, r),
{
    if let Some(t) = node.valid_from {
        if !t.has_whole_millis() {
            return Err(
                ContextProjectionError::NonCanonicalValidityPrecision {
                    node_id: node.id.clone(),
                    field: "valid_from",
                },
            );
        }
    }
    if let Some(t) = node.valid_until {
        if !t.has_whole_millis() {
            return Err(
                ContextProjectionError::NonCanonicalValidityPrecision {
                    node_id: node.id.clone(),
                    field: "valid_until",
                },
            );
        }
    }
    Ok(())
}

/// The name of a scope as it is written in messages.
pub open spec fn scope_name(scope: ContextScope) -> Seq<char> {
    match scope {
        ContextScope::Turn => "Turn"@,
        ContextScope::Session => "Session"@,
        ContextScope::Task => "Task"@,
        ContextScope::Project => "Project"@,
        ContextScope::Device => "Device"@,
        ContextScope::Global => "Global"@,
    }
}

fn scope_text(scope: ContextScope) -> (s: &'static str)
    ensures
        s@ == scope_name(scope),
{
    match scope {
        ContextScope::Turn => "Turn",
        ContextScope::Session => "Session",
        ContextScope::Task => "Task",
        ContextScope::Project => "Project",
        ContextScope::Device => "Device",
        ContextScope::Global => "Global",
    }
}

/// Why a scope is refused, if it is.
pub open spec fn scope_fault(
    session_id: Seq<char>,
    task_id: Option<Seq<char>>,
    scope: ContextScope,
) -> Option<Seq<char>> {
    if blank(session_id) {
        Some("session_id is empty"@)
    } else if task_id matches Some(t) && blank(t) {
        Some("task_id is empty"@)
    } else if scope == ContextScope::Session {
        if task_id is None {
            None
        } else {
            Some("session-scoped node has a task_id"@)
        }
    } else if scope == ContextScope::Task {
        if task_id is Some {
            None
        } else {
            Some("task-scoped node has no task_id"@)
        }
    } else {
        Some("unsupported durable node scope "@ + scope_name(scope))
    }
}

/// The result of checking a scope.
pub open spec fn scope_outcome(
    seq: i64,
    session_id: Seq<char>,
    task_id: Option<Seq<char>>,
    scope: ContextScope,
    r: Result<(), ContextProjectionError>,
) -> bool {
    match scope_fault(session_id, task_id, scope) {
        None => r is Ok,
        Some(reason) => {
            &&& r is Err
            &&& r->Err_0 is InvalidScope
            &&& r->Err_0->InvalidScope_seq == seq
            &&& r->Err_0->InvalidScope_reason@ == reason
        },
    }
}

/// Checks that a node's scope fits its session and task.
pub fn validate_requested_scope(
    seq: i64,
    session_id: &str,
    task_id: &Option<String>,
    scope: ContextScope,
) -> (r: Result<(), ContextProjectionError>)
    ensures
        scope_outcome(seq, session_id@, optional_text(*task_id), scope, r),
{
    if is_blank(session_id) {
        return Err(
            ContextProjectionError::InvalidScope { seq, reason: "session_id is empty".to_owned() },
        );
    }
    if let Some(task) = task_id {
        if is_blank(task) {
            return Err(
                ContextProjectionError::InvalidScope { seq, reason: "task_id is empty".to_owned() },
            );
        }
    }
    if scope == ContextScope::Session {
        if task_id.is_none() {
            return Ok(());
        }
        return Err(
            ContextProjectionError::InvalidScope {
                seq,
                reason: "session-scoped node has a task_id".to_owned(),
            },
        );
    }
    if scope == ContextScope::Task {
        if task_id.is_some() {
            return Ok(());
        }
        return Err(
            ContextProjectionError::InvalidScope {
                seq,
                reason: "task-scoped node has no task_id".to_owned(),
            },
        );
    }
    Err(
        ContextProjectionError::InvalidScope {
            seq,
            reason: joined("unsupported durable node scope ", scope_text(scope)),
        },
    )
}

/// The stored name of a status.
pub open spec fn status_name(status: EpistemicStatus) -> Seq<char> {
    match status {
        EpistemicStatus::Asserted => "asserted"@,
        EpistemicStatus::Inferred => "inferred"@,
        EpistemicStatus::Verified => "verified"@,
        EpistemicStatus::Disputed => "disputed"@,
    }
}

/// The stored name of a status.
pub fn epistemic_status(status: EpistemicStatus) -> (s: &'static str)
    ensures
        s@ == status_name(status),
{
    match status {
        EpistemicStatus::Asserted => "asserted",
        EpistemicStatus::Inferred => "inferred",
        EpistemicStatus::Verified => "verified",
        EpistemicStatus::Disputed => "disputed",
    }
}

/// The actor that attests an origin.
pub open spec fn attesting_actor(origin: ContextOrigin) -> EventActor {
    match origin {
        ContextOrigin::User => EventActor::User,
        ContextOrigin::Model => EventActor::Model,
        ContextOrigin::Capability => EventActor::Capability,
        ContextOrigin::Policy => EventActor::Policy,
        ContextOrigin::System => EventActor::System,
    }
}

/// The actor that attests an origin.
pub fn origin_actor(origin: ContextOrigin) -> (a: EventActor)
    ensures
        a == attesting_actor(origin),
{
    match origin {
        ContextOrigin::User => EventActor::User,
        ContextOrigin::Model => EventActor::Model,
        ContextOrigin::Capability => EventActor::Capability,
        ContextOrigin::Policy => EventActor::Policy,
        ContextOrigin::System => EventActor::System,
    }
}

/// Milliseconds since the epoch, and the nanoseconds beyond them.
pub open spec fn timestamp_parts(t: Timestamp) -> (int, int) {
    (t.millis_spec(), t.nanos as int % 1_000_000)
}

/// Milliseconds since the epoch, and the nanoseconds beyond them.
pub fn projection_timestamp_parts(t: &Timestamp) -> (r: (i64, i64))
    requires
        t.representable(),
    ensures
        r.0 == timestamp_parts(*t).0,
        r.1 == timestamp_parts(*t).1,
{
    (t.millis(), (t.nanos % 1_000_000) as i64)
}

/// The stored columns order times as the times themselves are ordered: one time
/// is earlier than another exactly when its milliseconds are fewer, or as many
/// with fewer nanoseconds beyond them.
pub proof fn timestamp_parts_keep_order(a: Timestamp, b: Timestamp)
    requires
        a.nanos < 1_000_000_000,
        b.nanos < 1_000_000_000,
    ensures
        a.earlier(b) <==> timestamp_parts(a).0 < timestamp_parts(b).0 || (timestamp_parts(a).0
            == timestamp_parts(b).0 && timestamp_parts(a).1 < timestamp_parts(b).1),
{
}

/// Each status is stored under a name of its own.
pub proof fn statuses_have_names_of_their_own(a: EpistemicStatus, b: EpistemicStatus)
    ensures
        status_name(a) == status_name(b) ==> a == b,
        a == EpistemicStatus::Asserted <==> status_name(a) == "asserted"@,
        a == EpistemicStatus::Inferred <==> status_name(a) == "inferred"@,
        a == EpistemicStatus::Verified <==> status_name(a) == "verified"@,
        a == EpistemicStatus::Disputed <==> status_name(a) == "disputed"@,
{
    reveal_strlit("asserted");
    reveal_strlit("inferred");
    reveal_strlit("verified");
    reveal_strlit("disputed");
    assert("asserted"@[0] == 'a');
    assert("inferred"@[0] == 'i');
    assert("verified"@[0] == 'v');
    assert("disputed"@[0] == 'd');
}

} // verus!
