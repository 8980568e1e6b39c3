//! Context nodes, their validity and their retrieval documents.

use vstd::prelude::*;
use vstd::utf8::*;

use crate::binary32::Binary32;
use crate::retrieval::{RetrievalError, MAX_RETRIEVAL_DOCUMENT_BYTES};
use crate::text::{
    blank, byte_len, copy_texts, has_provenance, is_blank, joined3, lemma_utf8_len_concat,
    names_sources, same_text, same_texts, texts, utf8_len,
};
use crate::time::Timestamp;

verus! {

#[derive(Debug, Clone, Copy, PartialEq, Eq, Structural, Hash)]
pub enum ContextNodeKind {
    Goal,
    Constraint,
    Entity,
    Resource,
    Claim,
    Preference,
    Decision,
    Assumption,
    OpenQuestion,
    Action,
    Evidence,
    Risk,
    Capability,
}

impl ContextNodeKind {
    /// The wire token of the kind.
    pub open spec fn token(self) -> Seq<char> {
        match self {
            ContextNodeKind::Goal => "goal"@,
            ContextNodeKind::Constraint => "constraint"@,
            ContextNodeKind::Entity => "entity"@,
            ContextNodeKind::Resource => "resource"@,
            ContextNodeKind::Claim => "claim"@,
            ContextNodeKind::Preference => "preference"@,
            ContextNodeKind::Decision => "decision"@,
            ContextNodeKind::Assumption => "assumption"@,
            ContextNodeKind::OpenQuestion => "open_question"@,
            ContextNodeKind::Action => "action"@,
            ContextNodeKind::Evidence => "evidence"@,
            ContextNodeKind::Risk => "risk"@,
            ContextNodeKind::Capability => "capability"@,
        }
    }

    /// The closed version-1 wire token used by retrieval documents.
    pub fn as_str(self) -> (s: &'static str)
        ensures
            s@ == self.token(),
    {
        match self {
            ContextNodeKind::Goal => "goal",
            ContextNodeKind::Constraint => "constraint",
            ContextNodeKind::Entity => "entity",
            ContextNodeKind::Resource => "resource",
            ContextNodeKind::Claim => "claim",
            ContextNodeKind::Preference => "preference",
            ContextNodeKind::Decision => "decision",
            ContextNodeKind::Assumption => "assumption",
            ContextNodeKind::OpenQuestion => "open_question",
            ContextNodeKind::Action => "action",
            ContextNodeKind::Evidence => "evidence",
            ContextNodeKind::Risk => "risk",
            ContextNodeKind::Capability => "capability",
        }
    }
}

#[derive(Debug, Clone, Copy, PartialEq, Eq, Structural, Hash)]
pub enum ContextOrigin {
    User,
    Model,
    Capability,
    Policy,
    System,
}

#[derive(Debug, Clone, Copy, PartialEq, Eq, Structural, Hash)]
pub enum EpistemicStatus {
    Asserted,
    Inferred,
    Verified,
    Disputed,
}

#[derive(Debug, Clone, Copy, PartialEq, Eq, Structural, Hash)]
pub enum ContextScope {
    Turn,
    Session,
    Task,
    Project,
    Device,
    Global,
}

#[derive(Debug, Clone, Copy, PartialEq, Eq, Structural, Hash)]
pub enum ContextLens {
    Personal,
    Task,
    Environment,
    Conversation,
}

impl Default for ContextLens {
    fn default() -> (r: ContextLens)
        ensures
            r == ContextLens::Task,
    {
        ContextLens::Task
    }
}

/// What encoding a node gave: the decimal text of its confidence and the number
/// of bytes of its JSON forms, alone, inside a recorded payload and as a capsule
/// item. A form is `None` where the node cannot be written, and `failure` then
/// says why.
#[derive(Debug)]
pub struct NodeEncoding {
    pub confidence_text: String,
    pub node_bytes: Option<usize>,
    pub payload_bytes: Option<usize>,
    pub capsule_bytes: Option<usize>,
    pub failure: String,
}

/// The model of a node's encoding.
pub struct EncodingModel {
    pub confidence_text: Seq<char>,
    pub node_bytes: Option<usize>,
    pub payload_bytes: Option<usize>,
    pub capsule_bytes: Option<usize>,
    pub failure: Seq<char>,
}

impl View for NodeEncoding {
    type V = EncodingModel;

    open spec fn view(&self) -> EncodingModel {
        EncodingModel {
            confidence_text: self.confidence_text@,
            node_bytes: self.node_bytes,
            payload_bytes: self.payload_bytes,
            capsule_bytes: self.capsule_bytes,
            failure: self.failure@,
        }
    }
}

impl Clone for NodeEncoding {
    fn clone(&self) -> (r: NodeEncoding)
        ensures
            r@ == self@,
    {
        NodeEncoding {
            confidence_text: self.confidence_text.clone(),
            node_bytes: self.node_bytes,
            payload_bytes: self.payload_bytes,
            capsule_bytes: self.capsule_bytes,
            failure: self.failure.clone(),
        }
    }
}

/// Durable semantic content. Compiler authority is not stored here.
#[derive(Debug)]
pub struct ContextNode {
    pub id: String,
    pub kind: ContextNodeKind,
    pub summary: String,
    pub origin: ContextOrigin,
    pub epistemic: EpistemicStatus,
    pub scope: ContextScope,
    pub lens: ContextLens,
    pub confidence: Binary32,
    pub source_event_ids: Vec<String>,
    pub supersedes: Vec<String>,
    pub valid_from: Option<Timestamp>,
    pub valid_until: Option<Timestamp>,
    pub encoding: NodeEncoding,
}

/// The model of a node.
pub struct NodeModel {
    pub id: Seq<char>,
    pub kind: ContextNodeKind,
    pub summary: Seq<char>,
    pub origin: ContextOrigin,
    pub epistemic: EpistemicStatus,
    pub scope: ContextScope,
    pub lens: ContextLens,
    pub confidence: Binary32,
    pub source_event_ids: Seq<Seq<char>>,
    pub supersedes: Seq<Seq<char>>,
    pub valid_from: Option<Timestamp>,
    pub valid_until: Option<Timestamp>,
    pub encoding: EncodingModel,
}

impl View for ContextNode {
    type V = NodeModel;

    open spec fn view(&self) -> NodeModel {
        NodeModel {
            id: self.id@,
            kind: self.kind,
            summary: self.summary@,
            origin: self.origin,
            epistemic: self.epistemic,
            scope: self.scope,
            lens: self.lens,
            confidence: self.confidence,
            source_event_ids: texts(self.source_event_ids@),
            supersedes: texts(self.supersedes@),
            valid_from: self.valid_from,
            valid_until: self.valid_until,
            encoding: self.encoding@,
        }
    }
}

impl Clone for ContextNode {
    fn clone(&self) -> (r: ContextNode)
        ensures
            r@ == self@,
    {
        ContextNode {
            id: self.id.clone(),
            kind: self.kind,
            summary: self.summary.clone(),
            origin: self.origin,
            epistemic: self.epistemic,
            scope: self.scope,
            lens: self.lens,
            confidence: self.confidence,
            source_event_ids: copy_texts(&self.source_event_ids),
            supersedes: copy_texts(&self.supersedes),
            valid_from: self.valid_from,
            valid_until: self.valid_until,
            encoding: self.encoding.clone(),
        }
    }
}

/// A failed rule of node or edge validation.
#[derive(Debug, PartialEq, Eq)]
pub enum ContextValidationError {
    EmptyId,
    EmptySummary { node_id: String },
    MissingProvenance { subject_id: String },
    ModelCannotAssert { node_id: String },
    InvalidConfidence { node_id: String, confidence: Binary32 },
    InvalidValidityWindow { node_id: String },
    MissingNode { edge_id: String, node_id: String },
    DuplicateNode { node_id: String },
}

/// The rules that a single node can break.
#[derive(Debug, Clone, Copy, PartialEq, Eq, Structural)]
pub enum NodeFault {
    EmptyId,
    EmptySummary,
    InvalidConfidence,
    MissingProvenance,
    ModelCannotAssert,
    InvalidValidityWindow,
}

impl NodeModel {
    /// Whether the window closes no later than it opens.
    pub open spec fn window_is_empty(self) -> bool {
        match (self.valid_from, self.valid_until) {
            (Some(from), Some(until)) => !from.earlier(until),
            _ => false,
        }
    }

    /// The first rule that the node breaks.
    pub open spec fn fault(self) -> Option<NodeFault> {
        if blank(self.id) {
            Some(NodeFault::EmptyId)
        } else if blank(self.summary) {
            Some(NodeFault::EmptySummary)
        } else if !self.confidence.in_unit_interval() {
            Some(NodeFault::InvalidConfidence)
        } else if self.scope != ContextScope::Turn && !names_sources(self.source_event_ids) {
            Some(NodeFault::MissingProvenance)
        } else if self.origin == ContextOrigin::Model && self.epistemic
            == EpistemicStatus::Asserted {
            Some(NodeFault::ModelCannotAssert)
        } else if self.window_is_empty() {
            Some(NodeFault::InvalidValidityWindow)
        } else {
            None
        }
    }

    /// The node breaks no rule.
    pub open spec fn valid(self) -> bool {
        self.fault() is None
    }

    /// The window has opened, has not closed, and the node is not disputed.
    pub open spec fn active_at(self, now: Timestamp) -> bool {
        &&& self.valid_from matches Some(start) ==> !now.earlier(start)
        &&& self.valid_until matches Some(end) ==> now.earlier(end)
        &&& self.epistemic != EpistemicStatus::Disputed
    }

    /// Equality of content, with confidences compared as numbers.
    pub open spec fn same_content(self, other: NodeModel) -> bool {
        &&& self.id == other.id
        &&& self.kind == other.kind
        &&& self.summary == other.summary
        &&& self.origin == other.origin
        &&& self.epistemic == other.epistemic
        &&& self.scope == other.scope
        &&& self.lens == other.lens
        &&& self.confidence.equals(other.confidence)
        &&& self.source_event_ids == other.source_event_ids
        &&& self.supersedes == other.supersedes
        &&& self.valid_from == other.valid_from
        &&& self.valid_until == other.valid_until
    }

    /// The fixed retrieval document, with the fields copied verbatim.
    pub open spec fn document(self) -> Seq<char> {
        "id="@ + self.id + "\nkind="@ + self.kind.token() + "\nsummary="@ + self.summary
    }

    /// The number of bytes in the retrieval document.
    pub open spec fn document_len(self) -> nat {
        utf8_len("id="@) + utf8_len(self.id) + utf8_len("\nkind="@) + utf8_len(self.kind.token())
            + utf8_len("\nsummary="@) + utf8_len(self.summary)
    }
}

/// The error reports the fault of the node.
pub open spec fn reports_fault(e: ContextValidationError, f: NodeFault, n: NodeModel) -> bool {
    match f {
        NodeFault::EmptyId => e is EmptyId,
        NodeFault::EmptySummary => e is EmptySummary && e->EmptySummary_node_id@ == n.id,
        NodeFault::InvalidConfidence => e is InvalidConfidence && e->InvalidConfidence_node_id@
            == n.id && e->confidence == n.confidence,
        NodeFault::MissingProvenance => e is MissingProvenance && e->subject_id@ == n.id,
        NodeFault::ModelCannotAssert => e is ModelCannotAssert && e->ModelCannotAssert_node_id@
            == n.id,
        NodeFault::InvalidValidityWindow => e is InvalidValidityWindow
            && e->InvalidValidityWindow_node_id@ == n.id,
    }
}

/// The result of validating a node.
pub open spec fn node_verdict(n: NodeModel, r: Result<(), ContextValidationError>) -> bool {
    match n.fault() {
        None => r is Ok,
        Some(f) => r is Err && reports_fault(r->Err_0, f, n),
    }
}

/// The message for a fault of the node.
pub open spec fn fault_text(f: NodeFault, n: NodeModel) -> Seq<char> {
    match f {
        NodeFault::EmptyId => "context id is empty"@,
        NodeFault::EmptySummary => "context node "@ + n.id + " has an empty summary"@,
        NodeFault::InvalidConfidence => "context "@ + n.id + " has invalid confidence "@
            + n.encoding.confidence_text,
        NodeFault::MissingProvenance => "context "@ + n.id + " has no source event provenance"@,
        NodeFault::ModelCannotAssert => "model-origin context "@ + n.id + " cannot be asserted"@,
        NodeFault::InvalidValidityWindow => "context "@ + n.id
            + " has an invalid validity window"@,
    }
}

/// The message of a validation error; `confidence_text` is the decimal text of
/// the offending confidence.
pub open spec fn validation_message(
    e: ContextValidationError,
    confidence_text: Seq<char>,
) -> Seq<char> {
    match e {
        ContextValidationError::EmptyId => "context id is empty"@,
        ContextValidationError::EmptySummary { node_id } => "context node "@ + node_id@
            + " has an empty summary"@,
        ContextValidationError::MissingProvenance { subject_id } => "context "@ + subject_id@
            + " has no source event provenance"@,
        ContextValidationError::ModelCannotAssert { node_id } => "model-origin context "@
            + node_id@ + " cannot be asserted"@,
        ContextValidationError::InvalidConfidence { node_id, confidence } => "context "@
            + node_id@ + " has invalid confidence "@ + confidence_text,
        ContextValidationError::InvalidValidityWindow { node_id } => "context "@ + node_id@
            + " has an invalid validity window"@,
        ContextValidationError::MissingNode { edge_id, node_id } => "context edge "@ + edge_id@
            + " references missing node "@ + node_id@,
        ContextValidationError::DuplicateNode { node_id } => "context node "@ + node_id@
            + " already exists"@,
    }
}

impl ContextValidationError {
    /// The message of the error; `confidence_text` is the decimal text of the
    /// offending confidence.
    pub fn message(&self, confidence_text: &str) -> (s: String)
        ensures
            s@ == validation_message(*self, confidence_text@),
    {
        match self {
            ContextValidationError::EmptyId => "context id is empty".to_owned(),
            ContextValidationError::EmptySummary { node_id } => {
                joined3("context node ", node_id, " has an empty summary")
            },
            ContextValidationError::MissingProvenance { subject_id } => {
                joined3("context ", subject_id, " has no source event provenance")
            },
            ContextValidationError::ModelCannotAssert { node_id } => {
                joined3("model-origin context ", node_id, " cannot be asserted")
            },
            ContextValidationError::InvalidConfidence { node_id, confidence } => {
                let mut s = joined3("context ", node_id, " has invalid confidence ");
                s.append(confidence_text);
                s
            },
            ContextValidationError::InvalidValidityWindow { node_id } => {
                joined3("context ", node_id, " has an invalid validity window")
            },
            ContextValidationError::MissingNode { edge_id, node_id } => {
                let mut s = joined3("context edge ", edge_id, " references missing node ");
                s.append(node_id);
                s
            },
            ContextValidationError::DuplicateNode { node_id } => {
                joined3("context node ", node_id, " already exists")
            },
        }
    }
}

impl ContextNode {
    /// Checks the rules that every node obeys, in a fixed order.
    pub fn validate(&self) -> (r: Result<(), ContextValidationError>)
        ensures
            node_verdict(self@, r),
    {
        if is_blank(&self.id) {
            return Err(ContextValidationError::EmptyId);
        }
        if is_blank(&self.summary) {
            return Err(ContextValidationError::EmptySummary { node_id: self.id.clone() });
        }
        if !self.confidence.within_unit_interval() {
            return Err(
                ContextValidationError::InvalidConfidence {
                    node_id: self.id.clone(),
                    confidence: self.confidence,
                },
            );
        }
        if self.scope != ContextScope::Turn && !has_provenance(&self.source_event_ids) {
            return Err(ContextValidationError::MissingProvenance { subject_id: self.id.clone() });
        }
        if self.origin == ContextOrigin::Model && self.epistemic == EpistemicStatus::Asserted {
            return Err(ContextValidationError::ModelCannotAssert { node_id: self.id.clone() });
        }
        if let (Some(from), Some(until)) = (self.valid_from, self.valid_until) {
            if !from.is_before(&until) {
                return Err(
                    ContextValidationError::InvalidValidityWindow { node_id: self.id.clone() },
                );
            }
        }
        Ok(())
    }

    /// The message of the first broken rule, if there is one.
    pub fn invalid_reason(&self) -> (r: Option<String>)
        ensures
            match self@.fault() {
                None => r is None,
                Some(f) => r is Some && r->0@ == fault_text(f, self@),
            },
    {
        match self.validate() {
            Ok(()) => None,
            Err(e) => Some(e.message(&self.encoding.confidence_text)),
        }
    }

    /// Whether the node is undisputed and its window contains `now`.
    pub fn is_valid_at(&self, now: Timestamp) -> (r: bool)
        ensures
            r == self@.active_at(now),
    {
        if let Some(start) = self.valid_from {
            if now.is_before(&start) {
                return false;
            }
        }
        if let Some(end) = self.valid_until {
            if !now.is_before(&end) {
                return false;
            }
        }
        self.epistemic != EpistemicStatus::Disputed
    }

    /// Whether two nodes have the same content.
    pub fn content_equals(&self, other: &ContextNode) -> (r: bool)
        ensures
            r == self@.same_content(other@),
    {
        same_text(&self.id, &other.id) && self.kind == other.kind && same_text(
            &self.summary,
            &other.summary,
        ) && self.origin == other.origin && self.epistemic == other.epistemic && self.scope
            == other.scope && self.lens == other.lens && self.confidence.numerically_equal(
            &other.confidence,
        ) && same_texts(&self.source_event_ids, &other.source_event_ids) && same_texts(
            &self.supersedes,
            &other.supersedes,
        ) && same_time(&self.valid_from, &other.valid_from) && same_time(
            &self.valid_until,
            &other.valid_until,
        )
    }

    /// The canonical bounded retrieval document of the node.
    pub fn retrieval_document(&self) -> (r: Result<RetrievalDocument, RetrievalError>)
        ensures
            document_outcome(self@, r),
    {
        context_retrieval_document(self)
    }
}

/// Whether two optional points in time are the same.
pub fn same_time(a: &Option<Timestamp>, b: &Option<Timestamp>) -> (r: bool)
    ensures
        r == (*a == *b),
{
    match (a, b) {
        (Some(x), Some(y)) => *x == *y,
        (None, None) => true,
        _ => false,
    }
}

/// A bounded retrieval document.
#[derive(Debug, PartialEq, Eq)]
pub struct RetrievalDocument {
    pub text: String,
}

impl RetrievalDocument {
    pub fn as_str(&self) -> (s: &str)
        ensures
            s@ == self.text@,
    {
        self.text.as_str()
    }
}

/// The document of a node, or the refusal of one that is too long.
pub open spec fn document_outcome(
    n: NodeModel,
    r: Result<RetrievalDocument, RetrievalError>,
) -> bool {
    if document_refusal(n) is Some {
        r == Err::<RetrievalDocument, RetrievalError>(document_refusal(n)->0)
    } else {
        r is Ok && r->Ok_0.text@ == n.document() && utf8_len(r->Ok_0.text@)
            <= MAX_RETRIEVAL_DOCUMENT_BYTES
    }
}

/// The refusal of a node whose document is too long; the reported length is
/// held at the greatest `usize`.
pub open spec fn document_refusal(n: NodeModel) -> Option<RetrievalError> {
    if n.document_len() > MAX_RETRIEVAL_DOCUMENT_BYTES {
        Some(
            RetrievalError::RetrievalDocumentTooLong {
                actual: if n.document_len() > usize::MAX {
                    usize::MAX
                } else {
                    n.document_len() as usize
                },
                maximum: MAX_RETRIEVAL_DOCUMENT_BYTES,
            },
        )
    } else {
        None
    }
}

/// Builds the fixed document `id=<id>\nkind=<kind>\nsummary=<summary>`, without
/// escaping and without a trailing newline.
pub fn context_retrieval_document(node: &ContextNode) -> (r: Result<
    RetrievalDocument,
    RetrievalError,
>)
    ensures
        document_outcome(node@, r),
{
    let length = context_retrieval_document_len(node);
    if let Err(e) = length {
        return Err(e);
    }
    let mut document = "id=".to_owned();
    document.append(&node.id);
    document.append("\nkind=");
    document.append(node.kind.as_str());
    document.append("\nsummary=");
    document.append(&node.summary);
    proof {
        lemma_document_len(node@);
    }
    Ok(RetrievalDocument { text: document })
}

/// The length of the document in bytes, or the refusal of one that is too long.
pub fn context_retrieval_document_len(node: &ContextNode) -> (r: Result<usize, RetrievalError>)
    ensures
        match document_refusal(node@) {
            Some(e) => r == Err::<usize, RetrievalError>(e),
            None => r is Ok && r->Ok_0 == node@.document_len(),
        },
{
    let actual: usize = byte_len("id=").saturating_add(byte_len(&node.id)).saturating_add(
        byte_len("\nkind="),
    ).saturating_add(byte_len(node.kind.as_str())).saturating_add(
        byte_len("\nsummary="),
    ).saturating_add(byte_len(&node.summary));
    if actual > MAX_RETRIEVAL_DOCUMENT_BYTES {
        return Err(
            RetrievalError::RetrievalDocumentTooLong {
                actual,
                maximum: MAX_RETRIEVAL_DOCUMENT_BYTES,
            },
        );
    }
    Ok(actual)
}

/// The length computed field by field is the length of the document.
pub proof fn lemma_document_len(n: NodeModel)
    ensures
        utf8_len(n.document()) == n.document_len(),
{
    let a = "id="@;
    let b = a + n.id;
    let c = b + "\nkind="@;
    let d = c + n.kind.token();
    let e = d + "\nsummary="@;
    lemma_utf8_len_concat(a, n.id);
    lemma_utf8_len_concat(b, "\nkind="@);
    lemma_utf8_len_concat(c, n.kind.token());
    lemma_utf8_len_concat(d, "\nsummary="@);
    lemma_utf8_len_concat(e, n.summary);
}

/// A node that passes validation is equal in content to itself.
pub proof fn valid_node_equals_itself(n: NodeModel)
    requires
        n.valid(),
    ensures
        n.same_content(n),
{
}

/// A valid node outside every window or disputed is inactive, and one that is
/// inactive was either disputed, not yet open, or closed.
pub proof fn inactive_has_a_cause(n: NodeModel, now: Timestamp)
    ensures
        !n.active_at(now) <==> (n.epistemic == EpistemicStatus::Disputed || (n.valid_until matches Some(
            end,
        ) && !now.earlier(end)) || (n.valid_from matches Some(start) && now.earlier(start))),
{
}

/// A node's document is its identity, kind and summary, one to a line; one of more
/// than 65,536 bytes is refused with its length.
pub proof fn documents_hold_three_lines(
    n: NodeModel,
    r: Result<RetrievalDocument, RetrievalError>,
)
    requires
        document_outcome(n, r),
    ensures
        r is Ok <==> utf8_len(
            "id="@ + n.id + "\nkind="@ + n.kind.token() + "\nsummary="@ + n.summary,
        ) <= 65_536,
        r is Ok ==> r->Ok_0.text@ == "id="@ + n.id + "\nkind="@ + n.kind.token() + "\nsummary="@
            + n.summary,
        r matches Err(RetrievalError::RetrievalDocumentTooLong { actual, maximum }) ==> maximum
            == 65_536 && (actual == utf8_len(n.document()) || actual == usize::MAX),
        r is Err ==> r->Err_0 is RetrievalDocumentTooLong,
{
    lemma_document_len(n);
}

/// Every kind has a wire token of its own.
pub proof fn kinds_have_their_tokens(kind: ContextNodeKind)
    ensures
        kind == ContextNodeKind::Goal ==> kind.token() == "goal"@,
        kind == ContextNodeKind::Constraint ==> kind.token() == "constraint"@,
        kind == ContextNodeKind::Entity ==> kind.token() == "entity"@,
        kind == ContextNodeKind::Resource ==> kind.token() == "resource"@,
        kind == ContextNodeKind::Claim ==> kind.token() == "claim"@,
        kind == ContextNodeKind::Preference ==> kind.token() == "preference"@,
        kind == ContextNodeKind::Decision ==> kind.token() == "decision"@,
        kind == ContextNodeKind::Assumption ==> kind.token() == "assumption"@,
        kind == ContextNodeKind::OpenQuestion ==> kind.token() == "open_question"@,
        kind == ContextNodeKind::Action ==> kind.token() == "action"@,
        kind == ContextNodeKind::Evidence ==> kind.token() == "evidence"@,
        kind == ContextNodeKind::Risk ==> kind.token() == "risk"@,
        kind == ContextNodeKind::Capability ==> kind.token() == "capability"@,
{
}

/// A fault is told in the words of the error that reports it: two ways of saying
/// what is wrong with a node never disagree.
pub proof fn faults_are_told_in_one_way(n: NodeModel, e: ContextValidationError)
    requires
        !n.valid(),
        reports_fault(e, n.fault()->0, n),
    ensures
        validation_message(e, n.encoding.confidence_text) == fault_text(n.fault()->0, n),
{
}

/// Contents are the same where every field is, confidences as numbers; what is not
/// content does not count.
pub proof fn contents_differ_in_some_field(a: NodeModel, b: NodeModel)
    ensures
        a.same_content(b) == b.same_content(a),
        a.same_content(b) ==> a.id == b.id && a.kind == b.kind && a.summary == b.summary && a.origin
            == b.origin && a.epistemic == b.epistemic && a.scope == b.scope && a.lens == b.lens
            && a.source_event_ids == b.source_event_ids && a.supersedes == b.supersedes
            && a.valid_from == b.valid_from && a.valid_until == b.valid_until && (a.confidence
            == b.confidence || (a.confidence.bits % 0x8000_0000 == 0 && b.confidence.bits
            % 0x8000_0000 == 0)),
        a.id == b.id && a.kind == b.kind && a.summary == b.summary && a.origin == b.origin
            && a.epistemic == b.epistemic && a.scope == b.scope && a.lens == b.lens
            && a.source_event_ids == b.source_event_ids && a.supersedes == b.supersedes
            && a.valid_from == b.valid_from && a.valid_until == b.valid_until && a.confidence
            == b.confidence && a.confidence.bits <= 0x7f80_0000 ==> a.same_content(b),
{
}

} // verus!
