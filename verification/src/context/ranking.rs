//! Deriving a bounded ranking of context nodes for one prepared query.
//!
//! Matching a document against the query and embedding it are outside work. The
//! ranking asks for them one node at a time: [`ContextRankingWork::advance`]
//! hands out a document, [`ContextRankingWork::admit_match`] takes the match and
//! says whether an embedding is wanted, and [`ContextRankingWork::admit_similarity`]
//! takes the similarity.

use vstd::prelude::*;

use crate::binary32::Binary32;
use crate::context::candidate::{ContextDirective, DirectiveModel};
use crate::context::capsule::{item_of, nodes_view, ContextCapsuleItem};
use crate::context::node::{
    context_retrieval_document, context_retrieval_document_len, document_refusal, fault_text,
    ContextNode, NodeModel, RetrievalDocument,
};
use crate::context::receipt::{
    copy_exclusions, exclusions_view, ContextExclusion, ContextExclusionReason, ExclusionModel,
};
use crate::context::selection::{prepared_view, PreparedCandidate, PreparedModel};
use crate::context::signature::{matched_relevance, relevance_from_match, QueryMatch, Relevance};
use crate::order::{
    arranged, in_order, lemma_arranged_all, lemma_arranged_distinct, lemma_place_index_is,
    lemma_placed_prefix, placed, strict_order,
};
use crate::retrieval::{
    ContextResultLimit, RetrievalError, RetrievalMode, RetrievalWorkBudget, MAX_CANDIDATE_COUNT,
};
use crate::text::{
    blank, byte_len, cut, cut_text, decimal, decimal_text, is_blank, joined, joined3, same_text,
    text_before, text_less, text_order_is_total, texts, utf8_len,
};
use crate::time::Timestamp;

verus! {

/// The longest node identity, in bytes.
pub const MAX_CONTEXT_NODE_ID_BYTES: usize = 256;

/// The longest node summary, in bytes.
pub const MAX_CONTEXT_NODE_SUMMARY_BYTES: usize = 65_000;

/// The longest reference to an event or a node, in bytes.
pub const MAX_CONTEXT_REFERENCE_ID_BYTES: usize = 256;

/// The greatest number of source events of a node.
pub const MAX_CONTEXT_SOURCE_EVENT_IDS: usize = 64;

/// The greatest number of nodes that a node supersedes.
pub const MAX_CONTEXT_SUPERSEDES: usize = 64;

/// The largest JSON form of a node, in bytes.
pub const MAX_SERIALIZED_CONTEXT_NODE_BYTES: usize = 131_072;

/// The longest error detail, in bytes.
pub const MAX_CONTEXT_RANKING_ERROR_DETAIL_BYTES: usize = 4_096;

/// A refused ranking.
#[derive(Debug, PartialEq, Eq)]
pub enum ContextQueryRankingError {
    Retrieval(RetrievalError),
    ProviderModeMismatch { mode: RetrievalMode, provider_present: bool },
    DuplicateCandidate { node_id: String },
    InvalidCandidate { node_id: String, reason: String },
    CandidateIdTooLong { actual: usize, maximum: usize },
    CandidateSummaryTooLong { node_id: String, actual: usize, maximum: usize },
}

/// What is wrong with reference `i` of a list, if anything.
pub open spec fn reference_fault(
    id: Seq<char>,
    field: Seq<char>,
    values: Seq<Seq<char>>,
    reject_self: bool,
    i: int,
) -> Option<Seq<char>> {
    let value = values[i];
    if blank(value) {
        Some(field + " reference at index "@ + decimal_text(i as nat) + " is empty"@)
    } else if utf8_len(value) > MAX_CONTEXT_REFERENCE_ID_BYTES {
        Some(
            field + " reference at index "@ + decimal_text(i as nat) + " is "@ + decimal_text(
                utf8_len(value),
            ) + " bytes, exceeding the "@ + decimal_text(MAX_CONTEXT_REFERENCE_ID_BYTES as nat)
                + "-byte limit"@,
        )
    } else if exists|j: int| 0 <= j < i && #[trigger] values[j] == value {
        Some(field + " contains duplicate reference "@ + value)
    } else if reject_self && value == id {
        Some("supersedes contains the node's own id"@)
    } else {
        None
    }
}

/// What is wrong with the first faulty reference from `from` on.
pub open spec fn first_reference_fault(
    id: Seq<char>,
    field: Seq<char>,
    values: Seq<Seq<char>>,
    reject_self: bool,
    from: int,
) -> Option<Seq<char>>
    decreases values.len() - from,
{
    if from < 0 || from >= values.len() {
        None
    } else if reference_fault(id, field, values, reject_self, from) is Some {
        reference_fault(id, field, values, reject_self, from)
    } else {
        first_reference_fault(id, field, values, reject_self, from + 1)
    }
}

/// What is wrong with a list of references: its length, or its first faulty
/// reference.
pub open spec fn list_fault(
    id: Seq<char>,
    field: Seq<char>,
    values: Seq<Seq<char>>,
    minimum: usize,
    maximum: usize,
    reject_self: bool,
) -> Option<Seq<char>> {
    if !(minimum <= values.len() <= maximum) {
        Some(
            field + " contains "@ + decimal_text(values.len())
                + " entries, outside the inclusive range "@ + decimal_text(minimum as nat) + "..="@
                + decimal_text(maximum as nat),
        )
    } else {
        first_reference_fault(id, field, values, reject_self, 0)
    }
}

/// What disqualifies a node of bounded identity and summary from ranking.
pub open spec fn ranked_node_fault(n: NodeModel) -> Option<Seq<char>> {
    if n.fault() is Some {
        Some(fault_text(n.fault()->0, n))
    } else if list_fault(
        n.id,
        "source_event_ids"@,
        n.source_event_ids,
        1,
        MAX_CONTEXT_SOURCE_EVENT_IDS,
        false,
    ) is Some {
        list_fault(
            n.id,
            "source_event_ids"@,
            n.source_event_ids,
            1,
            MAX_CONTEXT_SOURCE_EVENT_IDS,
            false,
        )
    } else if list_fault(n.id, "supersedes"@, n.supersedes, 0, MAX_CONTEXT_SUPERSEDES, true) is Some {
        list_fault(n.id, "supersedes"@, n.supersedes, 0, MAX_CONTEXT_SUPERSEDES, true)
    } else {
        match n.encoding.node_bytes {
            None => Some("context node is not serializable"@),
            Some(bytes) => if bytes > MAX_SERIALIZED_CONTEXT_NODE_BYTES {
                Some(
                    "serialized context node is "@ + decimal_text(bytes as nat)
                        + " bytes, exceeding the "@ + decimal_text(
                        MAX_SERIALIZED_CONTEXT_NODE_BYTES as nat,
                    ) + "-byte limit"@,
                )
            } else {
                None
            },
        }
    }
}

/// The node is fit for ranking.
pub open spec fn rankable(n: NodeModel) -> bool {
    &&& utf8_len(n.id) <= MAX_CONTEXT_NODE_ID_BYTES
    &&& utf8_len(n.summary) <= MAX_CONTEXT_NODE_SUMMARY_BYTES
    &&& ranked_node_fault(n) is None
}

/// The result of checking a node for ranking: its size, or why it is unfit.
pub open spec fn ranked_node_verdict(
    n: NodeModel,
    r: Result<usize, ContextQueryRankingError>,
) -> bool {
    if utf8_len(n.id) > MAX_CONTEXT_NODE_ID_BYTES {
        &&& r is Err
        &&& r->Err_0 is CandidateIdTooLong
        &&& r->Err_0->CandidateIdTooLong_actual == utf8_len(n.id)
        &&& r->Err_0->CandidateIdTooLong_maximum == MAX_CONTEXT_NODE_ID_BYTES
    } else if utf8_len(n.summary) > MAX_CONTEXT_NODE_SUMMARY_BYTES {
        &&& r is Err
        &&& r->Err_0 is CandidateSummaryTooLong
        &&& r->Err_0->CandidateSummaryTooLong_node_id@ == n.id
        &&& r->Err_0->CandidateSummaryTooLong_actual == utf8_len(n.summary)
        &&& r->Err_0->CandidateSummaryTooLong_maximum == MAX_CONTEXT_NODE_SUMMARY_BYTES
    } else {
        match ranked_node_fault(n) {
            Some(detail) => {
                &&& r is Err
                &&& r->Err_0 is InvalidCandidate
                &&& r->Err_0->InvalidCandidate_node_id@ == n.id
                &&& r->Err_0->reason@ == cut(
                    detail,
                    MAX_CONTEXT_RANKING_ERROR_DETAIL_BYTES as nat,
                )
            },
            None => r is Ok && Some(r->Ok_0) == n.encoding.node_bytes,
        }
    }
}

fn invalid_ranked_candidate(node_id: &str, reason: &str) -> (e: ContextQueryRankingError)
    ensures
        e is InvalidCandidate,
        e->InvalidCandidate_node_id@ == node_id@,
        e->reason@ == cut(reason@, MAX_CONTEXT_RANKING_ERROR_DETAIL_BYTES as nat),
{
    ContextQueryRankingError::InvalidCandidate {
        node_id: node_id.to_owned(),
        reason: bounded_context_ranking_error_detail(reason),
    }
}

/// Cuts an error detail to its bound.
pub fn bounded_context_ranking_error_detail(detail: &str) -> (s: String)
    ensures
        s@ == cut(detail@, MAX_CONTEXT_RANKING_ERROR_DETAIL_BYTES as nat),
        utf8_len(s@) <= MAX_CONTEXT_RANKING_ERROR_DETAIL_BYTES,
{
    cut_text(detail, MAX_CONTEXT_RANKING_ERROR_DETAIL_BYTES)
}

/// What is wrong with a list of references.
fn check_reference_list(
    id: &str,
    field: &str,
    values: &Vec<String>,
    minimum: usize,
    maximum: usize,
    reject_self: bool,
) -> (r: Option<String>)
    ensures
        match list_fault(id@, field@, texts(values@), minimum, maximum, reject_self) {
            Some(t) => r is Some && r->0@ == t,
            None => r is None,
        },
{
    let ghost vs = texts(values@);
    if values.len() < minimum || values.len() > maximum {
        let mut s = joined(field, " contains ");
        s.append(&decimal(values.len() as u64));
        s.append(" entries, outside the inclusive range ");
        s.append(&decimal(minimum as u64));
        s.append("..=");
        s.append(&decimal(maximum as u64));
        return Some(s);
    }
    let mut i: usize = 0;
    while i < values.len()
        invariant
            vs == texts(values@),
            0 <= i <= values@.len(),
            minimum <= values@.len() <= maximum,
            list_fault(id@, field@, vs, minimum, maximum, reject_self) == first_reference_fault(
                id@,
                field@,
                vs,
                reject_self,
                i as int,
            ),
        decreases values.len() - i,
    {
        let value = &values[i];
        assert(vs[i as int] == value@);
        if is_blank(value) {
            let mut s = joined(field, " reference at index ");
            s.append(&decimal(i as u64));
            s.append(" is empty");
            return Some(s);
        }
        if byte_len(value) > MAX_CONTEXT_REFERENCE_ID_BYTES {
            let mut s = joined(field, " reference at index ");
            s.append(&decimal(i as u64));
            s.append(" is ");
            s.append(&decimal(byte_len(value) as u64));
            s.append(" bytes, exceeding the ");
            s.append(&decimal(MAX_CONTEXT_REFERENCE_ID_BYTES as u64));
            s.append("-byte limit");
            return Some(s);
        }
        let mut j: usize = 0;
        while j < i
            invariant
                vs == texts(values@),
                0 <= j <= i < values@.len(),
                vs[i as int] == value@,
                forall|k: int| 0 <= k < j ==> #[trigger] vs[k] != value@,
                !blank(value@),
                utf8_len(value@) <= MAX_CONTEXT_REFERENCE_ID_BYTES,
                list_fault(id@, field@, vs, minimum, maximum, reject_self)
                    == first_reference_fault(id@, field@, vs, reject_self, i as int),
            decreases i - j,
        {
            if same_text(&values[j], value) {
                assert(vs[j as int] == value@);
                return Some(joined3(field, " contains duplicate reference ", value));
            }
            j += 1;
        }
        if reject_self && same_text(value, id) {
            return Some("supersedes contains the node's own id".to_owned());
        }
        i += 1;
    }
    None
}

/// Checks a node for ranking and measures it.
pub fn validate_ranked_context_node(node: &ContextNode) -> (r: Result<
    usize,
    ContextQueryRankingError,
>)
    ensures
        ranked_node_verdict(node@, r),
{
    let id_len: usize = byte_len(&node.id);
    if id_len > MAX_CONTEXT_NODE_ID_BYTES {
        return Err(
            ContextQueryRankingError::CandidateIdTooLong {
                actual: id_len,
                maximum: MAX_CONTEXT_NODE_ID_BYTES,
            },
        );
    }
    let summary_len: usize = byte_len(&node.summary);
    if summary_len > MAX_CONTEXT_NODE_SUMMARY_BYTES {
        return Err(
            ContextQueryRankingError::CandidateSummaryTooLong {
                node_id: node.id.clone(),
                actual: summary_len,
                maximum: MAX_CONTEXT_NODE_SUMMARY_BYTES,
            },
        );
    }
    if let Some(reason) = node.invalid_reason() {
        return Err(invalid_ranked_candidate(&node.id, &reason));
    }
    if let Some(reason) = check_reference_list(
        &node.id,
        "source_event_ids",
        &node.source_event_ids,
        1,
        MAX_CONTEXT_SOURCE_EVENT_IDS,
        false,
    ) {
        return Err(invalid_ranked_candidate(&node.id, &reason));
    }
    if let Some(reason) = check_reference_list(
        &node.id,
        "supersedes",
        &node.supersedes,
        0,
        MAX_CONTEXT_SUPERSEDES,
        true,
    ) {
        return Err(invalid_ranked_candidate(&node.id, &reason));
    }
    match node.encoding.node_bytes {
        None => Err(invalid_ranked_candidate(&node.id, "context node is not serializable")),
        Some(bytes) => {
            if bytes > MAX_SERIALIZED_CONTEXT_NODE_BYTES {
                let mut s = joined3(
                    "serialized context node is ",
                    &decimal(bytes as u64),
                    " bytes, exceeding the ",
                );
                s.append(&decimal(MAX_SERIALIZED_CONTEXT_NODE_BYTES as u64));
                s.append("-byte limit");
                return Err(invalid_ranked_candidate(&node.id, &s));
            }
            Ok(bytes)
        },
    }
}

/// The query's mode calls for a provider exactly where one is present.
pub open spec fn provider_fits(mode: RetrievalMode, provider_present: bool) -> bool {
    match mode {
        RetrievalMode::LexicalOnly => !provider_present,
        RetrievalMode::Embedded => provider_present,
    }
}

/// Refuses a query whose mode does not fit the provider.
pub fn validate_context_query_provider(mode: RetrievalMode, provider_present: bool) -> (r: Result<
    (),
    ContextQueryRankingError,
>)
    ensures
        provider_fits(mode, provider_present) ==> r is Ok,
        !provider_fits(mode, provider_present) ==> r == Err::<(), ContextQueryRankingError>(
            ContextQueryRankingError::ProviderModeMismatch { mode, provider_present },
        ),
{
    let fits = match mode {
        RetrievalMode::LexicalOnly => !provider_present,
        RetrievalMode::Embedded => provider_present,
    };
    if fits {
        Ok(())
    } else {
        Err(ContextQueryRankingError::ProviderModeMismatch { mode, provider_present })
    }
}

/// A ranked node with the components of its rank.
pub struct RankedQueryCandidate {
    node: ContextNode,
    exact: bool,
    embedding_similarity: Option<Binary32>,
    relevance_score: Binary32,
}

/// The model of a ranked node.
pub struct RankedModel {
    pub node: NodeModel,
    pub exact: bool,
    pub similarity: Option<Binary32>,
    pub relevance: Binary32,
}

impl View for RankedQueryCandidate {
    type V = RankedModel;

    closed spec fn view(&self) -> RankedModel {
        RankedModel {
            node: self.node@,
            exact: self.exact,
            similarity: self.embedding_similarity,
            relevance: self.relevance_score,
        }
    }
}

/// The models of a list of ranked nodes.
pub open spec fn ranked_view(list: Seq<RankedQueryCandidate>) -> Seq<RankedModel> {
    list.map_values(|c: RankedQueryCandidate| c@)
}

/// `a` ranks strictly before `b`: exact matches first, then greater similarity,
/// then greater relevance, then smaller identity. A node with a similarity ranks
/// before one without.
pub open spec fn ranks_before(a: RankedModel, b: RankedModel) -> bool {
    if a.exact != b.exact {
        a.exact
    } else {
        match (a.similarity, b.similarity) {
            (Some(x), Some(y)) => if x.rank() != y.rank() {
                x.rank() > y.rank()
            } else {
                ranks_before_by_relevance(a, b)
            },
            (None, None) => ranks_before_by_relevance(a, b),
            (Some(_), None) => true,
            (None, Some(_)) => false,
        }
    }
}

/// The order among nodes of equal exactness and similarity.
pub open spec fn ranks_before_by_relevance(a: RankedModel, b: RankedModel) -> bool {
    if a.relevance.rank() != b.relevance.rank() {
        a.relevance.rank() > b.relevance.rank()
    } else {
        text_less(a.node.id, b.node.id)
    }
}

/// The ranking order.
pub open spec fn ranking_order() -> spec_fn(RankedModel, RankedModel) -> bool {
    |a: RankedModel, b: RankedModel| ranks_before(a, b)
}

/// The ranking order is a strict total order on nodes of distinct identity.
pub proof fn ranking_order_is_total(a: RankedModel, b: RankedModel, c: RankedModel)
    ensures
        !ranks_before(a, a),
        ranks_before(a, b) && ranks_before(b, c) ==> ranks_before(a, c),
        !(ranks_before(a, b) && ranks_before(b, a)),
        ranks_before(a, b) || ranks_before(b, a) || a.node.id == b.node.id,
        !ranks_before(b, a) && !ranks_before(c, b) ==> !ranks_before(c, a),
{
    text_order_is_total(a.node.id, b.node.id, c.node.id);
    text_order_is_total(c.node.id, b.node.id, a.node.id);
    text_order_is_total(a.node.id, c.node.id, b.node.id);
    text_order_is_total(b.node.id, c.node.id, a.node.id);
}

/// The ranking order compares any two nodes.
pub proof fn lemma_ranking_order()
    ensures
        strict_order(ranking_order()),
{
    let before = ranking_order();
    assert forall|a: RankedModel, b: RankedModel| #[trigger] before(a, b) implies !before(
        b,
        a,
    ) by {
        ranking_order_is_total(a, b, a);
    }
    assert forall|a: RankedModel, b: RankedModel, c: RankedModel|
        !(#[trigger] before(b, a)) && !(#[trigger] before(c, b)) implies !before(c, a) by {
        ranking_order_is_total(a, b, c);
    }
}

fn before_by_relevance(a: &RankedQueryCandidate, b: &RankedQueryCandidate) -> (r: bool)
    ensures
        r == ranks_before_by_relevance(a@, b@),
{
    if a.relevance_score.ranks_above(&b.relevance_score) {
        return true;
    }
    if b.relevance_score.ranks_above(&a.relevance_score) {
        return false;
    }
    text_before(&a.node.id, &b.node.id)
}

fn is_ranked_before(a: &RankedQueryCandidate, b: &RankedQueryCandidate) -> (r: bool)
    ensures
        r == ranks_before(a@, b@),
{
    if a.exact != b.exact {
        return a.exact;
    }
    match (a.embedding_similarity, b.embedding_similarity) {
        (Some(x), Some(y)) => {
            if x.ranks_above(&y) {
                return true;
            }
            if y.ranks_above(&x) {
                return false;
            }
            before_by_relevance(a, b)
        },
        (None, None) => before_by_relevance(a, b),
        (Some(_), None) => true,
        (None, Some(_)) => false,
    }
}

/// Nodes are taken in order of identity.
pub open spec fn identity_order() -> spec_fn(NodeModel, NodeModel) -> bool {
    |a: NodeModel, b: NodeModel| text_less(a.id, b.id)
}

/// An earlier candidate has the same identity.
pub open spec fn node_repeated(nodes: Seq<NodeModel>, i: int) -> bool {
    exists|j: int| 0 <= j < i && (#[trigger] nodes[j]).id == nodes[i].id
}

/// The budget once the first `k` candidates are charged; a refused charge
/// leaves it as it is.
pub open spec fn budget_after(nodes: Seq<NodeModel>, k: int, budget: RetrievalWorkBudget) ->
    RetrievalWorkBudget
    decreases k,
{
    if k <= 0 {
        budget
    } else {
        let before = budget_after(nodes, k - 1, budget);
        match before.with_candidate_bytes(nodes[k - 1].encoding.node_bytes->0) {
            Ok(after) => after,
            Err(_) => before,
        }
    }
}

/// Candidate `i` is fit, new, and within the budget that the candidates before
/// it leave.
pub open spec fn taken_in(nodes: Seq<NodeModel>, i: int, budget: RetrievalWorkBudget) -> bool {
    &&& rankable(nodes[i])
    &&& !node_repeated(nodes, i)
    &&& budget_after(nodes, i, budget).with_candidate_bytes(
        nodes[i].encoding.node_bytes->0,
    ) is Ok
}

/// The first `i` candidates are taken in and candidate `i` is not.
pub open spec fn first_refused(nodes: Seq<NodeModel>, i: int, budget: RetrievalWorkBudget) -> bool {
    &&& forall|j: int| 0 <= j < i ==> #[trigger] taken_in(nodes, j, budget)
    &&& !taken_in(nodes, i, budget)
}

/// The error reports why candidate `i` is not taken in.
pub open spec fn reports_refused(
    e: ContextQueryRankingError,
    nodes: Seq<NodeModel>,
    i: int,
    budget: RetrievalWorkBudget,
) -> bool {
    if !rankable(nodes[i]) {
        ranked_node_verdict(nodes[i], Err(e))
    } else if node_repeated(nodes, i) {
        e is DuplicateCandidate && e->DuplicateCandidate_node_id@ == nodes[i].id
    } else {
        e == ContextQueryRankingError::Retrieval(
            budget_after(nodes, i, budget).with_candidate_bytes(
                nodes[i].encoding.node_bytes->0,
            )->Err_0,
        )
    }
}

/// What the ranking is waiting for.
#[derive(Debug, Clone, Copy, PartialEq, Eq, Structural)]
pub enum RankingStage {
    /// The next node.
    Node,
    /// The match of the document that was handed out.
    Match,
    /// The similarity of the document that was handed out.
    Similarity { relevance: Relevance },
}

/// What the caller does next.
#[derive(Debug)]
pub enum RankingAction {
    /// Go on: the node is settled.
    Settled,
    /// Match this document against the query.
    MatchDocument(RetrievalDocument),
    /// Embed the document and compare it with the query.
    Embed,
    /// Nothing is left to do.
    Finished,
}

/// A ranking under way.
pub struct ContextRankingWork {
    evaluated_at: Timestamp,
    result_limit: ContextResultLimit,
    embeds: bool,
    pending: Vec<ContextNode>,
    next: usize,
    stage: RankingStage,
    ranked: Vec<RankedQueryCandidate>,
    excluded: Vec<ContextExclusion>,
    settled: Ghost<Seq<RankedModel>>,
}

/// The model of a ranking under way: `ranked_all` are all nodes ranked so far.
pub struct WorkModel {
    pub evaluated_at: Timestamp,
    pub limit: nat,
    pub embeds: bool,
    pub pending: Seq<NodeModel>,
    pub next: int,
    pub stage: RankingStage,
    pub ranked_all: Seq<RankedModel>,
    pub excluded: Seq<ExclusionModel>,
}

/// The best of the ranked nodes, as many as the limit allows.
pub open spec fn best(all: Seq<RankedModel>, limit: nat) -> Seq<RankedModel> {
    let list = arranged(all, ranking_order());
    if list.len() <= limit {
        list
    } else {
        list.take(limit as int)
    }
}

impl WorkModel {
    /// The node in hand.
    pub open spec fn current(self) -> NodeModel {
        self.pending[self.next]
    }

    /// The current node left out.
    pub open spec fn excluding(self, reason: ContextExclusionReason) -> WorkModel {
        WorkModel {
            excluded: self.excluded.push(
                ExclusionModel { node_id: self.current().id, reason, detail: None },
            ),
            next: self.next + 1,
            stage: RankingStage::Node,
            ..self
        }
    }

    /// The current node ranked.
    pub open spec fn ranking(self, relevance: Relevance, similarity: Option<Binary32>) -> WorkModel {
        WorkModel {
            ranked_all: self.ranked_all.push(
                RankedModel {
                    node: self.current(),
                    exact: relevance.exact,
                    similarity,
                    relevance: relevance.score,
                },
            ),
            next: self.next + 1,
            stage: RankingStage::Node,
            ..self
        }
    }

    /// Waiting for something else.
    pub open spec fn awaiting(self, stage: RankingStage) -> WorkModel {
        WorkModel { stage, ..self }
    }

    /// Nodes are taken in order of identity; each one behind is either ranked
    /// or excluded, and the ranked ones are fit and active.
    pub open spec fn well_formed(self) -> bool {
        &&& 0 <= self.next <= self.pending.len()
        &&& !(self.stage is Node) ==> self.next < self.pending.len()
            && self.pending[self.next].active_at(self.evaluated_at)
        &&& self.stage matches RankingStage::Similarity { relevance } ==> self.embeds && (
        relevance.exact || !relevance.score.is_zero_spec())
        &&& forall|i: int, j: int|
            0 <= i < j < self.pending.len() ==> text_less(
                (#[trigger] self.pending[i]).id,
                (#[trigger] self.pending[j]).id,
            )
        &&& forall|i: int| 0 <= i < self.pending.len() ==> rankable(#[trigger] self.pending[i])
        &&& forall|i: int|
            0 <= i < self.ranked_all.len() ==> {
                &&& rankable((#[trigger] self.ranked_all[i]).node)
                &&& self.ranked_all[i].node.active_at(self.evaluated_at)
                &&& self.ranked_all[i].similarity is Some == self.embeds
                &&& self.ranked_all[i].exact || !self.ranked_all[i].relevance.is_zero_spec()
            }
        &&& forall|i: int, j: int|
            0 <= i < self.ranked_all.len() && self.next <= j < self.pending.len() ==> text_less(
                (#[trigger] self.ranked_all[i]).node.id,
                (#[trigger] self.pending[j]).id,
            )
        &&& forall|i: int, j: int|
            0 <= i < self.excluded.len() && self.next <= j < self.pending.len() ==> text_less(
                (#[trigger] self.excluded[i]).node_id,
                (#[trigger] self.pending[j]).id,
            )
        &&& forall|i: int, j: int|
            0 <= i < j < self.ranked_all.len() ==> text_less(
                (#[trigger] self.ranked_all[i]).node.id,
                (#[trigger] self.ranked_all[j]).node.id,
            )
        &&& forall|i: int, j: int|
            0 <= i < j < self.excluded.len() ==> text_less(
                (#[trigger] self.excluded[i]).node_id,
                (#[trigger] self.excluded[j]).node_id,
            )
        &&& forall|i: int, j: int|
            0 <= i < self.ranked_all.len() && 0 <= j < self.excluded.len() ==> (
            #[trigger] self.ranked_all[i]).node.id != (#[trigger] self.excluded[j]).node_id
        &&& self.ranked_all.len() + self.excluded.len() == self.next
    }
}

proof fn lemma_excluding(w: WorkModel, reason: ContextExclusionReason)
    requires
        w.well_formed(),
        w.next < w.pending.len(),
    ensures
        w.excluding(reason).well_formed(),
{
    let n = w.excluding(reason);
    assert forall|i: int, j: int|
        0 <= i < n.ranked_all.len() && 0 <= j < n.excluded.len() implies (
    #[trigger] n.ranked_all[i]).node.id != (#[trigger] n.excluded[j]).node_id by {
        if j == w.excluded.len() {
            text_order_is_total(w.ranked_all[i].node.id, w.pending[w.next].id, w.current().id);
        }
    }
}

proof fn lemma_ranking(w: WorkModel, relevance: Relevance, similarity: Option<Binary32>)
    requires
        w.well_formed(),
        w.next < w.pending.len(),
        w.current().active_at(w.evaluated_at),
        similarity is Some == w.embeds,
        relevance.exact || !relevance.score.is_zero_spec(),
    ensures
        w.ranking(relevance, similarity).well_formed(),
{
    let n = w.ranking(relevance, similarity);
    assert forall|i: int, j: int|
        0 <= i < n.ranked_all.len() && 0 <= j < n.excluded.len() implies (
    #[trigger] n.ranked_all[i]).node.id != (#[trigger] n.excluded[j]).node_id by {
        if i == w.ranked_all.len() {
            text_order_is_total(w.excluded[j].node_id, w.pending[w.next].id, w.current().id);
        }
    }
}

/// Placing one more among the best keeps the best.
proof fn lemma_best_push(all: Seq<RankedModel>, x: RankedModel, limit: nat)
    requires
        limit > 0,
    ensures
        ({
            let list = placed(best(all, limit), x, ranking_order());
            best(all.push(x), limit) == if list.len() > limit {
                list.drop_last()
            } else {
                list
            }
        }),
{
    let before = ranking_order();
    lemma_ranking_order();
    crate::order::arranged_is_an_ordering(all, before);
    let full = arranged(all, before);
    assert(all.push(x).drop_last() =~= all);
    assert(arranged(all.push(x), before) == placed(full, x, before));
    let kept = best(all, limit);
    let list = placed(kept, x, before);
    crate::order::lemma_place_index(full, x, before);
    crate::order::lemma_place_index(kept, x, before);
    if full.len() <= limit {
        if list.len() > limit {
            assert(list.drop_last() =~= list.take(limit as int));
        }
    } else {
        lemma_placed_prefix(full, x, before, limit as int);
        assert(list.drop_last() =~= list.take(limit as int));
    }
}

impl View for ContextRankingWork {
    type V = WorkModel;

    closed spec fn view(&self) -> WorkModel {
        WorkModel {
            evaluated_at: self.evaluated_at,
            limit: self.result_limit.value() as nat,
            embeds: self.embeds,
            pending: nodes_view(self.pending@),
            next: self.next as int,
            stage: self.stage,
            ranked_all: self.settled@,
            excluded: exclusions_view(self.excluded@),
        }
    }
}

impl ContextRankingWork {
    /// The work is well formed and keeps exactly the best of the nodes ranked.
    pub closed spec fn sound(&self) -> bool {
        &&& self@.well_formed()
        &&& self.result_limit.value() > 0
        &&& ranked_view(self.ranked@) == best(self.settled@, self.result_limit.value() as nat)
    }
}

/// The result of taking candidates in.
pub open spec fn intake_outcome(
    mode: RetrievalMode,
    provider_present: bool,
    nodes: Seq<NodeModel>,
    evaluated_at: Timestamp,
    limit: nat,
    budget: RetrievalWorkBudget,
    budget_left: RetrievalWorkBudget,
    r: Result<ContextRankingWork, ContextQueryRankingError>,
) -> bool {
    let counted: int = if nodes.len() > MAX_CANDIDATE_COUNT {
        MAX_CANDIDATE_COUNT as int
    } else {
        nodes.len() as int
    };
    if !provider_fits(mode, provider_present) {
        &&& r is Err
        &&& r->Err_0 == ContextQueryRankingError::ProviderModeMismatch { mode, provider_present }
        &&& budget_left == budget
    } else {
        match r {
            Ok(work) => {
                &&& nodes.len() <= MAX_CANDIDATE_COUNT
                &&& forall|i: int| 0 <= i < nodes.len() ==> #[trigger] taken_in(nodes, i, budget)
                &&& budget_left == budget_after(nodes, nodes.len() as int, budget)
                &&& work.sound()
                &&& work@ == (WorkModel {
                    evaluated_at,
                    limit,
                    embeds: provider_present,
                    pending: arranged(nodes, identity_order()),
                    next: 0,
                    stage: RankingStage::Node,
                    ranked_all: Seq::empty(),
                    excluded: Seq::empty(),
                })
            },
            Err(e) => {
                ||| {
                    &&& nodes.len() > MAX_CANDIDATE_COUNT
                    &&& e == ContextQueryRankingError::Retrieval(
                        RetrievalError::CandidateCountExceeded {
                            actual: (MAX_CANDIDATE_COUNT + 1) as usize,
                            maximum: MAX_CANDIDATE_COUNT,
                        },
                    )
                    &&& {
                        ||| {
                            &&& forall|i: int|
                                0 <= i < counted ==> #[trigger] taken_in(nodes, i, budget)
                            &&& budget_left == budget_after(nodes, counted, budget)
                        }
                        ||| exists|i: int|
                            0 <= i < counted && #[trigger] first_refused(nodes, i, budget)
                                && budget_left == budget_after(nodes, i, budget)
                    }
                }
                ||| nodes.len() <= MAX_CANDIDATE_COUNT && exists|i: int|
                    {
                        &&& 0 <= i < nodes.len()
                        &&& #[trigger] first_refused(nodes, i, budget)
                        &&& reports_refused(e, nodes, i, budget)
                        &&& budget_left == budget_after(nodes, i, budget)
                    }
            },
        }
    }
}

fn is_node_repeated(nodes: &Vec<ContextNode>, i: usize) -> (r: bool)
    requires
        i < nodes@.len(),
    ensures
        r == node_repeated(nodes_view(nodes@), i as int),
{
    let ghost s = nodes_view(nodes@);
    let mut j: usize = 0;
    while j < i
        invariant
            s == nodes_view(nodes@),
            0 <= j <= i < nodes@.len(),
            forall|k: int| 0 <= k < j ==> (#[trigger] s[k]).id != s[i as int].id,
        decreases i - j,
    {
        if same_text(&nodes[j].id, &nodes[i].id) {
            assert(s[j as int].id == s[i as int].id);
            return true;
        }
        j += 1;
    }
    false
}

fn place_node(list: &mut Vec<ContextNode>, x: ContextNode)
    ensures
        nodes_view(final(list)@) == placed(nodes_view(old(list)@), x@, identity_order()),
{
    let mut i: usize = list.len();
    let ghost s = nodes_view(list@);
    let ghost before = identity_order();
    while i > 0 && text_before(&x.id, &list[i - 1].id)
        invariant
            0 <= i <= list@.len(),
            s == nodes_view(list@),
            before == identity_order(),
            forall|j: int| i <= j < s.len() ==> before(x@, #[trigger] s[j]),
        decreases i,
    {
        assert(s[i - 1] == list@[i - 1]@);
        i -= 1;
    }
    proof {
        if i > 0 {
            assert(s[i - 1] == list@[i - 1]@);
        }
        lemma_place_index_is(s, x@, before, i as int);
    }
    list.insert(i, x);
    assert(nodes_view(list@) =~= s.insert(i as int, x@));
}

fn place_ranked(list: &mut Vec<RankedQueryCandidate>, x: RankedQueryCandidate)
    ensures
        ranked_view(final(list)@) == placed(ranked_view(old(list)@), x@, ranking_order()),
{
    let mut i: usize = list.len();
    let ghost s = ranked_view(list@);
    let ghost before = ranking_order();
    while i > 0 && is_ranked_before(&x, &list[i - 1])
        invariant
            0 <= i <= list@.len(),
            s == ranked_view(list@),
            before == ranking_order(),
            forall|j: int| i <= j < s.len() ==> before(x@, #[trigger] s[j]),
        decreases i,
    {
        assert(s[i - 1] == list@[i - 1]@);
        i -= 1;
    }
    proof {
        if i > 0 {
            assert(s[i - 1] == list@[i - 1]@);
        }
        lemma_place_index_is(s, x@, before, i as int);
    }
    list.insert(i, x);
    assert(ranked_view(list@) =~= s.insert(i as int, x@));
}

/// Arranging nodes of distinct identity gives strictly ascending identities.
proof fn lemma_arranged_nodes(nodes: Seq<NodeModel>, budget: RetrievalWorkBudget)
    requires
        forall|i: int| 0 <= i < nodes.len() ==> #[trigger] taken_in(nodes, i, budget),
    ensures
        ({
            let s = arranged(nodes, identity_order());
            &&& s.len() == nodes.len()
            &&& forall|i: int| 0 <= i < s.len() ==> rankable(#[trigger] s[i])
            &&& forall|i: int, j: int|
                0 <= i < j < s.len() ==> text_less((#[trigger] s[i]).id, (#[trigger] s[j]).id)
        }),
{
    let before = identity_order();
    let s = arranged(nodes, before);
    assert(strict_order(before)) by {
        assert forall|a: NodeModel, b: NodeModel| #[trigger] before(a, b) implies !before(
            b,
            a,
        ) by {
            text_order_is_total(a.id, b.id, a.id);
        }
        assert forall|a: NodeModel, b: NodeModel, c: NodeModel|
            !(#[trigger] before(b, a)) && !(#[trigger] before(c, b)) implies !before(c, a) by {
            text_order_is_total(a.id, b.id, c.id);
            text_order_is_total(c.id, a.id, b.id);
            text_order_is_total(b.id, c.id, a.id);
        }
    }
    crate::order::arranged_is_an_ordering(nodes, before);
    let fit = |n: NodeModel| rankable(n);
    assert forall|i: int| 0 <= i < nodes.len() implies fit(#[trigger] nodes[i]) by {
        assert(taken_in(nodes, i, budget));
    }
    lemma_arranged_all(nodes, before, fit);
    let same = |a: NodeModel, b: NodeModel| a.id == b.id;
    assert forall|i: int, j: int| 0 <= i < j < nodes.len() implies !same(
        #[trigger] nodes[i],
        #[trigger] nodes[j],
    ) by {
        assert(taken_in(nodes, j, budget));
        assert(!node_repeated(nodes, j));
    }
    lemma_arranged_distinct(nodes, before, same);
    assert forall|i: int| 0 <= i < s.len() implies rankable(#[trigger] s[i]) by {
        assert(fit(s[i]));
    }
    assert forall|i: int, j: int| 0 <= i < j < s.len() implies text_less(
        (#[trigger] s[i]).id,
        (#[trigger] s[j]).id,
    ) by {
        assert(!before(s[j], s[i]));
        assert(!same(s[i], s[j]));
        text_order_is_total(s[i].id, s[j].id, s[i].id);
    }
}

impl ContextRankingWork {
    /// Takes candidates in: each is checked and charged against the shared
    /// budget before it is kept. The first fault refuses all of them, except
    /// that too many candidates are reported before any other fault.
    pub fn take_in(
        mode: RetrievalMode,
        provider_present: bool,
        candidates: Vec<ContextNode>,
        evaluated_at: Timestamp,
        result_limit: ContextResultLimit,
        budget: &mut RetrievalWorkBudget,
    ) -> (r: Result<ContextRankingWork, ContextQueryRankingError>)
        ensures
            intake_outcome(
                mode,
                provider_present,
                nodes_view(candidates@),
                evaluated_at,
                result_limit.value() as nat,
                *old(budget),
                *final(budget),
                r,
            ),
    {
        match validate_context_query_provider(mode, provider_present) {
            Err(e) => {
                return Err(e);
            },
            Ok(()) => {},
        }
        let limit: usize = result_limit.get();
        let ghost nodes = nodes_view(candidates@);
        let ghost start = *budget;
        let mut pending: Vec<ContextNode> = Vec::new();
        let mut first_error: Option<ContextQueryRankingError> = None;
        let ghost mut failed: int = 0;
        let mut i: usize = 0;
        proof {
            assert(nodes.take(0) =~= Seq::empty());
            assert(nodes_view(pending@) =~= arranged(nodes.take(0), identity_order()));
        }
        while i < candidates.len()
            invariant
                nodes == nodes_view(candidates@),
                0 <= i <= candidates@.len(),
                i <= MAX_CANDIDATE_COUNT,
                provider_fits(mode, provider_present),
                start == *old(budget),
                first_error is None ==> {
                    &&& forall|j: int| 0 <= j < i ==> #[trigger] taken_in(nodes, j, start)
                    &&& *budget == budget_after(nodes, i as int, start)
                    &&& nodes_view(pending@) == arranged(nodes.take(i as int), identity_order())
                },
                first_error matches Some(e) ==> {
                    &&& 0 <= failed < i
                    &&& first_refused(nodes, failed, start)
                    &&& reports_refused(e, nodes, failed, start)
                    &&& *budget == budget_after(nodes, failed, start)
                },
            decreases candidates.len() - i,
        {
            if i >= MAX_CANDIDATE_COUNT {
                return Err(
                    ContextQueryRankingError::Retrieval(
                        RetrievalError::CandidateCountExceeded {
                            actual: MAX_CANDIDATE_COUNT + 1,
                            maximum: MAX_CANDIDATE_COUNT,
                        },
                    ),
                );
            }
            if first_error.is_none() {
                let node = &candidates[i];
                assert(nodes[i as int] == node@);
                let ghost before_budget = *budget;
                match validate_ranked_context_node(node) {
                    Err(e) => {
                        proof {
                            failed = i as int;
                            assert(!taken_in(nodes, failed, start));
                            assert(first_refused(nodes, failed, start));
                        }
                        first_error = Some(e);
                    },
                    Ok(bytes) => {
                        if is_node_repeated(&candidates, i) {
                            proof {
                                failed = i as int;
                                assert(!taken_in(nodes, failed, start));
                                assert(first_refused(nodes, failed, start));
                            }
                            first_error = Some(
                                ContextQueryRankingError::DuplicateCandidate {
                                    node_id: node.id.clone(),
                                },
                            );
                        } else {
                            match budget.charge_candidate_bytes(bytes) {
                                Err(e) => {
                                    proof {
                                        failed = i as int;
                                        assert(!taken_in(nodes, failed, start));
                                        assert(first_refused(nodes, failed, start));
                                    }
                                    first_error = Some(ContextQueryRankingError::Retrieval(e));
                                },
                                Ok(()) => {
                                    proof {
                                        assert(taken_in(nodes, i as int, start));
                                        assert(nodes.take(i + 1).drop_last() =~= nodes.take(
                                            i as int,
                                        ));
                                        assert(nodes.take(i + 1).last() == nodes[i as int]);
                                    }
                                    place_node(&mut pending, node.clone());
                                },
                            }
                        }
                    },
                }
            }
            i += 1;
        }
        if let Some(e) = first_error {
            return Err(e);
        }
        assert(nodes.take(i as int) =~= nodes);
        let work = ContextRankingWork {
            evaluated_at,
            result_limit,
            embeds: provider_present,
            pending,
            next: 0,
            stage: RankingStage::Node,
            ranked: Vec::new(),
            excluded: Vec::new(),
            settled: Ghost(Seq::empty()),
        };
        proof {
            lemma_arranged_nodes(nodes, start);
            assert(work@.excluded =~= Seq::empty());
            assert(ranked_view(work.ranked@) =~= best(Seq::empty(), limit as nat));
            assert(work@.well_formed());
        }
        Ok(work)
    }

    /// Goes on to the next node. An inactive node is left out; an active one is
    /// measured, charged and handed out as a document.
    pub fn advance(&mut self, budget: &mut RetrievalWorkBudget) -> (r: Result<
        RankingAction,
        ContextQueryRankingError,
    >)
        requires
            old(self).sound(),
            old(self)@.stage is Node,
        ensures
            final(self).sound(),
            advance_outcome(old(self)@, *old(budget), final(self)@, *final(budget), r),
    {
        if self.next >= self.pending.len() {
            return Ok(RankingAction::Finished);
        }
        let node = &self.pending[self.next];
        assert(self@.current() == node@);
        if !node.is_valid_at(self.evaluated_at) {
            let exclusion = ContextExclusion {
                node_id: node.id.clone(),
                reason: ContextExclusionReason::DisputedOrExpired,
                detail: None,
            };
            proof {
                lemma_excluding(self@, ContextExclusionReason::DisputedOrExpired);
            }
            self.excluded.push(exclusion);
            self.next = self.next + 1;
            assert(self@.excluded =~= old(self)@.excluding(
                ContextExclusionReason::DisputedOrExpired,
            ).excluded);
            return Ok(RankingAction::Settled);
        }
        let length: usize = match context_retrieval_document_len(node) {
            Err(e) => {
                return Err(ContextQueryRankingError::Retrieval(e));
            },
            Ok(n) => n,
        };
        match budget.charge_document_bytes(length) {
            Err(e) => {
                return Err(ContextQueryRankingError::Retrieval(e));
            },
            Ok(()) => {},
        }
        match context_retrieval_document(node) {
            Err(e) => Err(ContextQueryRankingError::Retrieval(e)),
            Ok(document) => {
                self.stage = RankingStage::Match;
                Ok(RankingAction::MatchDocument(document))
            },
        }
    }

    /// The node whose document was handed out.
    pub fn current_node(&self) -> (node: &ContextNode)
        requires
            self.sound(),
            !(self@.stage is Node),
        ensures
            node@ == self@.current(),
    {
        &self.pending[self.next]
    }

    /// Takes what matching the document gave. A node that is neither named nor
    /// matched is left out; another is embedded where a provider is present,
    /// and ranked at once where none is.
    pub fn admit_match(&mut self, m: &QueryMatch, budget: &mut RetrievalWorkBudget) -> (r: Result<
        RankingAction,
        ContextQueryRankingError,
    >)
        requires
            old(self).sound(),
            old(self)@.stage is Match,
        ensures
            final(self).sound(),
            match_outcome(old(self)@, *m, *old(budget), final(self)@, *final(budget), r),
    {
        let node = &self.pending[self.next];
        assert(self.next < self.pending.len());
        assert(self@.current() == node@);
        match budget.charge_lexical_bytes(byte_len(&node.id)) {
            Err(e) => {
                return Err(ContextQueryRankingError::Retrieval(e));
            },
            Ok(()) => {},
        }
        let relevance: Relevance = match relevance_from_match(m) {
            Err(e) => {
                return Err(ContextQueryRankingError::Retrieval(e));
            },
            Ok(rel) => rel,
        };
        if !relevance.exact && relevance.score.is_zero() {
            let exclusion = ContextExclusion {
                node_id: node.id.clone(),
                reason: ContextExclusionReason::Irrelevant,
                detail: None,
            };
            proof {
                lemma_excluding(self@, ContextExclusionReason::Irrelevant);
            }
            self.excluded.push(exclusion);
            self.next = self.next + 1;
            self.stage = RankingStage::Node;
            assert(self@.excluded =~= old(self)@.excluding(
                ContextExclusionReason::Irrelevant,
            ).excluded);
            return Ok(RankingAction::Settled);
        }
        if self.embeds {
            self.stage = RankingStage::Similarity { relevance };
            return Ok(RankingAction::Embed);
        }
        self.settle_current(relevance, None);
        Ok(RankingAction::Settled)
    }

    fn settle_current(&mut self, relevance: Relevance, similarity: Option<Binary32>)
        requires
            old(self).sound(),
            old(self)@.next < old(self)@.pending.len(),
            old(self)@.current().active_at(old(self)@.evaluated_at),
            similarity is Some == old(self)@.embeds,
            relevance.exact || !relevance.score.is_zero_spec(),
        ensures
            final(self).sound(),
            final(self)@ == old(self)@.ranking(relevance, similarity),
    {
        proof {
            lemma_ranking(self@, relevance, similarity);
        }
        let node = self.pending[self.next].clone();
        assert(self.next < self.pending.len());
        assert(self@.current() == node@);
        let candidate = RankedQueryCandidate {
            node,
            exact: relevance.exact,
            embedding_similarity: similarity,
            relevance_score: relevance.score,
        };
        let limit: usize = self.result_limit.get();
        proof {
            lemma_best_push(self.settled@, candidate@, limit as nat);
        }
        place_ranked(&mut self.ranked, candidate);
        let ghost list = ranked_view(self.ranked@);
        if self.ranked.len() > limit {
            let dropped = self.ranked.pop();
            assert(ranked_view(self.ranked@) =~= list.drop_last());
        }
        self.settled = Ghost(self.settled@.push(candidate@));
        self.next = self.next + 1;
        self.stage = RankingStage::Node;
    }

    /// Takes the similarity of the embedded document and ranks the node.
    pub fn admit_similarity(&mut self, similarity: Binary32)
        requires
            old(self).sound(),
            old(self)@.stage is Similarity,
        ensures
            final(self).sound(),
            final(self)@ == old(self)@.ranking(old(self)@.stage->relevance, Some(similarity)),
    {
        if let RankingStage::Similarity { relevance } = self.stage {
            self.settle_current(relevance, Some(similarity));
        }
    }

    /// Closes the ranking once every node is settled.
    pub fn finish(self) -> (r: ContextQueryRanking)
        requires
            self.sound(),
            self@.stage is Node,
            self@.next == self@.pending.len(),
        ensures
            r.sound(),
            r@.well_formed(),
            r@ == (RankingModel {
                evaluated_at: self@.evaluated_at,
                limit: self@.limit,
                ranked: best(self@.ranked_all, self@.limit),
                excluded: self@.excluded,
            }),
    {
        proof {
            lemma_best_sound(self@);
        }
        ContextQueryRanking {
            evaluated_at: self.evaluated_at,
            result_limit: self.result_limit,
            ranked: self.ranked,
            excluded: self.excluded,
        }
    }
}

/// The result of going on to the next node.
pub open spec fn advance_outcome(
    before: WorkModel,
    budget: RetrievalWorkBudget,
    after: WorkModel,
    budget_left: RetrievalWorkBudget,
    r: Result<RankingAction, ContextQueryRankingError>,
) -> bool {
    if before.next >= before.pending.len() {
        r is Ok && r->Ok_0 is Finished && after == before && budget_left == budget
    } else if !before.current().active_at(before.evaluated_at) {
        &&& r is Ok
        &&& r->Ok_0 is Settled
        &&& after == before.excluding(ContextExclusionReason::DisputedOrExpired)
        &&& budget_left == budget
    } else if document_refusal(before.current()) is Some {
        &&& r is Err
        &&& r->Err_0 == ContextQueryRankingError::Retrieval(document_refusal(before.current())->0)
        &&& after == before
        &&& budget_left == budget
    } else {
        match budget.with_document_bytes(before.current().document_len() as usize) {
            Err(e) => {
                &&& r is Err
                &&& r->Err_0 == ContextQueryRankingError::Retrieval(e)
                &&& after == before
                &&& budget_left == budget
            },
            Ok(charged) => {
                &&& r is Ok
                &&& r->Ok_0 is MatchDocument
                &&& r->Ok_0->MatchDocument_0.text@ == before.current().document()
                &&& after == before.awaiting(RankingStage::Match)
                &&& budget_left == charged
            },
        }
    }
}

/// The result of taking a match.
pub open spec fn match_outcome(
    before: WorkModel,
    m: QueryMatch,
    budget: RetrievalWorkBudget,
    after: WorkModel,
    budget_left: RetrievalWorkBudget,
    r: Result<RankingAction, ContextQueryRankingError>,
) -> bool {
    match budget.with_lexical_bytes(utf8_len(before.current().id) as usize) {
        Err(e) => {
            &&& r is Err
            &&& r->Err_0 == ContextQueryRankingError::Retrieval(e)
            &&& after == before
            &&& budget_left == budget
        },
        Ok(charged) => budget_left == charged && match matched_relevance(m) {
            Err(e) => {
                &&& r is Err
                &&& r->Err_0 == ContextQueryRankingError::Retrieval(e)
                &&& after == before
            },
            Ok(rel) => if !rel.exact && rel.score.is_zero_spec() {
                &&& r is Ok
                &&& r->Ok_0 is Settled
                &&& after == before.excluding(ContextExclusionReason::Irrelevant)
            } else if before.embeds {
                &&& r is Ok
                &&& r->Ok_0 is Embed
                &&& after == before.awaiting(RankingStage::Similarity { relevance: rel })
            } else {
                r is Ok && r->Ok_0 is Settled && after == before.ranking(rel, None)
            },
        },
    }
}

/// A bounded ranking: the best nodes for one query at one time, in order, and
/// the nodes that were left out before ranking.
pub struct ContextQueryRanking {
    evaluated_at: Timestamp,
    result_limit: ContextResultLimit,
    ranked: Vec<RankedQueryCandidate>,
    excluded: Vec<ContextExclusion>,
}

/// The model of a ranking.
pub struct RankingModel {
    pub evaluated_at: Timestamp,
    pub limit: nat,
    pub ranked: Seq<RankedModel>,
    pub excluded: Seq<ExclusionModel>,
}

impl RankingModel {
    /// Ranked nodes are fit, active, in order, of distinct identity and no more
    /// than the limit; no exclusion repeats or names a ranked node.
    pub open spec fn well_formed(self) -> bool {
        &&& self.ranked.len() <= self.limit
        &&& in_order(self.ranked, ranking_order())
        &&& forall|i: int|
            0 <= i < self.ranked.len() ==> {
                &&& rankable((#[trigger] self.ranked[i]).node)
                &&& self.ranked[i].node.active_at(self.evaluated_at)
                &&& self.ranked[i].exact || !self.ranked[i].relevance.is_zero_spec()
            }
        &&& forall|i: int, j: int|
            0 <= i < j < self.ranked.len() ==> (#[trigger] self.ranked[i]).node.id != (
            #[trigger] self.ranked[j]).node.id
        &&& forall|i: int, j: int|
            0 <= i < j < self.excluded.len() ==> text_less(
                (#[trigger] self.excluded[i]).node_id,
                (#[trigger] self.excluded[j]).node_id,
            )
        &&& forall|i: int, j: int|
            0 <= i < self.ranked.len() && 0 <= j < self.excluded.len() ==> (
            #[trigger] self.ranked[i]).node.id != (#[trigger] self.excluded[j]).node_id
    }
}

impl View for ContextQueryRanking {
    type V = RankingModel;

    closed spec fn view(&self) -> RankingModel {
        RankingModel {
            evaluated_at: self.evaluated_at,
            limit: self.result_limit.value() as nat,
            ranked: ranked_view(self.ranked@),
            excluded: exclusions_view(self.excluded@),
        }
    }
}

proof fn lemma_best_sound(w: WorkModel)
    requires
        w.well_formed(),
    ensures
        (RankingModel {
            evaluated_at: w.evaluated_at,
            limit: w.limit,
            ranked: best(w.ranked_all, w.limit),
            excluded: w.excluded,
        }).well_formed(),
{
    let before = ranking_order();
    let all = w.ranked_all;
    let s = arranged(all, before);
    lemma_ranking_order();
    crate::order::arranged_is_an_ordering(all, before);
    let sound = |c: RankedModel|
        {
            &&& rankable(c.node)
            &&& c.node.active_at(w.evaluated_at)
            &&& c.exact || !c.relevance.is_zero_spec()
            &&& forall|j: int|
                0 <= j < w.excluded.len() ==> c.node.id != (#[trigger] w.excluded[j]).node_id
        };
    assert forall|i: int| 0 <= i < all.len() implies sound(#[trigger] all[i]) by {
        assert forall|j: int| 0 <= j < w.excluded.len() implies all[i].node.id != (
        #[trigger] w.excluded[j]).node_id by {
            assert(w.ranked_all[i].node.id != w.excluded[j].node_id);
        }
    }
    lemma_arranged_all(all, before, sound);
    let same = |a: RankedModel, b: RankedModel| a.node.id == b.node.id;
    assert forall|i: int, j: int| 0 <= i < j < all.len() implies !same(
        #[trigger] all[i],
        #[trigger] all[j],
    ) by {
        assert(text_less(w.ranked_all[i].node.id, w.ranked_all[j].node.id));
        text_order_is_total(all[i].node.id, all[j].node.id, all[i].node.id);
    }
    lemma_arranged_distinct(all, before, same);
    let list = best(all, w.limit);
    assert forall|i: int| 0 <= i < list.len() implies sound(#[trigger] list[i]) by {
        assert(sound(s[i]));
        assert(list[i] == s[i]);
    }
    assert forall|i: int, j: int| 0 <= i < j < list.len() implies (#[trigger] list[i]).node.id != (
    #[trigger] list[j]).node.id && !before(list[j], list[i]) by {
        assert(list[i] == s[i] && list[j] == s[j]);
        assert(!same(s[i], s[j]));
        assert(!before(s[j], s[i]));
    }
}

impl ContextQueryRanking {
    /// The ranking is well formed.
    pub closed spec fn sound(&self) -> bool {
        self@.well_formed()
    }

    /// The number of nodes kept under the result limit.
    pub fn len(&self) -> (n: usize)
        ensures
            n == self@.ranked.len(),
    {
        self.ranked.len()
    }

    pub fn is_empty(&self) -> (r: bool)
        ensures
            r == (self@.ranked.len() == 0),
    {
        self.ranked.len() == 0
    }

    /// The most nodes that the ranking could keep.
    pub fn result_limit(&self) -> (n: usize)
        ensures
            n == self@.limit,
    {
        self.result_limit.get()
    }

    /// The number of nodes that were left out before ranking.
    pub fn excluded_count(&self) -> (n: usize)
        ensures
            n == self@.excluded.len(),
    {
        self.excluded.len()
    }

    /// The time at which activity was evaluated.
    pub fn evaluated_at(&self) -> (t: Timestamp)
        ensures
            t == self@.evaluated_at,
    {
        self.evaluated_at
    }
}

impl ContextQueryRanking {
    /// The ranked nodes as candidates for selection, in rank order.
    pub(crate) fn prepared(&self) -> (r: Vec<PreparedCandidate>)
        ensures
            prepared_view(r@) == prepared_ranking(self@.ranked),
    {
        let mut out: Vec<PreparedCandidate> = Vec::new();
        let mut i: usize = 0;
        while i < self.ranked.len()
            invariant
                0 <= i <= self.ranked@.len(),
                out@.len() == i,
                forall|j: int|
                    0 <= j < i ==> (#[trigger] out@[j])@ == prepared_ranked(self.ranked@[j]@),
            decreases self.ranked.len() - i,
        {
            let candidate = &self.ranked[i];
            out.push(
                PreparedCandidate {
                    directive: ContextDirective::Ranked,
                    exact: candidate.exact,
                    score: candidate.relevance_score,
                    token_cost: ContextCapsuleItem::from(&candidate.node).token_cost(),
                    node: candidate.node.clone(),
                },
            );
            i += 1;
        }
        assert(prepared_view(out@) =~= prepared_ranking(self@.ranked));
        out
    }

    /// The nodes that were left out before ranking.
    pub(crate) fn exclusions(&self) -> (r: Vec<ContextExclusion>)
        ensures
            exclusions_view(r@) == self@.excluded,
    {
        copy_exclusions(&self.excluded)
    }
}

/// A ranked node as a candidate for selection.
pub open spec fn prepared_ranked(c: RankedModel) -> PreparedModel {
    PreparedModel {
        directive: DirectiveModel::Ranked,
        exact: c.exact,
        score: c.relevance,
        token_cost: item_of(c.node).cost(),
        node: c.node,
    }
}

/// Ranked nodes as candidates for selection.
pub open spec fn prepared_ranking(list: Seq<RankedModel>) -> Seq<PreparedModel> {
    list.map_values(|c: RankedModel| prepared_ranked(c))
}

} // verus!
