//! What rankings, and checks of compiled context, hold to: told from the fields of
//! the nodes and entries themselves.

use vstd::prelude::*;

use crate::context::capsule::{item_accepted, item_of, items_of, ItemModel};
use crate::context::compiler::ContextCompiler;
use crate::context::independence::lemma_identity_order;
use crate::context::laws::{fitting, left_over, lemma_fitting, nodes_of};
use crate::context::node::{fault_text, lemma_document_len, NodeModel};
use crate::context::outcomes::lemma_left_over_did_not_fit;
use crate::context::ranked::{lemma_ranking_compiled, ranking_compiled};
use crate::context::ranking::{
    advance_outcome, budget_after, first_reference_fault, first_refused, identity_order,
    intake_outcome,
    list_fault, match_outcome, node_repeated, prepared_ranked, prepared_ranking, provider_fits,
    rankable, ranked_node_fault, ranked_node_verdict, ranks_before, reference_fault,
    reports_refused, taken_in, ContextQueryRankingError, ContextRankingWork, RankedModel,
    RankingAction, RankingModel, RankingStage, WorkModel,
};
use crate::context::receipt::{CompiledModel, ContextExclusionReason, EntryModel};
use crate::context::signature::{QueryMatch, Relevance};
use crate::context::validate::{
    compiled_accepted, compiled_verdict, entries_cost, entry_accepted, entry_verdict,
    exclusion_repeated, reason_rank, reports_entry, CompiledContextValidationError, Expectation,
};
use crate::order::arranged_is_an_ordering;
use crate::retrieval::{RetrievalError, RetrievalMode, RetrievalWorkBudget};
use crate::text::{
    blank, cuts_keep_the_longest_beginning, starts_with, text_less, text_order_is_total,
    utf8_len,
};
use crate::time::Timestamp;

verus! {

/// A node that the query names ranks before one that it does not; then the greater
/// similarity ranks first, then the greater score, then the lesser identity. Where
/// only one has a similarity, it ranks first.
pub proof fn rankings_follow_exactness_similarity_and_score(a: RankedModel, b: RankedModel)
    ensures
        a.exact && !b.exact ==> ranks_before(a, b),
        a.exact == b.exact && a.similarity is Some && b.similarity is None ==> ranks_before(a, b),
        a.exact == b.exact && a.similarity is Some && b.similarity is Some
            && a.similarity->0.bits < 0x8000_0000 && (b.similarity->0.bits >= 0x8000_0000
            || b.similarity->0.bits < a.similarity->0.bits) ==> ranks_before(a, b),
        a.exact == b.exact && a.similarity is Some && b.similarity is Some && 0x8000_0000
            <= a.similarity->0.bits < b.similarity->0.bits ==> ranks_before(a, b),
        a.exact == b.exact && a.similarity == b.similarity && a.relevance.bits < 0x8000_0000 && (
        b.relevance.bits >= 0x8000_0000 || b.relevance.bits < a.relevance.bits) ==> ranks_before(
            a,
            b,
        ),
        a.exact == b.exact && a.similarity == b.similarity && 0x8000_0000 <= a.relevance.bits
            < b.relevance.bits ==> ranks_before(a, b),
        a.exact == b.exact && a.similarity == b.similarity && a.relevance == b.relevance ==> (
        ranks_before(a, b) <==> text_less(a.node.id, b.node.id)),
        !(ranks_before(a, b) && ranks_before(b, a)),
{
    text_order_is_total(a.node.id, b.node.id, a.node.id);
}

proof fn lemma_first_fault(
    id: Seq<char>,
    field: Seq<char>,
    values: Seq<Seq<char>>,
    reject_self: bool,
    from: int,
)
    requires
        0 <= from <= values.len(),
    ensures
        first_reference_fault(id, field, values, reject_self, from) is None <==> forall|i: int|
            from <= i < values.len() ==> #[trigger] reference_fault(
                id,
                field,
                values,
                reject_self,
                i,
            ) is None,
    decreases values.len() - from,
{
    if from < values.len() {
        lemma_first_fault(id, field, values, reject_self, from + 1);
        assert(reference_fault(id, field, values, reject_self, from) is None
            || reference_fault(id, field, values, reject_self, from) is Some);
    }
}

/// Each reference says something in at most 256 bytes, and none occurs twice.
pub open spec fn sound_list(values: Seq<Seq<char>>) -> bool {
    &&& forall|i: int|
        0 <= i < values.len() ==> !blank(#[trigger] values[i]) && utf8_len(values[i]) <= 256
    &&& forall|i: int, j: int|
        0 <= i < j < values.len() ==> #[trigger] values[i] != #[trigger] values[j]
}

proof fn lemma_list(
    id: Seq<char>,
    field: Seq<char>,
    values: Seq<Seq<char>>,
    minimum: usize,
    maximum: usize,
    reject_self: bool,
)
    ensures
        list_fault(id, field, values, minimum, maximum, reject_self) is None <==> minimum
            <= values.len() <= maximum && sound_list(values) && (reject_self ==> !values.contains(
            id,
        )),
{
    lemma_first_fault(id, field, values, reject_self, 0);
    if list_fault(id, field, values, minimum, maximum, reject_self) is None {
        assert forall|i: int| 0 <= i < values.len() implies !blank(#[trigger] values[i])
            && utf8_len(values[i]) <= 256 && (reject_self ==> values[i] != id) by {
            assert(reference_fault(id, field, values, reject_self, i) is None);
        }
        assert forall|i: int, j: int| 0 <= i < j < values.len() implies #[trigger] values[i]
            != #[trigger] values[j] by {
            assert(reference_fault(id, field, values, reject_self, j) is None);
        }
    } else if minimum <= values.len() <= maximum && sound_list(values) && (reject_self
        ==> !values.contains(id)) {
        assert forall|i: int| 0 <= i < values.len() implies #[trigger] reference_fault(
            id,
            field,
            values,
            reject_self,
            i,
        ) is None by {
            assert(!blank(values[i]));
            assert(values.contains(values[i]));
        }
    }
}

/// A node is fit for ranking where its identity has at most 256 bytes and its
/// summary at most 65,000, it is valid, it cites between one and 64 sources and
/// supersedes at most 64 nodes by sound references, itself not among them, and its
/// JSON form has at most 131,072 bytes.
pub proof fn fit_nodes_keep_to_limits(n: NodeModel)
    ensures
        rankable(n) <==> {
            &&& utf8_len(n.id) <= 256
            &&& utf8_len(n.summary) <= 65_000
            &&& n.valid()
            &&& 1 <= n.source_event_ids.len() <= 64
            &&& sound_list(n.source_event_ids)
            &&& n.supersedes.len() <= 64
            &&& sound_list(n.supersedes)
            &&& !n.supersedes.contains(n.id)
            &&& n.encoding.node_bytes is Some && n.encoding.node_bytes->0 <= 131_072
        },
{
    lemma_list(n.id, "source_event_ids"@, n.source_event_ids, 1, 64, false);
    lemma_list(n.id, "supersedes"@, n.supersedes, 0, 64, true);
}

/// A check for ranking gives the size of a fit node; an unfit one is refused for
/// its identity, its summary, or with a detail of at most 4,096 bytes.
pub proof fn unfit_nodes_are_refused(n: NodeModel, r: Result<usize, ContextQueryRankingError>)
    requires
        ranked_node_verdict(n, r),
    ensures
        r is Ok <==> rankable(n),
        r is Ok ==> n.encoding.node_bytes == Some(r->Ok_0),
        utf8_len(n.id) > 256 <==> (r matches Err(
            ContextQueryRankingError::CandidateIdTooLong { actual, maximum },
        ) && actual == utf8_len(n.id) && maximum == 256),
        utf8_len(n.id) <= 256 && utf8_len(n.summary) > 65_000 <==> (r matches Err(
            ContextQueryRankingError::CandidateSummaryTooLong { node_id, actual, maximum },
        ) && node_id@ == n.id && actual == utf8_len(n.summary) && maximum == 65_000),
        r matches Err(ContextQueryRankingError::InvalidCandidate { node_id, reason }) ==> node_id@
            == n.id && utf8_len(reason@) <= 4_096,
        r is Err && r->Err_0 is InvalidCandidate && !n.valid() && utf8_len(
            fault_text(n.fault()->0, n),
        ) <= 4_096 ==> r->Err_0->reason@ == fault_text(n.fault()->0, n),
{
    if ranked_node_fault(n) is Some {
        cuts_keep_the_longest_beginning(ranked_node_fault(n)->0, 4_096, 0);
    }
}

/// A query that is only lexical goes without a provider, and one that embeds goes
/// with one.
pub proof fn queries_have_the_provider_they_need(mode: RetrievalMode, present: bool)
    ensures
        provider_fits(mode, present) <==> (mode == RetrievalMode::Embedded && present) || (mode
            == RetrievalMode::LexicalOnly && !present),
{
}

/// The bytes of the first `k` nodes.
pub open spec fn bytes_sum(nodes: Seq<NodeModel>, k: int) -> int
    decreases k,
{
    if k <= 0 {
        0
    } else {
        bytes_sum(nodes, k - 1) + nodes[k - 1].encoding.node_bytes->0
    }
}

proof fn lemma_budget_after(nodes: Seq<NodeModel>, k: int, budget: RetrievalWorkBudget)
    requires
        0 <= k <= nodes.len(),
        budget.max_candidate_bytes < usize::MAX,
        forall|i: int| 0 <= i < k ==> #[trigger] taken_in(nodes, i, budget),
    ensures
        budget_after(nodes, k, budget) == (RetrievalWorkBudget {
            candidate_bytes: budget_after(nodes, k, budget).candidate_bytes,
            ..budget
        }),
        budget_after(nodes, k, budget).candidate_bytes == budget.candidate_bytes + bytes_sum(
            nodes,
            k,
        ),
        k > 0 ==> budget.candidate_bytes + bytes_sum(nodes, k) <= budget.max_candidate_bytes,
    decreases k,
{
    if k > 0 {
        lemma_budget_after(nodes, k - 1, budget);
        assert(taken_in(nodes, k - 1, budget));
    }
}

/// Nodes are taken in for ranking where the query has the provider it needs, there
/// are at most 10,000 of them, each is fit, none repeats the identity of another,
/// and together their bytes fit the budget, which they are charged to.
pub proof fn nodes_taken_in_are_fit_and_few(
    mode: RetrievalMode,
    provider_present: bool,
    nodes: Seq<NodeModel>,
    evaluated_at: Timestamp,
    limit: nat,
    budget: RetrievalWorkBudget,
    budget_left: RetrievalWorkBudget,
    work: ContextRankingWork,
)
    requires
        intake_outcome(
            mode,
            provider_present,
            nodes,
            evaluated_at,
            limit,
            budget,
            budget_left,
            Ok(work),
        ),
        budget.max_candidate_bytes < usize::MAX,
    ensures
        provider_present == (mode == RetrievalMode::Embedded),
        nodes.len() <= 10_000,
        forall|i: int| 0 <= i < nodes.len() ==> rankable(#[trigger] nodes[i]),
        forall|i: int, j: int|
            0 <= i < j < nodes.len() ==> (#[trigger] nodes[i]).id != (#[trigger] nodes[j]).id,
        budget_left.candidate_bytes == budget.candidate_bytes + bytes_sum(
            nodes,
            nodes.len() as int,
        ),
        nodes.len() > 0 ==> budget_left.candidate_bytes <= budget.max_candidate_bytes,
        budget_left.document_bytes == budget.document_bytes,
        budget_left.lexical_bytes == budget.lexical_bytes,
        work@.evaluated_at == evaluated_at,
        work@.limit == limit,
        work@.embeds == provider_present,
        work@.pending.to_multiset() == nodes.to_multiset(),
        work@.ranked_all.len() == 0,
        work@.excluded.len() == 0,
        work@.next == 0,
{
    lemma_budget_after(nodes, nodes.len() as int, budget);
    assert forall|i: int| 0 <= i < nodes.len() implies rankable(#[trigger] nodes[i]) by {
        assert(taken_in(nodes, i, budget));
    }
    assert forall|i: int, j: int| 0 <= i < j < nodes.len() implies (#[trigger] nodes[i]).id != (
    #[trigger] nodes[j]).id by {
        assert(taken_in(nodes, j, budget));
    }
    lemma_identity_order();
    arranged_is_an_ordering(nodes, identity_order());
}

/// Nodes that are fit, distinct, few enough and small enough are taken in.
pub proof fn fit_and_few_nodes_are_taken_in(
    mode: RetrievalMode,
    provider_present: bool,
    nodes: Seq<NodeModel>,
    evaluated_at: Timestamp,
    limit: nat,
    budget: RetrievalWorkBudget,
    budget_left: RetrievalWorkBudget,
    r: Result<ContextRankingWork, ContextQueryRankingError>,
)
    requires
        intake_outcome(
            mode,
            provider_present,
            nodes,
            evaluated_at,
            limit,
            budget,
            budget_left,
            r,
        ),
        budget.max_candidate_bytes < usize::MAX,
        provider_present == (mode == RetrievalMode::Embedded),
        nodes.len() <= 10_000,
        forall|i: int| 0 <= i < nodes.len() ==> rankable(#[trigger] nodes[i]),
        forall|i: int, j: int|
            0 <= i < j < nodes.len() ==> (#[trigger] nodes[i]).id != (#[trigger] nodes[j]).id,
        budget.candidate_bytes + bytes_sum(nodes, nodes.len() as int) <= budget.max_candidate_bytes,
    ensures
        r is Ok,
{
    if let Err(e) = r {
        let i = choose|i: int|
            {
                &&& 0 <= i < nodes.len()
                &&& #[trigger] first_refused(nodes, i, budget)
                &&& reports_refused(e, nodes, i, budget)
            };
        assert(first_refused(nodes, i, budget));
        assert(rankable(nodes[i]));
        if node_repeated(nodes, i) {
            let j = choose|j: int| 0 <= j < i && (#[trigger] nodes[j]).id == nodes[i].id;
            assert(nodes[j].id != nodes[i].id);
        }
        lemma_budget_after(nodes, i, budget);
        lemma_bytes_grow(nodes, i + 1, nodes.len() as int);
        assert(false);
    }
}

proof fn lemma_bytes_grow(nodes: Seq<NodeModel>, k: int, n: int)
    requires
        0 <= k <= n,
    ensures
        bytes_sum(nodes, k) <= bytes_sum(nodes, n),
    decreases n,
{
    if k < n {
        lemma_bytes_grow(nodes, k, n - 1);
    }
}

/// A node in hand is left out as disputed or expired where it is not active, and
/// otherwise its document is handed out and charged by its bytes: nothing else
/// moves. A document of more than 65,536 bytes is refused.
pub proof fn nodes_in_hand_are_looked_at_in_turn(
    before: WorkModel,
    budget: RetrievalWorkBudget,
    after: WorkModel,
    budget_left: RetrievalWorkBudget,
    r: Result<RankingAction, ContextQueryRankingError>,
)
    requires
        advance_outcome(before, budget, after, budget_left, r),
        budget.max_document_bytes < usize::MAX,
        0 <= before.next,
    ensures
        before.next >= before.pending.len() ==> r is Ok && r->Ok_0 is Finished && after == before
            && budget_left == budget,
        before.next < before.pending.len() && !before.pending[before.next].active_at(
            before.evaluated_at,
        ) ==> r is Ok && r->Ok_0 is Settled && after.next == before.next + 1 && after.ranked_all
            == before.ranked_all && after.excluded.len() == before.excluded.len() + 1
            && after.excluded.last().node_id == before.pending[before.next].id
            && after.excluded.last().reason == ContextExclusionReason::DisputedOrExpired
            && budget_left == budget,
        r is Ok && r->Ok_0 is MatchDocument ==> before.pending[before.next].active_at(
            before.evaluated_at,
        ) && after.next == before.next && after.ranked_all == before.ranked_all && after.excluded
            == before.excluded && r->Ok_0->MatchDocument_0.text@ == "id="@
            + before.pending[before.next].id + "\nkind="@
            + before.pending[before.next].kind.token() + "\nsummary="@
            + before.pending[before.next].summary && budget_left.document_bytes
            == budget.document_bytes + utf8_len(r->Ok_0->MatchDocument_0.text@)
            && budget_left.document_bytes <= budget.max_document_bytes && utf8_len(
            r->Ok_0->MatchDocument_0.text@,
        ) <= 65_536 && budget_left.lexical_bytes == budget.lexical_bytes
            && budget_left.candidate_bytes == budget.candidate_bytes,
        r is Ok ==> !(r->Ok_0 is Embed),
        r is Err ==> after == before && budget_left == budget && (utf8_len(
            before.pending[before.next].document(),
        ) > 65_536 || budget.document_bytes + utf8_len(before.pending[before.next].document())
            > budget.max_document_bytes),
{
    if before.next < before.pending.len() {
        lemma_document_len(before.pending[before.next]);
    }
}

/// A match charges the bytes of the node's identity. A node that is neither named
/// nor scored is left out as irrelevant; any other is ranked with its own score, at
/// once where nothing is embedded, and else once its similarity is known.
pub proof fn matches_settle_the_node_in_hand(
    before: WorkModel,
    m: QueryMatch,
    budget: RetrievalWorkBudget,
    after: WorkModel,
    budget_left: RetrievalWorkBudget,
    r: Result<RankingAction, ContextQueryRankingError>,
)
    requires
        match_outcome(before, m, budget, after, budget_left, r),
        budget.max_lexical_bytes < usize::MAX,
        utf8_len(before.current().id) <= 256,
    ensures
        r is Ok ==> m.exact is Ok && budget_left.lexical_bytes == budget.lexical_bytes + utf8_len(
            before.pending[before.next].id,
        ) && budget_left.lexical_bytes <= budget.max_lexical_bytes && budget_left.document_bytes
            == budget.document_bytes && budget_left.candidate_bytes == budget.candidate_bytes,
        r is Ok ==> ({
            let scored = m.lexical_overlap.bits != 0 && m.lexical_overlap.bits != 0x8000_0000;
            let named = m.exact->Ok_0;
            let weightless = m.weighted.bits == 0 || m.weighted.bits == 0x8000_0000;
            &&& !named && (!scored || weightless) ==> r->Ok_0 is Settled && after.next
                == before.next + 1 && after.ranked_all == before.ranked_all
                && after.excluded.len() == before.excluded.len() + 1
                && after.excluded.last().node_id == before.pending[before.next].id
                && after.excluded.last().reason == ContextExclusionReason::Irrelevant
            &&& (named || (scored && !weightless)) && !before.embeds ==> r->Ok_0 is Settled
                && after.next == before.next + 1 && after.excluded == before.excluded
                && after.ranked_all == before.ranked_all.push(
                RankedModel {
                    node: before.pending[before.next],
                    exact: named,
                    similarity: None,
                    relevance: m.weighted,
                },
            )
            &&& (named || (scored && !weightless)) && before.embeds ==> r->Ok_0 is Embed
                && after.next == before.next && after.excluded == before.excluded
                && after.ranked_all == before.ranked_all && after.stage == (
            RankingStage::Similarity { relevance: Relevance { exact: named, score: m.weighted } })
        }),
        r is Err ==> after == before && (m.exact is Err || budget.lexical_bytes + utf8_len(
            before.pending[before.next].id,
        ) > budget.max_lexical_bytes),
{
}

/// What is compiled from a ranking is of the ranking: an included node is one of
/// those ranked, unchanged, for its relevance, with its own score and cost.
pub proof fn compiled_rankings_keep_their_nodes(
    compiler: ContextCompiler,
    ranking: RankingModel,
    token_budget: Option<u32>,
    i: int,
) -> (k: int)
    requires
        0 <= i < ranking_compiled(compiler, ranking, token_budget).nodes.len(),
    ensures
        0 <= k < ranking.ranked.len(),
        ({
            let c = ranking_compiled(compiler, ranking, token_budget);
            &&& c.nodes[i] == ranking.ranked[k].node
            &&& c.receipt.included.len() == c.nodes.len()
            &&& c.receipt.included[i] == (EntryModel {
                node_id: ranking.ranked[k].node.id,
                source_event_ids: ranking.ranked[k].node.source_event_ids,
                epistemic: ranking.ranked[k].node.epistemic,
                reason: "task-relevance"@,
                score: ranking.ranked[k].relevance,
                token_cost: item_of(ranking.ranked[k].node).cost(),
            })
        }),
{
    let list = prepared_ranking(ranking.ranked);
    let budget = compiler.ranked_budget(token_budget);
    lemma_ranking_compiled(compiler, ranking, token_budget);
    lemma_fitting(list, 0, budget);
    let fit = fitting(list, 0, budget);
    assert(list.contains(fit[i]));
    let k = choose|k: int| 0 <= k < list.len() && list[k] == fit[i];
    assert(list[k] == prepared_ranked(ranking.ranked[k]));
    assert(nodes_of(fit)[i] == fit[i].node);
    k
}

/// A ranked node that does not make it into the compiled context would not have
/// fitted: with what is included, it exceeds the caller's budget or the absolute
/// one. The nodes left out before ranking stay left out, in order and first.
pub proof fn compiled_rankings_use_up_their_budget(
    compiler: ContextCompiler,
    ranking: RankingModel,
    token_budget: Option<u32>,
    i: int,
)
    requires
        0 <= i < ranking_compiled(compiler, ranking, token_budget).receipt.excluded.len(),
    ensures
        ({
            let c = ranking_compiled(compiler, ranking, token_budget);
            &&& i < ranking.excluded.len() ==> c.receipt.excluded[i] == ranking.excluded[i]
            &&& i >= ranking.excluded.len() ==> c.receipt.excluded[i].reason
                == ContextExclusionReason::TokenBudget && c.receipt.excluded[i].detail is None
                && exists|k: int|
                {
                    let total = c.receipt.total_token_cost + item_of(
                        (#[trigger] ranking.ranked[k]).node,
                    ).cost();
                    &&& 0 <= k < ranking.ranked.len()
                    &&& ranking.ranked[k].node.id == c.receipt.excluded[i].node_id
                    &&& {
                        ||| total > compiler.absolute_budget
                        ||| token_budget is Some && total > token_budget->0
                        ||| token_budget is None && total > compiler.default_budget
                    }
                }
        }),
{
    let list = prepared_ranking(ranking.ranked);
    let budget = compiler.ranked_budget(token_budget);
    lemma_ranking_compiled(compiler, ranking, token_budget);
    lemma_fitting(list, 0, budget);
    let over = left_over(list, 0, budget);
    let n = ranking.excluded.len() as int;
    if i >= n {
        let p = over[i - n];
        assert(list.contains(p));
        let k = choose|k: int| 0 <= k < list.len() && list[k] == p;
        assert(list[k] == prepared_ranked(ranking.ranked[k]));
        assert(over.contains(p));
        lemma_left_over_did_not_fit(list, 0, budget, p);
        assert(ranking.ranked[k].node.id
            == ranking_compiled(compiler, ranking, token_budget).receipt.excluded[i].node_id);
    }
}

/// A receipt's reason is one of three: relevance, a pin of the user, or a policy
/// with a reason that says something.
pub proof fn receipts_give_one_of_three_reasons(reason: Seq<char>, policy: Seq<char>)
    ensures
        reason_rank("task-relevance"@) == Some(0u8),
        reason_rank("user-pinned"@) == Some(1u8),
        !blank(policy) ==> reason_rank("policy-required: "@ + policy) == Some(2u8),
        blank(policy) ==> reason_rank("policy-required: "@ + policy) is None,
        reason_rank(reason) is Some ==> reason == "task-relevance"@ || reason == "user-pinned"@
            || (starts_with(reason, "policy-required: "@) && !blank(
            reason.skip("policy-required: "@.len() as int),
        )),
{
    reveal_strlit("task-relevance");
    reveal_strlit("user-pinned");
    reveal_strlit("policy-required: ");
    let s = "policy-required: "@ + policy;
    assert(s.take("policy-required: "@.len() as int) =~= "policy-required: "@);
    assert(s.skip("policy-required: "@.len() as int) =~= policy);
    assert("task-relevance"@.len() == 14 && "task-relevance"@[0] == 't');
    assert("user-pinned"@.len() == 11 && "user-pinned"@[0] == 'u');
    assert(s[0] == 'p');
}

/// Compiled context that passes its check is what it says: each entry speaks of the
/// node in its place, which is valid and active and was included under its own
/// score and cost for one of the three reasons; what was ranked scored above zero
/// or is not a number; no identity occurs twice; the budgets are those of the call;
/// and the totals are those of the entries, within the absolute budget.
pub proof fn checked_context_is_what_it_says(
    x: Expectation,
    compiled: CompiledModel,
    items: Seq<ItemModel>,
    r: Result<(), CompiledContextValidationError>,
    i: int,
)
    requires
        compiled_verdict(x, compiled, items, r),
        r is Ok,
    ensures
        compiled.receipt.included.len() == compiled.nodes.len(),
        items.len() == compiled.nodes.len(),
        compiled.receipt.absolute_budget == x.compiler.absolute_budget,
        x.token_budget is Some ==> compiled.receipt.token_budget == x.token_budget->0,
        x.token_budget is None ==> compiled.receipt.token_budget == x.compiler.default_budget,
        compiled.receipt.total_token_cost <= x.compiler.absolute_budget,
        compiled.receipt.total_token_cost == entries_cost(compiled.receipt.included),
        compiled.receipt.over_soft_budget == (compiled.receipt.total_token_cost
            > compiled.receipt.token_budget),
        forall|a: int, b: int|
            0 <= a < b < compiled.receipt.excluded.len() ==> (
            #[trigger] compiled.receipt.excluded[a]).node_id != (
            #[trigger] compiled.receipt.excluded[b]).node_id,
        0 <= i < compiled.nodes.len() ==> {
            let entry = compiled.receipt.included[i];
            let node = compiled.nodes[i];
            &&& node.valid()
            &&& node.active_at(x.accepted_at)
            &&& items[i].as_node().valid()
            &&& items[i].as_node().active_at(x.accepted_at)
            &&& items[i].id == node.id
            &&& items[i].summary == node.summary
            &&& items[i].origin == node.origin
            &&& items[i].epistemic == node.epistemic
            &&& items[i].scope == node.scope
            &&& items[i].kind == node.kind
            &&& items[i].source_event_ids == node.source_event_ids
            &&& items[i].valid_from == node.valid_from
            &&& items[i].valid_until == node.valid_until
            &&& entry.node_id == node.id
            &&& entry.source_event_ids == node.source_event_ids
            &&& entry.epistemic == node.epistemic
            &&& entry.token_cost == items[i].cost()
            &&& x.relevances[i] is Ok
            &&& entry.score == x.relevances[i]->Ok_0.score
            &&& reason_rank(entry.reason) is Some
            &&& entry.reason == "task-relevance"@ ==> 0 < entry.score.bits <= 0x7fff_ffff
                || entry.score.bits > 0xff80_0000
            &&& forall|j: int|
                0 <= j < i ==> (#[trigger] compiled.receipt.included[j]).node_id != entry.node_id
            &&& forall|j: int|
                0 <= j < compiled.receipt.excluded.len() ==> (
                #[trigger] compiled.receipt.excluded[j]).node_id != entry.node_id
        },
        0 < i < compiled.nodes.len() ==> {
            let (a, b) = (compiled.receipt.included[i - 1], compiled.receipt.included[i]);
            let (p, q) = (reason_rank(a.reason)->0, reason_rank(b.reason)->0);
            let (e, f) = (x.relevances[i - 1]->Ok_0.exact, x.relevances[i]->Ok_0.exact);
            &&& p >= q
            &&& p == q && f ==> e
            &&& p == q && e == f && a.score.bits < 0x8000_0000 && b.score.bits < 0x8000_0000
                ==> a.score.bits >= b.score.bits
            &&& p == q && e == f && a.score == b.score ==> !text_less(b.node_id, a.node_id)
        },
{
    assert(compiled_accepted(x, compiled, items));
    assert forall|a: int, b: int| 0 <= a < b < compiled.receipt.excluded.len() implies (
    #[trigger] compiled.receipt.excluded[a]).node_id != (
    #[trigger] compiled.receipt.excluded[b]).node_id by {
        assert(!exclusion_repeated(compiled.receipt.excluded, b));
    }
    if 0 <= i < compiled.nodes.len() {
        assert(entry_accepted(x, compiled, items, i));
        assert(items_of(compiled.nodes)[i].same_content(items[i]));
        assert(item_accepted(items[i], x.accepted_at));
        if i > 0 {
            assert(entry_accepted(x, compiled, items, i - 1));
        }
    }
}

/// A refused check names a fault that the compiled context has.
pub proof fn refused_checks_name_a_fault(
    x: Expectation,
    compiled: CompiledModel,
    items: Seq<ItemModel>,
    e: CompiledContextValidationError,
)
    requires
        compiled_verdict(
            x,
            compiled,
            items,
            Err::<(), CompiledContextValidationError>(e),
        ),
    ensures
        e is NodeReceiptLengthMismatch ==> !(compiled.nodes.len()
            == compiled.receipt.included.len() && compiled.nodes.len() == items.len()),
        e matches CompiledContextValidationError::BudgetMismatch {
            expected_token_budget,
            actual_token_budget,
            expected_absolute_budget,
            actual_absolute_budget,
        } ==> expected_absolute_budget == x.compiler.absolute_budget && actual_absolute_budget
            == compiled.receipt.absolute_budget && actual_token_budget
            == compiled.receipt.token_budget && (actual_token_budget != expected_token_budget
            || actual_absolute_budget != expected_absolute_budget),
        e matches CompiledContextValidationError::NodeNotValidAt { node_id } ==> exists|i: int|
            0 <= i < compiled.nodes.len() && (#[trigger] compiled.nodes[i]).id == node_id@
                && compiled.nodes[i].valid() && !compiled.nodes[i].active_at(x.accepted_at),
        e matches CompiledContextValidationError::InvalidNode { node_id, reason } ==> exists|i: int|
            0 <= i < compiled.nodes.len() && (#[trigger] compiled.nodes[i]).id == node_id@
                && !compiled.nodes[i].valid(),
        e matches CompiledContextValidationError::TokenCostMismatch { node_id, expected, actual }
            ==> expected != actual && exists|i: int|
            0 <= i < compiled.nodes.len() && (#[trigger] compiled.nodes[i]).id == node_id@
                && expected == items[i].cost() && actual
                == compiled.receipt.included[i].token_cost,
        e matches CompiledContextValidationError::ScoreMismatch { node_id } ==> exists|i: int|
            0 <= i < compiled.nodes.len() && (#[trigger] compiled.nodes[i]).id == node_id@
                && x.relevances[i] is Ok && compiled.receipt.included[i].score
                != x.relevances[i]->Ok_0.score,
        e matches CompiledContextValidationError::NonPositiveTaskRelevance { node_id } ==> exists|
            i: int,
        |
            0 <= i < compiled.nodes.len() && (#[trigger] compiled.nodes[i]).id == node_id@
                && compiled.receipt.included[i].reason == "task-relevance"@ && (
            compiled.receipt.included[i].score.bits == 0 || 0x8000_0000
                <= compiled.receipt.included[i].score.bits <= 0xff80_0000),
        e matches CompiledContextValidationError::Retrieval(error) ==> exists|i: int|
            0 <= i < compiled.nodes.len() && (#[trigger] compiled.nodes[i]).valid()
                && x.relevances[i] == Err::<Relevance, RetrievalError>(error),
        e matches CompiledContextValidationError::RequiredSelectionBudgetExceeded {
            used,
            absolute_budget,
        } ==> absolute_budget == x.compiler.absolute_budget && used > absolute_budget,
        e matches CompiledContextValidationError::SelectionBudgetExceeded {
            node_id,
            used,
            token_budget,
        } ==> token_budget <= x.compiler.absolute_budget && (x.token_budget is Some
            ==> token_budget <= x.token_budget->0) && exists|i: int|
            0 <= i < compiled.nodes.len() && (#[trigger] compiled.nodes[i]).id == node_id@
                && compiled.receipt.included[i].reason == "task-relevance"@,
{
    reveal_strlit("task-relevance");
    reveal_strlit("user-pinned");
    if exists|i: int| #[trigger] reports_entry(x, compiled, items, i, e) {
        let i = choose|i: int| #[trigger] reports_entry(x, compiled, items, i, e);
        assert(entry_verdict(
            x,
            compiled,
            items,
            i,
            Err::<(), CompiledContextValidationError>(e),
        ));
        assert(compiled.nodes[i].id == compiled.nodes[i].id);
    }
}

} // verus!
