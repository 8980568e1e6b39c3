//! Compiling a ranking under a token budget, and checking the result against
//! the ranking that authorized it.

use vstd::prelude::*;

use crate::context::capsule::{
    item_accepted, item_of, items_cost, items_of, projection_keeps_validity, same_items,
    ContextCapsule, ItemModel,
};
use crate::context::compiler::{ContextCompileError, ContextCompiler};
use crate::context::laws::{
    budget_exclusions, entries_of, fitting, left_over, lemma_fitting, lemma_including_fitting,
    lemma_items_cost, nodes_of, spent,
};
use crate::context::node::valid_node_equals_itself;
use crate::context::ranking::{
    prepared_ranked, prepared_ranking, rankable, ContextQueryRanking, RankingModel,
};
use crate::context::receipt::{
    exclusions_view, CompiledContext, CompiledModel, ContextExclusion, ExclusionModel,
};
use crate::context::selection::{unselected, PreparedModel, SelectionBuilder};
use crate::context::validate::{
    check_exclusions, entry_repeated, exclusion_repeated, exclusions_distinct, exclusions_verdict,
    frame_accepted, frame_verdict, is_entry_repeated, CompiledContextValidationError,
};
use crate::text::{
    same_optional_text, same_text, same_texts, text_less, text_order_is_total,
};

verus! {

/// The compiled context of a ranking: the ranked nodes in order as far as they
/// fit; one that does not fit is left out and later ones may still fill the
/// budget.
pub open spec fn ranking_compiled(
    compiler: ContextCompiler,
    ranking: RankingModel,
    token_budget: Option<u32>,
) -> CompiledModel {
    unselected(ranking.excluded).including_fitting(
        prepared_ranking(ranking.ranked),
        compiler.ranked_budget(token_budget),
    ).compiled(compiler.soft_budget(token_budget), compiler.absolute_budget)
}

/// The result of checking entry `i` against the expected selection.
pub open spec fn ranked_entry_verdict(
    compiled: CompiledModel,
    expected: CompiledModel,
    i: int,
    r: Result<(), CompiledContextValidationError>,
) -> bool {
    let node = compiled.nodes[i];
    let entry = compiled.receipt.included[i];
    let wanted = expected.receipt.included[i];
    if entry_repeated(compiled, i) {
        &&& r is Err
        &&& r->Err_0 is DuplicateReceiptId
        &&& r->Err_0->DuplicateReceiptId_node_id@ == entry.node_id
    } else if node.id != expected.nodes[i].id {
        &&& r is Err
        &&& r->Err_0 is NonCanonicalOrder
        &&& r->Err_0->NonCanonicalOrder_node_id@ == node.id
    } else if !node.same_content(expected.nodes[i]) || entry.node_id != node.id || entry.node_id
        != wanted.node_id || entry.source_event_ids != node.source_event_ids
        || entry.source_event_ids != wanted.source_event_ids || entry.epistemic != node.epistemic
        || entry.epistemic != wanted.epistemic {
        &&& r is Err
        &&& r->Err_0 is ReceiptNodeMismatch
        &&& r->Err_0->ReceiptNodeMismatch_node_id@ == node.id
    } else if entry.reason != wanted.reason {
        &&& r is Err
        &&& r->Err_0 is InvalidReceiptReason
        &&& r->Err_0->InvalidReceiptReason_node_id@ == node.id
        &&& r->Err_0->InvalidReceiptReason_reason@ == entry.reason
    } else if entry.score != wanted.score {
        r is Err && r->Err_0 is ScoreMismatch && r->Err_0->ScoreMismatch_node_id@ == node.id
    } else if entry.token_cost != wanted.token_cost {
        &&& r is Err
        &&& r->Err_0 is TokenCostMismatch
        &&& r->Err_0->TokenCostMismatch_node_id@ == node.id
        &&& r->Err_0->TokenCostMismatch_expected == wanted.token_cost
        &&& r->Err_0->TokenCostMismatch_actual == entry.token_cost
    } else {
        r is Ok
    }
}

/// Entry `i` is the expected one.
pub open spec fn ranked_entry_accepted(
    compiled: CompiledModel,
    expected: CompiledModel,
    i: int,
) -> bool {
    ranked_entry_verdict(compiled, expected, i, Ok(()))
}

/// The error reports entry `i`, the first that is not the expected one.
pub open spec fn reports_ranked_entry(
    compiled: CompiledModel,
    expected: CompiledModel,
    i: int,
    e: CompiledContextValidationError,
) -> bool {
    &&& 0 <= i < compiled.nodes.len()
    &&& forall|j: int| 0 <= j < i ==> #[trigger] ranked_entry_accepted(compiled, expected, j)
    &&& !ranked_entry_accepted(compiled, expected, i)
    &&& ranked_entry_verdict(compiled, expected, i, Err(e))
}

/// The exclusions first differ at `i`.
pub open spec fn exclusions_differ_at(
    actual: Seq<ExclusionModel>,
    expected: Seq<ExclusionModel>,
    i: int,
) -> bool {
    if actual.len() != expected.len() {
        i == if actual.len() < expected.len() {
            actual.len() as int
        } else {
            expected.len() as int
        }
    } else {
        &&& 0 <= i < actual.len()
        &&& actual.take(i) == expected.take(i)
        &&& actual[i] != expected[i]
    }
}

/// The totals are the expected ones.
pub open spec fn ranked_accounts(
    compiled: CompiledModel,
    expected: CompiledModel,
    items: Seq<ItemModel>,
) -> bool {
    &&& compiled.receipt.total_token_cost == expected.receipt.total_token_cost
    &&& compiled.receipt.over_soft_budget == expected.receipt.over_soft_budget
    &&& items_cost(items) == expected.receipt.total_token_cost
}

/// Every check against the ranking passes.
pub open spec fn ranked_accepted(
    compiler: ContextCompiler,
    ranking: RankingModel,
    token_budget: Option<u32>,
    compiled: CompiledModel,
    items: Seq<ItemModel>,
) -> bool {
    let expected = ranking_compiled(compiler, ranking, token_budget);
    &&& frame_accepted(compiler, token_budget, ranking.evaluated_at, compiled, items)
    &&& compiled.nodes.len() == expected.nodes.len()
    &&& exclusions_distinct(compiled.receipt.excluded)
    &&& forall|i: int|
        0 <= i < compiled.nodes.len() ==> #[trigger] ranked_entry_accepted(compiled, expected, i)
    &&& compiled.receipt.excluded == expected.receipt.excluded
    &&& ranked_accounts(compiled, expected, items)
}

/// The result of checking compiled context against a ranking: the frame, the
/// length, repeated exclusions, the entries, the exclusions, the totals.
pub open spec fn ranked_verdict(
    compiler: ContextCompiler,
    ranking: RankingModel,
    token_budget: Option<u32>,
    compiled: CompiledModel,
    items: Seq<ItemModel>,
    r: Result<(), CompiledContextValidationError>,
) -> bool {
    let expected = ranking_compiled(compiler, ranking, token_budget);
    if !frame_accepted(compiler, token_budget, ranking.evaluated_at, compiled, items) {
        frame_verdict(compiler, token_budget, ranking.evaluated_at, compiled, items, r)
    } else if compiled.nodes.len() != expected.nodes.len() {
        &&& r is Err
        &&& r->Err_0 is RankedSelectionLengthMismatch
        &&& r->Err_0->RankedSelectionLengthMismatch_expected == expected.nodes.len()
        &&& r->Err_0->RankedSelectionLengthMismatch_actual == compiled.nodes.len()
    } else if !exclusions_distinct(compiled.receipt.excluded) {
        r is Err && exclusions_verdict(compiled.receipt.excluded, r)
    } else {
        match r {
            Ok(_) => ranked_accepted(compiler, ranking, token_budget, compiled, items),
            Err(e) => {
                ||| exists|i: int| #[trigger] reports_ranked_entry(compiled, expected, i, e)
                ||| {
                    &&& forall|i: int|
                        0 <= i < compiled.nodes.len() ==> #[trigger] ranked_entry_accepted(
                            compiled,
                            expected,
                            i,
                        )
                    &&& if compiled.receipt.excluded != expected.receipt.excluded {
                        e is ExclusionReceiptMismatch && exclusions_differ_at(
                            compiled.receipt.excluded,
                            expected.receipt.excluded,
                            e->index as int,
                        )
                    } else {
                        &&& !ranked_accounts(compiled, expected, items)
                        &&& e == CompiledContextValidationError::TokenAccountingMismatch {
                            expected: expected.receipt.total_token_cost,
                            actual: compiled.receipt.total_token_cost,
                        }
                    }
                }
            },
        }
    }
}

fn same_exclusion(a: &ContextExclusion, b: &ContextExclusion) -> (r: bool)
    ensures
        r == (a@ == b@),
{
    same_text(&a.node_id, &b.node_id) && a.reason == b.reason && same_optional_text(
        &a.detail,
        &b.detail,
    )
}

/// Where two lists of exclusions first differ.
fn first_difference(actual: &Vec<ContextExclusion>, expected: &Vec<ContextExclusion>) -> (r: Option<
    usize,
>)
    ensures
        match r {
            None => exclusions_view(actual@) == exclusions_view(expected@),
            Some(i) => exclusions_view(actual@) != exclusions_view(expected@)
                && exclusions_differ_at(
                exclusions_view(actual@),
                exclusions_view(expected@),
                i as int,
            ),
        },
{
    let ghost a = exclusions_view(actual@);
    let ghost b = exclusions_view(expected@);
    if actual.len() != expected.len() {
        assert(a.len() != b.len());
        return Some(
            if actual.len() < expected.len() {
                actual.len()
            } else {
                expected.len()
            },
        );
    }
    let mut i: usize = 0;
    while i < actual.len()
        invariant
            a == exclusions_view(actual@),
            b == exclusions_view(expected@),
            a.len() == b.len(),
            0 <= i <= actual@.len(),
            a.take(i as int) =~= b.take(i as int),
        decreases actual.len() - i,
    {
        assert(a[i as int] == actual@[i as int]@);
        assert(b[i as int] == expected@[i as int]@);
        if !same_exclusion(&actual[i], &expected[i]) {
            return Some(i);
        }
        assert(a.take(i + 1) =~= a.take(i as int).push(a[i as int]));
        assert(b.take(i + 1) =~= b.take(i as int).push(b[i as int]));
        i += 1;
    }
    assert(a.take(i as int) =~= a);
    assert(b.take(i as int) =~= b);
    None
}

fn check_ranked_entry(compiled: &CompiledContext, expected: &CompiledContext, i: usize) -> (r:
    Result<(), CompiledContextValidationError>)
    requires
        i < compiled.nodes@.len(),
        compiled.nodes@.len() == compiled.receipt.included@.len(),
        compiled.nodes@.len() == expected.nodes@.len(),
        compiled.nodes@.len() == expected.receipt.included@.len(),
    ensures
        ranked_entry_verdict(compiled@, expected@, i as int, r),
{
    let node = &compiled.nodes[i];
    let entry = &compiled.receipt.included[i];
    let expected_node = &expected.nodes[i];
    let wanted = &expected.receipt.included[i];
    assert(compiled@.nodes[i as int] == node@);
    assert(compiled@.receipt.included[i as int] == entry@);
    assert(expected@.nodes[i as int] == expected_node@);
    assert(expected@.receipt.included[i as int] == wanted@);
    if is_entry_repeated(compiled, i) {
        return Err(
            CompiledContextValidationError::DuplicateReceiptId { node_id: entry.node_id.clone() },
        );
    }
    if !same_text(&node.id, &expected_node.id) {
        return Err(CompiledContextValidationError::NonCanonicalOrder { node_id: node.id.clone() });
    }
    if !node.content_equals(expected_node) || !same_text(&entry.node_id, &node.id) || !same_text(
        &entry.node_id,
        &wanted.node_id,
    ) || !same_texts(&entry.source_event_ids, &node.source_event_ids) || !same_texts(
        &entry.source_event_ids,
        &wanted.source_event_ids,
    ) || entry.epistemic != node.epistemic || entry.epistemic != wanted.epistemic {
        return Err(
            CompiledContextValidationError::ReceiptNodeMismatch { node_id: node.id.clone() },
        );
    }
    if !same_text(&entry.reason, &wanted.reason) {
        return Err(
            CompiledContextValidationError::InvalidReceiptReason {
                node_id: node.id.clone(),
                reason: entry.reason.clone(),
            },
        );
    }
    if entry.score.to_bits() != wanted.score.to_bits() {
        return Err(CompiledContextValidationError::ScoreMismatch { node_id: node.id.clone() });
    }
    if entry.token_cost != wanted.token_cost {
        return Err(
            CompiledContextValidationError::TokenCostMismatch {
                node_id: node.id.clone(),
                expected: wanted.token_cost,
                actual: entry.token_cost,
            },
        );
    }
    Ok(())
}

impl ContextCompiler {
    /// Compiles a ranking under the requested token budget. It never fails.
    pub fn compile_ranked_query(
        &self,
        ranking: &ContextQueryRanking,
        token_budget: Option<u32>,
    ) -> (r: Result<CompiledContext, ContextCompileError>)
        ensures
            r is Ok,
            r->Ok_0@ == ranking_compiled(*self, ranking@, token_budget),
    {
        Ok(self.compile_ranked_query_inner(ranking, token_budget))
    }

    fn compile_ranked_query_inner(
        &self,
        ranking: &ContextQueryRanking,
        token_budget: Option<u32>,
    ) -> (r: CompiledContext)
        ensures
            r@ == ranking_compiled(*self, ranking@, token_budget),
    {
        let prepared = ranking.prepared();
        let mut selection = SelectionBuilder::new(ranking.exclusions());
        selection.take_fitting(&prepared, self.selection_budget(token_budget));
        selection.finish(self.expected_token_budget(token_budget), self.absolute_budget)
    }

    /// Validates a compiled result against the exact ranking that authorized
    /// it.
    pub fn validate_compiled_ranked_query(
        &self,
        ranking: &ContextQueryRanking,
        compiled: &CompiledContext,
        capsule: &ContextCapsule,
        token_budget: Option<u32>,
    ) -> (r: Result<(), CompiledContextValidationError>)
        ensures
            ranked_verdict(*self, ranking@, token_budget, compiled@, capsule@, r),
    {
        let framed = self.check_frame(compiled, capsule, token_budget, ranking.evaluated_at());
        if framed.is_err() {
            return framed;
        }
        let expected = self.compile_ranked_query_inner(ranking, token_budget);
        proof {
            lemma_ranking_compiled(*self, ranking@, token_budget);
        }
        assert(expected.nodes@.len() == expected@.nodes.len());
        assert(expected.receipt.included@.len() == expected@.receipt.included.len());
        if compiled.nodes.len() != expected.nodes.len() {
            return Err(
                CompiledContextValidationError::RankedSelectionLengthMismatch {
                    expected: expected.nodes.len(),
                    actual: compiled.nodes.len(),
                },
            );
        }
        let distinct = check_exclusions(&compiled.receipt.excluded);
        if distinct.is_err() {
            proof {
                let s = compiled@.receipt.excluded;
                let i = choose|i: int|
                    {
                        &&& 0 <= i < s.len()
                        &&& #[trigger] exclusion_repeated(s, i)
                    };
                assert(exclusion_repeated(s, i));
                assert(!exclusions_distinct(s));
            }
            return distinct;
        }
        let mut i: usize = 0;
        while i < compiled.nodes.len()
            invariant
                frame_accepted(
                    *self,
                    token_budget,
                    ranking@.evaluated_at,
                    compiled@,
                    capsule@,
                ),
                expected@ == ranking_compiled(*self, ranking@, token_budget),
                exclusions_distinct(compiled@.receipt.excluded),
                compiled.nodes@.len() == compiled.receipt.included@.len(),
                compiled.nodes@.len() == expected.nodes@.len(),
                compiled.nodes@.len() == expected.receipt.included@.len(),
                0 <= i <= compiled.nodes@.len(),
                forall|j: int|
                    0 <= j < i ==> #[trigger] ranked_entry_accepted(compiled@, expected@, j),
            decreases compiled.nodes.len() - i,
        {
            match check_ranked_entry(compiled, &expected, i) {
                Err(e) => {
                    assert(reports_ranked_entry(compiled@, expected@, i as int, e));
                    return Err(e);
                },
                Ok(()) => {},
            }
            assert(ranked_entry_accepted(compiled@, expected@, i as int));
            i += 1;
        }
        if let Some(index) = first_difference(
            &compiled.receipt.excluded,
            &expected.receipt.excluded,
        ) {
            return Err(CompiledContextValidationError::ExclusionReceiptMismatch { index });
        }
        if compiled.receipt.total_token_cost != expected.receipt.total_token_cost
            || compiled.receipt.over_soft_budget != expected.receipt.over_soft_budget
            || capsule.token_cost() != expected.receipt.total_token_cost {
            return Err(
                CompiledContextValidationError::TokenAccountingMismatch {
                    expected: expected.receipt.total_token_cost,
                    actual: compiled.receipt.total_token_cost,
                },
            );
        }
        Ok(())
    }
}

/// The selection of a ranking, as the candidates that fit and those that do
/// not.
pub proof fn lemma_ranking_compiled(
    compiler: ContextCompiler,
    ranking: RankingModel,
    token_budget: Option<u32>,
)
    ensures
        ({
            let c = ranking_compiled(compiler, ranking, token_budget);
            let list = prepared_ranking(ranking.ranked);
            let budget = compiler.ranked_budget(token_budget);
            &&& c.nodes == nodes_of(fitting(list, 0, budget))
            &&& c.receipt.included == entries_of(fitting(list, 0, budget))
            &&& c.receipt.excluded == ranking.excluded + budget_exclusions(
                left_over(list, 0, budget),
            )
            &&& c.receipt.total_token_cost == spent(0, fitting(list, 0, budget))
            &&& c.nodes.len() == c.receipt.included.len()
        }),
{
    let start = unselected(ranking.excluded);
    let list = prepared_ranking(ranking.ranked);
    let budget = compiler.ranked_budget(token_budget);
    lemma_including_fitting(start, list, budget);
    let c = ranking_compiled(compiler, ranking, token_budget);
    assert(c.nodes =~= nodes_of(fitting(list, 0, budget)));
    assert(c.receipt.included =~= entries_of(fitting(list, 0, budget)));
}

/// What fits and what does not fit have distinct identities, apart and
/// together.
proof fn lemma_ranked_distinct(list: Seq<PreparedModel>, budget: u32)
    requires
        crate::context::laws::distinct(list),
    ensures
        crate::context::laws::distinct(fitting(list, 0, budget)),
        crate::context::laws::distinct(left_over(list, 0, budget)),
        crate::context::laws::disjoint(fitting(list, 0, budget), left_over(list, 0, budget)),
    decreases list.len(),
{
    if list.len() > 0 {
        let rest = list.drop_last();
        let x = list.last();
        assert forall|i: int, j: int| 0 <= i < j < rest.len() implies (#[trigger] rest[i]).node.id
            != (#[trigger] rest[j]).node.id by {
            assert(list[i].node.id != list[j].node.id);
        }
        lemma_ranked_distinct(rest, budget);
        lemma_fitting(rest, 0, budget);
        let fit = fitting(rest, 0, budget);
        let over = left_over(rest, 0, budget);
        assert forall|i: int| 0 <= i < fit.len() implies (#[trigger] fit[i]).node.id
            != x.node.id by {
            assert(rest.contains(fit[i]));
            let k = choose|k: int| 0 <= k < rest.len() && rest[k] == fit[i];
            assert(list[k].node.id != list[list.len() - 1].node.id);
        }
        assert forall|i: int| 0 <= i < over.len() implies (#[trigger] over[i]).node.id
            != x.node.id by {
            assert(rest.contains(over[i]));
            let k = choose|k: int| 0 <= k < rest.len() && rest[k] == over[i];
            assert(list[k].node.id != list[list.len() - 1].node.id);
        }
    }
}

/// The context compiled from a ranking stays within both budgets.
pub proof fn ranked_compilation_respects_budgets(
    compiler: ContextCompiler,
    ranking: RankingModel,
    token_budget: Option<u32>,
)
    ensures
        ranking_compiled(compiler, ranking, token_budget).receipt.total_token_cost
            <= compiler.ranked_budget(token_budget),
        !ranking_compiled(compiler, ranking, token_budget).receipt.over_soft_budget,
        ranking_compiled(compiler, ranking, token_budget).nodes.len() <= ranking.ranked.len(),
{
    let list = prepared_ranking(ranking.ranked);
    lemma_ranking_compiled(compiler, ranking, token_budget);
    lemma_fitting(list, 0, compiler.ranked_budget(token_budget));
}

/// Validation accepts what was compiled from the ranking.
pub proof fn ranked_compilation_is_accepted(
    compiler: ContextCompiler,
    ranking: RankingModel,
    token_budget: Option<u32>,
)
    requires
        ranking.well_formed(),
    ensures
        ranked_accepted(
            compiler,
            ranking,
            token_budget,
            ranking_compiled(compiler, ranking, token_budget),
            items_of(ranking_compiled(compiler, ranking, token_budget).nodes),
        ),
{
    let c = ranking_compiled(compiler, ranking, token_budget);
    let items = items_of(c.nodes);
    let now = ranking.evaluated_at;
    let all = prepared_ranking(ranking.ranked);
    let budget = compiler.ranked_budget(token_budget);
    let list = fitting(all, 0, budget);
    let over = left_over(all, 0, budget);
    lemma_ranking_compiled(compiler, ranking, token_budget);
    lemma_fitting(all, 0, budget);
    assert(crate::context::laws::distinct(all)) by {
        assert forall|i: int, j: int| 0 <= i < j < all.len() implies (#[trigger] all[i]).node.id
            != (#[trigger] all[j]).node.id by {
            assert(ranking.ranked[i].node.id != ranking.ranked[j].node.id);
        }
    }
    lemma_ranked_distinct(all, budget);
    assert forall|p: PreparedModel| #[trigger] all.contains(p) implies {
        &&& p.node.valid()
        &&& p.node.active_at(now)
        &&& p.token_cost == item_of(p.node).cost()
        &&& forall|j: int|
            0 <= j < ranking.excluded.len() ==> p.node.id != (
            #[trigger] ranking.excluded[j]).node_id
    } by {
        let k = choose|k: int| 0 <= k < all.len() && all[k] == p;
        assert(p == prepared_ranked(ranking.ranked[k]));
        assert(rankable(ranking.ranked[k].node));
        assert forall|j: int| 0 <= j < ranking.excluded.len() implies p.node.id != (
        #[trigger] ranking.excluded[j]).node_id by {
            assert(ranking.ranked[k].node.id != ranking.excluded[j].node_id);
        }
    }
    assert forall|i: int| 0 <= i < list.len() implies (#[trigger] list[i]).token_cost == item_of(
        list[i].node,
    ).cost() by {
        assert(all.contains(list[i]));
    }
    lemma_items_cost(list);
    assert(items =~= items_of(nodes_of(list)));
    assert forall|i: int| 0 <= i < items.len() implies item_accepted(#[trigger] items[i], now) by {
        assert(all.contains(list[i]));
        projection_keeps_validity(list[i].node, now);
    }
    assert(same_items(items, items)) by {
        assert forall|i: int| 0 <= i < items.len() implies #[trigger] items[i].same_content(
            items[i],
        ) by {
            assert(all.contains(list[i]));
            valid_node_equals_itself(list[i].node);
        }
    }
    ranked_compilation_respects_budgets(compiler, ranking, token_budget);
    let early = ranking.excluded;
    let excluded = c.receipt.excluded;
    assert forall|i: int, j: int| 0 <= j < i < excluded.len() implies (
    #[trigger] excluded[j]).node_id != (#[trigger] excluded[i]).node_id by {
        if i < early.len() {
            assert(text_less(early[j].node_id, early[i].node_id));
            text_order_is_total(early[j].node_id, early[i].node_id, early[j].node_id);
        } else if j >= early.len() {
            assert(over[j - early.len()].node.id != over[i - early.len()].node.id);
        } else {
            assert(all.contains(over[i - early.len()]));
        }
    }
    assert forall|i: int| 0 <= i < excluded.len() implies !#[trigger] exclusion_repeated(
        excluded,
        i,
    ) by {}
    assert forall|i: int| 0 <= i < c.nodes.len() implies #[trigger] ranked_entry_accepted(
        c,
        c,
        i,
    ) by {
        assert(all.contains(list[i]));
        valid_node_equals_itself(list[i].node);
        assert(!entry_repeated(c, i)) by {
            assert forall|j: int| 0 <= j < excluded.len() implies (#[trigger] excluded[j]).node_id
                != list[i].node.id by {
                if j >= early.len() {
                    assert(list[i].node.id != over[j - early.len()].node.id);
                }
            }
            assert forall|j: int| 0 <= j < i implies (#[trigger] c.receipt.included[j]).node_id
                != list[i].node.id by {
                assert(list[j].node.id != list[i].node.id);
            }
        }
    }
}

/// Validation accepts nothing else: an accepted result has the receipt that the
/// ranking compiles to, and nodes of the same content.
pub proof fn accepted_ranked_compilation_is_canonical(
    compiler: ContextCompiler,
    ranking: RankingModel,
    token_budget: Option<u32>,
    compiled: CompiledModel,
    items: Seq<ItemModel>,
)
    requires
        ranked_accepted(compiler, ranking, token_budget, compiled, items),
    ensures
        compiled.receipt == ranking_compiled(compiler, ranking, token_budget).receipt,
        compiled.nodes.len() == ranking_compiled(compiler, ranking, token_budget).nodes.len(),
        forall|i: int|
            0 <= i < compiled.nodes.len() ==> (#[trigger] compiled.nodes[i]).same_content(
                ranking_compiled(compiler, ranking, token_budget).nodes[i],
            ),
{
    let expected = ranking_compiled(compiler, ranking, token_budget);
    lemma_ranking_compiled(compiler, ranking, token_budget);
    assert forall|i: int| 0 <= i < compiled.nodes.len() implies (
    #[trigger] compiled.nodes[i]).same_content(expected.nodes[i])
        && compiled.receipt.included[i] == expected.receipt.included[i] by {
        assert(ranked_entry_accepted(compiled, expected, i));
    }
    assert forall|i: int| 0 <= i < compiled.receipt.included.len() implies (
    #[trigger] compiled.receipt.included[i]) == expected.receipt.included[i] by {
        assert(compiled.nodes[i].same_content(expected.nodes[i]));
    }
    assert(compiled.receipt.included =~= expected.receipt.included);
}

/// A check against a ranking passes exactly where nothing differs from what the
/// ranking compiles to; a refusal names a difference that is there.
pub proof fn refused_ranked_checks_name_a_difference(
    compiler: ContextCompiler,
    ranking: RankingModel,
    token_budget: Option<u32>,
    compiled: CompiledModel,
    items: Seq<ItemModel>,
    r: Result<(), CompiledContextValidationError>,
    i: int,
)
    requires
        ranked_verdict(compiler, ranking, token_budget, compiled, items, r),
    ensures
        ({
            let expected = ranking_compiled(compiler, ranking, token_budget);
            &&& r is Ok && 0 <= i < compiled.nodes.len() ==> {
                let (a, b) = (compiled.receipt.included[i], expected.receipt.included[i]);
                &&& compiled.nodes[i].id == expected.nodes[i].id
                &&& compiled.nodes[i].summary == expected.nodes[i].summary
                &&& compiled.nodes[i].kind == expected.nodes[i].kind
                &&& compiled.nodes[i].origin == expected.nodes[i].origin
                &&& compiled.nodes[i].epistemic == expected.nodes[i].epistemic
                &&& compiled.nodes[i].scope == expected.nodes[i].scope
                &&& compiled.nodes[i].lens == expected.nodes[i].lens
                &&& compiled.nodes[i].source_event_ids == expected.nodes[i].source_event_ids
                &&& compiled.nodes[i].supersedes == expected.nodes[i].supersedes
                &&& compiled.nodes[i].valid_from == expected.nodes[i].valid_from
                &&& compiled.nodes[i].valid_until == expected.nodes[i].valid_until
                &&& a == b
            }
            &&& r is Ok ==> compiled.nodes.len() == expected.nodes.len()
                && compiled.receipt.excluded == expected.receipt.excluded
                && compiled.receipt.total_token_cost == expected.receipt.total_token_cost
                && compiled.receipt.over_soft_budget == expected.receipt.over_soft_budget
                && items_cost(items) == expected.receipt.total_token_cost
                && compiled.receipt.absolute_budget == compiler.absolute_budget
            &&& r matches Err(
                CompiledContextValidationError::RankedSelectionLengthMismatch {
                    expected: e,
                    actual,
                },
            ) ==> e == expected.nodes.len() && actual == compiled.nodes.len() && e != actual
            &&& r matches Err(CompiledContextValidationError::ScoreMismatch { node_id }) ==> exists|
                k: int,
            |
                0 <= k < compiled.nodes.len() && (#[trigger] compiled.nodes[k]).id == node_id@
                    && compiled.receipt.included[k].score != expected.receipt.included[k].score
            &&& r matches Err(CompiledContextValidationError::NonCanonicalOrder { node_id })
                ==> exists|k: int|
                0 <= k < compiled.nodes.len() && (#[trigger] compiled.nodes[k]).id == node_id@
                    && expected.nodes[k].id != node_id@
            &&& r matches Err(
                CompiledContextValidationError::TokenCostMismatch { node_id, expected: e, actual },
            ) ==> e != actual && exists|k: int|
                0 <= k < compiled.nodes.len() && (#[trigger] compiled.nodes[k]).id == node_id@ && e
                    == expected.receipt.included[k].token_cost && actual
                    == compiled.receipt.included[k].token_cost
            &&& r matches Err(CompiledContextValidationError::ExclusionReceiptMismatch { index })
                ==> (compiled.receipt.excluded.len() != expected.receipt.excluded.len() && (index
                == compiled.receipt.excluded.len() || index == expected.receipt.excluded.len())) || (
            index < compiled.receipt.excluded.len() && compiled.receipt.excluded[index as int]
                != expected.receipt.excluded[index as int])
        }),
{
    let expected = ranking_compiled(compiler, ranking, token_budget);
    if let Err(e) = r {
        if exists|k: int| #[trigger] reports_ranked_entry(compiled, expected, k, e) {
            let k = choose|k: int| #[trigger] reports_ranked_entry(compiled, expected, k, e);
            assert(compiled.nodes[k].id == compiled.nodes[k].id);
        }
    } else if 0 <= i < compiled.nodes.len() {
        assert(ranked_entry_accepted(compiled, expected, i));
    }
}

} // verus!
