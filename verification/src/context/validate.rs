//! Checking compiled context against what the compiler would have produced.

use vstd::prelude::*;

use crate::binary32::Binary32;
use crate::context::capsule::{
    capped_tokens, capsule_accepted, capsule_verdict, items_cost, items_of, same_items,
    ContextCapsule, ContextCapsuleValidationError, ItemModel,
};
use crate::context::compiler::ContextCompiler;
use crate::context::node::{fault_text, NodeModel};
use crate::context::receipt::{
    CompiledContext, CompiledModel, ContextExclusion, ContextReceiptEntry, EntryModel,
    ExclusionModel,
};
use crate::context::signature::{
    relevance_of, relevance_score, spaced, token_set, tokenize, v2_relevance, v2_relevance_of,
    QueryMatch, Relevance, TaskSignature,
};
use crate::retrieval::RetrievalError;
use crate::text::{
    blank, blank_from, chars_of, same_text, same_texts, stands_at, starts_with, text_before,
    text_less,
};
use crate::time::Timestamp;

verus! {

/// Compiled context that the compiler would not have produced.
#[derive(Debug, PartialEq, Eq)]
pub enum CompiledContextValidationError {
    InvalidCapsule(ContextCapsuleValidationError),
    CapsuleMismatch,
    NodeReceiptLengthMismatch { nodes: usize, included: usize, capsule: usize },
    InvalidNode { node_id: String, reason: String },
    NodeNotValidAt { node_id: String },
    DuplicateReceiptId { node_id: String },
    ReceiptNodeMismatch { node_id: String },
    TokenCostMismatch { node_id: String, expected: u32, actual: u32 },
    ScoreMismatch { node_id: String },
    NonPositiveTaskRelevance { node_id: String },
    InvalidReceiptReason { node_id: String, reason: String },
    NonCanonicalOrder { node_id: String },
    RankedSelectionLengthMismatch { expected: usize, actual: usize },
    ExclusionReceiptMismatch { index: usize },
    RequiredSelectionBudgetExceeded { used: u32, absolute_budget: u32 },
    SelectionBudgetExceeded { node_id: String, used: u32, token_budget: u32 },
    BudgetMismatch {
        expected_token_budget: u32,
        actual_token_budget: u32,
        expected_absolute_budget: u32,
        actual_absolute_budget: u32,
    },
    TokenAccountingMismatch { expected: u32, actual: u32 },
    Retrieval(RetrievalError),
}

/// The priority that a receipt's reason stands for.
pub open spec fn reason_rank(reason: Seq<char>) -> Option<u8> {
    if reason == "task-relevance"@ {
        Some(0)
    } else if reason == "user-pinned"@ {
        Some(1)
    } else if starts_with(reason, "policy-required: "@) && !blank(
        reason.skip("policy-required: "@.len() as int),
    ) {
        Some(2)
    } else {
        None
    }
}

/// The priority that a receipt's reason stands for.
pub fn receipt_reason_priority(reason: &str) -> (r: Option<u8>)
    ensures
        r == reason_rank(reason@),
{
    if same_text(reason, "task-relevance") {
        return Some(0);
    }
    if same_text(reason, "user-pinned") {
        return Some(1);
    }
    let chars = chars_of(reason);
    let prefix = chars_of("policy-required: ");
    if stands_at(&chars, 0, &prefix) && !blank_from(&chars, prefix.len()) {
        return Some(2);
    }
    None
}

/// What a compiled context is checked against.
pub struct Expectation {
    pub compiler: ContextCompiler,
    pub token_budget: Option<u32>,
    pub accepted_at: Timestamp,
    pub relevances: Seq<Result<Relevance, RetrievalError>>,
}

/// The capsule, the lengths and the budgets agree with the compiled context.
pub open spec fn frame_accepted(
    compiler: ContextCompiler,
    token_budget: Option<u32>,
    at: Timestamp,
    compiled: CompiledModel,
    items: Seq<ItemModel>,
) -> bool {
    &&& capsule_accepted(items, at, compiler.absolute_budget)
    &&& same_items(items_of(compiled.nodes), items)
    &&& compiled.nodes.len() == compiled.receipt.included.len()
    &&& compiled.nodes.len() == items.len()
    &&& compiled.receipt.token_budget == compiler.soft_budget(token_budget)
    &&& compiled.receipt.absolute_budget == compiler.absolute_budget
}

/// The result of checking the capsule, the lengths and the budgets, in that
/// order.
pub open spec fn frame_verdict(
    compiler: ContextCompiler,
    token_budget: Option<u32>,
    at: Timestamp,
    compiled: CompiledModel,
    items: Seq<ItemModel>,
    r: Result<(), CompiledContextValidationError>,
) -> bool {
    if !capsule_accepted(items, at, compiler.absolute_budget) {
        &&& r is Err
        &&& r->Err_0 is InvalidCapsule
        &&& capsule_verdict(
            items,
            at,
            compiler.absolute_budget,
            Err(r->Err_0->InvalidCapsule_0),
        )
    } else if !same_items(items_of(compiled.nodes), items) {
        r is Err && r->Err_0 is CapsuleMismatch
    } else if compiled.nodes.len() != compiled.receipt.included.len() || compiled.nodes.len()
        != items.len() {
        &&& r is Err
        &&& r->Err_0 is NodeReceiptLengthMismatch
        &&& r->Err_0->nodes == compiled.nodes.len()
        &&& r->Err_0->included == compiled.receipt.included.len()
        &&& r->Err_0->capsule == items.len()
    } else if compiled.receipt.token_budget != compiler.soft_budget(token_budget)
        || compiled.receipt.absolute_budget != compiler.absolute_budget {
        r == Err::<(), CompiledContextValidationError>(
            CompiledContextValidationError::BudgetMismatch {
                expected_token_budget: compiler.soft_budget(token_budget),
                actual_token_budget: compiled.receipt.token_budget,
                expected_absolute_budget: compiler.absolute_budget,
                actual_absolute_budget: compiled.receipt.absolute_budget,
            },
        )
    } else {
        r is Ok
    }
}

/// An earlier exclusion has the same identity.
pub open spec fn exclusion_repeated(excluded: Seq<ExclusionModel>, i: int) -> bool {
    exists|j: int| 0 <= j < i && (#[trigger] excluded[j]).node_id == excluded[i].node_id
}

/// No exclusion repeats an identity.
pub open spec fn exclusions_distinct(excluded: Seq<ExclusionModel>) -> bool {
    forall|i: int| 0 <= i < excluded.len() ==> !#[trigger] exclusion_repeated(excluded, i)
}

/// The result of looking for a repeated exclusion: the first one decides.
pub open spec fn exclusions_verdict(
    excluded: Seq<ExclusionModel>,
    r: Result<(), CompiledContextValidationError>,
) -> bool {
    match r {
        Ok(_) => exclusions_distinct(excluded),
        Err(e) => exists|i: int|
            {
                &&& 0 <= i < excluded.len()
                &&& #[trigger] exclusion_repeated(excluded, i)
                &&& forall|j: int| 0 <= j < i ==> !#[trigger] exclusion_repeated(excluded, j)
                &&& e is DuplicateReceiptId
                &&& e->DuplicateReceiptId_node_id@ == excluded[i].node_id
            },
    }
}

/// The identity of entry `i` occurs among the exclusions or the entries before.
pub open spec fn entry_repeated(compiled: CompiledModel, i: int) -> bool {
    let id = compiled.receipt.included[i].node_id;
    ||| exists|j: int|
        0 <= j < compiled.receipt.excluded.len() && (
        #[trigger] compiled.receipt.excluded[j]).node_id == id
    ||| exists|j: int| 0 <= j < i && (#[trigger] compiled.receipt.included[j]).node_id == id
}

/// The tokens of the entries, held at the greatest count.
pub open spec fn entries_cost(entries: Seq<EntryModel>) -> u32
    decreases entries.len(),
{
    if entries.len() == 0 {
        0
    } else {
        capped_tokens(entries_cost(entries.drop_last()), entries.last().token_cost)
    }
}

/// The tokens of the required entries, held at the greatest count.
pub open spec fn required_entries_cost(entries: Seq<EntryModel>) -> u32
    decreases entries.len(),
{
    if entries.len() == 0 {
        0
    } else if reason_rank(entries.last().reason) matches Some(p) && p > 0 {
        capped_tokens(required_entries_cost(entries.drop_last()), entries.last().token_cost)
    } else {
        required_entries_cost(entries.drop_last())
    }
}

/// Entry `b` may not follow entry `a`.
pub open spec fn out_of_order(
    a: EntryModel,
    a_exact: bool,
    b: EntryModel,
    b_exact: bool,
) -> bool {
    let pa = reason_rank(a.reason)->0;
    let pb = reason_rank(b.reason)->0;
    ||| pb > pa
    ||| pb == pa && b_exact && !a_exact
    ||| pb == pa && b_exact == a_exact && b.score.rank() > a.score.rank()
    ||| {
        &&& pb == pa
        &&& b_exact == a_exact
        &&& b.score == a.score
        &&& text_less(b.node_id, a.node_id)
    }
}

/// The receipt entry speaks of the node.
pub open spec fn entry_describes(entry: EntryModel, node: NodeModel) -> bool {
    &&& entry.node_id == node.id
    &&& entry.source_event_ids == node.source_event_ids
    &&& entry.epistemic == node.epistemic
}

/// The result of checking entry `i`, given that the entries before it were
/// accepted.
pub open spec fn entry_verdict(
    x: Expectation,
    compiled: CompiledModel,
    items: Seq<ItemModel>,
    i: int,
    r: Result<(), CompiledContextValidationError>,
) -> bool {
    let node = compiled.nodes[i];
    let entry = compiled.receipt.included[i];
    let before = compiled.receipt.included.take(i);
    let budget = x.compiler.ranked_budget(x.token_budget);
    let required_with = capped_tokens(required_entries_cost(before), entry.token_cost);
    let total_with = capped_tokens(entries_cost(before), entry.token_cost);
    if entry_repeated(compiled, i) {
        &&& r is Err
        &&& r->Err_0 is DuplicateReceiptId
        &&& r->Err_0->DuplicateReceiptId_node_id@ == entry.node_id
    } else if !node.valid() {
        &&& r is Err
        &&& r->Err_0 is InvalidNode
        &&& r->Err_0->InvalidNode_node_id@ == node.id
        &&& r->Err_0->InvalidNode_reason@ == fault_text(node.fault()->0, node)
    } else if !node.active_at(x.accepted_at) {
        r is Err && r->Err_0 is NodeNotValidAt && r->Err_0->NodeNotValidAt_node_id@ == node.id
    } else if x.relevances[i] is Err {
        r == Err::<(), CompiledContextValidationError>(
            CompiledContextValidationError::Retrieval(x.relevances[i]->Err_0),
        )
    } else if reason_rank(entry.reason) is None {
        &&& r is Err
        &&& r->Err_0 is InvalidReceiptReason
        &&& r->Err_0->InvalidReceiptReason_node_id@ == node.id
        &&& r->Err_0->InvalidReceiptReason_reason@ == entry.reason
    } else if !entry_describes(entry, node) {
        &&& r is Err
        &&& r->Err_0 is ReceiptNodeMismatch
        &&& r->Err_0->ReceiptNodeMismatch_node_id@ == node.id
    } else if entry.token_cost != items[i].cost() {
        &&& r is Err
        &&& r->Err_0 is TokenCostMismatch
        &&& r->Err_0->TokenCostMismatch_node_id@ == node.id
        &&& r->Err_0->TokenCostMismatch_expected == items[i].cost()
        &&& r->Err_0->TokenCostMismatch_actual == entry.token_cost
    } else if entry.score != x.relevances[i]->Ok_0.score {
        r is Err && r->Err_0 is ScoreMismatch && r->Err_0->ScoreMismatch_node_id@ == node.id
    } else if entry.reason == "task-relevance"@ && !entry.score.is_nan_spec()
        && !entry.score.positive() {
        &&& r is Err
        &&& r->Err_0 is NonPositiveTaskRelevance
        &&& r->Err_0->NonPositiveTaskRelevance_node_id@ == node.id
    } else if i > 0 && out_of_order(
        compiled.receipt.included[i - 1],
        x.relevances[i - 1]->Ok_0.exact,
        entry,
        x.relevances[i]->Ok_0.exact,
    ) {
        &&& r is Err
        &&& r->Err_0 is NonCanonicalOrder
        &&& r->Err_0->NonCanonicalOrder_node_id@ == node.id
    } else if reason_rank(entry.reason)->0 > 0 && required_with > x.compiler.absolute_budget {
        r == Err::<(), CompiledContextValidationError>(
            CompiledContextValidationError::RequiredSelectionBudgetExceeded {
                used: required_with,
                absolute_budget: x.compiler.absolute_budget,
            },
        )
    } else if reason_rank(entry.reason)->0 == 0 && (required_entries_cost(before) > budget
        || total_with > budget) {
        &&& r is Err
        &&& r->Err_0 is SelectionBudgetExceeded
        &&& r->Err_0->SelectionBudgetExceeded_node_id@ == node.id
        &&& r->Err_0->SelectionBudgetExceeded_used == total_with
        &&& r->Err_0->SelectionBudgetExceeded_token_budget == budget
    } else {
        r is Ok
    }
}

/// Entry `i` passes every check.
pub open spec fn entry_accepted(
    x: Expectation,
    compiled: CompiledModel,
    items: Seq<ItemModel>,
    i: int,
) -> bool {
    entry_verdict(x, compiled, items, i, Ok(()))
}

/// The receipt's totals are those of its entries.
pub open spec fn accounts(x: Expectation, compiled: CompiledModel, items: Seq<ItemModel>) -> bool {
    let total = entries_cost(compiled.receipt.included);
    &&& compiled.receipt.total_token_cost == total
    &&& items_cost(items) == total
    &&& total <= x.compiler.absolute_budget
    &&& compiled.receipt.over_soft_budget == (total > x.compiler.soft_budget(x.token_budget))
}

/// Every check passes.
pub open spec fn compiled_accepted(
    x: Expectation,
    compiled: CompiledModel,
    items: Seq<ItemModel>,
) -> bool {
    &&& frame_accepted(x.compiler, x.token_budget, x.accepted_at, compiled, items)
    &&& exclusions_distinct(compiled.receipt.excluded)
    &&& forall|i: int|
        0 <= i < compiled.nodes.len() ==> #[trigger] entry_accepted(x, compiled, items, i)
    &&& accounts(x, compiled, items)
}

/// The error reports entry `i`, the first that fails a check.
pub open spec fn reports_entry(
    x: Expectation,
    compiled: CompiledModel,
    items: Seq<ItemModel>,
    i: int,
    e: CompiledContextValidationError,
) -> bool {
    &&& 0 <= i < compiled.nodes.len()
    &&& forall|j: int| 0 <= j < i ==> #[trigger] entry_accepted(x, compiled, items, j)
    &&& !entry_accepted(x, compiled, items, i)
    &&& entry_verdict(x, compiled, items, i, Err(e))
}

/// The result of checking compiled context: the frame, then the exclusions,
/// then the entries in order, then the totals.
pub open spec fn compiled_verdict(
    x: Expectation,
    compiled: CompiledModel,
    items: Seq<ItemModel>,
    r: Result<(), CompiledContextValidationError>,
) -> bool {
    if !frame_accepted(x.compiler, x.token_budget, x.accepted_at, compiled, items) {
        frame_verdict(x.compiler, x.token_budget, x.accepted_at, compiled, items, r)
    } else if !exclusions_distinct(compiled.receipt.excluded) {
        r is Err && exclusions_verdict(compiled.receipt.excluded, r)
    } else {
        match r {
            Ok(_) => compiled_accepted(x, compiled, items),
            Err(e) => {
                ||| exists|i: int| #[trigger] reports_entry(x, compiled, items, i, e)
                ||| {
                    &&& forall|i: int|
                        0 <= i < compiled.nodes.len() ==> #[trigger] entry_accepted(
                            x,
                            compiled,
                            items,
                            i,
                        )
                    &&& !accounts(x, compiled, items)
                    &&& e == CompiledContextValidationError::TokenAccountingMismatch {
                        expected: entries_cost(compiled.receipt.included),
                        actual: compiled.receipt.total_token_cost,
                    }
                }
            },
        }
    }
}

/// Looks for a repeated exclusion.
pub fn check_exclusions(excluded: &Vec<ContextExclusion>) -> (r: Result<
    (),
    CompiledContextValidationError,
>)
    ensures
        exclusions_verdict(crate::context::receipt::exclusions_view(excluded@), r),
{
    let ghost s = crate::context::receipt::exclusions_view(excluded@);
    let mut i: usize = 0;
    while i < excluded.len()
        invariant
            s == crate::context::receipt::exclusions_view(excluded@),
            0 <= i <= excluded@.len(),
            forall|j: int| 0 <= j < i ==> !#[trigger] exclusion_repeated(s, j),
        decreases excluded.len() - i,
    {
        let mut j: usize = 0;
        while j < i
            invariant
                s == crate::context::receipt::exclusions_view(excluded@),
                0 <= j <= i < excluded@.len(),
                forall|k: int| 0 <= k < i ==> !#[trigger] exclusion_repeated(s, k),
                forall|k: int| 0 <= k < j ==> (#[trigger] s[k]).node_id != s[i as int].node_id,
            decreases i - j,
        {
            if same_text(&excluded[j].node_id, &excluded[i].node_id) {
                assert(s[j as int].node_id == s[i as int].node_id);
                assert(exclusion_repeated(s, i as int));
                return Err(
                    CompiledContextValidationError::DuplicateReceiptId {
                        node_id: excluded[i].node_id.clone(),
                    },
                );
            }
            j += 1;
        }
        i += 1;
    }
    Ok(())
}

/// Whether the identity of entry `i` has occurred before.
pub fn is_entry_repeated(compiled: &CompiledContext, i: usize) -> (r: bool)
    requires
        i < compiled.receipt.included@.len(),
    ensures
        r == entry_repeated(compiled@, i as int),
{
    let id = &compiled.receipt.included[i].node_id;
    let ghost entry = compiled@.receipt.included[i as int];
    assert(entry.node_id == id@);
    let mut j: usize = 0;
    while j < compiled.receipt.excluded.len()
        invariant
            entry == compiled@.receipt.included[i as int],
            entry.node_id == id@,
            0 <= j <= compiled.receipt.excluded@.len(),
            forall|k: int|
                0 <= k < j ==> (#[trigger] compiled@.receipt.excluded[k]).node_id != id@,
        decreases compiled.receipt.excluded.len() - j,
    {
        if same_text(&compiled.receipt.excluded[j].node_id, id) {
            assert(compiled@.receipt.excluded[j as int].node_id == id@);
            return true;
        }
        j += 1;
    }
    let mut j: usize = 0;
    while j < i
        invariant
            entry == compiled@.receipt.included[i as int],
            entry.node_id == id@,
            0 <= j <= i < compiled.receipt.included@.len(),
            forall|k: int|
                0 <= k < j ==> (#[trigger] compiled@.receipt.included[k]).node_id != id@,
        decreases i - j,
    {
        if same_text(&compiled.receipt.included[j].node_id, id) {
            assert(compiled@.receipt.included[j as int].node_id == id@);
            return true;
        }
        j += 1;
    }
    false
}

fn is_out_of_order(
    a: &ContextReceiptEntry,
    a_priority: u8,
    a_exact: bool,
    b: &ContextReceiptEntry,
    b_priority: u8,
    b_exact: bool,
) -> (r: bool)
    requires
        reason_rank(a.reason@) == Some(a_priority),
        reason_rank(b.reason@) == Some(b_priority),
    ensures
        r == out_of_order(a@, a_exact, b@, b_exact),
{
    b_priority > a_priority || (b_priority == a_priority && ((b_exact && !a_exact) || (b_exact
        == a_exact && (b.score.ranks_above(&a.score) || (b.score.to_bits() == a.score.to_bits()
        && text_before(&b.node_id, &a.node_id))))))
}

impl ContextCompiler {
    /// Checks the capsule, the lengths and the budgets.
    pub fn check_frame(
        &self,
        compiled: &CompiledContext,
        capsule: &ContextCapsule,
        token_budget: Option<u32>,
        at: Timestamp,
    ) -> (r: Result<(), CompiledContextValidationError>)
        ensures
            frame_verdict(*self, token_budget, at, compiled@, capsule@, r),
            r is Ok == frame_accepted(*self, token_budget, at, compiled@, capsule@),
    {
        match capsule.validate_at_with_budget(at, self.absolute_budget) {
            Err(e) => {
                return Err(CompiledContextValidationError::InvalidCapsule(e));
            },
            Ok(()) => {},
        }
        if !ContextCapsule::from(compiled).content_equals(capsule) {
            return Err(CompiledContextValidationError::CapsuleMismatch);
        }
        if compiled.nodes.len() != compiled.receipt.included.len() || compiled.nodes.len()
            != capsule.nodes.len() {
            return Err(
                CompiledContextValidationError::NodeReceiptLengthMismatch {
                    nodes: compiled.nodes.len(),
                    included: compiled.receipt.included.len(),
                    capsule: capsule.nodes.len(),
                },
            );
        }
        let expected_token_budget: u32 = self.expected_token_budget(token_budget);
        if compiled.receipt.token_budget != expected_token_budget
            || compiled.receipt.absolute_budget != self.absolute_budget {
            return Err(
                CompiledContextValidationError::BudgetMismatch {
                    expected_token_budget,
                    actual_token_budget: compiled.receipt.token_budget,
                    expected_absolute_budget: self.absolute_budget,
                    actual_absolute_budget: compiled.receipt.absolute_budget,
                },
            );
        }
        Ok(())
    }

    /// Checks entry `i`; the entries before it were accepted, and cost
    /// `required_before` and `total_before`.
    fn check_entry(
        &self,
        compiled: &CompiledContext,
        capsule: &ContextCapsule,
        relevances: &Vec<Result<Relevance, RetrievalError>>,
        token_budget: Option<u32>,
        accepted_at: Timestamp,
        i: usize,
        required_before: u32,
        total_before: u32,
    ) -> (r: Result<(), CompiledContextValidationError>)
        requires
            i < compiled.nodes@.len(),
            compiled.nodes@.len() == compiled.receipt.included@.len(),
            compiled.nodes@.len() == capsule.nodes@.len(),
            compiled.nodes@.len() == relevances@.len(),
            required_before == required_entries_cost(
                compiled@.receipt.included.take(i as int),
            ),
            total_before == entries_cost(compiled@.receipt.included.take(i as int)),
            i > 0 ==> entry_accepted(
                Expectation {
                    compiler: *self,
                    token_budget,
                    accepted_at,
                    relevances: relevances@,
                },
                compiled@,
                capsule@,
                i - 1,
            ),
        ensures
            entry_verdict(
                Expectation {
                    compiler: *self,
                    token_budget,
                    accepted_at,
                    relevances: relevances@,
                },
                compiled@,
                capsule@,
                i as int,
                r,
            ),
    {
        let node = &compiled.nodes[i];
        let entry = &compiled.receipt.included[i];
        assert(compiled@.nodes[i as int] == node@);
        assert(compiled@.receipt.included[i as int] == entry@);
        assert(capsule@[i as int] == capsule.nodes@[i as int]@);
        if is_entry_repeated(compiled, i) {
            return Err(
                CompiledContextValidationError::DuplicateReceiptId {
                    node_id: entry.node_id.clone(),
                },
            );
        }
        if let Some(reason) = node.invalid_reason() {
            return Err(
                CompiledContextValidationError::InvalidNode { node_id: node.id.clone(), reason },
            );
        }
        if !node.is_valid_at(accepted_at) {
            return Err(
                CompiledContextValidationError::NodeNotValidAt { node_id: node.id.clone() },
            );
        }
        let relevance: Relevance = match &relevances[i] {
            Ok(rel) => *rel,
            Err(e) => {
                return Err(CompiledContextValidationError::Retrieval(*e));
            },
        };
        let expected_token_cost: u32 = capsule.nodes[i].token_cost();
        let priority: u8 = match receipt_reason_priority(&entry.reason) {
            Some(p) => p,
            None => {
                return Err(
                    CompiledContextValidationError::InvalidReceiptReason {
                        node_id: node.id.clone(),
                        reason: entry.reason.clone(),
                    },
                );
            },
        };
        if !same_text(&entry.node_id, &node.id) || !same_texts(
            &entry.source_event_ids,
            &node.source_event_ids,
        ) || entry.epistemic != node.epistemic {
            return Err(
                CompiledContextValidationError::ReceiptNodeMismatch { node_id: node.id.clone() },
            );
        }
        if entry.token_cost != expected_token_cost {
            return Err(
                CompiledContextValidationError::TokenCostMismatch {
                    node_id: node.id.clone(),
                    expected: expected_token_cost,
                    actual: entry.token_cost,
                },
            );
        }
        if entry.score.to_bits() != relevance.score.to_bits() {
            return Err(CompiledContextValidationError::ScoreMismatch { node_id: node.id.clone() });
        }
        if same_text(&entry.reason, "task-relevance") && entry.score.is_zero_or_below() {
            return Err(
                CompiledContextValidationError::NonPositiveTaskRelevance {
                    node_id: node.id.clone(),
                },
            );
        }
        if i > 0 {
            let previous = &compiled.receipt.included[i - 1];
            assert(compiled@.receipt.included[i - 1] == previous@);
            let previous_priority = receipt_reason_priority(&previous.reason);
            if let (Some(p), Ok(rel)) = (previous_priority, &relevances[i - 1]) {
                if is_out_of_order(previous, p, rel.exact, entry, priority, relevance.exact) {
                    return Err(
                        CompiledContextValidationError::NonCanonicalOrder {
                            node_id: node.id.clone(),
                        },
                    );
                }
            }
        }
        let total_with: u32 = total_before.saturating_add(entry.token_cost);
        if priority > 0 {
            let required_with: u32 = required_before.saturating_add(entry.token_cost);
            if required_with > self.absolute_budget {
                return Err(
                    CompiledContextValidationError::RequiredSelectionBudgetExceeded {
                        used: required_with,
                        absolute_budget: self.absolute_budget,
                    },
                );
            }
        } else {
            let budget: u32 = self.selection_budget(token_budget);
            if required_before > budget || total_with > budget {
                return Err(
                    CompiledContextValidationError::SelectionBudgetExceeded {
                        node_id: node.id.clone(),
                        used: total_with,
                        token_budget: budget,
                    },
                );
            }
        }
        Ok(())
    }

    /// Checks compiled context against nodes of known relevance.
    fn validate_with(
        &self,
        compiled: &CompiledContext,
        capsule: &ContextCapsule,
        relevances: &Vec<Result<Relevance, RetrievalError>>,
        token_budget: Option<u32>,
        accepted_at: Timestamp,
    ) -> (r: Result<(), CompiledContextValidationError>)
        requires
            compiled.nodes@.len() == relevances@.len(),
        ensures
            compiled_verdict(
                Expectation {
                    compiler: *self,
                    token_budget,
                    accepted_at,
                    relevances: relevances@,
                },
                compiled@,
                capsule@,
                r,
            ),
    {
        let ghost x = Expectation {
            compiler: *self,
            token_budget,
            accepted_at,
            relevances: relevances@,
        };
        let framed = self.check_frame(compiled, capsule, token_budget, accepted_at);
        if framed.is_err() {
            return framed;
        }
        let distinct = check_exclusions(&compiled.receipt.excluded);
        if distinct.is_err() {
            proof {
                let s = compiled@.receipt.excluded;
                let i = choose|i: int|
                    {
                        &&& 0 <= i < s.len()
                        &&& #[trigger] exclusion_repeated(s, i)
                    };
                assert(exclusion_repeated(s, i));
                assert(!exclusions_distinct(s));
            }
            return distinct;
        }
        let mut required_cost: u32 = 0;
        let mut total: u32 = 0;
        let ghost entries = compiled@.receipt.included;
        let mut i: usize = 0;
        while i < compiled.nodes.len()
            invariant
                x == (Expectation {
                    compiler: *self,
                    token_budget,
                    accepted_at,
                    relevances: relevances@,
                }),
                frame_accepted(*self, token_budget, accepted_at, compiled@, capsule@),
                exclusions_distinct(compiled@.receipt.excluded),
                entries == compiled@.receipt.included,
                compiled.nodes@.len() == relevances@.len(),
                compiled.nodes@.len() == entries.len(),
                compiled.nodes@.len() == capsule.nodes@.len(),
                0 <= i <= compiled.nodes@.len(),
                required_cost == required_entries_cost(entries.take(i as int)),
                total == entries_cost(entries.take(i as int)),
                forall|j: int|
                    0 <= j < i ==> #[trigger] entry_accepted(x, compiled@, capsule@, j),
            decreases compiled.nodes.len() - i,
        {
            assert(i > 0 ==> entry_accepted(x, compiled@, capsule@, i - 1));
            let checked = self.check_entry(
                compiled,
                capsule,
                relevances,
                token_budget,
                accepted_at,
                i,
                required_cost,
                total,
            );
            match checked {
                Err(e) => {
                    assert(reports_entry(x, compiled@, capsule@, i as int, e));
                    return Err(e);
                },
                Ok(()) => {},
            }
            assert(entry_accepted(x, compiled@, capsule@, i as int));
            let entry = &compiled.receipt.included[i];
            assert(entries[i as int] == entry@);
            proof {
                assert(entries.take(i + 1).drop_last() =~= entries.take(i as int));
                assert(entries.take(i + 1).last() == entries[i as int]);
            }
            if let Some(p) = receipt_reason_priority(&entry.reason) {
                if p > 0 {
                    required_cost = required_cost.saturating_add(entry.token_cost);
                }
            }
            total = total.saturating_add(entry.token_cost);
            i += 1;
        }
        assert(entries.take(i as int) =~= entries);
        if compiled.receipt.total_token_cost != total || capsule.token_cost() != total || total
            > self.absolute_budget || compiled.receipt.over_soft_budget != (total
            > self.expected_token_budget(token_budget)) {
            return Err(
                CompiledContextValidationError::TokenAccountingMismatch {
                    expected: total,
                    actual: compiled.receipt.total_token_cost,
                },
            );
        }
        Ok(())
    }

    /// Validates compiled context and its capsule against the compiler's
    /// selection contract. `weights` holds, for each compiled node, the weighted
    /// sum of the terms of its relevance.
    pub fn validate_compiled(
        &self,
        signature: &TaskSignature,
        compiled: &CompiledContext,
        weights: &Vec<Binary32>,
        capsule: &ContextCapsule,
        token_budget: Option<u32>,
        accepted_at: Timestamp,
    ) -> (r: Result<(), CompiledContextValidationError>)
        requires
            compiled.nodes@.len() == weights@.len(),
        ensures
            compiled_verdict(
                Expectation {
                    compiler: *self,
                    token_budget,
                    accepted_at,
                    relevances: legacy_node_relevances(*signature, compiled@.nodes, weights@),
                },
                compiled@,
                capsule@,
                r,
            ),
    {
        let query_tokens = tokenize(&signature.searchable_text());
        let ghost query = token_set(spaced(signature.parts()));
        assert(query_tokens.tokens() =~= query);
        let mut relevances: Vec<Result<Relevance, RetrievalError>> = Vec::new();
        let mut i: usize = 0;
        while i < compiled.nodes.len()
            invariant
                compiled.nodes@.len() == weights@.len(),
                query_tokens.well_formed(),
                query_tokens.tokens() == query,
                0 <= i <= compiled.nodes@.len(),
                relevances@.len() == i,
                forall|j: int|
                    0 <= j < i ==> #[trigger] relevances@[j] == Ok::<Relevance, RetrievalError>(
                        relevance_of(query, compiled.nodes@[j]@, weights@[j]),
                    ),
            decreases compiled.nodes.len() - i,
        {
            relevances.push(Ok(relevance_score(&compiled.nodes[i], &query_tokens, weights[i])));
            i += 1;
        }
        assert(relevances@ =~= legacy_node_relevances(*signature, compiled@.nodes, weights@));
        self.validate_with(compiled, capsule, &relevances, token_budget, accepted_at)
    }

    /// Validates compiled context made for a prepared query. `matches` holds
    /// what matching each compiled node against the query gave.
    pub fn validate_compiled_query(
        &self,
        compiled: &CompiledContext,
        matches: &Vec<QueryMatch>,
        capsule: &ContextCapsule,
        token_budget: Option<u32>,
        accepted_at: Timestamp,
    ) -> (r: Result<(), CompiledContextValidationError>)
        requires
            compiled.nodes@.len() == matches@.len(),
        ensures
            compiled_verdict(
                Expectation {
                    compiler: *self,
                    token_budget,
                    accepted_at,
                    relevances: query_node_relevances(compiled@.nodes, matches@),
                },
                compiled@,
                capsule@,
                r,
            ),
    {
        let mut relevances: Vec<Result<Relevance, RetrievalError>> = Vec::new();
        let mut i: usize = 0;
        while i < compiled.nodes.len()
            invariant
                compiled.nodes@.len() == matches@.len(),
                0 <= i <= compiled.nodes@.len(),
                relevances@.len() == i,
                forall|j: int|
                    0 <= j < i ==> #[trigger] relevances@[j] == v2_relevance_of(
                        compiled.nodes@[j]@,
                        matches@[j],
                    ),
            decreases compiled.nodes.len() - i,
        {
            relevances.push(v2_relevance(&compiled.nodes[i], &matches[i]));
            i += 1;
        }
        assert(relevances@ =~= query_node_relevances(compiled@.nodes, matches@));
        self.validate_with(compiled, capsule, &relevances, token_budget, accepted_at)
    }
}

/// The relevance of each node to a legacy signature.
pub open spec fn legacy_node_relevances(
    signature: TaskSignature,
    nodes: Seq<NodeModel>,
    weights: Seq<Binary32>,
) -> Seq<Result<Relevance, RetrievalError>> {
    Seq::new(
        nodes.len(),
        |i: int|
            Ok(relevance_of(token_set(spaced(signature.parts())), nodes[i], weights[i])),
    )
}

/// The relevance of each node to a prepared query.
pub open spec fn query_node_relevances(
    nodes: Seq<NodeModel>,
    matches: Seq<QueryMatch>,
) -> Seq<Result<Relevance, RetrievalError>> {
    Seq::new(nodes.len(), |i: int| v2_relevance_of(nodes[i], matches[i]))
}

} // verus!
