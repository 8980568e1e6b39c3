//! Ordering prepared candidates and selecting them under a token budget.

use vstd::prelude::*;

use crate::binary32::Binary32;
use crate::context::candidate::{ContextDirective, DirectiveModel};
use crate::context::capsule::{capped_tokens, nodes_view};
use crate::context::node::{ContextNode, NodeModel};
use crate::context::receipt::{
    entries_view, exclusions_view, CompiledContext, CompiledModel, ContextExclusion,
    ContextExclusionReason, ContextReceipt, ContextReceiptEntry, EntryModel, ExclusionModel,
    ReceiptModel,
};
use crate::order::{lemma_place_index_is, placed, strict_order};
use crate::text::{copy_texts, text_before, text_less, text_order_is_total};

verus! {

/// A valid, active candidate with everything that selection needs.
#[derive(Debug)]
pub struct PreparedCandidate {
    pub directive: ContextDirective,
    pub exact: bool,
    pub score: Binary32,
    pub token_cost: u32,
    pub node: ContextNode,
}

/// The model of a prepared candidate.
pub struct PreparedModel {
    pub directive: DirectiveModel,
    pub exact: bool,
    pub score: Binary32,
    pub token_cost: u32,
    pub node: NodeModel,
}

impl View for PreparedCandidate {
    type V = PreparedModel;

    open spec fn view(&self) -> PreparedModel {
        PreparedModel {
            directive: self.directive@,
            exact: self.exact,
            score: self.score,
            token_cost: self.token_cost,
            node: self.node@,
        }
    }
}

/// The models of a list of prepared candidates.
pub open spec fn prepared_view(list: Seq<PreparedCandidate>) -> Seq<PreparedModel> {
    list.map_values(|p: PreparedCandidate| p@)
}

/// `a` is selected strictly before `b`: by directive, then exactness, then
/// score, each descending, then by identity ascending.
pub open spec fn precedes(a: PreparedModel, b: PreparedModel) -> bool {
    if a.directive.rank() != b.directive.rank() {
        a.directive.rank() > b.directive.rank()
    } else if a.exact != b.exact {
        a.exact
    } else if a.score.rank() != b.score.rank() {
        a.score.rank() > b.score.rank()
    } else {
        text_less(a.node.id, b.node.id)
    }
}

/// The selection order is a strict total order on candidates of distinct
/// identity.
pub proof fn selection_order_is_total(a: PreparedModel, b: PreparedModel, c: PreparedModel)
    ensures
        !precedes(a, a),
        precedes(a, b) && precedes(b, c) ==> precedes(a, c),
        !(precedes(a, b) && precedes(b, a)),
        precedes(a, b) || precedes(b, a) || a.node.id == b.node.id,
        !precedes(b, a) && !precedes(c, b) ==> !precedes(c, a),
{
    text_order_is_total(a.node.id, b.node.id, c.node.id);
    text_order_is_total(c.node.id, b.node.id, a.node.id);
    text_order_is_total(a.node.id, c.node.id, b.node.id);
    text_order_is_total(b.node.id, c.node.id, a.node.id);
}

/// The selection order.
pub open spec fn selection_order() -> spec_fn(PreparedModel, PreparedModel) -> bool {
    |a: PreparedModel, b: PreparedModel| precedes(a, b)
}

/// The selection order compares any two candidates.
pub proof fn lemma_selection_order()
    ensures
        strict_order(selection_order()),
{
    let before = selection_order();
    assert forall|a: PreparedModel, b: PreparedModel| #[trigger] before(a, b) implies !before(
        b,
        a,
    ) by {
        selection_order_is_total(a, b, a);
    }
    assert forall|a: PreparedModel, b: PreparedModel, c: PreparedModel|
        !(#[trigger] before(b, a)) && !(#[trigger] before(c, b)) implies !before(c, a) by {
        selection_order_is_total(a, b, c);
    }
}

/// Whether `a` is selected strictly before `b`.
pub fn comes_before(a: &PreparedCandidate, b: &PreparedCandidate) -> (r: bool)
    ensures
        r == precedes(a@, b@),
{
    let pa: u8 = a.directive.priority();
    let pb: u8 = b.directive.priority();
    if pa != pb {
        return pa > pb;
    }
    if a.exact != b.exact {
        return a.exact;
    }
    if a.score.ranks_above(&b.score) {
        return true;
    }
    if b.score.ranks_above(&a.score) {
        return false;
    }
    text_before(&a.node.id, &b.node.id)
}

/// Puts one more candidate into its place.
pub fn place(list: &mut Vec<PreparedCandidate>, x: PreparedCandidate)
    ensures
        prepared_view(final(list)@) == placed(prepared_view(old(list)@), x@, selection_order()),
{
    let mut i: usize = list.len();
    let ghost s = prepared_view(list@);
    let ghost before = selection_order();
    while i > 0 && comes_before(&x, &list[i - 1])
        invariant
            0 <= i <= list@.len(),
            s == prepared_view(list@),
            before == selection_order(),
            forall|j: int| i <= j < s.len() ==> before(x@, #[trigger] s[j]),
        decreases i,
    {
        assert(s[i - 1] == list@[i - 1]@);
        i -= 1;
    }
    proof {
        if i > 0 {
            assert(s[i - 1] == list@[i - 1]@);
        }
        lemma_place_index_is(s, x@, before, i as int);
    }
    list.insert(i, x);
    assert(prepared_view(list@) =~= s.insert(i as int, x@));
}

/// A selection in progress.
pub struct Selection {
    pub nodes: Seq<NodeModel>,
    pub included: Seq<EntryModel>,
    pub excluded: Seq<ExclusionModel>,
    pub used: u32,
}

/// The receipt entry of a prepared candidate.
pub open spec fn entry_of(p: PreparedModel) -> EntryModel {
    EntryModel {
        node_id: p.node.id,
        source_event_ids: p.node.source_event_ids,
        epistemic: p.node.epistemic,
        reason: p.directive.reason_text(),
        score: p.score,
        token_cost: p.token_cost,
    }
}

impl Selection {
    /// The selection with one more candidate included.
    pub open spec fn including(self, p: PreparedModel) -> Selection {
        Selection {
            nodes: self.nodes.push(p.node),
            included: self.included.push(entry_of(p)),
            excluded: self.excluded,
            used: capped_tokens(self.used, p.token_cost),
        }
    }

    /// The selection with one more candidate excluded for want of budget.
    pub open spec fn over_budget(self, p: PreparedModel) -> Selection {
        Selection {
            excluded: self.excluded.push(
                ExclusionModel {
                    node_id: p.node.id,
                    reason: ContextExclusionReason::TokenBudget,
                    detail: None,
                },
            ),
            ..self
        }
    }

    /// All candidates included, in order.
    pub open spec fn including_all(self, list: Seq<PreparedModel>) -> Selection
        decreases list.len(),
    {
        if list.len() == 0 {
            self
        } else {
            self.including_all(list.drop_last()).including(list.last())
        }
    }

    /// Each candidate in order, included where it still fits the budget.
    pub open spec fn including_fitting(self, list: Seq<PreparedModel>, budget: u32) -> Selection
        decreases list.len(),
    {
        if list.len() == 0 {
            self
        } else {
            let before = self.including_fitting(list.drop_last(), budget);
            if capped_tokens(before.used, list.last().token_cost) > budget {
                before.over_budget(list.last())
            } else {
                before.including(list.last())
            }
        }
    }

    /// The compiled context of a finished selection.
    pub open spec fn compiled(self, token_budget: u32, absolute_budget: u32) -> CompiledModel {
        CompiledModel {
            nodes: self.nodes,
            receipt: ReceiptModel {
                included: self.included,
                excluded: self.excluded,
                total_token_cost: self.used,
                token_budget,
                absolute_budget,
                over_soft_budget: self.used > token_budget,
            },
        }
    }
}

/// Nothing selected yet.
pub open spec fn unselected(excluded: Seq<ExclusionModel>) -> Selection {
    Selection { nodes: Seq::empty(), included: Seq::empty(), excluded, used: 0 }
}

/// The tokens of a list of candidates, held at the greatest count.
pub open spec fn prepared_cost(list: Seq<PreparedModel>) -> u32
    decreases list.len(),
{
    if list.len() == 0 {
        0
    } else {
        capped_tokens(prepared_cost(list.drop_last()), list.last().token_cost)
    }
}

/// The tokens of a list of candidates.
pub fn total_cost(list: &Vec<PreparedCandidate>) -> (r: u32)
    ensures
        r == prepared_cost(prepared_view(list@)),
{
    let mut total: u32 = 0;
    let mut i: usize = 0;
    let ghost s = prepared_view(list@);
    while i < list.len()
        invariant
            0 <= i <= list@.len(),
            s == prepared_view(list@),
            total == prepared_cost(s.take(i as int)),
        decreases list.len() - i,
    {
        total = total.saturating_add(list[i].token_cost);
        assert(s.take(i + 1).drop_last() =~= s.take(i as int));
        i += 1;
    }
    assert(s.take(i as int) =~= s);
    total
}

/// The receipt entry of a node.
pub fn receipt_entry(
    node: &ContextNode,
    directive: &ContextDirective,
    score: Binary32,
    token_cost: u32,
) -> (r: ContextReceiptEntry)
    ensures
        r@ == (EntryModel {
            node_id: node@.id,
            source_event_ids: node@.source_event_ids,
            epistemic: node@.epistemic,
            reason: directive@.reason_text(),
            score,
            token_cost,
        }),
{
    ContextReceiptEntry {
        node_id: node.id.clone(),
        source_event_ids: copy_texts(&node.source_event_ids),
        epistemic: node.epistemic,
        reason: directive.receipt_reason(),
        score,
        token_cost,
    }
}

/// A selection that is being built.
pub struct SelectionBuilder {
    pub nodes: Vec<ContextNode>,
    pub included: Vec<ContextReceiptEntry>,
    pub excluded: Vec<ContextExclusion>,
    pub used: u32,
}

impl View for SelectionBuilder {
    type V = Selection;

    open spec fn view(&self) -> Selection {
        Selection {
            nodes: nodes_view(self.nodes@),
            included: entries_view(self.included@),
            excluded: exclusions_view(self.excluded@),
            used: self.used,
        }
    }
}

impl SelectionBuilder {
    pub fn new(excluded: Vec<ContextExclusion>) -> (r: SelectionBuilder)
        ensures
            r@ == unselected(exclusions_view(excluded@)),
    {
        let r = SelectionBuilder { nodes: Vec::new(), included: Vec::new(), excluded, used: 0 };
        assert(r@.nodes =~= Seq::empty());
        assert(r@.included =~= Seq::empty());
        r
    }

    /// Includes a candidate.
    pub fn take_in(&mut self, p: &PreparedCandidate)
        ensures
            final(self)@ == old(self)@.including(p@),
    {
        self.used = self.used.saturating_add(p.token_cost);
        self.included.push(receipt_entry(&p.node, &p.directive, p.score, p.token_cost));
        self.nodes.push(p.node.clone());
        assert(self@.nodes =~= old(self)@.including(p@).nodes);
        assert(self@.included =~= old(self)@.including(p@).included);
    }

    /// Excludes a candidate for want of budget.
    pub fn refuse(&mut self, p: &PreparedCandidate)
        ensures
            final(self)@ == old(self)@.over_budget(p@),
    {
        self.excluded.push(
            ContextExclusion {
                node_id: p.node.id.clone(),
                reason: ContextExclusionReason::TokenBudget,
                detail: None,
            },
        );
        assert(self@.excluded =~= old(self)@.over_budget(p@).excluded);
    }

    /// Includes every candidate.
    pub fn take_all(&mut self, list: &Vec<PreparedCandidate>)
        ensures
            final(self)@ == old(self)@.including_all(prepared_view(list@)),
    {
        let ghost start = self@;
        let ghost s = prepared_view(list@);
        let mut i: usize = 0;
        while i < list.len()
            invariant
                0 <= i <= list@.len(),
                s == prepared_view(list@),
                self@ == start.including_all(s.take(i as int)),
            decreases list.len() - i,
        {
            self.take_in(&list[i]);
            assert(s.take(i + 1).drop_last() =~= s.take(i as int));
            assert(s.take(i + 1).last() == list@[i as int]@);
            i += 1;
        }
        assert(s.take(i as int) =~= s);
    }

    /// Goes through the candidates in order and includes each that fits.
    pub fn take_fitting(&mut self, list: &Vec<PreparedCandidate>, budget: u32)
        ensures
            final(self)@ == old(self)@.including_fitting(prepared_view(list@), budget),
    {
        let ghost start = self@;
        let ghost s = prepared_view(list@);
        let mut i: usize = 0;
        while i < list.len()
            invariant
                0 <= i <= list@.len(),
                s == prepared_view(list@),
                self@ == start.including_fitting(s.take(i as int), budget),
            decreases list.len() - i,
        {
            assert(s.take(i + 1).drop_last() =~= s.take(i as int));
            assert(s.take(i + 1).last() == list@[i as int]@);
            if self.used.saturating_add(list[i].token_cost) > budget {
                self.refuse(&list[i]);
            } else {
                self.take_in(&list[i]);
            }
            i += 1;
        }
        assert(s.take(i as int) =~= s);
    }

    /// Closes the selection.
    pub fn finish(self, token_budget: u32, absolute_budget: u32) -> (r: CompiledContext)
        ensures
            r@ == self@.compiled(token_budget, absolute_budget),
    {
        CompiledContext {
            nodes: self.nodes,
            receipt: ContextReceipt {
                included: self.included,
                excluded: self.excluded,
                total_token_cost: self.used,
                token_budget,
                absolute_budget,
                over_soft_budget: self.used > token_budget,
            },
        }
    }
}

} // verus!
