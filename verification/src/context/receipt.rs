//! Compiled context and the receipt that accounts for every candidate.

use vstd::prelude::*;

use crate::binary32::Binary32;
use crate::context::capsule::{items_of, nodes_view, ContextCapsule};
use crate::context::node::{ContextNode, EpistemicStatus, NodeModel};
use crate::text::{copy_optional_text, copy_texts, optional_text, texts};

verus! {

/// Why and at what cost a node was included.
#[derive(Debug)]
pub struct ContextReceiptEntry {
    pub node_id: String,
    pub source_event_ids: Vec<String>,
    pub epistemic: EpistemicStatus,
    pub reason: String,
    pub score: Binary32,
    pub token_cost: u32,
}

/// The model of a receipt entry.
pub struct EntryModel {
    pub node_id: Seq<char>,
    pub source_event_ids: Seq<Seq<char>>,
    pub epistemic: EpistemicStatus,
    pub reason: Seq<char>,
    pub score: Binary32,
    pub token_cost: u32,
}

impl View for ContextReceiptEntry {
    type V = EntryModel;

    open spec fn view(&self) -> EntryModel {
        EntryModel {
            node_id: self.node_id@,
            source_event_ids: texts(self.source_event_ids@),
            epistemic: self.epistemic,
            reason: self.reason@,
            score: self.score,
            token_cost: self.token_cost,
        }
    }
}

impl Clone for ContextReceiptEntry {
    fn clone(&self) -> (r: ContextReceiptEntry)
        ensures
            r@ == self@,
    {
        ContextReceiptEntry {
            node_id: self.node_id.clone(),
            source_event_ids: copy_texts(&self.source_event_ids),
            epistemic: self.epistemic,
            reason: self.reason.clone(),
            score: self.score,
            token_cost: self.token_cost,
        }
    }
}

#[derive(Debug, Clone, Copy, PartialEq, Eq, Structural)]
pub enum ContextExclusionReason {
    Invalid,
    DisputedOrExpired,
    Irrelevant,
    TokenBudget,
}

/// Why a node was left out.
#[derive(Debug)]
pub struct ContextExclusion {
    pub node_id: String,
    pub reason: ContextExclusionReason,
    pub detail: Option<String>,
}

/// The model of an exclusion.
pub struct ExclusionModel {
    pub node_id: Seq<char>,
    pub reason: ContextExclusionReason,
    pub detail: Option<Seq<char>>,
}

impl View for ContextExclusion {
    type V = ExclusionModel;

    open spec fn view(&self) -> ExclusionModel {
        ExclusionModel {
            node_id: self.node_id@,
            reason: self.reason,
            detail: optional_text(self.detail),
        }
    }
}

impl Clone for ContextExclusion {
    fn clone(&self) -> (r: ContextExclusion)
        ensures
            r@ == self@,
    {
        ContextExclusion {
            node_id: self.node_id.clone(),
            reason: self.reason,
            detail: copy_optional_text(&self.detail),
        }
    }
}

/// The account of one compilation.
#[derive(Debug, Clone)]
pub struct ContextReceipt {
    pub included: Vec<ContextReceiptEntry>,
    pub excluded: Vec<ContextExclusion>,
    pub total_token_cost: u32,
    pub token_budget: u32,
    pub absolute_budget: u32,
    pub over_soft_budget: bool,
}

/// The model of a receipt.
pub struct ReceiptModel {
    pub included: Seq<EntryModel>,
    pub excluded: Seq<ExclusionModel>,
    pub total_token_cost: u32,
    pub token_budget: u32,
    pub absolute_budget: u32,
    pub over_soft_budget: bool,
}

/// The models of a list of entries.
pub open spec fn entries_view(entries: Seq<ContextReceiptEntry>) -> Seq<EntryModel> {
    entries.map_values(|e: ContextReceiptEntry| e@)
}

/// The models of a list of exclusions.
pub open spec fn exclusions_view(exclusions: Seq<ContextExclusion>) -> Seq<ExclusionModel> {
    exclusions.map_values(|e: ContextExclusion| e@)
}

impl View for ContextReceipt {
    type V = ReceiptModel;

    open spec fn view(&self) -> ReceiptModel {
        ReceiptModel {
            included: entries_view(self.included@),
            excluded: exclusions_view(self.excluded@),
            total_token_cost: self.total_token_cost,
            token_budget: self.token_budget,
            absolute_budget: self.absolute_budget,
            over_soft_budget: self.over_soft_budget,
        }
    }
}

/// Selected nodes with their receipt.
#[derive(Debug, Clone)]
pub struct CompiledContext {
    pub nodes: Vec<ContextNode>,
    pub receipt: ContextReceipt,
}

/// The model of compiled context.
pub struct CompiledModel {
    pub nodes: Seq<NodeModel>,
    pub receipt: ReceiptModel,
}

impl View for CompiledContext {
    type V = CompiledModel;

    open spec fn view(&self) -> CompiledModel {
        CompiledModel { nodes: nodes_view(self.nodes@), receipt: self.receipt@ }
    }
}

impl ContextCapsule {
    /// The model-facing projection of compiled context, in the same order.
    pub fn from(compiled: &CompiledContext) -> (r: ContextCapsule)
        ensures
            r@ == items_of(compiled@.nodes),
    {
        ContextCapsule::from_nodes(&compiled.nodes)
    }
}

/// A copy of a list of exclusions.
pub fn copy_exclusions(list: &Vec<ContextExclusion>) -> (r: Vec<ContextExclusion>)
    ensures
        exclusions_view(r@) == exclusions_view(list@),
{
    let mut r: Vec<ContextExclusion> = Vec::new();
    let mut i: usize = 0;
    while i < list.len()
        invariant
            0 <= i <= list@.len(),
            r@.len() == i,
            forall|j: int| 0 <= j < i ==> (#[trigger] r@[j])@ == list@[j]@,
        decreases list.len() - i,
    {
        r.push(list[i].clone());
        i += 1;
    }
    assert(exclusions_view(r@) =~= exclusions_view(list@));
    r
}

} // verus!
