//! The model-facing projection of compiled context, and its token cost.

use vstd::prelude::*;

use crate::binary32::Binary32;
use crate::context::node::{
    fault_text, same_time, ContextLens, ContextNode, ContextNodeKind, ContextOrigin, ContextScope,
    EncodingModel, EpistemicStatus, NodeEncoding, NodeModel,
};
use crate::text::{copy_texts, same_text, same_texts, texts};
use crate::time::Timestamp;

verus! {

/// Fixed token overhead charged for each serialized capsule item.
pub const CAPSULE_ITEM_FIXED_OVERHEAD_TOKENS: u32 = 16;

/// Default soft context budget in estimated tokens.
pub const DEFAULT_CONTEXT_TOKEN_BUDGET: u32 = 900;

/// Default absolute context ceiling in estimated tokens.
pub const DEFAULT_CONTEXT_ABSOLUTE_BUDGET: u32 = 1_800;

/// The sum of two token counts, held at the greatest count.
pub open spec fn capped_tokens(a: u32, b: u32) -> u32 {
    if a + b > u32::MAX {
        u32::MAX
    } else {
        (a + b) as u32
    }
}

/// One token for every four bytes or part of four, at least one, plus the
/// overhead, held at the greatest count.
pub open spec fn token_estimate(serialized_len: nat, fixed_overhead: u32) -> u32 {
    let quarters = (serialized_len + 3) / 4;
    let estimate = if quarters < 1 {
        1
    } else {
        quarters as int
    };
    if estimate + fixed_overhead > u32::MAX {
        u32::MAX
    } else {
        (estimate + fixed_overhead) as u32
    }
}

/// Estimates the tokens of a serialized value.
pub fn estimate_serialized_tokens(serialized_len: usize, fixed_overhead: u32) -> (r: u32)
    ensures
        r == token_estimate(serialized_len as nat, fixed_overhead),
{
    let whole: usize = serialized_len / 4;
    let quarters: usize = if serialized_len % 4 == 0 {
        whole
    } else {
        whole + 1
    };
    let estimate: usize = if quarters < 1 {
        1
    } else {
        quarters
    };
    if estimate > u32::MAX as usize {
        return u32::MAX;
    }
    (estimate as u32).saturating_add(fixed_overhead)
}

/// A compact, model-facing projection of one durable context node.
#[derive(Debug)]
pub struct ContextCapsuleItem {
    pub id: String,
    pub kind: ContextNodeKind,
    pub summary: String,
    pub origin: ContextOrigin,
    pub epistemic: EpistemicStatus,
    pub scope: ContextScope,
    pub confidence: Binary32,
    pub source_event_ids: Vec<String>,
    pub valid_from: Option<Timestamp>,
    pub valid_until: Option<Timestamp>,
    pub encoding: NodeEncoding,
}

/// The model of a capsule item.
pub struct ItemModel {
    pub id: Seq<char>,
    pub kind: ContextNodeKind,
    pub summary: Seq<char>,
    pub origin: ContextOrigin,
    pub epistemic: EpistemicStatus,
    pub scope: ContextScope,
    pub confidence: Binary32,
    pub source_event_ids: Seq<Seq<char>>,
    pub valid_from: Option<Timestamp>,
    pub valid_until: Option<Timestamp>,
    pub encoding: EncodingModel,
}

impl View for ContextCapsuleItem {
    type V = ItemModel;

    open spec fn view(&self) -> ItemModel {
        ItemModel {
            id: self.id@,
            kind: self.kind,
            summary: self.summary@,
            origin: self.origin,
            epistemic: self.epistemic,
            scope: self.scope,
            confidence: self.confidence,
            source_event_ids: texts(self.source_event_ids@),
            valid_from: self.valid_from,
            valid_until: self.valid_until,
            encoding: self.encoding@,
        }
    }
}

/// The projection of a node: everything but its lens and what it supersedes.
pub open spec fn item_of(n: NodeModel) -> ItemModel {
    ItemModel {
        id: n.id,
        kind: n.kind,
        summary: n.summary,
        origin: n.origin,
        epistemic: n.epistemic,
        scope: n.scope,
        confidence: n.confidence,
        source_event_ids: n.source_event_ids,
        valid_from: n.valid_from,
        valid_until: n.valid_until,
        encoding: n.encoding,
    }
}

impl ItemModel {
    /// The item as a node of the default lens that supersedes nothing.
    pub open spec fn as_node(self) -> NodeModel {
        NodeModel {
            id: self.id,
            kind: self.kind,
            summary: self.summary,
            origin: self.origin,
            epistemic: self.epistemic,
            scope: self.scope,
            lens: ContextLens::Task,
            confidence: self.confidence,
            source_event_ids: self.source_event_ids,
            supersedes: Seq::empty(),
            valid_from: self.valid_from,
            valid_until: self.valid_until,
            encoding: self.encoding,
        }
    }

    /// The number of bytes of the item's JSON form; an item without one counts
    /// as the largest.
    pub open spec fn bytes(self) -> usize {
        match self.encoding.capsule_bytes {
            Some(n) => n,
            None => usize::MAX,
        }
    }

    /// The tokens charged for the item.
    pub open spec fn cost(self) -> u32 {
        token_estimate(self.bytes() as nat, CAPSULE_ITEM_FIXED_OVERHEAD_TOKENS)
    }

    /// Equality of content, with confidences compared as numbers.
    pub open spec fn same_content(self, other: ItemModel) -> bool {
        &&& self.id == other.id
        &&& self.kind == other.kind
        &&& self.summary == other.summary
        &&& self.origin == other.origin
        &&& self.epistemic == other.epistemic
        &&& self.scope == other.scope
        &&& self.confidence.equals(other.confidence)
        &&& self.source_event_ids == other.source_event_ids
        &&& self.valid_from == other.valid_from
        &&& self.valid_until == other.valid_until
    }
}

/// Validation failures for model-facing context projections.
#[derive(Debug, PartialEq, Eq)]
pub enum ContextCapsuleValidationError {
    InvalidItem { item_id: String, reason: String },
    NotValidAt { item_id: String },
    TokenBudgetExceeded { used: u32, absolute_budget: u32 },
}

/// The result of validating one item at a point in time.
pub open spec fn item_verdict(
    item: ItemModel,
    now: Timestamp,
    r: Result<(), ContextCapsuleValidationError>,
) -> bool {
    match item.as_node().fault() {
        Some(f) => {
            &&& r is Err
            &&& r->Err_0 is InvalidItem
            &&& r->Err_0->InvalidItem_item_id@ == item.id
            &&& r->Err_0->InvalidItem_reason@ == fault_text(f, item.as_node())
        },
        None => if item.as_node().active_at(now) {
            r is Ok
        } else {
            r is Err && r->Err_0 is NotValidAt && r->Err_0->NotValidAt_item_id@ == item.id
        },
    }
}

/// The item is valid and active.
pub open spec fn item_accepted(item: ItemModel, now: Timestamp) -> bool {
    item.as_node().valid() && item.as_node().active_at(now)
}

impl ContextCapsuleItem {
    /// The projection of a node.
    pub fn from(node: &ContextNode) -> (r: ContextCapsuleItem)
        ensures
            r@ == item_of(node@),
    {
        ContextCapsuleItem {
            id: node.id.clone(),
            kind: node.kind,
            summary: node.summary.clone(),
            origin: node.origin,
            epistemic: node.epistemic,
            scope: node.scope,
            confidence: node.confidence,
            source_event_ids: copy_texts(&node.source_event_ids),
            valid_from: node.valid_from,
            valid_until: node.valid_until,
            encoding: node.encoding.clone(),
        }
    }

    fn as_context_node(&self) -> (n: ContextNode)
        ensures
            n@ == self@.as_node(),
    {
        let n = ContextNode {
            id: self.id.clone(),
            kind: self.kind,
            summary: self.summary.clone(),
            origin: self.origin,
            epistemic: self.epistemic,
            scope: self.scope,
            lens: ContextLens::Task,
            confidence: self.confidence,
            source_event_ids: copy_texts(&self.source_event_ids),
            supersedes: Vec::new(),
            valid_from: self.valid_from,
            valid_until: self.valid_until,
            encoding: self.encoding.clone(),
        };
        assert(n@.supersedes =~= Seq::empty());
        n
    }

    /// Validates this model-facing item at a specific instant.
    pub fn validate_at(&self, now: Timestamp) -> (r: Result<(), ContextCapsuleValidationError>)
        ensures
            item_verdict(self@, now, r),
            r is Ok == item_accepted(self@, now),
    {
        let node = self.as_context_node();
        if let Some(reason) = node.invalid_reason() {
            return Err(
                ContextCapsuleValidationError::InvalidItem { item_id: self.id.clone(), reason },
            );
        }
        if !node.is_valid_at(now) {
            return Err(ContextCapsuleValidationError::NotValidAt { item_id: self.id.clone() });
        }
        Ok(())
    }

    /// The exact serialized size of the item.
    pub fn serialized_len(&self) -> (n: usize)
        ensures
            n == self@.bytes(),
    {
        match self.encoding.capsule_bytes {
            Some(n) => n,
            None => usize::MAX,
        }
    }

    /// The conservative token estimate charged for this item.
    pub fn token_cost(&self) -> (c: u32)
        ensures
            c == self@.cost(),
    {
        estimate_serialized_tokens(self.serialized_len(), CAPSULE_ITEM_FIXED_OVERHEAD_TOKENS)
    }

    /// Whether two items have the same content.
    pub fn content_equals(&self, other: &ContextCapsuleItem) -> (r: bool)
        ensures
            r == self@.same_content(other@),
    {
        same_text(&self.id, &other.id) && self.kind == other.kind && same_text(
            &self.summary,
            &other.summary,
        ) && self.origin == other.origin && self.epistemic == other.epistemic && self.scope
            == other.scope && self.confidence.numerically_equal(&other.confidence) && same_texts(
            &self.source_event_ids,
            &other.source_event_ids,
        ) && same_time(&self.valid_from, &other.valid_from) && same_time(
            &self.valid_until,
            &other.valid_until,
        )
    }
}

impl Clone for ContextCapsuleItem {
    fn clone(&self) -> (r: ContextCapsuleItem)
        ensures
            r@ == self@,
    {
        ContextCapsuleItem {
            id: self.id.clone(),
            kind: self.kind,
            summary: self.summary.clone(),
            origin: self.origin,
            epistemic: self.epistemic,
            scope: self.scope,
            confidence: self.confidence,
            source_event_ids: copy_texts(&self.source_event_ids),
            valid_from: self.valid_from,
            valid_until: self.valid_until,
            encoding: self.encoding.clone(),
        }
    }
}

/// Model-facing context projection. Compiler receipts remain harness-owned.
#[derive(Debug)]
pub struct ContextCapsule {
    pub nodes: Vec<ContextCapsuleItem>,
}

/// The models of a list of items.
pub open spec fn items_view(items: Seq<ContextCapsuleItem>) -> Seq<ItemModel> {
    items.map_values(|i: ContextCapsuleItem| i@)
}

/// The models of a list of nodes.
pub open spec fn nodes_view(nodes: Seq<ContextNode>) -> Seq<NodeModel> {
    nodes.map_values(|n: ContextNode| n@)
}

/// The projection of a list of nodes.
pub open spec fn items_of(nodes: Seq<NodeModel>) -> Seq<ItemModel> {
    nodes.map_values(|n: NodeModel| item_of(n))
}

impl View for ContextCapsule {
    type V = Seq<ItemModel>;

    open spec fn view(&self) -> Seq<ItemModel> {
        items_view(self.nodes@)
    }
}

/// The tokens charged for the items together, held at the greatest count.
pub open spec fn items_cost(items: Seq<ItemModel>) -> u32
    decreases items.len(),
{
    if items.len() == 0 {
        0
    } else {
        capped_tokens(items_cost(items.drop_last()), items.last().cost())
    }
}

/// Two capsules hold items of the same content in the same order.
pub open spec fn same_items(a: Seq<ItemModel>, b: Seq<ItemModel>) -> bool {
    &&& a.len() == b.len()
    &&& forall|i: int| 0 <= i < a.len() ==> #[trigger] a[i].same_content(b[i])
}

/// The result of validating a capsule: the first refused item decides, then
/// the token ceiling.
pub open spec fn capsule_verdict(
    items: Seq<ItemModel>,
    now: Timestamp,
    absolute_budget: u32,
    r: Result<(), ContextCapsuleValidationError>,
) -> bool {
    match r {
        Ok(_) => capsule_accepted(items, now, absolute_budget),
        Err(e) => {
            ||| exists|i: int|
                {
                    &&& 0 <= i < items.len()
                    &&& forall|j: int| 0 <= j < i ==> item_accepted(#[trigger] items[j], now)
                    &&& !item_accepted(#[trigger] items[i], now)
                    &&& item_verdict(items[i], now, r)
                }
            ||| {
                &&& forall|j: int|
                    0 <= j < items.len() ==> item_accepted(#[trigger] items[j], now)
                &&& items_cost(items) > absolute_budget
                &&& e is TokenBudgetExceeded
                &&& e->used == items_cost(items)
                &&& e->absolute_budget == absolute_budget
            }
        },
    }
}

/// Every item is accepted and together they stay under the ceiling.
pub open spec fn capsule_accepted(
    items: Seq<ItemModel>,
    now: Timestamp,
    absolute_budget: u32,
) -> bool {
    &&& forall|j: int| 0 <= j < items.len() ==> item_accepted(#[trigger] items[j], now)
    &&& items_cost(items) <= absolute_budget
}

impl ContextCapsule {
    /// The projection of a list of compiled nodes.
    pub fn from_nodes(nodes: &Vec<ContextNode>) -> (r: ContextCapsule)
        ensures
            r@ == items_of(nodes_view(nodes@)),
    {
        let mut out: Vec<ContextCapsuleItem> = Vec::new();
        let mut i: usize = 0;
        while i < nodes.len()
            invariant
                0 <= i <= nodes@.len(),
                out@.len() == i,
                forall|j: int| 0 <= j < i ==> (#[trigger] out@[j])@ == item_of(nodes@[j]@),
            decreases nodes.len() - i,
        {
            out.push(ContextCapsuleItem::from(&nodes[i]));
            i += 1;
        }
        let r = ContextCapsule { nodes: out };
        assert(r@ =~= items_of(nodes_view(nodes@)));
        r
    }

    /// Validates every item under the default absolute ceiling.
    pub fn validate_at(&self, now: Timestamp) -> (r: Result<(), ContextCapsuleValidationError>)
        ensures
            capsule_verdict(self@, now, DEFAULT_CONTEXT_ABSOLUTE_BUDGET, r),
            r is Ok == capsule_accepted(self@, now, DEFAULT_CONTEXT_ABSOLUTE_BUDGET),
    {
        self.validate_at_with_budget(now, DEFAULT_CONTEXT_ABSOLUTE_BUDGET)
    }

    /// Validates every item under an explicit absolute token ceiling.
    pub fn validate_at_with_budget(&self, now: Timestamp, absolute_budget: u32) -> (r: Result<
        (),
        ContextCapsuleValidationError,
    >)
        ensures
            capsule_verdict(self@, now, absolute_budget, r),
            r is Ok == capsule_accepted(self@, now, absolute_budget),
    {
        let mut i: usize = 0;
        while i < self.nodes.len()
            invariant
                0 <= i <= self.nodes@.len(),
                forall|j: int| 0 <= j < i ==> item_accepted(#[trigger] self@[j], now),
            decreases self.nodes.len() - i,
        {
            let checked = self.nodes[i].validate_at(now);
            assert(self@[i as int] == self.nodes@[i as int]@);
            if checked.is_err() {
                return checked;
            }
            i += 1;
        }
        let used: u32 = self.token_cost();
        if used > absolute_budget {
            return Err(
                ContextCapsuleValidationError::TokenBudgetExceeded { used, absolute_budget },
            );
        }
        Ok(())
    }

    /// The conservative token estimate for the exact serialized items.
    pub fn token_cost(&self) -> (c: u32)
        ensures
            c == items_cost(self@),
    {
        let mut total: u32 = 0;
        let mut i: usize = 0;
        while i < self.nodes.len()
            invariant
                0 <= i <= self.nodes@.len(),
                total == items_cost(self@.take(i as int)),
            decreases self.nodes.len() - i,
        {
            total = total.saturating_add(self.nodes[i].token_cost());
            proof {
                assert(self@.take(i + 1).drop_last() =~= self@.take(i as int));
                assert(self@[i as int] == self.nodes@[i as int]@);
            }
            i += 1;
        }
        assert(self@.take(i as int) =~= self@);
        total
    }

    /// Whether two capsules hold the same content.
    pub fn content_equals(&self, other: &ContextCapsule) -> (r: bool)
        ensures
            r == same_items(self@, other@),
    {
        if self.nodes.len() != other.nodes.len() {
            return false;
        }
        let mut i: usize = 0;
        while i < self.nodes.len()
            invariant
                0 <= i <= self.nodes@.len(),
                self.nodes@.len() == other.nodes@.len(),
                forall|j: int| 0 <= j < i ==> #[trigger] self@[j].same_content(other@[j]),
            decreases self.nodes.len() - i,
        {
            if !self.nodes[i].content_equals(&other.nodes[i]) {
                assert(!self@[i as int].same_content(other@[i as int]));
                return false;
            }
            i += 1;
        }
        true
    }
}

impl Clone for ContextCapsule {
    fn clone(&self) -> (r: ContextCapsule)
        ensures
            r@ == self@,
    {
        let mut out: Vec<ContextCapsuleItem> = Vec::new();
        let mut i: usize = 0;
        while i < self.nodes.len()
            invariant
                0 <= i <= self.nodes@.len(),
                out@.len() == i,
                forall|j: int| 0 <= j < i ==> (#[trigger] out@[j])@ == self.nodes@[j]@,
            decreases self.nodes.len() - i,
        {
            out.push(self.nodes[i].clone());
            i += 1;
        }
        let r = ContextCapsule { nodes: out };
        assert(r@ =~= self@);
        r
    }
}

impl Default for ContextCapsule {
    fn default() -> (r: ContextCapsule)
        ensures
            r@ == Seq::<ItemModel>::empty(),
    {
        let r = ContextCapsule { nodes: Vec::new() };
        assert(r@ =~= Seq::<ItemModel>::empty());
        r
    }
}

/// Projecting a node drops nothing that validation or activity depends on.
pub proof fn projection_keeps_validity(n: NodeModel, now: Timestamp)
    ensures
        item_of(n).as_node().fault() == n.fault(),
        item_of(n).as_node().active_at(now) == n.active_at(now),
        item_accepted(item_of(n), now) == (n.valid() && n.active_at(now)),
{
}

/// Every item is charged more than its fixed overhead.
pub proof fn item_cost_exceeds_overhead(item: ItemModel)
    ensures
        item.cost() > CAPSULE_ITEM_FIXED_OVERHEAD_TOKENS,
{
}

/// The number of bytes of the items' JSON forms together.
pub open spec fn items_bytes(items: Seq<ItemModel>) -> nat
    decreases items.len(),
{
    if items.len() == 0 {
        0
    } else {
        items_bytes(items.drop_last()) + items.last().bytes() as nat
    }
}

/// The number of bytes of a capsule's JSON form: the items between commas, in
/// the array of the only field.
pub open spec fn capsule_bytes(items: Seq<ItemModel>) -> nat {
    10 + items_bytes(items) + if items.len() > 0 {
        (items.len() - 1) as nat
    } else {
        0
    } + 2
}

proof fn lemma_items_cost_covers(items: Seq<ItemModel>)
    requires
        items_cost(items) < u32::MAX,
    ensures
        4 * items_cost(items) >= items_bytes(items) + 64 * items.len(),
    decreases items.len(),
{
    if items.len() > 0 {
        lemma_items_cost_covers(items.drop_last());
    }
}

/// The tokens charged for the items of a capsule cover its whole JSON form, at
/// four bytes for a token, whatever the number of items.
pub proof fn capsule_cost_covers_its_text(items: Seq<ItemModel>)
    requires
        items.len() > 0,
        items_cost(items) < u32::MAX,
    ensures
        4 * items_cost(items) >= capsule_bytes(items),
{
    lemma_items_cost_covers(items);
}

/// A token stands for four bytes or less: an estimate covers every byte at four a
/// token, would not without its last token unless that is its only one, and comes
/// on top of the overhead. A capsule item's overhead is 16.
pub proof fn tokens_stand_for_four_bytes(bytes: nat, overhead: u32, item: ItemModel)
    ensures
        token_estimate(bytes, overhead) < u32::MAX ==> {
            let tokens = token_estimate(bytes, overhead) - overhead;
            &&& tokens >= 1
            &&& 4 * tokens >= bytes
            &&& tokens == 1 || 4 * (tokens - 1) < bytes
        },
        token_estimate(bytes, overhead) == u32::MAX ==> bytes + 4 * overhead + 4 > 4 * (
        u32::MAX as int) - 4,
        item.encoding.capsule_bytes is Some ==> item.cost() == token_estimate(
            item.encoding.capsule_bytes->0 as nat,
            16,
        ),
        item.encoding.capsule_bytes is None ==> item.cost() == token_estimate(
            usize::MAX as nat,
            16,
        ),
{
}

/// The tokens of the items one by one.
pub open spec fn tokens_sum(items: Seq<ItemModel>) -> nat
    decreases items.len(),
{
    if items.len() == 0 {
        0
    } else {
        items[0].cost() as nat + tokens_sum(items.drop_first())
    }
}

proof fn lemma_tokens_sum(items: Seq<ItemModel>)
    requires
        items.len() > 0,
    ensures
        tokens_sum(items) == tokens_sum(items.drop_last()) + items.last().cost(),
    decreases items.len(),
{
    if items.len() > 1 {
        let rest = items.drop_first();
        lemma_tokens_sum(rest);
        assert(rest.drop_last() =~= items.drop_last().drop_first());
        assert(items.drop_last()[0] == items[0]);
    } else {
        assert(items.drop_last() =~= Seq::empty());
        assert(items.drop_first() =~= Seq::empty());
    }
}

/// A capsule costs what its items cost together, held at the greatest count.
pub proof fn capsules_cost_what_their_items_do(items: Seq<ItemModel>)
    ensures
        tokens_sum(items) <= u32::MAX ==> items_cost(items) == tokens_sum(items),
        tokens_sum(items) > u32::MAX ==> items_cost(items) == u32::MAX,
    decreases items.len(),
{
    if items.len() > 0 {
        capsules_cost_what_their_items_do(items.drop_last());
        lemma_tokens_sum(items);
    }
}

/// A capsule is accepted where every item in it is valid and active and together
/// they cost no more than the ceiling; a refused one has an item that is invalid or
/// inactive, as the refusal says, or costs more than the ceiling.
pub proof fn refused_capsules_have_the_named_fault(
    items: Seq<ItemModel>,
    now: Timestamp,
    absolute_budget: u32,
    r: Result<(), ContextCapsuleValidationError>,
)
    requires
        capsule_verdict(items, now, absolute_budget, r),
    ensures
        r is Ok <==> items_cost(items) <= absolute_budget && forall|i: int|
            0 <= i < items.len() ==> (#[trigger] items[i]).as_node().valid()
                && items[i].as_node().active_at(now),
        r matches Err(ContextCapsuleValidationError::InvalidItem { item_id, reason }) ==> exists|
            i: int,
        |
            0 <= i < items.len() && (#[trigger] items[i]).id == item_id@
                && !items[i].as_node().valid() && reason@ == fault_text(
                items[i].as_node().fault()->0,
                items[i].as_node(),
            ),
        r matches Err(ContextCapsuleValidationError::NotValidAt { item_id }) ==> exists|i: int|
            0 <= i < items.len() && (#[trigger] items[i]).id == item_id@
                && items[i].as_node().valid() && !items[i].as_node().active_at(now),
        r matches Err(
            ContextCapsuleValidationError::TokenBudgetExceeded { used, absolute_budget: ceiling },
        ) ==> used == items_cost(items) && ceiling == absolute_budget && used > ceiling,
{
    if let Err(e) = r {
        if exists|i: int|
            {
                &&& 0 <= i < items.len()
                &&& forall|j: int| 0 <= j < i ==> item_accepted(#[trigger] items[j], now)
                &&& !item_accepted(#[trigger] items[i], now)
                &&& item_verdict(items[i], now, r)
            } {
            let i = choose|i: int|
                {
                    &&& 0 <= i < items.len()
                    &&& forall|j: int| 0 <= j < i ==> item_accepted(#[trigger] items[j], now)
                    &&& !item_accepted(#[trigger] items[i], now)
                    &&& item_verdict(items[i], now, r)
                };
            assert(items[i].id == items[i].id);
        }
    } else {
        assert forall|i: int| 0 <= i < items.len() implies (#[trigger] items[i]).as_node().valid()
            && items[i].as_node().active_at(now) by {
            assert(item_accepted(items[i], now));
        }
    }
}

/// A node's projection says of it what the node says, and as a node again differs
/// from it in its lens and in what it supersedes alone.
pub proof fn projections_say_what_their_nodes_say(n: NodeModel)
    ensures
        item_of(n).as_node() == (NodeModel {
            lens: ContextLens::Task,
            supersedes: Seq::empty(),
            ..n
        }),
{
}

/// The budgets that a compiler has unless it is given others: 900 tokens to aim
/// for, and 1,800 that nothing may exceed.
pub proof fn default_budgets_aim_below_the_ceiling()
    ensures
        DEFAULT_CONTEXT_TOKEN_BUDGET == 900,
        DEFAULT_CONTEXT_ABSOLUTE_BUDGET == 1_800,
        2 * DEFAULT_CONTEXT_TOKEN_BUDGET == DEFAULT_CONTEXT_ABSOLUTE_BUDGET,
{
}

/// Items hold the same content where every field is the same, confidences as
/// numbers.
pub proof fn items_differ_in_some_field(a: ItemModel, b: ItemModel)
    ensures
        a.same_content(b) == b.same_content(a),
        a.same_content(b) ==> a.id == b.id && a.kind == b.kind && a.summary == b.summary && a.origin
            == b.origin && a.epistemic == b.epistemic && a.scope == b.scope && a.source_event_ids
            == b.source_event_ids && a.valid_from == b.valid_from && a.valid_until == b.valid_until
            && (a.confidence == b.confidence || (a.confidence.bits % 0x8000_0000 == 0
            && b.confidence.bits % 0x8000_0000 == 0)),
        a.id == b.id && a.kind == b.kind && a.summary == b.summary && a.origin == b.origin
            && a.epistemic == b.epistemic && a.scope == b.scope && a.source_event_ids
            == b.source_event_ids && a.valid_from == b.valid_from && a.valid_until == b.valid_until
            && a.confidence == b.confidence && a.confidence.bits <= 0x7f80_0000
            ==> a.same_content(b),
{
}

/// An empty capsule takes twelve bytes; an item adds its own, and a comma unless
/// it is the first.
pub proof fn capsules_grow_by_their_items(items: Seq<ItemModel>, item: ItemModel)
    ensures
        capsule_bytes(Seq::empty()) == 12,
        capsule_bytes(items.push(item)) == capsule_bytes(items) + item.bytes() + (if items.len()
            == 0 {
            0int
        } else {
            1
        }),
{
    assert(items.push(item).drop_last() =~= items);
}

} // verus!
