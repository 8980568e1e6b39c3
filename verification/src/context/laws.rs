//! What holds of every compilation.

use vstd::prelude::*;

use crate::binary32::Binary32;
use crate::context::candidate::{CandidateModel, DirectiveModel};
use crate::context::capsule::{
    capped_tokens, item_accepted, item_of, items_cost, items_of, projection_keeps_validity,
    same_items, ItemModel,
};
use crate::context::compiler::{
    all_admissible, admissible, compile_outcome, compiled_of, excluded_part, fates,
    legacy_relevances, none_fatal, query_relevances, ranked_part, repeated, required_part,
    ContextCompileError, ContextCompiler, Fate,
};
use crate::context::node::{valid_node_equals_itself, EpistemicStatus, NodeModel};
use crate::context::receipt::{CompiledContext, CompiledModel, EntryModel, ExclusionModel};
use crate::context::selection::{
    entry_of, lemma_selection_order, prepared_cost, selection_order, unselected, PreparedModel,
    Selection,
};
use crate::context::signature::{QueryMatch, Relevance, TaskSignature};
use crate::context::validate::{
    compiled_accepted, compiled_verdict, entries_cost, entry_accepted, entry_repeated,
    exclusion_repeated, exclusions_distinct, frame_accepted, legacy_node_relevances,
    query_node_relevances, reason_rank, reports_entry, required_entries_cost,
    CompiledContextValidationError, Expectation,
};
use crate::order::{
    arranged, arranged_is_an_ordering, in_order, lemma_arranged_all, lemma_arranged_distinct,
};
use crate::retrieval::RetrievalError;
use crate::time::Timestamp;

verus! {

/// The receipt reason of a well-formed directive reads back as its priority.
pub proof fn reason_reads_back(d: DirectiveModel)
    requires
        d.well_formed(),
    ensures
        reason_rank(d.reason_text()) == Some(d.rank()),
        (d.reason_text() == "task-relevance"@) == (d is Ranked),
{
    reveal_strlit("task-relevance");
    reveal_strlit("user-pinned");
    reveal_strlit("policy-required: ");
    let t = d.reason_text();
    match d {
        DirectiveModel::Ranked => {},
        DirectiveModel::UserPinned => {
            assert(t[0] == 'u');
            assert("task-relevance"@[0] == 't');
        },
        DirectiveModel::PolicyRequired { reason } => {
            let prefix = "policy-required: "@;
            assert(t[0] == 'p');
            assert("task-relevance"@[0] == 't');
            assert("user-pinned"@[0] == 'u');
            assert(t.take(prefix.len() as int) =~= prefix);
            assert(t.skip(prefix.len() as int) =~= reason);
        },
    }
}

/// The candidates of a list that fit, in order, once `used` tokens are spent.
pub open spec fn fitting(list: Seq<PreparedModel>, used: u32, budget: u32) -> Seq<PreparedModel>
    decreases list.len(),
{
    if list.len() == 0 {
        Seq::empty()
    } else {
        let before = fitting(list.drop_last(), used, budget);
        if capped_tokens(spent(used, before), list.last().token_cost) > budget {
            before
        } else {
            before.push(list.last())
        }
    }
}

/// The candidates of a list that do not fit, in order.
pub open spec fn left_over(list: Seq<PreparedModel>, used: u32, budget: u32) -> Seq<PreparedModel>
    decreases list.len(),
{
    if list.len() == 0 {
        Seq::empty()
    } else {
        let before = left_over(list.drop_last(), used, budget);
        if capped_tokens(
            spent(used, fitting(list.drop_last(), used, budget)),
            list.last().token_cost,
        ) > budget {
            before.push(list.last())
        } else {
            before
        }
    }
}

/// The tokens spent once the list is included on top of `used`.
pub open spec fn spent(used: u32, list: Seq<PreparedModel>) -> u32
    decreases list.len(),
{
    if list.len() == 0 {
        used
    } else {
        capped_tokens(spent(used, list.drop_last()), list.last().token_cost)
    }
}

/// The nodes of a list of candidates.
pub open spec fn nodes_of(list: Seq<PreparedModel>) -> Seq<NodeModel> {
    list.map_values(|p: PreparedModel| p.node)
}

/// The receipt entries of a list of candidates.
pub open spec fn entries_of(list: Seq<PreparedModel>) -> Seq<EntryModel> {
    list.map_values(|p: PreparedModel| entry_of(p))
}

/// The exclusions of candidates that did not fit.
pub open spec fn budget_exclusions(list: Seq<PreparedModel>) -> Seq<ExclusionModel> {
    list.map_values(
        |p: PreparedModel|
            ExclusionModel {
                node_id: p.node.id,
                reason: crate::context::receipt::ContextExclusionReason::TokenBudget,
                detail: None,
            },
    )
}

proof fn lemma_including_all(sel: Selection, list: Seq<PreparedModel>)
    ensures
        sel.including_all(list).nodes == sel.nodes + nodes_of(list),
        sel.including_all(list).included == sel.included + entries_of(list),
        sel.including_all(list).excluded == sel.excluded,
        sel.including_all(list).used == spent(sel.used, list),
    decreases list.len(),
{
    let out = sel.including_all(list);
    if list.len() == 0 {
        assert(out.nodes =~= sel.nodes + nodes_of(list));
        assert(out.included =~= sel.included + entries_of(list));
    } else {
        lemma_including_all(sel, list.drop_last());
        assert(out.nodes =~= sel.nodes + nodes_of(list));
        assert(out.included =~= sel.included + entries_of(list));
    }
}

pub proof fn lemma_including_fitting(sel: Selection, list: Seq<PreparedModel>, budget: u32)
    ensures
        sel.including_fitting(list, budget).nodes == sel.nodes + nodes_of(
            fitting(list, sel.used, budget),
        ),
        sel.including_fitting(list, budget).included == sel.included + entries_of(
            fitting(list, sel.used, budget),
        ),
        sel.including_fitting(list, budget).excluded == sel.excluded + budget_exclusions(
            left_over(list, sel.used, budget),
        ),
        sel.including_fitting(list, budget).used == spent(
            sel.used,
            fitting(list, sel.used, budget),
        ),
    decreases list.len(),
{
    let out = sel.including_fitting(list, budget);
    let fit = fitting(list, sel.used, budget);
    let over = left_over(list, sel.used, budget);
    if list.len() > 0 {
        lemma_including_fitting(sel, list.drop_last(), budget);
        let before = fitting(list.drop_last(), sel.used, budget);
        if fit.len() > before.len() {
            assert(fit.drop_last() =~= before);
        }
    }
    assert(out.nodes =~= sel.nodes + nodes_of(fit));
    assert(out.included =~= sel.included + entries_of(fit));
    assert(out.excluded =~= sel.excluded + budget_exclusions(over));
}

/// The costs of a list and of a list with more behind it.
proof fn lemma_spent_grows(used: u32, list: Seq<PreparedModel>, k: int)
    requires
        0 <= k <= list.len(),
    ensures
        spent(used, list.take(k)) <= spent(used, list),
    decreases list.len(),
{
    if k == list.len() {
        assert(list.take(k) =~= list);
    } else {
        lemma_spent_grows(used, list.drop_last(), k);
        assert(list.drop_last().take(k) =~= list.take(k));
    }
}

proof fn lemma_prepared_cost_is_spent(list: Seq<PreparedModel>)
    ensures
        prepared_cost(list) == spent(0, list),
    decreases list.len(),
{
    if list.len() > 0 {
        lemma_prepared_cost_is_spent(list.drop_last());
    }
}

pub proof fn lemma_spent_concat(used: u32, a: Seq<PreparedModel>, b: Seq<PreparedModel>)
    ensures
        spent(used, a + b) == spent(spent(used, a), b),
    decreases b.len(),
{
    if b.len() == 0 {
        assert(a + b =~= a);
    } else {
        lemma_spent_concat(used, a, b.drop_last());
        assert((a + b).drop_last() =~= a + b.drop_last());
    }
}

pub proof fn lemma_entries_cost(list: Seq<PreparedModel>)
    ensures
        entries_cost(entries_of(list)) == spent(0, list),
    decreases list.len(),
{
    if list.len() > 0 {
        lemma_entries_cost(list.drop_last());
        assert(entries_of(list).drop_last() =~= entries_of(list.drop_last()));
    }
}

/// What fits is in the list, in the same order, and within the budget.
pub proof fn lemma_fitting(list: Seq<PreparedModel>, used: u32, budget: u32)
    ensures
        fitting(list, used, budget).len() + left_over(list, used, budget).len() == list.len(),
        fitting(list, used, budget).len() > 0 ==> used <= budget && spent(
            used,
            fitting(list, used, budget),
        ) <= budget,
        forall|i: int|
            0 <= i < fitting(list, used, budget).len() ==> list.contains(
                #[trigger] fitting(list, used, budget)[i],
            ),
        forall|i: int|
            0 <= i < left_over(list, used, budget).len() ==> list.contains(
                #[trigger] left_over(list, used, budget)[i],
            ),
    decreases list.len(),
{
    if list.len() > 0 {
        let rest = list.drop_last();
        lemma_fitting(rest, used, budget);
        let before = fitting(rest, used, budget);
        let fit = fitting(list, used, budget);
        let over = left_over(list, used, budget);
        assert(list[list.len() - 1] == list.last());
        assert forall|i: int| 0 <= i < fit.len() implies list.contains(#[trigger] fit[i]) by {
            if i < before.len() {
                assert(rest.contains(before[i]));
                let k = choose|k: int| 0 <= k < rest.len() && rest[k] == before[i];
                assert(list[k] == fit[i]);
            }
        }
        let over_before = left_over(rest, used, budget);
        assert forall|i: int| 0 <= i < over.len() implies list.contains(#[trigger] over[i]) by {
            if i < over_before.len() {
                assert(rest.contains(over_before[i]));
                let k = choose|k: int| 0 <= k < rest.len() && rest[k] == over_before[i];
                assert(list[k] == over[i]);
            }
        }
        if fit.len() > before.len() {
            assert(fit.drop_last() =~= before);
            lemma_spent_grows(used, fit, 0);
            assert(fit.take(0) =~= Seq::empty());
        }
    }
}

/// What fits and what does not part the list: identities stay distinct.
proof fn lemma_fitting_distinct(list: Seq<PreparedModel>, used: u32, budget: u32)
    requires
        in_order(list, selection_order()),
        distinct(list),
    ensures
        in_order(fitting(list, used, budget), selection_order()),
        distinct(fitting(list, used, budget)),
        distinct(left_over(list, used, budget)),
        disjoint(fitting(list, used, budget), left_over(list, used, budget)),
    decreases list.len(),
{
    if list.len() > 0 {
        let rest = list.drop_last();
        let x = list.last();
        let before = selection_order();
        assert forall|i: int, j: int| 0 <= i < j < rest.len() implies !before(
            #[trigger] rest[j],
            #[trigger] rest[i],
        ) by {
            assert(!before(list[j], list[i]));
        }
        assert forall|i: int, j: int| 0 <= i < j < rest.len() implies (#[trigger] rest[i]).node.id
            != (#[trigger] rest[j]).node.id by {
            assert(list[i].node.id != list[j].node.id);
        }
        lemma_fitting_distinct(rest, used, budget);
        lemma_fitting(rest, used, budget);
        let fit0 = fitting(rest, used, budget);
        let over0 = left_over(rest, used, budget);
        assert forall|i: int| 0 <= i < fit0.len() implies (#[trigger] fit0[i]).node.id != x.node.id
            && !before(x, fit0[i]) by {
            assert(rest.contains(fit0[i]));
            let k = choose|k: int| 0 <= k < rest.len() && rest[k] == fit0[i];
            assert(list[k].node.id != list[list.len() - 1].node.id);
            assert(!before(list[list.len() - 1], list[k]));
        }
        assert forall|i: int| 0 <= i < over0.len() implies (#[trigger] over0[i]).node.id
            != x.node.id by {
            assert(rest.contains(over0[i]));
            let k = choose|k: int| 0 <= k < rest.len() && rest[k] == over0[i];
            assert(list[k].node.id != list[list.len() - 1].node.id);
        }
    }
}

/// No two candidates of the list have the same identity.
pub open spec fn distinct(list: Seq<PreparedModel>) -> bool {
    forall|i: int, j: int|
        0 <= i < j < list.len() ==> (#[trigger] list[i]).node.id != (#[trigger] list[j]).node.id
}

/// No candidate of one list has the identity of a candidate of the other.
pub open spec fn disjoint(a: Seq<PreparedModel>, b: Seq<PreparedModel>) -> bool {
    forall|i: int, j: int|
        0 <= i < a.len() && 0 <= j < b.len() ==> (#[trigger] a[i]).node.id != (
        #[trigger] b[j]).node.id
}

/// The inputs of one compilation.
pub struct Inputs {
    pub candidates: Seq<CandidateModel>,
    pub relevances: Seq<Result<Relevance, RetrievalError>>,
    pub now: Timestamp,
}

impl Inputs {
    pub open spec fn fates(self) -> Seq<Fate> {
        fates(self.candidates, self.relevances, self.now)
    }

    /// The prepared candidate comes from candidate `k`.
    pub open spec fn yields(self, k: int, p: PreparedModel) -> bool {
        &&& 0 <= k < self.candidates.len()
        &&& p.node == self.candidates[k].node
        &&& p.directive == self.candidates[k].directive
        &&& p.token_cost == item_of(p.node).cost()
        &&& self.relevances[k] is Ok
        &&& p.score == self.relevances[k]->Ok_0.score
        &&& p.exact == self.relevances[k]->Ok_0.exact
        &&& p.node.valid()
        &&& p.node.active_at(self.now)
        &&& p.directive.required() || p.exact || p.score.positive()
        &&& match self.fates()[k] {
            Fate::Required { prepared } => p.directive.required() && prepared == p,
            Fate::Ranked { prepared } => !p.directive.required() && prepared == p,
            _ => false,
        }
    }

    /// The prepared candidate comes from one of the first `n` candidates.
    pub open spec fn known(self, n: int, p: PreparedModel) -> bool {
        exists|k: int| 0 <= k < n && #[trigger] self.yields(k, p)
    }

    /// The exclusion comes from one of the first `n` candidates.
    pub open spec fn left_out(self, n: int, e: ExclusionModel) -> bool {
        exists|k: int|
            0 <= k < n && #[trigger] self.fates()[k] == (Fate::Excluded { exclusion: e })
                && e.node_id == self.candidates[k].node.id
    }
}

/// The parts of the first `n` fates come from the candidates and are distinct.
pub proof fn lemma_parts(x: Inputs, n: int)
    requires
        all_admissible(x.candidates),
        0 <= n <= x.candidates.len(),
    ensures
        ({
            let f = x.fates().take(n);
            let (r, k, e) = (required_part(f), ranked_part(f), excluded_part(f));
            &&& forall|i: int|
                0 <= i < r.len() ==> x.known(n, #[trigger] r[i]) && r[i].directive.required()
            &&& forall|i: int|
                0 <= i < k.len() ==> x.known(n, #[trigger] k[i]) && !k[i].directive.required()
            &&& forall|i: int| 0 <= i < e.len() ==> x.left_out(n, #[trigger] e[i])
            &&& distinct(r)
            &&& distinct(k)
            &&& forall|i: int, j: int|
                0 <= i < j < e.len() ==> (#[trigger] e[i]).node_id != (#[trigger] e[j]).node_id
        }),
    decreases n,
{
    let f = x.fates().take(n);
    if n > 0 {
        lemma_parts(x, n - 1);
        let f0 = x.fates().take(n - 1);
        assert(f.drop_last() =~= f0);
        assert(f.last() == x.fates()[n - 1]);
        let (r0, k0, e0) = (required_part(f0), ranked_part(f0), excluded_part(f0));
        let (r, k, e) = (required_part(f), ranked_part(f), excluded_part(f));
        assert forall|p: PreparedModel| x.known(n - 1, p) implies #[trigger] x.known(n, p)
            && p.node.id != x.candidates[n - 1].node.id by {
            let c = choose|c: int| 0 <= c < n - 1 && #[trigger] x.yields(c, p);
            assert(x.yields(c, p));
            lemma_distinct_ids(x.candidates, c, n - 1);
        }
        assert forall|p: ExclusionModel| x.left_out(n - 1, p) implies #[trigger] x.left_out(n, p)
            && p.node_id != x.candidates[n - 1].node.id by {
            let c = choose|c: int|
                0 <= c < n - 1 && #[trigger] x.fates()[c] == (Fate::Excluded { exclusion: p })
                    && p.node_id == x.candidates[c].node.id;
            assert(x.fates()[c] == (Fate::Excluded { exclusion: p }));
            lemma_distinct_ids(x.candidates, c, n - 1);
        }
        assert forall|i: int| 0 <= i < r.len() implies x.known(n, #[trigger] r[i])
            && r[i].directive.required() by {
            if i < r0.len() {
                assert(x.known(n - 1, r0[i]));
            } else {
                assert(x.yields(n - 1, r[i]));
            }
        }
        assert forall|i: int| 0 <= i < k.len() implies x.known(n, #[trigger] k[i])
            && !k[i].directive.required() by {
            if i < k0.len() {
                assert(x.known(n - 1, k0[i]));
            } else {
                assert(x.yields(n - 1, k[i]));
            }
        }
        assert forall|i: int| 0 <= i < e.len() implies x.left_out(n, #[trigger] e[i]) by {
            if i < e0.len() {
                assert(x.left_out(n - 1, e0[i]));
            } else {
                assert(x.fates()[n - 1] == (Fate::Excluded { exclusion: e[i] }));
            }
        }
        assert forall|i: int, j: int| 0 <= i < j < r.len() implies (#[trigger] r[i]).node.id != (
        #[trigger] r[j]).node.id by {
            assert(x.known(n - 1, r0[i]));
            if j < r0.len() {
                assert(r0[i].node.id != r0[j].node.id);
            }
        }
        assert forall|i: int, j: int| 0 <= i < j < k.len() implies (#[trigger] k[i]).node.id != (
        #[trigger] k[j]).node.id by {
            assert(x.known(n - 1, k0[i]));
            if j < k0.len() {
                assert(k0[i].node.id != k0[j].node.id);
            }
        }
        assert forall|i: int, j: int| 0 <= i < j < e.len() implies (#[trigger] e[i]).node_id != (
        #[trigger] e[j]).node_id by {
            assert(x.left_out(n - 1, e0[i]));
            if j < e0.len() {
                assert(e0[i].node_id != e0[j].node_id);
            }
        }
    }
}

/// Admissible candidates have distinct identities.
pub proof fn lemma_distinct_ids(candidates: Seq<CandidateModel>, a: int, b: int)
    requires
        all_admissible(candidates),
        0 <= a < candidates.len(),
        0 <= b < candidates.len(),
        a != b,
    ensures
        candidates[a].node.id != candidates[b].node.id,
{
    assert(admissible(candidates, a));
    assert(admissible(candidates, b));
    if a < b {
        assert(!repeated(candidates, b));
    } else {
        assert(!repeated(candidates, a));
    }
}

/// Two prepared candidates of the same identity come from the same candidate.
proof fn lemma_known_fate(x: Inputs, p: PreparedModel, q: PreparedModel)
    requires
        all_admissible(x.candidates),
        x.known(x.candidates.len() as int, p),
        x.known(x.candidates.len() as int, q),
        p.directive.required() != q.directive.required(),
    ensures
        p.node.id != q.node.id,
{
    let n = x.candidates.len() as int;
    let a = choose|k: int| 0 <= k < n && #[trigger] x.yields(k, p);
    let b = choose|k: int| 0 <= k < n && #[trigger] x.yields(k, q);
    assert(x.yields(a, p) && x.yields(b, q));
    if a == b {
    } else {
        lemma_distinct_ids(x.candidates, a, b);
    }
}

/// A prepared candidate is not excluded before selection.
proof fn lemma_known_not_left_out(x: Inputs, p: PreparedModel, e: ExclusionModel)
    requires
        all_admissible(x.candidates),
        x.known(x.candidates.len() as int, p),
        x.left_out(x.candidates.len() as int, e),
    ensures
        p.node.id != e.node_id,
{
    let n = x.candidates.len() as int;
    let a = choose|k: int| 0 <= k < n && #[trigger] x.yields(k, p);
    let b = choose|k: int|
        0 <= k < n && #[trigger] x.fates()[k] == (Fate::Excluded { exclusion: e }) && e.node_id
            == x.candidates[k].node.id;
    assert(x.yields(a, p));
    assert(x.fates()[b] == (Fate::Excluded { exclusion: e }));
    if a != b {
        lemma_distinct_ids(x.candidates, a, b);
    }
}

/// The candidates that a successful compilation includes, in order: the
/// required ones, then the ranked ones that fit.
pub open spec fn chosen(compiler: ContextCompiler, x: Inputs, token_budget: Option<u32>) -> Seq<
    PreparedModel,
> {
    let required = arranged(required_part(x.fates()), selection_order());
    required + fitting(
        arranged(ranked_part(x.fates()), selection_order()),
        spent(0, required),
        compiler.ranked_budget(token_budget),
    )
}

/// The ranked candidates that a successful compilation leaves out for want of
/// budget.
pub open spec fn passed_over(
    compiler: ContextCompiler,
    x: Inputs,
    token_budget: Option<u32>,
) -> Seq<PreparedModel> {
    left_over(
        arranged(ranked_part(x.fates()), selection_order()),
        spent(0, arranged(required_part(x.fates()), selection_order())),
        compiler.ranked_budget(token_budget),
    )
}

/// What a compilation includes is what was chosen.
pub proof fn lemma_compiled_of(compiler: ContextCompiler, x: Inputs, token_budget: Option<u32>)
    ensures
        ({
            let c = compiled_of(compiler, x.fates(), token_budget);
            let list = chosen(compiler, x, token_budget);
            &&& c.nodes == nodes_of(list)
            &&& c.receipt.included == entries_of(list)
            &&& c.receipt.excluded == excluded_part(x.fates()) + budget_exclusions(
                passed_over(compiler, x, token_budget),
            )
            &&& c.receipt.total_token_cost == spent(0, list)
            &&& c.receipt.token_budget == compiler.soft_budget(token_budget)
            &&& c.receipt.absolute_budget == compiler.absolute_budget
            &&& c.receipt.over_soft_budget == (spent(0, list) > compiler.soft_budget(token_budget))
        }),
{
    let f = x.fates();
    let required = arranged(required_part(f), selection_order());
    let ranked = arranged(ranked_part(f), selection_order());
    let budget = compiler.ranked_budget(token_budget);
    let start = unselected(excluded_part(f));
    lemma_including_all(start, required);
    let middle = start.including_all(required);
    lemma_including_fitting(middle, ranked, budget);
    let fit = fitting(ranked, spent(0, required), budget);
    lemma_spent_concat(0, required, fit);
    let c = compiled_of(compiler, f, token_budget);
    assert(c.nodes =~= nodes_of(required + fit));
    assert(c.receipt.included =~= entries_of(required + fit));
}

/// What is chosen is known, distinct, in order, and costs what it should.
pub proof fn lemma_chosen(compiler: ContextCompiler, x: Inputs, token_budget: Option<u32>)
    requires
        all_admissible(x.candidates),
        prepared_cost(arranged(required_part(x.fates()), selection_order()))
            <= compiler.absolute_budget,
    ensures
        ({
            let n = x.candidates.len() as int;
            let list = chosen(compiler, x, token_budget);
            let over = passed_over(compiler, x, token_budget);
            let required = arranged(required_part(x.fates()), selection_order());
            &&& forall|i: int| 0 <= i < list.len() ==> x.known(n, #[trigger] list[i])
            &&& forall|i: int| 0 <= i < over.len() ==> x.known(n, #[trigger] over[i])
            &&& forall|i: int|
                0 <= i < list.len() ==> (#[trigger] list[i]).directive.required() == (i
                    < required.len())
            &&& required.len() <= list.len()
            &&& list.take(required.len() as int) == required
            &&& distinct(list)
            &&& distinct(over)
            &&& disjoint(list, over)
            &&& in_order(list, selection_order())
            &&& spent(0, list) <= compiler.absolute_budget
            &&& list.len() > required.len() ==> spent(0, required) <= compiler.ranked_budget(
                token_budget,
            ) && spent(0, list) <= compiler.ranked_budget(token_budget)
        }),
{
    let n = x.candidates.len() as int;
    let f = x.fates();
    assert(f.take(n) =~= f);
    lemma_parts(x, n);
    lemma_selection_order();
    let before = selection_order();
    let r = required_part(f);
    let k = ranked_part(f);
    let required = arranged(r, before);
    let ranked = arranged(k, before);
    let budget = compiler.ranked_budget(token_budget);
    lemma_prepared_cost_is_spent(required);
    let used = spent(0, required);
    let fit = fitting(ranked, used, budget);
    let over = left_over(ranked, used, budget);
    let list = required + fit;
    let is_required = |p: PreparedModel| x.known(n, p) && p.directive.required();
    let is_ranked = |p: PreparedModel| x.known(n, p) && !p.directive.required();
    let same = |p: PreparedModel, q: PreparedModel| p.node.id == q.node.id;
    assert forall|i: int| 0 <= i < r.len() implies is_required(#[trigger] r[i]) by {}
    assert forall|i: int| 0 <= i < k.len() implies is_ranked(#[trigger] k[i]) by {}
    lemma_arranged_all(r, before, is_required);
    lemma_arranged_all(k, before, is_ranked);
    assert forall|i: int, j: int| 0 <= i < j < r.len() implies !same(
        #[trigger] r[i],
        #[trigger] r[j],
    ) by {}
    assert forall|i: int, j: int| 0 <= i < j < k.len() implies !same(
        #[trigger] k[i],
        #[trigger] k[j],
    ) by {}
    lemma_arranged_distinct(r, before, same);
    lemma_arranged_distinct(k, before, same);
    arranged_is_an_ordering(r, before);
    arranged_is_an_ordering(k, before);
    assert(distinct(required)) by {
        assert forall|i: int, j: int| 0 <= i < j < required.len() implies (
        #[trigger] required[i]).node.id != (#[trigger] required[j]).node.id by {
            assert(!same(required[i], required[j]));
        }
    }
    assert(distinct(ranked)) by {
        assert forall|i: int, j: int| 0 <= i < j < ranked.len() implies (
        #[trigger] ranked[i]).node.id != (#[trigger] ranked[j]).node.id by {
            assert(!same(ranked[i], ranked[j]));
        }
    }
    lemma_fitting(ranked, used, budget);
    lemma_fitting_distinct(ranked, used, budget);
    assert forall|i: int| 0 <= i < fit.len() implies is_ranked(#[trigger] fit[i]) by {
        assert(ranked.contains(fit[i]));
        let m = choose|m: int| 0 <= m < ranked.len() && ranked[m] == fit[i];
        assert(is_ranked(ranked[m]));
    }
    assert forall|i: int| 0 <= i < over.len() implies is_ranked(#[trigger] over[i]) by {
        assert(ranked.contains(over[i]));
        let m = choose|m: int| 0 <= m < ranked.len() && ranked[m] == over[i];
        assert(is_ranked(ranked[m]));
    }
    let m = required.len() as int;
    assert forall|i: int| 0 <= i < list.len() implies x.known(n, #[trigger] list[i])
        && list[i].directive.required() == (i < m) by {
        if i < m {
            assert(is_required(required[i]));
        } else {
            assert(is_ranked(fit[i - m]));
        }
    }
    assert forall|i: int| 0 <= i < over.len() implies x.known(n, #[trigger] over[i]) by {
        assert(is_ranked(over[i]));
    }
    assert forall|i: int, j: int| 0 <= i < j < list.len() implies (#[trigger] list[i]).node.id != (
    #[trigger] list[j]).node.id && !before(list[j], list[i]) by {
        if j < m {
            assert(required[i].node.id != required[j].node.id);
            assert(!before(required[j], required[i]));
        } else if i >= m {
            assert(fit[i - m].node.id != fit[j - m].node.id);
            assert(!before(fit[j - m], fit[i - m]));
        } else {
            assert(is_required(required[i]));
            assert(is_ranked(fit[j - m]));
            lemma_known_fate(x, required[i], fit[j - m]);
        }
    }
    assert forall|i: int, j: int| 0 <= i < list.len() && 0 <= j < over.len() implies (
    #[trigger] list[i]).node.id != (#[trigger] over[j]).node.id by {
        if i < m {
            assert(is_required(required[i]));
            assert(is_ranked(over[j]));
            lemma_known_fate(x, required[i], over[j]);
        } else {
            assert(fit[i - m].node.id != over[j].node.id);
        }
    }
    assert(list.take(m) =~= required);
    lemma_spent_concat(0, required, fit);
    if fit.len() == 0 {
        assert(list =~= required);
    }
}

/// The required cost of the entries of a list whose required candidates stand
/// first.
proof fn lemma_required_entries_cost(list: Seq<PreparedModel>, m: int, i: int)
    requires
        0 <= i <= list.len(),
        0 <= m <= list.len(),
        forall|j: int|
            0 <= j < list.len() ==> (#[trigger] list[j]).directive.well_formed()
                && list[j].directive.required() == (j < m),
    ensures
        required_entries_cost(entries_of(list).take(i)) == spent(
            0,
            list.take(if i < m {
                i
            } else {
                m
            }),
        ),
    decreases i,
{
    let entries = entries_of(list);
    if i == 0 {
        assert(list.take(0) =~= Seq::empty());
    } else {
        lemma_required_entries_cost(list, m, i - 1);
        assert(entries.take(i).drop_last() =~= entries.take(i - 1));
        let p = list[i - 1];
        assert(entries.take(i).last() == entry_of(p));
        reason_reads_back(p.directive);
        if i <= m {
            assert(list.take(i).drop_last() =~= list.take(i - 1));
        }
    }
}

pub proof fn lemma_items_cost(list: Seq<PreparedModel>)
    requires
        forall|i: int|
            0 <= i < list.len() ==> (#[trigger] list[i]).token_cost == item_of(list[i].node).cost(),
    ensures
        items_cost(items_of(nodes_of(list))) == spent(0, list),
    decreases list.len(),
{
    if list.len() > 0 {
        let rest = list.drop_last();
        assert forall|i: int| 0 <= i < rest.len() implies (#[trigger] rest[i]).token_cost
            == item_of(rest[i].node).cost() by {
            assert(list[i].token_cost == item_of(list[i].node).cost());
        }
        lemma_items_cost(rest);
        assert(items_of(nodes_of(list)).drop_last() =~= items_of(nodes_of(rest)));
        assert(list[list.len() - 1].token_cost == item_of(list.last().node).cost());
    }
}

/// The relevances of compiled nodes are those of the candidates they come from.
pub open spec fn agrees(
    x: Inputs,
    compiled: CompiledModel,
    node_relevances: Seq<Result<Relevance, RetrievalError>>,
) -> bool {
    &&& node_relevances.len() == compiled.nodes.len()
    &&& forall|i: int, k: int|
        0 <= i < compiled.nodes.len() && 0 <= k < x.candidates.len()
            && #[trigger] compiled.nodes[i] == (#[trigger] x.candidates[k]).node
            ==> node_relevances[i] == x.relevances[k]
}

/// Validation accepts exactly what the compiler produced: the compiled context,
/// with the capsule projected from it, under the same budget, at the same time
/// and with the same relevances, passes every check. Valid nodes that are named
/// exactly must not score zero or below.
pub proof fn compiled_context_is_accepted(
    compiler: ContextCompiler,
    x: Inputs,
    token_budget: Option<u32>,
    compiled: CompiledContext,
    node_relevances: Seq<Result<Relevance, RetrievalError>>,
)
    requires
        compile_outcome(
            compiler,
            x.candidates,
            x.relevances,
            token_budget,
            x.now,
            Ok::<CompiledContext, ContextCompileError>(compiled),
        ),
        agrees(x, compiled@, node_relevances),
        forall|k: int|
            0 <= k < x.relevances.len() && (#[trigger] x.relevances[k]) is Ok
                && x.relevances[k]->Ok_0.exact && x.candidates[k].node.valid()
                && x.candidates[k].node.active_at(x.now)
                ==> x.relevances[k]->Ok_0.score.positive(),
        x.relevances.len() == x.candidates.len(),
    ensures
        compiled_accepted(
            Expectation {
                compiler,
                token_budget,
                accepted_at: x.now,
                relevances: node_relevances,
            },
            compiled@,
            items_of(compiled@.nodes),
        ),
{
    let e = Expectation { compiler, token_budget, accepted_at: x.now, relevances: node_relevances };
    let c = compiled@;
    let items = items_of(c.nodes);
    let n = x.candidates.len() as int;
    let list = chosen(compiler, x, token_budget);
    let over = passed_over(compiler, x, token_budget);
    let required = arranged(required_part(x.fates()), selection_order());
    let m = required.len() as int;
    lemma_compiled_of(compiler, x, token_budget);
    lemma_chosen(compiler, x, token_budget);
    assert forall|i: int| 0 <= i < list.len() implies {
        let p = #[trigger] list[i];
        &&& p.node.valid()
        &&& p.node.active_at(x.now)
        &&& p.token_cost == item_of(p.node).cost()
        &&& p.directive.well_formed()
        &&& p.directive.required() || p.score.positive()
        &&& node_relevances[i] == Ok::<Relevance, RetrievalError>(
            Relevance { score: p.score, exact: p.exact },
        )
    } by {
        let p = list[i];
        assert(x.known(n, p));
        let k = choose|k: int| 0 <= k < n && #[trigger] x.yields(k, p);
        assert(x.yields(k, p));
        assert(admissible(x.candidates, k));
        assert(c.nodes[i] == x.candidates[k].node);
        assert(x.relevances[k] is Ok);
    }
    lemma_items_cost(list);
    assert(items =~= items_of(nodes_of(list)));
    assert forall|i: int| 0 <= i < items.len() implies item_accepted(#[trigger] items[i], x.now) by {
        assert(list[i].node.valid());
        projection_keeps_validity(list[i].node, x.now);
    }
    assert(same_items(items, items)) by {
        assert forall|i: int| 0 <= i < items.len() implies #[trigger] items[i].same_content(
            items[i],
        ) by {
            assert(list[i].node.valid());
            valid_node_equals_itself(list[i].node);
        }
    }
    assert(frame_accepted(compiler, token_budget, x.now, c, items));
    lemma_exclusions(compiler, x, token_budget);
    lemma_entries_cost(list);
    let entries = entries_of(list);
    assert forall|i: int| 0 <= i < c.nodes.len() implies #[trigger] entry_accepted(
        e,
        c,
        items,
        i,
    ) by {
        let p = list[i];
        let entry = c.receipt.included[i];
        assert(entry == entry_of(p));
        reason_reads_back(p.directive);
        lemma_not_repeated(compiler, x, token_budget, i);
        lemma_required_entries_cost(list, m, i);
        lemma_required_entries_cost(list, m, i + 1);
        assert(entries.take(i) =~= entries_of(list.take(i)));
        assert(entries.take(i + 1) =~= entries_of(list.take(i + 1)));
        lemma_entries_cost(list.take(i));
        lemma_entries_cost(list.take(i + 1));
        assert(list.take(i + 1).drop_last() =~= list.take(i));
        lemma_spent_grows(0, list, i + 1);
        if i > 0 {
            let q = list[i - 1];
            reason_reads_back(q.directive);
            assert(!selection_order()(list[i], list[i - 1]));
            assert(c.receipt.included[i - 1] == entry_of(q));
        }
        if i < m {
            lemma_spent_grows(0, list, i + 1);
        } else {
            assert(list.take(m) =~= required);
        }
        assert(items[i] == item_of(p.node));
    }
}

/// What passes every check is not refused.
proof fn lemma_accepted_is_ok(
    e: Expectation,
    compiled: CompiledModel,
    items: Seq<ItemModel>,
    r: Result<(), CompiledContextValidationError>,
)
    requires
        compiled_accepted(e, compiled, items),
        compiled_verdict(e, compiled, items, r),
    ensures
        r is Ok,
{
    if let Err(f) = r {
        if exists|i: int| #[trigger] reports_entry(e, compiled, items, i, f) {
            let i = choose|i: int| #[trigger] reports_entry(e, compiled, items, i, f);
            assert(entry_accepted(e, compiled, items, i));
        }
    }
}

/// Context compiled for a legacy signature validates: the compiled context and
/// the capsule projected from it pass every check of the same compiler for the
/// same signature, budget and time, where a node is weighed the same each time.
pub proof fn compiled_signatures_validate(
    compiler: ContextCompiler,
    signature: TaskSignature,
    candidates: Seq<CandidateModel>,
    weights: Seq<Binary32>,
    token_budget: Option<u32>,
    now: Timestamp,
    compiled: CompiledContext,
    node_weights: Seq<Binary32>,
    weigh: spec_fn(NodeModel) -> Binary32,
    r: Result<(), CompiledContextValidationError>,
)
    requires
        compile_outcome(
            compiler,
            candidates,
            legacy_relevances(signature, candidates, weights),
            token_budget,
            now,
            Ok::<CompiledContext, ContextCompileError>(compiled),
        ),
        forall|i: int|
            0 <= i < candidates.len() ==> weights[i] == weigh((#[trigger] candidates[i]).node),
        forall|i: int|
            0 <= i < compiled@.nodes.len() ==> node_weights[i] == weigh(
                #[trigger] compiled@.nodes[i],
            ),
        compiled_verdict(
            Expectation {
                compiler,
                token_budget,
                accepted_at: now,
                relevances: legacy_node_relevances(signature, compiled@.nodes, node_weights),
            },
            compiled@,
            items_of(compiled@.nodes),
            r,
        ),
    ensures
        r is Ok,
{
    let x = Inputs {
        candidates,
        relevances: legacy_relevances(signature, candidates, weights),
        now,
    };
    let again = legacy_node_relevances(signature, compiled@.nodes, node_weights);
    assert forall|i: int, k: int|
        0 <= i < compiled@.nodes.len() && 0 <= k < x.candidates.len()
            && #[trigger] compiled@.nodes[i] == (
        #[trigger] x.candidates[k]).node implies again[i] == x.relevances[k] by {
        assert(weights[k] == node_weights[i]);
    }
    compiled_context_is_accepted(compiler, x, token_budget, compiled, again);
    lemma_accepted_is_ok(
        Expectation { compiler, token_budget, accepted_at: now, relevances: again },
        compiled@,
        items_of(compiled@.nodes),
        r,
    );
}

/// Context compiled for a prepared query validates: the compiled context and the
/// capsule projected from it pass every check of the same compiler for the same
/// query, budget and time, where a node is matched the same each time. A match
/// weighs a valid node that is not disputed above zero when the query names it.
pub proof fn compiled_queries_validate(
    compiler: ContextCompiler,
    candidates: Seq<CandidateModel>,
    matches: Seq<QueryMatch>,
    token_budget: Option<u32>,
    now: Timestamp,
    compiled: CompiledContext,
    node_matches: Seq<QueryMatch>,
    answer: spec_fn(NodeModel) -> QueryMatch,
    r: Result<(), CompiledContextValidationError>,
)
    requires
        compile_outcome(
            compiler,
            candidates,
            query_relevances(candidates, matches),
            token_budget,
            now,
            Ok::<CompiledContext, ContextCompileError>(compiled),
        ),
        forall|i: int|
            0 <= i < candidates.len() ==> matches[i] == answer((#[trigger] candidates[i]).node),
        forall|i: int|
            0 <= i < compiled@.nodes.len() ==> node_matches[i] == answer(
                #[trigger] compiled@.nodes[i],
            ),
        forall|n: NodeModel|
            n.valid() && n.epistemic != EpistemicStatus::Disputed && (
            #[trigger] answer(n)).exact == Ok::<bool, RetrievalError>(true)
                ==> answer(n).weighted.positive(),
        compiled_verdict(
            Expectation {
                compiler,
                token_budget,
                accepted_at: now,
                relevances: query_node_relevances(compiled@.nodes, node_matches),
            },
            compiled@,
            items_of(compiled@.nodes),
            r,
        ),
    ensures
        r is Ok,
{
    let x = Inputs { candidates, relevances: query_relevances(candidates, matches), now };
    let again = query_node_relevances(compiled@.nodes, node_matches);
    assert forall|i: int, k: int|
        0 <= i < compiled@.nodes.len() && 0 <= k < x.candidates.len()
            && #[trigger] compiled@.nodes[i] == (
        #[trigger] x.candidates[k]).node implies again[i] == x.relevances[k] by {
        assert(matches[k] == node_matches[i]);
    }
    assert forall|k: int|
        0 <= k < x.relevances.len() && (#[trigger] x.relevances[k]) is Ok
            && x.relevances[k]->Ok_0.exact && x.candidates[k].node.valid()
            && x.candidates[k].node.active_at(
            x.now,
        ) implies x.relevances[k]->Ok_0.score.positive() by {
        assert(matches[k] == answer(candidates[k].node));
    }
    compiled_context_is_accepted(compiler, x, token_budget, compiled, again);
    lemma_accepted_is_ok(
        Expectation { compiler, token_budget, accepted_at: now, relevances: again },
        compiled@,
        items_of(compiled@.nodes),
        r,
    );
}

proof fn lemma_exclusions(compiler: ContextCompiler, x: Inputs, token_budget: Option<u32>)
    requires
        all_admissible(x.candidates),
        prepared_cost(arranged(required_part(x.fates()), selection_order()))
            <= compiler.absolute_budget,
    ensures
        exclusions_distinct(compiled_of(compiler, x.fates(), token_budget).receipt.excluded),
{
    let n = x.candidates.len() as int;
    let f = x.fates();
    assert(f.take(n) =~= f);
    lemma_compiled_of(compiler, x, token_budget);
    lemma_chosen(compiler, x, token_budget);
    lemma_parts(x, n);
    let early = excluded_part(f);
    let over = passed_over(compiler, x, token_budget);
    let all = compiled_of(compiler, f, token_budget).receipt.excluded;
    assert forall|i: int, j: int| 0 <= j < i < all.len() implies (#[trigger] all[j]).node_id != (
    #[trigger] all[i]).node_id by {
        if i < early.len() {
            assert(early[j].node_id != early[i].node_id);
        } else if j >= early.len() {
            assert(over[j - early.len()].node.id != over[i - early.len()].node.id);
        } else {
            assert(x.left_out(n, early[j]));
            assert(x.known(n, over[i - early.len()]));
            lemma_known_not_left_out(x, over[i - early.len()], early[j]);
        }
    }
    assert forall|i: int| 0 <= i < all.len() implies !#[trigger] exclusion_repeated(all, i) by {}
}

proof fn lemma_not_repeated(
    compiler: ContextCompiler,
    x: Inputs,
    token_budget: Option<u32>,
    i: int,
)
    requires
        all_admissible(x.candidates),
        prepared_cost(arranged(required_part(x.fates()), selection_order()))
            <= compiler.absolute_budget,
        0 <= i < chosen(compiler, x, token_budget).len(),
    ensures
        !entry_repeated(compiled_of(compiler, x.fates(), token_budget), i),
{
    let n = x.candidates.len() as int;
    let f = x.fates();
    assert(f.take(n) =~= f);
    lemma_compiled_of(compiler, x, token_budget);
    lemma_chosen(compiler, x, token_budget);
    lemma_parts(x, n);
    let c = compiled_of(compiler, f, token_budget);
    let list = chosen(compiler, x, token_budget);
    let early = excluded_part(f);
    let over = passed_over(compiler, x, token_budget);
    let all = c.receipt.excluded;
    assert(c.receipt.included[i].node_id == list[i].node.id);
    assert forall|j: int| 0 <= j < all.len() implies (#[trigger] all[j]).node_id
        != list[i].node.id by {
        if j < early.len() {
            assert(x.left_out(n, early[j]));
            assert(x.known(n, list[i]));
            lemma_known_not_left_out(x, list[i], early[j]);
        } else {
            assert(list[i].node.id != over[j - early.len()].node.id);
        }
    }
    assert forall|j: int| 0 <= j < i implies (#[trigger] c.receipt.included[j]).node_id
        != list[i].node.id by {
        assert(list[j].node.id != list[i].node.id);
    }
}

/// A successful compilation stays under the absolute ceiling, includes every
/// required candidate, and exceeds the soft budget only where the required
/// candidates alone do.
pub proof fn compilation_respects_budgets(
    compiler: ContextCompiler,
    x: Inputs,
    token_budget: Option<u32>,
    compiled: CompiledContext,
)
    requires
        compile_outcome(
            compiler,
            x.candidates,
            x.relevances,
            token_budget,
            x.now,
            Ok::<CompiledContext, ContextCompileError>(compiled),
        ),
        x.relevances.len() == x.candidates.len(),
    ensures
        compiled@.receipt.total_token_cost <= compiler.absolute_budget,
        compiled@.nodes.len() >= required_part(x.fates()).len(),
        compiled@.receipt.over_soft_budget ==> compiled@.nodes.len() == required_part(
            x.fates(),
        ).len(),
        forall|k: int|
            0 <= k < x.candidates.len() && (#[trigger] x.candidates[k]).directive.required()
                ==> compiled@.nodes.contains(x.candidates[k].node),
{
    let f = x.fates();
    let before = selection_order();
    let required = arranged(required_part(f), before);
    let list = chosen(compiler, x, token_budget);
    lemma_compiled_of(compiler, x, token_budget);
    lemma_chosen(compiler, x, token_budget);
    lemma_selection_order();
    arranged_is_an_ordering(required_part(f), before);
    let m = required.len() as int;
    assert forall|k: int|
        0 <= k < x.candidates.len() && (
        #[trigger] x.candidates[k]).directive.required() implies compiled@.nodes.contains(
        x.candidates[k].node,
    ) by {
        assert(!f[k].fatal());
        lemma_required_part_contains(f, k);
        let p = f[k]->Required_prepared;
        lemma_arranged_contains(required_part(f), p);
        let i = choose|i: int| 0 <= i < required.len() && required[i] == p;
        assert(list[i] == list.take(m)[i]);
        assert(compiled@.nodes[i] == p.node);
    }
}

proof fn lemma_required_part_contains(f: Seq<Fate>, k: int)
    requires
        0 <= k < f.len(),
        f[k] is Required,
    ensures
        required_part(f).contains(f[k]->Required_prepared),
    decreases f.len(),
{
    let p = f[k]->Required_prepared;
    let rest = required_part(f.drop_last());
    let whole = required_part(f);
    if k == f.len() - 1 {
        assert(whole[rest.len() as int] == p);
    } else {
        assert(f.drop_last()[k] == f[k]);
        lemma_required_part_contains(f.drop_last(), k);
        let i = choose|i: int| 0 <= i < rest.len() && rest[i] == p;
        assert(whole[i] == p);
    }
}

proof fn lemma_arranged_contains(s: Seq<PreparedModel>, p: PreparedModel)
    requires
        s.contains(p),
    ensures
        arranged(s, selection_order()).contains(p),
{
    broadcast use vstd::seq_lib::group_to_multiset_ensures;

    lemma_selection_order();
    arranged_is_an_ordering(s, selection_order());
    assert(s.to_multiset().contains(p));
}

/// Every candidate of a successful compilation is accounted for once: its
/// identity is either that of one included entry or that of one exclusion.
pub proof fn every_candidate_is_accounted_for(
    compiler: ContextCompiler,
    x: Inputs,
    token_budget: Option<u32>,
    compiled: CompiledContext,
)
    requires
        compile_outcome(
            compiler,
            x.candidates,
            x.relevances,
            token_budget,
            x.now,
            Ok::<CompiledContext, ContextCompileError>(compiled),
        ),
        x.relevances.len() == x.candidates.len(),
    ensures
        compiled@.receipt.included.len() + compiled@.receipt.excluded.len() == x.candidates.len(),
        exclusions_distinct(compiled@.receipt.excluded),
        forall|i: int|
            0 <= i < compiled@.receipt.included.len() ==> !#[trigger] entry_repeated(
                compiled@,
                i,
            ),
{
    let f = x.fates();
    let before = selection_order();
    lemma_compiled_of(compiler, x, token_budget);
    lemma_chosen(compiler, x, token_budget);
    lemma_exclusions(compiler, x, token_budget);
    lemma_selection_order();
    arranged_is_an_ordering(required_part(f), before);
    arranged_is_an_ordering(ranked_part(f), before);
    let required = arranged(required_part(f), before);
    let ranked = arranged(ranked_part(f), before);
    lemma_fitting(ranked, spent(0, required), compiler.ranked_budget(token_budget));
    lemma_part_lengths(f);
    assert forall|i: int| 0 <= i < compiled@.receipt.included.len() implies !#[trigger] entry_repeated(
        compiled@,
        i,
    ) by {
        lemma_not_repeated(compiler, x, token_budget, i);
    }
}

proof fn lemma_part_lengths(f: Seq<Fate>)
    requires
        none_fatal(f),
    ensures
        required_part(f).len() + ranked_part(f).len() + excluded_part(f).len() == f.len(),
    decreases f.len(),
{
    if f.len() > 0 {
        assert(!f[f.len() - 1].fatal());
        assert forall|i: int| 0 <= i < f.drop_last().len() implies !(
        #[trigger] f.drop_last()[i]).fatal() by {
            assert(!f[i].fatal());
        }
        lemma_part_lengths(f.drop_last());
    }
}

} // verus!
