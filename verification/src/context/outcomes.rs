//! What becomes of each candidate of a compilation, told from its own fields.

use vstd::prelude::*;

use crate::binary32::Binary32;
use crate::context::candidate::{CandidateModel, DirectiveModel};
use crate::context::capsule::item_of;
use crate::context::compiler::{
    all_admissible, compile_outcome, excluded_part, fate, inactive_text,
    legacy_relevances, ranked_part, repeated, reports_fatal, reports_inadmissible, required_part,
    ContextCompileError, ContextCompiler, Fate,
};
use crate::context::laws::{
    budget_exclusions, chosen, fitting, left_over, lemma_chosen, lemma_compiled_of,
    lemma_distinct_ids, lemma_fitting, lemma_parts, lemma_spent_concat, passed_over, spent, Inputs,
};
use crate::context::node::{
    fault_text, node_verdict, ContextOrigin, ContextScope, ContextValidationError,
    EpistemicStatus, NodeModel,
};
use crate::context::receipt::{CompiledContext, ContextExclusionReason};
use crate::context::searching::{
    shared_words_make_relevance, signatures_are_searched_for_their_own_words,
};
use crate::context::selection::{
    entry_of, lemma_selection_order, selection_order, selection_order_is_total, PreparedModel,
};
use crate::context::signature::{
    alphanumeric, is_token, spaced, token_set, Relevance, TaskSignature,
};
use crate::order::{arranged, arranged_is_an_ordering};
use crate::retrieval::RetrievalError;
use crate::text::{blank, text_less};
use crate::time::Timestamp;

verus! {

/// A node is valid where its identity and summary say something, its confidence
/// lies between zero and one, every source it names has a name, it names at least
/// one unless it lasts for a turn, it is not a model's bare assertion, and its
/// window opens before it closes.
pub proof fn valid_nodes_follow_every_rule(n: NodeModel)
    ensures
        n.valid() <==> {
            &&& !blank(n.id)
            &&& !blank(n.summary)
            &&& n.confidence.bits <= 0x3f80_0000 || n.confidence.bits == 0x8000_0000
            &&& n.scope == ContextScope::Turn || (n.source_event_ids.len() > 0 && forall|i: int|
                0 <= i < n.source_event_ids.len() ==> !blank(#[trigger] n.source_event_ids[i]))
            &&& !(n.origin == ContextOrigin::Model && n.epistemic == EpistemicStatus::Asserted)
            &&& n.valid_from is Some && n.valid_until is Some ==> n.valid_from->0.secs
                < n.valid_until->0.secs || (n.valid_from->0.secs == n.valid_until->0.secs
                && n.valid_from->0.nanos < n.valid_until->0.nanos)
        },
{
}

/// A refused node breaks the rule that the refusal names and keeps those that come
/// before it: identity, summary, confidence, provenance, assertion, window.
pub proof fn refused_nodes_break_the_named_rule(
    n: NodeModel,
    r: Result<(), ContextValidationError>,
)
    requires
        node_verdict(n, r),
    ensures
        r is Ok <==> n.valid(),
        r matches Err(ContextValidationError::EmptyId) ==> blank(n.id),
        blank(n.id) ==> r is Err && r->Err_0 is EmptyId,
        r matches Err(ContextValidationError::EmptySummary { node_id }) ==> !blank(n.id) && blank(
            n.summary,
        ) && node_id@ == n.id,
        r matches Err(ContextValidationError::InvalidConfidence { node_id, confidence }) ==> !blank(
            n.summary,
        ) && n.confidence.bits > 0x3f80_0000 && n.confidence.bits != 0x8000_0000 && confidence
            == n.confidence && node_id@ == n.id,
        r matches Err(ContextValidationError::MissingProvenance { subject_id }) ==> n.scope
            != ContextScope::Turn && (n.source_event_ids.len() == 0 || exists|i: int|
            0 <= i < n.source_event_ids.len() && blank(#[trigger] n.source_event_ids[i]))
            && subject_id@ == n.id,
        r matches Err(ContextValidationError::ModelCannotAssert { node_id }) ==> n.origin
            == ContextOrigin::Model && n.epistemic == EpistemicStatus::Asserted && node_id@ == n.id,
        r matches Err(ContextValidationError::InvalidValidityWindow { node_id }) ==> n.valid_from
            is Some && n.valid_until is Some && (n.valid_until->0.secs < n.valid_from->0.secs || (
        n.valid_until->0.secs == n.valid_from->0.secs && n.valid_until->0.nanos
            <= n.valid_from->0.nanos)) && node_id@ == n.id,
        !(r matches Err(ContextValidationError::MissingNode { .. })),
        !(r matches Err(ContextValidationError::DuplicateNode { .. })),
{
}

/// The window of a node holds its first moment and not its last: a node is active
/// from the second and nanosecond at which it opens until just before the ones at
/// which it closes, unless it is disputed.
pub proof fn windows_are_half_open(n: NodeModel, now: Timestamp)
    ensures
        n.epistemic == EpistemicStatus::Disputed ==> !n.active_at(now),
        n.valid_from == Some(now) && n.valid_until is None && n.epistemic
            != EpistemicStatus::Disputed ==> n.active_at(now),
        n.valid_until == Some(now) ==> !n.active_at(now),
        n.valid_from is Some && (now.secs < n.valid_from->0.secs || (now.secs
            == n.valid_from->0.secs && now.nanos < n.valid_from->0.nanos)) ==> !n.active_at(now),
        n.valid_until is Some && (now.secs > n.valid_until->0.secs || (now.secs
            == n.valid_until->0.secs && now.nanos >= n.valid_until->0.nanos)) ==> !n.active_at(now),
        n.epistemic != EpistemicStatus::Disputed && (n.valid_from is None || n.valid_from->0.secs
            < now.secs || (n.valid_from->0.secs == now.secs && n.valid_from->0.nanos <= now.nanos))
            && (n.valid_until is None || now.secs < n.valid_until->0.secs || (now.secs
            == n.valid_until->0.secs && now.nanos < n.valid_until->0.nanos)) ==> n.active_at(now),
{
}

/// The cause that is given for an inactive node holds of it; a dispute is named
/// first, then a window that has closed, then one that has not opened.
pub proof fn inactive_nodes_are_given_their_cause(n: NodeModel, now: Timestamp)
    ensures
        n.epistemic == EpistemicStatus::Disputed ==> inactive_text(n, now)
            == "epistemic status is disputed"@,
        n.epistemic != EpistemicStatus::Disputed && n.valid_until is Some && (now.secs
            > n.valid_until->0.secs || (now.secs == n.valid_until->0.secs && now.nanos
            >= n.valid_until->0.nanos)) ==> inactive_text(n, now)
            == "validity window has expired"@,
        n.epistemic != EpistemicStatus::Disputed && n.valid_from is Some && (now.secs
            < n.valid_from->0.secs || (now.secs == n.valid_from->0.secs && now.nanos
            < n.valid_from->0.nanos)) && n.valid() ==> inactive_text(n, now)
            == "validity window has not started"@,
        n.active_at(now) ==> inactive_text(n, now) == "not valid at the requested time"@,
{
}

/// Where an exclusion of a candidate comes from.
proof fn lemma_exclusion_source(
    compiler: ContextCompiler,
    x: Inputs,
    token_budget: Option<u32>,
    compiled: CompiledContext,
    k: int,
    i: int,
)
    requires
        compile_outcome(
            compiler,
            x.candidates,
            x.relevances,
            token_budget,
            x.now,
            Ok::<CompiledContext, ContextCompileError>(compiled),
        ),
        0 <= k < x.candidates.len(),
        0 <= i < compiled@.receipt.excluded.len(),
        compiled@.receipt.excluded[i].node_id == x.candidates[k].node.id,
    ensures
        ({
            let e = compiled@.receipt.excluded[i];
            ||| x.fates()[k] == (Fate::Excluded { exclusion: e })
            ||| {
                &&& x.fates()[k] is Ranked
                &&& e.reason == ContextExclusionReason::TokenBudget
                &&& e.detail is None
                &&& exists|j: int|
                    0 <= j < passed_over(compiler, x, token_budget).len() && #[trigger] passed_over(
                        compiler,
                        x,
                        token_budget,
                    )[j] == x.fates()[k]->Ranked_prepared
            }
        }),
{
    let n = x.candidates.len() as int;
    let f = x.fates();
    let e = compiled@.receipt.excluded[i];
    let early = excluded_part(f);
    let over = passed_over(compiler, x, token_budget);
    assert(f.take(n) =~= f);
    lemma_compiled_of(compiler, x, token_budget);
    lemma_chosen(compiler, x, token_budget);
    lemma_parts(x, n);
    if i < early.len() {
        assert(early[i] == e);
        assert(x.left_out(n, early[i]));
        let c = choose|c: int|
            0 <= c < n && #[trigger] x.fates()[c] == (Fate::Excluded { exclusion: e }) && e.node_id
                == x.candidates[c].node.id;
        assert(x.fates()[c] == (Fate::Excluded { exclusion: e }));
        if c != k {
            lemma_distinct_ids(x.candidates, c, k);
        }
    } else {
        let j = i - early.len();
        assert(x.known(n, over[j]));
        let c = choose|c: int| 0 <= c < n && #[trigger] x.yields(c, over[j]);
        assert(x.yields(c, over[j]));
        assert(e == budget_exclusions(over)[j]);
        if c != k {
            lemma_distinct_ids(x.candidates, c, k);
        }
        lemma_passed_over_is_ranked(compiler, x, token_budget, j);
        assert(over[j] == f[k]->Ranked_prepared);
    }
}

proof fn lemma_passed_over_is_ranked(
    compiler: ContextCompiler,
    x: Inputs,
    token_budget: Option<u32>,
    j: int,
)
    requires
        all_admissible(x.candidates),
        0 <= j < passed_over(compiler, x, token_budget).len(),
    ensures
        !passed_over(compiler, x, token_budget)[j].directive.required(),
{
    broadcast use vstd::seq_lib::group_to_multiset_ensures;

    let n = x.candidates.len() as int;
    let f = x.fates();
    let ranked = arranged(ranked_part(f), selection_order());
    let used = spent(0, arranged(required_part(f), selection_order()));
    let over = passed_over(compiler, x, token_budget);
    assert(f.take(n) =~= f);
    lemma_parts(x, n);
    lemma_fitting(ranked, used, compiler.ranked_budget(token_budget));
    lemma_selection_order();
    arranged_is_an_ordering(ranked_part(f), selection_order());
    assert(ranked.contains(over[j]));
    assert(ranked.to_multiset().contains(over[j]));
    assert(ranked_part(f).to_multiset().contains(over[j]));
    assert(ranked_part(f).contains(over[j]));
}

/// An exclusion tells why its candidate was left out, and says nothing untrue: only
/// a ranked candidate is ever left out; it is invalid, or else inactive, or else
/// neither named nor scored above zero, or else too dear, and the reason says
/// which. Only an invalid one is left out with details.
pub proof fn exclusions_say_why(
    compiler: ContextCompiler,
    x: Inputs,
    token_budget: Option<u32>,
    compiled: CompiledContext,
    k: int,
    i: int,
)
    requires
        compile_outcome(
            compiler,
            x.candidates,
            x.relevances,
            token_budget,
            x.now,
            Ok::<CompiledContext, ContextCompileError>(compiled),
        ),
        0 <= k < x.candidates.len(),
        0 <= i < compiled@.receipt.excluded.len(),
        compiled@.receipt.excluded[i].node_id == x.candidates[k].node.id,
    ensures
        ({
            let c = x.candidates[k];
            let e = compiled@.receipt.excluded[i];
            &&& c.directive is Ranked
            &&& e.reason == ContextExclusionReason::Invalid <==> !c.node.valid()
            &&& e.reason == ContextExclusionReason::DisputedOrExpired <==> c.node.valid()
                && !c.node.active_at(x.now)
            &&& e.reason == ContextExclusionReason::Irrelevant <==> {
                &&& c.node.valid()
                &&& c.node.active_at(x.now)
                &&& !x.relevances[k]->Ok_0.exact
                &&& !(0 < x.relevances[k]->Ok_0.score.bits <= 0x7f80_0000)
            }
            &&& e.reason == ContextExclusionReason::TokenBudget <==> {
                &&& c.node.valid()
                &&& c.node.active_at(x.now)
                &&& x.relevances[k]->Ok_0.exact || (0 < x.relevances[k]->Ok_0.score.bits
                    <= 0x7f80_0000)
            }
            &&& e.detail is Some <==> !c.node.valid()
            &&& !c.node.valid() ==> e.detail == Some(fault_text(c.node.fault()->0, c.node))
        }),
{
    lemma_exclusion_source(compiler, x, token_budget, compiled, k, i);
    assert(!x.fates()[k].fatal());
}

/// What a spent budget leaves out did not fit.
pub proof fn lemma_left_over_did_not_fit(
    list: Seq<PreparedModel>,
    used: u32,
    budget: u32,
    p: PreparedModel,
)
    requires
        left_over(list, used, budget).contains(p),
    ensures
        spent(used, fitting(list, used, budget)) + p.token_cost > budget,
    decreases list.len(),
{
    if list.len() > 0 {
        let rest = list.drop_last();
        let before = left_over(rest, used, budget);
        let over = left_over(list, used, budget);
        let i = choose|i: int| 0 <= i < over.len() && over[i] == p;
        if i < before.len() {
            assert(before[i] == p);
            lemma_left_over_did_not_fit(rest, used, budget, p);
            let fit = fitting(list, used, budget);
            if fit.len() > fitting(rest, used, budget).len() {
                assert(fit.drop_last() =~= fitting(rest, used, budget));
            }
        }
    }
}

/// Nothing that would still fit is left out for want of budget: the tokens of the
/// candidate together with those of the whole result exceed the caller's budget or
/// the absolute one. Where anything ranked is included, the result stays within
/// both.
pub proof fn budgets_are_used_up(
    compiler: ContextCompiler,
    x: Inputs,
    token_budget: Option<u32>,
    compiled: CompiledContext,
    k: int,
    i: int,
)
    requires
        compile_outcome(
            compiler,
            x.candidates,
            x.relevances,
            token_budget,
            x.now,
            Ok::<CompiledContext, ContextCompileError>(compiled),
        ),
        0 <= k < x.candidates.len(),
        0 <= i < compiled@.receipt.excluded.len(),
        compiled@.receipt.excluded[i].node_id == x.candidates[k].node.id,
        compiled@.receipt.excluded[i].reason == ContextExclusionReason::TokenBudget,
    ensures
        ({
            let total = compiled@.receipt.total_token_cost + item_of(x.candidates[k].node).cost();
            ||| total > compiler.absolute_budget
            ||| token_budget is Some && total > token_budget->0
            ||| token_budget is None && total > compiler.default_budget
        }),
{
    let f = x.fates();
    lemma_exclusion_source(compiler, x, token_budget, compiled, k, i);
    lemma_compiled_of(compiler, x, token_budget);
    assert(!f[k].fatal());
    let over = passed_over(compiler, x, token_budget);
    let p = f[k]->Ranked_prepared;
    let j = choose|j: int| 0 <= j < over.len() && #[trigger] over[j] == p;
    assert(over[j] == p);
    let required = arranged(required_part(f), selection_order());
    let ranked = arranged(ranked_part(f), selection_order());
    let budget = compiler.ranked_budget(token_budget);
    lemma_left_over_did_not_fit(ranked, spent(0, required), budget, p);
    lemma_spent_concat(0, required, fitting(
        ranked,
        spent(0, required),
        budget,
    ));
}

/// Every entry describes the candidate whose identity it bears: its node is
/// included unchanged, valid and active, with the reason of its directive, the
/// score of its relevance and the cost of its item. A ranked one was named exactly
/// or scored above zero.
pub proof fn entries_describe_their_candidates(
    compiler: ContextCompiler,
    x: Inputs,
    token_budget: Option<u32>,
    compiled: CompiledContext,
    k: int,
    i: int,
)
    requires
        compile_outcome(
            compiler,
            x.candidates,
            x.relevances,
            token_budget,
            x.now,
            Ok::<CompiledContext, ContextCompileError>(compiled),
        ),
        0 <= k < x.candidates.len(),
        0 <= i < compiled@.nodes.len(),
        compiled@.nodes[i].id == x.candidates[k].node.id,
    ensures
        ({
            let c = x.candidates[k];
            let e = compiled@.receipt.included[i];
            &&& compiled@.receipt.included.len() == compiled@.nodes.len()
            &&& compiled@.nodes[i] == c.node
            &&& e.node_id == c.node.id
            &&& e.source_event_ids == c.node.source_event_ids
            &&& e.epistemic == c.node.epistemic
            &&& x.relevances[k] is Ok
            &&& e.score == x.relevances[k]->Ok_0.score
            &&& e.token_cost == item_of(c.node).cost()
            &&& c.node.valid()
            &&& c.node.active_at(x.now)
            &&& c.directive is Ranked ==> e.reason == "task-relevance"@ && (
            x.relevances[k]->Ok_0.exact || 0 < x.relevances[k]->Ok_0.score.bits <= 0x7f80_0000)
            &&& c.directive is UserPinned ==> e.reason == "user-pinned"@
            &&& c.directive matches DirectiveModel::PolicyRequired { reason } ==> e.reason
                == "policy-required: "@ + reason
        }),
{
    let n = x.candidates.len() as int;
    let list = chosen(compiler, x, token_budget);
    lemma_compiled_of(compiler, x, token_budget);
    lemma_chosen(compiler, x, token_budget);
    assert(compiled@.nodes[i] == list[i].node);
    assert(x.known(n, list[i]));
    let c = choose|c: int| 0 <= c < n && #[trigger] x.yields(c, list[i]);
    assert(x.yields(c, list[i]));
    if c != k {
        lemma_distinct_ids(x.candidates, c, k);
    }
    assert(compiled@.receipt.included[i] == entry_of(list[i]));
}

/// Entries stand in the order of their claims: what policy requires comes before
/// what the user pinned, and that before what was ranked; among equals, what is
/// named exactly comes before what is not, then the higher score, then the lesser
/// identity.
pub proof fn entries_stand_in_order(
    compiler: ContextCompiler,
    x: Inputs,
    token_budget: Option<u32>,
    compiled: CompiledContext,
    a: int,
    b: int,
    i: int,
    j: int,
)
    requires
        compile_outcome(
            compiler,
            x.candidates,
            x.relevances,
            token_budget,
            x.now,
            Ok::<CompiledContext, ContextCompileError>(compiled),
        ),
        0 <= a < x.candidates.len(),
        0 <= b < x.candidates.len(),
        0 <= i < j < compiled@.nodes.len(),
        compiled@.nodes[i].id == x.candidates[a].node.id,
        compiled@.nodes[j].id == x.candidates[b].node.id,
    ensures
        ({
            let (p, q) = (x.candidates[a].directive, x.candidates[b].directive);
            let (r, s) = (x.relevances[a]->Ok_0, x.relevances[b]->Ok_0);
            let alike = (p is Ranked && q is Ranked) || (p is UserPinned && q is UserPinned) || (
            p is PolicyRequired && q is PolicyRequired);
            &&& a != b
            &&& q is PolicyRequired ==> p is PolicyRequired
            &&& p is Ranked ==> q is Ranked
            &&& alike && s.exact ==> r.exact
            &&& alike && r.exact == s.exact && r.score.bits < 0x8000_0000 && s.score.bits
                < 0x8000_0000 ==> r.score.bits >= s.score.bits
            &&& alike && r.exact == s.exact && s.score.bits < 0x8000_0000 ==> r.score.bits
                < 0x8000_0000
            &&& alike && r.exact == s.exact && r.score.bits >= 0x8000_0000 && s.score.bits
                >= 0x8000_0000 ==> r.score.bits <= s.score.bits
            &&& alike && r == s ==> text_less(x.candidates[a].node.id, x.candidates[b].node.id)
        }),
{
    let n = x.candidates.len() as int;
    let list = chosen(compiler, x, token_budget);
    lemma_compiled_of(compiler, x, token_budget);
    lemma_chosen(compiler, x, token_budget);
    assert(compiled@.nodes[i] == list[i].node && compiled@.nodes[j] == list[j].node);
    assert(x.known(n, list[i]) && x.known(n, list[j]));
    let c = choose|c: int| 0 <= c < n && #[trigger] x.yields(c, list[i]);
    let d = choose|d: int| 0 <= d < n && #[trigger] x.yields(d, list[j]);
    assert(x.yields(c, list[i]) && x.yields(d, list[j]));
    if c != a {
        lemma_distinct_ids(x.candidates, c, a);
    }
    if d != b {
        lemma_distinct_ids(x.candidates, d, b);
    }
    assert(list[i].node.id != list[j].node.id);
    assert(!selection_order()(list[j], list[i]));
    selection_order_is_total(list[i], list[j], list[i]);
}

/// A refused compilation has the fault that the refusal names: an identity that
/// occurs twice, a policy without a reason, a required candidate that is invalid or
/// inactive, a failed retrieval of one that is neither, or required candidates that
/// cost more than the absolute budget.
pub proof fn refusals_name_a_fault(
    compiler: ContextCompiler,
    x: Inputs,
    token_budget: Option<u32>,
    e: ContextCompileError,
)
    requires
        compile_outcome(
            compiler,
            x.candidates,
            x.relevances,
            token_budget,
            x.now,
            Err::<CompiledContext, ContextCompileError>(e),
        ),
    ensures
        e matches ContextCompileError::DuplicateCandidate { node_id } ==> exists|a: int, b: int|
            0 <= a < b < x.candidates.len() && (#[trigger] x.candidates[a]).node.id == node_id@ && (
            #[trigger] x.candidates[b]).node.id == node_id@,
        e matches ContextCompileError::InvalidPolicyReason { node_id } ==> exists|a: int|
            0 <= a < x.candidates.len() && (#[trigger] x.candidates[a]).node.id == node_id@ && (
            x.candidates[a].directive matches DirectiveModel::PolicyRequired { reason } && blank(
                reason,
            )),
        e matches ContextCompileError::InvalidRequiredContext { node_id, reason } ==> exists|a: int|
            0 <= a < x.candidates.len() && (#[trigger] x.candidates[a]).node.id == node_id@
                && !(x.candidates[a].directive is Ranked) && (if x.candidates[a].node.valid() {
                !x.candidates[a].node.active_at(x.now) && reason@ == inactive_text(
                    x.candidates[a].node,
                    x.now,
                )
            } else {
                reason@ == fault_text(x.candidates[a].node.fault()->0, x.candidates[a].node)
            }),
        e matches ContextCompileError::Retrieval(error) ==> exists|a: int|
            0 <= a < x.candidates.len() && x.relevances[a] == Err::<Relevance, RetrievalError>(
                error,
            ) && (#[trigger] x.candidates[a]).node.valid() && x.candidates[a].node.active_at(x.now),
        e matches ContextCompileError::RequiredContextBudgetExceeded { used, absolute_budget }
            ==> absolute_budget == compiler.absolute_budget && used > absolute_budget,
{
    if exists|i: int| #[trigger] reports_inadmissible(e, x.candidates, i) {
        let i = choose|i: int| #[trigger] reports_inadmissible(e, x.candidates, i);
        if repeated(x.candidates, i) {
            let j = choose|j: int|
                0 <= j < i && (#[trigger] x.candidates[j]).node.id == x.candidates[i].node.id;
            assert(x.candidates[j].node.id == x.candidates[i].node.id);
        } else {
            assert(x.candidates[i].directive matches DirectiveModel::PolicyRequired { reason }
                && blank(reason));
        }
    } else if exists|i: int| #[trigger] reports_fatal(e, x.candidates, x.fates(), i) {
        let i = choose|i: int| #[trigger] reports_fatal(e, x.candidates, x.fates(), i);
        assert(x.fates()[i].fatal());
        assert(x.candidates[i].node.id == x.candidates[i].node.id);
    }
}

/// A sound request compiles: candidates of distinct identity, each with a reason
/// where policy requires it, each valid and active where it is required, each with
/// a relevance, and required candidates within the absolute budget, are refused
/// for nothing.
pub proof fn sound_requests_compile(
    compiler: ContextCompiler,
    x: Inputs,
    token_budget: Option<u32>,
    r: Result<CompiledContext, ContextCompileError>,
)
    requires
        compile_outcome(compiler, x.candidates, x.relevances, token_budget, x.now, r),
        forall|a: int, b: int|
            0 <= a < b < x.candidates.len() ==> (#[trigger] x.candidates[a]).node.id != (
            #[trigger] x.candidates[b]).node.id,
        forall|a: int|
            0 <= a < x.candidates.len() ==> ((
            #[trigger] x.candidates[a]).directive matches DirectiveModel::PolicyRequired { reason }
                ==> !blank(reason)),
        forall|a: int|
            0 <= a < x.candidates.len() && !((#[trigger] x.candidates[a]).directive is Ranked)
                ==> x.candidates[a].node.valid() && x.candidates[a].node.active_at(x.now),
        forall|a: int| 0 <= a < x.relevances.len() ==> (#[trigger] x.relevances[a]) is Ok,
        x.relevances.len() == x.candidates.len(),
    ensures
        r is Ok || (r->Err_0 is RequiredContextBudgetExceeded),
{
    if let Err(e) = r {
        if exists|i: int| #[trigger] reports_inadmissible(e, x.candidates, i) {
            let i = choose|i: int| #[trigger] reports_inadmissible(e, x.candidates, i);
            if repeated(x.candidates, i) {
                let j = choose|j: int|
                    0 <= j < i && (#[trigger] x.candidates[j]).node.id == x.candidates[i].node.id;
                assert(x.candidates[j].node.id == x.candidates[i].node.id);
            }
            assert(x.candidates[i].directive.well_formed());
            assert(false);
        } else if exists|i: int| #[trigger] reports_fatal(e, x.candidates, x.fates(), i) {
            let i = choose|i: int| #[trigger] reports_fatal(e, x.candidates, x.fates(), i);
            let c = x.candidates[i];
            assert(x.relevances[i] is Ok);
            assert(false);
        }
    }
}

/// What shares a word with the task is not irrelevant: a candidate of positive
/// weight whose summary has a token of the request, the goal, any entity, any
/// constraint or the expected effect is never left out as irrelevant. A space is
/// not alphanumeric.
pub proof fn shared_words_are_relevant(
    compiler: ContextCompiler,
    signature: TaskSignature,
    candidates: Seq<CandidateModel>,
    weights: Seq<Binary32>,
    token_budget: Option<u32>,
    now: Timestamp,
    compiled: CompiledContext,
    t: Seq<char>,
    part: int,
    k: int,
    i: int,
)
    requires
        compile_outcome(
            compiler,
            candidates,
            legacy_relevances(signature, candidates, weights),
            token_budget,
            now,
            Ok::<CompiledContext, ContextCompileError>(compiled),
        ),
        !alphanumeric(' '),
        is_token(signature.request@, t) || (signature.active_goal is Some && is_token(
            signature.active_goal->0@,
            t,
        )) || (0 <= part < signature.entities@.len() && is_token(signature.entities@[part]@, t))
            || (0 <= part < signature.constraints@.len() && is_token(
            signature.constraints@[part]@,
            t,
        )) || (signature.expected_effect is Some && is_token(signature.expected_effect->0@, t)),
        0 <= k < candidates.len(),
        is_token(candidates[k].node.summary, t),
        0 < weights[k].bits <= 0x7f80_0000,
        0 <= i < compiled@.receipt.excluded.len(),
        compiled@.receipt.excluded[i].node_id == candidates[k].node.id,
    ensures
        compiled@.receipt.excluded[i].reason != ContextExclusionReason::Irrelevant,
{
    let x = Inputs { candidates, relevances: legacy_relevances(signature, candidates, weights), now };
    exclusions_say_why(compiler, x, token_budget, compiled, k, i);
    signatures_are_searched_for_their_own_words(signature, t);
    assert(token_set(spaced(signature.parts())).contains(t)) by {
        if 0 <= part < signature.entities@.len() {
            assert(signature.entities@[part]@ == signature.entities@[part]@);
        }
        if 0 <= part < signature.constraints@.len() {
            assert(signature.constraints@[part]@ == signature.constraints@[part]@);
        }
    }
    shared_words_make_relevance(spaced(signature.parts()), candidates[k].node, weights[k], t);
}

/// What shares no word with the task is left out: a ranked candidate whose summary
/// has no token of any part of the signature is not included, whatever its weight.
/// A space is not alphanumeric.
pub proof fn foreign_words_are_irrelevant(
    compiler: ContextCompiler,
    signature: TaskSignature,
    candidates: Seq<CandidateModel>,
    weights: Seq<Binary32>,
    token_budget: Option<u32>,
    now: Timestamp,
    compiled: CompiledContext,
    k: int,
    i: int,
)
    requires
        compile_outcome(
            compiler,
            candidates,
            legacy_relevances(signature, candidates, weights),
            token_budget,
            now,
            Ok::<CompiledContext, ContextCompileError>(compiled),
        ),
        !alphanumeric(' '),
        0 <= k < candidates.len(),
        candidates[k].directive is Ranked,
        forall|t: Seq<char>| #[trigger]
            is_token(candidates[k].node.summary, t) ==> {
                &&& !is_token(signature.request@, t)
                &&& signature.active_goal is Some ==> !is_token(signature.active_goal->0@, t)
                &&& forall|e: int|
                    0 <= e < signature.entities@.len() ==> !is_token(
                        (#[trigger] signature.entities@[e])@,
                        t,
                    )
                &&& forall|c: int|
                    0 <= c < signature.constraints@.len() ==> !is_token(
                        (#[trigger] signature.constraints@[c])@,
                        t,
                    )
                &&& signature.expected_effect is Some ==> !is_token(
                    signature.expected_effect->0@,
                    t,
                )
            },
        0 <= i < compiled@.nodes.len(),
    ensures
        compiled@.nodes[i].id != candidates[k].node.id,
{
    let x = Inputs { candidates, relevances: legacy_relevances(signature, candidates, weights), now };
    let searched = spaced(signature.parts());
    let n = candidates[k].node;
    if compiled@.nodes[i].id == n.id {
        entries_describe_their_candidates(compiler, x, token_budget, compiled, k, i);
        assert forall|u: Seq<char>| !(#[trigger] is_token(searched, u) && is_token(n.summary, u)) by {
            if is_token(searched, u) && is_token(n.summary, u) {
                signatures_are_searched_for_their_own_words(signature, u);
                assert(token_set(searched).contains(u));
            }
        }
        shared_words_make_relevance(searched, n, weights[k], n.summary);
        assert(false);
    }
}

/// Before selection, a required candidate is kept or refuses the compilation, and
/// no other does the latter for its own faults; one that is not required is ranked
/// where it is valid, active and relevant, and left out otherwise.
pub proof fn candidates_are_settled_by_their_own_merits(
    c: CandidateModel,
    relevance: Result<Relevance, RetrievalError>,
    now: Timestamp,
)
    ensures
        fate(c, relevance, now) is RequiredInvalid <==> (c.directive is PolicyRequired
            || c.directive is UserPinned) && !(c.node.valid() && c.node.active_at(now)),
        fate(c, relevance, now) is RetrievalFailed <==> c.node.valid() && c.node.active_at(now)
            && relevance is Err,
        fate(c, relevance, now) is Required <==> (c.directive is PolicyRequired
            || c.directive is UserPinned) && c.node.valid() && c.node.active_at(now)
            && relevance is Ok,
        fate(c, relevance, now) is Ranked <==> c.directive is Ranked && c.node.valid()
            && c.node.active_at(now) && relevance is Ok && (relevance->Ok_0.exact || (0
            < relevance->Ok_0.score.bits <= 0x7f80_0000)),
        fate(c, relevance, now) matches Fate::Excluded { exclusion } ==> c.directive is Ranked
            && exclusion.node_id == c.node.id && (exclusion.reason
            == ContextExclusionReason::Invalid <==> !c.node.valid()) && (exclusion.reason
            == ContextExclusionReason::DisputedOrExpired <==> c.node.valid()
            && !c.node.active_at(now)) && (exclusion.reason == ContextExclusionReason::Irrelevant
            <==> c.node.valid() && c.node.active_at(now)),
        fate(c, relevance, now) matches Fate::Required { prepared } ==> prepared.node == c.node
            && prepared.directive == c.directive && prepared.exact == relevance->Ok_0.exact
            && prepared.score == relevance->Ok_0.score,
        fate(c, relevance, now) matches Fate::Ranked { prepared } ==> prepared.node == c.node
            && prepared.directive == c.directive && prepared.exact == relevance->Ok_0.exact
            && prepared.score == relevance->Ok_0.score,
        fate(c, relevance, now) matches Fate::RetrievalFailed { error } ==> error
            == relevance->Err_0,
{
}

} // verus!
