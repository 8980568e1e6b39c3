//! The order in which candidates come decides nothing, and a ranking keeps the
//! best of them.

use vstd::prelude::*;

use crate::context::candidate::{CandidateModel, DirectiveModel};
use crate::context::compiler::{
    admissible, all_admissible, compile_outcome, excluded_part, fate, none_fatal, ranked_part,
    repeated, reports_fatal, reports_inadmissible, required_part, ContextCompileError,
    ContextCompiler, Fate,
};
use crate::context::laws::{
    budget_exclusions, chosen, distinct, fitting, lemma_compiled_of, lemma_distinct_ids,
    lemma_fitting, lemma_parts, passed_over, Inputs,
};
use crate::context::node::NodeModel;
use crate::context::ranked::{lemma_ranking_compiled, ranking_compiled};
use crate::context::ranking::{
    best, budget_after, first_refused, identity_order, intake_outcome, lemma_ranking_order,
    node_repeated, prepared_ranking, provider_fits, ranking_order, ranks_before, reports_refused,
    taken_in, ContextQueryRankingError, ContextRankingWork, RankedModel, RankingModel,
};
use crate::context::receipt::{CompiledContext, ExclusionModel};
use crate::context::selection::{
    lemma_selection_order, prepared_cost, selection_order, selection_order_is_total, PreparedModel,
};
use crate::context::signature::Relevance;
use crate::order::{
    arranged, arranged_is_an_ordering, arrangements_agree, comparable, lemma_same_members,
    strict_order,
};
use crate::retrieval::{
    RetrievalError, RetrievalMode, RetrievalWorkBudget, MAX_CANDIDATE_COUNT,
};
use crate::text::text_order_is_total;
use crate::time::Timestamp;

verus! {

pub proof fn lemma_identity_order()
    ensures
        strict_order(identity_order()),
{
    let before = identity_order();
    assert forall|a: NodeModel, b: NodeModel| #[trigger] before(a, b) implies !before(b, a) by {
        text_order_is_total(a.id, b.id, a.id);
    }
    assert forall|a: NodeModel, b: NodeModel, c: NodeModel|
        !(#[trigger] before(b, a)) && !(#[trigger] before(c, b)) implies !before(c, a) by {
        text_order_is_total(a.id, b.id, c.id);
        text_order_is_total(c.id, b.id, a.id);
        text_order_is_total(c.id, a.id, b.id);
        text_order_is_total(b.id, c.id, a.id);
        text_order_is_total(a.id, c.id, b.id);
        text_order_is_total(b.id, a.id, c.id);
    }
}

/// A ranking keeps the best: a ranked node that is not kept ranks before none
/// that is.
pub proof fn rankings_keep_the_best(all: Seq<RankedModel>, limit: nat, x: RankedModel, y: RankedModel)
    requires
        all.contains(x),
        !best(all, limit).contains(x),
        best(all, limit).contains(y),
    ensures
        !ranks_before(x, y),
        best(all, limit).len() == limit,
        all.contains(y),
{
    let before = ranking_order();
    lemma_ranking_order();
    arranged_is_an_ordering(all, before);
    let list = arranged(all, before);
    lemma_same_members(list, all);
    let j = choose|j: int| 0 <= j < list.len() && list[j] == x;
    let i = choose|i: int| 0 <= i < best(all, limit).len() && best(all, limit)[i] == y;
    assert(list[i] == y);
    assert(list.contains(y));
    if j < best(all, limit).len() {
        assert(best(all, limit)[j] == x);
    }
    assert(i < j);
    assert(!before(list[j], list[i]));
}

/// Context compiled from a ranking is included for its relevance alone: a
/// ranked node cannot acquire the authority of a pin or a policy.
pub proof fn ranked_nodes_acquire_no_authority(
    compiler: ContextCompiler,
    ranking: RankingModel,
    token_budget: Option<u32>,
)
    ensures
        forall|i: int|
            0 <= i < ranking_compiled(
                compiler,
                ranking,
                token_budget,
            ).receipt.included.len() ==> (#[trigger] ranking_compiled(
                compiler,
                ranking,
                token_budget,
            ).receipt.included[i]).reason == "task-relevance"@,
{
    let list = prepared_ranking(ranking.ranked);
    let budget = compiler.ranked_budget(token_budget);
    lemma_ranking_compiled(compiler, ranking, token_budget);
    lemma_fitting(list, 0, budget);
    let fit = fitting(list, 0, budget);
    assert forall|i: int| 0 <= i < fit.len() implies (#[trigger] fit[i]).directive
        == DirectiveModel::Ranked by {
        assert(list.contains(fit[i]));
        let k = choose|k: int| 0 <= k < list.len() && list[k] == fit[i];
        assert(list[k].directive == DirectiveModel::Ranked);
    }
}

/// The candidates with their relevances.
pub open spec fn paired(
    candidates: Seq<CandidateModel>,
    relevances: Seq<Result<Relevance, RetrievalError>>,
) -> Seq<(CandidateModel, Result<Relevance, RetrievalError>)> {
    Seq::new(candidates.len(), |i: int| (candidates[i], relevances[i]))
}

/// Mapping the same elements gives the same elements.
proof fn lemma_mapped_multiset<A, B>(s: Seq<A>, t: Seq<A>, f: spec_fn(A) -> B)
    requires
        s.to_multiset() == t.to_multiset(),
    ensures
        s.map_values(f).to_multiset() == t.map_values(f).to_multiset(),
    decreases s.len(),
{
    broadcast use vstd::seq_lib::group_to_multiset_ensures;

    lemma_same_members(s, t);
    if s.len() > 0 {
        let x = s.last();
        assert(s.contains(x));
        let k = choose|k: int| 0 <= k < t.len() && t[k] == x;
        let (a, b) = (s.drop_last(), t.remove(k));
        assert(s =~= a.push(x));
        assert(t =~= b.insert(k, x));
        vstd::seq_lib::to_multiset_insert(b, k, x);
        assert(a.to_multiset() =~= s.to_multiset().remove(x));
        assert(b.to_multiset() =~= t.to_multiset().remove(x));
        lemma_mapped_multiset(a, b, f);
        assert(s.map_values(f) =~= a.map_values(f).push(f(x)));
        assert(t.map_values(f) =~= b.map_values(f).insert(k, f(x)));
        vstd::seq_lib::to_multiset_insert(b.map_values(f), k, f(x));
    } else {
        assert(s =~= t);
    }
}

/// The bytes of the candidates together.
spec fn bytes_of(nodes: Seq<NodeModel>) -> int
    decreases nodes.len(),
{
    if nodes.len() == 0 {
        0
    } else {
        bytes_of(nodes.drop_last()) + nodes.last().encoding.node_bytes->0
    }
}

/// The count, held at the greatest one.
spec fn held(n: int) -> int {
    if n > usize::MAX {
        usize::MAX as int
    } else {
        n
    }
}

proof fn lemma_bytes_inserted(nodes: Seq<NodeModel>, k: int, x: NodeModel)
    requires
        0 <= k <= nodes.len(),
    ensures
        bytes_of(nodes.insert(k, x)) == bytes_of(nodes) + x.encoding.node_bytes->0,
    decreases nodes.len(),
{
    let out = nodes.insert(k, x);
    if k == nodes.len() {
        assert(out.drop_last() =~= nodes);
    } else {
        lemma_bytes_inserted(nodes.drop_last(), k, x);
        assert(out.drop_last() =~= nodes.drop_last().insert(k, x));
        assert(out.last() == nodes.last());
    }
}

/// The same candidates in another order have the same bytes together.
proof fn lemma_same_bytes(a: Seq<NodeModel>, b: Seq<NodeModel>)
    requires
        a.to_multiset() == b.to_multiset(),
    ensures
        bytes_of(a) == bytes_of(b),
    decreases a.len(),
{
    broadcast use vstd::seq_lib::group_to_multiset_ensures;

    lemma_same_members(a, b);
    if a.len() > 0 {
        let x = a.last();
        assert(a.contains(x));
        let k = choose|k: int| 0 <= k < b.len() && b[k] == x;
        let (p, q) = (a.drop_last(), b.remove(k));
        assert(a =~= p.push(x));
        assert(b =~= q.insert(k, x));
        vstd::seq_lib::to_multiset_insert(q, k, x);
        assert(p.to_multiset() =~= a.to_multiset().remove(x));
        assert(q.to_multiset() =~= b.to_multiset().remove(x));
        lemma_same_bytes(p, q);
        lemma_bytes_inserted(q, k, x);
    }
}

proof fn lemma_bytes_grow(nodes: Seq<NodeModel>, k: int)
    requires
        0 <= k <= nodes.len(),
    ensures
        0 <= bytes_of(nodes.take(k)) <= bytes_of(nodes),
    decreases nodes.len(),
{
    if k == nodes.len() {
        assert(nodes.take(k) =~= nodes);
        if k > 0 {
            lemma_bytes_grow(nodes.drop_last(), k - 1);
        }
    } else {
        lemma_bytes_grow(nodes.drop_last(), k);
        assert(nodes.drop_last().take(k) =~= nodes.take(k));
    }
}

/// The budget once the first `k` candidates are charged, where each charge
/// before the last is within it.
proof fn lemma_budget_after(nodes: Seq<NodeModel>, k: int, budget: RetrievalWorkBudget)
    requires
        0 <= k <= nodes.len(),
        forall|i: int|
            0 <= i < k ==> (#[trigger] budget_after(nodes, i, budget)).with_candidate_bytes(
                nodes[i].encoding.node_bytes->0,
            ) is Ok,
    ensures
        budget_after(nodes, k, budget) == (RetrievalWorkBudget {
            candidate_bytes: held(budget.candidate_bytes + bytes_of(nodes.take(k))) as usize,
            ..budget
        }),
    decreases k,
{
    lemma_bytes_grow(nodes, k);
    if k > 0 {
        lemma_budget_after(nodes, k - 1, budget);
        lemma_bytes_grow(nodes, k - 1);
        let head = nodes.take(k);
        assert(head.drop_last() =~= nodes.take(k - 1));
        assert(head.last() == nodes[k - 1]);
        assert(budget_after(nodes, k - 1, budget).with_candidate_bytes(
            nodes[k - 1].encoding.node_bytes->0,
        ) is Ok);
    }
}

/// Every candidate is taken in, in the given order.
pub open spec fn all_taken_in(nodes: Seq<NodeModel>, budget: RetrievalWorkBudget) -> bool {
    &&& nodes.len() <= MAX_CANDIDATE_COUNT
    &&& forall|i: int| 0 <= i < nodes.len() ==> #[trigger] taken_in(nodes, i, budget)
}

/// Candidates that are all taken in are taken in in another order, and leave the
/// same budget.
proof fn lemma_taken_in_any_order(
    a: Seq<NodeModel>,
    b: Seq<NodeModel>,
    budget: RetrievalWorkBudget,
)
    requires
        a.to_multiset() == b.to_multiset(),
        all_taken_in(a, budget),
    ensures
        all_taken_in(b, budget),
        budget_after(a, a.len() as int, budget) == budget_after(b, b.len() as int, budget),
{
    let n = a.len() as int;
    lemma_same_members(a, b);
    lemma_same_bytes(a, b);
    let id = |m: NodeModel| m.id;
    let (s, t) = (a.map_values(id), b.map_values(id));
    lemma_mapped_multiset(a, b, id);
    assert(s.no_duplicates()) by {
        assert forall|i: int, j: int| 0 <= i < s.len() && 0 <= j < s.len() && i != j implies s[i]
            != s[j] by {
            assert(taken_in(a, i, budget) && taken_in(a, j, budget));
            if i < j {
                assert(!node_repeated(a, j));
                assert(a[i].id != a[j].id);
            } else {
                assert(!node_repeated(a, i));
                assert(a[j].id != a[i].id);
            }
        }
    }
    s.lemma_multiset_has_no_duplicates();
    t.lemma_multiset_has_no_duplicates_conv();
    assert forall|i: int| 0 <= i < n implies (#[trigger] budget_after(
        a,
        i,
        budget,
    )).with_candidate_bytes(a[i].encoding.node_bytes->0) is Ok by {
        assert(taken_in(a, i, budget));
    }
    lemma_budget_after(a, n, budget);
    assert(a.take(n) =~= a);
    assert(b.take(n) =~= b);
    if n > 0 {
        assert(taken_in(a, n - 1, budget));
        lemma_budget_after(a, n - 1, budget);
        assert(a.take(n - 1) =~= a.drop_last());
        lemma_bytes_grow(a, n - 1);
    }
    lemma_charges_fit(b, n, budget);
    lemma_budget_after(b, n, budget);
    assert forall|i: int| 0 <= i < b.len() implies #[trigger] taken_in(b, i, budget) by {
        assert(b.contains(b[i]));
        let k = choose|k: int| 0 <= k < n && a[k] == b[i];
        assert(taken_in(a, k, budget));
        if node_repeated(b, i) {
            let j = choose|j: int| 0 <= j < i && (#[trigger] b[j]).id == b[i].id;
            assert(t[j] == t[i]);
        }
        assert(budget_after(b, i, budget).with_candidate_bytes(
            b[i].encoding.node_bytes->0,
        ) is Ok);
    }
}

/// Where all candidates together are within the budget, each charge is.
proof fn lemma_charges_fit(nodes: Seq<NodeModel>, k: int, budget: RetrievalWorkBudget)
    requires
        0 <= k <= nodes.len(),
        nodes.len() > 0 ==> held(budget.candidate_bytes + bytes_of(nodes))
            <= budget.max_candidate_bytes,
    ensures
        forall|i: int|
            0 <= i < k ==> (#[trigger] budget_after(nodes, i, budget)).with_candidate_bytes(
                nodes[i].encoding.node_bytes->0,
            ) is Ok,
    decreases k,
{
    if k > 0 {
        lemma_charges_fit(nodes, k - 1, budget);
        lemma_budget_after(nodes, k - 1, budget);
        lemma_bytes_grow(nodes, k);
        lemma_bytes_grow(nodes, k - 1);
        let head = nodes.take(k);
        assert(head.drop_last() =~= nodes.take(k - 1));
        assert(head.last() == nodes[k - 1]);
    }
}

/// The order in which candidates come decides nothing for a ranking: either both
/// orders are taken in or both are refused, and what is taken in is the same
/// work and leaves the same budget.
pub proof fn ranking_ignores_candidate_order(
    mode: RetrievalMode,
    provider_present: bool,
    a: Seq<NodeModel>,
    b: Seq<NodeModel>,
    evaluated_at: Timestamp,
    limit: nat,
    budget: RetrievalWorkBudget,
    left_a: RetrievalWorkBudget,
    left_b: RetrievalWorkBudget,
    x: Result<ContextRankingWork, ContextQueryRankingError>,
    y: Result<ContextRankingWork, ContextQueryRankingError>,
)
    requires
        a.to_multiset() == b.to_multiset(),
        intake_outcome(mode, provider_present, a, evaluated_at, limit, budget, left_a, x),
        intake_outcome(mode, provider_present, b, evaluated_at, limit, budget, left_b, y),
    ensures
        x is Ok == y is Ok,
        x is Ok ==> x->Ok_0@ == y->Ok_0@ && left_a == left_b,
{
    if provider_fits(mode, provider_present) {
        if all_taken_in(a, budget) {
            lemma_taken_in_any_order(a, b, budget);
        }
        if all_taken_in(b, budget) {
            lemma_taken_in_any_order(b, a, budget);
        }
        lemma_intake(mode, provider_present, a, evaluated_at, limit, budget, left_a, x);
        lemma_intake(mode, provider_present, b, evaluated_at, limit, budget, left_b, y);
        if x is Ok {
            lemma_identities_comparable(a, budget);
            lemma_identity_order();
            arrangements_agree(a, b, identity_order());
        }
    }
}

/// Candidates are taken in exactly where each of them is.
proof fn lemma_intake(
    mode: RetrievalMode,
    provider_present: bool,
    nodes: Seq<NodeModel>,
    evaluated_at: Timestamp,
    limit: nat,
    budget: RetrievalWorkBudget,
    left: RetrievalWorkBudget,
    r: Result<ContextRankingWork, ContextQueryRankingError>,
)
    requires
        provider_fits(mode, provider_present),
        intake_outcome(mode, provider_present, nodes, evaluated_at, limit, budget, left, r),
    ensures
        r is Ok == all_taken_in(nodes, budget),
{
    if let Err(e) = r {
        if nodes.len() <= MAX_CANDIDATE_COUNT {
            let i = choose|i: int|
                {
                    &&& 0 <= i < nodes.len()
                    &&& #[trigger] first_refused(nodes, i, budget)
                    &&& reports_refused(e, nodes, i, budget)
                    &&& left == budget_after(nodes, i, budget)
                };
            assert(!taken_in(nodes, i, budget));
        }
    }
}

/// Candidates that are all taken in are comparable by identity.
proof fn lemma_identities_comparable(nodes: Seq<NodeModel>, budget: RetrievalWorkBudget)
    requires
        all_taken_in(nodes, budget),
    ensures
        comparable(nodes, identity_order()),
{
    let before = identity_order();
    assert forall|p: NodeModel, q: NodeModel| #[trigger]
        nodes.contains(p) && #[trigger] nodes.contains(q) && p != q implies before(p, q) || before(
        q,
        p,
    ) by {
        let i = choose|i: int| 0 <= i < nodes.len() && nodes[i] == p;
        let j = choose|j: int| 0 <= j < nodes.len() && nodes[j] == q;
        assert(taken_in(nodes, i, budget) && taken_in(nodes, j, budget));
        assert(!node_repeated(nodes, i) && !node_repeated(nodes, j));
        assert(nodes[i].id != nodes[j].id);
        text_order_is_total(p.id, q.id, p.id);
    }
}

proof fn lemma_required_count(f: Seq<Fate>, p: PreparedModel)
    ensures
        required_part(f).to_multiset().count(p) == f.to_multiset().count(
            Fate::Required { prepared: p },
        ),
    decreases f.len(),
{
    broadcast use vstd::seq_lib::group_to_multiset_ensures;

    if f.len() > 0 {
        lemma_required_count(f.drop_last(), p);
        assert(f =~= f.drop_last().push(f.last()));
    }
}

proof fn lemma_ranked_count(f: Seq<Fate>, p: PreparedModel)
    ensures
        ranked_part(f).to_multiset().count(p) == f.to_multiset().count(
            Fate::Ranked { prepared: p },
        ),
    decreases f.len(),
{
    broadcast use vstd::seq_lib::group_to_multiset_ensures;

    if f.len() > 0 {
        lemma_ranked_count(f.drop_last(), p);
        assert(f =~= f.drop_last().push(f.last()));
    }
}

/// Candidates of distinct identity are comparable.
proof fn lemma_comparable(list: Seq<PreparedModel>)
    requires
        distinct(list),
    ensures
        comparable(list, selection_order()),
{
    let before = selection_order();
    assert forall|p: PreparedModel, q: PreparedModel| #[trigger]
        list.contains(p) && #[trigger] list.contains(q) && p != q implies before(p, q) || before(
        q,
        p,
    ) by {
        let i = choose|i: int| 0 <= i < list.len() && list[i] == p;
        let j = choose|j: int| 0 <= j < list.len() && list[j] == q;
        if i < j {
            assert(list[i].node.id != list[j].node.id);
        } else {
            assert(list[j].node.id != list[i].node.id);
        }
        selection_order_is_total(p, q, p);
    }
}

proof fn lemma_excluded_count(f: Seq<Fate>, e: ExclusionModel)
    ensures
        excluded_part(f).to_multiset().count(e) == f.to_multiset().count(
            Fate::Excluded { exclusion: e },
        ),
    decreases f.len(),
{
    broadcast use vstd::seq_lib::group_to_multiset_ensures;

    if f.len() > 0 {
        lemma_excluded_count(f.drop_last(), e);
        assert(f =~= f.drop_last().push(f.last()));
    }
}

/// The same fates in another order have the same parts.
proof fn lemma_same_parts(f: Seq<Fate>, g: Seq<Fate>)
    requires
        f.to_multiset() == g.to_multiset(),
    ensures
        required_part(f).to_multiset() == required_part(g).to_multiset(),
        ranked_part(f).to_multiset() == ranked_part(g).to_multiset(),
        excluded_part(f).to_multiset() == excluded_part(g).to_multiset(),
{
    assert(required_part(f).to_multiset() =~= required_part(g).to_multiset()) by {
        assert forall|m: PreparedModel|
            required_part(f).to_multiset().count(m) == required_part(g).to_multiset().count(m) by {
            lemma_required_count(f, m);
            lemma_required_count(g, m);
        }
    }
    assert(ranked_part(f).to_multiset() =~= ranked_part(g).to_multiset()) by {
        assert forall|m: PreparedModel|
            ranked_part(f).to_multiset().count(m) == ranked_part(g).to_multiset().count(m) by {
            lemma_ranked_count(f, m);
            lemma_ranked_count(g, m);
        }
    }
    assert(excluded_part(f).to_multiset() =~= excluded_part(g).to_multiset()) by {
        assert forall|m: ExclusionModel|
            excluded_part(f).to_multiset().count(m) == excluded_part(g).to_multiset().count(m) by {
            lemma_excluded_count(f, m);
            lemma_excluded_count(g, m);
        }
    }
}

/// Admissible candidates are admissible in another order.
proof fn lemma_admissible_in_any_order(a: Seq<CandidateModel>, b: Seq<CandidateModel>)
    requires
        a.to_multiset() == b.to_multiset(),
        all_admissible(a),
    ensures
        all_admissible(b),
{
    let id = |c: CandidateModel| c.node.id;
    let (s, t) = (a.map_values(id), b.map_values(id));
    lemma_mapped_multiset(a, b, id);
    lemma_same_members(a, b);
    assert(s.no_duplicates()) by {
        assert forall|i: int, j: int| 0 <= i < s.len() && 0 <= j < s.len() && i != j implies s[i]
            != s[j] by {
            lemma_distinct_ids(a, i, j);
        }
    }
    s.lemma_multiset_has_no_duplicates();
    t.lemma_multiset_has_no_duplicates_conv();
    assert forall|i: int| 0 <= i < b.len() implies #[trigger] admissible(b, i) by {
        if repeated(b, i) {
            let j = choose|j: int| 0 <= j < i && (#[trigger] b[j]).node.id == b[i].node.id;
            assert(t[j] == t[i]);
        }
        assert(b.contains(b[i]));
        let k = choose|k: int| 0 <= k < a.len() && a[k] == b[i];
        assert(admissible(a, k));
    }
}

/// Fates that refuse nothing refuse nothing in another order.
proof fn lemma_none_fatal_in_any_order(f: Seq<Fate>, g: Seq<Fate>)
    requires
        f.to_multiset() == g.to_multiset(),
        none_fatal(f),
    ensures
        none_fatal(g),
{
    lemma_same_members(f, g);
    assert forall|i: int| 0 <= i < g.len() implies !(#[trigger] g[i]).fatal() by {
        assert(g.contains(g[i]));
        let k = choose|k: int| 0 <= k < f.len() && f[k] == g[i];
        assert(!f[k].fatal());
    }
}

/// The candidates can be compiled: each is admissible, none refuses the
/// compilation, and the required ones fit the absolute budget.
pub open spec fn compiles(compiler: ContextCompiler, x: Inputs) -> bool {
    &&& all_admissible(x.candidates)
    &&& none_fatal(x.fates())
    &&& prepared_cost(arranged(required_part(x.fates()), selection_order()))
        <= compiler.absolute_budget
}

/// A compilation succeeds exactly on candidates that can be compiled.
proof fn lemma_compiles(
    compiler: ContextCompiler,
    x: Inputs,
    token_budget: Option<u32>,
    r: Result<CompiledContext, ContextCompileError>,
)
    requires
        compile_outcome(compiler, x.candidates, x.relevances, token_budget, x.now, r),
    ensures
        r is Ok == compiles(compiler, x),
{
    if let Err(e) = r {
        let (c, f) = (x.candidates, x.fates());
        if exists|i: int| #[trigger] reports_inadmissible(e, c, i) {
            let i = choose|i: int| #[trigger] reports_inadmissible(e, c, i);
            assert(!admissible(c, i));
        } else if exists|i: int| #[trigger] reports_fatal(e, c, f, i) {
            let i = choose|i: int| #[trigger] reports_fatal(e, c, f, i);
            assert(f[i].fatal());
        }
    }
}

/// Both inputs hold the same candidates with the same relevances, at the same
/// time.
pub open spec fn same_candidates(a: Inputs, b: Inputs) -> bool {
    &&& a.candidates.len() == a.relevances.len()
    &&& b.candidates.len() == b.relevances.len()
    &&& paired(a.candidates, a.relevances).to_multiset() == paired(
        b.candidates,
        b.relevances,
    ).to_multiset()
    &&& a.now == b.now
}

/// The same candidates have the same fates.
proof fn lemma_same_fates(a: Inputs, b: Inputs)
    requires
        same_candidates(a, b),
    ensures
        a.candidates.to_multiset() == b.candidates.to_multiset(),
        a.fates().to_multiset() == b.fates().to_multiset(),
{
    let settle = |p: (CandidateModel, Result<Relevance, RetrievalError>)| fate(p.0, p.1, a.now);
    let first = |p: (CandidateModel, Result<Relevance, RetrievalError>)| p.0;
    let (p, q) = (paired(a.candidates, a.relevances), paired(b.candidates, b.relevances));
    assert(a.fates() =~= p.map_values(settle));
    assert(b.fates() =~= q.map_values(settle));
    assert(a.candidates =~= p.map_values(first));
    assert(b.candidates =~= q.map_values(first));
    lemma_mapped_multiset(p, q, settle);
    lemma_mapped_multiset(p, q, first);
}

/// The same admissible candidates are arranged in the same way.
proof fn lemma_same_arrangement(a: Inputs, b: Inputs)
    requires
        same_candidates(a, b),
        all_admissible(a.candidates),
    ensures
        arranged(required_part(a.fates()), selection_order()) == arranged(
            required_part(b.fates()),
            selection_order(),
        ),
        arranged(ranked_part(a.fates()), selection_order()) == arranged(
            ranked_part(b.fates()),
            selection_order(),
        ),
{
    let (f, g) = (a.fates(), b.fates());
    lemma_same_fates(a, b);
    lemma_same_parts(f, g);
    let n = a.candidates.len() as int;
    assert(f.take(n) =~= f);
    lemma_parts(a, n);
    lemma_selection_order();
    lemma_comparable(required_part(f));
    lemma_comparable(ranked_part(f));
    arrangements_agree(required_part(f), required_part(g), selection_order());
    arrangements_agree(ranked_part(f), ranked_part(g), selection_order());
}

proof fn lemma_compiles_in_any_order(compiler: ContextCompiler, a: Inputs, b: Inputs)
    requires
        same_candidates(a, b),
        compiles(compiler, a),
    ensures
        compiles(compiler, b),
{
    lemma_same_fates(a, b);
    lemma_admissible_in_any_order(a.candidates, b.candidates);
    lemma_none_fatal_in_any_order(a.fates(), b.fates());
    lemma_same_arrangement(a, b);
}

/// The order in which candidates come decides nothing: either both orders are
/// compiled or both are refused, and what is compiled holds the same nodes, with
/// the same entries, the same exclusions and the same cost.
pub proof fn compilation_ignores_candidate_order(
    compiler: ContextCompiler,
    a: Inputs,
    b: Inputs,
    token_budget: Option<u32>,
    x: Result<CompiledContext, ContextCompileError>,
    y: Result<CompiledContext, ContextCompileError>,
)
    requires
        same_candidates(a, b),
        compile_outcome(compiler, a.candidates, a.relevances, token_budget, a.now, x),
        compile_outcome(compiler, b.candidates, b.relevances, token_budget, b.now, y),
    ensures
        x is Ok == y is Ok,
        x is Ok ==> {
            let (c, d) = (x->Ok_0@, y->Ok_0@);
            &&& c.nodes == d.nodes
            &&& c.receipt.included == d.receipt.included
            &&& c.receipt.excluded.to_multiset() == d.receipt.excluded.to_multiset()
            &&& c.receipt.excluded.to_set() == d.receipt.excluded.to_set()
            &&& c.receipt.total_token_cost == d.receipt.total_token_cost
            &&& c.receipt.token_budget == d.receipt.token_budget
            &&& c.receipt.absolute_budget == d.receipt.absolute_budget
            &&& c.receipt.over_soft_budget == d.receipt.over_soft_budget
        },
{
    lemma_compiles(compiler, a, token_budget, x);
    lemma_compiles(compiler, b, token_budget, y);
    if compiles(compiler, a) {
        lemma_compiles_in_any_order(compiler, a, b);
    }
    if compiles(compiler, b) {
        lemma_compiles_in_any_order(compiler, b, a);
    }
    if x is Ok {
        let (f, g) = (a.fates(), b.fates());
        lemma_same_fates(a, b);
        lemma_same_parts(f, g);
        lemma_same_arrangement(a, b);
        lemma_compiled_of(compiler, a, token_budget);
        lemma_compiled_of(compiler, b, token_budget);
        assert(chosen(compiler, a, token_budget) == chosen(compiler, b, token_budget));
        assert(passed_over(compiler, a, token_budget) == passed_over(compiler, b, token_budget));
        let over = budget_exclusions(passed_over(compiler, a, token_budget));
        vstd::seq_lib::lemma_multiset_commutative(excluded_part(f), over);
        vstd::seq_lib::lemma_multiset_commutative(excluded_part(g), over);
        let (s, t) = (x->Ok_0@.receipt.excluded, y->Ok_0@.receipt.excluded);
        lemma_same_members(s, t);
        assert(s.to_set() =~= t.to_set());
    }
}

} // verus!
