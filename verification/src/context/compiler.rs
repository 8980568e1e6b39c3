//! The compiler: from candidates and a budget to compiled context.

use vstd::prelude::*;

use crate::binary32::Binary32;
use crate::context::candidate::{candidates_view, CandidateModel, ContextCandidate};
use crate::context::capsule::{
    item_of, ContextCapsuleItem, DEFAULT_CONTEXT_ABSOLUTE_BUDGET, DEFAULT_CONTEXT_TOKEN_BUDGET,
};
use crate::context::node::{fault_text, ContextNode, EpistemicStatus, NodeModel};
use crate::context::receipt::{
    exclusions_view, CompiledContext, CompiledModel, ContextExclusion, ContextExclusionReason,
    ExclusionModel,
};
use crate::context::selection::{
    place, prepared_cost, prepared_view, selection_order, total_cost, unselected,
    PreparedCandidate, PreparedModel, SelectionBuilder,
};
use crate::order::arranged;
use crate::context::signature::{
    relevance_of, relevance_score, spaced, token_set, tokenize, v2_relevance, v2_relevance_of,
    QueryMatch, Relevance, TaskSignature,
};
use crate::retrieval::{RetrievalError, MAX_CANDIDATE_COUNT};
use crate::text::same_text;
use crate::time::Timestamp;

verus! {

/// A refused compilation.
#[derive(Debug, PartialEq, Eq)]
pub enum ContextCompileError {
    DuplicateCandidate { node_id: String },
    InvalidPolicyReason { node_id: String },
    InvalidRequiredContext { node_id: String, reason: String },
    RequiredContextBudgetExceeded { used: u32, absolute_budget: u32 },
    Retrieval(RetrievalError),
}

/// Budgets for compiled context, in estimated tokens.
#[derive(Debug, Clone, Copy, PartialEq, Eq, Structural)]
pub struct ContextCompiler {
    pub default_budget: u32,
    pub absolute_budget: u32,
}

impl Default for ContextCompiler {
    fn default() -> (r: ContextCompiler)
        ensures
            r.default_budget == DEFAULT_CONTEXT_TOKEN_BUDGET,
            r.absolute_budget == DEFAULT_CONTEXT_ABSOLUTE_BUDGET,
    {
        ContextCompiler {
            default_budget: DEFAULT_CONTEXT_TOKEN_BUDGET,
            absolute_budget: DEFAULT_CONTEXT_ABSOLUTE_BUDGET,
        }
    }
}

impl ContextCompiler {
    /// The soft budget of a call: the caller's, or the default.
    pub open spec fn soft_budget(self, token_budget: Option<u32>) -> u32 {
        match token_budget {
            Some(b) => b,
            None => self.default_budget,
        }
    }

    /// The budget that ranked candidates must fit: the lesser of the two.
    pub open spec fn ranked_budget(self, token_budget: Option<u32>) -> u32 {
        if self.soft_budget(token_budget) < self.absolute_budget {
            self.soft_budget(token_budget)
        } else {
            self.absolute_budget
        }
    }

    pub fn expected_token_budget(&self, token_budget: Option<u32>) -> (r: u32)
        ensures
            r == self.soft_budget(token_budget),
    {
        match token_budget {
            Some(b) => b,
            None => self.default_budget,
        }
    }

    pub fn selection_budget(&self, token_budget: Option<u32>) -> (r: u32)
        ensures
            r == self.ranked_budget(token_budget),
    {
        let soft: u32 = self.expected_token_budget(token_budget);
        if soft < self.absolute_budget {
            soft
        } else {
            self.absolute_budget
        }
    }
}

/// Why a node is not active.
pub open spec fn inactive_text(n: NodeModel, now: Timestamp) -> Seq<char> {
    if n.epistemic == EpistemicStatus::Disputed {
        "epistemic status is disputed"@
    } else if n.valid_until matches Some(until) && !now.earlier(until) {
        "validity window has expired"@
    } else if n.valid_from matches Some(from) && now.earlier(from) {
        "validity window has not started"@
    } else {
        "not valid at the requested time"@
    }
}

/// Why a node is not active.
pub fn invalid_at_reason(node: &ContextNode, now: Timestamp) -> (s: &'static str)
    ensures
        s@ == inactive_text(node@, now),
{
    if node.epistemic == EpistemicStatus::Disputed {
        return "epistemic status is disputed";
    }
    if let Some(until) = node.valid_until {
        if !now.is_before(&until) {
            return "validity window has expired";
        }
    }
    if let Some(from) = node.valid_from {
        if now.is_before(&from) {
            return "validity window has not started";
        }
    }
    "not valid at the requested time"
}

/// What becomes of one candidate before selection.
pub enum Fate {
    RequiredInvalid { reason: Seq<char> },
    RetrievalFailed { error: RetrievalError },
    Excluded { exclusion: ExclusionModel },
    Required { prepared: PreparedModel },
    Ranked { prepared: PreparedModel },
}

/// A candidate with its relevance and its cost.
pub open spec fn prepared_of(c: CandidateModel, relevance: Relevance) -> PreparedModel {
    PreparedModel {
        directive: c.directive,
        exact: relevance.exact,
        score: relevance.score,
        token_cost: item_of(c.node).cost(),
        node: c.node,
    }
}

/// Invalid and inactive candidates are excluded, or refuse the compilation
/// where they are required; the others are prepared, and left out where they
/// are neither required nor relevant.
pub open spec fn fate(
    c: CandidateModel,
    relevance: Result<Relevance, RetrievalError>,
    now: Timestamp,
) -> Fate {
    match c.node.fault() {
        Some(f) => if c.directive.required() {
            Fate::RequiredInvalid { reason: fault_text(f, c.node) }
        } else {
            Fate::Excluded {
                exclusion: ExclusionModel {
                    node_id: c.node.id,
                    reason: ContextExclusionReason::Invalid,
                    detail: Some(fault_text(f, c.node)),
                },
            }
        },
        None => if !c.node.active_at(now) {
            if c.directive.required() {
                Fate::RequiredInvalid { reason: inactive_text(c.node, now) }
            } else {
                Fate::Excluded {
                    exclusion: ExclusionModel {
                        node_id: c.node.id,
                        reason: ContextExclusionReason::DisputedOrExpired,
                        detail: None,
                    },
                }
            }
        } else {
            match relevance {
                Err(error) => Fate::RetrievalFailed { error },
                Ok(rel) => if c.directive.required() {
                    Fate::Required { prepared: prepared_of(c, rel) }
                } else if rel.exact || rel.score.positive() {
                    Fate::Ranked { prepared: prepared_of(c, rel) }
                } else {
                    Fate::Excluded {
                        exclusion: ExclusionModel {
                            node_id: c.node.id,
                            reason: ContextExclusionReason::Irrelevant,
                            detail: None,
                        },
                    }
                },
            }
        },
    }
}

impl Fate {
    /// The candidate refuses the whole compilation.
    pub open spec fn fatal(self) -> bool {
        self is RequiredInvalid || self is RetrievalFailed
    }
}

/// The fates of all candidates.
pub open spec fn fates(
    candidates: Seq<CandidateModel>,
    relevances: Seq<Result<Relevance, RetrievalError>>,
    now: Timestamp,
) -> Seq<Fate> {
    Seq::new(candidates.len(), |i: int| fate(candidates[i], relevances[i], now))
}

/// The required candidates, in input order.
pub open spec fn required_part(f: Seq<Fate>) -> Seq<PreparedModel>
    decreases f.len(),
{
    if f.len() == 0 {
        Seq::empty()
    } else {
        match f.last() {
            Fate::Required { prepared } => required_part(f.drop_last()).push(prepared),
            _ => required_part(f.drop_last()),
        }
    }
}

/// The ranked candidates, in input order.
pub open spec fn ranked_part(f: Seq<Fate>) -> Seq<PreparedModel>
    decreases f.len(),
{
    if f.len() == 0 {
        Seq::empty()
    } else {
        match f.last() {
            Fate::Ranked { prepared } => ranked_part(f.drop_last()).push(prepared),
            _ => ranked_part(f.drop_last()),
        }
    }
}

/// The exclusions before selection, in input order.
pub open spec fn excluded_part(f: Seq<Fate>) -> Seq<ExclusionModel>
    decreases f.len(),
{
    if f.len() == 0 {
        Seq::empty()
    } else {
        match f.last() {
            Fate::Excluded { exclusion } => excluded_part(f.drop_last()).push(exclusion),
            _ => excluded_part(f.drop_last()),
        }
    }
}

/// An earlier candidate has the same identity.
pub open spec fn repeated(candidates: Seq<CandidateModel>, i: int) -> bool {
    exists|j: int| 0 <= j < i && (#[trigger] candidates[j]).node.id == candidates[i].node.id
}

/// The candidate has a new identity and a well-formed directive.
pub open spec fn admissible(candidates: Seq<CandidateModel>, i: int) -> bool {
    !repeated(candidates, i) && candidates[i].directive.well_formed()
}

/// Every candidate is admissible.
pub open spec fn all_admissible(candidates: Seq<CandidateModel>) -> bool {
    forall|i: int| 0 <= i < candidates.len() ==> #[trigger] admissible(candidates, i)
}

/// The error names candidate `i`, the first that is not admissible.
pub open spec fn reports_inadmissible(
    e: ContextCompileError,
    candidates: Seq<CandidateModel>,
    i: int,
) -> bool {
    &&& 0 <= i < candidates.len()
    &&& forall|j: int| 0 <= j < i ==> #[trigger] admissible(candidates, j)
    &&& if repeated(candidates, i) {
        e is DuplicateCandidate && e->DuplicateCandidate_node_id@ == candidates[i].node.id
    } else {
        &&& !candidates[i].directive.well_formed()
        &&& e is InvalidPolicyReason
        &&& e->InvalidPolicyReason_node_id@ == candidates[i].node.id
    }
}

/// The error reports candidate `i`, the first whose fate refuses the
/// compilation.
pub open spec fn reports_fatal(
    e: ContextCompileError,
    candidates: Seq<CandidateModel>,
    f: Seq<Fate>,
    i: int,
) -> bool {
    &&& 0 <= i < f.len()
    &&& forall|j: int| 0 <= j < i ==> !(#[trigger] f[j]).fatal()
    &&& match f[i] {
        Fate::RequiredInvalid { reason } => {
            &&& e is InvalidRequiredContext
            &&& e->InvalidRequiredContext_node_id@ == candidates[i].node.id
            &&& e->reason@ == reason
        },
        Fate::RetrievalFailed { error } => e == ContextCompileError::Retrieval(error),
        _ => false,
    }
}

/// No candidate refuses the compilation.
pub open spec fn none_fatal(f: Seq<Fate>) -> bool {
    forall|i: int| 0 <= i < f.len() ==> !(#[trigger] f[i]).fatal()
}

/// The compiled context: the required candidates in selection order, then the
/// ranked ones in selection order as far as they fit.
pub open spec fn compiled_of(
    compiler: ContextCompiler,
    f: Seq<Fate>,
    token_budget: Option<u32>,
) -> CompiledModel {
    let required = arranged(required_part(f), selection_order());
    let ranked = arranged(ranked_part(f), selection_order());
    unselected(excluded_part(f)).including_all(required).including_fitting(
        ranked,
        compiler.ranked_budget(token_budget),
    ).compiled(compiler.soft_budget(token_budget), compiler.absolute_budget)
}

/// The result of compiling candidates of the given relevance.
pub open spec fn compile_outcome(
    compiler: ContextCompiler,
    candidates: Seq<CandidateModel>,
    relevances: Seq<Result<Relevance, RetrievalError>>,
    token_budget: Option<u32>,
    now: Timestamp,
    r: Result<CompiledContext, ContextCompileError>,
) -> bool {
    let f = fates(candidates, relevances, now);
    let required_cost = prepared_cost(arranged(required_part(f), selection_order()));
    match r {
        Ok(compiled) => {
            &&& all_admissible(candidates)
            &&& none_fatal(f)
            &&& required_cost <= compiler.absolute_budget
            &&& compiled@ == compiled_of(compiler, f, token_budget)
        },
        Err(e) => {
            ||| exists|i: int| #[trigger] reports_inadmissible(e, candidates, i)
            ||| all_admissible(candidates) && exists|i: int| #[trigger]
                reports_fatal(e, candidates, f, i)
            ||| {
                &&& all_admissible(candidates)
                &&& none_fatal(f)
                &&& required_cost > compiler.absolute_budget
                &&& e == ContextCompileError::RequiredContextBudgetExceeded {
                    used: required_cost,
                    absolute_budget: compiler.absolute_budget,
                }
            }
        },
    }
}

/// What becomes of one candidate, with the values that go with it.
pub enum SettledCandidate {
    RequiredInvalid { reason: String },
    RetrievalFailed { error: RetrievalError },
    Excluded { exclusion: ContextExclusion },
    Required { prepared: PreparedCandidate },
    Ranked { prepared: PreparedCandidate },
}

impl View for SettledCandidate {
    type V = Fate;

    open spec fn view(&self) -> Fate {
        match self {
            SettledCandidate::RequiredInvalid { reason } => Fate::RequiredInvalid {
                reason: reason@,
            },
            SettledCandidate::RetrievalFailed { error } => Fate::RetrievalFailed { error: *error },
            SettledCandidate::Excluded { exclusion } => Fate::Excluded { exclusion: exclusion@ },
            SettledCandidate::Required { prepared } => Fate::Required { prepared: prepared@ },
            SettledCandidate::Ranked { prepared } => Fate::Ranked { prepared: prepared@ },
        }
    }
}

/// Decides what becomes of one candidate.
pub fn settle(
    candidate: &ContextCandidate,
    relevance: &Result<Relevance, RetrievalError>,
    now: Timestamp,
) -> (r: SettledCandidate)
    ensures
        r@ == fate(candidate@, *relevance, now),
{
    let node = &candidate.node;
    if let Some(reason) = node.invalid_reason() {
        if candidate.directive.is_required() {
            return SettledCandidate::RequiredInvalid { reason };
        }
        return SettledCandidate::Excluded {
            exclusion: ContextExclusion {
                node_id: node.id.clone(),
                reason: ContextExclusionReason::Invalid,
                detail: Some(reason),
            },
        };
    }
    if !node.is_valid_at(now) {
        if candidate.directive.is_required() {
            return SettledCandidate::RequiredInvalid {
                reason: invalid_at_reason(node, now).to_owned(),
            };
        }
        return SettledCandidate::Excluded {
            exclusion: ContextExclusion {
                node_id: node.id.clone(),
                reason: ContextExclusionReason::DisputedOrExpired,
                detail: None,
            },
        };
    }
    let relevance: Relevance = match relevance {
        Ok(rel) => *rel,
        Err(e) => {
            return SettledCandidate::RetrievalFailed { error: *e };
        },
    };
    let token_cost: u32 = ContextCapsuleItem::from(node).token_cost();
    let required = candidate.directive.is_required();
    if !required && !relevance.exact && !relevance.score.is_positive() {
        return SettledCandidate::Excluded {
            exclusion: ContextExclusion {
                node_id: node.id.clone(),
                reason: ContextExclusionReason::Irrelevant,
                detail: None,
            },
        };
    }
    let prepared = PreparedCandidate {
        directive: candidate.directive.clone(),
        exact: relevance.exact,
        score: relevance.score,
        token_cost,
        node: node.clone(),
    };
    if required {
        SettledCandidate::Required { prepared }
    } else {
        SettledCandidate::Ranked { prepared }
    }
}

/// Refuses candidates that repeat an identity or lack a policy reason.
pub fn check_candidates(candidates: &Vec<ContextCandidate>) -> (r: Result<(), ContextCompileError>)
    ensures
        match r {
            Ok(_) => all_admissible(candidates_view(candidates@)),
            Err(e) => exists|i: int| #[trigger]
                reports_inadmissible(e, candidates_view(candidates@), i),
        },
{
    let ghost cs = candidates_view(candidates@);
    let mut i: usize = 0;
    while i < candidates.len()
        invariant
            cs == candidates_view(candidates@),
            0 <= i <= candidates@.len(),
            forall|j: int| 0 <= j < i ==> #[trigger] admissible(cs, j),
        decreases candidates.len() - i,
    {
        let mut j: usize = 0;
        while j < i
            invariant
                cs == candidates_view(candidates@),
                0 <= j <= i < candidates@.len(),
                forall|k: int| 0 <= k < i ==> #[trigger] admissible(cs, k),
                forall|k: int| 0 <= k < j ==> (#[trigger] cs[k]).node.id != cs[i as int].node.id,
            decreases i - j,
        {
            if same_text(&candidates[j].node.id, &candidates[i].node.id) {
                let e = ContextCompileError::DuplicateCandidate {
                    node_id: candidates[i].node.id.clone(),
                };
                proof {
                    assert(cs[j as int].node.id == cs[i as int].node.id);
                    assert(repeated(cs, i as int));
                    assert(reports_inadmissible(e, cs, i as int));
                }
                return Err(e);
            }
            j += 1;
        }
        if !candidates[i].directive.is_well_formed() {
            let e = ContextCompileError::InvalidPolicyReason {
                node_id: candidates[i].node.id.clone(),
            };
            assert(reports_inadmissible(e, cs, i as int));
            return Err(e);
        }
        i += 1;
    }
    Ok(())
}

impl ContextCompiler {
    /// Compiles candidates whose relevance is known.
    fn compile_with(
        &self,
        candidates: &Vec<ContextCandidate>,
        relevances: &Vec<Result<Relevance, RetrievalError>>,
        token_budget: Option<u32>,
        now: Timestamp,
    ) -> (r: Result<CompiledContext, ContextCompileError>)
        requires
            candidates@.len() == relevances@.len(),
        ensures
            compile_outcome(
                *self,
                candidates_view(candidates@),
                relevances@,
                token_budget,
                now,
                r,
            ),
    {
        let ghost cs = candidates_view(candidates@);
        let ghost f = fates(cs, relevances@, now);
        match check_candidates(candidates) {
            Err(e) => {
                return Err(e);
            },
            Ok(()) => {},
        }
        let mut required: Vec<PreparedCandidate> = Vec::new();
        let mut ranked: Vec<PreparedCandidate> = Vec::new();
        let mut excluded: Vec<ContextExclusion> = Vec::new();
        let mut i: usize = 0;
        proof {
            assert(prepared_view(required@) =~= arranged(required_part(f.take(0)), selection_order()));
            assert(prepared_view(ranked@) =~= arranged(ranked_part(f.take(0)), selection_order()));
            assert(exclusions_view(excluded@) =~= excluded_part(f.take(0)));
        }
        while i < candidates.len()
            invariant
                cs == candidates_view(candidates@),
                f == fates(cs, relevances@, now),
                candidates@.len() == relevances@.len(),
                all_admissible(cs),
                0 <= i <= candidates@.len(),
                forall|j: int| 0 <= j < i ==> !(#[trigger] f[j]).fatal(),
                prepared_view(required@) == arranged(
                    required_part(f.take(i as int)),
                    selection_order(),
                ),
                prepared_view(ranked@) == arranged(
                    ranked_part(f.take(i as int)),
                    selection_order(),
                ),
                exclusions_view(excluded@) == excluded_part(f.take(i as int)),
            decreases candidates.len() - i,
        {
            let settled = settle(&candidates[i], &relevances[i], now);
            proof {
                assert(settled@ == f[i as int]);
                assert(f.take(i + 1).drop_last() =~= f.take(i as int));
                assert(f.take(i + 1).last() == f[i as int]);
            }
            match settled {
                SettledCandidate::RequiredInvalid { reason } => {
                    let e = ContextCompileError::InvalidRequiredContext {
                        node_id: candidates[i].node.id.clone(),
                        reason,
                    };
                    assert(reports_fatal(e, cs, f, i as int));
                    return Err(e);
                },
                SettledCandidate::RetrievalFailed { error } => {
                    let e = ContextCompileError::Retrieval(error);
                    assert(reports_fatal(e, cs, f, i as int));
                    return Err(e);
                },
                SettledCandidate::Excluded { exclusion } => {
                    let ghost before = exclusions_view(excluded@);
                    excluded.push(exclusion);
                    assert(exclusions_view(excluded@) =~= before.push(exclusion@));
                },
                SettledCandidate::Required { prepared } => {
                    place(&mut required, prepared);
                    proof {
                        let s = required_part(f.take(i as int)).push(prepared@);
                        assert(s.drop_last() =~= required_part(f.take(i as int)));
                    }
                },
                SettledCandidate::Ranked { prepared } => {
                    place(&mut ranked, prepared);
                    proof {
                        let s = ranked_part(f.take(i as int)).push(prepared@);
                        assert(s.drop_last() =~= ranked_part(f.take(i as int)));
                    }
                },
            }
            i += 1;
        }
        assert(f.take(i as int) =~= f);
        let required_cost: u32 = total_cost(&required);
        if required_cost > self.absolute_budget {
            return Err(
                ContextCompileError::RequiredContextBudgetExceeded {
                    used: required_cost,
                    absolute_budget: self.absolute_budget,
                },
            );
        }
        let mut selection = SelectionBuilder::new(excluded);
        selection.take_all(&required);
        selection.take_fitting(&ranked, self.selection_budget(token_budget));
        Ok(selection.finish(self.expected_token_budget(token_budget), self.absolute_budget))
    }

    /// Compiles candidates for a legacy task signature. `weights` holds, for
    /// each candidate, the weighted sum of the terms of its relevance.
    pub fn compile(
        &self,
        signature: &TaskSignature,
        candidates: Vec<ContextCandidate>,
        weights: &Vec<Binary32>,
        token_budget: Option<u32>,
        now: Timestamp,
    ) -> (r: Result<CompiledContext, ContextCompileError>)
        requires
            candidates@.len() == weights@.len(),
        ensures
            compile_outcome(
                *self,
                candidates_view(candidates@),
                legacy_relevances(*signature, candidates_view(candidates@), weights@),
                token_budget,
                now,
                r,
            ),
    {
        let query_tokens = tokenize(&signature.searchable_text());
        let ghost query = token_set(spaced(signature.parts()));
        assert(query_tokens.tokens() =~= query);
        let mut relevances: Vec<Result<Relevance, RetrievalError>> = Vec::new();
        let mut i: usize = 0;
        while i < candidates.len()
            invariant
                candidates@.len() == weights@.len(),
                query_tokens.well_formed(),
                query_tokens.tokens() == query,
                0 <= i <= candidates@.len(),
                relevances@.len() == i,
                forall|j: int|
                    0 <= j < i ==> #[trigger] relevances@[j] == Ok::<Relevance, RetrievalError>(
                        relevance_of(query, candidates@[j].node@, weights@[j]),
                    ),
            decreases candidates.len() - i,
        {
            relevances.push(Ok(relevance_score(&candidates[i].node, &query_tokens, weights[i])));
            i += 1;
        }
        assert(relevances@ =~= legacy_relevances(
            *signature,
            candidates_view(candidates@),
            weights@,
        ));
        self.compile_with(&candidates, &relevances, token_budget, now)
    }

    /// Compiles candidates for a prepared query. `matches` holds what matching
    /// each candidate against the query gave. More candidates than one query
    /// may look at are refused before any is examined.
    pub fn compile_query(
        &self,
        candidates: Vec<ContextCandidate>,
        matches: &Vec<QueryMatch>,
        token_budget: Option<u32>,
        now: Timestamp,
    ) -> (r: Result<CompiledContext, ContextCompileError>)
        requires
            candidates@.len() == matches@.len(),
        ensures
            candidates@.len() > MAX_CANDIDATE_COUNT ==> r == Err::<
                CompiledContext,
                ContextCompileError,
            >(
                ContextCompileError::Retrieval(
                    RetrievalError::CandidateCountExceeded {
                        actual: (MAX_CANDIDATE_COUNT + 1) as usize,
                        maximum: MAX_CANDIDATE_COUNT,
                    },
                ),
            ),
            candidates@.len() <= MAX_CANDIDATE_COUNT ==> compile_outcome(
                *self,
                candidates_view(candidates@),
                query_relevances(candidates_view(candidates@), matches@),
                token_budget,
                now,
                r,
            ),
    {
        if candidates.len() > MAX_CANDIDATE_COUNT {
            return Err(
                ContextCompileError::Retrieval(
                    RetrievalError::CandidateCountExceeded {
                        actual: MAX_CANDIDATE_COUNT + 1,
                        maximum: MAX_CANDIDATE_COUNT,
                    },
                ),
            );
        }
        let mut relevances: Vec<Result<Relevance, RetrievalError>> = Vec::new();
        let mut i: usize = 0;
        while i < candidates.len()
            invariant
                candidates@.len() == matches@.len(),
                0 <= i <= candidates@.len(),
                relevances@.len() == i,
                forall|j: int|
                    0 <= j < i ==> #[trigger] relevances@[j] == v2_relevance_of(
                        candidates@[j].node@,
                        matches@[j],
                    ),
            decreases candidates.len() - i,
        {
            relevances.push(v2_relevance(&candidates[i].node, &matches[i]));
            i += 1;
        }
        assert(relevances@ =~= query_relevances(candidates_view(candidates@), matches@));
        self.compile_with(&candidates, &relevances, token_budget, now)
    }
}

/// The relevance of each candidate to a legacy signature.
pub open spec fn legacy_relevances(
    signature: TaskSignature,
    candidates: Seq<CandidateModel>,
    weights: Seq<Binary32>,
) -> Seq<Result<Relevance, RetrievalError>> {
    Seq::new(
        candidates.len(),
        |i: int|
            Ok(
                relevance_of(
                    token_set(spaced(signature.parts())),
                    candidates[i].node,
                    weights[i],
                ),
            ),
    )
}

/// The relevance of each candidate to a prepared query.
pub open spec fn query_relevances(
    candidates: Seq<CandidateModel>,
    matches: Seq<QueryMatch>,
) -> Seq<Result<Relevance, RetrievalError>> {
    Seq::new(candidates.len(), |i: int| v2_relevance_of(candidates[i].node, matches[i]))
}

} // verus!
