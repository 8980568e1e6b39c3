//! Rankings of context for a query, and what is compiled from them.

use std::cell::{Cell, RefCell};
use std::collections::HashMap;

use ditto::binary32::Binary32;
use ditto::context::capsule::{ContextCapsule, ContextCapsuleItem};
use ditto::context::compiler::ContextCompiler;
use ditto::context::node::{
    context_retrieval_document, ContextLens, ContextNode, ContextNodeKind, ContextOrigin,
    ContextScope, EpistemicStatus, NodeEncoding,
};
use ditto::context::ranking::{
    bounded_context_ranking_error_detail, validate_context_query_provider,
    validate_ranked_context_node, ContextQueryRanking, ContextQueryRankingError,
    ContextRankingWork, RankingAction, MAX_CONTEXT_NODE_ID_BYTES, MAX_CONTEXT_NODE_SUMMARY_BYTES,
    MAX_CONTEXT_RANKING_ERROR_DETAIL_BYTES, MAX_CONTEXT_REFERENCE_ID_BYTES,
    MAX_CONTEXT_SOURCE_EVENT_IDS, MAX_CONTEXT_SUPERSEDES, MAX_SERIALIZED_CONTEXT_NODE_BYTES,
};
use ditto::context::receipt::{CompiledContext, ContextExclusionReason};
use ditto::context::signature::{authority_tenths, QueryMatch};
use ditto::context::validate::CompiledContextValidationError;
use ditto::retrieval::{
    ContextResultLimit, RetrievalError, RetrievalMode, RetrievalWorkBudget, RetrievalWorkKind,
    MAX_CANDIDATE_COUNT, MAX_CONTEXT_RESULT_LIMIT,
};
use ditto::time::Timestamp;

const CLOCK: Timestamp = Timestamp { secs: 1_760_000_000, nanos: 123_456_789 };

fn seconds_after(at: Timestamp, seconds: i64) -> Timestamp {
    Timestamp { secs: at.secs + seconds, nanos: at.nanos }
}

fn bits(value: f32) -> Binary32 {
    Binary32::from_bits(value.to_bits())
}

fn value(number: Binary32) -> f32 {
    f32::from_bits(number.to_bits())
}

fn quoted(text: &str) -> String {
    serde_json::to_string(text).expect("text is written")
}

fn list(values: &[String]) -> String {
    serde_json::to_string(values).expect("texts are written")
}

fn moment(at: Timestamp) -> String {
    let time = chrono::DateTime::from_timestamp(at.secs, at.nanos).expect("moment");
    format!("\"{}\"", time.to_rfc3339_opts(chrono::SecondsFormat::AutoSi, true))
}

fn token(name: String) -> String {
    format!("\"{}\"", name.to_lowercase())
}

fn head_json(node: &ContextNode) -> String {
    format!(
        "{{\"id\":{},\"kind\":\"{}\",\"summary\":{},\"origin\":{},\"epistemic\":{},\"scope\":{}",
        quoted(&node.id),
        node.kind.as_str(),
        quoted(&node.summary),
        token(format!("{:?}", node.origin)),
        token(format!("{:?}", node.epistemic)),
        token(format!("{:?}", node.scope)),
    )
}

fn node_json(node: &ContextNode) -> String {
    let time = |at: &Option<Timestamp>| at.map(moment).unwrap_or("null".to_owned());
    format!(
        "{},\"lens\":{},\"confidence\":{},\"source_event_ids\":{},\"supersedes\":{},\
         \"valid_from\":{},\"valid_until\":{}}}",
        head_json(node),
        token(format!("{:?}", node.lens)),
        serde_json::to_string(&value(node.confidence)).expect("number"),
        list(&node.source_event_ids),
        list(&node.supersedes),
        time(&node.valid_from),
        time(&node.valid_until),
    )
}

fn item_json(node: &ContextNode) -> String {
    let mut json = format!(
        "{},\"confidence\":{}",
        head_json(node),
        serde_json::to_string(&value(node.confidence)).expect("number"),
    );
    if !node.source_event_ids.is_empty() {
        json.push_str(&format!(",\"source_event_ids\":{}", list(&node.source_event_ids)));
    }
    if let Some(at) = node.valid_from {
        json.push_str(&format!(",\"valid_from\":{}", moment(at)));
    }
    if let Some(at) = node.valid_until {
        json.push_str(&format!(",\"valid_until\":{}", moment(at)));
    }
    json.push('}');
    json
}

/// Measures the forms of a node anew.
fn encoded(mut node: ContextNode) -> ContextNode {
    let node_bytes = node_json(&node).len();
    let payload_bytes = node_bytes + "{\"event_version\":1,\"node\":}".len();
    node.encoding = NodeEncoding {
        confidence_text: format!("{}", value(node.confidence)),
        node_bytes: Some(node_bytes),
        payload_bytes: Some(payload_bytes),
        capsule_bytes: Some(item_json(&node).len()),
        failure: String::new(),
    };
    node
}

fn node(id: &str, summary: &str) -> ContextNode {
    encoded(ContextNode {
        id: id.into(),
        kind: ContextNodeKind::Constraint,
        summary: summary.into(),
        origin: ContextOrigin::User,
        epistemic: EpistemicStatus::Asserted,
        scope: ContextScope::Project,
        lens: ContextLens::Task,
        confidence: bits(1.0),
        source_event_ids: vec!["event-1".into()],
        supersedes: Vec::new(),
        valid_from: None,
        valid_until: None,
        encoding: NodeEncoding {
            confidence_text: String::new(),
            node_bytes: None,
            payload_bytes: None,
            capsule_bytes: None,
            failure: String::new(),
        },
    })
}

/// A prepared query: the words of its parts, and the names it asks for.
struct Query {
    words: Vec<String>,
    names: Vec<String>,
}

fn words(text: &str) -> Vec<String> {
    let mut found: Vec<String> = text
        .split(|c: char| !c.is_alphanumeric())
        .filter(|word| !word.is_empty())
        .map(str::to_lowercase)
        .collect();
    found.sort();
    found.dedup();
    found
}

fn normalized(name: &str) -> String {
    name.split_whitespace().collect::<Vec<_>>().join(" ").to_lowercase()
}

impl Query {
    fn new(request: &str) -> Query {
        Query::naming(request, &[])
    }

    fn naming(request: &str, names: &[&str]) -> Query {
        Query {
            words: words(&format!("{request} {}", names.join(" "))),
            names: names.iter().map(|name| normalized(name)).collect(),
        }
    }

    fn names_exactly(&self, id: &str) -> Result<bool, RetrievalError> {
        if id.chars().any(|c| c.is_control() && !c.is_whitespace()) {
            return Err(RetrievalError::ControlCharacter);
        }
        Ok(self.names.contains(&normalized(id)))
    }

    fn matched(&self, node: &ContextNode) -> QueryMatch {
        let document = context_retrieval_document(node).map(|d| words(d.as_str()));
        let held = document.unwrap_or_default();
        let shared = self.words.iter().filter(|word| held.contains(*word)).count();
        let overlap = shared as f32 / self.words.len() as f32;
        let authority = authority_tenths(node) as f32 / 10.0;
        QueryMatch {
            lexical_overlap: bits(overlap),
            weighted: bits(overlap * 5.0 + authority + value(node.confidence)),
            exact: self.names_exactly(&node.id),
        }
    }
}

const MAX_TOTAL_CANDIDATE_BYTES: usize = 16 * 1024 * 1024;
const MAX_PROVIDER_CALLS: usize = 64;

fn fresh_budget() -> RetrievalWorkBudget {
    RetrievalWorkBudget::with_limits(MAX_TOTAL_CANDIDATE_BYTES, usize::MAX, usize::MAX)
}

/// An embedding provider that counts its calls and remembers its documents.
struct RankingProvider {
    documents: RefCell<Vec<String>>,
    calls: Cell<usize>,
    vectors: HashMap<String, Vec<f32>>,
    fault: Option<RetrievalError>,
}

impl RankingProvider {
    fn new() -> Self {
        Self {
            documents: RefCell::new(Vec::new()),
            calls: Cell::new(0),
            vectors: HashMap::new(),
            fault: None,
        }
    }

    fn with_document_vector(mut self, node_id: &str, vector: Vec<f32>) -> Self {
        self.vectors.insert(node_id.into(), vector);
        self
    }

    fn failing(fault: RetrievalError) -> Self {
        Self { fault: Some(fault), ..RankingProvider::new() }
    }

    fn document_ids(&self) -> Vec<String> {
        self.documents.borrow().clone()
    }

    /// The cosine of the document's vector with the query's, which is (1, 0).
    fn similarity(&self, node_id: &str) -> Result<f32, RetrievalError> {
        let attempted = self.calls.get() + 1;
        if attempted > MAX_PROVIDER_CALLS {
            return Err(RetrievalError::WorkBudgetExceeded {
                kind: RetrievalWorkKind::ProviderCalls,
                attempted,
                maximum: MAX_PROVIDER_CALLS,
            });
        }
        self.calls.set(attempted);
        self.documents.borrow_mut().push(node_id.to_owned());
        if let Some(fault) = self.fault {
            return Err(fault);
        }
        let vector = self.vectors.get(node_id).cloned().unwrap_or_else(|| vec![0.0, 1.0]);
        Ok(vector[0] / (vector[0] * vector[0] + vector[1] * vector[1]).sqrt())
    }
}

fn rank_within<I: IntoIterator<Item = ContextNode>>(
    query: &Query,
    mode: RetrievalMode,
    candidates: I,
    evaluated_at: Timestamp,
    limit: usize,
    provider: Option<&RankingProvider>,
    budget: &mut RetrievalWorkBudget,
) -> Result<ContextQueryRanking, ContextQueryRankingError> {
    validate_context_query_provider(mode, provider.is_some())?;
    let candidates = candidates.into_iter().take(MAX_CANDIDATE_COUNT + 1).collect();
    let limit = ContextResultLimit::new(limit).expect("result limit");
    let mut work = ContextRankingWork::take_in(
        mode,
        provider.is_some(),
        candidates,
        evaluated_at,
        limit,
        budget,
    )?;
    loop {
        match work.advance(budget)? {
            RankingAction::Settled => {}
            RankingAction::Finished => return Ok(work.finish()),
            RankingAction::MatchDocument(document) => {
                let node = work.current_node();
                assert_eq!(context_retrieval_document(node), Ok(document));
                let matched = query.matched(node);
                let node_id = node.id.clone();
                if let RankingAction::Embed = work.admit_match(&matched, budget)? {
                    let provider = provider.expect("embedded mode has a provider");
                    let similarity = provider
                        .similarity(&node_id)
                        .map_err(ContextQueryRankingError::Retrieval)?;
                    work.admit_similarity(bits(similarity));
                }
            }
            RankingAction::Embed => unreachable!("a node is matched first"),
        }
    }
}

fn rank<I: IntoIterator<Item = ContextNode>>(
    query: &Query,
    candidates: I,
    evaluated_at: Timestamp,
    limit: usize,
    provider: Option<&RankingProvider>,
) -> Result<ContextQueryRanking, ContextQueryRankingError> {
    let mode = if provider.is_some() { RetrievalMode::Embedded } else { RetrievalMode::LexicalOnly };
    rank_within(query, mode, candidates, evaluated_at, limit, provider, &mut fresh_budget())
}

fn ids(compiled: &CompiledContext) -> Vec<&str> {
    compiled.nodes.iter().map(|node| node.id.as_str()).collect()
}

fn reference_at_bound(index: usize) -> String {
    let prefix = format!("event-{index:02}-");
    format!("{prefix}{}", "r".repeat(MAX_CONTEXT_REFERENCE_ID_BYTES - prefix.len()))
}

fn node_with_serialized_len(target: usize) -> ContextNode {
    let mut candidate = node("serialized-bound", &"s".repeat(MAX_CONTEXT_NODE_SUMMARY_BYTES));
    candidate.source_event_ids = (0..5).map(reference_at_bound).collect();
    let baseline = node_json(&candidate).len();
    let extra_escapes = target.checked_sub(baseline).expect("serialized target exceeds baseline");
    assert!(extra_escapes <= MAX_CONTEXT_NODE_SUMMARY_BYTES);
    candidate.summary = format!(
        "{}{}",
        "\\".repeat(extra_escapes),
        "s".repeat(MAX_CONTEXT_NODE_SUMMARY_BYTES - extra_escapes)
    );
    assert_eq!(node_json(&candidate).len(), target);
    encoded(candidate)
}

#[test]
fn embedded_rank_survives_token_budget_reversal_and_retains_lexical_scores() {
    let provider = RankingProvider::new()
        .with_document_vector("node-a", vec![0.0, 1.0])
        .with_document_vector("node-b", vec![1.0, 0.0]);
    let query = Query::new("alpha beta");
    let node_a = node("node-a", "alpha beta");
    let node_b = node("node-b", "alpha");
    let node_b_cost = ContextCapsuleItem::from(&node_b).token_cost();
    let ranking =
        rank(&query, [node_a, node_b], CLOCK, 2, Some(&provider)).expect("context ranking");

    assert_eq!(provider.document_ids(), ["node-a", "node-b"]);
    let compiler = ContextCompiler::default();
    let full = compiler.compile_ranked_query(&ranking, None).expect("full ranked context");
    assert_eq!(ids(&full), ["node-b", "node-a"]);
    assert!(value(full.receipt.included[0].score) < value(full.receipt.included[1].score));

    let constrained = compiler
        .compile_ranked_query(&ranking, Some(node_b_cost))
        .expect("budgeted ranked context");
    assert_eq!(ids(&constrained), ["node-b"]);
    assert!(constrained.receipt.excluded.iter().any(|entry| {
        entry.node_id == "node-a" && entry.reason == ContextExclusionReason::TokenBudget
    }));
    let capsule = ContextCapsule::from(&constrained);
    compiler
        .validate_compiled_ranked_query(&ranking, &constrained, &capsule, Some(node_b_cost))
        .expect("authenticated embedded order validates");
}

#[test]
fn ranked_query_backfills_lower_candidate_when_top_rank_does_not_fit() {
    let provider = RankingProvider::new()
        .with_document_vector("large-top", vec![1.0, 0.0])
        .with_document_vector("small-lower", vec![1.0, 1.0]);
    let query = Query::new("alpha");
    let large = node("large-top", &format!("alpha {}", "large ".repeat(800)));
    let small = node("small-lower", "alpha");
    let small_cost = ContextCapsuleItem::from(&small).token_cost();
    assert!(ContextCapsuleItem::from(&large).token_cost() > small_cost);
    let ranking =
        rank(&query, [large, small], CLOCK, 2, Some(&provider)).expect("context ranking");

    let compiled = ContextCompiler::default()
        .compile_ranked_query(&ranking, Some(small_cost))
        .expect("backfilled context");
    assert_eq!(compiled.nodes.len(), 1);
    assert_eq!(compiled.nodes[0].id, "small-lower");
    assert_eq!(
        compiled.receipt.excluded.last().map(|entry| entry.node_id.as_str()),
        Some("large-top")
    );
    assert_eq!(
        compiled.receipt.excluded.last().map(|entry| &entry.reason),
        Some(&ContextExclusionReason::TokenBudget)
    );
}

#[test]
fn exact_context_id_beats_maximum_cosine_and_all_eligible_documents_embed_in_id_order() {
    let provider = RankingProvider::new()
        .with_document_vector("exact-node", vec![0.0, 1.0])
        .with_document_vector("lexical-id", vec![1.0, 0.0]);
    let query = Query {
        words: vec!["target".into()],
        names: vec!["exact-node".into()],
    };
    let ranking = rank(
        &query,
        [
            node("lexical-id", "target"),
            node("exact-node", "unrelated"),
            node("irrelevant-id", "nothing useful"),
        ],
        CLOCK,
        1,
        Some(&provider),
    )
    .expect("context ranking");
    assert_eq!(provider.document_ids(), ["exact-node", "lexical-id"]);
    assert_eq!(ranking.len(), 1);

    let compiled = ContextCompiler::default()
        .compile_ranked_query(&ranking, None)
        .expect("compile exact context");
    assert_eq!(compiled.nodes[0].id, "exact-node");
    assert!(compiled.receipt.excluded.iter().any(|entry| {
        entry.node_id == "irrelevant-id" && entry.reason == ContextExclusionReason::Irrelevant
    }));
}

#[test]
fn context_ranking_shares_aggregate_and_provider_budgets_before_work_escapes() {
    let query = Query::new("target");
    let mut exhausted_candidates = fresh_budget();
    exhausted_candidates
        .charge_candidate_bytes(MAX_TOTAL_CANDIDATE_BYTES)
        .expect("exact candidate-byte maximum");
    let error = rank_within(
        &query,
        RetrievalMode::LexicalOnly,
        [node("target", "target")],
        CLOCK,
        1,
        None,
        &mut exhausted_candidates,
    )
    .err()
    .expect("candidate-byte N+1");
    assert!(matches!(
        error,
        ContextQueryRankingError::Retrieval(RetrievalError::WorkBudgetExceeded {
            kind: RetrievalWorkKind::CandidateBytes,
            maximum: MAX_TOTAL_CANDIDATE_BYTES,
            ..
        })
    ));

    let provider = RankingProvider::new().with_document_vector("target", vec![1.0, 0.0]);
    provider.calls.set(MAX_PROVIDER_CALLS);
    let error = rank(&query, [node("target", "target")], CLOCK, 1, Some(&provider))
        .err()
        .expect("provider-call N+1");
    assert!(matches!(
        error,
        ContextQueryRankingError::Retrieval(RetrievalError::WorkBudgetExceeded {
            kind: RetrievalWorkKind::ProviderCalls,
            attempted,
            maximum,
        }) if attempted == MAX_PROVIDER_CALLS + 1 && maximum == MAX_PROVIDER_CALLS
    ));
    assert!(
        provider.document_ids().is_empty(),
        "over-budget document input must not reach the provider"
    );
}

#[test]
fn maximum_size_ten_thousand_candidate_generator_stops_at_the_shared_byte_budget() {
    let query = Query::new("target");
    let maximum_summary = "s".repeat(MAX_CONTEXT_NODE_SUMMARY_BYTES);
    let yielded = Cell::new(0_usize);
    let candidates = (0..MAX_CANDIDATE_COUNT).map(|index| {
        yielded.set(yielded.get() + 1);
        node(&format!("maximum-{index:05}"), &maximum_summary)
    });
    let mut budget = fresh_budget();

    let error = rank_within(
        &query,
        RetrievalMode::LexicalOnly,
        candidates,
        CLOCK,
        1,
        None,
        &mut budget,
    )
    .err()
    .expect("maximum-size generator must hit the cumulative candidate budget");

    assert_eq!(yielded.get(), MAX_CANDIDATE_COUNT);
    assert!(matches!(
        error,
        ContextQueryRankingError::Retrieval(RetrievalError::WorkBudgetExceeded {
            kind: RetrievalWorkKind::CandidateBytes,
            maximum: MAX_TOTAL_CANDIDATE_BYTES,
            ..
        })
    ));
    assert!(budget.candidate_bytes <= MAX_TOTAL_CANDIDATE_BYTES);
    assert_eq!(budget.document_bytes, 0);
    assert_eq!(budget.lexical_bytes, 0);
}

#[test]
fn lexical_ranking_filters_inactive_and_irrelevant_nodes_deterministically() {
    let evaluated_at = CLOCK;
    let query = Query::new("alpha beta");
    let mut disputed = node("d-disputed", "alpha beta");
    disputed.epistemic = EpistemicStatus::Disputed;
    let mut expired = node("e-expired", "alpha beta");
    expired.valid_until = Some(evaluated_at);
    let mut future = node("f-future", "alpha beta");
    future.valid_from = Some(seconds_after(evaluated_at, 1));
    let ranking = rank(
        &query,
        [
            node("b-low", "alpha"),
            encoded(future),
            node("z-irrelevant", "gamma"),
            encoded(disputed),
            node("z-high", "alpha beta"),
            node("a-low", "alpha"),
            encoded(expired),
        ],
        evaluated_at,
        3,
        None,
    )
    .expect("lexical ranking");
    assert_eq!(ranking.len(), 3);

    let compiled = ContextCompiler::default()
        .compile_ranked_query(&ranking, None)
        .expect("compile lexical ranking");
    assert_eq!(ids(&compiled), ["z-high", "a-low", "b-low"]);
    assert_eq!(
        compiled
            .receipt
            .excluded
            .iter()
            .map(|entry| (entry.node_id.as_str(), &entry.reason))
            .collect::<Vec<_>>(),
        [
            ("d-disputed", &ContextExclusionReason::DisputedOrExpired),
            ("e-expired", &ContextExclusionReason::DisputedOrExpired),
            ("f-future", &ContextExclusionReason::DisputedOrExpired),
            ("z-irrelevant", &ContextExclusionReason::Irrelevant),
        ]
    );
}

#[test]
fn ranked_query_rejects_provider_mode_mismatch_before_consuming_candidates() {
    let provider = RankingProvider::new();
    let query = Query::new("alpha");
    let consumed = Cell::new(0_usize);
    let lexical_error = rank_within(
        &query,
        RetrievalMode::LexicalOnly,
        std::iter::from_fn(|| {
            consumed.set(consumed.get() + 1);
            Some(node("never", "alpha"))
        }),
        CLOCK,
        1,
        Some(&provider),
        &mut fresh_budget(),
    )
    .err()
    .expect("lexical query rejects provider");
    assert_eq!(consumed.get(), 0);
    assert_eq!(
        lexical_error,
        ContextQueryRankingError::ProviderModeMismatch {
            mode: RetrievalMode::LexicalOnly,
            provider_present: true,
        }
    );

    let consumed = Cell::new(0_usize);
    let embedded_error = rank_within(
        &query,
        RetrievalMode::Embedded,
        std::iter::from_fn(|| {
            consumed.set(consumed.get() + 1);
            Some(node("never", "alpha"))
        }),
        CLOCK,
        1,
        None,
        &mut fresh_budget(),
    )
    .err()
    .expect("embedded query requires provider");
    assert_eq!(consumed.get(), 0);
    assert_eq!(
        embedded_error,
        ContextQueryRankingError::ProviderModeMismatch {
            mode: RetrievalMode::Embedded,
            provider_present: false,
        }
    );
    assert_eq!(
        ContextRankingWork::take_in(
            RetrievalMode::Embedded,
            false,
            vec![node("never", "alpha")],
            CLOCK,
            ContextResultLimit::new(1).expect("result limit"),
            &mut fresh_budget(),
        )
        .err(),
        Some(embedded_error)
    );
}

#[test]
fn ranked_query_rejects_provider_failures_and_invalid_document_vectors_without_partial_result() {
    for fault in [
        RetrievalError::ProviderFailure,
        RetrievalError::EmbeddingDescriptorMismatch,
        RetrievalError::EmbeddingDimensionMismatch,
        RetrievalError::NonFiniteEmbeddingValue { index: 0 },
        RetrievalError::ZeroEmbeddingVector,
    ] {
        let provider = RankingProvider::failing(fault);
        let error = rank(
            &Query::new("alpha"),
            [node("a-node", "alpha"), node("b-node", "alpha")],
            CLOCK,
            2,
            Some(&provider),
        )
        .err()
        .expect("invalid document provider output fails the whole ranking");
        assert_eq!(error, ContextQueryRankingError::Retrieval(fault));
        assert_eq!(provider.document_ids(), ["a-node"]);
    }
}

#[test]
fn ranked_query_enforces_candidate_node_document_and_result_bounds() {
    assert!(ContextResultLimit::new(0).is_err());
    assert!(ContextResultLimit::new(MAX_CONTEXT_RESULT_LIMIT).is_ok());
    assert!(ContextResultLimit::new(MAX_CONTEXT_RESULT_LIMIT + 1).is_err());

    let query = Query::new("alpha");
    let duplicate =
        rank(&query, [node("duplicate", "alpha"), node("duplicate", "alpha")], CLOCK, 1, None)
            .err()
            .expect("duplicate nodes fail");
    assert!(matches!(
        duplicate,
        ContextQueryRankingError::DuplicateCandidate { ref node_id } if node_id == "duplicate"
    ));

    let mut nonfinite = node("nonfinite", "alpha");
    nonfinite.confidence = bits(f32::NAN);
    assert!(matches!(
        rank(&query, [encoded(nonfinite)], CLOCK, 1, None),
        Err(ContextQueryRankingError::InvalidCandidate { ref node_id, .. })
            if node_id == "nonfinite"
    ));

    let mut missing_provenance = node("missing-provenance", "alpha");
    missing_provenance.source_event_ids.clear();
    assert!(matches!(
        rank(&query, [encoded(missing_provenance)], CLOCK, 1, None),
        Err(ContextQueryRankingError::InvalidCandidate { ref node_id, .. })
            if node_id == "missing-provenance"
    ));

    let maximum_node = node(
        &"i".repeat(MAX_CONTEXT_NODE_ID_BYTES),
        &"s".repeat(MAX_CONTEXT_NODE_SUMMARY_BYTES),
    );
    assert!(rank(&query, [maximum_node], CLOCK, 1, None).is_ok());

    let oversized_id = node(&"i".repeat(MAX_CONTEXT_NODE_ID_BYTES + 1), "alpha");
    assert!(matches!(
        rank(&query, [oversized_id], CLOCK, 1, None),
        Err(ContextQueryRankingError::CandidateIdTooLong { actual: 257, maximum: 256 })
    ));

    let attacker_id_bytes = 1024 * 1024;
    let attacker_id_error =
        rank(&query, [node(&"x".repeat(attacker_id_bytes), "alpha")], CLOCK, 1, None)
            .err()
            .expect("attacker-sized id fails before retention or cloning");
    assert_eq!(
        attacker_id_error,
        ContextQueryRankingError::CandidateIdTooLong {
            actual: attacker_id_bytes,
            maximum: MAX_CONTEXT_NODE_ID_BYTES,
        }
    );
    assert!(
        format!("{attacker_id_error:?}").len() < MAX_CONTEXT_NODE_ID_BYTES,
        "bounded error must not copy the attacker-sized id"
    );

    let oversized_summary =
        node("oversized-summary", &"s".repeat(MAX_CONTEXT_NODE_SUMMARY_BYTES + 1));
    assert!(matches!(
        rank(&query, [oversized_summary], CLOCK, 1, None),
        Err(ContextQueryRankingError::CandidateSummaryTooLong {
            actual: 65_001,
            maximum: 65_000,
            ..
        })
    ));

    let mut reference_and_list_maximum = node("reference-bounds", "alpha");
    reference_and_list_maximum.source_event_ids =
        (0..MAX_CONTEXT_SOURCE_EVENT_IDS).map(|index| format!("source-{index}")).collect();
    reference_and_list_maximum.supersedes =
        (0..MAX_CONTEXT_SUPERSEDES).map(|index| format!("superseded-{index}")).collect();
    let reference_and_list_maximum = encoded(reference_and_list_maximum);
    assert!(rank(&query, [reference_and_list_maximum.clone()], CLOCK, 1, None).is_ok());

    let mut source_count_over = reference_and_list_maximum.clone();
    source_count_over.source_event_ids.push("source-over".into());
    assert!(matches!(
        rank(&query, [encoded(source_count_over)], CLOCK, 1, None),
        Err(ContextQueryRankingError::InvalidCandidate { ref reason, .. })
            if reason.contains("source_event_ids contains 65 entries")
    ));

    let mut supersedes_count_over = reference_and_list_maximum;
    supersedes_count_over.supersedes.push("superseded-over".into());
    assert!(matches!(
        rank(&query, [encoded(supersedes_count_over)], CLOCK, 1, None),
        Err(ContextQueryRankingError::InvalidCandidate { ref reason, .. })
            if reason.contains("supersedes contains 65 entries")
    ));

    let mut reference_maximum = node("reference-maximum", "alpha");
    reference_maximum.source_event_ids = vec![reference_at_bound(0)];
    reference_maximum.supersedes = vec!["s".repeat(MAX_CONTEXT_REFERENCE_ID_BYTES)];
    let reference_maximum = encoded(reference_maximum);
    assert!(rank(&query, [reference_maximum.clone()], CLOCK, 1, None).is_ok());
    let mut reference_over = reference_maximum;
    reference_over.source_event_ids = vec!["r".repeat(MAX_CONTEXT_REFERENCE_ID_BYTES + 1)];
    assert!(matches!(
        rank(&query, [encoded(reference_over)], CLOCK, 1, None),
        Err(ContextQueryRankingError::InvalidCandidate { ref reason, .. })
            if reason.contains("257 bytes")
    ));

    let mut supersession_reference_over = node("supersession-reference-over", "alpha");
    supersession_reference_over.supersedes = vec!["s".repeat(MAX_CONTEXT_REFERENCE_ID_BYTES + 1)];
    assert!(matches!(
        rank(&query, [encoded(supersession_reference_over)], CLOCK, 1, None),
        Err(ContextQueryRankingError::InvalidCandidate { ref reason, .. })
            if reason.contains("supersedes reference at index 0 is 257 bytes")
    ));

    for (node_id, sources, supersedes, expected_reason) in [
        ("empty-source", vec![" ".into()], Vec::new(), "no source event provenance"),
        (
            "duplicate-source",
            vec!["event-a".into(), "event-a".into()],
            Vec::new(),
            "source_event_ids contains duplicate reference",
        ),
        (
            "duplicate-supersedes",
            vec!["event-a".into()],
            vec!["old".into(), "old".into()],
            "supersedes contains duplicate reference",
        ),
        (
            "empty-supersedes",
            vec!["event-a".into()],
            vec![" ".into()],
            "supersedes reference at index 0 is empty",
        ),
        (
            "self-supersedes",
            vec!["event-a".into()],
            vec!["self-supersedes".into()],
            "supersedes contains the node's own id",
        ),
    ] {
        let mut invalid = node(node_id, "alpha");
        invalid.source_event_ids = sources;
        invalid.supersedes = supersedes;
        assert!(matches!(
            rank(&query, [encoded(invalid)], CLOCK, 1, None),
            Err(ContextQueryRankingError::InvalidCandidate { ref reason, .. })
                if reason.contains(expected_reason)
        ));
    }

    let serialized_maximum = node_with_serialized_len(MAX_SERIALIZED_CONTEXT_NODE_BYTES);
    assert!(rank(&query, [serialized_maximum], CLOCK, 1, None).is_ok());
    let serialized_over = node_with_serialized_len(MAX_SERIALIZED_CONTEXT_NODE_BYTES + 1);
    assert!(matches!(
        rank(&query, [serialized_over], CLOCK, 1, None),
        Err(ContextQueryRankingError::InvalidCandidate { ref reason, .. })
            if reason.contains("131073 bytes")
    ));

    let over = (0..=MAX_CANDIDATE_COUNT).map(|index| node(&format!("candidate-{index}"), "alpha"));
    assert!(matches!(
        rank(&query, over, CLOCK, 1, None),
        Err(ContextQueryRankingError::Retrieval(RetrievalError::CandidateCountExceeded {
            actual: 10_001,
            maximum: 10_000,
        }))
    ));

    let oversized_first = std::iter::once(node(
        &"x".repeat(MAX_CONTEXT_NODE_ID_BYTES + 1),
        "alpha",
    ))
    .chain((0..MAX_CANDIDATE_COUNT).map(|index| node(&format!("count-precedence-{index}"), "alpha")));
    assert!(matches!(
        rank(&query, oversized_first, CLOCK, 1, None),
        Err(ContextQueryRankingError::Retrieval(RetrievalError::CandidateCountExceeded {
            actual: 10_001,
            maximum: 10_000,
        }))
    ));

    let accepted = (0..MAX_CANDIDATE_COUNT).map(|index| node(&format!("bounded-{index}"), "nothing"));
    assert!(rank(&query, accepted, CLOCK, 1, None).is_ok());
}

fn ranked_validation_fixture(
) -> (ContextCompiler, ContextQueryRanking, CompiledContext, ContextCapsule) {
    let query = Query::new("alpha beta");
    let mut disputed = node("y-disputed", "alpha beta");
    disputed.epistemic = EpistemicStatus::Disputed;
    let ranking = rank(
        &query,
        [
            node("b-node", "alpha"),
            node("z-irrelevant", "gamma"),
            node("a-node", "alpha beta"),
            encoded(disputed),
        ],
        CLOCK,
        2,
        None,
    )
    .expect("context ranking");
    let compiler = ContextCompiler::default();
    let compiled =
        compiler.compile_ranked_query(&ranking, None).expect("compiled ranked context");
    let capsule = ContextCapsule::from(&compiled);
    (compiler, ranking, compiled, capsule)
}

#[test]
fn ranked_compiled_validation_rejects_order_score_token_exclusion_reason_and_accounting_tamper() {
    let (compiler, ranking, compiled, _) = ranked_validation_fixture();
    let verdict = |tampered: &CompiledContext| {
        compiler.validate_compiled_ranked_query(
            &ranking,
            tampered,
            &ContextCapsule::from(tampered),
            None,
        )
    };
    verdict(&compiled).expect("canonical ranked result validates");

    let mut order = compiled.clone();
    order.nodes.swap(0, 1);
    order.receipt.included.swap(0, 1);
    assert!(matches!(
        verdict(&order),
        Err(CompiledContextValidationError::NonCanonicalOrder { .. })
    ));

    let mut score = compiled.clone();
    score.receipt.included[0].score = bits(value(score.receipt.included[0].score) + 1.0);
    assert!(matches!(
        verdict(&score),
        Err(CompiledContextValidationError::ScoreMismatch { .. })
    ));

    let mut token = compiled.clone();
    token.receipt.included[0].token_cost += 1;
    assert!(matches!(
        verdict(&token),
        Err(CompiledContextValidationError::TokenCostMismatch { .. })
    ));

    let mut exclusion_order = compiled.clone();
    exclusion_order.receipt.excluded.swap(0, 1);
    assert!(matches!(
        verdict(&exclusion_order),
        Err(CompiledContextValidationError::ExclusionReceiptMismatch { .. })
    ));

    let mut exclusion_reason = compiled.clone();
    exclusion_reason.receipt.excluded[0].reason = ContextExclusionReason::TokenBudget;
    assert!(matches!(
        verdict(&exclusion_reason),
        Err(CompiledContextValidationError::ExclusionReceiptMismatch { .. })
    ));

    let mut elevated_reason = compiled.clone();
    elevated_reason.receipt.included[0].reason = "user-pinned".into();
    assert!(matches!(
        verdict(&elevated_reason),
        Err(CompiledContextValidationError::InvalidReceiptReason { .. })
    ));

    let mut accounting = compiled.clone();
    accounting.receipt.total_token_cost += 1;
    assert!(matches!(
        verdict(&accounting),
        Err(CompiledContextValidationError::TokenAccountingMismatch { .. })
    ));
}

#[test]
fn a_ranking_keeps_its_instant_and_the_best_nodes_whatever_the_order_of_candidates() {
    let query = Query::new("alpha beta gamma");
    let nodes =
        [("a", "alpha"), ("b", "alpha beta"), ("c", "gamma"), ("d", "alpha beta gamma")];
    let forward = rank(&query, nodes.map(|(id, text)| node(id, text)), CLOCK, 3, None)
        .expect("forward ranking");
    let mut backward: Vec<ContextNode> =
        nodes.iter().map(|(id, text)| node(id, text)).collect();
    backward.reverse();
    let backward = rank(&query, backward, CLOCK, 3, None).expect("backward ranking");
    assert_eq!(forward.evaluated_at(), CLOCK);
    assert_eq!(forward.result_limit(), 3);
    assert_eq!(forward.excluded_count(), 0);
    assert!(!forward.is_empty());
    let compiler = ContextCompiler::default();
    let first = compiler.compile_ranked_query(&forward, None).expect("compiled");
    let second = compiler.compile_ranked_query(&backward, None).expect("compiled");
    assert_eq!(ids(&first), ["d", "b", "a"]);
    assert_eq!(ids(&first), ids(&second));
    assert!(first.receipt.total_token_cost <= compiler.default_budget);

    let mut shorter = first.clone();
    shorter.nodes.pop();
    shorter.receipt.included.pop();
    shorter.receipt.total_token_cost =
        shorter.receipt.included.iter().map(|entry| entry.token_cost).sum();
    assert_eq!(
        compiler.validate_compiled_ranked_query(
            &forward,
            &shorter,
            &ContextCapsule::from(&shorter),
            None,
        ),
        Err(CompiledContextValidationError::RankedSelectionLengthMismatch {
            expected: 3,
            actual: 2,
        })
    );
}

#[test]
fn an_empty_ranking_compiles_to_nothing() {
    let ranking =
        rank(&Query::new("alpha"), [node("b", "beta")], CLOCK, 1, None).expect("ranking");
    assert!(ranking.is_empty());
    let compiled =
        ContextCompiler::default().compile_ranked_query(&ranking, None).expect("compiled");
    assert!(compiled.nodes.is_empty());
    assert_eq!(compiled.receipt.excluded.len(), 1);
    assert_eq!(compiled.receipt.total_token_cost, 0);
}

#[test]
fn document_and_lexical_work_is_charged_to_the_shared_budget() {
    let query = Query::new("alpha");
    let length = context_retrieval_document(&node("a", "alpha")).expect("document").as_str().len();
    let mut documents = RetrievalWorkBudget::with_limits(usize::MAX, length - 1, usize::MAX);
    let mode = RetrievalMode::LexicalOnly;
    let nodes = || [node("a", "alpha")];
    assert_eq!(
        rank_within(&query, mode, nodes(), CLOCK, 1, None, &mut documents).err().unwrap(),
        ContextQueryRankingError::Retrieval(RetrievalError::WorkBudgetExceeded {
            kind: RetrievalWorkKind::DocumentBytes,
            attempted: length,
            maximum: length - 1,
        })
    );
    let mut lexical = RetrievalWorkBudget::with_limits(usize::MAX, length, 0);
    assert_eq!(
        rank_within(&query, mode, nodes(), CLOCK, 1, None, &mut lexical).err().unwrap(),
        ContextQueryRankingError::Retrieval(RetrievalError::WorkBudgetExceeded {
            kind: RetrievalWorkKind::LexicalBytes,
            attempted: 1,
            maximum: 0,
        })
    );
    assert_eq!(lexical.document_bytes, length);
    let mut enough = RetrievalWorkBudget::with_limits(usize::MAX, length, 1);
    assert!(rank_within(&query, mode, nodes(), CLOCK, 1, None, &mut enough).is_ok());
    assert_eq!(enough.lexical_bytes, 1);
}

#[test]
fn long_error_details_are_cut_at_a_character() {
    let short = "é".repeat(10);
    assert_eq!(bounded_context_ranking_error_detail(&short), short);
    let exact = "e".repeat(MAX_CONTEXT_RANKING_ERROR_DETAIL_BYTES);
    assert_eq!(bounded_context_ranking_error_detail(&exact), exact);
    let long = format!("x{}", "é".repeat(MAX_CONTEXT_RANKING_ERROR_DETAIL_BYTES));
    let cut = bounded_context_ranking_error_detail(&long);
    assert_eq!(cut.len(), MAX_CONTEXT_RANKING_ERROR_DETAIL_BYTES - 1);
    assert!(cut.starts_with("xéé"));
}

#[test]
fn a_node_that_cannot_be_written_is_not_ranked() {
    let mut unwritable = node("unwritable", "alpha");
    unwritable.encoding.node_bytes = None;
    assert_eq!(
        validate_ranked_context_node(&unwritable),
        Err(ContextQueryRankingError::InvalidCandidate {
            node_id: "unwritable".into(),
            reason: "context node is not serializable".into(),
        })
    );
    let written = node("written", "alpha");
    assert_eq!(validate_ranked_context_node(&written), Ok(node_json(&written).len()));
}

#[test]
fn the_order_of_candidates_decides_nothing_about_the_budget_of_a_ranking() {
    let query = Query::new("alpha");
    let nodes = || vec![node("a", "alpha"), node("b", "alpha beta"), node("c", "gamma delta")];
    let total: usize = nodes().iter().map(|node| node.encoding.node_bytes.unwrap()).sum();
    for limit in [total - 1, total] {
        let run = |candidates: Vec<ContextNode>| {
            let mut budget = RetrievalWorkBudget::with_limits(limit, usize::MAX, usize::MAX);
            let mode = RetrievalMode::LexicalOnly;
            let ranked =
                rank_within(&query, mode, candidates, CLOCK, 3, None, &mut budget).is_ok();
            (ranked, budget.candidate_bytes)
        };
        let mut backward = nodes();
        backward.reverse();
        let (forward, backward) = (run(nodes()), run(backward));
        assert_eq!(forward.0, limit == total);
        assert_eq!(backward.0, forward.0);
        if forward.0 {
            assert_eq!((forward.1, backward.1), (total, total));
        }
    }
}
