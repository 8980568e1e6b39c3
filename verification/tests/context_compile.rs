//! Compilation of context, its receipts and capsules.

use ditto::binary32::Binary32;
use ditto::context::candidate::ContextCandidate;
use ditto::context::capsule::{
    estimate_serialized_tokens, ContextCapsule, ContextCapsuleItem, ContextCapsuleValidationError,
    CAPSULE_ITEM_FIXED_OVERHEAD_TOKENS, DEFAULT_CONTEXT_ABSOLUTE_BUDGET,
};
use ditto::context::compiler::{ContextCompileError, ContextCompiler};
use ditto::context::graph::{ContextEdge, ContextEdgeKind, ContextGraph};
use ditto::context::node::{
    context_retrieval_document, ContextLens, ContextNode, ContextNodeKind, ContextOrigin,
    ContextScope, ContextValidationError, EpistemicStatus, NodeEncoding, RetrievalDocument,
};
use ditto::context::receipt::{CompiledContext, ContextExclusion, ContextExclusionReason};
use ditto::context::signature::{
    authority_tenths, relevance_terms, split_words, terms_from_tokens, tokenize, QueryMatch,
    TaskSignature,
};
use ditto::context::validate::CompiledContextValidationError;
use ditto::retrieval::{RetrievalError, MAX_CANDIDATE_COUNT, MAX_RETRIEVAL_DOCUMENT_BYTES};
use ditto::time::Timestamp;

const CLOCK: Timestamp = Timestamp { secs: 1_760_000_000, nanos: 123_456_789 };

fn seconds_after(at: Timestamp, seconds: i64) -> Timestamp {
    Timestamp { secs: at.secs + seconds, nanos: at.nanos }
}

fn bits(value: f32) -> Binary32 {
    Binary32::from_bits(value.to_bits())
}

fn value(number: Binary32) -> f32 {
    f32::from_bits(number.to_bits())
}

fn quoted(text: &str) -> String {
    serde_json::to_string(text).expect("text is written")
}

fn list(values: &[String]) -> String {
    serde_json::to_string(values).expect("texts are written")
}

fn moment(at: Timestamp) -> String {
    let time = chrono::DateTime::from_timestamp(at.secs, at.nanos).expect("moment");
    format!("\"{}\"", time.to_rfc3339_opts(chrono::SecondsFormat::AutoSi, true))
}

fn token(name: String) -> String {
    format!("\"{}\"", name.to_lowercase())
}

fn head_json(node: &ContextNode) -> String {
    format!(
        "{{\"id\":{},\"kind\":\"{}\",\"summary\":{},\"origin\":{},\"epistemic\":{},\"scope\":{}",
        quoted(&node.id),
        node.kind.as_str(),
        quoted(&node.summary),
        token(format!("{:?}", node.origin)),
        token(format!("{:?}", node.epistemic)),
        token(format!("{:?}", node.scope)),
    )
}

fn node_json(node: &ContextNode) -> String {
    let time = |at: &Option<Timestamp>| at.map(moment).unwrap_or("null".to_owned());
    format!(
        "{},\"lens\":{},\"confidence\":{},\"source_event_ids\":{},\"supersedes\":{},\
         \"valid_from\":{},\"valid_until\":{}}}",
        head_json(node),
        token(format!("{:?}", node.lens)),
        serde_json::to_string(&value(node.confidence)).expect("number"),
        list(&node.source_event_ids),
        list(&node.supersedes),
        time(&node.valid_from),
        time(&node.valid_until),
    )
}

fn item_json(node: &ContextNode) -> String {
    let mut json = format!(
        "{},\"confidence\":{}",
        head_json(node),
        serde_json::to_string(&value(node.confidence)).expect("number"),
    );
    if !node.source_event_ids.is_empty() {
        json.push_str(&format!(",\"source_event_ids\":{}", list(&node.source_event_ids)));
    }
    if let Some(at) = node.valid_from {
        json.push_str(&format!(",\"valid_from\":{}", moment(at)));
    }
    if let Some(at) = node.valid_until {
        json.push_str(&format!(",\"valid_until\":{}", moment(at)));
    }
    json.push('}');
    json
}

/// Measures the forms of a node anew.
fn encoded(mut node: ContextNode) -> ContextNode {
    let node_bytes = node_json(&node).len();
    let payload_bytes = node_bytes + "{\"event_version\":1,\"node\":}".len();
    node.encoding = NodeEncoding {
        confidence_text: format!("{}", value(node.confidence)),
        node_bytes: Some(node_bytes),
        payload_bytes: Some(payload_bytes),
        capsule_bytes: Some(item_json(&node).len()),
        failure: String::new(),
    };
    node
}

fn node(id: &str, summary: &str) -> ContextNode {
    encoded(ContextNode {
        id: id.into(),
        kind: ContextNodeKind::Constraint,
        summary: summary.into(),
        origin: ContextOrigin::User,
        epistemic: EpistemicStatus::Asserted,
        scope: ContextScope::Project,
        lens: ContextLens::Task,
        confidence: bits(1.0),
        source_event_ids: vec!["event-1".into()],
        supersedes: Vec::new(),
        valid_from: None,
        valid_until: None,
        encoding: NodeEncoding {
            confidence_text: String::new(),
            node_bytes: None,
            payload_bytes: None,
            capsule_bytes: None,
            failure: String::new(),
        },
    })
}

/// A prepared query: the words of its parts, and the names it asks for.
struct Query {
    words: Vec<String>,
    names: Vec<String>,
}

fn words(text: &str) -> Vec<String> {
    let mut found: Vec<String> = text
        .split(|c: char| !c.is_alphanumeric())
        .filter(|word| !word.is_empty())
        .map(str::to_lowercase)
        .collect();
    found.sort();
    found.dedup();
    found
}

fn normalized(name: &str) -> String {
    name.split_whitespace().collect::<Vec<_>>().join(" ").to_lowercase()
}

impl Query {
    fn new(request: &str) -> Query {
        Query::naming(request, &[])
    }

    fn naming(request: &str, names: &[&str]) -> Query {
        Query {
            words: words(&format!("{request} {}", names.join(" "))),
            names: names.iter().map(|name| normalized(name)).collect(),
        }
    }

    fn names_exactly(&self, id: &str) -> Result<bool, RetrievalError> {
        if id.chars().any(|c| c.is_control() && !c.is_whitespace()) {
            return Err(RetrievalError::ControlCharacter);
        }
        Ok(self.names.contains(&normalized(id)))
    }

    fn matched(&self, node: &ContextNode) -> QueryMatch {
        let document = context_retrieval_document(node).map(|d| words(d.as_str()));
        let held = document.unwrap_or_default();
        let shared = self.words.iter().filter(|word| held.contains(*word)).count();
        let overlap = shared as f32 / self.words.len() as f32;
        let authority = authority_tenths(node) as f32 / 10.0;
        QueryMatch {
            lexical_overlap: bits(overlap),
            weighted: bits(overlap * 5.0 + authority + value(node.confidence)),
            exact: self.names_exactly(&node.id),
        }
    }
}

fn signature(request: &str) -> TaskSignature {
    TaskSignature {
        request: request.into(),
        active_goal: None,
        entities: Vec::new(),
        constraints: Vec::new(),
        expected_effect: None,
    }
}

fn weight(signature: &TaskSignature, node: &ContextNode) -> Binary32 {
    let terms = relevance_terms(node, &tokenize(&signature.searchable_text()));
    if terms.total == 0 {
        return bits(0.0);
    }
    let overlap = terms.matched as f32 / terms.total as f32;
    let authority = terms.authority_tenths as f32 / 10.0;
    bits(overlap * 5.0 + authority + value(node.confidence))
}

fn compile(
    compiler: &ContextCompiler,
    signature: &TaskSignature,
    candidates: Vec<ContextCandidate>,
    token_budget: Option<u32>,
    now: Timestamp,
) -> Result<CompiledContext, ContextCompileError> {
    let weights = candidates.iter().map(|c| weight(signature, &c.node)).collect();
    compiler.compile(signature, candidates, &weights, token_budget, now)
}

fn validate(
    compiler: &ContextCompiler,
    signature: &TaskSignature,
    compiled: &CompiledContext,
    capsule: &ContextCapsule,
    token_budget: Option<u32>,
    accepted_at: Timestamp,
) -> Result<(), CompiledContextValidationError> {
    let weights = compiled.nodes.iter().map(|node| weight(signature, node)).collect();
    compiler.validate_compiled(signature, compiled, &weights, capsule, token_budget, accepted_at)
}

fn compile_query<I: IntoIterator<Item = ContextCandidate>>(
    compiler: &ContextCompiler,
    query: &Query,
    candidates: I,
    token_budget: Option<u32>,
    now: Timestamp,
) -> Result<CompiledContext, ContextCompileError> {
    let candidates: Vec<ContextCandidate> =
        candidates.into_iter().take(MAX_CANDIDATE_COUNT + 1).collect();
    let matches = candidates.iter().map(|c| query.matched(&c.node)).collect();
    compiler.compile_query(candidates, &matches, token_budget, now)
}

fn validate_query(
    compiler: &ContextCompiler,
    query: &Query,
    compiled: &CompiledContext,
    capsule: &ContextCapsule,
    accepted_at: Timestamp,
) -> Result<(), CompiledContextValidationError> {
    let matches = compiled.nodes.iter().map(|node| query.matched(node)).collect();
    compiler.validate_compiled_query(compiled, &matches, capsule, None, accepted_at)
}

fn ids(compiled: &CompiledContext) -> Vec<&str> {
    compiled.nodes.iter().map(|node| node.id.as_str()).collect()
}

#[test]
fn trusted_pin_survives_soft_budget_but_not_absolute_ceiling() {
    let compiler = ContextCompiler { default_budget: 5, absolute_budget: 100 };
    let signature = signature("restart the home server service");
    let compiled = compile(
        &compiler,
        &signature,
        vec![
            ContextCandidate::user_pinned(node("pinned", "always ask before sudo")),
            ContextCandidate::ranked(node("relevant", "home server service uses systemd")),
        ],
        None,
        CLOCK,
    )
    .expect("compile context");

    assert!(compiled.nodes.iter().any(|item| item.id == "pinned"));
    assert!(compiled.receipt.over_soft_budget);
}

#[test]
fn required_invalid_context_blocks_compilation() {
    let mut invalid = node("policy", "never expose credentials");
    invalid.source_event_ids.clear();
    let error = compile(
        &ContextCompiler::default(),
        &signature(""),
        vec![ContextCandidate::policy_required(encoded(invalid), "credential boundary".into())],
        None,
        CLOCK,
    )
    .expect_err("required invalid context must block");
    assert!(matches!(error, ContextCompileError::InvalidRequiredContext { .. }));
}

#[test]
fn rejects_context_without_valid_provenance() {
    let mut graph = ContextGraph::default();
    let mut durable = node("durable", "project constraint");
    durable.source_event_ids.clear();
    assert!(matches!(
        graph.insert_node(durable),
        Err(ContextValidationError::MissingProvenance { .. })
    ));

    let mut model_assertion = node("model", "model claim");
    model_assertion.origin = ContextOrigin::Model;
    assert!(matches!(
        graph.insert_node(model_assertion),
        Err(ContextValidationError::ModelCannotAssert { .. })
    ));
}

#[test]
fn validates_edge_provenance_and_endpoints() {
    let mut graph = ContextGraph::default();
    graph.insert_node(node("claim", "service state")).expect("insert claim");
    graph.insert_node(node("evidence", "service output")).expect("insert evidence");
    graph
        .insert_edge(ContextEdge {
            id: "edge-1".into(),
            from: "evidence".into(),
            to: "claim".into(),
            relation: ContextEdgeKind::Supports,
            source_event_ids: vec!["event-2".into()],
        })
        .expect("insert edge");
    assert_eq!(graph.edges().len(), 1);
}

#[test]
fn authority_does_not_make_irrelevant_context_eligible() {
    let signature = signature("restart database service");
    let compiled = compile(
        &ContextCompiler::default(),
        &signature,
        vec![ContextCandidate::ranked(node("irrelevant", "preferred vacation destination"))],
        None,
        CLOCK,
    )
    .expect("compile context");

    assert!(compiled.nodes.is_empty());
    assert_eq!(compiled.receipt.excluded.len(), 1);
}

#[test]
fn token_cost_is_derived_instead_of_accepted_from_input() {
    let compiled = compile(
        &ContextCompiler::default(),
        &signature("database"),
        vec![ContextCandidate::ranked(node("cost", "database database database database"))],
        None,
        CLOCK,
    )
    .expect("compile context");
    assert!(compiled.receipt.included[0].token_cost > 0);
}

#[test]
fn context_capsule_projection_preserves_compiled_node_order() {
    let compiled = compile(
        &ContextCompiler::default(),
        &signature("database service"),
        vec![
            ContextCandidate::user_pinned(node("pinned", "database approval")),
            ContextCandidate::ranked(node("ranked", "database service")),
        ],
        None,
        CLOCK,
    )
    .expect("compile context");

    let capsule = ContextCapsule::from(&compiled);
    assert_eq!(
        capsule.nodes.iter().map(|item| item.id.as_str()).collect::<Vec<_>>(),
        ["pinned", "ranked"]
    );
    let items: Vec<String> = compiled.nodes.iter().map(item_json).collect();
    let text = format!("{{\"nodes\":[{}]}}", items.join(","));
    let wire: serde_json::Value = serde_json::from_str(&text).expect("serialize context capsule");
    assert!(wire.get("receipt").is_none());
    assert_eq!(wire["nodes"].as_array().map(Vec::len), Some(2));
    assert!(wire["nodes"][0].get("supersedes").is_none());
    assert!(wire["nodes"][0].get("lens").is_none());
    assert_eq!(capsule.token_cost(), compiled.receipt.total_token_cost);
    assert!(text.len().div_ceil(4) <= compiled.receipt.total_token_cost as usize);
    capsule.validate_at(CLOCK).expect("valid capsule");
}

#[test]
fn capsule_cost_uses_exact_item_serialization_and_drops_durable_metadata() {
    let mut durable = node("project", "database service");
    durable.lens = ContextLens::Environment;
    durable.supersedes = (0..10_000).map(|index| format!("old-{index}")).collect();
    let durable = encoded(durable);

    let item = ContextCapsuleItem::from(&durable);
    let compact = ContextCapsuleItem::from(&node("project", "database service"));
    let wire: serde_json::Value =
        serde_json::from_str(&item_json(&durable)).expect("serialize capsule item");
    assert!(wire.get("supersedes").is_none());
    assert!(wire.get("lens").is_none());
    assert_eq!(
        item.serialized_len(),
        "{\"id\":\"project\",\"kind\":\"constraint\",\"summary\":\"database service\",\
         \"origin\":\"user\",\"epistemic\":\"asserted\",\"scope\":\"project\",\
         \"confidence\":1.0,\"source_event_ids\":[\"event-1\"]}"
            .len()
    );
    let expected_item_cost =
        item.serialized_len().div_ceil(4) as u32 + CAPSULE_ITEM_FIXED_OVERHEAD_TOKENS;
    assert_eq!(item.token_cost(), expected_item_cost);
    assert_eq!(item.source_event_ids, compact.source_event_ids);
    assert_eq!(item.token_cost(), compact.token_cost());

    let capsule = ContextCapsule { nodes: vec![item] };
    capsule.validate_at(CLOCK).expect("dropped metadata cannot invalidate capsule");
    assert!(capsule.token_cost() <= DEFAULT_CONTEXT_ABSOLUTE_BUDGET);
}

#[test]
fn huge_provenance_is_charged_and_cannot_cross_absolute_ceiling() {
    let mut huge = node("huge", "database service");
    huge.source_event_ids = (0..10_000).map(|index| format!("event-{index}")).collect();
    let compiler = ContextCompiler {
        default_budget: DEFAULT_CONTEXT_ABSOLUTE_BUDGET,
        absolute_budget: DEFAULT_CONTEXT_ABSOLUTE_BUDGET,
    };

    let compiled = compile(
        &compiler,
        &signature("database service"),
        vec![ContextCandidate::ranked(encoded(huge))],
        None,
        CLOCK,
    )
    .expect("oversized ranked context is excluded");

    assert!(compiled.nodes.is_empty());
    assert_eq!(compiled.receipt.total_token_cost, 0);
    assert!(compiled
        .receipt
        .excluded
        .iter()
        .any(|entry| matches!(entry.reason, ContextExclusionReason::TokenBudget)));
}

#[test]
fn ranked_selection_is_capped_even_when_soft_budget_is_larger() {
    let compiler = ContextCompiler { default_budget: 100_000, absolute_budget: 200 };
    let compiled = compile(
        &compiler,
        &signature("database service"),
        (0..10)
            .map(|index| {
                ContextCandidate::ranked(node(&format!("candidate-{index}"), "database service"))
            })
            .collect(),
        None,
        CLOCK,
    )
    .expect("ranked context compiles");

    assert!(compiled.receipt.total_token_cost <= compiler.absolute_budget);
    assert!(compiled
        .receipt
        .excluded
        .iter()
        .any(|entry| matches!(entry.reason, ContextExclusionReason::TokenBudget)));
}

#[test]
fn capsule_validation_rejects_invalid_trust_metadata_and_time() {
    let now = CLOCK;

    let mut missing_provenance = node("missing-provenance", "database service");
    missing_provenance.source_event_ids.clear();
    let missing_provenance =
        ContextCapsule { nodes: vec![ContextCapsuleItem::from(&encoded(missing_provenance))] };
    assert!(matches!(
        missing_provenance.validate_at(now),
        Err(ContextCapsuleValidationError::InvalidItem { ref reason, .. })
            if reason.contains("no source event provenance")
    ));

    let mut model_assertion = node("model-assertion", "database service");
    model_assertion.origin = ContextOrigin::Model;
    let model_assertion =
        ContextCapsule { nodes: vec![ContextCapsuleItem::from(&encoded(model_assertion))] };
    assert!(matches!(
        model_assertion.validate_at(now),
        Err(ContextCapsuleValidationError::InvalidItem { ref reason, .. })
            if reason.contains("cannot be asserted")
    ));

    let mut disputed = node("disputed", "database service");
    disputed.epistemic = EpistemicStatus::Disputed;
    let disputed = ContextCapsule { nodes: vec![ContextCapsuleItem::from(&encoded(disputed))] };
    assert!(matches!(
        disputed.validate_at(now),
        Err(ContextCapsuleValidationError::NotValidAt { ref item_id }) if item_id == "disputed"
    ));

    let mut expired = node("expired", "database service");
    expired.valid_until = Some(seconds_after(now, -1));
    let expired = ContextCapsule { nodes: vec![ContextCapsuleItem::from(&encoded(expired))] };
    assert!(matches!(
        expired.validate_at(now),
        Err(ContextCapsuleValidationError::NotValidAt { ref item_id }) if item_id == "expired"
    ));
}

#[test]
fn required_time_invalid_context_blocks_but_ranked_context_is_excluded() {
    let now = CLOCK;
    let compiler = ContextCompiler::default();
    let signature = signature("database service");

    let mut expired = node("expired-required", "database service");
    expired.valid_until = Some(seconds_after(now, -1));
    let error = compile(
        &compiler,
        &signature,
        vec![ContextCandidate::user_pinned(encoded(expired))],
        None,
        now,
    )
    .expect_err("expired required context must block");
    assert!(matches!(
        error,
        ContextCompileError::InvalidRequiredContext { ref node_id, ref reason }
            if node_id == "expired-required" && reason.contains("expired")
    ));

    let mut future = node("future-required", "database service");
    future.valid_from = Some(seconds_after(now, 1));
    let error = compile(
        &compiler,
        &signature,
        vec![ContextCandidate::policy_required(encoded(future), "fresh state".into())],
        None,
        now,
    )
    .expect_err("future required context must block");
    assert!(matches!(
        error,
        ContextCompileError::InvalidRequiredContext { ref node_id, ref reason }
            if node_id == "future-required" && reason.contains("not started")
    ));

    let mut disputed = node("disputed-required", "database service");
    disputed.epistemic = EpistemicStatus::Disputed;
    let error = compile(
        &compiler,
        &signature,
        vec![ContextCandidate::user_pinned(encoded(disputed))],
        None,
        now,
    )
    .expect_err("disputed required context must block");
    assert!(matches!(
        error,
        ContextCompileError::InvalidRequiredContext { ref node_id, ref reason }
            if node_id == "disputed-required" && reason.contains("disputed")
    ));

    let mut ranked_expired = node("expired-ranked", "database service");
    ranked_expired.valid_until = Some(seconds_after(now, -1));
    let compiled = compile(
        &compiler,
        &signature,
        vec![ContextCandidate::ranked(encoded(ranked_expired))],
        None,
        now,
    )
    .expect("expired ranked context is excluded");
    assert!(compiled.nodes.is_empty());
    assert!(compiled.receipt.excluded.iter().any(|entry| {
        entry.node_id == "expired-ranked"
            && matches!(entry.reason, ContextExclusionReason::DisputedOrExpired)
    }));

    let mut ranked_future = node("future-ranked", "database service");
    ranked_future.valid_from = Some(seconds_after(now, 1));
    let compiled = compile(
        &compiler,
        &signature,
        vec![ContextCandidate::ranked(encoded(ranked_future))],
        None,
        now,
    )
    .expect("future ranked context is excluded");
    assert!(compiled.nodes.is_empty());
    assert!(compiled.receipt.excluded.iter().any(|entry| {
        entry.node_id == "future-ranked"
            && matches!(entry.reason, ContextExclusionReason::DisputedOrExpired)
    }));
}

#[test]
fn deserialized_over_budget_capsule_is_rejected() {
    let oversized =
        ContextCapsuleItem::from(&node("oversized", &"database service ".repeat(2_000)));
    let decoded = ContextCapsule { nodes: vec![oversized] };

    assert!(matches!(
        decoded.validate_at(CLOCK),
        Err(ContextCapsuleValidationError::TokenBudgetExceeded {
            absolute_budget: DEFAULT_CONTEXT_ABSOLUTE_BUDGET,
            ..
        })
    ));
}

fn validation_fixture(
) -> (ContextCompiler, TaskSignature, CompiledContext, ContextCapsule, Timestamp) {
    let compiler = ContextCompiler::default();
    let signature = signature("database service");
    let accepted_at = CLOCK;
    let compiled = compile(
        &compiler,
        &signature,
        vec![
            ContextCandidate::user_pinned(node("pinned", "database approval")),
            ContextCandidate::ranked(node("ranked", "database service")),
        ],
        Some(compiler.default_budget),
        accepted_at,
    )
    .expect("valid context compiles");
    let capsule = ContextCapsule::from(&compiled);
    (compiler, signature, compiled, capsule, accepted_at)
}

fn verdict(
    compiler: &ContextCompiler,
    signature: &TaskSignature,
    compiled: &CompiledContext,
    capsule: &ContextCapsule,
    accepted_at: Timestamp,
) -> Result<(), CompiledContextValidationError> {
    validate(compiler, signature, compiled, capsule, Some(compiler.default_budget), accepted_at)
}

#[test]
fn compiler_rejects_duplicate_candidate_ids_before_selection() {
    let duplicate = compile(
        &ContextCompiler::default(),
        &signature("database"),
        vec![
            ContextCandidate::ranked(node("duplicate", "database")),
            ContextCandidate::user_pinned(node("duplicate", "database")),
        ],
        None,
        CLOCK,
    )
    .expect_err("duplicate candidate ids must be rejected before selection");
    assert!(matches!(
        duplicate,
        ContextCompileError::DuplicateCandidate { ref node_id } if node_id == "duplicate"
    ));
}

#[test]
fn compiler_rejects_empty_policy_reason_before_selection() {
    for reason in ["", "   ", "\n\t"] {
        let error = compile(
            &ContextCompiler::default(),
            &signature(""),
            vec![ContextCandidate::policy_required(
                node("policy", "protect credentials"),
                reason.into(),
            )],
            None,
            CLOCK,
        )
        .expect_err("empty policy reason must be rejected");
        assert!(matches!(
            error,
            ContextCompileError::InvalidPolicyReason { ref node_id } if node_id == "policy"
        ));
    }
}

#[test]
fn compiled_context_validation_accepts_exact_compiler_output_and_caller_budget() {
    let (compiler, signature, compiled, capsule, accepted_at) = validation_fixture();
    verdict(&compiler, &signature, &compiled, &capsule, accepted_at)
        .expect("exact compiled context validates");
}

#[test]
fn compiled_context_validation_accepts_policy_reason_priority_order() {
    let compiler = ContextCompiler::default();
    let signature = signature("database service");
    let accepted_at = CLOCK;
    let compiled = compile(
        &compiler,
        &signature,
        vec![
            ContextCandidate::ranked(node("ranked", "database service")),
            ContextCandidate::user_pinned(node("pinned", "database approval")),
            ContextCandidate::policy_required(
                node("policy", "database credentials"),
                "protect secret material".into(),
            ),
        ],
        None,
        accepted_at,
    )
    .expect("policy context compiles");
    let capsule = ContextCapsule::from(&compiled);
    validate(&compiler, &signature, &compiled, &capsule, None, accepted_at)
        .expect("policy reason and priority order validate");
    assert_eq!(
        compiled
            .receipt
            .included
            .iter()
            .map(|entry| entry.reason.as_str())
            .collect::<Vec<_>>(),
        ["policy-required: protect secret material", "user-pinned", "task-relevance"]
    );
}

#[test]
fn compiled_context_validation_rejects_score_mutation() {
    let (compiler, signature, mut compiled, capsule, accepted_at) = validation_fixture();
    let score = value(compiled.receipt.included[0].score);
    compiled.receipt.included[0].score = bits(score + 1.0);
    assert!(matches!(
        verdict(&compiler, &signature, &compiled, &capsule, accepted_at),
        Err(CompiledContextValidationError::ScoreMismatch { ref node_id }) if node_id == "pinned"
    ));
}

#[test]
fn compiled_context_validation_rejects_noncanonical_order() {
    let (compiler, signature, mut compiled, _, accepted_at) = validation_fixture();
    compiled.nodes.swap(0, 1);
    compiled.receipt.included.swap(0, 1);
    let capsule = ContextCapsule::from(&compiled);
    assert!(matches!(
        verdict(&compiler, &signature, &compiled, &capsule, accepted_at),
        Err(CompiledContextValidationError::NonCanonicalOrder { ref node_id })
            if node_id == "pinned"
    ));
}

#[test]
fn compiled_context_validation_rejects_invalid_reason_grammar() {
    let (compiler, signature, mut compiled, capsule, accepted_at) = validation_fixture();
    compiled.receipt.included[0].reason = "policy-required: ".into();
    assert!(matches!(
        verdict(&compiler, &signature, &compiled, &capsule, accepted_at),
        Err(CompiledContextValidationError::InvalidReceiptReason { ref node_id, ref reason })
            if node_id == "pinned" && reason == "policy-required: "
    ));
}

#[test]
fn compiled_context_validation_rejects_token_cost_mutation() {
    let (compiler, signature, mut compiled, capsule, accepted_at) = validation_fixture();
    compiled.receipt.included[0].token_cost += 1;
    assert!(matches!(
        verdict(&compiler, &signature, &compiled, &capsule, accepted_at),
        Err(CompiledContextValidationError::TokenCostMismatch { ref node_id, .. })
            if node_id == "pinned"
    ));
}

#[test]
fn compiled_context_validation_rejects_capsule_mutation() {
    let (compiler, signature, compiled, mut capsule, accepted_at) = validation_fixture();
    capsule.nodes[0].summary.push_str(" forged");
    assert!(matches!(
        verdict(&compiler, &signature, &compiled, &capsule, accepted_at),
        Err(CompiledContextValidationError::CapsuleMismatch)
    ));
}

#[test]
fn compiled_context_validation_rejects_node_receipt_length_mismatch() {
    let (compiler, signature, mut compiled, capsule, accepted_at) = validation_fixture();
    compiled.receipt.included.pop();
    assert!(matches!(
        verdict(&compiler, &signature, &compiled, &capsule, accepted_at),
        Err(CompiledContextValidationError::NodeReceiptLengthMismatch {
            nodes: 2,
            included: 1,
            capsule: 2,
        })
    ));
}

#[test]
fn compiled_context_validation_rejects_budget_and_accounting_mutations() {
    let (compiler, signature, mut compiled, capsule, accepted_at) = validation_fixture();
    compiled.receipt.token_budget -= 1;
    assert!(matches!(
        verdict(&compiler, &signature, &compiled, &capsule, accepted_at),
        Err(CompiledContextValidationError::BudgetMismatch { .. })
    ));

    let (compiler, signature, mut compiled, capsule, accepted_at) = validation_fixture();
    compiled.receipt.total_token_cost += 1;
    assert!(matches!(
        verdict(&compiler, &signature, &compiled, &capsule, accepted_at),
        Err(CompiledContextValidationError::TokenAccountingMismatch { .. })
    ));
}

#[test]
fn compiled_context_validation_rejects_ranked_selection_over_soft_budget() {
    let (compiler, signature, mut compiled, capsule, accepted_at) = validation_fixture();
    compiled.receipt.token_budget = 1;
    compiled.receipt.over_soft_budget = true;
    assert!(matches!(
        validate(&compiler, &signature, &compiled, &capsule, Some(1), accepted_at),
        Err(CompiledContextValidationError::SelectionBudgetExceeded {
            ref node_id,
            token_budget: 1,
            ..
        }) if node_id == "ranked"
    ));
}

#[test]
fn compiled_context_validation_rejects_duplicate_included_and_excluded_ids() {
    let (compiler, signature, mut compiled, capsule, accepted_at) = validation_fixture();
    compiled.receipt.excluded.push(ContextExclusion {
        node_id: "pinned".into(),
        reason: ContextExclusionReason::Irrelevant,
        detail: None,
    });
    assert!(matches!(
        verdict(&compiler, &signature, &compiled, &capsule, accepted_at),
        Err(CompiledContextValidationError::DuplicateReceiptId { ref node_id })
            if node_id == "pinned"
    ));
}

#[test]
fn task_relevance_receipts_require_a_positive_score() {
    let compiler = ContextCompiler::default();
    let signature = signature("database");
    let accepted_at = CLOCK;
    let compiled = compile(
        &compiler,
        &signature,
        vec![ContextCandidate::user_pinned(node("pinned", "vacation destination"))],
        None,
        accepted_at,
    )
    .expect("pinned context is included even when irrelevant");
    let mut mutated = compiled.clone();
    mutated.receipt.included[0].reason = "task-relevance".into();
    let capsule = ContextCapsule::from(&mutated);
    assert!(matches!(
        validate(&compiler, &signature, &mutated, &capsule, None, accepted_at),
        Err(CompiledContextValidationError::NonPositiveTaskRelevance { ref node_id })
            if node_id == "pinned"
    ));
}

#[test]
fn compiled_context_validation_rejects_capsule_expiry_at_acceptance() {
    let (compiler, signature, compiled, mut capsule, accepted_at) = validation_fixture();
    capsule.nodes[0].valid_until = Some(seconds_after(accepted_at, -1));
    assert!(matches!(
        verdict(&compiler, &signature, &compiled, &capsule, accepted_at),
        Err(CompiledContextValidationError::InvalidCapsule(
            ContextCapsuleValidationError::NotValidAt { ref item_id }
        )) if item_id == "pinned"
    ));
}

#[test]
fn legacy_context_compiler_retains_historical_normalization_bounds_and_does_not_delegate_to_v2() {
    let compiler = ContextCompiler::default();
    let now = CLOCK;
    let legacy_one_character = compile(
        &compiler,
        &signature("x"),
        vec![ContextCandidate::ranked(node("one-character", "x"))],
        None,
        now,
    )
    .expect("legacy one-character compilation remains valid");
    assert!(legacy_one_character.nodes.is_empty());

    let v2_compiled = compile_query(
        &compiler,
        &Query::new("x"),
        [ContextCandidate::ranked(node("one-character", "x"))],
        None,
        now,
    )
    .expect("V2 one-character compilation succeeds");
    assert_eq!(v2_compiled.nodes.len(), 1);

    let legacy_over_bound = signature(&"request ".repeat(8_193));
    let legacy_over_bound_compiled = compile(
        &compiler,
        &legacy_over_bound,
        vec![ContextCandidate::ranked(node("legacy-over-bound", "request"))],
        None,
        now,
    )
    .expect("legacy compiler keeps its historical request bound");
    assert_eq!(legacy_over_bound_compiled.nodes.len(), 1);

    let legacy_many = compile(
        &compiler,
        &signature("legacy candidate"),
        (0..=10_000)
            .map(|index| {
                ContextCandidate::ranked(node(
                    &format!("legacy-candidate-{index}"),
                    "legacy candidate",
                ))
            })
            .collect(),
        None,
        now,
    )
    .expect("legacy compiler retains its unbounded historical scan");
    assert!(!legacy_many.nodes.is_empty());
}

#[test]
fn v2_context_document_is_exact_bounded_and_only_node_id_is_exact() {
    let compiler = ContextCompiler::default();
    let mut raw = node("Id=Raw", "summary\nraw");
    raw.kind = ContextNodeKind::OpenQuestion;
    let document = context_retrieval_document(&raw).expect("raw fields form a document");
    assert_eq!(document.as_str(), "id=Id=Raw\nkind=open_question\nsummary=summary\nraw");
    assert!(!document.as_str().ends_with('\n'));

    let max_id = "i".repeat(256);
    let max_summary = "s".repeat(65_000);
    let mut max_node = node(&max_id, &max_summary);
    max_node.kind = ContextNodeKind::OpenQuestion;
    let max_document = context_retrieval_document(&max_node).expect("maximum document fits");
    assert_eq!(max_document.as_str().len(), 65_287);
    assert!(max_document.as_str().len() <= MAX_RETRIEVAL_DOCUMENT_BYTES);

    let query = Query::naming("zz", &[" WORKSPACE "]);
    let exact = node(" Workspace ", "unrelated text");
    let summary_only = node("other", "workspace");
    let compiled = compile_query(
        &compiler,
        &query,
        [ContextCandidate::ranked(summary_only), ContextCandidate::ranked(exact)],
        None,
        CLOCK,
    )
    .expect("exact and lexical candidates compile");
    assert_eq!(compiled.nodes[0].id, " Workspace ");
    assert_eq!(compiled.nodes[1].id, "other");

    let kind_compiled = compile_query(
        &compiler,
        &Query::new("constraint"),
        [ContextCandidate::ranked(node("kind-only", "unrelated"))],
        None,
        CLOCK,
    )
    .expect("kind participates in positive lexical scoring");
    assert_eq!(kind_compiled.nodes[0].id, "kind-only");

    let summary_compiled = compile_query(
        &compiler,
        &Query::new("needle"),
        [ContextCandidate::ranked(node("summary-only", "needle"))],
        None,
        CLOCK,
    )
    .expect("summary participates in positive lexical scoring");
    assert_eq!(summary_compiled.nodes[0].id, "summary-only");
}

#[test]
fn v2_context_document_accepts_65536_and_rejects_65537_bytes() {
    let mut node_at_bound = node("i", "placeholder");
    node_at_bound.kind = ContextNodeKind::OpenQuestion;
    let prefix =
        format!("id={}\nkind={}\nsummary=", node_at_bound.id, node_at_bound.kind.as_str());
    let summary_at_bound = MAX_RETRIEVAL_DOCUMENT_BYTES - prefix.len();
    node_at_bound.summary = "s".repeat(summary_at_bound);
    let document = context_retrieval_document(&node_at_bound).expect("document at bound");
    assert_eq!(document.as_str().len(), MAX_RETRIEVAL_DOCUMENT_BYTES);

    let mut node_over_bound = node_at_bound;
    node_over_bound.summary.push('s');
    assert_eq!(
        context_retrieval_document(&node_over_bound),
        Err::<RetrievalDocument, _>(RetrievalError::RetrievalDocumentTooLong {
            actual: MAX_RETRIEVAL_DOCUMENT_BYTES + 1,
            maximum: MAX_RETRIEVAL_DOCUMENT_BYTES,
        })
    );
}

#[test]
fn v2_raw_document_fields_are_unescaped_but_exact_candidate_controls_are_rejected() {
    let mut whitespace = node(" Bad\nID ", "line\nsummary");
    whitespace.kind = ContextNodeKind::Resource;
    let document = context_retrieval_document(&whitespace).expect("raw whitespace fields");
    assert_eq!(document.as_str(), "id= Bad\nID \nkind=resource\nsummary=line\nsummary");
    let query = Query::naming("inspect", &["bad id"]);
    assert!(query.names_exactly(&whitespace.id).expect("whitespace controls normalize"));

    let non_whitespace = node("bad\0id", "summary");
    let document = context_retrieval_document(&non_whitespace).expect("raw control field");
    assert_eq!(document.as_str(), "id=bad\0id\nkind=constraint\nsummary=summary");
    assert_eq!(
        query
            .names_exactly(&non_whitespace.id)
            .expect_err("non-whitespace control must fail closed"),
        RetrievalError::ControlCharacter
    );
    assert!(matches!(
        compile_query(
            &ContextCompiler::default(),
            &query,
            [ContextCandidate::ranked(non_whitespace)],
            None,
            CLOCK,
        ),
        Err(ContextCompileError::Retrieval(RetrievalError::ControlCharacter))
    ));
}

#[test]
fn explicit_resources_match_normalized_context_node_ids() {
    let query = Query::naming("inspect", &[" Device:Kitchen "]);
    assert_eq!(query.names, vec!["device:kitchen"]);

    let exact = node("Device:Kitchen", "unrelated");
    let summary_only = node("other", "device:kitchen");
    let compiled = compile_query(
        &ContextCompiler::default(),
        &query,
        [ContextCandidate::ranked(summary_only), ContextCandidate::ranked(exact)],
        None,
        CLOCK,
    )
    .expect("resource exact and lexical candidates compile");
    assert_eq!(compiled.nodes[0].id, "Device:Kitchen");
    assert_eq!(compiled.nodes[1].id, "other");
}

#[test]
fn v2_context_candidates_accept_10000_and_reject_10001_before_scoring() {
    let query = Query::new("candidate");
    let compiler = ContextCompiler::default();
    let accepted = compile_query(
        &compiler,
        &query,
        (0..10_000).map(|index| {
            ContextCandidate::ranked(node(&format!("candidate-{index}"), "candidate"))
        }),
        None,
        CLOCK,
    );
    assert!(accepted.is_ok());

    let mut over = (0..10_000)
        .map(|index| ContextCandidate::ranked(node(&format!("candidate-{index}"), "candidate")))
        .collect::<Vec<_>>();
    over.push(ContextCandidate::ranked(node(
        "candidate-over-limit",
        &"x".repeat(MAX_RETRIEVAL_DOCUMENT_BYTES + 1),
    )));
    assert!(matches!(
        compile_query(&compiler, &query, over, None, CLOCK),
        Err(ContextCompileError::Retrieval(RetrievalError::CandidateCountExceeded {
            actual: 10_001,
            maximum: 10_000,
        }))
    ));

    let consumed = std::cell::Cell::new(0_usize);
    assert!(matches!(
        compile_query(
            &compiler,
            &query,
            std::iter::from_fn(|| {
                let index = consumed.get();
                consumed.set(index + 1);
                Some(ContextCandidate::ranked(node(
                    &format!("streamed-candidate-{index}"),
                    "candidate",
                )))
            }),
            None,
            CLOCK,
        ),
        Err(ContextCompileError::Retrieval(RetrievalError::CandidateCountExceeded {
            actual: 10_001,
            maximum: 10_000,
        }))
    ));
    assert_eq!(consumed.get(), 10_001);
}

#[test]
fn v2_equal_score_ranked_nodes_use_ascending_id_tie_order() {
    let compiled = compile_query(
        &ContextCompiler::default(),
        &Query::new("target"),
        [
            ContextCandidate::ranked(node("z-node", "target")),
            ContextCandidate::ranked(node("a-node", "target")),
        ],
        None,
        CLOCK,
    )
    .expect("equal-score candidates compile");
    assert_eq!(ids(&compiled), ["a-node", "z-node"]);
}

#[test]
fn v2_compiled_context_validation_rederives_document_score_and_exact_order() {
    let compiler = ContextCompiler::default();
    let query = Query::naming("inspect", &["target"]);
    let accepted_at = CLOCK;
    let compiled = compile_query(
        &compiler,
        &query,
        [
            ContextCandidate::ranked(node("lexical", "target")),
            ContextCandidate::ranked(node("target", "unrelated")),
        ],
        None,
        accepted_at,
    )
    .expect("V2 context compiles");
    let capsule = ContextCapsule::from(&compiled);
    validate_query(&compiler, &query, &compiled, &capsule, accepted_at)
        .expect("V2 compiler output validates");
}

#[test]
fn v2_compiled_context_validation_rejects_tampered_score_and_order() {
    let compiler = ContextCompiler::default();
    let query = Query::new("target");
    let accepted_at = CLOCK;
    let compiled = compile_query(
        &compiler,
        &query,
        [
            ContextCandidate::ranked(node("a-node", "target")),
            ContextCandidate::ranked(node("b-node", "target")),
        ],
        None,
        accepted_at,
    )
    .expect("V2 context compiles");

    let mut tampered_score = compiled.clone();
    let score = value(tampered_score.receipt.included[0].score);
    tampered_score.receipt.included[0].score = bits(score + 1.0);
    let score_capsule = ContextCapsule::from(&tampered_score);
    assert!(matches!(
        validate_query(&compiler, &query, &tampered_score, &score_capsule, accepted_at),
        Err(CompiledContextValidationError::ScoreMismatch { ref node_id }) if node_id == "a-node"
    ));

    let mut tampered_order = compiled;
    tampered_order.nodes.swap(0, 1);
    tampered_order.receipt.included.swap(0, 1);
    let order_capsule = ContextCapsule::from(&tampered_order);
    assert!(matches!(
        validate_query(&compiler, &query, &tampered_order, &order_capsule, accepted_at),
        Err(CompiledContextValidationError::NonCanonicalOrder { ref node_id })
            if node_id == "a-node"
    ));
}

#[test]
fn a_graph_refuses_repeated_nodes_and_loose_edges() {
    let mut graph = ContextGraph::new();
    graph.insert_node(node("a", "first")).expect("insert a");
    assert_eq!(
        graph.insert_node(node("a", "again")),
        Err(ContextValidationError::DuplicateNode { node_id: "a".into() })
    );
    let edge = |from: &str, to: &str, sources: Vec<String>| ContextEdge {
        id: "edge".into(),
        from: from.into(),
        to: to.into(),
        relation: ContextEdgeKind::Supports,
        source_event_ids: sources,
    };
    assert_eq!(
        graph.insert_edge(edge("a", "b", vec!["event-1".into()])),
        Err(ContextValidationError::MissingNode { edge_id: "edge".into(), node_id: "b".into() })
    );
    assert_eq!(
        graph.insert_edge(edge("b", "a", vec!["event-1".into()])),
        Err(ContextValidationError::MissingNode { edge_id: "edge".into(), node_id: "b".into() })
    );
    assert_eq!(
        graph.insert_edge(edge("a", "a", vec![" ".into()])),
        Err(ContextValidationError::MissingProvenance { subject_id: "edge".into() })
    );
    let mut unnamed = edge("a", "a", vec!["event-1".into()]);
    unnamed.id = "\t".into();
    assert_eq!(unnamed.validate(), Err(ContextValidationError::EmptyId));
    assert_eq!(graph.nodes().len(), 1);
    assert_eq!(graph.edges().len(), 0);
    graph.insert_edge(edge("a", "a", vec!["event-1".into()])).expect("insert edge");
    assert_eq!(graph.edges().len(), 1);
}

#[test]
fn each_rule_of_a_node_is_reported() {
    let mut unnamed = node("x", "text");
    unnamed.id = "\u{2003}".into();
    assert_eq!(unnamed.validate(), Err(ContextValidationError::EmptyId));
    assert_eq!(unnamed.invalid_reason().as_deref(), Some("context id is empty"));

    let silent = node("x", " \n");
    assert_eq!(
        silent.invalid_reason().as_deref(),
        Some("context node x has an empty summary")
    );

    for confidence in [-0.5, 1.5, f32::INFINITY, f32::NAN] {
        let mut unsure = node("x", "text");
        unsure.confidence = bits(confidence);
        let unsure = encoded(unsure);
        assert_eq!(
            unsure.validate(),
            Err(ContextValidationError::InvalidConfidence {
                node_id: "x".into(),
                confidence: bits(confidence),
            })
        );
        assert_eq!(
            unsure.invalid_reason(),
            Some(format!("context x has invalid confidence {confidence}"))
        );
    }
    for confidence in [0.0, -0.0, 0.25, 1.0] {
        let mut sure = node("x", "text");
        sure.confidence = bits(confidence);
        assert_eq!(sure.validate(), Ok(()));
    }

    let mut backwards = node("x", "text");
    backwards.valid_from = Some(CLOCK);
    backwards.valid_until = Some(CLOCK);
    assert_eq!(
        backwards.invalid_reason().as_deref(),
        Some("context x has an invalid validity window")
    );
    backwards.valid_until = Some(Timestamp { secs: CLOCK.secs, nanos: CLOCK.nanos + 1 });
    assert_eq!(backwards.invalid_reason(), None);
    assert!(backwards.is_valid_at(CLOCK));
    assert!(!backwards.is_valid_at(seconds_after(CLOCK, 1)));
    assert!(!backwards.is_valid_at(seconds_after(CLOCK, -1)));
}

#[test]
fn tokens_are_estimated_by_quarters() {
    assert_eq!(estimate_serialized_tokens(0, 0), 1);
    assert_eq!(estimate_serialized_tokens(4, 0), 1);
    assert_eq!(estimate_serialized_tokens(5, 16), 18);
    assert_eq!(estimate_serialized_tokens(usize::MAX, 16), u32::MAX);
    assert_eq!(estimate_serialized_tokens(4, u32::MAX), u32::MAX);
}

#[test]
fn an_item_that_cannot_be_written_costs_everything() {
    let mut unwritable = node("x", "text");
    unwritable.encoding.capsule_bytes = None;
    let item = ContextCapsuleItem::from(&unwritable);
    assert_eq!(item.serialized_len(), usize::MAX);
    assert_eq!(item.token_cost(), u32::MAX);
}

#[test]
fn words_are_lowercased_and_longer_than_one_character() {
    let tokens = tokenize("Größe x GRÖSSE-42, größe");
    assert_eq!(tokens.len(), 3);
    assert!(tokens.contains("größe"));
    assert!(tokens.contains("grösse"));
    assert!(tokens.contains("42"));
    assert!(!tokens.contains("x"));
    assert_eq!(tokenize(" ,;").len(), 0);
}

#[test]
fn a_signature_is_searched_with_all_its_parts() {
    let full = TaskSignature {
        request: "inspect the workspace".into(),
        active_goal: Some("prepare a local report".into()),
        entities: vec!["workspace".into(), "report".into()],
        constraints: vec!["no network".into()],
        expected_effect: Some("read-only".into()),
    };
    assert_eq!(
        full.searchable_text(),
        "inspect the workspace prepare a local report workspace report no network read-only"
    );
    let draft = full.to_v2_draft();
    assert_eq!(draft.resources, Vec::<String>::new());
    assert_eq!(draft.request, "inspect the workspace");
    assert_eq!(draft.active_goal.as_deref(), Some("prepare a local report"));
    assert_eq!(draft.entities, vec!["workspace", "report"]);
    assert_eq!(draft.constraints, vec!["no network"]);
    assert_eq!(draft.expected_effect.as_deref(), Some("read-only"));
}

#[test]
fn trust_depends_on_origin_and_status() {
    let mut trusted = node("x", "text");
    for (origin, epistemic, tenths) in [
        (ContextOrigin::User, EpistemicStatus::Verified, 10),
        (ContextOrigin::User, EpistemicStatus::Asserted, 10),
        (ContextOrigin::System, EpistemicStatus::Verified, 8),
        (ContextOrigin::Policy, EpistemicStatus::Asserted, 5),
        (ContextOrigin::User, EpistemicStatus::Inferred, 2),
        (ContextOrigin::User, EpistemicStatus::Disputed, -100),
    ] {
        trusted.origin = origin;
        trusted.epistemic = epistemic;
        assert_eq!(authority_tenths(&trusted), tenths);
    }
}

#[test]
fn required_context_must_fit_the_absolute_budget() {
    let pinned = node("pinned", "database approval");
    let cost = ContextCapsuleItem::from(&pinned).token_cost();
    let tight = ContextCompiler { default_budget: 10, absolute_budget: cost - 1 };
    assert_eq!(
        compile(
            &tight,
            &signature("database"),
            vec![ContextCandidate::user_pinned(pinned.clone())],
            None,
            CLOCK,
        )
        .unwrap_err(),
        ContextCompileError::RequiredContextBudgetExceeded {
            used: cost,
            absolute_budget: cost - 1,
        }
    );
    let exact = ContextCompiler { default_budget: 10, absolute_budget: cost };
    let compiled = compile(
        &exact,
        &signature("database"),
        vec![ContextCandidate::user_pinned(pinned)],
        None,
        CLOCK,
    )
    .expect("the pin just fits");
    assert_eq!(compiled.receipt.total_token_cost, cost);
    assert!(compiled.receipt.over_soft_budget);
}

#[test]
fn compilation_accounts_for_every_candidate_in_either_order() {
    let signature = signature("database service");
    let mut broken = node("broken", "database");
    broken.source_event_ids.clear();
    let broken = encoded(broken);
    let candidates = || {
        vec![
            ContextCandidate::ranked(node("b", "database service")),
            ContextCandidate::ranked(node("a", "database service")),
            ContextCandidate::ranked(broken.clone()),
            ContextCandidate::ranked(node("idle", "vacation")),
            ContextCandidate::user_pinned(node("pin", "approval")),
        ]
    };
    let compiler = ContextCompiler::default();
    let forward =
        compile(&compiler, &signature, candidates(), None, CLOCK).expect("forward compilation");
    let mut reversed = candidates();
    reversed.reverse();
    let backward =
        compile(&compiler, &signature, reversed, None, CLOCK).expect("backward compilation");
    assert_eq!(ids(&forward), ["pin", "a", "b"]);
    assert_eq!(ids(&backward), ids(&forward));
    assert_eq!(forward.nodes.len() + forward.receipt.excluded.len(), 5);
    assert!(forward.receipt.excluded.iter().any(|entry| {
        entry.node_id == "broken"
            && entry.reason == ContextExclusionReason::Invalid
            && entry.detail.as_deref() == Some("context broken has no source event provenance")
    }));
    assert!(forward.receipt.excluded.iter().any(|entry| {
        entry.node_id == "idle" && entry.reason == ContextExclusionReason::Irrelevant
    }));
    assert_eq!(
        value(forward.receipt.included[1].score),
        5.0 * (2.0 / 2.0) + 1.0 + 1.0
    );
    validate(&compiler, &signature, &forward, &ContextCapsule::from(&forward), None, CLOCK)
        .expect("what was compiled is accepted");
}

#[test]
fn validation_checks_nodes_against_their_receipts() {
    let (compiler, signature, compiled, capsule, accepted_at) = validation_fixture();

    let mut other_sources = compiled.clone();
    other_sources.receipt.included[1].source_event_ids = vec!["event-9".into()];
    assert_eq!(
        verdict(&compiler, &signature, &other_sources, &capsule, accepted_at),
        Err(CompiledContextValidationError::ReceiptNodeMismatch { node_id: "ranked".into() })
    );

    let tight = ContextCompiler { absolute_budget: 1, ..compiler };
    assert!(matches!(
        verdict(&tight, &signature, &compiled, &capsule, accepted_at),
        Err(CompiledContextValidationError::InvalidCapsule(
            ContextCapsuleValidationError::TokenBudgetExceeded { absolute_budget: 1, .. }
        ))
    ));

    let mut repeated = compiled.clone();
    repeated.receipt.excluded.push(ContextExclusion {
        node_id: "twice".into(),
        reason: ContextExclusionReason::Irrelevant,
        detail: None,
    });
    repeated.receipt.excluded.push(ContextExclusion {
        node_id: "twice".into(),
        reason: ContextExclusionReason::Invalid,
        detail: None,
    });
    assert_eq!(
        verdict(&compiler, &signature, &repeated, &capsule, accepted_at),
        Err(CompiledContextValidationError::DuplicateReceiptId { node_id: "twice".into() })
    );
}

#[test]
fn an_over_long_document_refuses_a_query() {
    let long = node("long", &"x".repeat(MAX_RETRIEVAL_DOCUMENT_BYTES));
    assert!(matches!(
        compile_query(
            &ContextCompiler::default(),
            &Query::new("long"),
            [ContextCandidate::ranked(long)],
            None,
            CLOCK,
        ),
        Err(ContextCompileError::Retrieval(RetrievalError::RetrievalDocumentTooLong { .. }))
    ));
}

#[test]
fn words_are_runs_of_marked_characters() {
    let chars: Vec<char> = "ab c déf".chars().collect();
    let marks: Vec<bool> = chars.iter().map(|c| *c != ' ').collect();
    assert_eq!(split_words(&chars, &marks), ["ab", "déf"]);
    assert_eq!(split_words(&chars, &vec![false; chars.len()]), Vec::<String>::new());
    assert_eq!(split_words(&chars, &vec![true; chars.len()]), ["ab c déf"]);
    assert_eq!(split_words(&Vec::new(), &Vec::new()), Vec::<String>::new());
}

#[test]
fn a_node_shares_tokens_with_a_query() {
    let shared = node("x", "database service restart");
    let query = tokenize("restart the database");
    let terms = relevance_terms(&shared, &query);
    assert_eq!((terms.matched, terms.total, terms.authority_tenths), (2, 3, 10));
    let none = terms_from_tokens(&shared, &tokenize(""), &query);
    assert_eq!((none.matched, none.total), (0, 3));
}

#[test]
fn the_order_of_candidates_changes_neither_what_is_left_out_nor_whether_it_compiles() {
    let signature = signature("database service");
    let compiler = ContextCompiler::default();
    let either_way = |candidates: Vec<ContextCandidate>, budget: Option<u32>| {
        let mut reversed = candidates.clone();
        reversed.reverse();
        (
            compile(&compiler, &signature, candidates, budget, CLOCK),
            compile(&compiler, &signature, reversed, budget, CLOCK),
        )
    };
    let nodes: Vec<ContextCandidate> = (0..6)
        .map(|i| ContextCandidate::ranked(node(&format!("n{i}"), "database service")))
        .chain([ContextCandidate::ranked(node("idle", "vacation"))])
        .collect();
    let (forward, backward) = either_way(nodes.clone(), Some(200));
    let (forward, backward) = (forward.expect("forward"), backward.expect("backward"));
    let left_out = |compiled: &CompiledContext| {
        let mut entries: Vec<(String, String)> = compiled
            .receipt
            .excluded
            .iter()
            .map(|entry| (entry.node_id.clone(), format!("{:?}", entry.reason)))
            .collect();
        entries.sort();
        entries
    };
    assert!(left_out(&forward).iter().any(|entry| entry.1 == "TokenBudget"));
    assert!(left_out(&forward).iter().any(|entry| entry.1 == "Irrelevant"));
    assert_eq!(left_out(&forward), left_out(&backward));
    assert_eq!(ids(&forward), ids(&backward));
    assert_eq!(forward.receipt.total_token_cost, backward.receipt.total_token_cost);

    let mut repeated = nodes.clone();
    repeated.push(nodes[0].clone());
    let (forward, backward) = either_way(repeated, None);
    assert!(forward.is_err() && backward.is_err());
}
