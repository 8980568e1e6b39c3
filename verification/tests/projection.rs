//! The projection of recorded nodes, driven over a journal and a cache in
//! memory.

use std::collections::BTreeMap;

use ditto::binary32::Binary32;
use ditto::context::node::{
    ContextLens, ContextNode, ContextNodeKind, ContextOrigin, ContextScope, EpistemicStatus,
    NodeEncoding,
};
use ditto::context::ranking::{
    ContextQueryRankingError, ContextRankingWork, RankingAction, MAX_CONTEXT_NODE_ID_BYTES,
    MAX_CONTEXT_SOURCE_EVENT_IDS, MAX_CONTEXT_SUPERSEDES, MAX_SERIALIZED_CONTEXT_NODE_BYTES,
};
use ditto::events::json::{Json, JsonField};
use ditto::events::record::{EventActor, EventRecord};
use ditto::projection::admission::{
    audit_step, check_draft_shape, check_lookup_request, check_rebuilt_index, ensure_verified_index,
    lookup_committed_identity, validate_draft, AuditStep, CommittedContextIdentity,
    ContextNodeDraft, IndexReadiness, ValidatedContextNodeDraft,
};
use ditto::projection::apply::{
    apply_context_event, ApplyContextEventError, CacheLookups, ContextEventPlan, ProjectedTask,
};
use ditto::projection::budget::{
    CatchUpMode, CatchUpWork, DeltaVerificationBudget, ProjectionVerificationMetrics,
    MAX_NORMAL_DELTA_CONTEXT_BYTES, MAX_NORMAL_DELTA_EVENTS, MAX_NORMAL_DELTA_VERIFICATION_WORK,
};
use ditto::projection::canonical::{verified_snapshot_from_cache, CanonicalScan};
use ditto::projection::checkpoint::{
    check_high_water, check_reached, check_target, read_checkpoint, require_checkpoint,
    source_verification_matches_cache, ProjectionCheckpoint, RawCheckpoint, VerifiedGeneration,
    CONTEXT_PROJECTION_SCHEMA_VERSION,
};
use ditto::projection::decode::{CONTEXT_NODE_EVENT_VERSION, CONTEXT_NODE_RECORDED};
use ditto::projection::delta::{CatchUp, CatchUpAction, DeltaCheck};
use ditto::projection::digest::{
    advance_state_digest, canonical_edge_digest, digest_bytes, digest_from_blob,
    empty_state_digest, SessionIndexEntry, GLOBAL_INDEX_DIGEST_DOMAIN,
    SESSION_INDEX_DIGEST_DOMAIN,
};
use ditto::projection::durable::{
    epistemic_status, origin_actor, projection_timestamp_parts, validate_durable_node,
    validate_new_validity_precision, MAX_CONTEXT_SUMMARY_BYTES,
    MAX_SERIALIZED_CONTEXT_PAYLOAD_BYTES,
};
use ditto::projection::error::ContextProjectionError;
use ditto::projection::identity::{IdentityIndex, SessionIndexIdentity};
use ditto::projection::index::{
    advance_session_index_state, index_entry_from_digests, session_index_checkpoint,
    session_index_entry_bytes, CachedEdge,
    RawSessionIndexEntry, RawSessionIndexState, SessionIndexState, INDEX_ENTRY_FIXED_BYTES,
    MAX_SESSION_INDEX_BYTES, MAX_SESSION_INDEX_IDENTITIES,
};
use ditto::projection::load::load_verified_session_identities;
use ditto::projection::snapshot::{
    capture_snapshot, DerivedContextSnapshot, RawProjectedRow, VerifiedContextSnapshot,
};
use ditto::projection::sources::{canonical_provenance_digest, SourceFacts};
use ditto::projection::sync::{
    preserve_source_verification, synchronize_divergence, CacheState, ProjectionSync, SyncEvent,
    SyncStage, Synchronization, VerificationUpdate,
};
use ditto::projection::verified::{
    advances_past, extend_verification, precludes_recovery, recovers,
    IdentityUpdate, SnapshotEvent, SnapshotStage, VerifiedSnapshotWork,
};
use ditto::retrieval::{
    check_candidate_count, ContextResultLimit, RetrievalError, RetrievalMode, RetrievalWorkBudget,
    MAX_CANDIDATE_COUNT, MAX_CONTEXT_RESULT_LIMIT,
};
use ditto::time::Timestamp;
use serde_json::Value;
use sha2::{Digest, Sha256};

const SESSION: &str = "session-a";
const TASK_A: &str = "task-a";
const TASK_B: &str = "task-b";
const CLOCK: Timestamp = Timestamp { secs: 1_788_134_400, nanos: 0 };

fn bits(value: f32) -> Binary32 {
    Binary32::from_bits(value.to_bits())
}

fn parse(text: &str) -> Value {
    serde_json::from_str(text).expect("fixture is JSON")
}

fn json(value: &Value) -> Json {
    match value {
        Value::Null => Json::Null,
        Value::Bool(b) => Json::Bool(*b),
        Value::Number(n) => match (n.as_u64(), n.as_i64()) {
            (Some(u), _) => Json::Unsigned(u),
            (None, Some(i)) => Json::Negative(i),
            (None, None) => Json::Fractional { bits: n.as_f64().unwrap().to_bits() },
        },
        Value::String(s) => Json::Text(s.clone()),
        Value::Array(items) => Json::Array(items.iter().map(json).collect()),
        Value::Object(fields) => Json::Object(
            fields
                .iter()
                .map(|(name, value)| JsonField { name: name.clone(), value: json(value) })
                .collect(),
        ),
    }
}

fn moment(at: &Option<Timestamp>) -> String {
    match at {
        None => "null".to_owned(),
        Some(at) => {
            let time = chrono::DateTime::from_timestamp(at.secs, at.nanos).expect("moment");
            format!("\"{}\"", time.to_rfc3339_opts(chrono::SecondsFormat::AutoSi, true))
        }
    }
}

fn token(name: String) -> String {
    format!("\"{}\"", name.to_lowercase())
}

fn node_json(node: &ContextNode) -> String {
    let quoted = |text: &str| serde_json::to_string(text).expect("text");
    let list = |texts: &Vec<String>| serde_json::to_string(texts).expect("texts");
    format!(
        "{{\"id\":{},\"kind\":\"{}\",\"summary\":{},\"origin\":{},\"epistemic\":{},\"scope\":{},\
         \"lens\":{},\"confidence\":{},\"source_event_ids\":{},\"supersedes\":{},\
         \"valid_from\":{},\"valid_until\":{}}}",
        quoted(&node.id),
        node.kind.as_str(),
        quoted(&node.summary),
        token(format!("{:?}", node.origin)),
        token(format!("{:?}", node.epistemic)),
        token(format!("{:?}", node.scope)),
        token(format!("{:?}", node.lens)),
        serde_json::to_string(&f32::from_bits(node.confidence.to_bits())).expect("number"),
        list(&node.source_event_ids),
        list(&node.supersedes),
        moment(&node.valid_from),
        moment(&node.valid_until),
    )
}

/// Measures the forms of a node anew.
fn encoded(mut node: ContextNode) -> ContextNode {
    let node_bytes = node_json(&node).len();
    node.encoding = NodeEncoding {
        confidence_text: format!("{}", f32::from_bits(node.confidence.to_bits())),
        node_bytes: Some(node_bytes),
        payload_bytes: Some(node_bytes + "{\"event_version\":1,\"node\":}".len()),
        capsule_bytes: Some(node_bytes),
        failure: String::new(),
    };
    node
}

fn node(
    id: impl Into<String>,
    scope: ContextScope,
    origin: ContextOrigin,
    epistemic: EpistemicStatus,
    source_event_ids: Vec<String>,
    supersedes: Vec<String>,
    summary: impl Into<String>,
) -> ContextNode {
    encoded(ContextNode {
        id: id.into(),
        kind: ContextNodeKind::Claim,
        summary: summary.into(),
        origin,
        epistemic,
        scope,
        lens: ContextLens::Task,
        confidence: bits(0.9),
        source_event_ids,
        supersedes,
        valid_from: None,
        valid_until: None,
        encoding: NodeEncoding {
            confidence_text: String::new(),
            node_bytes: None,
            payload_bytes: None,
            capsule_bytes: None,
            failure: String::new(),
        },
    })
}

/// A verified user node of a session.
fn session_node(
    id: impl Into<String>,
    sources: Vec<String>,
    supersedes: Vec<String>,
    summary: impl Into<String>,
) -> ContextNode {
    node(
        id,
        ContextScope::Session,
        ContextOrigin::User,
        EpistemicStatus::Verified,
        sources,
        supersedes,
        summary,
    )
}

/// A verified user node of a task.
fn task_node(id: &str, sources: Vec<String>, supersedes: Vec<String>, summary: &str) -> ContextNode {
    node(
        id,
        ContextScope::Task,
        ContextOrigin::User,
        EpistemicStatus::Verified,
        sources,
        supersedes,
        summary,
    )
}

fn text(value: &Value, name: &str) -> Result<String, String> {
    value
        .get(name)
        .and_then(Value::as_str)
        .map(str::to_owned)
        .ok_or_else(|| format!("missing field `{name}`"))
}

fn texts(value: &Value, name: &str) -> Result<Vec<String>, String> {
    let items = value.get(name).and_then(Value::as_array).cloned().unwrap_or_default();
    items
        .iter()
        .map(|item| item.as_str().map(str::to_owned).ok_or_else(|| format!("bad `{name}`")))
        .collect()
}

fn time(value: &Value, name: &str) -> Result<Option<Timestamp>, String> {
    match value.get(name).and_then(Value::as_str) {
        None => Ok(None),
        Some(text) => {
            let time =
                chrono::DateTime::parse_from_rfc3339(text).map_err(|error| error.to_string())?;
            Ok(Some(Timestamp { secs: time.timestamp(), nanos: time.timestamp_subsec_nanos() }))
        }
    }
}

fn one_of<T: Copy + std::fmt::Debug>(found: String, all: &[T]) -> Result<T, String> {
    all.iter()
        .copied()
        .find(|variant| format!("{variant:?}").to_lowercase() == found)
        .ok_or_else(|| format!("unknown variant `{found}`"))
}

fn read_node(value: &Value) -> Result<ContextNode, String> {
    let confidence = value
        .get("confidence")
        .and_then(Value::as_f64)
        .ok_or_else(|| "confidence is not a number".to_owned())?;
    let mut read = node(
        text(value, "id")?,
        one_of(
            text(value, "scope")?,
            &[
                ContextScope::Turn,
                ContextScope::Session,
                ContextScope::Task,
                ContextScope::Project,
                ContextScope::Device,
                ContextScope::Global,
            ],
        )?,
        one_of(
            text(value, "origin")?,
            &[
                ContextOrigin::User,
                ContextOrigin::Model,
                ContextOrigin::Capability,
                ContextOrigin::Policy,
                ContextOrigin::System,
            ],
        )?,
        one_of(
            text(value, "epistemic")?,
            &[
                EpistemicStatus::Asserted,
                EpistemicStatus::Inferred,
                EpistemicStatus::Verified,
                EpistemicStatus::Disputed,
            ],
        )?,
        texts(value, "source_event_ids")?,
        texts(value, "supersedes")?,
        text(value, "summary")?,
    );
    read.confidence = bits(confidence as f32);
    read.valid_from = time(value, "valid_from")?;
    read.valid_until = time(value, "valid_until")?;
    Ok(encoded(read))
}

fn read_payload(payload: &Value) -> Result<ContextNode, String> {
    read_node(payload.get("node").ok_or_else(|| "missing field `node`".to_owned())?)
}

fn payload(node: &ContextNode) -> Value {
    let mut payload = parse("{\"event_version\":1}");
    payload["node"] = parse(&node_json(node));
    payload
}

#[derive(Clone, Debug)]
struct Stored {
    seq: i64,
    session_id: Option<String>,
    task_id: Option<String>,
    actor: EventActor,
    kind: String,
    payload: Value,
    causation_id: Option<String>,
    correlation_id: Option<String>,
    span_id: Option<String>,
}

impl Stored {
    fn event_id(&self) -> String {
        event_id(self.seq)
    }

    fn record(&self) -> EventRecord {
        EventRecord {
            seq: self.seq,
            event_id: self.event_id(),
            recorded_at: CLOCK,
            session_id: self.session_id.clone(),
            task_id: self.task_id.clone(),
            actor: self.actor,
            kind: self.kind.clone(),
            payload: json(&self.payload),
            payload_bytes: self.payload.to_string().len(),
            causation_id: self.causation_id.clone(),
            correlation_id: self.correlation_id.clone(),
            span_id: self.span_id.clone(),
        }
    }
}

fn event_id(seq: i64) -> String {
    ulid::Ulid(seq as u128).to_string()
}

/// A journal in memory.
#[derive(Default)]
struct Store {
    events: BTreeMap<i64, Stored>,
    gap: i64,
}

impl Store {
    fn latest(&self) -> i64 {
        self.events.keys().next_back().copied().unwrap_or(0)
    }

    fn append(&mut self, event: Stored) -> Stored {
        let seq = self.latest() + 1 + self.gap;
        self.gap = 0;
        let kept = Stored { seq, ..event };
        self.events.insert(seq, kept.clone());
        kept
    }

    fn by_seq(&self, seq: i64) -> Option<EventRecord> {
        self.events.get(&seq).map(Stored::record)
    }

    fn by_id(&self, id: &str) -> Option<EventRecord> {
        let seq = ulid::Ulid::from_string(id).ok()?.0 as i64;
        self.events.get(&seq).filter(|event| event.event_id() == id).map(Stored::record)
    }

    fn page(&self, after: i64, limit: u64, through: i64) -> Vec<Stored> {
        self.events.range(after + 1..=through).take(limit as usize).map(|e| e.1.clone()).collect()
    }

    fn found(&self, parsed: &Result<ContextNode, String>) -> Vec<Option<EventRecord>> {
        match parsed {
            Ok(node) => node.source_event_ids.iter().map(|id| self.by_id(id)).collect(),
            Err(_) => Vec::new(),
        }
    }
}

fn append_source_event(
    store: &mut Store,
    session_id: &str,
    task_id: Option<&str>,
    actor: EventActor,
    kind: &str,
) -> Stored {
    store.append(Stored {
        seq: 0,
        session_id: Some(session_id.to_owned()),
        task_id: task_id.map(str::to_owned),
        actor,
        kind: kind.to_owned(),
        payload: parse("{\"fixture_source\":true}"),
        causation_id: None,
        correlation_id: Some(task_id.unwrap_or(session_id).to_owned()),
        span_id: None,
    })
}

fn noise(store: &mut Store, session_id: Option<&str>, task_id: Option<&str>) -> Stored {
    store.append(Stored {
        seq: 0,
        session_id: session_id.map(str::to_owned),
        task_id: task_id.map(str::to_owned),
        actor: EventActor::System,
        kind: "fixture.noise".into(),
        payload: parse("{\"ignored\":true}"),
        causation_id: None,
        correlation_id: session_id.map(|id| task_id.unwrap_or(id).to_owned()),
        span_id: None,
    })
}

fn greatest_source_id(store: &Store, node: &ContextNode) -> Option<String> {
    node.source_event_ids
        .iter()
        .filter_map(|id| store.by_id(id))
        .max_by_key(|event| event.seq)
        .map(|event| event.event_id)
}

#[allow(clippy::too_many_arguments)]
fn context_event(
    store: &mut Store,
    session_id: Option<&str>,
    task_id: Option<&str>,
    actor: EventActor,
    payload: Value,
    causation_id: Option<String>,
    correlation_id: Option<String>,
    span_id: Option<String>,
) -> Stored {
    store.append(Stored {
        seq: 0,
        session_id: session_id.map(str::to_owned),
        task_id: task_id.map(str::to_owned),
        actor,
        kind: CONTEXT_NODE_RECORDED.to_owned(),
        payload,
        causation_id,
        correlation_id,
        span_id,
    })
}

fn record_node(
    store: &mut Store,
    session_id: &str,
    task_id: Option<&str>,
    value: ContextNode,
) -> Stored {
    let causation_id = greatest_source_id(store, &value);
    context_event(
        store,
        Some(session_id),
        task_id,
        EventActor::System,
        payload(&value),
        causation_id,
        Some(task_id.unwrap_or(session_id).to_owned()),
        None,
    )
}

#[derive(Clone)]
struct Row {
    session_id: String,
    task_id: Option<String>,
    node_id: String,
    event_seq: i64,
    event_id: String,
    node_json: String,
    status: String,
    valid_from: Option<(i64, i64)>,
    valid_until: Option<(i64, i64)>,
}

#[derive(Clone)]
struct Edge {
    session_id: String,
    task_key: String,
    superseding: String,
    superseded: String,
    event_seq: i64,
}

#[derive(Clone)]
struct Entry {
    session_id: String,
    node_id: String,
    task_id: Option<String>,
    event_seq: i64,
    event_id: String,
    node_digest: Vec<u8>,
    provenance_digest: Vec<u8>,
    source_count: i64,
    causation_seq: i64,
    causation_event_id: String,
    supersession_digest: Vec<u8>,
    supersession_count: i64,
    accounted_bytes: i64,
}

/// The cache in memory, with a version that changes when others write to it.
#[derive(Clone)]
struct Cache {
    checkpoint: Option<(i64, i64, Option<String>, Vec<u8>)>,
    rows: Vec<Row>,
    edges: Vec<Edge>,
    entries: Vec<Entry>,
    states: BTreeMap<String, SessionIndexState>,
    data_version: i64,
}

impl Cache {
    fn empty(data_version: i64) -> Cache {
        Cache {
            checkpoint: Some((
                CONTEXT_PROJECTION_SCHEMA_VERSION,
                0,
                None,
                empty_state_digest(GLOBAL_INDEX_DIGEST_DOMAIN).to_vec(),
            )),
            rows: Vec::new(),
            edges: Vec::new(),
            entries: Vec::new(),
            states: BTreeMap::new(),
            data_version,
        }
    }

    fn checkpoint(&self) -> Result<Option<ProjectionCheckpoint>, ContextProjectionError> {
        match &self.checkpoint {
            None => Ok(None),
            Some((schema_version, through_seq, through_event_id, digest)) => {
                read_checkpoint(&RawCheckpoint {
                    schema_version: *schema_version,
                    through_seq: *through_seq,
                    through_event_id: through_event_id.clone(),
                    canonical_state_digest: digest.clone(),
                })
                .map(Some)
            }
        }
    }

    fn identity(&self, session_id: &str, node_id: &str) -> Option<SessionIndexIdentity> {
        self.entries.iter().find(|e| e.session_id == session_id && e.node_id == node_id).map(|e| {
            SessionIndexIdentity {
                task_id: e.task_id.clone(),
                event_seq: e.event_seq,
                event_id: e.event_id.clone(),
            }
        })
    }

    fn row(&self, session_id: &str, node_id: &str) -> Option<&Row> {
        self.rows.iter().find(|row| row.session_id == session_id && row.node_id == node_id)
    }

    fn state(&self, session_id: &str) -> Option<RawSessionIndexState> {
        self.states.get(session_id).map(|state| RawSessionIndexState {
            session_id: session_id.to_owned(),
            through_seq: state.through_seq,
            through_event_id: state.through_event_id.clone(),
            state_digest: state.state_digest.to_vec(),
            entry_count: state.entry_count as i64,
            accounted_bytes: state.accounted_bytes as i64,
        })
    }

    fn lookups(&self, event: &EventRecord, parsed: &Result<ContextNode, String>) -> CacheLookups {
        let session = event.session_id.clone().unwrap_or_default();
        let (node_id, supersedes) = match parsed {
            Ok(node) => (node.id.clone(), node.supersedes.clone()),
            Err(_) => (String::new(), Vec::new()),
        };
        CacheLookups {
            identity: self.identity(&session, &node_id),
            superseded: supersedes.iter().map(|id| self.identity(&session, id)).collect(),
            event_occupied: self
                .rows
                .iter()
                .any(|row| row.event_seq == event.seq || row.event_id == event.event_id),
            node_has_edges: self.edges.iter().any(|edge| {
                edge.session_id == session
                    && (edge.superseding == node_id || edge.superseded == node_id)
            }),
            node_projected: self.row(&session, &node_id).is_some(),
            projected_tasks: supersedes
                .iter()
                .map(|id| {
                    self.row(&session, id)
                        .map(|row| ProjectedTask { task_id: row.task_id.clone() })
                })
                .collect(),
            state: self.state(&session),
        }
    }

    fn insert(&mut self, plan: &ContextEventPlan) {
        self.rows.push(Row {
            session_id: plan.row.session_id.clone(),
            task_id: plan.row.task_id.clone(),
            node_id: plan.row.node_id.clone(),
            event_seq: plan.row.event_seq,
            event_id: plan.row.event_id.clone(),
            node_json: plan.row.node_json.clone(),
            status: plan.row.epistemic_status.to_owned(),
            valid_from: plan.row.valid_from,
            valid_until: plan.row.valid_until,
        });
        for edge in &plan.edges {
            self.edges.push(Edge {
                session_id: plan.row.session_id.clone(),
                task_key: edge.task_key.clone(),
                superseding: edge.superseding_node_id.clone(),
                superseded: edge.superseded_node_id.clone(),
                event_seq: edge.event_seq,
            });
        }
        let entry = &plan.entry;
        self.entries.push(Entry {
            session_id: entry.session_id.clone(),
            node_id: entry.node_id.clone(),
            task_id: entry.task_id.clone(),
            event_seq: entry.event_seq,
            event_id: entry.event_id.clone(),
            node_digest: entry.node_digest.to_vec(),
            provenance_digest: entry.provenance_digest.to_vec(),
            source_count: entry.source_count as i64,
            causation_seq: entry.causation_seq,
            causation_event_id: entry.causation_event_id.clone(),
            supersession_digest: entry.supersession_digest.to_vec(),
            supersession_count: entry.supersession_count as i64,
            accounted_bytes: entry.accounted_bytes as i64,
        });
        self.states.insert(entry.session_id.clone(), plan.state.clone());
    }

    fn edges_from(&self, session_id: &str, node_id: &str) -> Vec<CachedEdge> {
        let mut edges: Vec<&Edge> = self
            .edges
            .iter()
            .filter(|edge| edge.session_id == session_id && edge.superseding == node_id)
            .collect();
        edges.sort_by_key(|e| (e.task_key.clone(), e.event_seq, e.superseded.clone()));
        edges.into_iter().map(cached_edge).collect()
    }

    fn raw_entries(&self) -> Vec<RawSessionIndexEntry> {
        let mut entries: Vec<&Entry> = self.entries.iter().collect();
        entries.sort_by_key(|e| (e.event_seq, e.session_id.clone(), e.node_id.clone()));
        entries
            .into_iter()
            .map(|e| {
                let row = self.row(&e.session_id, &e.node_id);
                RawSessionIndexEntry {
                    session_id: e.session_id.clone(),
                    node_id: e.node_id.clone(),
                    task_id: e.task_id.clone(),
                    event_seq: e.event_seq,
                    event_id: e.event_id.clone(),
                    node_digest: e.node_digest.clone(),
                    provenance_digest: e.provenance_digest.clone(),
                    source_count: e.source_count,
                    causation_seq: e.causation_seq,
                    causation_event_id: e.causation_event_id.clone(),
                    supersession_digest: e.supersession_digest.clone(),
                    supersession_count: e.supersession_count,
                    accounted_bytes: e.accounted_bytes,
                    projected_node_id: row.map(|row| row.node_id.clone()),
                    projected_task_id: row.and_then(|row| row.task_id.clone()),
                    projected_event_seq: row.map(|row| row.event_seq),
                    projected_event_id: row.map(|row| row.event_id.clone()),
                    projected_node_json: row.map(|row| row.node_json.clone()),
                    projected_epistemic_status: row.map(|row| row.status.clone()),
                    projected_valid_from_millis: row.and_then(|r| r.valid_from).map(|p| p.0),
                    projected_valid_from_submillis_nanos: row
                        .and_then(|r| r.valid_from)
                        .map(|p| p.1),
                    projected_valid_until_millis: row.and_then(|r| r.valid_until).map(|p| p.0),
                    projected_valid_until_submillis_nanos: row
                        .and_then(|r| r.valid_until)
                        .map(|p| p.1),
                    parsed: read_json(row.map_or("null", |row| row.node_json.as_str())),
                    edges: self.edges_from(&e.session_id, &e.node_id),
                }
            })
            .collect()
    }

    fn in_scope(&self, row: &Row, session_id: &str, task_id: Option<&str>) -> bool {
        row.session_id == session_id
            && (row.task_id.is_none() || (task_id.is_some() && row.task_id.as_deref() == task_id))
    }

    fn superseded(&self, row: &Row) -> bool {
        self.edges.iter().any(|edge| {
            edge.session_id == row.session_id
                && edge.task_key == row.task_id.clone().unwrap_or_default()
                && edge.superseded == row.node_id
        })
    }

    fn raw_row(&self, row: &Row, superseded: bool) -> RawProjectedRow {
        RawProjectedRow {
            session_id: row.session_id.clone(),
            task_id: row.task_id.clone(),
            node_id: row.node_id.clone(),
            event_seq: row.event_seq,
            event_id: row.event_id.clone(),
            node_json: row.node_json.clone(),
            superseded,
            parsed: read_json(&row.node_json),
        }
    }

    fn scope_rows(&self, session_id: &str, task_id: Option<&str>) -> Vec<RawProjectedRow> {
        let mut rows: Vec<&Row> =
            self.rows.iter().filter(|row| self.in_scope(row, session_id, task_id)).collect();
        rows.sort_by_key(|row| (row.event_seq, row.node_id.clone()));
        rows.truncate(MAX_CANDIDATE_COUNT + 1);
        rows.into_iter().map(|row| self.raw_row(row, self.superseded(row))).collect()
    }

    fn active_rows(
        &self,
        session_id: &str,
        task_id: Option<&str>,
        at: Timestamp,
    ) -> Vec<RawProjectedRow> {
        let now = projection_timestamp_parts(&at);
        let mut rows: Vec<&Row> = self
            .rows
            .iter()
            .filter(|row| {
                self.in_scope(row, session_id, task_id)
                    && row.status != "disputed"
                    && row.valid_from.is_none_or(|from| from <= now)
                    && row.valid_until.is_none_or(|until| until > now)
                    && !self.superseded(row)
            })
            .collect();
        rows.sort_by_key(|row| row.node_id.clone());
        rows.truncate(MAX_CANDIDATE_COUNT + 1);
        rows.into_iter().map(|row| self.raw_row(row, false)).collect()
    }
}

fn cached_edge(edge: &Edge) -> CachedEdge {
    CachedEdge {
        superseding_node_id: edge.superseding.clone(),
        task_key: edge.task_key.clone(),
        event_seq: edge.event_seq,
        superseded_node_id: edge.superseded.clone(),
    }
}

fn read_json(text: &str) -> Result<ContextNode, String> {
    let value: Value = serde_json::from_str(text).map_err(|error| error.to_string())?;
    read_node(&value)
}

/// What a refused step of catching up reports.
enum Refusal {
    Public(ContextProjectionError),
    Diverged,
}

impl From<ContextProjectionError> for Refusal {
    fn from(error: ContextProjectionError) -> Refusal {
        Refusal::Public(error)
    }
}

/// The projection over a cache in memory.
struct Projection {
    cache: Cache,
    generation: Option<VerifiedGeneration>,
    sessions: IdentityIndex,
    metrics: ProjectionVerificationMetrics,
}

impl Projection {
    fn new() -> Projection {
        Projection {
            cache: Cache::empty(1),
            generation: None,
            sessions: IdentityIndex::new(),
            metrics: ProjectionVerificationMetrics::new(),
        }
    }

    /// Writes to the cache as another process would.
    fn tamper(&mut self, change: impl FnOnce(&mut Cache)) {
        change(&mut self.cache);
        self.cache.data_version += 1;
    }

    fn checkpoint(&self) -> ProjectionCheckpoint {
        self.cache.checkpoint().expect("readable checkpoint").expect("checkpoint")
    }

    fn source(&self) -> Option<ProjectionCheckpoint> {
        self.generation.as_ref().map(|generation| generation.checkpoint.clone())
    }

    fn cache_verified(&self) -> Result<bool, ContextProjectionError> {
        Ok(source_verification_matches_cache(
            &self.generation,
            &self.cache.checkpoint()?,
            self.cache.data_version,
        ))
    }

    fn reset(&mut self) {
        self.cache = Cache::empty(self.cache.data_version);
    }

    fn load(
        &self,
        checkpoint: &ProjectionCheckpoint,
    ) -> Result<IdentityIndex, ContextProjectionError> {
        let stored: Vec<RawSessionIndexState> =
            self.cache.states.keys().filter_map(|session| self.cache.state(session)).collect();
        load_verified_session_identities(
            &self.cache.raw_entries(),
            checkpoint,
            self.cache.rows.len() as i64,
            &stored,
        )
    }

    fn verify(
        &mut self,
        checkpoint: &ProjectionCheckpoint,
        cache_repair: bool,
    ) -> Result<(), ContextProjectionError> {
        self.sessions = self.load(checkpoint)?;
        self.generation = Some(VerifiedGeneration {
            checkpoint: checkpoint.clone(),
            sqlite_data_version: self.cache.data_version,
        });
        self.metrics.record_verification(true, cache_repair);
        Ok(())
    }

    fn updates(&self, after: i64, through: i64) -> Vec<IdentityUpdate> {
        let mut entries: Vec<&Entry> = self
            .cache
            .entries
            .iter()
            .filter(|e| e.event_seq > after && e.event_seq <= through)
            .collect();
        entries.sort_by_key(|e| e.event_seq);
        entries
            .into_iter()
            .map(|e| IdentityUpdate {
                session_id: e.session_id.clone(),
                node_id: e.node_id.clone(),
                identity: SessionIndexIdentity {
                    task_id: e.task_id.clone(),
                    event_seq: e.event_seq,
                    event_id: e.event_id.clone(),
                },
            })
            .collect()
    }

    fn extend(
        &mut self,
        checkpoint: &ProjectionCheckpoint,
        advanced: bool,
    ) -> Result<(), ContextProjectionError> {
        let after = self.source().map_or(0, |source| source.through_seq);
        let updates = self.updates(after, checkpoint.through_seq);
        extend_verification(&mut self.sessions, &updates, checkpoint.through_seq)?;
        self.generation = Some(VerifiedGeneration {
            checkpoint: checkpoint.clone(),
            sqlite_data_version: self.cache.data_version,
        });
        self.metrics.record_delta(advanced);
        Ok(())
    }

    fn recover(&mut self, checkpoint: &ProjectionCheckpoint) -> bool {
        let Some(prior) = self.source() else {
            return false;
        };
        let actual = match self.load(checkpoint) {
            Ok(actual) => actual,
            Err(error) => {
                assert!(precludes_recovery(&error));
                return false;
            }
        };
        let updates = self.updates(prior.through_seq, checkpoint.through_seq);
        if !recovers(self.sessions.copy(), &updates, &actual) {
            return false;
        }
        self.sessions = actual;
        self.generation = Some(VerifiedGeneration {
            checkpoint: checkpoint.clone(),
            sqlite_data_version: self.cache.data_version,
        });
        true
    }

    fn catch_up(
        &mut self,
        store: &Store,
        high_water: i64,
        checkpoint: ProjectionCheckpoint,
        mode: CatchUpMode,
    ) -> Result<(ProjectionCheckpoint, CatchUpWork), Refusal> {
        let mut work = CatchUp::new(high_water, checkpoint, mode);
        loop {
            let (after, limit) = match work.next_action()? {
                CatchUpAction::Finished => return Ok((work.checkpoint.clone(), work.work())),
                CatchUpAction::ReadPage { after, limit } => (after, limit),
            };
            let stored = store.page(after, limit, high_water);
            let page: Vec<EventRecord> = stored.iter().map(Stored::record).collect();
            work.take_page(&page)?;
            let mut staged = self.cache.clone();
            let mut digest = work.checkpoint.canonical_state_digest;
            for (event, kept) in page.iter().zip(&stored) {
                if event.kind != CONTEXT_NODE_RECORDED {
                    continue;
                }
                let parsed = read_payload(&kept.payload);
                let json = parsed.as_ref().map(node_json).unwrap_or_default();
                let plan = match apply_context_event(
                    event,
                    &parsed,
                    &store.found(&parsed),
                    &staged.lookups(event, &parsed),
                    &json,
                    &digest,
                    &mut work.budget,
                ) {
                    Ok(plan) => plan,
                    Err(ApplyContextEventError::Public(error)) => return Err(error.into()),
                    Err(ApplyContextEventError::RepairableCacheDivergence) => {
                        return Err(Refusal::Diverged);
                    }
                };
                staged.insert(&plan);
                digest = plan.digest;
            }
            let last = page.last().expect("a taken page is not empty");
            let updated = usize::from(staged.checkpoint.is_some());
            staged.checkpoint = Some((
                CONTEXT_PROJECTION_SCHEMA_VERSION,
                last.seq,
                Some(last.event_id.clone()),
                digest.to_vec(),
            ));
            work.commit_page(last, digest, updated)?;
            self.cache = staged;
        }
    }

    fn prevalidate(
        &self,
        store: &Store,
        after: i64,
        through: i64,
    ) -> Result<(), ContextProjectionError> {
        let mut check = DeltaCheck::new(after, through);
        loop {
            let (after, limit) = match check.next_action()? {
                CatchUpAction::Finished => return Ok(()),
                CatchUpAction::ReadPage { after, limit } => (after, limit),
            };
            let page = store.page(after, limit, through);
            check.check_not_empty(page.len())?;
            for kept in &page {
                let event = kept.record();
                check.step(event.seq)?;
                if event.kind == CONTEXT_NODE_RECORDED {
                    let parsed = read_payload(&kept.payload);
                    check.check_recorded_node(
                        &event,
                        &parsed,
                        &store.found(&parsed),
                        &self.sessions,
                    )?;
                }
            }
        }
    }

    fn sync(
        &mut self,
        store: &Store,
        high_water: i64,
        already_rebuilt: bool,
    ) -> Result<ProjectionSync, Refusal> {
        let source_verified = self.cache_verified()?;
        let checkpoint = self.cache.checkpoint()?;
        let anchor_matches = checkpoint.as_ref().is_some_and(|checkpoint| {
            let by_id = checkpoint.through_event_id.as_deref().and_then(|id| store.by_id(id));
            checkpoint.anchor_matches(&store.by_seq(checkpoint.through_seq), &by_id)
        });
        let cache = CacheState { schema_current: true, checkpoint, anchor_matches };
        let mut work = Synchronization::start(
            high_water,
            store.latest(),
            source_verified,
            &self.source(),
            already_rebuilt,
            cache,
        )?;
        loop {
            let event = match work.stage {
                SyncStage::Finished => {
                    self.metrics.record_catch_up(work.mode, work.work);
                    return Ok(work.finish());
                }
                SyncStage::Diverged => return Err(Refusal::Diverged),
                SyncStage::ResettingAtStart
                | SyncStage::ResettingAfterRecovery
                | SyncStage::ResettingForRepair => {
                    self.reset();
                    SyncEvent::CacheReset
                }
                SyncStage::Prevalidating => {
                    self.prevalidate(store, work.checkpoint.through_seq, high_water)?;
                    SyncEvent::DeltaValidated
                }
                SyncStage::Recovering => SyncEvent::Recovery(self.recover(&work.checkpoint)),
                SyncStage::CatchingUp | SyncStage::Replaying => {
                    match self.catch_up(store, high_water, work.checkpoint.clone(), work.mode) {
                        Ok((checkpoint, work)) => SyncEvent::CaughtUp { checkpoint, work },
                        Err(Refusal::Diverged) => SyncEvent::CacheDiverged,
                        Err(refusal) => return Err(refusal),
                    }
                }
            };
            assert!(work.advance(event, &self.source()));
        }
    }

    fn synchronize_through(
        &mut self,
        store: &Store,
        high_water: i64,
    ) -> Result<ProjectionSync, ContextProjectionError> {
        let source_verified = self.cache_verified()?;
        let before = self.source().map(|source| source.through_seq);
        let started_at_zero = self.checkpoint().through_seq == 0;
        let done = match self.sync(store, high_water, false) {
            Ok(done) => done,
            Err(Refusal::Public(error)) => return Err(error),
            Err(Refusal::Diverged) => {
                return Err(synchronize_divergence(self.checkpoint().through_seq, high_water));
            }
        };
        match preserve_source_verification(&done, source_verified, before, started_at_zero) {
            VerificationUpdate::Verify { cache_repair } => {
                self.verify(&done.checkpoint, cache_repair)?;
            }
            VerificationUpdate::Extend { advanced } => self.extend(&done.checkpoint, advanced)?,
            VerificationUpdate::Recover => {
                if self.recover(&done.checkpoint) {
                    self.metrics.record_delta(true);
                }
            }
            VerificationUpdate::Keep => {}
        }
        Ok(done)
    }

    fn synchronize(&mut self, store: &Store) -> Result<ProjectionSync, ContextProjectionError> {
        self.synchronize_through(store, store.latest())
    }

    fn synchronize_through_event(
        &mut self,
        store: &Store,
        seq: i64,
        event_id: &str,
    ) -> Result<ProjectionSync, ContextProjectionError> {
        check_target(seq, event_id, &store.by_seq(seq), &store.by_id(event_id))?;
        let done = self.synchronize_through(store, seq)?;
        check_reached(seq, event_id, &done.checkpoint)?;
        Ok(done)
    }

    fn snapshot_sync(
        &mut self,
        store: &Store,
        high_water: i64,
        already_rebuilt: bool,
    ) -> Result<ProjectionSync, ContextProjectionError> {
        match self.sync(store, high_water, already_rebuilt) {
            Ok(done) => Ok(done),
            Err(Refusal::Public(error)) => Err(error),
            Err(Refusal::Diverged) => {
                Err(ContextProjectionError::ProjectionSnapshotIntegrityMismatch { high_water })
            }
        }
    }

    fn rebuild_through(
        &mut self,
        store: &Store,
        high_water: i64,
        cache_repair: bool,
    ) -> Result<ProjectionSync, ContextProjectionError> {
        self.reset();
        let done = self.snapshot_sync(store, high_water, true)?;
        self.verify(&done.checkpoint, cache_repair)?;
        Ok(done)
    }

    fn rebuild(&mut self, store: &Store) -> Result<ProjectionSync, ContextProjectionError> {
        self.rebuild_through(store, store.latest(), false)
    }

    fn verified_snapshot_with(
        &mut self,
        store: &Store,
        session_id: &str,
        task_id: Option<&str>,
        budget: RetrievalWorkBudget,
        mut hook: impl FnMut(&mut Projection, SnapshotStage),
    ) -> Result<(VerifiedContextSnapshot, RetrievalWorkBudget), ContextProjectionError> {
        let high_water = store.latest();
        let source = self.source();
        let at_source = source.is_some() && source.as_ref() == self.cache.checkpoint()?.as_ref();
        let mut work = VerifiedSnapshotWork::start(
            high_water,
            store.latest(),
            CLOCK,
            budget,
            self.cache_verified()?,
            at_source,
            source.is_some(),
        )?;
        let before = source.map(|source| source.through_seq);
        let mut reached = None;
        loop {
            let stage = work.stage();
            hook(self, stage);
            let event = match stage {
                SnapshotStage::Done => {
                    self.metrics.record_snapshot();
                    return work.finish();
                }
                SnapshotStage::Failed => return work.finish(),
                SnapshotStage::Synchronizing { .. } => {
                    let done = self.snapshot_sync(store, high_water, false)?;
                    let rebuilt = done.rebuilt;
                    reached = Some(done.checkpoint);
                    SnapshotEvent::Synchronized { rebuilt }
                }
                SnapshotStage::VerifyingRebuild => {
                    let checkpoint = reached.clone().expect("synchronized");
                    self.verify(&checkpoint, true)?;
                    SnapshotEvent::Recorded
                }
                SnapshotStage::ExtendingVerification => {
                    let checkpoint = reached.clone().expect("synchronized");
                    self.extend(&checkpoint, advances_past(before, high_water))?;
                    SnapshotEvent::Recorded
                }
                SnapshotStage::Recovering => {
                    let checkpoint = reached.clone().expect("synchronized");
                    let recovered = self.recover(&checkpoint);
                    if recovered && advances_past(before, high_water) {
                        self.metrics.record_delta(true);
                    }
                    SnapshotEvent::Recovery(recovered)
                }
                SnapshotStage::Rebuilding { cache_repair } => {
                    self.rebuild_through(store, high_water, cache_repair)?;
                    SnapshotEvent::Rebuilt
                }
                SnapshotStage::RebuildingAfterCheck | SnapshotStage::RebuildingAfterCapture => {
                    self.rebuild_through(store, high_water, true)?;
                    SnapshotEvent::Rebuilt
                }
                SnapshotStage::Checking
                | SnapshotStage::CheckingCapture
                | SnapshotStage::CheckingRebuild => {
                    SnapshotEvent::Compared(self.cache_verified()?)
                }
                SnapshotStage::Capturing | SnapshotStage::CapturingAgain => {
                    let rows = self.cache.active_rows(session_id, task_id, CLOCK);
                    work.capture(self.checkpoint(), &rows)?;
                    continue;
                }
            };
            assert!(work.advance(event));
        }
    }

    fn verified_snapshot(
        &mut self,
        store: &Store,
        session_id: &str,
        task_id: Option<&str>,
    ) -> Result<VerifiedContextSnapshot, ContextProjectionError> {
        let budget = RetrievalWorkBudget::with_limits(1 << 24, 1 << 24, 1 << 24);
        self.verified_snapshot_with(store, session_id, task_id, budget, |_, _| {})
            .map(|taken| taken.0)
    }

    fn capture(
        &self,
        session_id: &str,
        task_id: Option<&str>,
    ) -> Result<DerivedContextSnapshot, ContextProjectionError> {
        capture_snapshot(self.checkpoint(), &self.cache.scope_rows(session_id, task_id))
    }

    fn ensure_index(
        &mut self,
        store: &Store,
        high_water: i64,
    ) -> Result<(), ContextProjectionError> {
        let checkpoint = self.checkpoint();
        let by_id = checkpoint.through_event_id.as_deref().and_then(|id| store.by_id(id));
        let anchored = checkpoint.anchor_matches(&store.by_seq(checkpoint.through_seq), &by_id);
        match ensure_verified_index(&checkpoint, high_water, anchored, self.cache_verified()?)? {
            IndexReadiness::Ready => Ok(()),
            IndexReadiness::Rebuild => {
                self.rebuild_through(store, high_water, true)?;
                check_rebuilt_index(self.cache_verified()?, high_water)
            }
        }
    }

    fn lookup(
        &mut self,
        store: &Store,
        high_water: i64,
        session_id: &str,
        node_id: &str,
    ) -> Result<Option<CommittedContextIdentity>, ContextProjectionError> {
        check_lookup_request(session_id, node_id, high_water, store.latest())?;
        self.ensure_index(store, high_water)?;
        self.metrics.record_lookups(1);
        Ok(lookup_committed_identity(&self.sessions, session_id, node_id))
    }

    fn validate_draft(
        &mut self,
        store: &Store,
        high_water: i64,
        draft: &ContextNodeDraft,
    ) -> Result<ValidatedContextNodeDraft, ContextProjectionError> {
        let identifiers = if draft.node().id.len() > MAX_CONTEXT_NODE_ID_BYTES {
            Err(RetrievalError::IdentifierTooLong {
                actual: draft.node().id.len(),
                maximum: MAX_CONTEXT_NODE_ID_BYTES,
            })
        } else {
            Ok(())
        };
        check_draft_shape(draft, identifiers, high_water, store.latest())?;
        self.ensure_index(store, high_water)?;
        let found = draft.node().source_event_ids.iter().map(|id| store.by_id(id)).collect();
        let (lookups, result) = validate_draft(draft, &self.sessions, high_water, &found);
        self.metrics.record_lookups(lookups);
        result
    }

    fn audit(
        &mut self,
        store: &Store,
        session_id: &str,
        task_id: Option<&str>,
    ) -> Result<ProjectionCheckpoint, ContextProjectionError> {
        let high_water = store.latest();
        check_high_water(high_water, store.latest())?;
        let done = self.snapshot_sync(store, high_water, false)?;
        let task = task_id.map(str::to_owned);
        let mut scan = CanonicalScan::new(session_id.to_owned(), task.clone(), high_water);
        for kept in store.page(0, u64::MAX, high_water) {
            if kept.session_id.as_deref() != Some(session_id) {
                continue;
            }
            let event = kept.record();
            if scan.step(&event)? {
                let parsed = read_payload(&kept.payload);
                let json = parsed.as_ref().map(node_json).unwrap_or_default();
                scan.record(&event, &parsed, &store.found(&parsed), &json)?;
            }
        }
        let agrees = |projection: &Projection, expected: &ProjectionCheckpoint| {
            let mut edges: Vec<&Edge> =
                projection.cache.edges.iter().filter(|e| e.session_id == session_id).collect();
            edges.sort_by_key(|e| {
                (e.event_seq, e.superseding.clone(), e.task_key.clone(), e.superseded.clone())
            });
            verified_snapshot_from_cache(
                &scan.view,
                &projection.cache.checkpoint()?,
                expected,
                &task,
                &edges.into_iter().map(cached_edge).collect(),
                &projection.cache.scope_rows(session_id, task_id),
            )
            .map(|snapshot| snapshot.is_some())
        };
        let agreed = agrees(self, &done.checkpoint)?;
        match audit_step(agreed, done.rebuilt, high_water)? {
            AuditStep::Accept => {
                if done.rebuilt {
                    self.verify(&done.checkpoint, true)?;
                } else {
                    self.extend(&done.checkpoint, false)?;
                }
                Ok(done.checkpoint)
            }
            AuditStep::Rebuild => {
                let rebuilt = self.rebuild_through(store, high_water, true)?;
                let agreed = agrees(self, &rebuilt.checkpoint)?;
                audit_step(agreed, true, high_water)?;
                Ok(rebuilt.checkpoint)
            }
        }
    }
}

struct Fixture {
    store: Store,
    projection: Projection,
}

fn fixture() -> Fixture {
    Fixture { store: Store::default(), projection: Projection::new() }
}

fn rebuild_result(
    build: impl FnOnce(&mut Store),
) -> Result<ProjectionSync, ContextProjectionError> {
    let mut fixture = fixture();
    build(&mut fixture.store);
    fixture.projection.rebuild(&fixture.store)
}

fn ids(candidates: &[ContextNode]) -> Vec<String> {
    candidates.iter().map(|candidate| candidate.id.clone()).collect()
}

fn bounded_index_entry(accounted_bytes: u64, event_seq: i64) -> SessionIndexEntry {
    SessionIndexEntry {
        session_id: "session".into(),
        node_id: format!("node-{event_seq}"),
        task_id: None,
        event_seq,
        event_id: format!("event-{event_seq}"),
        node_digest: [1; 32],
        provenance_digest: [2; 32],
        source_count: 1,
        causation_seq: 1,
        causation_event_id: "event-1".into(),
        supersession_digest: [3; 32],
        supersession_count: 0,
        accounted_bytes,
    }
}

#[test]
fn compact_index_and_delta_counters_accept_exact_bounds_and_reject_n_plus_one() {
    let entry = bounded_index_entry(1, 2);
    let count_at_n = advance_session_index_state(
        &Some(SessionIndexState {
            through_seq: 1,
            through_event_id: "event-1".into(),
            state_digest: [4; 32],
            entry_count: MAX_SESSION_INDEX_IDENTITIES - 1,
            accounted_bytes: 1,
        }),
        &entry,
    )
    .expect("identity count N is accepted");
    assert_eq!(count_at_n.entry_count, MAX_SESSION_INDEX_IDENTITIES);
    let count_error = advance_session_index_state(&Some(count_at_n), &bounded_index_entry(1, 3))
        .expect_err("identity count N+1 is rejected");
    assert!(matches!(
        count_error,
        ContextProjectionError::SessionIndexLimitExceeded {
            dimension: "session index identities",
            attempted,
            maximum: MAX_SESSION_INDEX_IDENTITIES,
        } if attempted == MAX_SESSION_INDEX_IDENTITIES + 1
    ));

    let bytes_at_n = advance_session_index_state(
        &Some(SessionIndexState {
            through_seq: 1,
            through_event_id: "event-1".into(),
            state_digest: [5; 32],
            entry_count: 1,
            accounted_bytes: MAX_SESSION_INDEX_BYTES - 7,
        }),
        &bounded_index_entry(7, 2),
    )
    .expect("accounted byte N is accepted");
    assert_eq!(bytes_at_n.accounted_bytes, MAX_SESSION_INDEX_BYTES);
    let byte_error = advance_session_index_state(&Some(bytes_at_n), &bounded_index_entry(1, 3))
        .expect_err("accounted byte N+1 is rejected");
    assert!(matches!(
        byte_error,
        ContextProjectionError::SessionIndexLimitExceeded {
            dimension: "session index accounted bytes",
            attempted,
            maximum: MAX_SESSION_INDEX_BYTES,
        } if attempted == MAX_SESSION_INDEX_BYTES + 1
    ));

    let mut delta = DeltaVerificationBudget::new();
    delta.work.events = MAX_NORMAL_DELTA_EVENTS - 1;
    delta.charge_event().expect("delta event N is accepted");
    let event_error = delta.charge_event().expect_err("delta event N+1 is rejected");
    assert_eq!(delta.work.events, MAX_NORMAL_DELTA_EVENTS);
    assert!(matches!(
        event_error,
        ContextProjectionError::SessionIndexLimitExceeded {
            dimension: "normal delta events",
            attempted,
            maximum: MAX_NORMAL_DELTA_EVENTS,
        } if attempted == MAX_NORMAL_DELTA_EVENTS + 1
    ));

    let mut delta = DeltaVerificationBudget::new();
    delta.work.context_payload_bytes = MAX_NORMAL_DELTA_CONTEXT_BYTES - 1;
    delta.charge_context_payload(1).expect("delta context byte N is accepted");
    let payload_error =
        delta.charge_context_payload(1).expect_err("delta context byte N+1 is rejected");
    assert_eq!(delta.work.context_payload_bytes, MAX_NORMAL_DELTA_CONTEXT_BYTES);
    assert!(matches!(
        payload_error,
        ContextProjectionError::SessionIndexLimitExceeded {
            dimension: "normal delta context payload bytes",
            attempted,
            maximum: MAX_NORMAL_DELTA_CONTEXT_BYTES,
        } if attempted == MAX_NORMAL_DELTA_CONTEXT_BYTES + 1
    ));

    let mut delta = DeltaVerificationBudget::new();
    delta.work.verification_work = MAX_NORMAL_DELTA_VERIFICATION_WORK - 1;
    delta.charge_work(1).expect("delta work N is accepted");
    let work_error = delta.charge_work(1).expect_err("delta work N+1 is rejected");
    assert_eq!(delta.work.verification_work, MAX_NORMAL_DELTA_VERIFICATION_WORK);
    assert!(matches!(
        work_error,
        ContextProjectionError::SessionIndexLimitExceeded {
            dimension: "normal delta verification work",
            attempted,
            maximum: MAX_NORMAL_DELTA_VERIFICATION_WORK,
        } if attempted == MAX_NORMAL_DELTA_VERIFICATION_WORK + 1
    ));
}

#[test]
fn canonical_index_digest_is_domain_separated_ordered_and_field_sensitive() {
    let first = bounded_index_entry(128, 2);
    let second = bounded_index_entry(128, 3);
    let empty_global = empty_state_digest(GLOBAL_INDEX_DIGEST_DOMAIN);
    let empty_session = empty_state_digest(SESSION_INDEX_DIGEST_DOMAIN);
    assert_ne!(empty_global, empty_session);

    let first_global = advance_state_digest(GLOBAL_INDEX_DIGEST_DOMAIN, &empty_global, &first);
    let ordered = advance_state_digest(GLOBAL_INDEX_DIGEST_DOMAIN, &first_global, &second);
    let second_first = advance_state_digest(GLOBAL_INDEX_DIGEST_DOMAIN, &empty_global, &second);
    let reversed = advance_state_digest(GLOBAL_INDEX_DIGEST_DOMAIN, &second_first, &first);
    assert_ne!(ordered, reversed);

    let mut changed = second;
    changed.provenance_digest[0] ^= 0xff;
    assert_ne!(
        ordered,
        advance_state_digest(GLOBAL_INDEX_DIGEST_DOMAIN, &first_global, &changed)
    );
}

#[test]
fn node_id_is_session_wide_while_supersession_remains_exact_scope() {
    let mut first = fixture();
    let source_a =
        append_source_event(&mut first.store, SESSION, None, EventActor::User, "input.received");
    let committed = record_node(
        &mut first.store,
        SESSION,
        None,
        session_node("shared", vec![source_a.event_id()], Vec::new(), "session value"),
    );
    first.projection.synchronize_through(&first.store, committed.seq).expect("session node");
    let task_source = append_source_event(
        &mut first.store,
        SESSION,
        Some(TASK_A),
        EventActor::User,
        "input.received",
    );
    let duplicate_task = record_node(
        &mut first.store,
        SESSION,
        Some(TASK_A),
        task_node("shared", vec![task_source.event_id()], Vec::new(), "task duplicate"),
    );
    assert!(matches!(
        first.projection.synchronize(&first.store),
        Err(ContextProjectionError::DuplicateNodeIdentity { session_id, node_id, .. })
            if session_id == SESSION && node_id == "shared"
    ));
    assert_eq!(first.projection.checkpoint().through_seq, committed.seq);
    assert!(first
        .projection
        .lookup(&first.store, committed.seq, SESSION, "shared")
        .expect("identity through valid prefix")
        .is_some());
    assert_eq!(duplicate_task.seq, first.store.latest());

    {
        let mut fixture = fixture();
        let source = append_source_event(
            &mut fixture.store,
            SESSION,
            None,
            EventActor::User,
            "input.received",
        );
        let first_task = record_node(
            &mut fixture.store,
            SESSION,
            Some(TASK_A),
            task_node("task-shared", vec![source.event_id()], Vec::new(), "first task"),
        );
        fixture
            .projection
            .synchronize_through(&fixture.store, first_task.seq)
            .expect("first task");
        let second_source = append_source_event(
            &mut fixture.store,
            SESSION,
            Some(TASK_B),
            EventActor::User,
            "input.received",
        );
        record_node(
            &mut fixture.store,
            SESSION,
            Some(TASK_B),
            task_node(
                "task-shared",
                vec![second_source.event_id()],
                Vec::new(),
                "second task duplicate",
            ),
        );
        assert!(matches!(
            fixture.projection.synchronize(&fixture.store),
            Err(ContextProjectionError::DuplicateNodeIdentity { .. })
        ));
    }

    {
        let mut fixture = fixture();
        let source_one = append_source_event(
            &mut fixture.store,
            "other-session",
            None,
            EventActor::User,
            "input.received",
        );
        record_node(
            &mut fixture.store,
            "other-session",
            None,
            session_node("shared", vec![source_one.event_id()], Vec::new(), "other session"),
        );
        fixture.projection.synchronize(&fixture.store).expect("same ID in another session");
        let latest = fixture.store.latest();
        assert!(fixture
            .projection
            .lookup(&fixture.store, latest, "other-session", "shared")
            .expect("other identity")
            .is_some());
    }

    {
        let mut fixture = fixture();
        let source = append_source_event(
            &mut fixture.store,
            SESSION,
            Some(TASK_A),
            EventActor::User,
            "input.received",
        );
        let old = record_node(
            &mut fixture.store,
            SESSION,
            Some(TASK_A),
            task_node("old", vec![source.event_id()], Vec::new(), "old needle"),
        );
        fixture.projection.synchronize_through(&fixture.store, old.seq).expect("old task node");
        let replacement = record_node(
            &mut fixture.store,
            SESSION,
            Some(TASK_A),
            task_node(
                "replacement",
                vec![source.event_id()],
                vec!["old".into()],
                "replacement needle",
            ),
        );
        fixture.projection.synchronize(&fixture.store).expect("same-scope supersession");
        let latest = fixture.store.latest();
        assert!(fixture
            .projection
            .lookup(&fixture.store, latest, SESSION, "old")
            .expect("old identity")
            .is_some());
        let snapshot =
            fixture.projection.capture(SESSION, Some(TASK_A)).expect("replacement snapshot");
        assert_eq!(ids(snapshot.candidates()), vec!["replacement"]);
        assert_eq!(fixture.projection.checkpoint().through_seq, replacement.seq);
    }

    let mut fixture = fixture();
    let source = append_source_event(
        &mut fixture.store,
        SESSION,
        Some(TASK_A),
        EventActor::User,
        "input.received",
    );
    let old = record_node(
        &mut fixture.store,
        SESSION,
        Some(TASK_A),
        task_node("cross-scope-old", vec![source.event_id()], Vec::new(), "old"),
    );
    fixture
        .projection
        .synchronize_through(&fixture.store, old.seq)
        .expect("old exact-scope target");
    let cross_scope_source = append_source_event(
        &mut fixture.store,
        SESSION,
        None,
        EventActor::User,
        "input.cross-scope",
    );
    record_node(
        &mut fixture.store,
        SESSION,
        Some(TASK_B),
        task_node(
            "cross-scope-new",
            vec![cross_scope_source.event_id()],
            vec!["cross-scope-old".into()],
            "new",
        ),
    );
    assert!(matches!(
        fixture.projection.synchronize(&fixture.store),
        Err(ContextProjectionError::SupersessionScopeMismatch { .. })
    ));
    assert_eq!(fixture.projection.checkpoint().through_seq, old.seq);
}

#[test]
fn multi_page_high_water_unknown_kind_and_source_count_are_isolated() {
    let mut fixture = fixture();
    let source = append_source_event(
        &mut fixture.store,
        SESSION,
        None,
        EventActor::User,
        "input.received",
    );
    fixture.store.gap = 7;
    let first_node = record_node(
        &mut fixture.store,
        SESSION,
        None,
        session_node("first", vec![source.event_id()], Vec::new(), "first page needle"),
    );
    assert_eq!(first_node.seq, source.seq + 8);
    assert_eq!(fixture.store.events.len(), 2);
    for _ in 0..2_003 {
        noise(&mut fixture.store, Some(SESSION), None);
    }
    let captured_high_water = fixture.store.latest();
    assert_eq!(captured_high_water, first_node.seq + 2_003);

    let late_event = noise(&mut fixture.store, Some(SESSION), None);
    let bounded = fixture
        .projection
        .synchronize_through(&fixture.store, captured_high_water)
        .expect("bounded multi-page synchronization");
    assert_eq!(bounded.captured_high_water, captured_high_water);
    assert_eq!(bounded.checkpoint.through_seq, captured_high_water);
    assert_eq!(
        bounded.checkpoint.through_event_id,
        fixture.store.by_seq(captured_high_water).map(|event| event.event_id)
    );
    let snapshot =
        fixture.projection.capture(SESSION, None).expect("snapshot after legal sequence gap");
    assert_eq!(ids(snapshot.candidates()), vec!["first"]);
    assert_eq!(snapshot.scanned_rows(), 1);
    assert!(fixture
        .projection
        .lookup(&fixture.store, captured_high_water, SESSION, "first")
        .expect("first identity")
        .is_some());
    assert!(fixture
        .projection
        .lookup(&fixture.store, captured_high_water, SESSION, "late")
        .expect("late identity")
        .is_none());

    let caught_up =
        fixture.projection.synchronize(&fixture.store).expect("catch up to late event");
    assert_eq!(caught_up.checkpoint.through_seq, late_event.seq);
    assert_eq!(caught_up.checkpoint.through_event_id, Some(late_event.event_id()));
}

#[test]
fn malformed_context_event_stops_before_checkpoint_and_foreign_anchor_rebuilds() {
    {
        let mut fixture = fixture();
        let source = append_source_event(
            &mut fixture.store,
            SESSION,
            None,
            EventActor::User,
            "input.received",
        );
        let valid = record_node(
            &mut fixture.store,
            SESSION,
            None,
            session_node("valid", vec![source.event_id()], Vec::new(), "valid"),
        );
        fixture
            .projection
            .synchronize_through(&fixture.store, valid.seq)
            .expect("valid prefix");
        let before = fixture.projection.checkpoint();
        let malformed = context_event(
            &mut fixture.store,
            Some(SESSION),
            None,
            EventActor::System,
            parse(&format!("{{\"event_version\":{CONTEXT_NODE_EVENT_VERSION}}}")),
            None,
            Some(SESSION.into()),
            None,
        );
        assert!(matches!(
            fixture.projection.synchronize(&fixture.store),
            Err(ContextProjectionError::MalformedPayload { seq, .. }) if seq == malformed.seq
        ));
        assert_eq!(fixture.projection.checkpoint(), before);
        assert!(fixture
            .projection
            .lookup(&fixture.store, before.through_seq, SESSION, "valid")
            .expect("valid identity after rollback")
            .is_some());
    }

    let mut anchor = fixture();
    let anchor_source =
        append_source_event(&mut anchor.store, SESSION, None, EventActor::User, "input.received");
    let anchor_node = record_node(
        &mut anchor.store,
        SESSION,
        None,
        session_node("anchor-node", vec![anchor_source.event_id()], Vec::new(), "anchor"),
    );
    let foreign_event = noise(&mut anchor.store, Some(SESSION), None);
    anchor.projection.synchronize(&anchor.store).expect("anchor synchronization");
    let mut reopened = Projection::new();
    reopened.cache = anchor.projection.cache.clone();
    reopened.tamper(|cache| {
        cache.checkpoint.as_mut().expect("checkpoint").2 = Some(anchor_source.event_id());
    });
    let rebuilt = reopened.synchronize(&anchor.store).expect("foreign anchor rebuild");
    assert!(rebuilt.rebuilt);
    assert_eq!(rebuilt.checkpoint.through_seq, foreign_event.seq);
    assert_eq!(rebuilt.checkpoint.through_event_id, Some(foreign_event.event_id()));
    assert!(reopened
        .lookup(&anchor.store, foreign_event.seq, SESSION, "anchor-node")
        .expect("rebuilt identity")
        .is_some());
    assert_eq!(anchor_node.seq + 1, foreign_event.seq);
}

#[test]
fn snapshot_scope_excludes_only_superseded_rows_and_preserves_durable_order() {
    let mut fixture = fixture();
    let source = append_source_event(
        &mut fixture.store,
        SESSION,
        None,
        EventActor::User,
        "input.received",
    );
    let now = CLOCK;
    let sources = || vec![source.event_id()];
    let store = &mut fixture.store;
    record_node(store, SESSION, None, session_node("active", sources(), Vec::new(), "needle active"));
    let mut future = session_node("future", sources(), Vec::new(), "needle future");
    future.valid_from = Some(Timestamp { secs: now.secs + 3_600, nanos: 0 });
    record_node(store, SESSION, None, future);
    let mut expired = session_node("expired", sources(), Vec::new(), "needle expired");
    expired.valid_until = Some(Timestamp { secs: now.secs - 3_600, nanos: 0 });
    record_node(store, SESSION, None, expired);
    let mut disputed = session_node("disputed", sources(), Vec::new(), "needle disputed");
    disputed.epistemic = EpistemicStatus::Disputed;
    record_node(store, SESSION, None, disputed);
    let superseded = record_node(
        store,
        SESSION,
        None,
        session_node("superseded", sources(), Vec::new(), "needle superseded"),
    );
    let replacement = record_node(
        store,
        SESSION,
        None,
        session_node(
            "active-replacement",
            sources(),
            vec!["superseded".into()],
            "needle replacement",
        ),
    );
    record_node(
        store,
        SESSION,
        None,
        session_node("lexical-negative", sources(), Vec::new(), "unrelated"),
    );
    fixture.projection.synchronize(&fixture.store).expect("filter fixture sync");
    let snapshot = fixture.projection.capture(SESSION, None).expect("filter snapshot");
    assert_eq!(snapshot.scanned_rows(), 7);
    assert_eq!(
        ids(snapshot.candidates()),
        vec![
            "active",
            "future",
            "expired",
            "disputed",
            "active-replacement",
            "lexical-negative",
        ]
    );
    let latest = fixture.store.latest();
    assert!(fixture
        .projection
        .lookup(&fixture.store, latest, SESSION, "superseded")
        .expect("superseded identity")
        .is_some());
    assert!(replacement.seq < latest);
    assert!(superseded.seq < replacement.seq);

    let verified =
        fixture.projection.verified_snapshot(&fixture.store, SESSION, None).expect("snapshot");
    assert_eq!(
        ids(verified.candidates()),
        vec!["active", "active-replacement", "lexical-negative"]
    );
}

fn recorded(
    value: impl FnOnce(String) -> ContextNode,
) -> Result<ProjectionSync, ContextProjectionError> {
    rebuild_result(|store| {
        let evidence =
            append_source_event(store, SESSION, None, EventActor::User, "input.received");
        record_node(store, SESSION, None, value(evidence.event_id()));
    })
}

#[test]
fn durable_node_and_list_bounds_accept_n_and_reject_n_plus_one() {
    let with_id = |id: String| recorded(|source| session_node(id, vec![source], Vec::new(), "id bound"));
    assert!(with_id("i".repeat(MAX_CONTEXT_NODE_ID_BYTES)).is_ok());
    assert!(matches!(
        with_id("i".repeat(MAX_CONTEXT_NODE_ID_BYTES + 1)),
        Err(ContextProjectionError::DurableBytesExceeded {
            field: "context node id",
            actual: 257,
            maximum: 256,
        })
    ));

    let oversized_error = recorded(|source| {
        let mut oversized = session_node("i".repeat(1024 * 1024), vec![source], Vec::new(), "");
        oversized.confidence = bits(f32::NAN);
        oversized
    })
    .expect_err("one-mebibyte node ID");
    assert!(matches!(
        &oversized_error,
        ContextProjectionError::DurableBytesExceeded {
            field: "serialized context payload",
            actual,
            maximum: MAX_SERIALIZED_CONTEXT_PAYLOAD_BYTES,
        } if *actual > 1_048_576
    ));
    let rendered_oversized_error = format!("{oversized_error:?}");
    assert!(rendered_oversized_error.len() < 256);
    assert!(!rendered_oversized_error.contains(&"i".repeat(MAX_CONTEXT_NODE_ID_BYTES + 1)));

    let clone_safe_error =
        recorded(|source| session_node("i".repeat(64 * 1024), vec![source], Vec::new(), ""))
            .expect_err("node ID bound precedes clone-producing node validation");
    assert!(matches!(
        &clone_safe_error,
        ContextProjectionError::DurableBytesExceeded {
            field: "context node id",
            actual: 65_536,
            maximum: 256,
        }
    ));
    let rendered_clone_safe_error = format!("{clone_safe_error:?}");
    assert!(rendered_clone_safe_error.len() < 256);
    assert!(!rendered_clone_safe_error.contains(&"i".repeat(MAX_CONTEXT_NODE_ID_BYTES + 1)));

    assert!(recorded(|source| session_node(
        "summary-bound",
        vec![source],
        Vec::new(),
        "s".repeat(MAX_CONTEXT_SUMMARY_BYTES),
    ))
    .is_ok());
    assert!(matches!(
        recorded(|source| session_node(
            "summary-over",
            vec![source],
            Vec::new(),
            "s".repeat(MAX_CONTEXT_SUMMARY_BYTES + 1),
        )),
        Err(ContextProjectionError::DurableBytesExceeded {
            field: "context node summary",
            actual: 65_001,
            maximum: 65_000,
        })
    ));

    let with_sources = |count: usize, id: &str| {
        rebuild_result(|store| {
            let sources = (0..count)
                .map(|index| {
                    append_source_event(
                        store,
                        SESSION,
                        None,
                        EventActor::User,
                        &format!("input.source.{index}"),
                    )
                    .event_id()
                })
                .collect();
            record_node(
                store,
                SESSION,
                None,
                session_node(id, sources, Vec::new(), "source list bound"),
            );
        })
    };
    assert!(with_sources(MAX_CONTEXT_SOURCE_EVENT_IDS, "sources-bound").is_ok());
    assert!(matches!(
        with_sources(MAX_CONTEXT_SOURCE_EVENT_IDS + 1, "sources-over"),
        Err(ContextProjectionError::DurableListOutOfRange {
            field: "source_event_ids",
            actual: 65,
            minimum: 1,
            maximum: 64,
        })
    ));

    let with_targets = |count: usize, id: &str| {
        rebuild_result(|store| {
            let evidence =
                append_source_event(store, SESSION, None, EventActor::User, "input.received");
            let targets = (0..count)
                .map(|index| {
                    let target = format!("target-{index}");
                    record_node(
                        store,
                        SESSION,
                        None,
                        session_node(
                            target.clone(),
                            vec![evidence.event_id()],
                            Vec::new(),
                            "supersession target",
                        ),
                    );
                    target
                })
                .collect();
            record_node(
                store,
                SESSION,
                None,
                session_node(id, vec![evidence.event_id()], targets, "replacement"),
            );
        })
    };
    assert!(with_targets(MAX_CONTEXT_SUPERSEDES, "replacement-at-bound").is_ok());
    assert!(matches!(
        with_targets(MAX_CONTEXT_SUPERSEDES + 1, "replacement-over-bound"),
        Err(ContextProjectionError::DurableListOutOfRange {
            field: "supersedes",
            actual: 65,
            minimum: 0,
            maximum: 64,
        })
    ));

    let maximum_shape = session_node(
        "i".repeat(MAX_CONTEXT_NODE_ID_BYTES),
        vec!["source".into(); MAX_CONTEXT_SOURCE_EVENT_IDS],
        vec!["target".into(); MAX_CONTEXT_SUPERSEDES],
        "s".repeat(MAX_CONTEXT_SUMMARY_BYTES),
    );
    let node_bytes = node_json(&maximum_shape).len();
    let payload_bytes = payload(&maximum_shape).to_string().len();
    assert!(node_bytes <= MAX_SERIALIZED_CONTEXT_NODE_BYTES);
    assert!(payload_bytes <= MAX_SERIALIZED_CONTEXT_PAYLOAD_BYTES);
}

#[test]
fn event_actor_version_envelope_span_scope_and_additive_payload_fields_are_checked() {
    let mut fixture = fixture();
    let evidence = append_source_event(
        &mut fixture.store,
        SESSION,
        None,
        EventActor::User,
        "input.received",
    );
    let valid_node =
        session_node("additive", vec![evidence.event_id()], Vec::new(), "additive payload");
    let mut additive_payload = payload(&valid_node);
    additive_payload["future_field"] = parse("{\"ignored\":true}");
    let event = context_event(
        &mut fixture.store,
        Some(SESSION),
        None,
        EventActor::System,
        additive_payload,
        Some(evidence.event_id()),
        Some(SESSION.into()),
        None,
    );
    fixture
        .projection
        .synchronize(&fixture.store)
        .expect("additive payload is forward compatible");
    assert_eq!(fixture.projection.checkpoint().through_event_id, Some(event.event_id()));

    /// What an envelope that differs in one point gives.
    fn refused(
        id: &str,
        scope: ContextScope,
        change: impl FnOnce(&mut Stored),
    ) -> ContextProjectionError {
        rebuild_result(|store| {
            let evidence =
                append_source_event(store, SESSION, None, EventActor::User, "input.received");
            let mut value = session_node(id, vec![evidence.event_id()], Vec::new(), id);
            value.scope = scope;
            let mut event = Stored {
                seq: 0,
                session_id: Some(SESSION.into()),
                task_id: None,
                actor: EventActor::System,
                kind: CONTEXT_NODE_RECORDED.to_owned(),
                payload: payload(&value),
                causation_id: Some(evidence.event_id()),
                correlation_id: Some(SESSION.into()),
                span_id: None,
            };
            change(&mut event);
            store.append(event);
        })
        .expect_err("the envelope is refused")
    }

    let session = ContextScope::Session;
    let error = refused("wrong-actor", session, |event| event.actor = EventActor::User);
    assert!(matches!(error, ContextProjectionError::InvalidActor { .. }));

    let error = refused("wrong-version", session, |event| {
        event.payload["event_version"] = Value::from(u64::from(CONTEXT_NODE_EVENT_VERSION) + 1);
    });
    assert!(matches!(error, ContextProjectionError::UnsupportedEventVersion { found: 2, .. }));

    let error = refused("missing-session", session, |event| {
        event.session_id = None;
        event.correlation_id = None;
    });
    assert!(matches!(error, ContextProjectionError::InvalidScope { .. }));

    let error = refused("task-without-task-envelope", ContextScope::Task, |_| {});
    assert!(matches!(error, ContextProjectionError::InvalidScope { .. }));

    let error = refused("wrong-correlation", session, |event| {
        event.correlation_id = Some("not-session".into());
    });
    assert!(matches!(error, ContextProjectionError::CorrelationMismatch { .. }));

    let error = refused("wrong-causation", session, |event| {
        event.causation_id = Some("not-the-source".into());
    });
    assert!(matches!(error, ContextProjectionError::CausationMismatch { .. }));

    let error = refused("unexpected-span", session, |event| event.span_id = Some("span".into()));
    assert!(matches!(error, ContextProjectionError::UnexpectedSpan { .. }));
}

fn attested(
    id: String,
    actor: EventActor,
    origin: ContextOrigin,
    epistemic: EpistemicStatus,
) -> Result<ProjectionSync, ContextProjectionError> {
    rebuild_result(|store| {
        let evidence = append_source_event(store, SESSION, None, actor, "evidence.origin");
        record_node(
            store,
            SESSION,
            None,
            node(
                id,
                ContextScope::Session,
                origin,
                epistemic,
                vec![evidence.event_id()],
                Vec::new(),
                "origin evidence",
            ),
        );
    })
}

#[test]
fn all_origin_attestations_allow_mixed_sources_and_ban_model_assertions() {
    let cases = [
        (ContextOrigin::User, EventActor::User, EpistemicStatus::Asserted),
        (ContextOrigin::Model, EventActor::Model, EpistemicStatus::Inferred),
        (ContextOrigin::Capability, EventActor::Capability, EpistemicStatus::Verified),
        (ContextOrigin::Policy, EventActor::Policy, EpistemicStatus::Verified),
        (ContextOrigin::System, EventActor::System, EpistemicStatus::Verified),
    ];
    for (index, (origin, actor, epistemic)) in cases.into_iter().enumerate() {
        let result = attested(format!("origin-{index}"), actor, origin, epistemic);
        assert!(result.is_ok(), "matching origin actor must attest: {origin:?}");
        assert_eq!(origin_actor(origin), actor);
    }

    for (index, (origin, actor, epistemic)) in cases.into_iter().enumerate() {
        let wrong_actor = match actor {
            EventActor::User => EventActor::Model,
            EventActor::Model => EventActor::User,
            EventActor::Capability => EventActor::Policy,
            EventActor::Policy => EventActor::Capability,
            EventActor::System => EventActor::User,
            EventActor::Scheduler => EventActor::User,
        };
        let error = attested(format!("wrong-origin-{index}"), wrong_actor, origin, epistemic)
            .expect_err("unattested origin");
        assert!(matches!(error, ContextProjectionError::OriginNotAttested { .. }));
    }

    let mixed = rebuild_result(|store| {
        let user_source =
            append_source_event(store, SESSION, None, EventActor::User, "user.evidence");
        let capability_source = append_source_event(
            store,
            SESSION,
            None,
            EventActor::Capability,
            "capability.evidence",
        );
        record_node(
            store,
            SESSION,
            None,
            node(
                "mixed-origin",
                ContextScope::Session,
                ContextOrigin::User,
                EpistemicStatus::Asserted,
                vec![capability_source.event_id(), user_source.event_id()],
                Vec::new(),
                "mixed actor evidence",
            ),
        );
    });
    assert!(mixed.is_ok(), "additional non-matching evidence is allowed");

    let user_without_user_source = attested(
        "asserted-without-user".into(),
        EventActor::Capability,
        ContextOrigin::User,
        EpistemicStatus::Asserted,
    )
    .expect_err("asserted user claim needs user evidence");
    assert!(matches!(
        user_without_user_source,
        ContextProjectionError::OriginNotAttested { origin: ContextOrigin::User, .. }
    ));

    let model_assertion = attested(
        "model-assertion".into(),
        EventActor::Model,
        ContextOrigin::Model,
        EpistemicStatus::Asserted,
    )
    .expect_err("model-origin assertion");
    assert!(matches!(model_assertion, ContextProjectionError::InvalidNode { .. }));
}

#[test]
fn source_session_task_prior_and_greatest_sequence_permutations_are_rejected_or_allowed() {
    let mut future = fixture();
    let captured_high_water = future.store.latest();
    let future_source = append_source_event(
        &mut future.store,
        SESSION,
        None,
        EventActor::User,
        "input.future-source",
    );
    let prior_error = future
        .projection
        .validate_draft(
            &future.store,
            captured_high_water,
            &ContextNodeDraft::session(
                SESSION.into(),
                session_node(
                    "future-source",
                    vec![future_source.event_id()],
                    Vec::new(),
                    "source is not prior",
                ),
            ),
        )
        .expect_err("a source at the captured cutoff is not prior");
    assert!(matches!(
        prior_error,
        ContextProjectionError::SourceNotPrior { node_id, source_event_id, source_seq }
            if node_id == "future-source"
                && source_event_id == future_source.event_id()
                && source_seq == future_source.seq
    ));

    let missing = rebuild_result(|store| {
        record_node(
            store,
            SESSION,
            None,
            session_node(
                "missing-source",
                vec!["does-not-exist".into()],
                Vec::new(),
                "missing source",
            ),
        );
    })
    .expect_err("missing source");
    assert!(matches!(missing, ContextProjectionError::MissingSource { .. }));

    let cross_session = rebuild_result(|store| {
        let evidence = append_source_event(
            store,
            "other-session",
            None,
            EventActor::User,
            "input.other-session",
        );
        record_node(
            store,
            SESSION,
            None,
            session_node(
                "cross-session-source",
                vec![evidence.event_id()],
                Vec::new(),
                "cross session source",
            ),
        );
    })
    .expect_err("cross-session source");
    assert!(matches!(cross_session, ContextProjectionError::SourceSessionMismatch { .. }));

    let cross_task = rebuild_result(|store| {
        let evidence =
            append_source_event(store, SESSION, Some(TASK_B), EventActor::User, "input.other-task");
        record_node(
            store,
            SESSION,
            Some(TASK_A),
            task_node(
                "cross-task-source",
                vec![evidence.event_id()],
                Vec::new(),
                "cross task source",
            ),
        );
    })
    .expect_err("cross-task source");
    assert!(matches!(cross_task, ContextProjectionError::SourceTaskMismatch { .. }));

    let task_can_cite_session_source = rebuild_result(|store| {
        let evidence =
            append_source_event(store, SESSION, None, EventActor::User, "input.session-source");
        record_node(
            store,
            SESSION,
            Some(TASK_A),
            task_node(
                "task-uses-session-source",
                vec![evidence.event_id()],
                Vec::new(),
                "task session source",
            ),
        );
    });
    assert!(task_can_cite_session_source.is_ok());

    let session_can_cite_task_source = rebuild_result(|store| {
        let evidence =
            append_source_event(store, SESSION, Some(TASK_A), EventActor::User, "input.task-source");
        record_node(
            store,
            SESSION,
            None,
            session_node(
                "session-uses-task-source",
                vec![evidence.event_id()],
                Vec::new(),
                "session task source",
            ),
        );
    });
    assert!(session_can_cite_task_source.is_ok());

    let nonmaximum = rebuild_result(|store| {
        let first = append_source_event(store, SESSION, None, EventActor::User, "input.first");
        let second = append_source_event(store, SESSION, None, EventActor::User, "input.second");
        let value = session_node(
            "nonmaximum-causation",
            vec![second.event_id(), first.event_id()],
            Vec::new(),
            "greatest source wins",
        );
        context_event(
            store,
            Some(SESSION),
            None,
            EventActor::System,
            payload(&value),
            Some(first.event_id()),
            Some(SESSION.into()),
            None,
        );
    })
    .expect_err("causation must be greatest source sequence");
    assert!(matches!(nonmaximum, ContextProjectionError::CausationMismatch { .. }));
}

#[test]
fn rebuild_rejects_nonmaximum_causation_unattested_origin_and_summary_65001() {
    let nonmaximum = rebuild_result(|store| {
        let first = append_source_event(store, SESSION, None, EventActor::User, "input.first");
        let second = append_source_event(store, SESSION, None, EventActor::User, "input.second");
        let value = session_node(
            "forged-causation",
            vec![first.event_id(), second.event_id()],
            Vec::new(),
            "forged causation",
        );
        context_event(
            store,
            Some(SESSION),
            None,
            EventActor::System,
            payload(&value),
            Some(first.event_id()),
            Some(SESSION.into()),
            None,
        );
    })
    .expect_err("forged nonmaximum causation");
    assert!(matches!(nonmaximum, ContextProjectionError::CausationMismatch { .. }));

    let unattested = attested(
        "unattested-capability".into(),
        EventActor::User,
        ContextOrigin::Capability,
        EpistemicStatus::Verified,
    )
    .expect_err("unattested origin");
    assert!(matches!(
        unattested,
        ContextProjectionError::OriginNotAttested { origin: ContextOrigin::Capability, .. }
    ));

    let summary_over = recorded(|source| {
        session_node("summary-65001", vec![source], Vec::new(), "s".repeat(65_001))
    })
    .expect_err("summary 65,001");
    assert!(matches!(
        summary_over,
        ContextProjectionError::DurableBytesExceeded {
            field: "context node summary",
            actual: 65_001,
            maximum: 65_000,
        }
    ));
}

#[test]
fn exact_event_sync_and_session_identity_lookup_are_anchor_bound() {
    let mut fixture = fixture();
    let evidence = append_source_event(
        &mut fixture.store,
        SESSION,
        None,
        EventActor::User,
        "input.received",
    );
    let node_event = record_node(
        &mut fixture.store,
        SESSION,
        None,
        session_node("lookup-node", vec![evidence.event_id()], Vec::new(), "lookup"),
    );
    let (seq, event_id) = (node_event.seq, node_event.event_id());
    let exact = fixture
        .projection
        .synchronize_through_event(&fixture.store, seq, &event_id)
        .expect("exact event synchronization");
    assert_eq!(exact.checkpoint.through_seq, seq);
    assert_eq!(exact.checkpoint.through_event_id.as_deref(), Some(event_id.as_str()));
    let identity = fixture
        .projection
        .lookup(&fixture.store, seq, SESSION, "lookup-node")
        .expect("identity lookup")
        .expect("committed identity");
    assert_eq!(identity.session_id, SESSION);
    assert_eq!(identity.task_id, None);
    assert_eq!(identity.node_id, "lookup-node");
    assert_eq!(identity.event_id, event_id);
    assert_eq!(identity.event_seq, seq);
    assert!(fixture
        .projection
        .lookup(&fixture.store, seq, SESSION, "missing")
        .expect("missing identity")
        .is_none());
    assert!(matches!(
        fixture.projection.lookup(&fixture.store, seq, "", "lookup-node"),
        Err(ContextProjectionError::InvalidScope { .. })
    ));

    assert!(matches!(
        fixture.projection.synchronize_through_event(
            &fixture.store,
            seq,
            "not-the-canonical-event",
        ),
        Err(ContextProjectionError::TargetEventMismatch { .. })
    ));
    assert_eq!(fixture.projection.checkpoint().through_seq, seq);
    assert!(matches!(
        fixture.projection.synchronize_through_event(&fixture.store, seq + 1, &event_id),
        Err(ContextProjectionError::TargetEventMismatch { .. })
    ));
}

fn payload_with_padding(value: &ContextNode, padding: usize) -> Value {
    let mut payload = payload(value);
    payload["padding"] = Value::from("p".repeat(padding));
    payload
}

fn largest_payload_padding(value: &ContextNode) -> usize {
    MAX_SERIALIZED_CONTEXT_PAYLOAD_BYTES - payload_with_padding(value, 0).to_string().len()
}

#[test]
fn serialized_context_payload_accepts_exact_bound_and_rejects_one_more_without_partial_rows() {
    {
        let mut fixture = fixture();
        let evidence = append_source_event(
            &mut fixture.store,
            SESSION,
            None,
            EventActor::User,
            "input.received",
        );
        let value =
            session_node("payload-at-bound", vec![evidence.event_id()], Vec::new(), "payload bound");
        let exact_payload = payload_with_padding(&value, largest_payload_padding(&value));
        assert_eq!(exact_payload.to_string().len(), MAX_SERIALIZED_CONTEXT_PAYLOAD_BYTES);
        let exact_event = context_event(
            &mut fixture.store,
            Some(SESSION),
            None,
            EventActor::System,
            exact_payload,
            Some(evidence.event_id()),
            Some(SESSION.into()),
            None,
        );
        fixture.projection.synchronize(&fixture.store).expect("payload at exact bound");
        assert_eq!(fixture.projection.checkpoint().through_seq, exact_event.seq);
    }

    let mut fixture = fixture();
    let evidence = append_source_event(
        &mut fixture.store,
        SESSION,
        None,
        EventActor::User,
        "input.received",
    );
    let value =
        session_node("payload-over-bound", vec![evidence.event_id()], Vec::new(), "payload bound");
    let over_payload = payload_with_padding(&value, largest_payload_padding(&value) + 1);
    assert_eq!(over_payload.to_string().len(), MAX_SERIALIZED_CONTEXT_PAYLOAD_BYTES + 1);
    context_event(
        &mut fixture.store,
        Some(SESSION),
        None,
        EventActor::System,
        over_payload,
        Some(evidence.event_id()),
        Some(SESSION.into()),
        None,
    );
    let error = fixture.projection.rebuild(&fixture.store).expect_err("payload over exact bound");
    assert!(matches!(
        error,
        ContextProjectionError::DurableBytesExceeded {
            field: "serialized context payload",
            actual: 131_073,
            maximum: 131_072,
        }
    ));
    assert_eq!(fixture.projection.checkpoint().through_seq, 0);
}

#[test]
fn trusted_draft_validation_is_projection_anchored_and_derives_causation() {
    let mut fixture = fixture();
    let evidence = append_source_event(
        &mut fixture.store,
        SESSION,
        None,
        EventActor::User,
        "input.received",
    );
    fixture.projection.synchronize(&fixture.store).expect("source checkpoint");
    let value = node(
        "draft-node",
        ContextScope::Session,
        ContextOrigin::User,
        EpistemicStatus::Asserted,
        vec![evidence.event_id()],
        Vec::new(),
        "draft",
    );
    let latest = fixture.store.latest();
    let validated = fixture
        .projection
        .validate_draft(
            &fixture.store,
            latest,
            &ContextNodeDraft::session(SESSION.into(), value.clone()),
        )
        .expect("valid trusted draft");
    assert_eq!(validated.session_id(), SESSION);
    assert_eq!(validated.task_id(), &None);
    assert!(validated.node().content_equals(&value));
    assert_eq!(validated.causation_id(), &evidence.event_id());
    assert_eq!(validated.correlation_id(), SESSION);
    assert_eq!(validated.payload().event_version, CONTEXT_NODE_EVENT_VERSION);
    assert!(validated.payload().node.content_equals(&value));

    let committed = record_node(
        &mut fixture.store,
        SESSION,
        None,
        session_node("already-recorded", vec![evidence.event_id()], Vec::new(), "existing"),
    );
    fixture.projection.synchronize(&fixture.store).expect("existing node");
    let mut invalid_duplicate = session_node("already-recorded", Vec::new(), Vec::new(), "");
    invalid_duplicate.confidence = bits(f32::NAN);
    assert!(invalid_duplicate.validate().is_err());
    let latest = fixture.store.latest();
    let duplicate = fixture
        .projection
        .validate_draft(
            &fixture.store,
            latest,
            &ContextNodeDraft::session(SESSION.into(), invalid_duplicate),
        )
        .expect_err("duplicate draft identity");
    assert!(matches!(
        duplicate,
        ContextProjectionError::DuplicateNodeIdentity { session_id, node_id, event_id, seq }
            if session_id == SESSION
                && node_id == "already-recorded"
                && event_id == committed.event_id()
                && seq == committed.seq
    ));
    assert_eq!(committed.seq, fixture.projection.checkpoint().through_seq);

    let checkpoint_before_oversized = fixture.projection.checkpoint();
    let oversized_draft = ContextNodeDraft::session(
        SESSION.into(),
        session_node(
            "x".repeat(1024 * 1024),
            vec![evidence.event_id()],
            Vec::new(),
            "oversized identity",
        ),
    );
    let oversized_error = fixture
        .projection
        .validate_draft(&fixture.store, i64::MAX, &oversized_draft)
        .expect_err("oversized identity is rejected before event-store access");
    assert!(matches!(
        &oversized_error,
        ContextProjectionError::Retrieval(RetrievalError::IdentifierTooLong {
            actual: 1_048_576,
            maximum: 256,
        })
    ));
    let rendered_oversized_error = format!("{oversized_error:?}");
    assert!(rendered_oversized_error.len() < 256);
    assert!(!rendered_oversized_error.contains(&"x".repeat(MAX_CONTEXT_NODE_ID_BYTES + 1)));
    assert_eq!(fixture.projection.checkpoint(), checkpoint_before_oversized);

    noise(&mut fixture.store, Some(SESSION), None);
    let latest = fixture.store.latest();
    let stale = fixture
        .projection
        .validate_draft(
            &fixture.store,
            latest,
            &ContextNodeDraft::session(
                SESSION.into(),
                session_node("stale", vec![evidence.event_id()], Vec::new(), "stale projection"),
            ),
        )
        .expect_err("stale projection");
    assert!(matches!(stale, ContextProjectionError::ProjectionNotSynchronized { .. }));
}

#[test]
fn unsupported_scopes_and_reference_shape_errors_fail_closed_before_checkpoint_advance() {
    for unsupported_scope in [
        ContextScope::Turn,
        ContextScope::Project,
        ContextScope::Device,
        ContextScope::Global,
    ] {
        let error = recorded(|source| {
            let mut value = session_node(
                format!("unsupported-{unsupported_scope:?}"),
                vec![source],
                Vec::new(),
                "unsupported scope",
            );
            value.scope = unsupported_scope;
            value
        })
        .expect_err("unsupported scope");
        assert!(matches!(error, ContextProjectionError::InvalidScope { .. }));
    }

    let duplicate_source = recorded(|source| {
        session_node("duplicate-source", vec![source.clone(), source], Vec::new(), "duplicate source")
    })
    .expect_err("duplicate source IDs");
    assert!(matches!(
        duplicate_source,
        ContextProjectionError::DuplicateReference { field: "source_event_ids", .. }
    ));

    let empty_source = recorded(|_| {
        session_node("empty-source", vec![String::new()], Vec::new(), "empty source")
    })
    .expect_err("empty source ID");
    assert!(matches!(
        empty_source,
        ContextProjectionError::EmptyReference { field: "source_event_ids", index: 0 }
    ));

    let duplicate_supersedes = recorded(|source| {
        session_node(
            "duplicate-supersedes",
            vec![source],
            vec!["target".into(), "target".into()],
            "duplicate supersession",
        )
    })
    .expect_err("duplicate supersession IDs");
    assert!(matches!(
        duplicate_supersedes,
        ContextProjectionError::DuplicateReference { field: "supersedes", .. }
    ));

    let self_supersedes = recorded(|source| {
        session_node(
            "self-supersedes",
            vec![source],
            vec!["self-supersedes".into()],
            "self supersession",
        )
    })
    .expect_err("self supersession");
    assert!(matches!(self_supersedes, ContextProjectionError::SelfSupersession { .. }));
}

#[test]
fn verified_snapshot_is_clean_and_exactly_isolates_session_and_task_scopes() {
    let mut fixture = fixture();
    let source = append_source_event(
        &mut fixture.store,
        SESSION,
        None,
        EventActor::User,
        "verified.scope.source",
    );
    record_node(
        &mut fixture.store,
        SESSION,
        None,
        session_node("session-root", vec![source.event_id()], Vec::new(), "session root"),
    );
    record_node(
        &mut fixture.store,
        SESSION,
        Some(TASK_A),
        task_node("task-a-node", vec![source.event_id()], Vec::new(), "task A"),
    );
    record_node(
        &mut fixture.store,
        SESSION,
        Some(TASK_B),
        task_node("task-b-node", vec![source.event_id()], Vec::new(), "task B"),
    );
    let other_source = append_source_event(
        &mut fixture.store,
        "session-other",
        None,
        EventActor::User,
        "verified.other.source",
    );
    record_node(
        &mut fixture.store,
        "session-other",
        None,
        session_node(
            "other-session-node",
            vec![other_source.event_id()],
            Vec::new(),
            "other session",
        ),
    );

    let store = &fixture.store;
    let projection = &mut fixture.projection;
    let task_a = projection.verified_snapshot(store, SESSION, Some(TASK_A)).expect("task A");
    assert_eq!(ids(task_a.candidates()), vec!["session-root", "task-a-node"]);
    assert_eq!(task_a.scanned_rows(), 2);
    let session = projection.verified_snapshot(store, SESSION, None).expect("session");
    assert_eq!(ids(session.candidates()), vec!["session-root"]);
    let task_b = projection.verified_snapshot(store, SESSION, Some(TASK_B)).expect("task B");
    assert_eq!(ids(task_b.candidates()), vec!["session-root", "task-b-node"]);
    let other = projection.verified_snapshot(store, "session-other", None).expect("other");
    assert_eq!(ids(other.candidates()), vec!["other-session-node"]);

    let corrupt = |cache: &mut Cache| {
        let row = cache.rows.iter_mut().find(|row| row.node_id == "task-b-node");
        row.expect("sibling task row").node_json = "{}".into();
    };
    projection.tamper(corrupt);
    let task_a = projection
        .verified_snapshot(store, SESSION, Some(TASK_A))
        .expect("sibling corruption is outside task A scope");
    assert_eq!(ids(task_a.candidates()), vec!["session-root", "task-a-node"]);
    let sibling = projection.cache.row(SESSION, "task-b-node").expect("sibling row");
    let repaired_sibling =
        read_json(&sibling.node_json).expect("generation repair restores sibling row");
    assert_eq!(repaired_sibling.id, "task-b-node");
    let task_b = projection
        .verified_snapshot(store, SESSION, Some(TASK_B))
        .expect("queried sibling corruption is rebuilt");
    assert_eq!(ids(task_b.candidates()), vec!["session-root", "task-b-node"]);
}

#[test]
fn verified_snapshot_reuses_one_full_replay_and_advances_by_delta() {
    let mut fixture = fixture();
    let source = append_source_event(
        &mut fixture.store,
        SESSION,
        None,
        EventActor::User,
        "verified.metrics.source",
    );
    record_node(
        &mut fixture.store,
        SESSION,
        None,
        session_node("metrics-first", vec![source.event_id()], Vec::new(), "metrics first"),
    );
    fixture.projection.rebuild(&fixture.store).expect("one startup replay");
    assert_eq!(fixture.projection.metrics.full_replays, 1);

    fixture
        .projection
        .verified_snapshot(&fixture.store, SESSION, None)
        .expect("first fast snapshot");
    fixture
        .projection
        .verified_snapshot(&fixture.store, SESSION, None)
        .expect("second fast snapshot");
    assert_eq!(fixture.projection.metrics.full_replays, 1);
    assert_eq!(fixture.projection.metrics.delta_synchronizations, 0);
    assert_eq!(fixture.projection.metrics.fast_snapshots, 2);

    record_node(
        &mut fixture.store,
        SESSION,
        None,
        session_node("metrics-second", vec![source.event_id()], Vec::new(), "metrics second"),
    );
    let advanced = fixture
        .projection
        .verified_snapshot(&fixture.store, SESSION, None)
        .expect("delta snapshot");
    assert_eq!(ids(advanced.candidates()), vec!["metrics-first", "metrics-second"]);
    assert_eq!(fixture.projection.metrics.full_replays, 1);
    assert_eq!(fixture.projection.metrics.delta_synchronizations, 1);
    assert_eq!(fixture.projection.metrics.fast_snapshots, 3);
}

#[test]
fn inactive_history_above_candidate_limit_does_not_block_active_snapshot() {
    let mut fixture = fixture();
    let source = append_source_event(
        &mut fixture.store,
        SESSION,
        None,
        EventActor::User,
        "verified.inactive.source",
    );
    for index in 0..=MAX_CANDIDATE_COUNT {
        let mut inactive = session_node(
            format!("inactive-{index:05}"),
            vec![source.event_id()],
            Vec::new(),
            "inactive history",
        );
        inactive.epistemic = EpistemicStatus::Disputed;
        record_node(&mut fixture.store, SESSION, None, inactive);
    }
    record_node(
        &mut fixture.store,
        SESSION,
        None,
        session_node(
            "active-after-history",
            vec![source.event_id()],
            Vec::new(),
            "active history",
        ),
    );
    fixture.projection.rebuild(&fixture.store).expect("rebuild complete history");

    let snapshot = fixture
        .projection
        .verified_snapshot(&fixture.store, SESSION, None)
        .expect("active-only snapshot");
    assert_eq!(snapshot.scanned_rows(), 1);
    assert_eq!(ids(snapshot.candidates()), vec!["active-after-history"]);
    assert_eq!(
        fixture.projection.capture(SESSION, None).expect_err("too many rows for one query"),
        ContextProjectionError::Retrieval(RetrievalError::CandidateCountExceeded {
            actual: 10_001,
            maximum: 10_000,
        })
    );
}

fn ghost_row(session_id: &str, value: &ContextNode, event_seq: i64, event_id: &str) -> Row {
    Row {
        session_id: session_id.to_owned(),
        task_id: None,
        node_id: value.id.clone(),
        event_seq,
        event_id: event_id.to_owned(),
        node_json: node_json(value),
        status: "asserted".to_owned(),
        valid_from: None,
        valid_until: None,
    }
}

#[test]
fn verified_snapshot_repairs_deleted_altered_identity_and_cache_only_rows() {
    for case in [
        "deleted",
        "altered-json",
        "altered-identity",
        "altered-task",
        "altered-sequence",
        "altered-event-id",
        "cache-only",
    ] {
        let mut fixture = fixture();
        let source = append_source_event(
            &mut fixture.store,
            SESSION,
            None,
            EventActor::User,
            "verified.row.source",
        );
        let canonical = session_node(
            "canonical-row",
            vec![source.event_id()],
            Vec::new(),
            "canonical summary",
        );
        let committed = record_node(&mut fixture.store, SESSION, None, canonical.clone());
        fixture.projection.synchronize(&fixture.store).expect("initial row projection");
        fixture.projection.tamper(|cache| match case {
            "deleted" => cache.rows.clear(),
            "altered-json" => {
                let mut altered = canonical.clone();
                altered.summary = "cache altered summary".into();
                cache.rows[0].node_json = node_json(&altered);
            }
            "altered-identity" => cache.rows[0].node_id = "cache-renamed-row".into(),
            "altered-task" => cache.rows[0].task_id = Some(TASK_A.into()),
            "altered-sequence" => cache.rows[0].event_seq += 1000,
            "altered-event-id" => cache.rows[0].event_id = "cache-altered-event".into(),
            _ => {
                let ghost = session_node(
                    "cache-only-row",
                    vec![source.event_id()],
                    Vec::new(),
                    "cache only",
                );
                let seq = committed.seq + 10_000;
                cache.rows.push(ghost_row(SESSION, &ghost, seq, "cache-only-event"));
            }
        });

        let repaired = fixture
            .projection
            .verified_snapshot(&fixture.store, SESSION, None)
            .expect("verified row repair");
        assert_eq!(ids(repaired.candidates()), vec!["canonical-row"], "{case}");
        assert_eq!(repaired.candidates()[0].summary, "canonical summary", "{case}");
        let rows: Vec<&str> =
            fixture.projection.cache.rows.iter().map(|row| row.node_id.as_str()).collect();
        assert_eq!(rows, vec!["canonical-row"], "{case}");
    }
}

#[test]
fn verified_snapshot_treats_fake_cache_row_10001_as_integrity_not_canonical_overflow() {
    let mut fixture = fixture();
    let high_water = noise(&mut fixture.store, Some(SESSION), None).seq;
    fixture
        .projection
        .synchronize_through(&fixture.store, high_water)
        .expect("initial empty-scope checkpoint");
    fixture.projection.tamper(|cache| {
        for index in 0..=MAX_CANDIDATE_COUNT {
            cache.rows.push(Row {
                session_id: SESSION.to_owned(),
                task_id: None,
                node_id: format!("fake-cache-{index:05}"),
                event_seq: index as i64 + 10_000,
                event_id: format!("fake-cache-event-{index:05}"),
                node_json: "{}".to_owned(),
                status: "asserted".to_owned(),
                valid_from: None,
                valid_until: None,
            });
        }
    });

    let repaired = fixture
        .projection
        .verified_snapshot(&fixture.store, SESSION, None)
        .expect("fake cache overflow rebuilds instead of acquiring scan authority");
    assert_eq!(repaired.scanned_rows(), 0);
    assert!(repaired.candidates().is_empty());
    assert!(fixture.projection.cache.rows.is_empty());
}

#[test]
fn verified_snapshot_repairs_complete_incoming_and_outgoing_edge_shapes() {
    let mut fixture = fixture();
    let source = append_source_event(
        &mut fixture.store,
        SESSION,
        None,
        EventActor::User,
        "verified.edge.source",
    );
    let sources = || vec![source.event_id()];
    let target = record_node(
        &mut fixture.store,
        SESSION,
        None,
        session_node("edge-target", sources(), Vec::new(), "target"),
    );
    record_node(
        &mut fixture.store,
        SESSION,
        None,
        session_node("other-target", sources(), Vec::new(), "other target"),
    );
    let replacement = record_node(
        &mut fixture.store,
        SESSION,
        None,
        session_node("edge-replacement", sources(), vec!["edge-target".into()], "replacement"),
    );
    fixture.projection.synchronize(&fixture.store).expect("initial edge projection");

    let edge = |superseding: &str, superseded: &str, event_seq: i64| Edge {
        session_id: SESSION.to_owned(),
        task_key: String::new(),
        superseding: superseding.to_owned(),
        superseded: superseded.to_owned(),
        event_seq,
    };
    for mutation in [
        "missing",
        "altered-target",
        "altered-sequence",
        "cache-only-incoming",
        "cache-only-outgoing",
        "edge-only-identities",
    ] {
        let seq = replacement.seq;
        fixture.projection.tamper(|cache| match mutation {
            "missing" => cache.edges.clear(),
            "altered-target" => cache.edges[0].superseded = "other-target".into(),
            "altered-sequence" => cache.edges[0].event_seq += 1,
            "cache-only-incoming" => {
                cache.edges.push(edge("ghost-superseder", "edge-target", seq + 10));
            }
            "cache-only-outgoing" => {
                cache.edges.push(edge("edge-replacement", "ghost-target", seq));
            }
            _ => cache.edges.push(edge("ghost-source", "ghost-target", seq + 20)),
        });
        let repaired = fixture
            .projection
            .verified_snapshot(&fixture.store, SESSION, None)
            .expect("verified edge repair");
        assert_eq!(
            ids(repaired.candidates()),
            vec!["edge-replacement", "other-target"],
            "{mutation}"
        );
        let first = &fixture.projection.cache.edges[0];
        assert_eq!(first.superseding, "edge-replacement", "{mutation}");
        assert_eq!(first.superseded, "edge-target", "{mutation}");
        assert_eq!(first.event_seq, seq, "{mutation}");
    }
    fixture.projection.audit(&fixture.store, SESSION, None).expect("audit");
    assert_eq!(fixture.projection.cache.edges.len(), 1);
    assert!(target.seq < replacement.seq);
}

#[test]
fn behind_checkpoint_cache_identity_and_global_event_collisions_rebuild_once() {
    for collision in ["node-id", "event-seq", "event-id"] {
        let mut fixture = fixture();
        let source = append_source_event(
            &mut fixture.store,
            SESSION,
            None,
            EventActor::User,
            "delta.identity.source",
        );
        fixture
            .projection
            .synchronize_through(&fixture.store, source.seq)
            .expect("checkpoint before canonical node");
        let canonical = record_node(
            &mut fixture.store,
            SESSION,
            None,
            session_node(
                "delta-canonical-node",
                vec![source.event_id()],
                Vec::new(),
                "canonical delta node",
            ),
        );
        let (ghost_session, ghost_id, ghost_seq, ghost_event_id) = match collision {
            "node-id" => (
                SESSION,
                "delta-canonical-node",
                canonical.seq + 10_000,
                "cache-only-node-event".to_owned(),
            ),
            "event-seq" => (
                "cache-only-session",
                "cache-only-sequence-node",
                canonical.seq,
                "cache-only-sequence-event".to_owned(),
            ),
            _ => (
                "cache-only-session",
                "cache-only-event-node",
                canonical.seq + 10_000,
                canonical.event_id(),
            ),
        };
        let ghost = session_node(
            ghost_id,
            vec![source.event_id()],
            Vec::new(),
            "derived cache collision",
        );
        fixture.projection.tamper(|cache| {
            cache.rows.push(ghost_row(ghost_session, &ghost, ghost_seq, &ghost_event_id));
        });

        let snapshot = fixture
            .projection
            .verified_snapshot(&fixture.store, SESSION, None)
            .expect("derived collision must rebuild before canonical catch-up");
        assert_eq!(ids(snapshot.candidates()), vec!["delta-canonical-node"]);
        assert_eq!(snapshot.checkpoint().through_seq, canonical.seq);
        let rows = &fixture.projection.cache.rows;
        assert_eq!(rows.len(), 1, "{collision}");
        assert_eq!(rows[0].session_id, SESSION, "{collision}");
        assert_eq!(rows[0].node_id, "delta-canonical-node", "{collision}");
        assert_eq!(rows[0].event_seq, canonical.seq, "{collision}");
        assert_eq!(rows[0].event_id, canonical.event_id(), "{collision}");
    }
}

/// A journal of a source and one node of the session, which is returned.
fn one_node(fixture: &mut Fixture, value: impl FnOnce(String) -> ContextNode) -> Stored {
    let source = append_source_event(
        &mut fixture.store,
        SESSION,
        None,
        EventActor::User,
        "fixture.source",
    );
    let value = value(source.event_id());
    record_node(&mut fixture.store, SESSION, None, value)
}

fn ample() -> RetrievalWorkBudget {
    RetrievalWorkBudget::with_limits(1 << 24, 1 << 24, 1 << 24)
}

#[test]
fn persistent_post_rebuild_corruption_returns_typed_snapshot_integrity_failure() {
    let mut fixture = fixture();
    let recorded = one_node(&mut fixture, |source| {
        session_node("persistent-node", vec![source], Vec::new(), "canonical summary")
    });
    fixture.projection.synchronize(&fixture.store).expect("initial sync");
    let corrupt = |cache: &mut Cache| cache.rows[0].node_json = "{}".into();
    fixture.projection.tamper(corrupt);
    let error = fixture
        .projection
        .verified_snapshot_with(&fixture.store, SESSION, None, ample(), |projection, stage| {
            if stage == SnapshotStage::Checking {
                projection.tamper(corrupt);
            }
        })
        .expect_err("persistent mismatch must not return a partial snapshot");
    assert_eq!(
        error,
        ContextProjectionError::ProjectionSnapshotIntegrityMismatch { high_water: recorded.seq }
    );
}

#[test]
fn persistent_post_rebuild_session_index_corruption_returns_no_snapshot() {
    let mut fixture = fixture();
    let recorded = one_node(&mut fixture, |source| {
        session_node("index-node", vec![source], Vec::new(), "canonical summary")
    });
    fixture.projection.synchronize(&fixture.store).expect("initial sync");
    let corrupt = |cache: &mut Cache| {
        cache.states.get_mut(SESSION).expect("session state").state_digest = [0; 32];
    };
    fixture.projection.tamper(corrupt);
    let error = fixture
        .projection
        .verified_snapshot_with(&fixture.store, SESSION, None, ample(), |projection, stage| {
            if stage == SnapshotStage::Checking {
                projection.tamper(corrupt);
            }
        })
        .expect_err("persistent index mismatch must not return a snapshot");
    assert_eq!(
        error,
        ContextProjectionError::ProjectionSnapshotIntegrityMismatch { high_water: recorded.seq }
    );
    assert_eq!(
        fixture.projection.cache.states[SESSION].state_digest, [0; 32],
        "a second rebuild must not have occurred"
    );
}

#[test]
fn catch_up_repair_consumes_the_verified_snapshot_rebuild_budget() {
    let mut fixture = fixture();
    let source = append_source_event(
        &mut fixture.store,
        SESSION,
        None,
        EventActor::User,
        "fixture.source",
    );
    fixture.projection.synchronize(&fixture.store).expect("source checkpoint");
    let value = session_node(
        "catch-up-budget-node",
        vec![source.event_id()],
        Vec::new(),
        "canonical summary",
    );
    let recorded = record_node(&mut fixture.store, SESSION, None, value.clone());
    fixture.projection.tamper(|cache| {
        let seq = recorded.seq + 10_000;
        cache.rows.push(ghost_row(SESSION, &value, seq, "cache-only-collision"));
    });
    let error = fixture
        .projection
        .verified_snapshot_with(&fixture.store, SESSION, None, ample(), |projection, stage| {
            if stage == SnapshotStage::Checking {
                projection.tamper(|cache| cache.rows[0].node_json = "{}".into());
            }
        })
        .expect_err("catch-up repair already consumed the one rebuild budget");
    assert_eq!(
        error,
        ContextProjectionError::ProjectionSnapshotIntegrityMismatch { high_water: recorded.seq }
    );
    assert_eq!(
        fixture.projection.cache.rows[0].node_json, "{}",
        "a second rebuild must not have occurred"
    );
}

#[test]
fn cache_repair_accumulates_candidate_work_across_both_snapshot_attempts() {
    let mut fixture = fixture();
    let mut candidate_bytes = 0;
    one_node(&mut fixture, |source| {
        let value = session_node(
            "cumulative-repair-node",
            vec![source],
            Vec::new(),
            "x".repeat(16 * 1024),
        );
        candidate_bytes = node_json(&value).len();
        value
    });
    fixture.projection.rebuild(&fixture.store).expect("source-verified rebuild");
    let maximum = 1 << 24;
    let mut budget = ample();
    budget
        .charge_candidate_bytes(maximum - (candidate_bytes + candidate_bytes / 2))
        .expect("precharge within candidate budget");
    let drift = session_node("cache-drift-node", Vec::new(), Vec::new(), "drift");
    let mut drifted = false;
    let error = fixture
        .projection
        .verified_snapshot_with(&fixture.store, SESSION, None, budget, |projection, stage| {
            if stage == SnapshotStage::CheckingCapture && !drifted {
                drifted = true;
                projection.tamper(|cache| {
                    let row = ghost_row("cache-drift-session", &drift, 9_999_999, "drift-event");
                    cache.rows.push(row);
                });
            }
        })
        .expect_err("combined first and repaired snapshots must exceed the budget");
    assert!(matches!(
        error,
        ContextProjectionError::Retrieval(RetrievalError::WorkBudgetExceeded {
            attempted,
            maximum: limit,
            ..
        }) if attempted > maximum && limit == maximum
    ));
    assert_eq!(fixture.projection.metrics.cache_repairs, 1);
}

#[test]
fn a_high_water_outside_the_journal_or_behind_the_cache_is_refused() {
    let mut fixture = fixture();
    let first = noise(&mut fixture.store, None, None);
    let second = noise(&mut fixture.store, None, None);
    assert_eq!(
        fixture.projection.synchronize_through(&fixture.store, second.seq + 1).unwrap_err(),
        ContextProjectionError::HighWaterAhead { requested: 3, available: 2 }
    );
    assert_eq!(
        fixture.projection.synchronize_through(&fixture.store, -1).unwrap_err(),
        ContextProjectionError::HighWaterAhead { requested: -1, available: 2 }
    );
    fixture.projection.synchronize(&fixture.store).expect("synchronized");
    assert_eq!(
        fixture.projection.synchronize_through(&fixture.store, first.seq).unwrap_err(),
        ContextProjectionError::HighWaterBehindCheckpoint { requested: 1, checkpoint: 2 }
    );
}

#[test]
fn superseding_a_missing_node_is_refused_for_events_and_drafts() {
    let mut fixture = fixture();
    let evidence = append_source_event(
        &mut fixture.store,
        SESSION,
        None,
        EventActor::User,
        "input.received",
    );
    fixture.projection.synchronize(&fixture.store).expect("source checkpoint");
    let value = session_node("new", vec![evidence.event_id()], vec!["old".into()], "new");
    let latest = fixture.store.latest();
    let draft = ContextNodeDraft::session(SESSION.into(), value.clone());
    let refusal = ContextProjectionError::MissingSupersededNode {
        node_id: "new".into(),
        superseded_id: "old".into(),
    };
    assert_eq!(
        fixture.projection.validate_draft(&fixture.store, latest, &draft).unwrap_err(),
        refusal
    );
    record_node(&mut fixture.store, SESSION, None, value);
    assert_eq!(fixture.projection.synchronize(&fixture.store).unwrap_err(), refusal);

    let task_draft = ContextNodeDraft::task(
        SESSION.into(),
        TASK_A.into(),
        task_node("task-draft", vec![evidence.event_id()], Vec::new(), "draft"),
    );
    let validated = fixture
        .projection
        .validate_draft(&fixture.store, latest, &task_draft)
        .expect("a task draft may cite its session's events");
    assert_eq!(validated.correlation_id(), TASK_A);
    assert_eq!(validated.task_id().as_deref(), Some(TASK_A));
}

#[test]
fn new_validity_times_have_whole_milliseconds() {
    let mut value = session_node("x", vec!["event".into()], Vec::new(), "text");
    value.valid_from = Some(Timestamp { secs: 10, nanos: 1_000_000 });
    value.valid_until = Some(Timestamp { secs: 10, nanos: 2_000_001 });
    assert_eq!(
        validate_new_validity_precision(&value),
        Err(ContextProjectionError::NonCanonicalValidityPrecision {
            node_id: "x".into(),
            field: "valid_until",
        })
    );
    value.valid_until = Some(Timestamp { secs: 10, nanos: 2_000_000 });
    assert_eq!(validate_new_validity_precision(&value), Ok(()));
    assert_eq!(validate_durable_node(&encoded(value)), Ok(()));
}

#[test]
fn times_are_stored_in_milliseconds_and_the_rest() {
    let at = |secs: i64, nanos: u32| projection_timestamp_parts(&Timestamp { secs, nanos });
    assert_eq!(at(1, 2_000_003), (1_002, 3));
    assert_eq!(at(-1, 999_999_999), (-1, 999_999));
    assert!(at(-1, 999_999_999) < at(0, 0));
    assert_eq!(epistemic_status(EpistemicStatus::Disputed), "disputed");
}

#[test]
fn digests_are_those_of_sha_256() {
    let hex = |bytes: [u8; 32]| {
        bytes.iter().map(|byte| format!("{byte:02x}")).collect::<Vec<_>>().concat()
    };
    assert_eq!(
        hex(digest_bytes(b"abc")),
        "ba7816bf8f01cfea414140de5dae2223b00361a396177a9cb410ff61f20015ad"
    );
    assert_eq!(
        hex(canonical_edge_digest("node", "", 1, &Vec::new())),
        "e3b0c44298fc1c149afbf4c8996fb92427ae41e4649b934ca495991b7852b855"
    );
    assert_ne!(
        canonical_edge_digest("node", "", 1, &vec!["a".into()]),
        canonical_edge_digest("node", "", 2, &vec!["a".into()])
    );
    assert_eq!(digest_from_blob(&vec![7; 32]), Some([7; 32]));
    assert_eq!(digest_from_blob(&vec![7; 31]), None);
}

#[test]
fn provenance_digests_do_not_depend_on_the_order_of_sources() {
    let facts = |seq: i64| SourceFacts {
        seq,
        event_id: event_id(seq),
        session_id: Some(SESSION.into()),
        task_id: None,
        actor: EventActor::User,
    };
    let forward = canonical_provenance_digest(&vec![facts(1), facts(2), facts(3)]);
    let backward = canonical_provenance_digest(&vec![facts(3), facts(1), facts(2)]);
    assert_eq!(forward, backward);
    assert_ne!(forward, canonical_provenance_digest(&vec![facts(1), facts(2)]));
}

#[test]
fn index_entries_are_charged_for_their_names() {
    assert_eq!(
        session_index_entry_bytes("ab", &Some("cde".into()), "f", "gh", "i"),
        Ok(INDEX_ENTRY_FIXED_BYTES + 9)
    );
}

#[test]
fn identities_are_kept_apart_by_session() {
    let identity = |seq: i64| SessionIndexIdentity {
        task_id: None,
        event_seq: seq,
        event_id: event_id(seq),
    };
    let mut index = IdentityIndex::new();
    assert!(index.insert("1:a".into(), "b".into(), identity(1)));
    assert!(index.insert("1".into(), ":ab".into(), identity(2)));
    assert!(!index.insert("1".into(), ":ab".into(), identity(3)));
    assert_eq!(index.len(), 2);
    assert_eq!(index.lookup("1:a", "b").map(|found| found.event_seq), Some(1));
    assert_eq!(index.lookup("1", ":ab").map(|found| found.event_seq), Some(2));
    assert!(index.lookup("1:", "ab").is_none());
    let copy = index.copy();
    assert!(copy.equals(&index));
    index.insert("x".into(), "y".into(), identity(4));
    assert!(!copy.equals(&index));
}

#[test]
fn a_task_audit_sees_its_own_scope() {
    let mut fixture = fixture();
    let source = append_source_event(
        &mut fixture.store,
        SESSION,
        None,
        EventActor::User,
        "audit.source",
    );
    let sources = || vec![source.event_id()];
    record_node(
        &mut fixture.store,
        SESSION,
        Some(TASK_A),
        task_node("old", sources(), Vec::new(), "old"),
    );
    record_node(
        &mut fixture.store,
        SESSION,
        Some(TASK_A),
        task_node("new", sources(), vec!["old".into()], "new"),
    );
    record_node(
        &mut fixture.store,
        SESSION,
        Some(TASK_B),
        task_node("elsewhere", sources(), Vec::new(), "elsewhere"),
    );
    fixture.projection.rebuild(&fixture.store).expect("rebuilt");
    fixture.projection.audit(&fixture.store, SESSION, Some(TASK_A)).expect("clean audit");
    assert_eq!(fixture.projection.metrics.cache_repairs, 0);
    fixture.projection.tamper(|cache| {
        let row = cache.rows.iter_mut().find(|row| row.node_id == "old");
        row.expect("row").node_json = "{}".into();
    });
    fixture.projection.audit(&fixture.store, SESSION, Some(TASK_A)).expect("repairing audit");
    assert_eq!(fixture.projection.metrics.cache_repairs, 1);
}

#[test]
fn a_session_index_shows_where_it_stands() {
    let mut fixture = fixture();
    let recorded = one_node(&mut fixture, |source| {
        session_node("indexed", vec![source], Vec::new(), "summary")
    });
    fixture.projection.rebuild(&fixture.store).expect("rebuilt");
    let shown = session_index_checkpoint(&fixture.projection.cache.state(SESSION))
        .expect("readable state")
        .expect("indexed session");
    assert_eq!(shown.through_seq, recorded.seq);
    assert_eq!(shown.through_event_id, recorded.event_id());
    assert_eq!(shown.identity_count, 1);
    assert!(shown.accounted_bytes > INDEX_ENTRY_FIXED_BYTES);
    assert_eq!(session_index_checkpoint(&None), Ok(None));
    let mut broken = fixture.projection.cache.state(SESSION).expect("state");
    broken.state_digest.pop();
    assert!(matches!(
        session_index_checkpoint(&Some(broken)),
        Err(ContextProjectionError::CorruptProjectionRow { .. })
    ));
}

#[test]
fn an_admitted_draft_replays_once_it_is_recorded() {
    let mut fixture = fixture();
    let evidence = append_source_event(
        &mut fixture.store,
        SESSION,
        None,
        EventActor::User,
        "input.received",
    );
    fixture.projection.synchronize(&fixture.store).expect("source checkpoint");
    let latest = fixture.store.latest();
    let value = session_node("draft", vec![evidence.event_id()], Vec::new(), "draft");
    let validated = fixture
        .projection
        .validate_draft(
            &fixture.store,
            latest,
            &ContextNodeDraft::session(SESSION.into(), value),
        )
        .expect("admitted draft");
    let event = context_event(
        &mut fixture.store,
        Some(validated.session_id()),
        validated.task_id().as_deref(),
        EventActor::System,
        payload(&validated.payload().node),
        Some(validated.causation_id().clone()),
        Some(validated.correlation_id().clone()),
        None,
    );
    let done = fixture.projection.synchronize(&fixture.store).expect("the draft replays");
    assert_eq!(done.checkpoint.through_seq, event.seq);
    let incremental = fixture.projection.checkpoint();
    fixture.projection.rebuild(&fixture.store).expect("rebuilt");
    assert_eq!(fixture.projection.checkpoint(), incremental);
}

fn framed(hasher: &mut Sha256, bytes: &[u8]) {
    hasher.update((bytes.len() as u64).to_be_bytes());
    hasher.update(bytes);
}

#[test]
fn digests_frame_their_parts() {
    let mut empty = Sha256::new();
    framed(&mut empty, GLOBAL_INDEX_DIGEST_DOMAIN.as_bytes());
    let prior: [u8; 32] = empty.finalize().into();
    assert_eq!(empty_state_digest(GLOBAL_INDEX_DIGEST_DOMAIN), prior);

    let mut entry = bounded_index_entry(200, -2);
    entry.task_id = Some("tâche".into());
    let mut advanced = Sha256::new();
    framed(&mut advanced, GLOBAL_INDEX_DIGEST_DOMAIN.as_bytes());
    advanced.update(prior);
    framed(&mut advanced, b"session");
    framed(&mut advanced, b"node--2");
    framed(&mut advanced, "tâche".as_bytes());
    advanced.update((-2_i64).to_be_bytes());
    framed(&mut advanced, b"event--2");
    advanced.update([1; 32]);
    advanced.update([2; 32]);
    advanced.update(1_u64.to_be_bytes());
    advanced.update(1_i64.to_be_bytes());
    framed(&mut advanced, b"event-1");
    advanced.update([3; 32]);
    advanced.update(0_u64.to_be_bytes());
    advanced.update(200_u64.to_be_bytes());
    let expected: [u8; 32] = advanced.finalize().into();
    assert_eq!(advance_state_digest(GLOBAL_INDEX_DIGEST_DOMAIN, &prior, &entry), expected);

    let mut edges = Sha256::new();
    for target in ["a", "b"] {
        framed(&mut edges, b"new");
        framed(&mut edges, b"task");
        framed(&mut edges, target.as_bytes());
        edges.update(7_i64.to_be_bytes());
    }
    let expected: [u8; 32] = edges.finalize().into();
    assert_eq!(canonical_edge_digest("new", "task", 7, &vec!["b".into(), "a".into()]), expected);

    let mut sources = Sha256::new();
    framed(&mut sources, b"ditto.context-index.provenance.v1");
    sources.update(2_u64.to_be_bytes());
    for seq in [3_i64, 9] {
        sources.update(seq.to_be_bytes());
        framed(&mut sources, event_id(seq).as_bytes());
        framed(&mut sources, SESSION.as_bytes());
        framed(&mut sources, b"");
        framed(&mut sources, b"capability");
    }
    let expected: [u8; 32] = sources.finalize().into();
    let facts = |seq: i64| SourceFacts {
        seq,
        event_id: event_id(seq),
        session_id: Some(SESSION.into()),
        task_id: None,
        actor: EventActor::Capability,
    };
    assert_eq!(canonical_provenance_digest(&vec![facts(9), facts(3)]), expected);
}

#[test]
fn an_index_entry_is_held_to_the_digests_of_what_it_indexes() {
    let mut fixture = fixture();
    one_node(&mut fixture, |source| {
        session_node("indexed", vec![source], Vec::new(), "summary")
    });
    fixture.projection.rebuild(&fixture.store).expect("rebuilt");
    let raw = fixture.projection.cache.raw_entries().remove(0);
    let text = digest_bytes(raw.projected_node_json.as_ref().expect("text").as_bytes());
    let edges = digest_bytes(b"");
    assert!(index_entry_from_digests(&raw, &text, &edges).is_ok());
    let mismatch =
        ContextProjectionError::SessionIndexIntegrityMismatch { high_water: raw.event_seq };
    assert_eq!(index_entry_from_digests(&raw, &edges, &edges), Err(mismatch));
    let mut negative = fixture.projection.cache.raw_entries().remove(0);
    negative.source_count = -1;
    assert_eq!(
        index_entry_from_digests(&negative, &text, &edges),
        Err(ContextProjectionError::CorruptProjectionRow {
            seq: negative.event_seq,
            reason: "indexed source count is negative".into(),
        })
    );
}

#[test]
fn behind_checkpoint_deleted_or_altered_supersession_target_rebuilds_before_apply() {
    for corruption in ["deleted", "altered-task", "altered-json"] {
        let mut fixture = fixture();
        let source = append_source_event(
            &mut fixture.store,
            SESSION,
            None,
            EventActor::User,
            "delta.target.source",
        );
        let target_node =
            session_node("delta-target", vec![source.event_id()], Vec::new(), "canonical target");
        let target = record_node(&mut fixture.store, SESSION, None, target_node.clone());
        fixture
            .projection
            .synchronize_through(&fixture.store, target.seq)
            .expect("checkpoint through canonical target");
        record_node(
            &mut fixture.store,
            SESSION,
            None,
            session_node(
                "delta-replacement",
                vec![source.event_id()],
                vec!["delta-target".into()],
                "canonical replacement",
            ),
        );
        fixture.projection.tamper(|cache| match corruption {
            "deleted" => cache.rows.clear(),
            "altered-task" => cache.rows[0].task_id = Some(TASK_A.into()),
            _ => {
                let mut altered = target_node.clone();
                altered.summary = "derived altered target".into();
                cache.rows[0].node_json = node_json(&altered);
            }
        });

        let snapshot = fixture
            .projection
            .verified_snapshot(&fixture.store, SESSION, None)
            .expect("target corruption must rebuild before supersession apply");
        assert_eq!(snapshot.scanned_rows(), 1, "{corruption}");
        assert_eq!(ids(snapshot.candidates()), vec!["delta-replacement"], "{corruption}");
        let restored =
            fixture.projection.cache.row(SESSION, "delta-target").expect("target restored");
        assert_eq!(restored.task_id, None, "{corruption}");
        let restored = read_json(&restored.node_json).expect("restored target JSON");
        assert_eq!(restored.summary, "canonical target", "{corruption}");
        let edges = fixture.projection.cache.edges_from(SESSION, "delta-replacement");
        assert_eq!(edges.len(), 1, "{corruption}");
        assert_eq!(edges[0].superseded_node_id, "delta-target", "{corruption}");
    }
}

#[test]
fn behind_checkpoint_cache_only_or_altered_edges_rebuild_before_apply() {
    for corruption in ["outgoing-collision", "incoming-collision", "altered-prior-edge"] {
        let mut fixture = fixture();
        let source = append_source_event(
            &mut fixture.store,
            SESSION,
            None,
            EventActor::User,
            "delta.edge.source",
        );
        let sources = || vec![source.event_id()];
        record_node(
            &mut fixture.store,
            SESSION,
            None,
            session_node("delta-edge-target", sources(), Vec::new(), "edge target"),
        );
        let superseded_id = if corruption == "altered-prior-edge" {
            record_node(
                &mut fixture.store,
                SESSION,
                None,
                session_node(
                    "delta-edge-prior",
                    sources(),
                    vec!["delta-edge-target".into()],
                    "prior replacement",
                ),
            );
            "delta-edge-prior"
        } else {
            "delta-edge-target"
        };
        let before = fixture.store.latest();
        fixture
            .projection
            .synchronize_through(&fixture.store, before)
            .expect("checkpoint before next edge");
        let replacement = record_node(
            &mut fixture.store,
            SESSION,
            None,
            session_node(
                "delta-edge-next",
                sources(),
                vec![superseded_id.into()],
                "next replacement",
            ),
        );
        let edge = |superseding: &str, superseded: &str, event_seq: i64| Edge {
            session_id: SESSION.to_owned(),
            task_key: String::new(),
            superseding: superseding.to_owned(),
            superseded: superseded.to_owned(),
            event_seq,
        };
        fixture.projection.tamper(|cache| match corruption {
            "outgoing-collision" => {
                cache.edges.push(edge("delta-edge-next", "delta-edge-target", replacement.seq));
            }
            "incoming-collision" => {
                let seq = replacement.seq + 10_000;
                cache.edges.push(edge("cache-only-superseder", "delta-edge-next", seq));
            }
            _ => cache.edges[0].superseded = "cache-altered-target".into(),
        });

        let snapshot = fixture
            .projection
            .verified_snapshot(&fixture.store, SESSION, None)
            .expect("edge corruption must rebuild before apply");
        assert_eq!(ids(snapshot.candidates()), vec!["delta-edge-next"], "{corruption}");
        assert!(fixture.projection.cache.edges.iter().all(|edge| {
            !edge.superseding.starts_with("cache-") && !edge.superseded.starts_with("cache-")
        }));
        let next = fixture.projection.cache.edges_from(SESSION, "delta-edge-next");
        assert_eq!(next.len(), 1, "{corruption}");
        assert_eq!(next[0].superseded_node_id, superseded_id, "{corruption}");
    }
}

#[test]
fn canonical_delta_failures_win_over_masking_cache_and_unrelated_requested_scope() {
    {
        let mut fixture = fixture();
        let source = append_source_event(
            &mut fixture.store,
            SESSION,
            None,
            EventActor::User,
            "delta.duplicate.source",
        );
        let original = record_node(
            &mut fixture.store,
            SESSION,
            None,
            session_node("masked-duplicate", vec![source.event_id()], Vec::new(), "original"),
        );
        fixture
            .projection
            .synchronize_through(&fixture.store, original.seq)
            .expect("duplicate prefix sync");
        record_node(
            &mut fixture.store,
            SESSION,
            None,
            session_node("masked-duplicate", vec![source.event_id()], Vec::new(), "duplicate"),
        );
        fixture.projection.tamper(|cache| cache.rows.clear());
        let error = fixture
            .projection
            .verified_snapshot(&fixture.store, "unrelated-request-session", None)
            .expect_err("deleted cache row cannot authorize a canonical duplicate");
        assert!(matches!(
            error,
            ContextProjectionError::DuplicateNodeIdentity { event_id, seq, .. }
                if event_id == original.event_id() && seq == original.seq
        ));
        assert_eq!(fixture.projection.checkpoint().through_seq, original.seq);
        assert!(
            fixture.projection.cache.rows.is_empty(),
            "canonical failure must not consume the rebuild budget"
        );
    }

    {
        let mut fixture = fixture();
        let source = append_source_event(
            &mut fixture.store,
            SESSION,
            None,
            EventActor::User,
            "delta.missing.source",
        );
        fixture
            .projection
            .synchronize_through(&fixture.store, source.seq)
            .expect("missing-target prefix sync");
        let invalid = record_node(
            &mut fixture.store,
            SESSION,
            None,
            session_node(
                "masked-missing-replacement",
                vec![source.event_id()],
                vec!["masked-missing-target".into()],
                "invalid missing target",
            ),
        );
        let fake_target = session_node(
            "masked-missing-target",
            vec![source.event_id()],
            Vec::new(),
            "cache-only target",
        );
        fixture.projection.tamper(|cache| {
            let seq = invalid.seq + 10_000;
            cache.rows.push(ghost_row(SESSION, &fake_target, seq, "masked-cache-target-event"));
        });
        let error = fixture
            .projection
            .verified_snapshot(&fixture.store, "unrelated-request-session", None)
            .expect_err("cache-only target cannot authorize canonical missing supersession");
        assert!(matches!(
            error,
            ContextProjectionError::MissingSupersededNode { node_id, superseded_id }
                if node_id == "masked-missing-replacement"
                    && superseded_id == "masked-missing-target"
        ));
        assert_eq!(fixture.projection.checkpoint().through_seq, source.seq);
        assert!(fixture.projection.cache.row(SESSION, "masked-missing-target").is_some());
    }

    {
        let mut fixture = fixture();
        let source = append_source_event(
            &mut fixture.store,
            SESSION,
            None,
            EventActor::User,
            "delta.scope.source",
        );
        let target = record_node(
            &mut fixture.store,
            SESSION,
            None,
            session_node(
                "masked-cross-scope-target",
                vec![source.event_id()],
                Vec::new(),
                "session target",
            ),
        );
        fixture
            .projection
            .synchronize_through(&fixture.store, target.seq)
            .expect("cross-scope prefix sync");
        record_node(
            &mut fixture.store,
            SESSION,
            Some(TASK_A),
            task_node(
                "masked-cross-scope-replacement",
                vec![source.event_id()],
                vec!["masked-cross-scope-target".into()],
                "task replacement",
            ),
        );
        fixture.projection.tamper(|cache| cache.rows[0].task_id = Some(TASK_A.into()));
        let error = fixture
            .projection
            .verified_snapshot(&fixture.store, "unrelated-request-session", None)
            .expect_err("altered cache scope cannot authorize cross-scope supersession");
        assert!(matches!(
            error,
            ContextProjectionError::SupersessionScopeMismatch { node_id, superseded_id }
                if node_id == "masked-cross-scope-replacement"
                    && superseded_id == "masked-cross-scope-target"
        ));
        assert_eq!(fixture.projection.checkpoint().through_seq, target.seq);
        assert_eq!(fixture.projection.cache.rows[0].task_id.as_deref(), Some(TASK_A));
    }
}

#[test]
fn a_malformed_delta_is_reported_before_the_cache_is_repaired() {
    let mut fixture = fixture();
    let prefix = noise(&mut fixture.store, Some(SESSION), None);
    fixture
        .projection
        .synchronize_through(&fixture.store, prefix.seq)
        .expect("malformed prefix sync");
    let malformed = context_event(
        &mut fixture.store,
        Some(SESSION),
        None,
        EventActor::System,
        parse("{\"node\":{\"id\":\"malformed-delta\"}}"),
        None,
        Some(SESSION.into()),
        None,
    );
    let ghost = session_node(
        "malformed-occupancy",
        vec![prefix.event_id()],
        Vec::new(),
        "malformed occupancy",
    );
    fixture.projection.tamper(|cache| {
        cache.rows.push(ghost_row(
            "cache-session",
            &ghost,
            malformed.seq,
            "malformed-cache-event",
        ));
    });
    let error = fixture
        .projection
        .verified_snapshot(&fixture.store, "unrelated-request-session", None)
        .expect_err("malformed canonical event must win before cache repair");
    assert!(matches!(
        error,
        ContextProjectionError::MalformedPayload { seq, .. } if seq == malformed.seq
    ));
    assert_eq!(fixture.projection.checkpoint().through_seq, prefix.seq);
    assert!(fixture.projection.cache.row("cache-session", "malformed-occupancy").is_some());
}

#[test]
fn incremental_reopen_deleted_cache_and_full_rebuild_are_equivalent() {
    let mut fixture = fixture();
    let source = append_source_event(
        &mut fixture.store,
        SESSION,
        None,
        EventActor::User,
        "input.received",
    );
    record_node(
        &mut fixture.store,
        SESSION,
        None,
        session_node("alpha", vec![source.event_id()], Vec::new(), "alpha deploy"),
    );
    noise(&mut fixture.store, Some(SESSION), None);
    let first_high_water = fixture.store.latest();
    fixture
        .projection
        .synchronize_through(&fixture.store, first_high_water)
        .expect("initial synchronization");

    let beta = record_node(
        &mut fixture.store,
        SESSION,
        None,
        session_node("beta", vec![source.event_id()], Vec::new(), "beta inspect"),
    );
    let incremental_sync =
        fixture.projection.synchronize(&fixture.store).expect("incremental synchronization");
    assert_eq!(incremental_sync.checkpoint.through_seq, beta.seq);
    let incremental = fixture.projection.capture(SESSION, None).expect("incremental snapshot");
    assert_eq!(ids(incremental.candidates()), vec!["alpha", "beta"]);

    let mut reopened = Projection::new();
    reopened.cache = fixture.projection.cache.clone();
    reopened.synchronize(&fixture.store).expect("reopened");
    let reopened_result = reopened.capture(SESSION, None).expect("reopened snapshot");
    assert_eq!(reopened_result.checkpoint(), &reopened.checkpoint());
    assert_eq!(ids(incremental.candidates()), ids(reopened_result.candidates()));
    assert_eq!(incremental.scanned_rows(), reopened_result.scanned_rows());

    let mut deleted = Projection::new();
    deleted.synchronize(&fixture.store).expect("deleted cache");
    let deleted_result = deleted.capture(SESSION, None).expect("deleted-cache snapshot");
    assert_eq!(deleted_result.checkpoint().through_seq, beta.seq);
    let full_sync = deleted.rebuild(&fixture.store).expect("full rebuild");
    assert!(full_sync.rebuilt);
    let full_result = deleted.capture(SESSION, None).expect("full-rebuild snapshot");

    assert_eq!(deleted_result.checkpoint(), full_result.checkpoint());
    assert_eq!(incremental.checkpoint(), full_result.checkpoint());
    assert_eq!(ids(incremental.candidates()), ids(deleted_result.candidates()));
    assert_eq!(ids(deleted_result.candidates()), ids(full_result.candidates()));
    assert_eq!(incremental.scanned_rows(), full_result.scanned_rows());
}

/// What a draft of that node is refused with, at the journal's high-water.
fn refused_draft(fixture: &mut Fixture, value: ContextNode) -> ContextProjectionError {
    let latest = fixture.store.latest();
    fixture
        .projection
        .validate_draft(
            &fixture.store,
            latest,
            &ContextNodeDraft::session(SESSION.into(), value),
        )
        .expect_err("the draft is refused")
}

#[test]
fn canonical_cache_corruption_is_rebuilt_before_live_draft_admission() {
    let duplicate_of = |committed: &Stored, node_id: &str| {
        ContextProjectionError::DuplicateNodeIdentity {
            session_id: SESSION.into(),
            node_id: node_id.into(),
            event_id: committed.event_id(),
            seq: committed.seq,
        }
    };

    for case in ["deleted-relevant", "altered-relevant"] {
        let mut fixture = fixture();
        let source = append_source_event(
            &mut fixture.store,
            SESSION,
            None,
            EventActor::User,
            "input.received",
        );
        let canonical = session_node(case, vec![source.event_id()], Vec::new(), "canonical summary");
        let committed = record_node(&mut fixture.store, SESSION, None, canonical.clone());
        fixture.projection.synchronize(&fixture.store).expect("initial sync");
        let before = fixture.projection.checkpoint();
        fixture.projection.tamper(|cache| {
            if case == "deleted-relevant" {
                cache.rows.clear();
            } else {
                let mut altered = canonical.clone();
                altered.summary = "cache-only altered summary".into();
                cache.rows[0].node_json = node_json(&altered);
            }
        });

        let draft = session_node(
            case,
            vec![source.event_id()],
            Vec::new(),
            "retry with a different payload",
        );
        assert_eq!(refused_draft(&mut fixture, draft.clone()), duplicate_of(&committed, case));
        assert_eq!(fixture.projection.checkpoint(), before);
        let synchronized = fixture.projection.synchronize(&fixture.store).expect("verify repair");
        assert!(!synchronized.rebuilt);
        let restored = fixture.projection.capture(SESSION, None).expect("restored row");
        assert_eq!(ids(restored.candidates()), vec![case]);
        assert_eq!(restored.candidates()[0].summary, "canonical summary");
        let latest = fixture.store.latest();
        let identity = fixture
            .projection
            .lookup(&fixture.store, latest, SESSION, case)
            .expect("restored identity")
            .expect("canonical identity");
        assert_eq!(identity.event_id, committed.event_id());
        assert_eq!(identity.event_seq, committed.seq);
        assert_eq!(refused_draft(&mut fixture, draft), duplicate_of(&committed, case));
    }

    {
        let mut fixture = fixture();
        let source = append_source_event(
            &mut fixture.store,
            SESSION,
            None,
            EventActor::User,
            "input.received",
        );
        let committed = record_node(
            &mut fixture.store,
            SESSION,
            None,
            session_node("existing-target", vec![source.event_id()], Vec::new(), "existing target"),
        );
        fixture.projection.synchronize(&fixture.store).expect("initial cache-only-target sync");
        let before = fixture.projection.checkpoint();
        let fake_target = session_node(
            "cache-only-target",
            vec![source.event_id()],
            Vec::new(),
            "cache-only target",
        );
        fixture.projection.tamper(|cache| {
            let seq = committed.seq + 10_000;
            cache.rows.push(ghost_row(SESSION, &fake_target, seq, "cache-only-event"));
        });
        let draft = session_node(
            "new-superseding-cache-only",
            vec![source.event_id()],
            vec!["cache-only-target".into()],
            "new superseding draft",
        );
        assert_eq!(
            refused_draft(&mut fixture, draft),
            ContextProjectionError::MissingSupersededNode {
                node_id: "new-superseding-cache-only".into(),
                superseded_id: "cache-only-target".into(),
            }
        );
        assert_eq!(fixture.projection.checkpoint(), before);
        let synchronized = fixture.projection.synchronize(&fixture.store).expect("verify repair");
        assert!(!synchronized.rebuilt);
        let repaired = fixture.projection.capture(SESSION, None).expect("snapshot");
        assert_eq!(ids(repaired.candidates()), vec!["existing-target"]);
        let latest = fixture.store.latest();
        assert!(fixture
            .projection
            .lookup(&fixture.store, latest, SESSION, "cache-only-target")
            .expect("cache-only identity lookup")
            .is_none());
    }

    for outgoing in [false, true] {
        let mut fixture = fixture();
        let source = append_source_event(
            &mut fixture.store,
            SESSION,
            None,
            EventActor::User,
            "input.received",
        );
        let target = record_node(
            &mut fixture.store,
            SESSION,
            None,
            session_node("edge-target", vec![source.event_id()], Vec::new(), "canonical target"),
        );
        let replacement = record_node(
            &mut fixture.store,
            SESSION,
            None,
            session_node(
                "edge-replacement",
                vec![source.event_id()],
                vec!["edge-target".into()],
                "canonical edge replacement",
            ),
        );
        fixture.projection.synchronize(&fixture.store).expect("initial edge sync");
        let before = fixture.projection.checkpoint();
        let (superseding, superseded) = if outgoing {
            ("edge-target", "ghost-target")
        } else {
            ("ghost-superseder", "edge-target")
        };
        fixture.projection.tamper(|cache| {
            cache.edges.push(Edge {
                session_id: SESSION.into(),
                task_key: String::new(),
                superseding: superseding.into(),
                superseded: superseded.into(),
                event_seq: replacement.seq,
            });
        });
        let draft =
            session_node("edge-target", vec![source.event_id()], Vec::new(), "retry edge target");
        assert_eq!(refused_draft(&mut fixture, draft), duplicate_of(&target, "edge-target"));
        assert_eq!(fixture.projection.checkpoint(), before);
        let repaired = fixture.projection.capture(SESSION, None).expect("snapshot after repair");
        assert_eq!(ids(repaired.candidates()), vec!["edge-replacement"]);
        let edges = &fixture.projection.cache.edges;
        assert_eq!(edges.len(), 1);
        assert_eq!(edges[0].superseding, "edge-replacement");
        assert_eq!(edges[0].superseded, "edge-target");
        let synchronized = fixture.projection.synchronize(&fixture.store).expect("verify repair");
        assert!(!synchronized.rebuilt);
    }
}

#[test]
fn context_document_and_prefilter_v2_limits_are_exact_and_never_clamped() {
    let document_node =
        session_node("id=raw", vec!["source".into()], Vec::new(), "summary\nwith=equals");
    let document = document_node.retrieval_document().expect("context retrieval document");
    assert_eq!(
        document.as_str(),
        "id=id=raw\nkind=claim\nsummary=summary\nwith=equals"
    );
    assert_eq!(
        document.as_str().len(),
        18 + document_node.id.len()
            + document_node.kind.as_str().len()
            + document_node.summary.len()
    );

    let mut maximum_node = session_node(
        "i".repeat(MAX_CONTEXT_NODE_ID_BYTES),
        vec!["source".into()],
        Vec::new(),
        "s".repeat(MAX_CONTEXT_SUMMARY_BYTES),
    );
    maximum_node.kind = ContextNodeKind::OpenQuestion;
    let maximum_document = maximum_node.retrieval_document().expect("maximum context document");
    assert_eq!(maximum_document.as_str().len(), 18 + 256 + 13 + 65_000);
    assert!(maximum_document.as_str().len() <= 65_536);

    assert!(ContextResultLimit::new(1).is_ok());
    assert_eq!(
        ContextResultLimit::new(MAX_CONTEXT_RESULT_LIMIT).expect("maximum result limit").get(),
        MAX_CONTEXT_RESULT_LIMIT
    );
    assert!(matches!(
        ContextResultLimit::new(0),
        Err(RetrievalError::ResultLimitOutOfRange { requested: 0, .. })
    ));
    assert!(matches!(
        ContextResultLimit::new(MAX_CONTEXT_RESULT_LIMIT + 1),
        Err(RetrievalError::ResultLimitOutOfRange { requested: 257, .. })
    ));

    let mut fixture = fixture();
    let source = append_source_event(
        &mut fixture.store,
        SESSION,
        None,
        EventActor::User,
        "input.received",
    );
    for index in 0..MAX_CANDIDATE_COUNT {
        record_node(
            &mut fixture.store,
            SESSION,
            None,
            session_node(
                format!("candidate-{index:05}"),
                vec![source.event_id()],
                Vec::new(),
                format!("candidate {index}"),
            ),
        );
    }
    fixture.projection.synchronize(&fixture.store).expect("exactly ten thousand candidates");
    let snapshot = fixture.projection.capture(SESSION, None).expect("ten-thousand snapshot");
    assert_eq!(snapshot.scanned_rows(), MAX_CANDIDATE_COUNT);
    assert_eq!(snapshot.candidates().len(), MAX_CANDIDATE_COUNT);
    assert_eq!(snapshot.candidates()[0].id, "candidate-00000");
    assert_eq!(snapshot.candidates()[MAX_CANDIDATE_COUNT - 1].id, "candidate-09999");

    let mut all_denied = snapshot.candidates().clone();
    for candidate in &mut all_denied {
        candidate.epistemic = EpistemicStatus::Disputed;
    }
    let rank = |candidates: Vec<ContextNode>| {
        let mut budget = RetrievalWorkBudget::with_limits(usize::MAX, 0, 0);
        let limit = ContextResultLimit::new(1).expect("prefilter result limit");
        let mut work = ContextRankingWork::take_in(
            RetrievalMode::LexicalOnly,
            false,
            candidates,
            CLOCK,
            limit,
            &mut budget,
        )?;
        while let RankingAction::Settled = work.advance(&mut budget)? {}
        Ok::<_, ContextQueryRankingError>(work.finish())
    };
    let denied_ranking =
        rank(all_denied.clone()).expect("all denied candidates are scanned before filtering");
    assert!(denied_ranking.is_empty());
    let mut extra = session_node("candidate-10000", vec!["source".into()], Vec::new(), "not present");
    extra.epistemic = EpistemicStatus::Disputed;
    all_denied.push(extra);
    assert!(matches!(
        rank(all_denied),
        Err(ContextQueryRankingError::Retrieval(RetrievalError::CandidateCountExceeded {
            actual: 10_001,
            maximum: 10_000,
        }))
    ));

    let overflow = record_node(
        &mut fixture.store,
        SESSION,
        None,
        session_node("candidate-10000", vec![source.event_id()], Vec::new(), "overflow"),
    );
    assert!(matches!(
        fixture.projection.synchronize(&fixture.store),
        Ok(sync) if sync.checkpoint.through_seq == overflow.seq
    ));
    let too_many = ContextProjectionError::Retrieval(RetrievalError::CandidateCountExceeded {
        actual: 10_001,
        maximum: 10_000,
    });
    assert_eq!(
        fixture.projection.capture(SESSION, None).expect_err("10,001st selected row must fail"),
        too_many
    );
    assert_eq!(
        fixture
            .projection
            .verified_snapshot(&fixture.store, SESSION, None)
            .expect_err("canonical 10,001st row must remain the authoritative scan error"),
        too_many
    );
    assert_eq!(check_candidate_count(MAX_CANDIDATE_COUNT), Ok(()));
    assert!(matches!(
        check_candidate_count(MAX_CANDIDATE_COUNT + 1),
        Err(RetrievalError::CandidateCountExceeded { actual: 10_001, .. })
    ));
}

#[test]
fn an_emptied_cache_knows_nothing_until_the_journal_is_replayed() {
    let mut fixture = fixture();
    one_node(&mut fixture, |source| {
        session_node("schema-node", vec![source], Vec::new(), "schema")
    });
    fixture.projection.synchronize(&fixture.store).expect("initial sync");
    let mut reopened = Projection::new();
    assert_eq!(reopened.checkpoint().through_seq, 0);
    assert!(reopened
        .lookup(&fixture.store, 0, SESSION, "schema-node")
        .expect("empty derived cache")
        .is_none());
    reopened.synchronize(&fixture.store).expect("replay");
    let snapshot = reopened.capture(SESSION, None).expect("replayed snapshot");
    assert_eq!(ids(snapshot.candidates()), vec!["schema-node"]);
    assert!(reopened
        .lookup(&fixture.store, fixture.store.latest(), SESSION, "schema-node")
        .expect("replayed identity")
        .is_some());
}

#[test]
fn a_delta_that_repeats_an_identity_does_not_extend_the_verification() {
    let update = |node: &str, seq: i64| IdentityUpdate {
        session_id: "session".to_owned(),
        node_id: node.to_owned(),
        identity: SessionIndexIdentity {
            task_id: None,
            event_seq: seq,
            event_id: format!("event-{seq}"),
        },
    };
    let mut index = IdentityIndex::new();
    extend_verification(&mut index, &vec![update("a", 1), update("b", 2)], 2).unwrap();
    assert_eq!(index.lookup("session", "b").unwrap().event_seq, 2);
    assert!(index.lookup("session", "c").is_none());
    assert_eq!(
        extend_verification(&mut index, &vec![update("c", 3), update("a", 4)], 4).unwrap_err(),
        ContextProjectionError::CorruptProjectionRow {
            seq: 4,
            reason: "session index delta repeats identity (session, a)".to_owned(),
        }
    );
    assert_eq!(index.lookup("session", "c").unwrap().event_seq, 3);
    assert_eq!(index.lookup("session", "a").unwrap().event_seq, 1);
}

#[test]
fn only_a_disagreeing_index_precludes_recovery() {
    assert!(precludes_recovery(&ContextProjectionError::SessionIndexIntegrityMismatch {
        high_water: 1
    }));
    assert!(precludes_recovery(&ContextProjectionError::CorruptProjectionRow {
        seq: 1,
        reason: "row".to_owned(),
    }));
    assert!(!precludes_recovery(&ContextProjectionError::HighWaterAhead {
        requested: 2,
        available: 1,
    }));
    assert!(advances_past(None, 0));
    assert!(advances_past(Some(1), 2));
    assert!(!advances_past(Some(2), 2));
}

#[test]
fn a_cache_without_a_checkpoint_is_corrupt() {
    assert_eq!(require_checkpoint(Some(ProjectionCheckpoint::zero())).unwrap().through_seq, 0);
    assert_eq!(
        require_checkpoint(None).unwrap_err(),
        ContextProjectionError::CorruptProjectionRow {
            seq: 0,
            reason: "singleton checkpoint is missing".to_owned(),
        }
    );
}

/// A journal with two sessions, a task, supersessions in both scopes, windows and
/// a dispute.
fn eventful_store() -> Store {
    let mut store = Store::default();
    let source = append_source_event(&mut store, SESSION, None, EventActor::User, "input.received");
    let sources = || vec![source.event_id()];
    let other =
        append_source_event(&mut store, "other-session", None, EventActor::User, "input.received");
    record_node(&mut store, SESSION, None, session_node("zeta", sources(), Vec::new(), "zeta"));
    record_node(&mut store, SESSION, None, session_node("alpha", sources(), Vec::new(), "alpha"));
    noise(&mut store, Some(SESSION), None);
    record_node(
        &mut store,
        "other-session",
        None,
        session_node("zeta", vec![other.event_id()], Vec::new(), "another zeta"),
    );
    record_node(
        &mut store,
        SESSION,
        Some("task-1"),
        task_node("step", sources(), Vec::new(), "step"),
    );
    record_node(
        &mut store,
        SESSION,
        Some("task-1"),
        task_node("next-step", sources(), vec!["step".into()], "next step"),
    );
    record_node(
        &mut store,
        SESSION,
        None,
        session_node("beta", sources(), vec!["zeta".into()], "beta"),
    );
    let mut disputed = session_node("doubtful", sources(), Vec::new(), "doubtful");
    disputed.epistemic = EpistemicStatus::Disputed;
    record_node(&mut store, SESSION, None, disputed);
    let mut closed = session_node("closed", sources(), Vec::new(), "closed");
    closed.valid_until = Some(CLOCK);
    record_node(&mut store, SESSION, None, closed);
    let mut opened = session_node("opened", sources(), Vec::new(), "opened");
    opened.valid_from = Some(CLOCK);
    record_node(&mut store, SESSION, None, opened);
    noise(&mut store, None, None);
    store
}

#[test]
fn every_synchronization_finishes_at_the_high_water_it_was_asked_for() {
    let store = eventful_store();
    let mut followed = Projection::new();
    for high_water in 0..=store.latest() {
        let done = followed.synchronize_through(&store, high_water).expect("next high-water");
        assert_eq!(done.captured_high_water, high_water);
        assert_eq!(done.checkpoint.through_seq, high_water);
        let mut rebuilt = Projection::new();
        let again = rebuilt.rebuild_through(&store, high_water, false).expect("rebuilt");
        assert!(again.rebuilt);
        assert_eq!(again.captured_high_water, high_water);
        assert_eq!(again.checkpoint, done.checkpoint);
    }
}

#[test]
fn a_rebuilt_projection_gives_the_same_snapshots_of_the_live_nodes() {
    let store = eventful_store();
    let mut followed = Projection::new();
    for high_water in 0..=store.latest() {
        followed.synchronize_through(&store, high_water).expect("followed");
    }
    let mut rebuilt = Projection::new();
    rebuilt.rebuild(&store).expect("rebuilt");
    assert_eq!(followed.checkpoint(), rebuilt.checkpoint());
    let scopes: [(&str, Option<&str>, &[&str], &[&str]); 4] = [
        (
            SESSION,
            None,
            &["alpha", "beta", "doubtful", "closed", "opened"],
            &["alpha", "beta", "opened"],
        ),
        (
            SESSION,
            Some("task-1"),
            &["alpha", "next-step", "beta", "doubtful", "closed", "opened"],
            &["alpha", "beta", "next-step", "opened"],
        ),
        ("other-session", None, &["zeta"], &["zeta"]),
        ("no-session", None, &[], &[]),
    ];
    for (session, task, live, active) in scopes {
        let first = followed.capture(session, task).expect("followed snapshot");
        let second = rebuilt.capture(session, task).expect("rebuilt snapshot");
        assert_eq!(ids(first.candidates()), live);
        assert_eq!(ids(second.candidates()), live);
        assert_eq!(first.scanned_rows(), second.scanned_rows());
        assert_eq!(first.checkpoint(), second.checkpoint());
        let first = followed.verified_snapshot(&store, session, task).expect("followed");
        let second = rebuilt.verified_snapshot(&store, session, task).expect("rebuilt");
        assert_eq!(ids(first.candidates()), active);
        assert_eq!(ids(second.candidates()), active);
        assert_eq!(first.checkpoint(), second.checkpoint());
    }
}
