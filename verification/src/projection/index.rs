//! The compact index of recorded identities, and its verification.

use vstd::prelude::*;
use vstd::utf8::*;

use crate::context::node::ContextNode;
use crate::context::ranking::{MAX_CONTEXT_SOURCE_EVENT_IDS, MAX_CONTEXT_SUPERSEDES};
use crate::projection::budget::{attempted_sum, checked_bounded_sum, refuses_count};
use crate::projection::digest::{
    advance_state_digest, advanced_digest, digest_bytes, digest_from_blob, digest_text, edge_bytes,
    empty_digest, empty_state_digest, push_edge, same_digest, sha256_of, IndexEntryModel,
    SessionIndexEntry, SESSION_INDEX_DIGEST_DOMAIN,
};
use crate::projection::durable::{epistemic_status, status_name, timestamp_parts};
use crate::projection::error::ContextProjectionError;
use crate::text::{
    byte_len, contains_text, copy_optional_text, joined, optional_text, same_optional_text,
    same_text, utf8_len,
};
use crate::time::Timestamp;

verus! {

/// Maximum immutable context identities retained for one session index.
pub const MAX_SESSION_INDEX_IDENTITIES: u64 = 65_536;

/// Maximum accounted bytes retained for one session index.
pub const MAX_SESSION_INDEX_BYTES: u64 = 268_435_456;

/// The bytes of an entry besides its texts: five numbers and three digests.
pub const INDEX_ENTRY_FIXED_BYTES: u64 = 136;

/// The running state of one session's index.
#[derive(Debug, PartialEq, Eq)]
pub struct SessionIndexState {
    pub through_seq: i64,
    pub through_event_id: String,
    pub state_digest: [u8; 32],
    pub entry_count: u64,
    pub accounted_bytes: u64,
}

/// The model of a session's running state.
pub struct StateModel {
    pub through_seq: i64,
    pub through_event_id: Seq<char>,
    pub state_digest: Seq<u8>,
    pub entry_count: u64,
    pub accounted_bytes: u64,
}

impl View for SessionIndexState {
    type V = StateModel;

    open spec fn view(&self) -> StateModel {
        StateModel {
            through_seq: self.through_seq,
            through_event_id: self.through_event_id@,
            state_digest: self.state_digest@,
            entry_count: self.entry_count,
            accounted_bytes: self.accounted_bytes,
        }
    }
}

impl SessionIndexState {
    pub fn equals(&self, other: &SessionIndexState) -> (r: bool)
        ensures
            r == (self@ == other@),
    {
        self.through_seq == other.through_seq && same_text(
            &self.through_event_id,
            &other.through_event_id,
        ) && same_digest(&self.state_digest, &other.state_digest) && self.entry_count
            == other.entry_count && self.accounted_bytes == other.accounted_bytes
    }
}

impl Clone for SessionIndexState {
    fn clone(&self) -> (r: SessionIndexState)
        ensures
            r@ == self@,
    {
        SessionIndexState {
            through_seq: self.through_seq,
            through_event_id: self.through_event_id.clone(),
            state_digest: self.state_digest,
            entry_count: self.entry_count,
            accounted_bytes: self.accounted_bytes,
        }
    }
}

/// The accounted bytes of an entry: its fixed part and its texts.
pub open spec fn entry_size(
    session_id: Seq<char>,
    task_id: Option<Seq<char>>,
    node_id: Seq<char>,
    event_id: Seq<char>,
    causation_event_id: Seq<char>,
) -> int {
    INDEX_ENTRY_FIXED_BYTES + utf8_len(session_id) + match task_id {
        Some(t) => utf8_len(t),
        None => 0,
    } + utf8_len(node_id) + utf8_len(event_id) + utf8_len(causation_event_id)
}

/// The error refuses an entry whose size cannot be counted.
pub open spec fn refuses_entry_size(e: ContextProjectionError) -> bool {
    refuses_count(e, "session index accounted bytes"@, u64::MAX, MAX_SESSION_INDEX_BYTES)
}

/// The accounted bytes of an entry.
pub fn session_index_entry_bytes(
    session_id: &str,
    task_id: &Option<String>,
    node_id: &str,
    event_id: &str,
    causation_event_id: &str,
) -> (r: Result<u64, ContextProjectionError>)
    ensures
        ({
            let size = entry_size(
                session_id@,
                optional_text(*task_id),
                node_id@,
                event_id@,
                causation_event_id@,
            );
            if size > u64::MAX {
                r is Err && refuses_entry_size(r->Err_0)
            } else {
                r is Ok && r->Ok_0 == size
            }
        }),
{
    let task_len: usize = match task_id {
        Some(t) => byte_len(t),
        None => 0,
    };
    let total: u128 = INDEX_ENTRY_FIXED_BYTES as u128 + byte_len(session_id) as u128
        + task_len as u128 + byte_len(node_id) as u128 + byte_len(event_id) as u128 + byte_len(
        causation_event_id,
    ) as u128;
    if total > u64::MAX as u128 {
        return Err(
            ContextProjectionError::SessionIndexLimitExceeded {
                dimension: "session index accounted bytes",
                attempted: u64::MAX,
                maximum: MAX_SESSION_INDEX_BYTES,
            },
        );
    }
    Ok(total as u64)
}

/// The error reports a corrupt row.
pub open spec fn corrupt(e: ContextProjectionError, seq: i64, reason: Seq<char>) -> bool {
    &&& e is CorruptProjectionRow
    &&& e->CorruptProjectionRow_seq == seq
    &&& e->CorruptProjectionRow_reason@ == reason
}

/// The digest, count and bytes before an entry.
pub open spec fn prior_digest(prior: Option<StateModel>) -> Seq<u8> {
    match prior {
        Some(s) => s.state_digest,
        None => empty_digest(SESSION_INDEX_DIGEST_DOMAIN@),
    }
}

pub open spec fn prior_count(prior: Option<StateModel>) -> u64 {
    match prior {
        Some(s) => s.entry_count,
        None => 0,
    }
}

pub open spec fn prior_bytes(prior: Option<StateModel>) -> u64 {
    match prior {
        Some(s) => s.accounted_bytes,
        None => 0,
    }
}

/// The entry comes after the state and fits the limits of a session's index.
pub open spec fn advances(prior: Option<StateModel>, entry: IndexEntryModel) -> bool {
    &&& prior matches Some(s) ==> s.through_seq < entry.event_seq
    &&& prior_count(prior) + 1 <= MAX_SESSION_INDEX_IDENTITIES
    &&& prior_bytes(prior) + entry.accounted_bytes <= MAX_SESSION_INDEX_BYTES
}

/// The state after an entry.
pub open spec fn advanced_state(prior: Option<StateModel>, entry: IndexEntryModel) -> StateModel {
    StateModel {
        through_seq: entry.event_seq,
        through_event_id: entry.event_id,
        state_digest: advanced_digest(
            SESSION_INDEX_DIGEST_DOMAIN@,
            prior_digest(prior),
            entry,
        ),
        entry_count: (prior_count(prior) + 1) as u64,
        accounted_bytes: (prior_bytes(prior) + entry.accounted_bytes) as u64,
    }
}

/// The refusal of an entry: the sequence decides, then the count, then the
/// bytes.
pub open spec fn advance_refusal(
    prior: Option<StateModel>,
    entry: IndexEntryModel,
    e: ContextProjectionError,
) -> bool {
    if prior matches Some(s) && s.through_seq >= entry.event_seq {
        corrupt(e, entry.event_seq, "session index event sequence did not advance"@)
    } else if prior_count(prior) + 1 > MAX_SESSION_INDEX_IDENTITIES {
        refuses_count(
            e,
            "session index identities"@,
            attempted_sum(prior_count(prior), 1),
            MAX_SESSION_INDEX_IDENTITIES,
        )
    } else {
        refuses_count(
            e,
            "session index accounted bytes"@,
            attempted_sum(prior_bytes(prior), entry.accounted_bytes),
            MAX_SESSION_INDEX_BYTES,
        )
    }
}

/// The model of an optional state.
pub open spec fn state_model(state: Option<SessionIndexState>) -> Option<StateModel> {
    match state {
        Some(s) => Some(s@),
        None => None,
    }
}

/// Advances a session's state by one entry.
pub fn advance_session_index_state(
    prior: &Option<SessionIndexState>,
    entry: &SessionIndexEntry,
) -> (r: Result<SessionIndexState, ContextProjectionError>)
    ensures
        match r {
            Ok(s) => advances(state_model(*prior), entry@) && s@ == advanced_state(
                state_model(*prior),
                entry@,
            ),
            Err(e) => !advances(state_model(*prior), entry@) && advance_refusal(
                state_model(*prior),
                entry@,
                e,
            ),
        },
{
    let digest: [u8; 32];
    let count: u64;
    let bytes: u64;
    match prior {
        Some(s) => {
            if s.through_seq >= entry.event_seq {
                return Err(
                    ContextProjectionError::CorruptProjectionRow {
                        seq: entry.event_seq,
                        reason: "session index event sequence did not advance".to_owned(),
                    },
                );
            }
            digest = s.state_digest;
            count = s.entry_count;
            bytes = s.accounted_bytes;
        },
        None => {
            digest = empty_state_digest(SESSION_INDEX_DIGEST_DOMAIN);
            count = 0;
            bytes = 0;
        },
    }
    let entry_count: u64 = match checked_bounded_sum(
        count,
        1,
        "session index identities",
        MAX_SESSION_INDEX_IDENTITIES,
    ) {
        Ok(n) => n,
        Err(e) => {
            return Err(e);
        },
    };
    let accounted_bytes: u64 = match checked_bounded_sum(
        bytes,
        entry.accounted_bytes,
        "session index accounted bytes",
        MAX_SESSION_INDEX_BYTES,
    ) {
        Ok(n) => n,
        Err(e) => {
            return Err(e);
        },
    };
    Ok(
        SessionIndexState {
            through_seq: entry.event_seq,
            through_event_id: entry.event_id.clone(),
            state_digest: advance_state_digest(SESSION_INDEX_DIGEST_DOMAIN, &digest, entry),
            entry_count,
            accounted_bytes,
        },
    )
}

/// A stored supersession edge.
#[derive(Debug)]
pub struct CachedEdge {
    pub superseding_node_id: String,
    pub task_key: String,
    pub event_seq: i64,
    pub superseded_node_id: String,
}

/// The model of a stored edge.
pub struct CachedEdgeModel {
    pub superseding: Seq<char>,
    pub task_key: Seq<char>,
    pub event_seq: i64,
    pub superseded: Seq<char>,
}

impl View for CachedEdge {
    type V = CachedEdgeModel;

    open spec fn view(&self) -> CachedEdgeModel {
        CachedEdgeModel {
            superseding: self.superseding_node_id@,
            task_key: self.task_key@,
            event_seq: self.event_seq,
            superseded: self.superseded_node_id@,
        }
    }
}

impl CachedEdgeModel {
    pub open spec fn bytes(self) -> Seq<u8> {
        edge_bytes(self.superseding, self.task_key, self.event_seq, self.superseded)
    }
}

/// The models of stored edges.
pub open spec fn edges_view(edges: Seq<CachedEdge>) -> Seq<CachedEdgeModel> {
    edges.map_values(|e: CachedEdge| e@)
}

/// The bytes of stored edges, in the given order.
pub open spec fn edges_bytes(edges: Seq<CachedEdgeModel>) -> Seq<u8>
    decreases edges.len(),
{
    if edges.len() == 0 {
        Seq::empty()
    } else {
        edges_bytes(edges.drop_last()) + edges.last().bytes()
    }
}

/// The digest of stored edges, in the given order.
pub fn cached_edges_digest(edges: &Vec<CachedEdge>) -> (r: [u8; 32])
    ensures
        r@ == sha256_of(edges_bytes(edges_view(edges@))),
{
    let ghost s = edges_view(edges@);
    let mut out: Vec<u8> = Vec::new();
    let mut i: usize = 0;
    assert(out@ =~= edges_bytes(s.take(0)));
    while i < edges.len()
        invariant
            s == edges_view(edges@),
            0 <= i <= edges@.len(),
            out@ == edges_bytes(s.take(i as int)),
        decreases edges.len() - i,
    {
        let e = &edges[i];
        push_edge(
            &mut out,
            &e.superseding_node_id,
            &e.task_key,
            e.event_seq,
            &e.superseded_node_id,
        );
        assert(s.take(i + 1).drop_last() =~= s.take(i as int));
        assert(s.take(i + 1).last() == e@);
        i += 1;
    }
    assert(s.take(i as int) =~= s);
    digest_bytes(out.as_slice())
}

/// A stored index entry beside the node that it indexes. `parsed` is what
/// reading the stored node gave, and `edges` are the stored edges from it.
#[derive(Debug)]
pub struct RawSessionIndexEntry {
    pub session_id: String,
    pub node_id: String,
    pub task_id: Option<String>,
    pub event_seq: i64,
    pub event_id: String,
    pub node_digest: Vec<u8>,
    pub provenance_digest: Vec<u8>,
    pub source_count: i64,
    pub causation_seq: i64,
    pub causation_event_id: String,
    pub supersession_digest: Vec<u8>,
    pub supersession_count: i64,
    pub accounted_bytes: i64,
    pub projected_node_id: Option<String>,
    pub projected_task_id: Option<String>,
    pub projected_event_seq: Option<i64>,
    pub projected_event_id: Option<String>,
    pub projected_node_json: Option<String>,
    pub projected_epistemic_status: Option<String>,
    pub projected_valid_from_millis: Option<i64>,
    pub projected_valid_from_submillis_nanos: Option<i64>,
    pub projected_valid_until_millis: Option<i64>,
    pub projected_valid_until_submillis_nanos: Option<i64>,
    pub parsed: Result<ContextNode, String>,
    pub edges: Vec<CachedEdge>,
}

/// The columns hold the parts of the time.
pub open spec fn columns_hold(
    t: Option<Timestamp>,
    millis: Option<i64>,
    submillis: Option<i64>,
) -> bool {
    match t {
        None => millis is None && submillis is None,
        Some(v) => {
            let (a, b) = timestamp_parts(v);
            &&& millis matches Some(m) && m == a
            &&& submillis matches Some(n) && n == b
        },
    }
}

fn check_columns(t: &Option<Timestamp>, millis: Option<i64>, submillis: Option<i64>) -> (r: bool)
    ensures
        r == columns_hold(*t, millis, submillis),
{
    match t {
        None => millis.is_none() && submillis.is_none(),
        Some(v) => match (millis, submillis) {
            (Some(m), Some(n)) => {
                let whole: i128 = v.secs as i128 * 1000 + (v.nanos / 1_000_000) as i128;
                m as i128 == whole && n == (v.nanos % 1_000_000) as i64
            },
            _ => false,
        },
    }
}

impl RawSessionIndexEntry {
    /// The size that the entry should account for.
    pub open spec fn size(self) -> int {
        entry_size(
            self.session_id@,
            optional_text(self.task_id),
            self.node_id@,
            self.event_id@,
            self.causation_event_id@,
        )
    }

    /// The stored values have the shape that the index gives them.
    pub open spec fn readable(self) -> bool {
        &&& self.projected_node_json is Some
        &&& self.node_digest@.len() == 32
        &&& self.provenance_digest@.len() == 32
        &&& self.supersession_digest@.len() == 32
        &&& self.source_count >= 0
        &&& self.supersession_count >= 0
        &&& self.accounted_bytes >= 0
        &&& self.parsed is Ok
        &&& self.size() <= u64::MAX
    }

    /// The refusal of values that cannot be read, in a fixed order.
    pub open spec fn read_refusal(self, e: ContextProjectionError) -> bool {
        if self.projected_node_json is None {
            e == ContextProjectionError::SessionIndexIntegrityMismatch {
                high_water: self.event_seq,
            }
        } else if self.node_digest@.len() != 32 {
            corrupt(e, self.event_seq, "indexed node digest is not exactly 32 bytes"@)
        } else if self.provenance_digest@.len() != 32 {
            corrupt(e, self.event_seq, "indexed provenance digest is not exactly 32 bytes"@)
        } else if self.supersession_digest@.len() != 32 {
            corrupt(e, self.event_seq, "indexed supersession digest is not exactly 32 bytes"@)
        } else if self.source_count < 0 {
            corrupt(e, self.event_seq, "indexed source count is negative"@)
        } else if self.supersession_count < 0 {
            corrupt(e, self.event_seq, "indexed supersession count is negative"@)
        } else if self.accounted_bytes < 0 {
            corrupt(e, self.event_seq, "indexed accounted bytes are negative"@)
        } else if self.parsed is Err {
            corrupt(e, self.event_seq, self.parsed->Err_0@)
        } else {
            refuses_entry_size(e)
        }
    }

    /// The stored node is the indexed one: its row, its text, its status and its
    /// window agree with the index.
    pub open spec fn row_agrees(self) -> bool {
        self.row_agrees_given(sha256_of(encode_utf8(self.projected_node_json->0@)))
    }

    /// The stored node is the indexed one, given the digest of its text.
    pub open spec fn row_agrees_given(self, text_digest: Seq<u8>) -> bool {
        let node = self.parsed->Ok_0@;
        &&& optional_text(self.projected_node_id) == Some(self.node_id@)
        &&& optional_text(self.projected_task_id) == optional_text(self.task_id)
        &&& self.projected_event_seq == Some(self.event_seq)
        &&& optional_text(self.projected_event_id) == Some(self.event_id@)
        &&& text_digest == self.node_digest@
        &&& optional_text(self.projected_epistemic_status) == Some(status_name(node.epistemic))
        &&& columns_hold(
            node.valid_from,
            self.projected_valid_from_millis,
            self.projected_valid_from_submillis_nanos,
        )
        &&& columns_hold(
            node.valid_until,
            self.projected_valid_until_millis,
            self.projected_valid_until_submillis_nanos,
        )
    }

    /// The stored edges and counts are those of the indexed node.
    pub open spec fn shape_agrees(self) -> bool {
        self.shape_agrees_given(sha256_of(edges_bytes(edges_view(self.edges@))))
    }

    /// The stored edges and counts are those of the indexed node, given the
    /// digest of the edges.
    pub open spec fn shape_agrees_given(self, edges_digest: Seq<u8>) -> bool {
        let node = self.parsed->Ok_0@;
        &&& edges_digest == self.supersession_digest@
        &&& self.edges@.len() == self.supersession_count
        &&& 1 <= self.source_count <= MAX_CONTEXT_SOURCE_EVENT_IDS
        &&& self.supersession_count <= MAX_CONTEXT_SUPERSEDES
        &&& node.id == self.node_id@
        &&& node.source_event_ids.len() == self.source_count
        &&& node.supersedes.len() == self.supersession_count
        &&& node.source_event_ids.contains(self.causation_event_id@)
        &&& 0 < self.causation_seq < self.event_seq
        &&& self.accounted_bytes == self.size()
    }

    /// The entry that the stored values stand for.
    pub open spec fn entry(self) -> IndexEntryModel {
        IndexEntryModel {
            session_id: self.session_id@,
            node_id: self.node_id@,
            task_id: optional_text(self.task_id),
            event_seq: self.event_seq,
            event_id: self.event_id@,
            node_digest: self.node_digest@,
            provenance_digest: self.provenance_digest@,
            source_count: self.source_count as u64,
            causation_seq: self.causation_seq,
            causation_event_id: self.causation_event_id@,
            supersession_digest: self.supersession_digest@,
            supersession_count: self.supersession_count as u64,
            accounted_bytes: self.accounted_bytes as u64,
        }
    }

    /// The stored values can be read and agree with the node they index.
    pub open spec fn verified(self) -> bool {
        self.readable() && self.row_agrees() && self.shape_agrees()
    }

    /// The refusal of a stored entry.
    pub open spec fn refusal(self, e: ContextProjectionError) -> bool {
        if !self.readable() {
            self.read_refusal(e)
        } else {
            e == ContextProjectionError::SessionIndexIntegrityMismatch {
                high_water: self.event_seq,
            }
        }
    }
}

/// Reads a stored digest.
fn read_digest(bytes: &Vec<u8>, seq: i64, label: &str) -> (r: Result<
    [u8; 32],
    ContextProjectionError,
>)
    ensures
        match r {
            Ok(d) => bytes@.len() == 32 && d@ == bytes@,
            Err(e) => bytes@.len() != 32 && corrupt(
                e,
                seq,
                label@ + " is not exactly 32 bytes"@,
            ),
        },
{
    match digest_from_blob(bytes) {
        Some(d) => Ok(d),
        None => Err(
            ContextProjectionError::CorruptProjectionRow {
                seq,
                reason: joined(label, " is not exactly 32 bytes"),
            },
        ),
    }
}

proof fn lemma_digest_labels()
    ensures
        "indexed node digest"@ + " is not exactly 32 bytes"@
            == "indexed node digest is not exactly 32 bytes"@,
        "indexed provenance digest"@ + " is not exactly 32 bytes"@
            == "indexed provenance digest is not exactly 32 bytes"@,
        "indexed supersession digest"@ + " is not exactly 32 bytes"@
            == "indexed supersession digest is not exactly 32 bytes"@,
{
    reveal_strlit("indexed node digest");
    reveal_strlit("indexed provenance digest");
    reveal_strlit("indexed supersession digest");
    reveal_strlit(" is not exactly 32 bytes");
    reveal_strlit("indexed node digest is not exactly 32 bytes");
    reveal_strlit("indexed provenance digest is not exactly 32 bytes");
    reveal_strlit("indexed supersession digest is not exactly 32 bytes");
    assert("indexed node digest"@ + " is not exactly 32 bytes"@
        =~= "indexed node digest is not exactly 32 bytes"@);
    assert("indexed provenance digest"@ + " is not exactly 32 bytes"@
        =~= "indexed provenance digest is not exactly 32 bytes"@);
    assert("indexed supersession digest"@ + " is not exactly 32 bytes"@
        =~= "indexed supersession digest is not exactly 32 bytes"@);
}

fn row_matches(
    raw: &RawSessionIndexEntry,
    node: &ContextNode,
    text_digest: &[u8; 32],
    digest: &[u8; 32],
) -> (r: bool)
    requires
        raw.parsed is Ok,
        raw.parsed->Ok_0@ == node@,
        digest@ == raw.node_digest@,
    ensures
        r == raw.row_agrees_given(text_digest@),
{
    let same_id = match &raw.projected_node_id {
        Some(s) => same_text(s, &raw.node_id),
        None => false,
    };
    let same_seq = match raw.projected_event_seq {
        Some(n) => n == raw.event_seq,
        None => false,
    };
    let same_event = match &raw.projected_event_id {
        Some(s) => same_text(s, &raw.event_id),
        None => false,
    };
    let same_status = match &raw.projected_epistemic_status {
        Some(s) => same_text(s, epistemic_status(node.epistemic)),
        None => false,
    };
    same_id && same_optional_text(&raw.projected_task_id, &raw.task_id) && same_seq && same_event
        && same_digest(text_digest, digest) && same_status && check_columns(
        &node.valid_from,
        raw.projected_valid_from_millis,
        raw.projected_valid_from_submillis_nanos,
    ) && check_columns(
        &node.valid_until,
        raw.projected_valid_until_millis,
        raw.projected_valid_until_submillis_nanos,
    )
}

fn shape_matches(
    raw: &RawSessionIndexEntry,
    node: &ContextNode,
    edges_digest: &[u8; 32],
    digest: &[u8; 32],
    size: u64,
) -> (r: bool)
    requires
        raw.parsed is Ok,
        raw.parsed->Ok_0@ == node@,
        digest@ == raw.supersession_digest@,
        raw.source_count >= 0,
        raw.supersession_count >= 0,
        raw.accounted_bytes >= 0,
        size == raw.size(),
    ensures
        r == raw.shape_agrees_given(edges_digest@),
{
    same_digest(edges_digest, digest) && raw.edges.len() as u64
        == raw.supersession_count as u64 && 1 <= raw.source_count && raw.source_count as u64
        <= MAX_CONTEXT_SOURCE_EVENT_IDS as u64 && raw.supersession_count as u64
        <= MAX_CONTEXT_SUPERSEDES as u64 && same_text(&node.id, &raw.node_id)
        && node.source_event_ids.len() as u64 == raw.source_count as u64
        && node.supersedes.len() as u64 == raw.supersession_count as u64 && contains_text(
        &node.source_event_ids,
        &raw.causation_event_id,
    ) && 0 < raw.causation_seq && raw.causation_seq < raw.event_seq && raw.accounted_bytes as u64
        == size
}

/// Verifies a stored index entry against the node that it indexes.
pub fn validated_session_index_entry(raw: &RawSessionIndexEntry) -> (r: Result<
    SessionIndexEntry,
    ContextProjectionError,
>)
    ensures
        match r {
            Ok(entry) => raw.verified() && entry@ == raw.entry(),
            Err(e) => !raw.verified() && raw.refusal(e),
        },
{
    let text_digest = match &raw.projected_node_json {
        Some(json) => digest_text(json),
        None => digest_text(""),
    };
    index_entry_from_digests(raw, &text_digest, &cached_edges_digest(&raw.edges))
}

/// Verifies a stored index entry, given the digest of the stored node's text and
/// that of the stored edges from it.
pub fn index_entry_from_digests(
    raw: &RawSessionIndexEntry,
    text_digest: &[u8; 32],
    edges_digest: &[u8; 32],
) -> (r: Result<SessionIndexEntry, ContextProjectionError>)
    ensures
        ({
            let verified = raw.readable() && raw.row_agrees_given(text_digest@)
                && raw.shape_agrees_given(edges_digest@);
            match r {
                Ok(entry) => verified && entry@ == raw.entry(),
                Err(e) => !verified && raw.refusal(e),
            }
        }),
{
    proof {
        lemma_digest_labels();
    }
    if raw.projected_node_json.is_none() {
        return Err(
            ContextProjectionError::SessionIndexIntegrityMismatch { high_water: raw.event_seq },
        );
    }
    let node_digest = match read_digest(&raw.node_digest, raw.event_seq, "indexed node digest") {
        Ok(d) => d,
        Err(e) => {
            return Err(e);
        },
    };
    let provenance_digest = match read_digest(
        &raw.provenance_digest,
        raw.event_seq,
        "indexed provenance digest",
    ) {
        Ok(d) => d,
        Err(e) => {
            return Err(e);
        },
    };
    let supersession_digest = match read_digest(
        &raw.supersession_digest,
        raw.event_seq,
        "indexed supersession digest",
    ) {
        Ok(d) => d,
        Err(e) => {
            return Err(e);
        },
    };
    if raw.source_count < 0 {
        return Err(
            ContextProjectionError::CorruptProjectionRow {
                seq: raw.event_seq,
                reason: "indexed source count is negative".to_owned(),
            },
        );
    }
    if raw.supersession_count < 0 {
        return Err(
            ContextProjectionError::CorruptProjectionRow {
                seq: raw.event_seq,
                reason: "indexed supersession count is negative".to_owned(),
            },
        );
    }
    if raw.accounted_bytes < 0 {
        return Err(
            ContextProjectionError::CorruptProjectionRow {
                seq: raw.event_seq,
                reason: "indexed accounted bytes are negative".to_owned(),
            },
        );
    }
    let node = match &raw.parsed {
        Ok(n) => n,
        Err(reason) => {
            return Err(
                ContextProjectionError::CorruptProjectionRow {
                    seq: raw.event_seq,
                    reason: reason.clone(),
                },
            );
        },
    };
    let size: u64 = match session_index_entry_bytes(
        &raw.session_id,
        &raw.task_id,
        &raw.node_id,
        &raw.event_id,
        &raw.causation_event_id,
    ) {
        Ok(n) => n,
        Err(e) => {
            return Err(e);
        },
    };
    if !row_matches(raw, node, text_digest, &node_digest) || !shape_matches(
        raw,
        node,
        edges_digest,
        &supersession_digest,
        size,
    ) {
        return Err(
            ContextProjectionError::SessionIndexIntegrityMismatch { high_water: raw.event_seq },
        );
    }
    Ok(
        SessionIndexEntry {
            session_id: raw.session_id.clone(),
            node_id: raw.node_id.clone(),
            task_id: copy_optional_text(&raw.task_id),
            event_seq: raw.event_seq,
            event_id: raw.event_id.clone(),
            node_digest,
            provenance_digest,
            source_count: raw.source_count as u64,
            causation_seq: raw.causation_seq,
            causation_event_id: raw.causation_event_id.clone(),
            supersession_digest,
            supersession_count: raw.supersession_count as u64,
            accounted_bytes: raw.accounted_bytes as u64,
        },
    )
}

/// A state as it is stored.
#[derive(Debug)]
pub struct RawSessionIndexState {
    pub session_id: String,
    pub through_seq: i64,
    pub through_event_id: String,
    pub state_digest: Vec<u8>,
    pub entry_count: i64,
    pub accounted_bytes: i64,
}

impl RawSessionIndexState {
    /// The stored state can be read.
    pub open spec fn readable(self) -> bool {
        self.entry_count >= 0 && self.accounted_bytes >= 0 && self.state_digest@.len() == 32
    }

    /// The state that the stored values stand for.
    pub open spec fn state(self) -> StateModel {
        StateModel {
            through_seq: self.through_seq,
            through_event_id: self.through_event_id@,
            state_digest: self.state_digest@,
            entry_count: self.entry_count as u64,
            accounted_bytes: self.accounted_bytes as u64,
        }
    }

    /// The refusal of a state that cannot be read.
    pub open spec fn refusal(self, e: ContextProjectionError) -> bool {
        if self.entry_count < 0 {
            corrupt(e, self.through_seq, "session index entry count is negative"@)
        } else if self.accounted_bytes < 0 {
            corrupt(e, self.through_seq, "session index accounted bytes are negative"@)
        } else {
            corrupt(
                e,
                self.through_seq,
                "session index state digest is not exactly 32 bytes"@,
            )
        }
    }
}

/// Reads a stored state.
pub fn read_session_index_state(raw: &RawSessionIndexState) -> (r: Result<
    SessionIndexState,
    ContextProjectionError,
>)
    ensures
        match r {
            Ok(s) => raw.readable() && s@ == raw.state(),
            Err(e) => !raw.readable() && raw.refusal(e),
        },
{
    if raw.entry_count < 0 {
        return Err(
            ContextProjectionError::CorruptProjectionRow {
                seq: raw.through_seq,
                reason: "session index entry count is negative".to_owned(),
            },
        );
    }
    if raw.accounted_bytes < 0 {
        return Err(
            ContextProjectionError::CorruptProjectionRow {
                seq: raw.through_seq,
                reason: "session index accounted bytes are negative".to_owned(),
            },
        );
    }
    proof {
        reveal_strlit("session index state digest");
        reveal_strlit(" is not exactly 32 bytes");
        reveal_strlit("session index state digest is not exactly 32 bytes");
        assert("session index state digest"@ + " is not exactly 32 bytes"@
            =~= "session index state digest is not exactly 32 bytes"@);
    }
    match read_digest(&raw.state_digest, raw.through_seq, "session index state digest") {
        Ok(d) => Ok(
            SessionIndexState {
                through_seq: raw.through_seq,
                through_event_id: raw.through_event_id.clone(),
                state_digest: d,
                entry_count: raw.entry_count as u64,
                accounted_bytes: raw.accounted_bytes as u64,
            },
        ),
        Err(e) => Err(e),
    }
}

/// Where a session's index stands.
#[derive(Debug, PartialEq, Eq)]
pub struct SessionIndexCheckpoint {
    pub through_seq: i64,
    pub through_event_id: String,
    pub canonical_state_digest: [u8; 32],
    pub identity_count: u64,
    pub accounted_bytes: u64,
}

/// The checkpoint shows the state of a session's index.
pub open spec fn shows_state(c: SessionIndexCheckpoint, state: StateModel) -> bool {
    &&& c.through_seq == state.through_seq
    &&& c.through_event_id@ == state.through_event_id
    &&& c.canonical_state_digest@ == state.state_digest
    &&& c.identity_count == state.entry_count
    &&& c.accounted_bytes == state.accounted_bytes
}

/// Where a session's index stands, given its stored state.
pub fn session_index_checkpoint(stored: &Option<RawSessionIndexState>) -> (r: Result<
    Option<SessionIndexCheckpoint>,
    ContextProjectionError,
>)
    ensures
        match stored {
            None => r is Ok && r->Ok_0 is None,
            Some(raw) => if raw.readable() {
                r is Ok && r->Ok_0 is Some && shows_state(r->Ok_0->0, raw.state())
            } else {
                r is Err && raw.refusal(r->Err_0)
            },
        },
{
    let raw = match stored {
        Some(raw) => raw,
        None => {
            return Ok(None);
        },
    };
    match read_session_index_state(raw) {
        Err(e) => Err(e),
        Ok(state) => Ok(
            Some(
                SessionIndexCheckpoint {
                    through_seq: state.through_seq,
                    through_event_id: state.through_event_id,
                    canonical_state_digest: state.state_digest,
                    identity_count: state.entry_count,
                    accounted_bytes: state.accounted_bytes,
                },
            ),
        ),
    }
}

/// A stored entry that cannot be read is refused for what cannot be read: a missing
/// text, a digest of the wrong length, a negative count, or a text that does not
/// parse. One that can be read but disagrees is refused as a whole.
pub proof fn unreadable_entries_are_refused_for_cause(
    raw: RawSessionIndexEntry,
    e: ContextProjectionError,
)
    requires
        !raw.verified(),
        raw.refusal(e),
    ensures
        e matches ContextProjectionError::SessionIndexIntegrityMismatch { high_water } ==> high_water
            == raw.event_seq,
        e matches ContextProjectionError::CorruptProjectionRow { seq, reason } ==> seq
            == raw.event_seq && (raw.node_digest@.len() != 32 || raw.provenance_digest@.len() != 32
            || raw.supersession_digest@.len() != 32 || raw.source_count < 0
            || raw.supersession_count < 0 || raw.accounted_bytes < 0 || raw.parsed is Err),
        e is SessionIndexLimitExceeded ==> raw.size() > u64::MAX,
        e is SessionIndexIntegrityMismatch || e is CorruptProjectionRow
            || e is SessionIndexLimitExceeded,
        raw.node_digest@.len() == 32 && raw.provenance_digest@.len() == 32
            && raw.supersession_digest@.len() == 32 && raw.source_count >= 0
            && raw.supersession_count >= 0 && raw.accounted_bytes >= 0 && raw.parsed is Ok
            && raw.size() <= u64::MAX ==> e is SessionIndexIntegrityMismatch,
{
}

/// A stored state can be read where its counts are not negative and its digest has
/// 32 bytes, and is read as it stands.
pub proof fn states_are_read_as_they_stand(raw: RawSessionIndexState, c: SessionIndexCheckpoint)
    ensures
        raw.readable() <==> raw.entry_count >= 0 && raw.accounted_bytes >= 0
            && raw.state_digest@.len() == 32,
        raw.readable() ==> raw.state().through_seq == raw.through_seq
            && raw.state().through_event_id == raw.through_event_id@ && raw.state().state_digest
            == raw.state_digest@ && raw.state().entry_count == raw.entry_count
            && raw.state().accounted_bytes == raw.accounted_bytes,
        raw.readable() && shows_state(c, raw.state()) ==> c.through_seq == raw.through_seq
            && c.through_event_id@ == raw.through_event_id@ && c.canonical_state_digest@
            == raw.state_digest@ && c.identity_count == raw.entry_count && c.accounted_bytes
            == raw.accounted_bytes,
{
}

/// A verified entry is read as it stands, field by field.
pub proof fn entries_are_read_as_they_stand(raw: RawSessionIndexEntry)
    requires
        raw.verified(),
    ensures
        ({
            let e = raw.entry();
            &&& e.session_id == raw.session_id@
            &&& e.node_id == raw.node_id@
            &&& e.task_id == optional_text(raw.task_id)
            &&& e.event_seq == raw.event_seq
            &&& e.event_id == raw.event_id@
            &&& e.node_digest == raw.node_digest@
            &&& e.provenance_digest == raw.provenance_digest@
            &&& e.source_count == raw.source_count
            &&& e.causation_seq == raw.causation_seq
            &&& e.causation_event_id == raw.causation_event_id@
            &&& e.supersession_digest == raw.supersession_digest@
            &&& e.supersession_count == raw.supersession_count
            &&& e.accounted_bytes == raw.accounted_bytes
        }),
{
}

} // verus!
