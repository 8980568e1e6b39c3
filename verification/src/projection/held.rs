//! What a snapshot of a synchronized projection holds of the journal.

use vstd::prelude::*;

use crate::context::node::NodeModel;
use crate::context::ranking::identity_order;
use crate::order::{
    arranged, arranged_is_an_ordering, lemma_arranged_all, lemma_arranged_mapped,
    lemma_same_members,
};
use crate::projection::apply::sorted_edges;
use crate::projection::checkpoint::CheckpointModel;
use crate::projection::digest::{lemma_text_order, task_key_of, text_order};
use crate::projection::durable::{
    durable, scope_fault, status_name, timestamp_parts, timestamp_parts_keep_order,
};
use crate::projection::error::ContextProjectionError;
use crate::projection::index::{columns_hold, edges_view, RawSessionIndexEntry};
use crate::projection::journal::{
    identities_differ, lemma_journal_has_node, lemma_node_of_journal, nodes_of, projects,
    projections_of_one_journal_agree, reads, JournalEvent,
};
use crate::projection::load::identity_in;
use crate::projection::replay::{applied_events_are_decoded, Applied};
use crate::projection::snapshot::{
    active_outcome, active_row_fine, budget_after_rows, refuses_row_count, reports_active_row,
    reports_unsound_row, row_nodes, row_sound, snapshot_outcome, unsuperseded,
    DerivedContextSnapshot, RawProjectedRow, SnapshotModel,
};
use crate::projection::verified::captured;
use crate::retrieval::{RetrievalWorkBudget, MAX_CANDIDATE_COUNT};
use crate::text::{optional_text, text_less};
use crate::time::Timestamp;

verus! {

/// The event is recorded in that scope: in the session, and outside any task or
/// in the one asked for.
pub open spec fn event_in_scope(
    e: JournalEvent,
    session: Seq<char>,
    task: Option<Seq<char>>,
) -> bool {
    &&& e.event.session_id == Some(session)
    &&& e.event.task_id is None || e.event.task_id == task
}

/// The later event records a node that supersedes the node of the other.
pub open spec fn supersedes(later: JournalEvent, e: JournalEvent) -> bool {
    &&& later.recorded is Some
    &&& later.event.session_id == e.event.session_id
    &&& later.recorded->0.node.supersedes.contains(e.recorded->0.node.id)
}

/// Some node of the journal supersedes the event's node.
pub open spec fn superseded_in(journal: Seq<JournalEvent>, e: JournalEvent) -> bool {
    exists|k: int| 0 <= k < journal.len() && #[trigger] supersedes(journal[k], e)
}

/// The event records a node in that scope that nothing supersedes.
pub open spec fn live(
    journal: Seq<JournalEvent>,
    e: JournalEvent,
    session: Seq<char>,
    task: Option<Seq<char>>,
) -> bool {
    &&& e.recorded is Some
    &&& event_in_scope(e, session, task)
    &&& !superseded_in(journal, e)
}

/// The nodes of the first `k` events that are recorded in that scope and that
/// nothing in the journal supersedes, in the order of the journal.
pub open spec fn live_nodes(
    journal: Seq<JournalEvent>,
    k: int,
    session: Seq<char>,
    task: Option<Seq<char>>,
) -> Seq<NodeModel>
    decreases k,
{
    if k <= 0 {
        Seq::empty()
    } else if live(journal, journal[k - 1], session, task) {
        live_nodes(journal, k - 1, session, task).push(journal[k - 1].recorded->0.node)
    } else {
        live_nodes(journal, k - 1, session, task)
    }
}

/// The model of a stored node as it is read back.
pub struct StoredNode {
    pub session_id: Seq<char>,
    pub task_id: Option<Seq<char>>,
    pub node_id: Seq<char>,
    pub event_seq: i64,
    pub event_id: Seq<char>,
    pub json: Seq<char>,
    pub superseded: bool,
    pub node: NodeModel,
}

/// The model of a row that was read back and whose text was read.
pub open spec fn row_model(raw: RawProjectedRow) -> StoredNode {
    StoredNode {
        session_id: raw.session_id@,
        task_id: optional_text(raw.task_id),
        node_id: raw.node_id@,
        event_seq: raw.event_seq,
        event_id: raw.event_id@,
        json: raw.node_json@,
        superseded: raw.superseded,
        node: raw.parsed->Ok_0@,
    }
}

/// Edge `t` of one stored node leads to the other, in its session and task.
pub open spec fn edge_to(from: RawSessionIndexEntry, t: int, r: RawSessionIndexEntry) -> bool {
    &&& 0 <= t < edges_view(from.edges@).len()
    &&& from.session_id@ == r.session_id@
    &&& edges_view(from.edges@)[t].task_key == task_key_of(optional_text(r.projected_task_id))
    &&& edges_view(from.edges@)[t].superseded == r.projected_node_id->0@
}

/// An edge of the cache leads to the stored node.
pub open spec fn edge_exists(rows: Seq<RawSessionIndexEntry>, r: RawSessionIndexEntry) -> bool {
    exists|j: int, t: int| 0 <= j < rows.len() && #[trigger] edge_to(rows[j], t, r)
}

/// The stored node as it is read back.
pub open spec fn stored_node(rows: Seq<RawSessionIndexEntry>, r: RawSessionIndexEntry) ->
    StoredNode {
    StoredNode {
        session_id: r.session_id@,
        task_id: optional_text(r.projected_task_id),
        node_id: r.projected_node_id->0@,
        event_seq: r.projected_event_seq->0,
        event_id: r.projected_event_id->0@,
        json: r.projected_node_json->0@,
        superseded: edge_exists(rows, r),
        node: r.parsed->Ok_0@,
    }
}

/// The stored node is in that scope.
pub open spec fn row_in_scope(
    r: RawSessionIndexEntry,
    session: Seq<char>,
    task: Option<Seq<char>>,
) -> bool {
    &&& r.session_id@ == session
    &&& optional_text(r.projected_task_id) is None || optional_text(r.projected_task_id) == task
}

/// The stored nodes of a scope among the first `k`, in the order of their events.
pub open spec fn scope_nodes(
    rows: Seq<RawSessionIndexEntry>,
    k: int,
    session: Seq<char>,
    task: Option<Seq<char>>,
) -> Seq<StoredNode>
    decreases k,
{
    if k <= 0 {
        Seq::empty()
    } else if row_in_scope(rows[k - 1], session, task) {
        scope_nodes(rows, k - 1, session, task).push(stored_node(rows, rows[k - 1]))
    } else {
        scope_nodes(rows, k - 1, session, task)
    }
}

/// The first nodes of a list, at most one more than a query may look at.
pub open spec fn limited(list: Seq<StoredNode>) -> Seq<StoredNode> {
    if list.len() > MAX_CANDIDATE_COUNT + 1 {
        list.take(MAX_CANDIDATE_COUNT + 1)
    } else {
        list
    }
}

/// The rows are those stored nodes, and reading their texts gave the nodes.
pub open spec fn read_back(out: Seq<RawProjectedRow>, list: Seq<StoredNode>) -> bool {
    &&& forall|i: int| 0 <= i < out.len() ==> (#[trigger] out[i]).parsed is Ok
    &&& out.map_values(|raw: RawProjectedRow| row_model(raw)) == list
}

/// The rows are what the cache holds in that scope.
pub open spec fn scope_read(
    rows: Seq<RawSessionIndexEntry>,
    session: Seq<char>,
    task: Option<Seq<char>>,
    out: Seq<RawProjectedRow>,
) -> bool {
    read_back(out, limited(scope_nodes(rows, rows.len() as int, session, task)))
}

/// Entry `i` is stored as its event of the journal has it.
proof fn lemma_stored_as_recorded(
    journal: Seq<JournalEvent>,
    steps: Seq<Applied>,
    rows: Seq<RawSessionIndexEntry>,
    checkpoint: CheckpointModel,
    i: int,
)
    requires
        projects(journal, steps, rows, checkpoint),
        0 <= i < rows.len(),
    ensures
        ({
            let (r, e) = (rows[i], nodes_of(journal)[i]);
            let node = e.recorded->0.node;
            &&& e.recorded is Some
            &&& e.event.session_id == Some(r.session_id@)
            &&& e.event.task_id == optional_text(r.projected_task_id)
            &&& optional_text(r.task_id) == optional_text(r.projected_task_id)
            &&& r.projected_node_id is Some
            &&& r.projected_node_id->0@ == node.id
            &&& r.node_id@ == node.id
            &&& r.projected_event_seq == Some(e.event.seq)
            &&& r.projected_event_id is Some
            &&& r.projected_event_id->0@ == e.event.event_id
            &&& r.projected_node_json is Some
            &&& r.projected_node_json->0@ == e.recorded->0.json
            &&& r.parsed is Ok
            &&& r.parsed->Ok_0@ == node
            &&& durable(node)
            &&& scope_fault(r.session_id@, e.event.task_id, node.scope) is None
            &&& edges_view(r.edges@) == sorted_edges(r.entry(), node.supersedes)
            &&& identity_in(rows.take(i), r.session_id@, node.id) is None
            &&& forall|s: int|
                0 <= s < node.supersedes.len() ==> {
                    let found = identity_in(
                        rows.take(i),
                        r.session_id@,
                        #[trigger] node.supersedes[s],
                    );
                    found is Some && found->0.task_id == e.event.task_id
                }
        }),
{
    let (a, e, r) = (steps[i], nodes_of(journal)[i], rows[i]);
    assert(reads(a, e, journal));
    assert(a.extends(rows.take(i), r));
    let v = applied_events_are_decoded(a, rows.take(i), r);
    assert(r.entry().session_id == v.session_id@);
    assert(r.entry().node_id == v.node@.id);
    assert(r.entry().task_id == optional_text(v.task_id));
    assert(a.parsed->Ok_0@.scope == a.parsed->Ok_0.scope);
}

/// A node of a session is stored once.
proof fn lemma_stored_once(
    rows: Seq<RawSessionIndexEntry>,
    i: int,
    j: int,
)
    requires
        0 <= i < j < rows.len(),
        identity_in(rows.take(j), rows[j].session_id@, rows[j].node_id@) is None,
    ensures
        !(rows[i].session_id@ == rows[j].session_id@ && rows[i].node_id@ == rows[j].node_id@),
{
    lemma_identity_found(rows.take(j), i, rows[j].session_id@, rows[j].node_id@);
    assert(rows.take(j)[i] == rows[i]);
}

proof fn lemma_identity_found(
    rows: Seq<RawSessionIndexEntry>,
    i: int,
    session: Seq<char>,
    node: Seq<char>,
)
    requires
        0 <= i < rows.len(),
    ensures
        rows[i].session_id@ == session && rows[i].node_id@ == node ==> identity_in(
            rows,
            session,
            node,
        ) is Some,
    decreases rows.len(),
{
    if i < rows.len() - 1 {
        lemma_identity_found(rows.drop_last(), i, session, node);
    }
}

/// A recorded identity is that of some entry.
proof fn lemma_identity_origin(
    rows: Seq<RawSessionIndexEntry>,
    session: Seq<char>,
    node: Seq<char>,
) -> (i: int)
    requires
        identity_in(rows, session, node) is Some,
    ensures
        0 <= i < rows.len(),
        rows[i].session_id@ == session,
        rows[i].node_id@ == node,
        identity_in(rows, session, node)->0.task_id == optional_text(rows[i].task_id),
    decreases rows.len(),
{
    if rows.last().session_id@ == session && rows.last().node_id@ == node {
        rows.len() - 1
    } else {
        let i = lemma_identity_origin(rows.drop_last(), session, node);
        assert(rows.drop_last()[i] == rows[i]);
        i
    }
}

/// An edge leads to a stored node exactly where the journal supersedes it.
proof fn lemma_superseded_as_recorded(
    journal: Seq<JournalEvent>,
    steps: Seq<Applied>,
    rows: Seq<RawSessionIndexEntry>,
    checkpoint: CheckpointModel,
    i: int,
)
    requires
        projects(journal, steps, rows, checkpoint),
        0 <= i < rows.len(),
    ensures
        edge_exists(rows, rows[i]) == superseded_in(journal, nodes_of(journal)[i]),
{
    let (r, e) = (rows[i], nodes_of(journal)[i]);
    lemma_stored_as_recorded(journal, steps, rows, checkpoint, i);
    if edge_exists(rows, r) {
        let (j, t) = choose|j: int, t: int| 0 <= j < rows.len() && #[trigger] edge_to(rows[j], t, r);
        lemma_stored_as_recorded(journal, steps, rows, checkpoint, j);
        let targets = nodes_of(journal)[j].recorded->0.node.supersedes;
        lemma_arranged_all(targets, text_order(), |x: Seq<char>| targets.contains(x));
        assert((|x: Seq<char>| targets.contains(x))(arranged(targets, text_order())[t]));
        assert(edges_view(rows[j].edges@)[t].superseded == arranged(targets, text_order())[t]);
        let k = lemma_node_of_journal(journal, j);
        assert(supersedes(journal[k], e));
    }
    if superseded_in(journal, e) {
        let k = choose|k: int| 0 <= k < journal.len() && #[trigger] supersedes(journal[k], e);
        let j = lemma_journal_has_node(journal, k);
        lemma_stored_as_recorded(journal, steps, rows, checkpoint, j);
        let targets = journal[k].recorded->0.node.supersedes;
        let id = e.recorded->0.node.id;
        let s = choose|s: int| 0 <= s < targets.len() && targets[s] == id;
        assert(targets[s] == id);
        let o = lemma_identity_origin(rows.take(j), rows[j].session_id@, targets[s]);
        assert(rows.take(j)[o] == rows[o]);
        lemma_stored_as_recorded(journal, steps, rows, checkpoint, o);
        if o < i {
            lemma_stored_once(rows, o, i);
        } else if i < o {
            lemma_stored_once(rows, i, o);
        }
        let sorted = arranged(targets, text_order());
        lemma_text_order();
        arranged_is_an_ordering(targets, text_order());
        lemma_same_members(sorted, targets);
        assert(sorted.contains(id));
        let t = choose|t: int| 0 <= t < sorted.len() && sorted[t] == id;
        assert(edges_view(rows[j].edges@)[t].superseded == id);
        assert(rows[j].entry().task_id == optional_text(rows[j].task_id));
        assert(edge_to(rows[j], t, r));
    }
}

/// The nodes of stored nodes that are not superseded, in order.
spec fn kept_nodes(list: Seq<StoredNode>) -> Seq<NodeModel>
    decreases list.len(),
{
    if list.len() == 0 {
        Seq::empty()
    } else if list.last().superseded {
        kept_nodes(list.drop_last())
    } else {
        kept_nodes(list.drop_last()).push(list.last().node)
    }
}

proof fn lemma_unsuperseded_read(out: Seq<RawProjectedRow>, list: Seq<StoredNode>)
    requires
        read_back(out, list),
    ensures
        out.len() == list.len(),
        unsuperseded(out) == kept_nodes(list),
    decreases out.len(),
{
    let model = |raw: RawProjectedRow| row_model(raw);
    assert(out.map_values(model).len() == out.len());
    if out.len() > 0 {
        let (fewer, shorter) = (out.drop_last(), list.drop_last());
        assert(fewer.map_values(model) =~= shorter);
        assert(list.last() == row_model(out.last()));
        lemma_unsuperseded_read(fewer, shorter);
    }
}

/// The live nodes of the journal, counted over the events that record a node.
spec fn live_among(
    journal: Seq<JournalEvent>,
    nodes: Seq<JournalEvent>,
    session: Seq<char>,
    task: Option<Seq<char>>,
) -> Seq<NodeModel>
    decreases nodes.len(),
{
    if nodes.len() == 0 {
        Seq::empty()
    } else if live(journal, nodes.last(), session, task) {
        live_among(journal, nodes.drop_last(), session, task).push(nodes.last().recorded->0.node)
    } else {
        live_among(journal, nodes.drop_last(), session, task)
    }
}

proof fn lemma_live_among(
    journal: Seq<JournalEvent>,
    k: int,
    session: Seq<char>,
    task: Option<Seq<char>>,
)
    requires
        0 <= k <= journal.len(),
    ensures
        live_nodes(journal, k, session, task) == live_among(
            journal,
            nodes_of(journal.take(k)),
            session,
            task,
        ),
    decreases k,
{
    if k > 0 {
        lemma_live_among(journal, k - 1, session, task);
        let head = journal.take(k);
        assert(head.drop_last() =~= journal.take(k - 1));
        assert(head.last() == journal[k - 1]);
        if head.last().recorded is Some {
            let nodes = nodes_of(head);
            assert(nodes.drop_last() =~= nodes_of(head.drop_last()));
            assert(nodes.last() == head.last());
        }
    }
}

proof fn lemma_scope_kept(
    journal: Seq<JournalEvent>,
    steps: Seq<Applied>,
    rows: Seq<RawSessionIndexEntry>,
    checkpoint: CheckpointModel,
    k: int,
    session: Seq<char>,
    task: Option<Seq<char>>,
)
    requires
        projects(journal, steps, rows, checkpoint),
        0 <= k <= rows.len(),
    ensures
        kept_nodes(scope_nodes(rows, k, session, task)) == live_among(
            journal,
            nodes_of(journal).take(k),
            session,
            task,
        ),
    decreases k,
{
    if k > 0 {
        lemma_scope_kept(journal, steps, rows, checkpoint, k - 1, session, task);
        lemma_stored_as_recorded(journal, steps, rows, checkpoint, k - 1);
        lemma_superseded_as_recorded(journal, steps, rows, checkpoint, k - 1);
        let nodes = nodes_of(journal).take(k);
        assert(nodes.drop_last() =~= nodes_of(journal).take(k - 1));
        assert(nodes.last() == nodes_of(journal)[k - 1]);
        let list = scope_nodes(rows, k, session, task);
        if row_in_scope(rows[k - 1], session, task) {
            assert(list.drop_last() =~= scope_nodes(rows, k - 1, session, task));
            assert(list.last() == stored_node(rows, rows[k - 1]));
        }
    }
}

/// The stored node is durable, has the identity it is stored under, and fits its
/// scope.
#[verifier::opaque]
spec fn stored_soundly(s: StoredNode) -> bool {
    &&& s.node.id == s.node_id
    &&& durable(s.node)
    &&& scope_fault(s.session_id, s.task_id, s.node.scope) is None
}

proof fn lemma_stored_soundly(
    journal: Seq<JournalEvent>,
    steps: Seq<Applied>,
    rows: Seq<RawSessionIndexEntry>,
    checkpoint: CheckpointModel,
    i: int,
)
    requires
        projects(journal, steps, rows, checkpoint),
        0 <= i < rows.len(),
    ensures
        stored_soundly(stored_node(rows, rows[i])),
{
    reveal(stored_soundly);
    lemma_stored_as_recorded(journal, steps, rows, checkpoint, i);
}

/// A row is sound exactly where it holds a soundly stored node.
proof fn lemma_row_sound(raw: RawProjectedRow)
    requires
        raw.parsed is Ok,
    ensures
        row_sound(raw) == stored_soundly(row_model(raw)),
{
    reveal(stored_soundly);
    assert(raw.parsed->Ok_0@.scope == raw.parsed->Ok_0.scope);
}

proof fn lemma_scope_sound(
    journal: Seq<JournalEvent>,
    steps: Seq<Applied>,
    rows: Seq<RawSessionIndexEntry>,
    checkpoint: CheckpointModel,
    k: int,
    session: Seq<char>,
    task: Option<Seq<char>>,
)
    requires
        projects(journal, steps, rows, checkpoint),
        0 <= k <= rows.len(),
    ensures
        forall|i: int|
            0 <= i < scope_nodes(rows, k, session, task).len() ==> stored_soundly(
                #[trigger] scope_nodes(rows, k, session, task)[i],
            ),
    decreases k,
{
    if k > 0 {
        let before = scope_nodes(rows, k - 1, session, task);
        let list = scope_nodes(rows, k, session, task);
        lemma_scope_sound(journal, steps, rows, checkpoint, k - 1, session, task);
        lemma_stored_soundly(journal, steps, rows, checkpoint, k - 1);
        assert forall|i: int| 0 <= i < list.len() implies stored_soundly(#[trigger] list[i]) by {
            if i < before.len() {
                assert(list[i] == before[i]);
            }
        }
    }
}

/// A snapshot of a projection holds the live nodes of the journal in its scope,
/// in the order of the journal. It is taken unless the scope holds more nodes
/// than a query may look at.
pub proof fn snapshots_hold_the_live_nodes(
    journal: Seq<JournalEvent>,
    steps: Seq<Applied>,
    rows: Seq<RawSessionIndexEntry>,
    checkpoint: CheckpointModel,
    session: Seq<char>,
    task: Option<Seq<char>>,
    out: Seq<RawProjectedRow>,
    r: Result<DerivedContextSnapshot, ContextProjectionError>,
)
    requires
        projects(journal, steps, rows, checkpoint),
        scope_read(rows, session, task, out),
        snapshot_outcome(checkpoint, out, r),
    ensures
        ({
            let held = scope_nodes(rows, rows.len() as int, session, task).len();
            match r {
                Ok(snapshot) => {
                    &&& held <= MAX_CANDIDATE_COUNT
                    &&& snapshot@ == (SnapshotModel {
                        checkpoint,
                        scanned_rows: held,
                        candidates: live_nodes(journal, journal.len() as int, session, task),
                    })
                },
                Err(e) => held > MAX_CANDIDATE_COUNT && refuses_row_count(e),
            }
        }),
{
    let n = rows.len() as int;
    let list = scope_nodes(rows, n, session, task);
    lemma_unsuperseded_read(out, limited(list));
    lemma_scope_sound(journal, steps, rows, checkpoint, n, session, task);
    assert forall|i: int| 0 <= i < out.len() implies row_sound(#[trigger] out[i]) by {
        assert(out.map_values(|raw: RawProjectedRow| row_model(raw))[i] == row_model(out[i]));
        assert(limited(list)[i] == list[i]);
        assert(stored_soundly(list[i]));
        lemma_row_sound(out[i]);
    }
    if list.len() <= MAX_CANDIDATE_COUNT {
        lemma_scope_kept(journal, steps, rows, checkpoint, n, session, task);
        lemma_live_among(journal, journal.len() as int, session, task);
        assert(journal.take(journal.len() as int) =~= journal);
        assert(nodes_of(journal).take(n) =~= nodes_of(journal));
    }
    if let Err(e) = r {
        if out.len() <= MAX_CANDIDATE_COUNT {
            let i = choose|i: int| #[trigger] reports_unsound_row(e, out, i);
            assert(row_sound(out[i]));
        }
    }
}

/// The stored columns put the node in force at that time.
pub open spec fn columns_active(r: RawSessionIndexEntry, now: Timestamp) -> bool {
    let (m, n) = timestamp_parts(now);
    &&& optional_text(r.projected_epistemic_status) != Some("disputed"@)
    &&& r.projected_valid_from_millis matches Some(a) ==> a < m || (a == m
        && r.projected_valid_from_submillis_nanos->0 <= n)
    &&& r.projected_valid_until_millis matches Some(a) ==> a > m || (a == m
        && r.projected_valid_until_submillis_nanos->0 > n)
}

/// The stored nodes among the first `k` that are in that scope, in force by
/// their columns, and that no edge leads to.
pub open spec fn active_stored(
    rows: Seq<RawSessionIndexEntry>,
    k: int,
    session: Seq<char>,
    task: Option<Seq<char>>,
    now: Timestamp,
) -> Seq<StoredNode>
    decreases k,
{
    if k <= 0 {
        Seq::empty()
    } else if row_in_scope(rows[k - 1], session, task) && columns_active(rows[k - 1], now)
        && !edge_exists(rows, rows[k - 1]) {
        active_stored(rows, k - 1, session, task, now).push(stored_node(rows, rows[k - 1]))
    } else {
        active_stored(rows, k - 1, session, task, now)
    }
}

/// Stored nodes in the order of their identities.
pub open spec fn stored_order() -> spec_fn(StoredNode, StoredNode) -> bool {
    |a: StoredNode, b: StoredNode| text_less(a.node_id, b.node_id)
}

/// The rows are what the cache selects as active in that scope.
pub open spec fn active_read(
    rows: Seq<RawSessionIndexEntry>,
    session: Seq<char>,
    task: Option<Seq<char>>,
    now: Timestamp,
    out: Seq<RawProjectedRow>,
) -> bool {
    read_back(
        out,
        limited(
            arranged(active_stored(rows, rows.len() as int, session, task, now), stored_order()),
        ),
    )
}

/// The live nodes of the first `k` events that are in force at that time, in the
/// order of the journal.
pub open spec fn active_nodes(
    journal: Seq<JournalEvent>,
    k: int,
    session: Seq<char>,
    task: Option<Seq<char>>,
    now: Timestamp,
) -> Seq<NodeModel>
    decreases k,
{
    if k <= 0 {
        Seq::empty()
    } else if live(journal, journal[k - 1], session, task)
        && journal[k - 1].recorded->0.node.active_at(now) {
        active_nodes(journal, k - 1, session, task, now).push(journal[k - 1].recorded->0.node)
    } else {
        active_nodes(journal, k - 1, session, task, now)
    }
}

/// The time lies outside any leap second.
pub open spec fn plain_time(t: Option<Timestamp>) -> bool {
    t matches Some(v) ==> v.nanos < 1_000_000_000
}

/// No window of the journal opens or closes within a leap second.
pub open spec fn plain_windows(journal: Seq<JournalEvent>) -> bool {
    forall|k: int|
        0 <= k < journal.len() && (#[trigger] journal[k]).recorded is Some ==> plain_time(
            journal[k].recorded->0.node.valid_from,
        ) && plain_time(journal[k].recorded->0.node.valid_until)
}

/// The columns of entry `i` are those of its event's node.
proof fn lemma_columns_as_recorded(
    journal: Seq<JournalEvent>,
    steps: Seq<Applied>,
    rows: Seq<RawSessionIndexEntry>,
    checkpoint: CheckpointModel,
    i: int,
)
    requires
        projects(journal, steps, rows, checkpoint),
        0 <= i < rows.len(),
    ensures
        ({
            let (r, node) = (rows[i], nodes_of(journal)[i].recorded->0.node);
            &&& optional_text(r.projected_epistemic_status) == Some(status_name(node.epistemic))
            &&& columns_hold(
                node.valid_from,
                r.projected_valid_from_millis,
                r.projected_valid_from_submillis_nanos,
            )
            &&& columns_hold(
                node.valid_until,
                r.projected_valid_until_millis,
                r.projected_valid_until_submillis_nanos,
            )
        }),
{
    let a = steps[i];
    assert(reads(a, nodes_of(journal)[i], journal));
    assert(a.extends(rows.take(i), rows[i]));
    let v = applied_events_are_decoded(a, rows.take(i), rows[i]);
}

/// The columns put a node in force exactly while it is active.
proof fn lemma_columns_active(r: RawSessionIndexEntry, node: NodeModel, now: Timestamp)
    requires
        optional_text(r.projected_epistemic_status) == Some(status_name(node.epistemic)),
        columns_hold(
            node.valid_from,
            r.projected_valid_from_millis,
            r.projected_valid_from_submillis_nanos,
        ),
        columns_hold(
            node.valid_until,
            r.projected_valid_until_millis,
            r.projected_valid_until_submillis_nanos,
        ),
        plain_time(node.valid_from),
        plain_time(node.valid_until),
        plain_time(Some(now)),
    ensures
        columns_active(r, now) == node.active_at(now),
{
    reveal_strlit("asserted");
    reveal_strlit("inferred");
    reveal_strlit("verified");
    reveal_strlit("disputed");
    assert("asserted"@[0] != "disputed"@[0]);
    assert("inferred"@[0] != "disputed"@[0]);
    assert("verified"@[0] != "disputed"@[0]);
    if let Some(t) = node.valid_from {
        timestamp_parts_keep_order(now, t);
    }
    if let Some(t) = node.valid_until {
        timestamp_parts_keep_order(now, t);
    }
}

/// The active nodes of the journal, counted over the events that record a node.
spec fn active_among(
    journal: Seq<JournalEvent>,
    nodes: Seq<JournalEvent>,
    session: Seq<char>,
    task: Option<Seq<char>>,
    now: Timestamp,
) -> Seq<NodeModel>
    decreases nodes.len(),
{
    if nodes.len() == 0 {
        Seq::empty()
    } else if live(journal, nodes.last(), session, task)
        && nodes.last().recorded->0.node.active_at(now) {
        active_among(journal, nodes.drop_last(), session, task, now).push(
            nodes.last().recorded->0.node,
        )
    } else {
        active_among(journal, nodes.drop_last(), session, task, now)
    }
}

proof fn lemma_active_among(
    journal: Seq<JournalEvent>,
    k: int,
    session: Seq<char>,
    task: Option<Seq<char>>,
    now: Timestamp,
)
    requires
        0 <= k <= journal.len(),
    ensures
        active_nodes(journal, k, session, task, now) == active_among(
            journal,
            nodes_of(journal.take(k)),
            session,
            task,
            now,
        ),
    decreases k,
{
    if k > 0 {
        lemma_active_among(journal, k - 1, session, task, now);
        let head = journal.take(k);
        assert(head.drop_last() =~= journal.take(k - 1));
        assert(head.last() == journal[k - 1]);
        if head.last().recorded is Some {
            let nodes = nodes_of(head);
            assert(nodes.drop_last() =~= nodes_of(head.drop_last()));
            assert(nodes.last() == head.last());
        }
    }
}

/// A stored node that is selected as active is sound, live and in force.
spec fn selected_soundly(s: StoredNode, now: Timestamp) -> bool {
    stored_soundly(s) && !s.superseded && s.node.active_at(now) && s.node.id == s.node_id
}

/// What the columns select are the active nodes of the journal.
proof fn lemma_active_selected(
    journal: Seq<JournalEvent>,
    steps: Seq<Applied>,
    rows: Seq<RawSessionIndexEntry>,
    checkpoint: CheckpointModel,
    k: int,
    session: Seq<char>,
    task: Option<Seq<char>>,
    now: Timestamp,
)
    requires
        projects(journal, steps, rows, checkpoint),
        plain_windows(journal),
        plain_time(Some(now)),
        0 <= k <= rows.len(),
    ensures
        active_stored(rows, k, session, task, now).map_values(|s: StoredNode| s.node)
            == active_among(journal, nodes_of(journal).take(k), session, task, now),
        forall|i: int|
            0 <= i < active_stored(rows, k, session, task, now).len() ==> selected_soundly(
                #[trigger] active_stored(rows, k, session, task, now)[i],
                now,
            ),
    decreases k,
{
    let node_of = |s: StoredNode| s.node;
    let list = active_stored(rows, k, session, task, now);
    if k > 0 {
        let before = active_stored(rows, k - 1, session, task, now);
        lemma_active_selected(journal, steps, rows, checkpoint, k - 1, session, task, now);
        lemma_stored_as_recorded(journal, steps, rows, checkpoint, k - 1);
        lemma_stored_soundly(journal, steps, rows, checkpoint, k - 1);
        lemma_superseded_as_recorded(journal, steps, rows, checkpoint, k - 1);
        lemma_columns_as_recorded(journal, steps, rows, checkpoint, k - 1);
        let (r, e) = (rows[k - 1], nodes_of(journal)[k - 1]);
        let at = lemma_node_of_journal(journal, k - 1);
        assert(journal[at] == e);
        lemma_columns_active(r, e.recorded->0.node, now);
        let nodes = nodes_of(journal).take(k);
        assert(nodes.drop_last() =~= nodes_of(journal).take(k - 1));
        assert(nodes.last() == e);
        if row_in_scope(r, session, task) && columns_active(r, now) && !edge_exists(rows, r) {
            assert(list.map_values(node_of) =~= before.map_values(node_of).push(
                stored_node(rows, r).node,
            ));
            assert forall|i: int| 0 <= i < list.len() implies selected_soundly(
                #[trigger] list[i],
                now,
            ) by {
                if i < before.len() {
                    assert(list[i] == before[i]);
                }
            }
        }
    } else {
        assert(list.map_values(node_of) =~= Seq::empty());
    }
}

/// The nodes of rows that were read back.
proof fn lemma_nodes_read(out: Seq<RawProjectedRow>, list: Seq<StoredNode>)
    requires
        read_back(out, list),
    ensures
        out.len() == list.len(),
        row_nodes(out) == list.map_values(|s: StoredNode| s.node),
        forall|i: int| 0 <= i < out.len() ==> row_model(#[trigger] out[i]) == list[i],
{
    let models = out.map_values(|raw: RawProjectedRow| row_model(raw));
    assert(models.len() == out.len());
    assert forall|i: int| 0 <= i < out.len() implies row_model(#[trigger] out[i]) == list[i] by {
        assert(models[i] == row_model(out[i]));
    }
    assert(row_nodes(out) =~= list.map_values(|s: StoredNode| s.node));
}

/// An active snapshot of a projection holds the nodes of the journal that are
/// recorded in its scope, that nothing supersedes and that are in force at its
/// time, in the order of their identities. Only the number of nodes or the
/// budget can refuse it. Times within a leap second are left out: the stored
/// columns do not order them.
pub proof fn active_snapshots_hold_the_active_nodes(
    journal: Seq<JournalEvent>,
    steps: Seq<Applied>,
    rows: Seq<RawSessionIndexEntry>,
    checkpoint: CheckpointModel,
    session: Seq<char>,
    task: Option<Seq<char>>,
    now: Timestamp,
    out: Seq<RawProjectedRow>,
    budget: RetrievalWorkBudget,
    budget_left: RetrievalWorkBudget,
    r: Result<DerivedContextSnapshot, ContextProjectionError>,
)
    requires
        projects(journal, steps, rows, checkpoint),
        plain_windows(journal),
        plain_time(Some(now)),
        active_read(rows, session, task, now, out),
        active_outcome(checkpoint, out, now, budget, budget_left, r),
    ensures
        ({
            let active = active_nodes(journal, journal.len() as int, session, task, now);
            match r {
                Ok(snapshot) => {
                    &&& active.len() <= MAX_CANDIDATE_COUNT
                    &&& snapshot@ == (SnapshotModel {
                        checkpoint,
                        scanned_rows: active.len(),
                        candidates: arranged(active, identity_order()),
                    })
                },
                Err(e) => e is Retrieval,
            }
        }),
{
    let n = rows.len() as int;
    let list = active_stored(rows, n, session, task, now);
    let sorted = arranged(list, stored_order());
    let node_of = |s: StoredNode| s.node;
    let fits = |s: StoredNode| selected_soundly(s, now);
    lemma_active_selected(journal, steps, rows, checkpoint, n, session, task, now);
    lemma_active_among(journal, journal.len() as int, session, task, now);
    assert(journal.take(journal.len() as int) =~= journal);
    assert(nodes_of(journal).take(n) =~= nodes_of(journal));
    let active = active_nodes(journal, journal.len() as int, session, task, now);
    assert(list.map_values(node_of) == active);
    assert forall|i: int| 0 <= i < list.len() implies fits(#[trigger] list[i]) by {
        assert(selected_soundly(list[i], now));
    }
    lemma_arranged_all(list, stored_order(), fits);
    lemma_arranged_mapped(list, node_of, fits, stored_order(), identity_order());
    lemma_nodes_read(out, limited(sorted));
    match r {
        Ok(snapshot) => {
            if out.len() > MAX_CANDIDATE_COUNT {
                assert(active_row_fine(out, now, budget, MAX_CANDIDATE_COUNT as int));
            }
            assert(limited(sorted) == sorted);
        },
        Err(e) => {
            let i = choose|i: int| #[trigger]
                reports_active_row(
                    e,
                    checkpoint.through_seq,
                    out,
                    now,
                    budget,
                    budget_left,
                    i,
                );
            assert(limited(sorted)[i] == sorted[i]);
            assert(fits(sorted[i]));
            assert(row_model(out[i]) == sorted[i]);
            lemma_row_sound(out[i]);
        },
    }
}

/// A snapshot that was captured for a source-verified reader holds the active
/// nodes of the journal.
pub proof fn verified_snapshots_hold_the_active_nodes(
    journal: Seq<JournalEvent>,
    steps: Seq<Applied>,
    rows: Seq<RawSessionIndexEntry>,
    checkpoint: CheckpointModel,
    session: Seq<char>,
    task: Option<Seq<char>>,
    now: Timestamp,
    out: Seq<RawProjectedRow>,
    budget: RetrievalWorkBudget,
    budget_left: RetrievalWorkBudget,
    snapshot: Option<SnapshotModel>,
)
    requires
        projects(journal, steps, rows, checkpoint),
        plain_windows(journal),
        plain_time(Some(now)),
        active_read(rows, session, task, now, out),
        captured(checkpoint, out, now, budget, budget_left, snapshot),
    ensures
        ({
            let active = active_nodes(journal, journal.len() as int, session, task, now);
            snapshot == Some(
                SnapshotModel {
                    checkpoint,
                    scanned_rows: active.len(),
                    candidates: arranged(active, identity_order()),
                },
            )
        }),
{
    let s = choose|s: DerivedContextSnapshot|
        #[trigger] active_outcome(checkpoint, out, now, budget, budget_left, Ok(s)) && snapshot
            == Some(s@);
    active_snapshots_hold_the_active_nodes(
        journal,
        steps,
        rows,
        checkpoint,
        session,
        task,
        now,
        out,
        budget,
        budget_left,
        Ok(s),
    );
}

/// Entry `i` is stored alike in every projection of the journal.
proof fn lemma_stored_alike(
    journal: Seq<JournalEvent>,
    a: Seq<Applied>,
    x: Seq<RawSessionIndexEntry>,
    c: CheckpointModel,
    b: Seq<Applied>,
    y: Seq<RawSessionIndexEntry>,
    d: CheckpointModel,
    i: int,
)
    requires
        projects(journal, a, x, c),
        projects(journal, b, y, d),
        0 <= i < x.len(),
    ensures
        stored_node(x, x[i]) == stored_node(y, y[i]),
        edge_exists(x, x[i]) == edge_exists(y, y[i]),
        x[i].session_id@ == y[i].session_id@,
        forall|session: Seq<char>, task: Option<Seq<char>>| #[trigger]
            row_in_scope(x[i], session, task) == row_in_scope(y[i], session, task),
        forall|now: Timestamp| #[trigger] columns_active(x[i], now) == columns_active(y[i], now),
{
    lemma_stored_as_recorded(journal, a, x, c, i);
    lemma_stored_as_recorded(journal, b, y, d, i);
    lemma_superseded_as_recorded(journal, a, x, c, i);
    lemma_superseded_as_recorded(journal, b, y, d, i);
    lemma_columns_as_recorded(journal, a, x, c, i);
    lemma_columns_as_recorded(journal, b, y, d, i);
}

proof fn lemma_selected_alike(
    journal: Seq<JournalEvent>,
    a: Seq<Applied>,
    x: Seq<RawSessionIndexEntry>,
    c: CheckpointModel,
    b: Seq<Applied>,
    y: Seq<RawSessionIndexEntry>,
    d: CheckpointModel,
    session: Seq<char>,
    task: Option<Seq<char>>,
    now: Timestamp,
    k: int,
)
    requires
        projects(journal, a, x, c),
        projects(journal, b, y, d),
        0 <= k <= x.len(),
    ensures
        scope_nodes(x, k, session, task) == scope_nodes(y, k, session, task),
        active_stored(x, k, session, task, now) == active_stored(y, k, session, task, now),
    decreases k,
{
    if k > 0 {
        lemma_selected_alike(journal, a, x, c, b, y, d, session, task, now, k - 1);
        lemma_stored_alike(journal, a, x, c, b, y, d, k - 1);
    }
}

/// Rebuilding a synchronized cache changes no snapshot: two projections of one
/// journal have the same checkpoint, and a scope's snapshot is taken from both or
/// from neither, with the same nodes in the same order.
pub proof fn rebuilt_snapshots_agree(
    journal: Seq<JournalEvent>,
    a: Seq<Applied>,
    x: Seq<RawSessionIndexEntry>,
    c: CheckpointModel,
    b: Seq<Applied>,
    y: Seq<RawSessionIndexEntry>,
    d: CheckpointModel,
    session: Seq<char>,
    task: Option<Seq<char>>,
    out: Seq<RawProjectedRow>,
    again: Seq<RawProjectedRow>,
    r: Result<DerivedContextSnapshot, ContextProjectionError>,
    q: Result<DerivedContextSnapshot, ContextProjectionError>,
)
    requires
        identities_differ(journal),
        projects(journal, a, x, c),
        projects(journal, b, y, d),
        scope_read(x, session, task, out),
        scope_read(y, session, task, again),
        snapshot_outcome(c, out, r),
        snapshot_outcome(d, again, q),
    ensures
        c == d,
        match (r, q) {
            (Ok(s), Ok(t)) => s@ == t@,
            (Err(e), Err(f)) => e == f,
            _ => false,
        },
{
    projections_of_one_journal_agree(journal, a, x, c, b, y, d);
    let now = Timestamp { secs: 0, nanos: 0 };
    lemma_selected_alike(journal, a, x, c, b, y, d, session, task, now, x.len() as int);
    snapshots_hold_the_live_nodes(journal, a, x, c, session, task, out, r);
    snapshots_hold_the_live_nodes(journal, b, y, d, session, task, again, q);
}

proof fn lemma_charged_alike(
    out: Seq<RawProjectedRow>,
    again: Seq<RawProjectedRow>,
    list: Seq<StoredNode>,
    budget: RetrievalWorkBudget,
    k: int,
)
    requires
        read_back(out, list),
        read_back(again, list),
        0 <= k <= out.len(),
    ensures
        budget_after_rows(out, k, budget) == budget_after_rows(again, k, budget),
    decreases k,
{
    lemma_nodes_read(out, list);
    lemma_nodes_read(again, list);
    if k > 0 {
        lemma_charged_alike(out, again, list, budget, k - 1);
        assert(row_model(out[k - 1]) == row_model(again[k - 1]));
    }
}

/// A row that was read back twice is fine both times or neither time.
proof fn lemma_fine_alike(
    out: Seq<RawProjectedRow>,
    again: Seq<RawProjectedRow>,
    list: Seq<StoredNode>,
    now: Timestamp,
    budget: RetrievalWorkBudget,
    i: int,
)
    requires
        read_back(out, list),
        read_back(again, list),
        0 <= i < out.len(),
    ensures
        active_row_fine(out, now, budget, i) == active_row_fine(again, now, budget, i),
        row_sound(out[i]) == row_sound(again[i]),
        out[i].node_json@ == again[i].node_json@,
{
    lemma_nodes_read(out, list);
    lemma_nodes_read(again, list);
    lemma_charged_alike(out, again, list, budget, i);
    assert(row_model(out[i]) == row_model(again[i]));
    lemma_row_sound(out[i]);
    lemma_row_sound(again[i]);
}

/// Rebuilding a synchronized cache changes no active snapshot: it is taken from
/// both projections or from neither, with the same nodes in the same order, and
/// is charged the same.
pub proof fn rebuilt_active_snapshots_agree(
    journal: Seq<JournalEvent>,
    a: Seq<Applied>,
    x: Seq<RawSessionIndexEntry>,
    c: CheckpointModel,
    b: Seq<Applied>,
    y: Seq<RawSessionIndexEntry>,
    d: CheckpointModel,
    session: Seq<char>,
    task: Option<Seq<char>>,
    now: Timestamp,
    budget: RetrievalWorkBudget,
    out: Seq<RawProjectedRow>,
    left: RetrievalWorkBudget,
    r: Result<DerivedContextSnapshot, ContextProjectionError>,
    again: Seq<RawProjectedRow>,
    left_again: RetrievalWorkBudget,
    q: Result<DerivedContextSnapshot, ContextProjectionError>,
)
    requires
        identities_differ(journal),
        projects(journal, a, x, c),
        projects(journal, b, y, d),
        active_read(x, session, task, now, out),
        active_read(y, session, task, now, again),
        active_outcome(c, out, now, budget, left, r),
        active_outcome(d, again, now, budget, left_again, q),
    ensures
        c == d,
        r is Ok == q is Ok,
        r is Ok ==> r->Ok_0@ == q->Ok_0@,
        left == left_again,
{
    let n = x.len() as int;
    projections_of_one_journal_agree(journal, a, x, c, b, y, d);
    lemma_selected_alike(journal, a, x, c, b, y, d, session, task, now, n);
    let list = limited(arranged(active_stored(x, n, session, task, now), stored_order()));
    lemma_nodes_read(out, list);
    lemma_nodes_read(again, list);
    assert forall|i: int| 0 <= i < out.len() implies #[trigger] active_row_fine(
        out,
        now,
        budget,
        i,
    ) == active_row_fine(again, now, budget, i) by {
        lemma_fine_alike(out, again, list, now, budget, i);
    }
    match (r, q) {
        (Ok(_), Ok(_)) => {
            lemma_charged_alike(out, again, list, budget, out.len() as int);
        },
        (Ok(_), Err(f)) => {
            let i = choose|i: int| #[trigger]
                reports_active_row(f, d.through_seq, again, now, budget, left_again, i);
            assert(active_row_fine(out, now, budget, i));
        },
        (Err(e), Ok(_)) => {
            let i = choose|i: int| #[trigger]
                reports_active_row(e, c.through_seq, out, now, budget, left, i);
            assert(active_row_fine(again, now, budget, i));
            assert(!active_row_fine(out, now, budget, i));
        },
        (Err(e), Err(f)) => {
            let i = choose|i: int| #[trigger]
                reports_active_row(e, c.through_seq, out, now, budget, left, i);
            let j = choose|j: int| #[trigger]
                reports_active_row(f, d.through_seq, again, now, budget, left_again, j);
            if i < j {
                assert(active_row_fine(again, now, budget, i));
                assert(!active_row_fine(out, now, budget, i));
            } else if j < i {
                assert(active_row_fine(out, now, budget, j));
                assert(!active_row_fine(again, now, budget, j));
            }
            lemma_fine_alike(out, again, list, now, budget, i);
            lemma_charged_alike(out, again, list, budget, i);
        },
    }
}

} // verus!
