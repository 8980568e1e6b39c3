//! The canonical view of a scope, and comparing the cache with it.

use vstd::prelude::*;
use vstd::utf8::*;

use crate::context::capsule::nodes_view;
use crate::context::node::ContextNode;
use crate::context::ranking::MAX_CONTEXT_SUPERSEDES;
use crate::events::record::EventRecord;
use crate::projection::budget::DeltaVerificationBudget;
use crate::projection::checkpoint::{checkpoint_model, is_checkpoint, ProjectionCheckpoint};
use crate::projection::decode::{
    decode_outcome, decode_recorded_node, decoded_nodes_are_durable, ValidatedRecordedNode,
    CONTEXT_NODE_RECORDED,
};
use crate::projection::digest::{
    canonical_edge_digest, digest_text, edge_digest, same_digest, sha256_of, task_key, task_key_of,
};
use crate::projection::durable::durable;
use crate::projection::error::ContextProjectionError;
use crate::projection::index::{
    cached_edges_digest, edges_bytes, edges_view, CachedEdge, CachedEdgeModel,
};
use crate::projection::snapshot::{
    projected_row, refuses_row_count, row_refusal, row_sound, unsuperseded,
    DerivedContextSnapshot, RawProjectedRow, SnapshotModel,
};
use crate::retrieval::{RetrievalError, MAX_CANDIDATE_COUNT};
use crate::table::TextTable;
use crate::text::{copy_optional_text, optional_text, same_optional_text, same_text};

verus! {

/// What the journal says of one node of the scope.
#[derive(Debug)]
pub struct CanonicalAdmissionRow {
    pub task_id: Option<String>,
    pub event_seq: i64,
    pub event_id: String,
    pub node_digest: [u8; 32],
    pub outgoing_edge_digest: [u8; 32],
    pub outgoing_edge_count: usize,
}

/// The model of a canonical row.
pub struct CanonicalRowModel {
    pub task_id: Option<Seq<char>>,
    pub event_seq: i64,
    pub event_id: Seq<char>,
    pub node_digest: Seq<u8>,
    pub outgoing_edge_digest: Seq<u8>,
    pub outgoing_edge_count: nat,
}

impl View for CanonicalAdmissionRow {
    type V = CanonicalRowModel;

    open spec fn view(&self) -> CanonicalRowModel {
        CanonicalRowModel {
            task_id: optional_text(self.task_id),
            event_seq: self.event_seq,
            event_id: self.event_id@,
            node_digest: self.node_digest@,
            outgoing_edge_digest: self.outgoing_edge_digest@,
            outgoing_edge_count: self.outgoing_edge_count as nat,
        }
    }
}

/// The canonical row of a recorded node whose text is `json`.
pub open spec fn canonical_row(event: EventRecord, v: ValidatedRecordedNode, json: Seq<char>) ->
    CanonicalRowModel {
    CanonicalRowModel {
        task_id: optional_text(v.task_id),
        event_seq: event.seq,
        event_id: event.event_id@,
        node_digest: sha256_of(encode_utf8(json)),
        outgoing_edge_digest: edge_digest(
            v.node@.id,
            task_key_of(optional_text(v.task_id)),
            event.seq,
            v.node@.supersedes,
        ),
        outgoing_edge_count: v.node@.supersedes.len(),
    }
}

/// The canonical row of a recorded node.
pub fn canonical_cache_row(event: &EventRecord, v: &ValidatedRecordedNode, json: &str) -> (r:
    CanonicalAdmissionRow)
    ensures
        r@ == canonical_row(*event, *v, json@),
{
    let key = task_key(&v.task_id);
    let r = CanonicalAdmissionRow {
        task_id: copy_optional_text(&v.task_id),
        event_seq: event.seq,
        event_id: event.event_id.clone(),
        node_digest: digest_text(json),
        outgoing_edge_digest: canonical_edge_digest(
            &v.node.id,
            &key,
            event.seq,
            &v.node.supersedes,
        ),
        outgoing_edge_count: v.node.supersedes.len(),
    };
    assert(v.node@.supersedes.len() == v.node.supersedes@.len());
    r
}

/// Edges gathered under one node.
#[derive(Debug)]
pub struct EdgeAccumulator {
    edges: Vec<CachedEdge>,
}

impl EdgeAccumulator {
    pub closed spec fn list(&self) -> Seq<CachedEdgeModel> {
        edges_view(self.edges@)
    }

    pub fn new() -> (r: EdgeAccumulator)
        ensures
            r.list() == Seq::<CachedEdgeModel>::empty(),
    {
        let r = EdgeAccumulator { edges: Vec::new() };
        assert(r.list() =~= Seq::<CachedEdgeModel>::empty());
        r
    }

    /// The same edges and one more.
    fn extended(&self, edge: &CachedEdge) -> (r: EdgeAccumulator)
        ensures
            r.list() == self.list().push(edge@),
    {
        let mut edges: Vec<CachedEdge> = Vec::new();
        let mut i: usize = 0;
        while i < self.edges.len()
            invariant
                0 <= i <= self.edges@.len(),
                edges@.len() == i,
                forall|j: int| 0 <= j < i ==> (#[trigger] edges@[j])@ == self.edges@[j]@,
            decreases self.edges.len() - i,
        {
            edges.push(copy_edge(&self.edges[i]));
            i += 1;
        }
        edges.push(copy_edge(edge));
        let r = EdgeAccumulator { edges };
        assert(r.list() =~= self.list().push(edge@));
        r
    }

    /// The digest over the edges in order, and their number.
    pub fn shape(&self) -> (r: ([u8; 32], usize))
        ensures
            r.0@ == sha256_of(edges_bytes(self.list())),
            r.1 == self.list().len(),
    {
        (cached_edges_digest(&self.edges), self.edges.len())
    }
}

fn copy_edge(e: &CachedEdge) -> (r: CachedEdge)
    ensures
        r@ == e@,
{
    CachedEdge {
        superseding_node_id: e.superseding_node_id.clone(),
        task_key: e.task_key.clone(),
        event_seq: e.event_seq,
        superseded_node_id: e.superseded_node_id.clone(),
    }
}

/// Edges by the node they are gathered under.
pub struct EdgeTable {
    table: TextTable<EdgeAccumulator>,
}

impl EdgeTable {
    pub closed spec fn well_formed(&self) -> bool {
        self.table.well_formed()
    }

    /// The edges gathered under a node, in order.
    pub closed spec fn edges(&self, node: Seq<char>) -> Seq<CachedEdgeModel> {
        match self.table.at(node) {
            Some(a) => a.list(),
            None => Seq::empty(),
        }
    }

    pub fn new() -> (r: EdgeTable)
        ensures
            r.well_formed(),
            forall|n: Seq<char>| #[trigger] r.edges(n) == Seq::<CachedEdgeModel>::empty(),
    {
        EdgeTable { table: TextTable::new() }
    }

    /// Gathers one more edge under a node.
    pub fn push(&mut self, node: &str, edge: &CachedEdge)
        requires
            old(self).well_formed(),
        ensures
            final(self).well_formed(),
            forall|n: Seq<char>| #[trigger]
                final(self).edges(n) == if n == node@ {
                    old(self).edges(n).push(edge@)
                } else {
                    old(self).edges(n)
                },
    {
        let ghost before = *self;
        let next: Option<EdgeAccumulator> = match self.table.get(node) {
            Some(a) => Some(a.extended(edge)),
            None => None,
        };
        match next {
            Some(a) => {
                self.table.replace(node, a);
            },
            None => {
                let a = EdgeAccumulator::new().extended(edge);
                self.table.insert(node.to_owned(), a);
            },
        }
        assert forall|n: Seq<char>| #[trigger] self.edges(n) == if n == node@ {
            before.edges(n).push(edge@)
        } else {
            before.edges(n)
        } by {
            assert(n != node@ ==> self.table.at(n) == before.table.at(n));
        }
    }

    /// The digest over the edges under a node, and their number.
    pub fn shape(&self, node: &str) -> (r: ([u8; 32], usize))
        requires
            self.well_formed(),
        ensures
            r.0@ == sha256_of(edges_bytes(self.edges(node@))),
            r.1 == self.edges(node@).len(),
    {
        match self.table.get(node) {
            Some(a) => a.shape(),
            None => EdgeAccumulator::new().shape(),
        }
    }
}

/// The view of a scope that the journal defines.
pub struct CanonicalAdmissionView {
    rows: TextTable<CanonicalAdmissionRow>,
    incoming: EdgeTable,
}

/// The model of an optional row.
pub open spec fn row_model(row: Option<CanonicalAdmissionRow>) -> Option<CanonicalRowModel> {
    match row {
        Some(r) => Some(r@),
        None => None,
    }
}

impl CanonicalAdmissionView {
    /// The canonical row of a node.
    pub closed spec fn row(&self, node: Seq<char>) -> Option<CanonicalRowModel> {
        row_model(self.rows.at(node))
    }

    /// The view has a row for the node.
    pub open spec fn has(&self, node: Seq<char>) -> bool {
        self.row(node) is Some
    }

    /// The edges into a node, in canonical order.
    pub closed spec fn incoming_edges(&self, node: Seq<char>) -> Seq<CachedEdgeModel> {
        self.incoming.edges(node)
    }

    pub closed spec fn size(&self) -> nat {
        self.rows.key_list().len()
    }

    /// The number of edges from all rows together.
    pub closed spec fn edge_total(&self) -> nat {
        edge_sum(self.rows.value_list())
    }

    /// There are no more rows than one query may look at, and none has more
    /// edges than a node may supersede.
    pub closed spec fn well_formed(&self) -> bool {
        &&& self.rows.well_formed()
        &&& self.incoming.well_formed()
        &&& self.rows.key_list().len() <= MAX_CANDIDATE_COUNT
        &&& self.rows.value_list().len() == self.rows.key_list().len()
        &&& forall|i: int|
            0 <= i < self.rows.value_list().len() ==> (
            #[trigger] self.rows.value_list()[i]).outgoing_edge_count <= MAX_CONTEXT_SUPERSEDES
    }

    pub fn new() -> (r: CanonicalAdmissionView)
        ensures
            r.well_formed(),
            r.size() == 0,
            r.edge_total() == 0,
            forall|n: Seq<char>| #[trigger] r.row(n) is None,
            forall|n: Seq<char>| #[trigger]
                r.incoming_edges(n) == Seq::<CachedEdgeModel>::empty(),
    {
        CanonicalAdmissionView { rows: TextTable::new(), incoming: EdgeTable::new() }
    }

    fn expected_edges(&self) -> (n: usize)
        requires
            self.well_formed(),
        ensures
            n == self.edge_total(),
    {
        let count: usize = self.rows.len();
        let ghost list = self.rows.value_list();
        let mut total: usize = 0;
        let mut i: usize = 0;
        assert(list.take(0) =~= Seq::empty());
        while i < count
            invariant
                self.well_formed(),
                list == self.rows.value_list(),
                count == list.len(),
                count == self.rows.key_list().len(),
                count <= MAX_CANDIDATE_COUNT,
                0 <= i <= count,
                total == edge_sum(list.take(i as int)),
                total <= i * MAX_CONTEXT_SUPERSEDES,
            decreases count - i,
        {
            let row = self.rows.value_at(i);
            assert(list[i as int].outgoing_edge_count <= MAX_CONTEXT_SUPERSEDES);
            assert(i * MAX_CONTEXT_SUPERSEDES <= 640_000);
            total = total + row.outgoing_edge_count;
            assert(list.take(i + 1).drop_last() =~= list.take(i as int));
            assert(list.take(i + 1).last() == *row);
            i += 1;
        }
        assert(list.take(i as int) =~= list);
        total
    }
}

/// The number of edges from rows together.
pub open spec fn edge_sum(rows: Seq<CanonicalAdmissionRow>) -> nat
    decreases rows.len(),
{
    if rows.len() == 0 {
        0
    } else {
        edge_sum(rows.drop_last()) + rows.last().outgoing_edge_count as nat
    }
}

/// The edges that a recorded node adds under `node`, in the order it names its
/// targets.
pub open spec fn added_edges(
    v: ValidatedRecordedNode,
    event_seq: i64,
    node: Seq<char>,
    k: nat,
) -> Seq<CachedEdgeModel>
    decreases k,
{
    if k == 0 {
        Seq::empty()
    } else {
        let before = added_edges(v, event_seq, node, (k - 1) as nat);
        let target = v.node@.supersedes[k - 1];
        if target == node {
            before.push(
                CachedEdgeModel {
                    superseding: v.node@.id,
                    task_key: task_key_of(optional_text(v.task_id)),
                    event_seq,
                    superseded: target,
                },
            )
        } else {
            before
        }
    }
}

/// Building the canonical view of a scope from the journal's pages.
pub struct CanonicalScan {
    pub view: CanonicalAdmissionView,
    pub session_id: String,
    pub task_id: Option<String>,
    pub cursor: i64,
    pub through_seq: i64,
}

/// The event records a node of the selected scope.
pub open spec fn selected(event: EventRecord, task_id: Option<Seq<char>>) -> bool {
    &&& event.kind@ == CONTEXT_NODE_RECORDED@
    &&& event.task_id is None || (task_id is Some && optional_text(event.task_id) == task_id)
}

impl CanonicalScan {
    pub fn new(session_id: String, task_id: Option<String>, through_seq: i64) -> (r: CanonicalScan)
        ensures
            r.view.well_formed(),
            r.view.size() == 0,
            r.view.edge_total() == 0,
            r.session_id == session_id,
            r.task_id == task_id,
            r.cursor == 0,
            r.through_seq == through_seq,
            forall|n: Seq<char>| #[trigger] r.view.row(n) is None,
            forall|n: Seq<char>| #[trigger]
                r.view.incoming_edges(n) == Seq::<CachedEdgeModel>::empty(),
    {
        CanonicalScan {
            view: CanonicalAdmissionView::new(),
            session_id,
            task_id,
            cursor: 0,
            through_seq,
        }
    }

    /// Moves to the next event; says whether it records a node of the scope.
    pub fn step(&mut self, event: &EventRecord) -> (r: Result<bool, ContextProjectionError>)
        ensures
            final(self).view == old(self).view,
            final(self).session_id == old(self).session_id,
            final(self).task_id == old(self).task_id,
            final(self).through_seq == old(self).through_seq,
            old(self).cursor < event.seq <= old(self).through_seq ==> r == Ok::<
                bool,
                ContextProjectionError,
            >(selected(*event, optional_text(old(self).task_id))) && final(self).cursor
                == event.seq,
            !(old(self).cursor < event.seq <= old(self).through_seq) ==> r == Err::<
                bool,
                ContextProjectionError,
            >(
                ContextProjectionError::NonMonotonicPage {
                    after: old(self).cursor,
                    found: event.seq,
                },
            ) && final(self).cursor == old(self).cursor,
    {
        if event.seq <= self.cursor || event.seq > self.through_seq {
            return Err(
                ContextProjectionError::NonMonotonicPage { after: self.cursor, found: event.seq },
            );
        }
        self.cursor = event.seq;
        if !same_text(&event.kind, CONTEXT_NODE_RECORDED) {
            return Ok(false);
        }
        if event.task_id.is_none() {
            return Ok(true);
        }
        Ok(self.task_id.is_some() && same_optional_text(&event.task_id, &self.task_id))
    }

    /// Adds a node that the scope selects. `parsed` and `found` are what reading
    /// the payload's node and looking its sources up gave, and `json` is the
    /// text of the node.
    pub fn record(
        &mut self,
        event: &EventRecord,
        parsed: &Result<ContextNode, String>,
        found: &Vec<Option<EventRecord>>,
        json: &str,
    ) -> (r: Result<(), ContextProjectionError>)
        requires
            old(self).view.well_formed(),
            parsed matches Ok(node) ==> found@.len() == node.source_event_ids@.len(),
        ensures
            final(self).session_id == old(self).session_id,
            final(self).task_id == old(self).task_id,
            final(self).cursor == old(self).cursor,
            final(self).through_seq == old(self).through_seq,
            final(self).view.well_formed(),
            record_outcome(
                *event,
                *parsed,
                found@,
                json@,
                old(self).session_id@,
                old(self).view,
                final(self).view,
                r,
            ),
    {
        let mut unbudgeted: Option<DeltaVerificationBudget> = None;
        let v = match decode_recorded_node(event, parsed, found, &mut unbudgeted) {
            Ok(v) => v,
            Err(e) => {
                return Err(e);
            },
        };
        proof {
            decoded_nodes_are_durable(*event, *parsed, found@, None, None, v);
            assert(decode_outcome(*event, *parsed, found@, None, None, Ok(v)));
        }
        self.add_node(event, &v, json)
    }

    /// Adds a decoded node to the view.
    fn add_node(&mut self, event: &EventRecord, v: &ValidatedRecordedNode, json: &str) -> (r: Result<
        (),
        ContextProjectionError,
    >)
        requires
            old(self).view.well_formed(),
            durable(v.node@),
        ensures
            final(self).session_id == old(self).session_id,
            final(self).task_id == old(self).task_id,
            final(self).cursor == old(self).cursor,
            final(self).through_seq == old(self).through_seq,
            final(self).view.well_formed(),
            addition_outcome(
                *event,
                *v,
                json@,
                old(self).session_id@,
                old(self).view,
                final(self).view,
                r,
            ),
    {
        if self.view.rows.len() >= MAX_CANDIDATE_COUNT {
            return Err(
                ContextProjectionError::Retrieval(
                    RetrievalError::CandidateCountExceeded {
                        actual: MAX_CANDIDATE_COUNT + 1,
                        maximum: MAX_CANDIDATE_COUNT,
                    },
                ),
            );
        }
        if let Some(existing) = self.view.rows.get(&v.node.id) {
            return Err(
                ContextProjectionError::DuplicateNodeIdentity {
                    session_id: self.session_id.clone(),
                    node_id: v.node.id.clone(),
                    event_id: existing.event_id.clone(),
                    seq: existing.event_seq,
                },
            );
        }
        assert(v.node@.supersedes.len() == v.node.supersedes@.len());
        self.view.add_incoming(event, v);
        self.view.insert_row(v.node.id.clone(), canonical_cache_row(event, v, json));
        Ok(())
    }
}

impl CanonicalAdmissionView {
    /// Adds the row of a node that has none.
    fn insert_row(&mut self, id: String, row: CanonicalAdmissionRow)
        requires
            old(self).well_formed(),
            old(self).size() < MAX_CANDIDATE_COUNT,
            old(self).row(id@) is None,
            row.outgoing_edge_count <= MAX_CONTEXT_SUPERSEDES,
        ensures
            final(self).well_formed(),
            final(self).size() == old(self).size() + 1,
            final(self).edge_total() == old(self).edge_total() + row.outgoing_edge_count,
            forall|n: Seq<char>| #[trigger]
                final(self).row(n) == if n == id@ {
                    Some(row@)
                } else {
                    old(self).row(n)
                },
            forall|n: Seq<char>| #[trigger]
                final(self).incoming_edges(n) == old(self).incoming_edges(n),
    {
        let ghost rows_before = self.rows;
        let ghost key = id@;
        let added = self.rows.insert(id, row);
        proof {
            assert(rows_before.at(key) is None);
            let listed = rows_before.value_list();
            assert(self.rows.value_list() =~= listed.push(row));
            assert(listed.push(row).drop_last() =~= listed);
            assert forall|n: Seq<char>| #[trigger] self.row(n) == if n == key {
                Some(row@)
            } else {
                old(self).row(n)
            } by {
                assert(self.rows.at(n) == if n == key {
                    Some(row)
                } else {
                    rows_before.at(n)
                });
            }
            assert forall|i: int| 0 <= i < self.rows.value_list().len() implies (
            #[trigger] self.rows.value_list()[i]).outgoing_edge_count
                <= MAX_CONTEXT_SUPERSEDES by {
                if i < rows_before.value_list().len() {
                    assert(self.rows.value_list()[i] == rows_before.value_list()[i]);
                } else {
                    assert(self.rows.value_list()[i] == row);
                }
            }
        }
    }

    /// Adds the edges from a node under each of its targets.
    fn add_incoming(&mut self, event: &EventRecord, v: &ValidatedRecordedNode)
        requires
            old(self).well_formed(),
        ensures
            final(self).well_formed(),
            final(self).size() == old(self).size(),
            final(self).edge_total() == old(self).edge_total(),
            forall|n: Seq<char>| #[trigger] final(self).row(n) == old(self).row(n),
            forall|n: Seq<char>| #[trigger]
                final(self).incoming_edges(n) == old(self).incoming_edges(n) + added_edges(
                    *v,
                    event.seq,
                    n,
                    v.node@.supersedes.len(),
                ),
    {
        let ghost before = *self;
        let mut i: usize = 0;
        assert forall|n: Seq<char>| #[trigger] self.incoming_edges(n) == before.incoming_edges(n)
            + added_edges(*v, event.seq, n, 0) by {
            assert(before.incoming_edges(n) + added_edges(*v, event.seq, n, 0)
                =~= before.incoming_edges(n));
        }
        while i < v.node.supersedes.len()
            invariant
                before == *old(self),
                0 <= i <= v.node.supersedes@.len(),
                self.incoming.well_formed(),
                self.rows == before.rows,
                forall|n: Seq<char>| #[trigger]
                    self.incoming_edges(n) == before.incoming_edges(n) + added_edges(
                        *v,
                        event.seq,
                        n,
                        i as nat,
                    ),
            decreases v.node.supersedes.len() - i,
        {
            let target = &v.node.supersedes[i];
            assert(v.node@.supersedes[i as int] == target@);
            let edge = CachedEdge {
                superseding_node_id: v.node.id.clone(),
                task_key: task_key(&v.task_id),
                event_seq: event.seq,
                superseded_node_id: target.clone(),
            };
            let ghost middle = *self;
            self.incoming.push(target, &edge);
            assert forall|n: Seq<char>| #[trigger] self.incoming_edges(n)
                == before.incoming_edges(n) + added_edges(*v, event.seq, n, (i + 1) as nat) by {
                assert(middle.incoming_edges(n) == before.incoming_edges(n) + added_edges(
                    *v,
                    event.seq,
                    n,
                    i as nat,
                ));
                assert(self.incoming.edges(n) == if n == target@ {
                    middle.incoming.edges(n).push(edge@)
                } else {
                    middle.incoming.edges(n)
                });
                assert(self.incoming_edges(n) =~= before.incoming_edges(n) + added_edges(
                    *v,
                    event.seq,
                    n,
                    (i + 1) as nat,
                ));
            }
            i += 1;
        }
    }
}

/// The result of adding a decoded node to the view: the number of rows decides,
/// then the identity. A refused node leaves the view as it was.
pub open spec fn addition_outcome(
    event: EventRecord,
    v: ValidatedRecordedNode,
    json: Seq<char>,
    session_id: Seq<char>,
    before: CanonicalAdmissionView,
    after: CanonicalAdmissionView,
    r: Result<(), ContextProjectionError>,
) -> bool {
    if before.size() >= MAX_CANDIDATE_COUNT {
        r is Err && refuses_row_count(r->Err_0) && after == before
    } else {
        match before.row(v.node@.id) {
            Some(taken) => {
                &&& r is Err
                &&& after == before
                &&& r->Err_0 is DuplicateNodeIdentity
                &&& r->Err_0->DuplicateNodeIdentity_session_id@ == session_id
                &&& r->Err_0->DuplicateNodeIdentity_node_id@ == v.node@.id
                &&& r->Err_0->DuplicateNodeIdentity_event_id@ == taken.event_id
                &&& r->Err_0->DuplicateNodeIdentity_seq == taken.event_seq
            },
            None => {
                &&& r is Ok
                &&& after.size() == before.size() + 1
                &&& after.edge_total() == before.edge_total() + v.node@.supersedes.len()
                &&& forall|n: Seq<char>| #[trigger]
                    after.row(n) == if n == v.node@.id {
                        Some(canonical_row(event, v, json))
                    } else {
                        before.row(n)
                    }
                &&& forall|n: Seq<char>| #[trigger]
                    after.incoming_edges(n) == before.incoming_edges(n) + added_edges(
                        v,
                        event.seq,
                        n,
                        v.node@.supersedes.len(),
                    )
            },
        }
    }
}

/// The result of recording a node in the view: decoding decides, then the view.
pub open spec fn record_outcome(
    event: EventRecord,
    parsed: Result<ContextNode, String>,
    found: Seq<Option<EventRecord>>,
    json: Seq<char>,
    session_id: Seq<char>,
    before: CanonicalAdmissionView,
    after: CanonicalAdmissionView,
    r: Result<(), ContextProjectionError>,
) -> bool {
    ||| r is Err && decode_outcome(event, parsed, found, None, None, Err(r->Err_0)) && after
        == before
    ||| exists|v: ValidatedRecordedNode|
        #[trigger] decode_outcome(event, parsed, found, None, None, Ok(v)) && addition_outcome(
            event,
            v,
            json,
            session_id,
            before,
            after,
            r,
        )
}

/// The edge concerns the scope: it belongs to it, or touches one of its rows.
pub open spec fn relevant_edge(
    view: CanonicalAdmissionView,
    task_id: Option<Seq<char>>,
    e: CachedEdgeModel,
) -> bool {
    ||| e.task_key.len() == 0
    ||| task_id == Some(e.task_key)
    ||| view.has(e.superseding)
    ||| view.has(e.superseded)
}

/// The stored edges that concern the scope, in order.
pub open spec fn relevant_edges(
    view: CanonicalAdmissionView,
    task_id: Option<Seq<char>>,
    edges: Seq<CachedEdgeModel>,
) -> Seq<CachedEdgeModel>
    decreases edges.len(),
{
    if edges.len() == 0 {
        Seq::empty()
    } else {
        let before = relevant_edges(view, task_id, edges.drop_last());
        if relevant_edge(view, task_id, edges.last()) {
            before.push(edges.last())
        } else {
            before
        }
    }
}

/// The edges from a node, in order.
pub open spec fn edges_out(edges: Seq<CachedEdgeModel>, node: Seq<char>) -> Seq<CachedEdgeModel>
    decreases edges.len(),
{
    if edges.len() == 0 {
        Seq::empty()
    } else if edges.last().superseding == node {
        edges_out(edges.drop_last(), node).push(edges.last())
    } else {
        edges_out(edges.drop_last(), node)
    }
}

/// The edges into a node, in order.
pub open spec fn edges_in(edges: Seq<CachedEdgeModel>, node: Seq<char>) -> Seq<CachedEdgeModel>
    decreases edges.len(),
{
    if edges.len() == 0 {
        Seq::empty()
    } else if edges.last().superseded == node {
        edges_in(edges.drop_last(), node).push(edges.last())
    } else {
        edges_in(edges.drop_last(), node)
    }
}

/// Every edge joins two rows of the view.
pub open spec fn endpoints_known(
    view: CanonicalAdmissionView,
    edges: Seq<CachedEdgeModel>,
) -> bool {
    forall|i: int|
        0 <= i < edges.len() ==> view.has((#[trigger] edges[i]).superseding) && view.has(
            edges[i].superseded,
        )
}

/// The stored edges that concern the scope are as many as the view expects, and
/// join its rows alone.
pub open spec fn edges_agree(
    view: CanonicalAdmissionView,
    task_id: Option<Seq<char>>,
    edges: Seq<CachedEdgeModel>,
) -> bool {
    let relevant = relevant_edges(view, task_id, edges);
    relevant.len() == view.edge_total() && endpoints_known(view, relevant)
}

/// The stored edges of a scope, gathered by node.
pub struct CachedScopeEdgeView {
    pub outgoing: EdgeTable,
    pub incoming: EdgeTable,
}

/// Gathers the stored edges that concern the scope, unless they disagree with
/// the view.
pub fn cached_scope_edge_view(
    view: &CanonicalAdmissionView,
    task_id: &Option<String>,
    edges: &Vec<CachedEdge>,
) -> (r: Option<CachedScopeEdgeView>)
    requires
        view.well_formed(),
    ensures
        r is Some == edges_agree(*view, optional_text(*task_id), edges_view(edges@)),
        r matches Some(gathered) ==> {
            let relevant = relevant_edges(*view, optional_text(*task_id), edges_view(edges@));
            &&& gathered.outgoing.well_formed()
            &&& gathered.incoming.well_formed()
            &&& forall|n: Seq<char>| #[trigger]
                gathered.outgoing.edges(n) == edges_out(relevant, n)
            &&& forall|n: Seq<char>| #[trigger]
                gathered.incoming.edges(n) == edges_in(relevant, n)
        },
{
    let ghost task = optional_text(*task_id);
    let ghost all = edges_view(edges@);
    let expected: usize = view.expected_edges();
    let mut outgoing = EdgeTable::new();
    let mut incoming = EdgeTable::new();
    let mut count: usize = 0;
    let mut known = true;
    let mut i: usize = 0;
    assert(all.take(0) =~= Seq::empty());
    while i < edges.len()
        invariant
            view.well_formed(),
            task == optional_text(*task_id),
            all == edges_view(edges@),
            0 <= i <= edges@.len(),
            count == relevant_edges(*view, task, all.take(i as int)).len(),
            count <= i,
            known == endpoints_known(*view, relevant_edges(*view, task, all.take(i as int))),
            outgoing.well_formed(),
            incoming.well_formed(),
            forall|n: Seq<char>| #[trigger]
                outgoing.edges(n) == edges_out(
                    relevant_edges(*view, task, all.take(i as int)),
                    n,
                ),
            forall|n: Seq<char>| #[trigger]
                incoming.edges(n) == edges_in(relevant_edges(*view, task, all.take(i as int)), n),
        decreases edges.len() - i,
    {
        let e = &edges[i];
        let ghost before = relevant_edges(*view, task, all.take(i as int));
        assert(all.take(i + 1).drop_last() =~= all.take(i as int));
        assert(all.take(i + 1).last() == e@);
        let from_known = view.rows.contains(&e.superseding_node_id);
        let to_known = view.rows.contains(&e.superseded_node_id);
        let in_task = match task_id {
            Some(t) => same_text(t, &e.task_key),
            None => false,
        };
        if e.task_key.as_str().is_empty() || in_task || from_known || to_known {
            let ghost after = before.push(e@);
            assert(after.drop_last() =~= before);
            assert(relevant_edges(*view, task, all.take(i + 1)) == after);
            count = count + 1;
            if !from_known || !to_known {
                assert(!(view.has(after[before.len() as int].superseding) && view.has(
                    after[before.len() as int].superseded,
                )));
                known = false;
            } else {
                assert(known ==> endpoints_known(*view, after));
                assert(endpoints_known(*view, after) ==> endpoints_known(*view, before)) by {
                    if endpoints_known(*view, after) {
                        assert forall|j: int| 0 <= j < before.len() implies view.has(
                            (#[trigger] before[j]).superseding,
                        ) && view.has(before[j].superseded) by {
                            assert(after[j] == before[j]);
                        }
                    }
                }
            }
            outgoing.push(&e.superseding_node_id, e);
            incoming.push(&e.superseded_node_id, e);
        } else {
            assert(relevant_edges(*view, task, all.take(i + 1)) == before);
        }
        i += 1;
    }
    assert(all.take(i as int) =~= all);
    if !known || count != expected {
        return None;
    }
    Some(CachedScopeEdgeView { outgoing, incoming })
}

/// A stored row is the one that the journal defines: its task, event, text,
/// and the edges from it and into it.
pub open spec fn row_confirmed(
    view: CanonicalAdmissionView,
    relevant: Seq<CachedEdgeModel>,
    raw: RawProjectedRow,
) -> bool {
    &&& view.row(raw.node_id@) matches Some(expected) && {
        &&& optional_text(raw.task_id) == expected.task_id
        &&& raw.event_seq == expected.event_seq
        &&& raw.event_id@ == expected.event_id
        &&& sha256_of(encode_utf8(raw.node_json@)) == expected.node_digest
        &&& sha256_of(edges_bytes(edges_out(relevant, raw.node_id@)))
            == expected.outgoing_edge_digest
        &&& edges_out(relevant, raw.node_id@).len() == expected.outgoing_edge_count
    }
    &&& sha256_of(edges_bytes(edges_in(relevant, raw.node_id@))) == sha256_of(
        edges_bytes(view.incoming_edges(raw.node_id@)),
    )
    &&& edges_in(relevant, raw.node_id@).len() == view.incoming_edges(raw.node_id@).len()
}

/// The digest and the number of edges.
#[derive(Debug, Clone, Copy)]
pub struct EdgeShape {
    pub digest: [u8; 32],
    pub count: usize,
}

/// Two shapes are the same.
pub fn same_shape(a: &EdgeShape, b: &EdgeShape) -> (r: bool)
    ensures
        r == (a.digest@ == b.digest@ && a.count == b.count),
{
    same_digest(&a.digest, &b.digest) && a.count == b.count
}

/// Whether a stored row is the one that the journal defines, given the digest of
/// its text, the shapes of the stored edges from it and into it, and the shape
/// of the edges into it that the journal defines.
pub fn row_agrees_with(
    raw: &RawProjectedRow,
    expected: &CanonicalAdmissionRow,
    text_digest: &[u8; 32],
    outgoing: &EdgeShape,
    incoming: &EdgeShape,
    expected_incoming: &EdgeShape,
) -> (r: bool)
    ensures
        r == {
            &&& optional_text(raw.task_id) == expected@.task_id
            &&& raw.event_seq == expected@.event_seq
            &&& raw.event_id@ == expected@.event_id
            &&& text_digest@ == expected@.node_digest
            &&& outgoing.digest@ == expected@.outgoing_edge_digest
            &&& outgoing.count == expected@.outgoing_edge_count
            &&& incoming.digest@ == expected_incoming.digest@
            &&& incoming.count == expected_incoming.count
        },
{
    same_optional_text(&raw.task_id, &expected.task_id) && raw.event_seq == expected.event_seq
        && same_text(&raw.event_id, &expected.event_id) && same_digest(
        text_digest,
        &expected.node_digest,
    ) && same_digest(&outgoing.digest, &expected.outgoing_edge_digest) && outgoing.count
        == expected.outgoing_edge_count && same_shape(incoming, expected_incoming)
}

fn confirm_row(
    view: &CanonicalAdmissionView,
    edges: &CachedScopeEdgeView,
    raw: &RawProjectedRow,
    relevant: Ghost<Seq<CachedEdgeModel>>,
) -> (r: bool)
    requires
        view.well_formed(),
        edges.outgoing.well_formed(),
        edges.incoming.well_formed(),
        forall|n: Seq<char>| #[trigger] edges.outgoing.edges(n) == edges_out(relevant@, n),
        forall|n: Seq<char>| #[trigger] edges.incoming.edges(n) == edges_in(relevant@, n),
    ensures
        r == row_confirmed(*view, relevant@, *raw),
{
    let expected = match view.rows.get(&raw.node_id) {
        Some(row) => row,
        None => {
            return false;
        },
    };
    let (out_digest, out_count) = edges.outgoing.shape(&raw.node_id);
    let (in_digest, in_count) = edges.incoming.shape(&raw.node_id);
    let (want_digest, want_count) = view.incoming.shape(&raw.node_id);
    row_agrees_with(
        raw,
        expected,
        &digest_text(&raw.node_json),
        &EdgeShape { digest: out_digest, count: out_count },
        &EdgeShape { digest: in_digest, count: in_count },
        &EdgeShape { digest: want_digest, count: want_count },
    )
}

/// The frame of the comparison agrees: the checkpoint, the number of rows and
/// the edges.
pub open spec fn frame_agrees(
    view: CanonicalAdmissionView,
    cached: Option<ProjectionCheckpoint>,
    expected: ProjectionCheckpoint,
    task_id: Option<Seq<char>>,
    edges: Seq<CachedEdgeModel>,
    rows: Seq<RawProjectedRow>,
) -> bool {
    &&& checkpoint_model(cached) == Some(expected@)
    &&& rows.len() <= MAX_CANDIDATE_COUNT
    &&& rows.len() == view.size()
    &&& edges_agree(view, task_id, edges)
}

/// Row `i` is confirmed and sound.
pub open spec fn row_verified(
    view: CanonicalAdmissionView,
    relevant: Seq<CachedEdgeModel>,
    rows: Seq<RawProjectedRow>,
    i: int,
) -> bool {
    row_confirmed(view, relevant, rows[i]) && row_sound(rows[i])
}

/// Row `i` is the first that is not verified.
pub open spec fn first_unverified(
    view: CanonicalAdmissionView,
    relevant: Seq<CachedEdgeModel>,
    rows: Seq<RawProjectedRow>,
    i: int,
) -> bool {
    &&& 0 <= i < rows.len()
    &&& forall|j: int| 0 <= j < i ==> #[trigger] row_verified(view, relevant, rows, j)
    &&& !row_verified(view, relevant, rows, i)
}

/// The result of comparing the cache with the canonical view: a snapshot where
/// everything agrees, nothing where anything disagrees, and an error where a row
/// agrees but breaks the durable rules.
pub open spec fn comparison_outcome(
    view: CanonicalAdmissionView,
    cached: Option<ProjectionCheckpoint>,
    expected: ProjectionCheckpoint,
    task_id: Option<Seq<char>>,
    edges: Seq<CachedEdgeModel>,
    rows: Seq<RawProjectedRow>,
    r: Result<Option<DerivedContextSnapshot>, ContextProjectionError>,
) -> bool {
    let relevant = relevant_edges(view, task_id, edges);
    if !frame_agrees(view, cached, expected, task_id, edges, rows) {
        r is Ok && r->Ok_0 is None
    } else {
        match r {
            Ok(Some(snapshot)) => {
                &&& forall|i: int|
                    0 <= i < rows.len() ==> #[trigger] row_verified(view, relevant, rows, i)
                &&& snapshot@ == (SnapshotModel {
                    checkpoint: expected@,
                    scanned_rows: rows.len(),
                    candidates: unsuperseded(rows),
                })
            },
            Ok(None) => exists|i: int|
                #[trigger] first_unverified(view, relevant, rows, i) && !row_confirmed(
                    view,
                    relevant,
                    rows[i],
                ),
            Err(e) => exists|i: int|
                #[trigger] first_unverified(view, relevant, rows, i) && row_confirmed(
                    view,
                    relevant,
                    rows[i],
                ) && row_refusal(rows[i], e),
        }
    }
}

/// Compares the cache with the canonical view and copies the scope where they
/// agree. `edges` are the session's stored edges in order of event, superseding
/// node, task and superseded node; `rows` are the scope's stored rows.
pub fn verified_snapshot_from_cache(
    view: &CanonicalAdmissionView,
    cached: &Option<ProjectionCheckpoint>,
    expected: &ProjectionCheckpoint,
    task_id: &Option<String>,
    edges: &Vec<CachedEdge>,
    rows: &Vec<RawProjectedRow>,
) -> (r: Result<Option<DerivedContextSnapshot>, ContextProjectionError>)
    requires
        view.well_formed(),
    ensures
        comparison_outcome(
            *view,
            *cached,
            *expected,
            optional_text(*task_id),
            edges_view(edges@),
            rows@,
            r,
        ),
{
    if !is_checkpoint(cached, expected) {
        return Ok(None);
    }
    if rows.len() > MAX_CANDIDATE_COUNT || rows.len() != view.rows.len() {
        return Ok(None);
    }
    let ghost relevant = relevant_edges(*view, optional_text(*task_id), edges_view(edges@));
    let gathered = match cached_scope_edge_view(view, task_id, edges) {
        Some(g) => g,
        None => {
            return Ok(None);
        },
    };
    let mut candidates: Vec<ContextNode> = Vec::new();
    let mut i: usize = 0;
    assert(nodes_view(candidates@) =~= unsuperseded(rows@.take(0)));
    while i < rows.len()
        invariant
            view.well_formed(),
            gathered.outgoing.well_formed(),
            gathered.incoming.well_formed(),
            forall|n: Seq<char>| #[trigger] gathered.outgoing.edges(n) == edges_out(relevant, n),
            forall|n: Seq<char>| #[trigger] gathered.incoming.edges(n) == edges_in(relevant, n),
            relevant == relevant_edges(*view, optional_text(*task_id), edges_view(edges@)),
            frame_agrees(
                *view,
                *cached,
                *expected,
                optional_text(*task_id),
                edges_view(edges@),
                rows@,
            ),
            0 <= i <= rows@.len(),
            forall|j: int| 0 <= j < i ==> #[trigger] row_verified(*view, relevant, rows@, j),
            nodes_view(candidates@) == unsuperseded(rows@.take(i as int)),
        decreases rows.len() - i,
    {
        assert(rows@.take(i + 1).drop_last() =~= rows@.take(i as int));
        assert(rows@.take(i + 1).last() == rows@[i as int]);
        if !confirm_row(view, &gathered, &rows[i], Ghost(relevant)) {
            assert(first_unverified(*view, relevant, rows@, i as int));
            return Ok(None);
        }
        match projected_row(&rows[i]) {
            Err(e) => {
                assert(first_unverified(*view, relevant, rows@, i as int));
                return Err(e);
            },
            Ok(node) => {
                if !rows[i].superseded {
                    let ghost before = nodes_view(candidates@);
                    candidates.push(node);
                    assert(nodes_view(candidates@) =~= before.push(node@));
                }
            },
        }
        assert(row_verified(*view, relevant, rows@, i as int));
        i += 1;
    }
    assert(rows@.take(i as int) =~= rows@);
    Ok(
        Some(
            DerivedContextSnapshot {
                checkpoint: expected.clone(),
                scanned_rows: rows.len(),
                candidates,
            },
        ),
    )
}

/// A snapshot that the comparison returns agrees with the journal row by row:
/// each row is one that the journal defines, with the digest of its text.
pub proof fn compared_snapshots_agree(
    view: CanonicalAdmissionView,
    cached: Option<ProjectionCheckpoint>,
    expected: ProjectionCheckpoint,
    task_id: Option<Seq<char>>,
    edges: Seq<CachedEdgeModel>,
    rows: Seq<RawProjectedRow>,
    snapshot: DerivedContextSnapshot,
)
    requires
        comparison_outcome(view, cached, expected, task_id, edges, rows, Ok(Some(snapshot))),
    ensures
        rows.len() == view.size(),
        forall|i: int| 0 <= i < rows.len() ==> row_backed(view, #[trigger] rows[i]),
{
    let relevant = relevant_edges(view, task_id, edges);
    assert forall|i: int| 0 <= i < rows.len() implies row_backed(view, #[trigger] rows[i]) by {
        assert(row_verified(view, relevant, rows, i));
    }
}

/// The journal defines the row: it has the digest of its text, and the node
/// keeps the durable rules.
pub open spec fn row_backed(view: CanonicalAdmissionView, raw: RawProjectedRow) -> bool {
    &&& view.row(raw.node_id@) is Some
    &&& sha256_of(encode_utf8(raw.node_json@)) == view.row(raw.node_id@)->0.node_digest
    &&& raw.parsed is Ok
    &&& durable(raw.parsed->Ok_0@)
}

/// A recorded node enters the view only where it decodes; a refused one leaves the
/// view as it was.
pub proof fn views_take_in_decoded_nodes(
    event: EventRecord,
    parsed: Result<ContextNode, String>,
    found: Seq<Option<EventRecord>>,
    json: Seq<char>,
    session_id: Seq<char>,
    before: CanonicalAdmissionView,
    after: CanonicalAdmissionView,
    r: Result<(), ContextProjectionError>,
    other: Seq<char>,
)
    requires
        record_outcome(event, parsed, found, json, session_id, before, after, r),
    ensures
        r is Err ==> after == before,
        r is Ok ==> parsed is Ok && durable(parsed->Ok_0@) && before.row(parsed->Ok_0@.id) is None
            && after.row(parsed->Ok_0@.id) is Some,
        r is Ok ==> after.row(parsed->Ok_0@.id)->0.event_seq == event.seq && after.row(
            parsed->Ok_0@.id,
        )->0.event_id == event.event_id@ && after.row(parsed->Ok_0@.id)->0.task_id
            == optional_text(event.task_id),
        r is Ok && other != parsed->Ok_0@.id ==> after.row(other) == before.row(other),
        r is Ok ==> after.size() == before.size() + 1 && after.edge_total() == before.edge_total()
            + parsed->Ok_0@.supersedes.len(),
{
    if let Ok(u) = r {
        let v = choose|v: ValidatedRecordedNode|
            #[trigger] decode_outcome(event, parsed, found, None, None, Ok(v)) && addition_outcome(
                event,
                v,
                json,
                session_id,
                before,
                after,
                r,
            );
        assert(decode_outcome(event, parsed, found, None, None, Ok(v)));
        assert(v.node@ == parsed->Ok_0@);
    }
}

/// Where the stored edges agree with the view, each that belongs to the scope or
/// touches a row of it joins two of its rows.
pub proof fn agreeing_edges_join_two_rows(
    view: CanonicalAdmissionView,
    task_id: Option<Seq<char>>,
    edges: Seq<CachedEdgeModel>,
    i: int,
)
    requires
        edges_agree(view, task_id, edges),
        0 <= i < edges.len(),
        edges[i].task_key.len() == 0 || task_id == Some(edges[i].task_key) || view.has(
            edges[i].superseding,
        ) || view.has(edges[i].superseded),
    ensures
        view.has(edges[i].superseding),
        view.has(edges[i].superseded),
{
    lemma_relevant_edges_hold(view, task_id, edges, i);
    let relevant = relevant_edges(view, task_id, edges);
    let k = choose|k: int| 0 <= k < relevant.len() && #[trigger] relevant[k] == edges[i];
    assert(relevant[k] == edges[i]);
}

proof fn lemma_relevant_edges_hold(
    view: CanonicalAdmissionView,
    task_id: Option<Seq<char>>,
    edges: Seq<CachedEdgeModel>,
    i: int,
)
    requires
        0 <= i < edges.len(),
        relevant_edge(view, task_id, edges[i]),
    ensures
        exists|k: int|
            0 <= k < relevant_edges(view, task_id, edges).len() && #[trigger] relevant_edges(
                view,
                task_id,
                edges,
            )[k] == edges[i],
    decreases edges.len(),
{
    let all = relevant_edges(view, task_id, edges);
    let before = relevant_edges(view, task_id, edges.drop_last());
    if i == edges.len() - 1 {
        assert(all[before.len() as int] == edges[i]);
    } else {
        lemma_relevant_edges_hold(view, task_id, edges.drop_last(), i);
        let k = choose|k: int|
            0 <= k < before.len() && #[trigger] before[k] == edges.drop_last()[i];
        assert(all[k] == edges[i]);
    }
}

} // verus!
