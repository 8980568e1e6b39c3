//! Copying projected nodes out of the cache.

use vstd::prelude::*;

use crate::context::capsule::nodes_view;
use crate::context::node::{ContextNode, NodeModel};
use crate::projection::checkpoint::{CheckpointModel, ProjectionCheckpoint};
use crate::projection::durable::{
    durable, durable_message, durable_outcome, durable_refusal_text, durable_refusals_have_words,
    scope_fault, scope_outcome, validate_durable_node, validate_requested_scope,
};
use crate::projection::error::ContextProjectionError;
use crate::projection::index::corrupt;
use crate::retrieval::{RetrievalError, RetrievalWorkBudget, MAX_CANDIDATE_COUNT};
use crate::text::{byte_len, optional_text, same_text, utf8_len};
use crate::time::Timestamp;

verus! {

/// A stored node, with whether an edge supersedes it. `parsed` is what reading
/// its text gave.
#[derive(Debug)]
pub struct RawProjectedRow {
    pub session_id: String,
    pub task_id: Option<String>,
    pub node_id: String,
    pub event_seq: i64,
    pub event_id: String,
    pub node_json: String,
    pub superseded: bool,
    pub parsed: Result<ContextNode, String>,
}

/// The row holds the node that it names, in keeping with the durable rules and
/// in a scope that fits.
pub open spec fn row_sound(raw: RawProjectedRow) -> bool {
    &&& raw.parsed is Ok
    &&& raw.parsed->Ok_0@.id == raw.node_id@
    &&& durable(raw.parsed->Ok_0@)
    &&& scope_fault(
        raw.session_id@,
        optional_text(raw.task_id),
        raw.parsed->Ok_0.scope,
    ) is None
}

/// The refusal of a row: its text, its identity, the durable rules and its
/// scope decide, in that order.
pub open spec fn row_refusal(raw: RawProjectedRow, e: ContextProjectionError) -> bool {
    match raw.parsed {
        Err(reason) => corrupt(e, raw.event_seq, reason@),
        Ok(node) => if node@.id != raw.node_id@ {
            corrupt(e, raw.event_seq, "stored node ID differs from serialized node"@)
        } else if !durable(node@) {
            exists|cause: ContextProjectionError|
                #[trigger] durable_outcome(node@, Err(cause)) && corrupt(
                    e,
                    raw.event_seq,
                    durable_message(cause),
                )
        } else {
            scope_outcome(
                raw.event_seq,
                raw.session_id@,
                optional_text(raw.task_id),
                node.scope,
                Err(e),
            )
        },
    }
}

/// Reads a stored node.
pub fn projected_row(raw: &RawProjectedRow) -> (r: Result<ContextNode, ContextProjectionError>)
    ensures
        match r {
            Ok(node) => row_sound(*raw) && node@ == raw.parsed->Ok_0@,
            Err(e) => !row_sound(*raw) && row_refusal(*raw, e),
        },
{
    let node = match &raw.parsed {
        Ok(n) => n,
        Err(reason) => {
            return Err(
                ContextProjectionError::CorruptProjectionRow {
                    seq: raw.event_seq,
                    reason: reason.clone(),
                },
            );
        },
    };
    if !same_text(&node.id, &raw.node_id) {
        return Err(
            ContextProjectionError::CorruptProjectionRow {
                seq: raw.event_seq,
                reason: "stored node ID differs from serialized node".to_owned(),
            },
        );
    }
    match validate_durable_node(node) {
        Err(cause) => {
            proof {
                durable_refusals_have_words(node@, Err(cause));
            }
            let e = ContextProjectionError::CorruptProjectionRow {
                seq: raw.event_seq,
                reason: durable_refusal_text(&cause),
            };
            assert(durable_outcome(node@, Err(cause)));
            return Err(e);
        },
        Ok(()) => {},
    }
    match validate_requested_scope(raw.event_seq, &raw.session_id, &raw.task_id, node.scope) {
        Err(e) => {
            return Err(e);
        },
        Ok(()) => {},
    }
    Ok(node.clone())
}

/// Scope-selected nodes copied out of the cache.
#[derive(Debug)]
pub struct DerivedContextSnapshot {
    pub checkpoint: ProjectionCheckpoint,
    pub scanned_rows: usize,
    pub candidates: Vec<ContextNode>,
}

/// The model of a snapshot.
pub struct SnapshotModel {
    pub checkpoint: CheckpointModel,
    pub scanned_rows: nat,
    pub candidates: Seq<NodeModel>,
}

impl View for DerivedContextSnapshot {
    type V = SnapshotModel;

    open spec fn view(&self) -> SnapshotModel {
        SnapshotModel {
            checkpoint: self.checkpoint@,
            scanned_rows: self.scanned_rows as nat,
            candidates: nodes_view(self.candidates@),
        }
    }
}

impl DerivedContextSnapshot {
    pub fn checkpoint(&self) -> (r: &ProjectionCheckpoint)
        ensures
            r@ == self@.checkpoint,
    {
        &self.checkpoint
    }

    /// The number of scope-selected rows that were inspected.
    pub fn scanned_rows(&self) -> (n: usize)
        ensures
            n == self@.scanned_rows,
    {
        self.scanned_rows
    }

    /// The nodes, in durable order.
    pub fn candidates(&self) -> (r: &Vec<ContextNode>)
        ensures
            nodes_view(r@) == self@.candidates,
    {
        &self.candidates
    }
}

/// The nodes of the rows that nothing supersedes, in order.
pub open spec fn unsuperseded(rows: Seq<RawProjectedRow>) -> Seq<NodeModel>
    decreases rows.len(),
{
    if rows.len() == 0 {
        Seq::empty()
    } else if rows.last().superseded {
        unsuperseded(rows.drop_last())
    } else {
        unsuperseded(rows.drop_last()).push(rows.last().parsed->Ok_0@)
    }
}

/// The error refuses more rows than one query may look at.
pub open spec fn refuses_row_count(e: ContextProjectionError) -> bool {
    e == ContextProjectionError::Retrieval(
        RetrievalError::CandidateCountExceeded {
            actual: (MAX_CANDIDATE_COUNT + 1) as usize,
            maximum: MAX_CANDIDATE_COUNT,
        },
    )
}

/// The error reports row `i`, the first that is not sound.
pub open spec fn reports_unsound_row(
    e: ContextProjectionError,
    rows: Seq<RawProjectedRow>,
    i: int,
) -> bool {
    &&& 0 <= i < rows.len()
    &&& forall|j: int| 0 <= j < i ==> row_sound(#[trigger] rows[j])
    &&& !row_sound(rows[i])
    &&& row_refusal(rows[i], e)
}

/// The result of copying the rows of a scope: too many rows, or the first row
/// that is not sound, refuses the copy.
pub open spec fn snapshot_outcome(
    checkpoint: CheckpointModel,
    rows: Seq<RawProjectedRow>,
    r: Result<DerivedContextSnapshot, ContextProjectionError>,
) -> bool {
    if rows.len() > MAX_CANDIDATE_COUNT {
        r is Err && refuses_row_count(r->Err_0)
    } else {
        match r {
            Ok(snapshot) => {
                &&& forall|i: int| 0 <= i < rows.len() ==> row_sound(#[trigger] rows[i])
                &&& snapshot@ == (SnapshotModel {
                    checkpoint,
                    scanned_rows: rows.len(),
                    candidates: unsuperseded(rows),
                })
            },
            Err(e) => exists|i: int| #[trigger] reports_unsound_row(e, rows, i),
        }
    }
}

/// Copies the rows of a scope, in durable order.
pub fn capture_snapshot(checkpoint: ProjectionCheckpoint, rows: &Vec<RawProjectedRow>) -> (r: Result<
    DerivedContextSnapshot,
    ContextProjectionError,
>)
    ensures
        snapshot_outcome(checkpoint@, rows@, r),
{
    if rows.len() > MAX_CANDIDATE_COUNT {
        return Err(
            ContextProjectionError::Retrieval(
                RetrievalError::CandidateCountExceeded {
                    actual: MAX_CANDIDATE_COUNT + 1,
                    maximum: MAX_CANDIDATE_COUNT,
                },
            ),
        );
    }
    let mut candidates: Vec<ContextNode> = Vec::new();
    let mut i: usize = 0;
    assert(nodes_view(candidates@) =~= unsuperseded(rows@.take(0)));
    while i < rows.len()
        invariant
            rows@.len() <= MAX_CANDIDATE_COUNT,
            0 <= i <= rows@.len(),
            forall|j: int| 0 <= j < i ==> row_sound(#[trigger] rows@[j]),
            nodes_view(candidates@) == unsuperseded(rows@.take(i as int)),
        decreases rows.len() - i,
    {
        assert(rows@.take(i + 1).drop_last() =~= rows@.take(i as int));
        assert(rows@.take(i + 1).last() == rows@[i as int]);
        match projected_row(&rows[i]) {
            Err(e) => {
                assert(reports_unsound_row(e, rows@, i as int));
                return Err(e);
            },
            Ok(node) => {
                if !rows[i].superseded {
                    let ghost before = nodes_view(candidates@);
                    candidates.push(node);
                    assert(nodes_view(candidates@) =~= before.push(node@));
                }
            },
        }
        i += 1;
    }
    assert(rows@.take(i as int) =~= rows@);
    Ok(DerivedContextSnapshot { checkpoint, scanned_rows: rows.len(), candidates })
}

/// The budget once the first `k` rows are charged.
pub open spec fn budget_after_rows(
    rows: Seq<RawProjectedRow>,
    k: int,
    budget: RetrievalWorkBudget,
) -> RetrievalWorkBudget
    decreases k,
{
    if k <= 0 {
        budget
    } else {
        let before = budget_after_rows(rows, k - 1, budget);
        match before.with_candidate_bytes(utf8_len(rows[k - 1].node_json@) as usize) {
            Ok(after) => after,
            Err(_) => before,
        }
    }
}

/// Row `i` is within the count and the budget, sound, and active.
pub open spec fn active_row_fine(
    rows: Seq<RawProjectedRow>,
    now: Timestamp,
    budget: RetrievalWorkBudget,
    i: int,
) -> bool {
    &&& i < MAX_CANDIDATE_COUNT
    &&& budget_after_rows(rows, i, budget).with_candidate_bytes(
        utf8_len(rows[i].node_json@) as usize,
    ) is Ok
    &&& row_sound(rows[i])
    &&& !rows[i].superseded
    &&& rows[i].parsed->Ok_0@.active_at(now)
}

/// The error reports row `i`, the first that is not fine.
pub open spec fn reports_active_row(
    e: ContextProjectionError,
    through_seq: i64,
    rows: Seq<RawProjectedRow>,
    now: Timestamp,
    budget: RetrievalWorkBudget,
    budget_left: RetrievalWorkBudget,
    i: int,
) -> bool {
    let before = budget_after_rows(rows, i, budget);
    let charged = before.with_candidate_bytes(utf8_len(rows[i].node_json@) as usize);
    &&& 0 <= i < rows.len()
    &&& forall|j: int| 0 <= j < i ==> #[trigger] active_row_fine(rows, now, budget, j)
    &&& !active_row_fine(rows, now, budget, i)
    &&& if i >= MAX_CANDIDATE_COUNT {
        refuses_row_count(e) && budget_left == before
    } else if charged is Err {
        e == ContextProjectionError::Retrieval(charged->Err_0) && budget_left == before
    } else {
        &&& budget_left == charged->Ok_0
        &&& if !row_sound(rows[i]) {
            row_refusal(rows[i], e)
        } else {
            corrupt(
                e,
                through_seq,
                "active lifecycle columns disagree with serialized node"@,
            )
        }
    }
}

/// The nodes of sound rows, in order.
pub open spec fn row_nodes(rows: Seq<RawProjectedRow>) -> Seq<NodeModel> {
    rows.map_values(|raw: RawProjectedRow| raw.parsed->Ok_0@)
}

/// The result of copying the active rows of a scope.
pub open spec fn active_outcome(
    checkpoint: CheckpointModel,
    rows: Seq<RawProjectedRow>,
    now: Timestamp,
    budget: RetrievalWorkBudget,
    budget_left: RetrievalWorkBudget,
    r: Result<DerivedContextSnapshot, ContextProjectionError>,
) -> bool {
    match r {
        Ok(snapshot) => {
            &&& forall|i: int|
                0 <= i < rows.len() ==> #[trigger] active_row_fine(rows, now, budget, i)
            &&& budget_left == budget_after_rows(rows, rows.len() as int, budget)
            &&& snapshot@ == (SnapshotModel {
                checkpoint,
                scanned_rows: rows.len(),
                candidates: row_nodes(rows),
            })
        },
        Err(e) => exists|i: int| #[trigger]
            reports_active_row(e, checkpoint.through_seq, rows, now, budget, budget_left, i),
    }
}

/// Copies the rows that the cache selected as active, charging their bytes, and
/// refuses any whose node is not.
pub fn capture_active_snapshot(
    checkpoint: ProjectionCheckpoint,
    rows: &Vec<RawProjectedRow>,
    now: Timestamp,
    budget: &mut RetrievalWorkBudget,
) -> (r: Result<DerivedContextSnapshot, ContextProjectionError>)
    ensures
        active_outcome(checkpoint@, rows@, now, *old(budget), *final(budget), r),
{
    let ghost start = *budget;
    let ghost through_seq = checkpoint@.through_seq;
    let mut candidates: Vec<ContextNode> = Vec::new();
    let mut i: usize = 0;
    while i < rows.len()
        invariant
            start == *old(budget),
            through_seq == checkpoint@.through_seq,
            0 <= i <= rows@.len(),
            *budget == budget_after_rows(rows@, i as int, start),
            forall|j: int| 0 <= j < i ==> #[trigger] active_row_fine(rows@, now, start, j),
            nodes_view(candidates@) =~= row_nodes(rows@).take(i as int),
        decreases rows.len() - i,
    {
        let raw = &rows[i];
        if i >= MAX_CANDIDATE_COUNT {
            let e = ContextProjectionError::Retrieval(
                RetrievalError::CandidateCountExceeded {
                    actual: MAX_CANDIDATE_COUNT + 1,
                    maximum: MAX_CANDIDATE_COUNT,
                },
            );
            assert(reports_active_row(e, through_seq, rows@, now, start, *budget, i as int));
            return Err(e);
        }
        match budget.charge_candidate_bytes(byte_len(&raw.node_json)) {
            Err(cause) => {
                let e = ContextProjectionError::Retrieval(cause);
                assert(reports_active_row(e, through_seq, rows@, now, start, *budget, i as int));
                return Err(e);
            },
            Ok(()) => {},
        }
        assert(*budget == budget_after_rows(rows@, i + 1, start));
        let node = match projected_row(raw) {
            Err(e) => {
                assert(reports_active_row(e, through_seq, rows@, now, start, *budget, i as int));
                return Err(e);
            },
            Ok(n) => n,
        };
        if raw.superseded || !node.is_valid_at(now) {
            let e = ContextProjectionError::CorruptProjectionRow {
                seq: checkpoint.through_seq,
                reason: "active lifecycle columns disagree with serialized node".to_owned(),
            };
            assert(reports_active_row(e, through_seq, rows@, now, start, *budget, i as int));
            return Err(e);
        }
        assert(active_row_fine(rows@, now, start, i as int));
        let ghost before = nodes_view(candidates@);
        candidates.push(node);
        assert(nodes_view(candidates@) =~= before.push(node@));
        assert(row_nodes(rows@).take(i + 1) =~= row_nodes(rows@).take(i as int).push(node@));
        i += 1;
    }
    assert(row_nodes(rows@).take(i as int) =~= row_nodes(rows@));
    Ok(DerivedContextSnapshot { checkpoint, scanned_rows: rows.len(), candidates })
}

/// Every node of an active snapshot keeps the durable rules and is active, and
/// there are no more than one query may look at.
pub proof fn active_snapshots_are_active(
    checkpoint: CheckpointModel,
    rows: Seq<RawProjectedRow>,
    now: Timestamp,
    budget: RetrievalWorkBudget,
    budget_left: RetrievalWorkBudget,
    snapshot: DerivedContextSnapshot,
)
    requires
        active_outcome(checkpoint, rows, now, budget, budget_left, Ok(snapshot)),
    ensures
        snapshot@.candidates.len() <= MAX_CANDIDATE_COUNT,
        snapshot@.candidates.len() == snapshot@.scanned_rows,
        forall|i: int|
            0 <= i < snapshot@.candidates.len() ==> durable(#[trigger] snapshot@.candidates[i])
                && snapshot@.candidates[i].active_at(now),
{
    assert forall|i: int| 0 <= i < snapshot@.candidates.len() implies durable(
        #[trigger] snapshot@.candidates[i],
    ) && snapshot@.candidates[i].active_at(now) by {
        assert(active_row_fine(rows, now, budget, i));
    }
    if rows.len() > MAX_CANDIDATE_COUNT {
        assert(active_row_fine(rows, now, budget, MAX_CANDIDATE_COUNT as int));
    }
}

/// Source-verified active nodes, safe to rank.
#[derive(Debug)]
pub struct VerifiedContextSnapshot {
    snapshot: DerivedContextSnapshot,
}

impl View for VerifiedContextSnapshot {
    type V = SnapshotModel;

    closed spec fn view(&self) -> SnapshotModel {
        self.snapshot@
    }
}

impl VerifiedContextSnapshot {
    pub(crate) fn new(snapshot: DerivedContextSnapshot) -> (r: VerifiedContextSnapshot)
        ensures
            r@ == snapshot@,
    {
        VerifiedContextSnapshot { snapshot }
    }

    pub fn checkpoint(&self) -> (r: &ProjectionCheckpoint)
        ensures
            r@ == self@.checkpoint,
    {
        self.snapshot.checkpoint()
    }

    pub fn scanned_rows(&self) -> (n: usize)
        ensures
            n == self@.scanned_rows,
    {
        self.snapshot.scanned_rows()
    }

    pub fn candidates(&self) -> (r: &Vec<ContextNode>)
        ensures
            nodes_view(r@) == self@.candidates,
    {
        self.snapshot.candidates()
    }

    /// Hands the nodes over to ranking.
    pub fn into_candidates(self) -> (r: Vec<ContextNode>)
        ensures
            nodes_view(r@) == self@.candidates,
    {
        self.snapshot.candidates
    }
}

} // verus!
