//! What a synchronized projection holds of the journal.
//!
//! The cache is filled by applying the journal's recorded nodes one after the
//! other, so what it holds is a function of the journal alone: however it was
//! filled, and however often it was rebuilt.

use vstd::prelude::*;

use crate::context::node::NodeModel;
use crate::events::record::EventRecord;
use crate::projection::apply::entry_for;
use crate::projection::checkpoint::{zero_checkpoint, CheckpointModel};
use crate::projection::decode::{recording_of, CONTEXT_NODE_RECORDED};
use crate::projection::delta::{
    after_page, after_pages, checkpoint_at, committed_pages_advance, page_outcome, pages_taken,
    CatchUpModel, CommittedPage,
};
use crate::projection::index::RawSessionIndexEntry;
use crate::projection::replay::{
    applied_events_are_decoded, last_digest, last_state, replayed, replays_agree, Applied,
};
use crate::projection::sources::{greatest, source_of, sources_of, SourceModel};

verus! {

/// A recorded node and its text.
pub struct RecordedNode {
    pub node: NodeModel,
    pub json: Seq<char>,
}

/// An event of the journal, with the node that it records where it records one.
pub struct JournalEvent {
    pub event: SourceModel,
    pub recorded: Option<RecordedNode>,
}

/// No two events have the same identity.
pub open spec fn identities_differ(journal: Seq<JournalEvent>) -> bool {
    forall|i: int, j: int|
        0 <= i < j < journal.len() ==> (#[trigger] journal[i]).event.event_id != (
        #[trigger] journal[j]).event.event_id
}

/// The events of the journal that record a node, in order.
pub open spec fn nodes_of(journal: Seq<JournalEvent>) -> Seq<JournalEvent>
    decreases journal.len(),
{
    if journal.len() == 0 {
        Seq::empty()
    } else if journal.last().recorded is Some {
        nodes_of(journal.drop_last()).push(journal.last())
    } else {
        nodes_of(journal.drop_last())
    }
}

/// The journal holds the event.
pub open spec fn holds_event(journal: Seq<JournalEvent>, event: SourceModel) -> bool {
    exists|k: int| 0 <= k < journal.len() && (#[trigger] journal[k]).event == event
}

/// What was applied is that event of the journal, and its sources were looked up
/// there.
pub open spec fn reads(a: Applied, e: JournalEvent, journal: Seq<JournalEvent>) -> bool {
    &&& a.event.kind@ == CONTEXT_NODE_RECORDED@
    &&& source_of(a.event) == e.event
    &&& e.recorded == Some(RecordedNode { node: a.parsed->Ok_0@, json: a.json })
    &&& forall|i: int|
        0 <= i < a.found.len() && (#[trigger] a.found[i]) is Some ==> holds_event(
            journal,
            source_of(a.found[i]->0),
        )
}

/// The checkpoint of a projection of the journal with that digest.
pub open spec fn checkpoint_of(journal: Seq<JournalEvent>, digest: Seq<u8>) -> CheckpointModel {
    if journal.len() == 0 {
        zero_checkpoint()
    } else {
        checkpoint_at(journal.last().event.seq, journal.last().event.event_id, digest)
    }
}

/// The cache is a projection of the journal: its entries are what applying the
/// journal's recorded nodes left, and its checkpoint stands at the journal's last
/// event.
pub open spec fn projects(
    journal: Seq<JournalEvent>,
    steps: Seq<Applied>,
    rows: Seq<RawSessionIndexEntry>,
    checkpoint: CheckpointModel,
) -> bool {
    &&& steps.len() == nodes_of(journal).len()
    &&& forall|i: int|
        0 <= i < steps.len() ==> reads(#[trigger] steps[i], nodes_of(journal)[i], journal)
    &&& replayed(steps, rows)
    &&& checkpoint == checkpoint_of(journal, last_digest(steps))
}

/// An emptied cache is the projection of an empty journal.
pub proof fn emptied_caches_project_nothing()
    ensures
        projects(
            Seq::<JournalEvent>::empty(),
            Seq::<Applied>::empty(),
            Seq::<RawSessionIndexEntry>::empty(),
            zero_checkpoint(),
        ),
{
}

proof fn lemma_nodes_of_concat(a: Seq<JournalEvent>, b: Seq<JournalEvent>)
    ensures
        nodes_of(a + b) == nodes_of(a) + nodes_of(b),
    decreases b.len(),
{
    if b.len() == 0 {
        assert(a + b =~= a);
        assert(nodes_of(a) + nodes_of(b) =~= nodes_of(a));
    } else {
        lemma_nodes_of_concat(a, b.drop_last());
        assert((a + b).drop_last() =~= a + b.drop_last());
        assert((a + b).last() == b.last());
        assert(nodes_of(a + b) =~= nodes_of(a) + nodes_of(b));
    }
}

/// What is read from a journal is read from it when it has grown.
proof fn lemma_reads_grow(
    a: Applied,
    e: JournalEvent,
    journal: Seq<JournalEvent>,
    page: Seq<JournalEvent>,
)
    requires
        reads(a, e, journal),
    ensures
        reads(a, e, journal + page),
{
    let all = journal + page;
    assert forall|s: int| 0 <= s < a.found.len() && (#[trigger] a.found[s]) is Some implies
        holds_event(all, source_of(a.found[s]->0)) by {
        let k = choose|k: int|
            0 <= k < journal.len() && (#[trigger] journal[k]).event == source_of(a.found[s]->0);
        assert(all[k] == journal[k]);
    }
}

/// The page holds those events of the journal.
pub open spec fn page_of(events: Seq<EventRecord>, page: Seq<JournalEvent>) -> bool {
    &&& events.len() == page.len()
    &&& forall|i: int| 0 <= i < events.len() ==> source_of(#[trigger] events[i]) == page[i].event
}

/// A page that was taken and committed: its events of the journal, the steps
/// that applied the nodes among them, and the entries that these left.
pub struct AppliedPage {
    pub page: CommittedPage,
    pub events: Seq<JournalEvent>,
    pub steps: Seq<Applied>,
    pub rows: Seq<RawSessionIndexEntry>,
}

/// The recorded nodes of the page were applied on top of what the cache held, and
/// the page was committed with the digest that the last of them left.
pub open spec fn page_applied(
    journal: Seq<JournalEvent>,
    steps: Seq<Applied>,
    rows: Seq<RawSessionIndexEntry>,
    p: AppliedPage,
) -> bool {
    &&& page_of(p.page.events, p.events)
    &&& p.steps.len() == nodes_of(p.events).len()
    &&& forall|i: int|
        0 <= i < p.steps.len() ==> reads(
            #[trigger] p.steps[i],
            nodes_of(p.events)[i],
            journal + p.events,
        )
    &&& replayed(steps + p.steps, rows + p.rows)
    &&& p.page.digest == last_digest(steps + p.steps)
}

/// Committing a page whose recorded nodes were applied keeps the cache a
/// projection of the journal, now with the events of the page.
pub proof fn committed_pages_extend_the_projection(
    journal: Seq<JournalEvent>,
    steps: Seq<Applied>,
    rows: Seq<RawSessionIndexEntry>,
    m: CatchUpModel,
    p: AppliedPage,
)
    requires
        projects(journal, steps, rows, m.checkpoint),
        page_outcome(m, p.page.events, p.page.taken, Ok(())),
        page_applied(journal, steps, rows, p),
    ensures
        projects(
            journal + p.events,
            steps + p.steps,
            rows + p.rows,
            after_page(p.page).checkpoint,
        ),
{
    let (page, applied, events) = (p.events, p.steps, p.page.events);
    let (all, more) = (journal + page, steps + applied);
    lemma_nodes_of_concat(journal, page);
    assert forall|i: int| 0 <= i < more.len() implies reads(
        #[trigger] more[i],
        nodes_of(all)[i],
        all,
    ) by {
        if i < steps.len() {
            assert(more[i] == steps[i]);
            assert(nodes_of(all)[i] == nodes_of(journal)[i]);
            lemma_reads_grow(steps[i], nodes_of(journal)[i], journal, page);
        } else {
            assert(more[i] == applied[i - steps.len()]);
            assert(nodes_of(all)[i] == nodes_of(page)[i - steps.len()]);
        }
    }
    committed_pages_advance(m, events, p.page.taken);
    assert(all.last() == page.last());
    assert(source_of(events[events.len() - 1]) == page[page.len() - 1].event);
}

/// The journal with the events of the pages.
pub open spec fn journal_after(journal: Seq<JournalEvent>, pages: Seq<AppliedPage>) -> Seq<
    JournalEvent,
>
    decreases pages.len(),
{
    if pages.len() == 0 {
        journal
    } else {
        journal_after(journal, pages.drop_last()) + pages.last().events
    }
}

/// The steps with those of the pages.
pub open spec fn steps_after(steps: Seq<Applied>, pages: Seq<AppliedPage>) -> Seq<Applied>
    decreases pages.len(),
{
    if pages.len() == 0 {
        steps
    } else {
        steps_after(steps, pages.drop_last()) + pages.last().steps
    }
}

/// The entries with those of the pages.
pub open spec fn rows_after(rows: Seq<RawSessionIndexEntry>, pages: Seq<AppliedPage>) -> Seq<
    RawSessionIndexEntry,
>
    decreases pages.len(),
{
    if pages.len() == 0 {
        rows
    } else {
        rows_after(rows, pages.drop_last()) + pages.last().rows
    }
}

/// The pages as they were committed.
pub open spec fn committed_of(pages: Seq<AppliedPage>) -> Seq<CommittedPage> {
    pages.map_values(|p: AppliedPage| p.page)
}

/// Each page was applied on top of what the pages before it left.
pub open spec fn pages_applied(
    journal: Seq<JournalEvent>,
    steps: Seq<Applied>,
    rows: Seq<RawSessionIndexEntry>,
    pages: Seq<AppliedPage>,
) -> bool {
    forall|i: int|
        0 <= i < pages.len() ==> page_applied(
            journal_after(journal, pages.take(i)),
            steps_after(steps, pages.take(i)),
            rows_after(rows, pages.take(i)),
            #[trigger] pages[i],
        )
}

/// Catching up keeps the cache a projection of the journal: from one of the
/// events up to the checkpoint it becomes one of the events up to where catching
/// up ends. An emptied cache becomes one of the whole journal in the same way.
pub proof fn caught_up_caches_project_the_journal(
    start: CatchUpModel,
    journal: Seq<JournalEvent>,
    steps: Seq<Applied>,
    rows: Seq<RawSessionIndexEntry>,
    pages: Seq<AppliedPage>,
)
    requires
        projects(journal, steps, rows, start.checkpoint),
        pages_taken(start, committed_of(pages)),
        pages_applied(journal, steps, rows, pages),
    ensures
        projects(
            journal_after(journal, pages),
            steps_after(steps, pages),
            rows_after(rows, pages),
            after_pages(start, committed_of(pages)).checkpoint,
        ),
    decreases pages.len(),
{
    if pages.len() > 0 {
        let n = pages.len() - 1;
        let before = pages.drop_last();
        let taken = committed_of(pages);
        assert(before =~= pages.take(n));
        assert(committed_of(before) =~= taken.take(n));
        assert forall|i: int| 0 <= i < before.len() implies page_applied(
            journal_after(journal, before.take(i)),
            steps_after(steps, before.take(i)),
            rows_after(rows, before.take(i)),
            #[trigger] before[i],
        ) by {
            assert(before.take(i) =~= pages.take(i));
            assert(pages[i] == before[i]);
        }
        assert forall|i: int| 0 <= i < committed_of(before).len() implies page_outcome(
            after_pages(start, committed_of(before).take(i)),
            (#[trigger] committed_of(before)[i]).events,
            committed_of(before)[i].taken,
            Ok(()),
        ) by {
            assert(committed_of(before).take(i) =~= taken.take(i));
            assert(taken[i] == committed_of(before)[i]);
        }
        caught_up_caches_project_the_journal(start, journal, steps, rows, before);
        assert(taken[n] == pages[n].page);
        assert(page_applied(
            journal_after(journal, before),
            steps_after(steps, before),
            rows_after(rows, before),
            pages[n],
        ));
        committed_pages_extend_the_projection(
            journal_after(journal, before),
            steps_after(steps, before),
            rows_after(rows, before),
            after_pages(start, committed_of(before)),
            pages[n],
        );
    }
}

/// Applying the same event of the journal leaves the same entry and the same
/// stored node, whatever the cache held and whatever the budget was.
proof fn lemma_same_entry(
    journal: Seq<JournalEvent>,
    e: JournalEvent,
    a: Applied,
    before_a: Seq<RawSessionIndexEntry>,
    x: RawSessionIndexEntry,
    b: Applied,
    before_b: Seq<RawSessionIndexEntry>,
    y: RawSessionIndexEntry,
)
    requires
        identities_differ(journal),
        reads(a, e, journal),
        reads(b, e, journal),
        a.extends(before_a, x),
        b.extends(before_b, y),
    ensures
        x.entry() == y.entry(),
{
    let v = applied_events_are_decoded(a, before_a, x);
    let w = applied_events_are_decoded(b, before_b, y);
    let (p, q) = (recording_of(a.event, a.parsed->Ok_0), recording_of(b.event, b.parsed->Ok_0));
    assert(source_of(a.event) == source_of(b.event));
    assert forall|i: int| 0 <= i < a.found.len() implies source_of((#[trigger] a.found[i])->0)
        == source_of(b.found[i]->0) by {
        assert(p.fault_of(a.found[i]) is None);
        assert(q.fault_of(b.found[i]) is None);
        let (s, t) = (source_of(a.found[i]->0), source_of(b.found[i]->0));
        assert(holds_event(journal, s));
        assert(holds_event(journal, t));
        let k = choose|k: int| 0 <= k < journal.len() && (#[trigger] journal[k]).event == s;
        let l = choose|l: int| 0 <= l < journal.len() && (#[trigger] journal[l]).event == t;
        assert(s.event_id == t.event_id);
        if k < l {
            assert(journal[k].event.event_id != journal[l].event.event_id);
        } else if l < k {
            assert(journal[l].event.event_id != journal[k].event.event_id);
        }
    }
    assert(sources_of(a.found) =~= sources_of(b.found));
    let m = choose|m: int|
        #[trigger] greatest(a.found, m) && v.resolved.causation_id@ == a.found[m]->0.event_id@
            && v.resolved.causation_seq == a.found[m]->0.seq;
    let n = choose|n: int|
        #[trigger] greatest(b.found, n) && w.resolved.causation_id@ == b.found[n]->0.event_id@
            && w.resolved.causation_seq == b.found[n]->0.seq;
    assert(source_of(a.found[m]->0) == source_of(b.found[m]->0));
    assert(source_of(a.found[n]->0) == source_of(b.found[n]->0));
    assert(m == n) by {
        if m < n {
            assert(a.found[n]->0.seq <= a.found[m]->0.seq);
            assert(b.found[m]->0.seq <= b.found[n]->0.seq);
        }
    }
    assert(entry_for(a.event, v, a.json) == entry_for(b.event, w, b.json));
}

/// A projection is determined by the journal: a cache that caught up page by
/// page and one that was rebuilt from nothing have the same checkpoint, the same
/// index entries, and the same state of every session.
pub proof fn projections_of_one_journal_agree(
    journal: Seq<JournalEvent>,
    a: Seq<Applied>,
    x: Seq<RawSessionIndexEntry>,
    c: CheckpointModel,
    b: Seq<Applied>,
    y: Seq<RawSessionIndexEntry>,
    d: CheckpointModel,
)
    requires
        identities_differ(journal),
        projects(journal, a, x, c),
        projects(journal, b, y, d),
    ensures
        c == d,
        x.len() == y.len(),
        forall|i: int| 0 <= i < x.len() ==> (#[trigger] x[i]).entry() == y[i].entry(),
        forall|session: Seq<char>| #[trigger] last_state(a, session) == last_state(b, session),
{
    assert forall|i: int| 0 <= i < x.len() implies (#[trigger] x[i]).entry() == y[i].entry() by {
        assert(reads(a[i], nodes_of(journal)[i], journal));
        assert(reads(b[i], nodes_of(journal)[i], journal));
        assert(a[i].extends(x.take(i), x[i]));
        assert(b[i].extends(y.take(i), y[i]));
        lemma_same_entry(
            journal,
            nodes_of(journal)[i],
            a[i],
            x.take(i),
            x[i],
            b[i],
            y.take(i),
            y[i],
        );
    }
    assert forall|session: Seq<char>| #[trigger]
        last_state(a, session) == last_state(b, session) by {
        replays_agree(a, b, x, y, session);
    }
    replays_agree(a, b, x, y, Seq::empty());
}

/// An event that records a node is one of the journal.
pub proof fn lemma_node_of_journal(journal: Seq<JournalEvent>, i: int) -> (k: int)
    requires
        0 <= i < nodes_of(journal).len(),
    ensures
        0 <= k < journal.len(),
        journal[k] == nodes_of(journal)[i],
        journal[k].recorded is Some,
    decreases journal.len(),
{
    let shorter = journal.drop_last();
    if journal.last().recorded is Some && i == nodes_of(shorter).len() {
        journal.len() - 1
    } else {
        let k = lemma_node_of_journal(shorter, i);
        assert(shorter[k] == journal[k]);
        k
    }
}

/// An event of the journal that records a node is among those.
pub proof fn lemma_journal_has_node(journal: Seq<JournalEvent>, k: int) -> (i: int)
    requires
        0 <= k < journal.len(),
        journal[k].recorded is Some,
    ensures
        0 <= i < nodes_of(journal).len(),
        nodes_of(journal)[i] == journal[k],
    decreases journal.len(),
{
    let shorter = journal.drop_last();
    if k == journal.len() - 1 {
        nodes_of(shorter).len() as int
    } else {
        assert(shorter[k] == journal[k]);
        lemma_journal_has_node(shorter, k)
    }
}

} // verus!
