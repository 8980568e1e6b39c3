//! Resolving the source events that a node cites.

use vstd::prelude::*;

use crate::context::node::{ContextNode, NodeModel};
use crate::events::record::{EventActor, EventRecord};
use crate::order::{
    arranged, arrangements_agree, lemma_place_index_is, lemma_same_members, placed, strict_order,
};
use crate::projection::budget::{
    attempted_sum, charge_lookup_if, refuses_count, DeltaVerificationBudget,
    MAX_NORMAL_DELTA_VERIFICATION_WORK,
};
use crate::projection::digest::{
    be_bytes, digest_bytes, numbers_tell_apart, push_number, push_signed, push_text, sha256_of,
    task_key, task_key_of, text_frame, texts_tell_apart, unsigned, PROVENANCE_DIGEST_DOMAIN,
};
use crate::projection::durable::{attesting_actor, origin_actor};
use crate::projection::error::ContextProjectionError;
use crate::text::{
    copy_optional_text, optional_text, same_optional_text, same_text, text_before, text_less,
    text_order_is_total, utf8_len,
};

verus! {

/// What a source contributes to a node's provenance.
#[derive(Debug, PartialEq, Eq)]
pub struct SourceFacts {
    pub seq: i64,
    pub event_id: String,
    pub session_id: Option<String>,
    pub task_id: Option<String>,
    pub actor: EventActor,
}

/// The model of a source.
pub struct SourceModel {
    pub seq: i64,
    pub event_id: Seq<char>,
    pub session_id: Option<Seq<char>>,
    pub task_id: Option<Seq<char>>,
    pub actor: EventActor,
}

impl View for SourceFacts {
    type V = SourceModel;

    open spec fn view(&self) -> SourceModel {
        SourceModel {
            seq: self.seq,
            event_id: self.event_id@,
            session_id: optional_text(self.session_id),
            task_id: optional_text(self.task_id),
            actor: self.actor,
        }
    }
}

impl Clone for SourceFacts {
    fn clone(&self) -> (r: SourceFacts)
        ensures
            r@ == self@,
    {
        SourceFacts {
            seq: self.seq,
            event_id: self.event_id.clone(),
            session_id: copy_optional_text(&self.session_id),
            task_id: copy_optional_text(&self.task_id),
            actor: self.actor,
        }
    }
}

/// What an event contributes as a source.
pub open spec fn source_of(event: EventRecord) -> SourceModel {
    SourceModel {
        seq: event.seq,
        event_id: event.event_id@,
        session_id: optional_text(event.session_id),
        task_id: optional_text(event.task_id),
        actor: event.actor,
    }
}

/// The sources of events that were all found.
pub open spec fn sources_of(found: Seq<Option<EventRecord>>) -> Seq<SourceModel> {
    found.map_values(|e: Option<EventRecord>| source_of(e->0))
}

/// Sources in order of sequence, then of identity.
pub open spec fn source_order() -> spec_fn(SourceModel, SourceModel) -> bool {
    |a: SourceModel, b: SourceModel|
        a.seq < b.seq || (a.seq == b.seq && text_less(a.event_id, b.event_id))
}

/// The bytes of one source.
pub open spec fn source_bytes(s: SourceModel) -> Seq<u8> {
    be_bytes(unsigned(s.seq)) + text_frame(s.event_id) + text_frame(task_key_of(s.session_id))
        + text_frame(task_key_of(s.task_id)) + text_frame(s.actor.token())
}

/// The bytes of sources, in the given order.
pub open spec fn sources_bytes(list: Seq<SourceModel>) -> Seq<u8>
    decreases list.len(),
{
    if list.len() == 0 {
        Seq::empty()
    } else {
        sources_bytes(list.drop_last()) + source_bytes(list.last())
    }
}

/// The bytes of a node's sources, whatever order they are cited in.
pub open spec fn provenance_bytes(sources: Seq<SourceModel>) -> Seq<u8> {
    text_frame(PROVENANCE_DIGEST_DOMAIN@) + be_bytes(sources.len() as u64) + sources_bytes(
        arranged(sources, source_order()),
    )
}

/// The digest of a node's sources, whatever order they are cited in.
pub open spec fn provenance_digest(sources: Seq<SourceModel>) -> Seq<u8> {
    sha256_of(provenance_bytes(sources))
}

/// The sources are different events.
pub open spec fn different_events(sources: Seq<SourceModel>) -> bool {
    forall|i: int, j: int|
        0 <= i < j < sources.len() ==> (#[trigger] sources[i]).event_id != (
        #[trigger] sources[j]).event_id
}

/// The digest of a node's sources does not depend on the order in which they
/// are cited.
pub proof fn provenance_ignores_order(a: Seq<SourceModel>, b: Seq<SourceModel>)
    requires
        a.to_multiset() == b.to_multiset(),
        different_events(a),
    ensures
        provenance_digest(a) == provenance_digest(b),
{
    let before = source_order();
    lemma_same_members(a, b);
    assert(strict_order(before)) by {
        assert forall|x: SourceModel, y: SourceModel| #[trigger] before(x, y) implies !before(
            y,
            x,
        ) by {
            text_order_is_total(x.event_id, y.event_id, x.event_id);
        }
        assert forall|x: SourceModel, y: SourceModel, z: SourceModel|
            !(#[trigger] before(y, x)) && !(#[trigger] before(z, y)) implies !before(z, x) by {
            text_order_is_total(x.event_id, y.event_id, z.event_id);
            text_order_is_total(z.event_id, y.event_id, x.event_id);
            text_order_is_total(z.event_id, x.event_id, y.event_id);
            text_order_is_total(y.event_id, z.event_id, x.event_id);
            text_order_is_total(x.event_id, z.event_id, y.event_id);
            text_order_is_total(y.event_id, x.event_id, z.event_id);
        }
    }
    assert forall|x: SourceModel, y: SourceModel| #[trigger]
        a.contains(x) && #[trigger] a.contains(y) && x != y implies before(x, y) || before(
        y,
        x,
    ) by {
        let i = choose|i: int| 0 <= i < a.len() && a[i] == x;
        let j = choose|j: int| 0 <= j < a.len() && a[j] == y;
        if i < j {
            assert(a[i].event_id != a[j].event_id);
        } else {
            assert(a[j].event_id != a[i].event_id);
        }
        text_order_is_total(x.event_id, y.event_id, x.event_id);
    }
    arrangements_agree(a, b, before);
}

/// The models of a list of sources.
pub open spec fn facts_view(list: Seq<SourceFacts>) -> Seq<SourceModel> {
    list.map_values(|s: SourceFacts| s@)
}

fn place_source(list: &mut Vec<SourceFacts>, x: SourceFacts)
    ensures
        facts_view(final(list)@) == placed(facts_view(old(list)@), x@, source_order()),
{
    let mut i: usize = list.len();
    let ghost s = facts_view(list@);
    let ghost before = source_order();
    while i > 0 && (x.seq < list[i - 1].seq || (x.seq == list[i - 1].seq && text_before(
        &x.event_id,
        &list[i - 1].event_id,
    )))
        invariant
            0 <= i <= list@.len(),
            s == facts_view(list@),
            before == source_order(),
            forall|j: int| i <= j < s.len() ==> before(x@, #[trigger] s[j]),
        decreases i,
    {
        assert(s[i - 1] == list@[i - 1]@);
        i -= 1;
    }
    proof {
        if i > 0 {
            assert(s[i - 1] == list@[i - 1]@);
        }
        lemma_place_index_is(s, x@, before, i as int);
    }
    list.insert(i, x);
    assert(facts_view(list@) =~= s.insert(i as int, x@));
}

fn push_source(out: &mut Vec<u8>, s: &SourceFacts)
    ensures
        final(out)@ == old(out)@ + source_bytes(s@),
{
    push_signed(out, s.seq);
    push_text(out, &s.event_id);
    push_text(out, &task_key(&s.session_id));
    push_text(out, &task_key(&s.task_id));
    push_text(out, s.actor.as_str());
    assert(out@ =~= old(out)@ + source_bytes(s@));
}

/// The bytes of a node's sources, whatever order they are cited in.
pub fn canonical_provenance_bytes(sources: &Vec<SourceFacts>) -> (out: Vec<u8>)
    ensures
        out@ == provenance_bytes(facts_view(sources@)),
{
    let ghost cited = facts_view(sources@);
    let mut ordered: Vec<SourceFacts> = Vec::new();
    let mut k: usize = 0;
    assert(facts_view(ordered@) =~= arranged(cited.take(0), source_order()));
    while k < sources.len()
        invariant
            cited == facts_view(sources@),
            0 <= k <= sources@.len(),
            facts_view(ordered@) == arranged(cited.take(k as int), source_order()),
        decreases sources.len() - k,
    {
        place_source(&mut ordered, sources[k].clone());
        assert(cited.take(k + 1).drop_last() =~= cited.take(k as int));
        assert(cited.take(k + 1).last() == sources@[k as int]@);
        k += 1;
    }
    assert(cited.take(k as int) =~= cited);
    let ghost s = facts_view(ordered@);
    let mut out: Vec<u8> = Vec::new();
    push_text(&mut out, PROVENANCE_DIGEST_DOMAIN);
    push_number(&mut out, sources.len() as u64);
    let ghost head = text_frame(PROVENANCE_DIGEST_DOMAIN@) + be_bytes(cited.len() as u64);
    assert(out@ =~= head + sources_bytes(s.take(0)));
    let mut i: usize = 0;
    while i < ordered.len()
        invariant
            s == facts_view(ordered@),
            0 <= i <= ordered@.len(),
            out@ == head + sources_bytes(s.take(i as int)),
        decreases ordered.len() - i,
    {
        push_source(&mut out, &ordered[i]);
        proof {
            assert(s.take(i + 1).drop_last() =~= s.take(i as int));
            assert(s.take(i + 1).last() == ordered@[i as int]@);
            let a = sources_bytes(s.take(i as int));
            let b = source_bytes(s[i as int]);
            assert((head + a) + b =~= head + (a + b));
        }
        i += 1;
    }
    assert(s.take(i as int) =~= s);
    out
}

/// The digest of a node's sources, whatever order they are cited in.
pub fn canonical_provenance_digest(sources: &Vec<SourceFacts>) -> (r: [u8; 32])
    ensures
        r@ == provenance_digest(facts_view(sources@)),
{
    digest_bytes(canonical_provenance_bytes(sources).as_slice())
}

/// What can be wrong with a cited source.
pub enum SourceFault {
    Missing,
    NotPrior,
    OtherSession,
    OtherTask,
}

/// The node, where it is recorded, and when.
pub struct Recording {
    pub node: NodeModel,
    pub session_id: Seq<char>,
    pub task_id: Option<Seq<char>>,
    pub seq: i64,
}

impl Recording {
    /// What is wrong with a found source.
    pub open spec fn fault_of(self, found: Option<EventRecord>) -> Option<SourceFault> {
        match found {
            None => Some(SourceFault::Missing),
            Some(e) => if e.seq >= self.seq {
                Some(SourceFault::NotPrior)
            } else if optional_text(e.session_id) != Some(self.session_id) {
                Some(SourceFault::OtherSession)
            } else if self.task_id is Some && e.task_id is Some && optional_text(e.task_id)
                != self.task_id {
                Some(SourceFault::OtherTask)
            } else {
                None
            },
        }
    }

    /// The error reports what is wrong with source `i`.
    pub open spec fn reports(
        self,
        found: Seq<Option<EventRecord>>,
        i: int,
        e: ContextProjectionError,
    ) -> bool {
        match self.fault_of(found[i]) {
            Some(SourceFault::Missing) => {
                &&& e is MissingSource
                &&& e->MissingSource_node_id@ == self.node.id
                &&& e->MissingSource_source_event_id@ == self.node.source_event_ids[i]
            },
            Some(SourceFault::NotPrior) => {
                &&& e is SourceNotPrior
                &&& e->SourceNotPrior_node_id@ == self.node.id
                &&& e->SourceNotPrior_source_event_id@ == self.node.source_event_ids[i]
                &&& e->source_seq == found[i]->0.seq
            },
            Some(SourceFault::OtherSession) => {
                &&& e is SourceSessionMismatch
                &&& e->SourceSessionMismatch_node_id@ == self.node.id
                &&& e->SourceSessionMismatch_source_event_id@ == self.node.source_event_ids[i]
            },
            Some(SourceFault::OtherTask) => {
                &&& e is SourceTaskMismatch
                &&& e->SourceTaskMismatch_node_id@ == self.node.id
                &&& e->SourceTaskMismatch_source_event_id@ == self.node.source_event_ids[i]
            },
            None => false,
        }
    }

    /// Every source is prior and in scope.
    pub open spec fn sources_valid(self, found: Seq<Option<EventRecord>>) -> bool {
        forall|i: int| 0 <= i < found.len() ==> self.fault_of(#[trigger] found[i]) is None
    }

    /// Some source was caused by the actor that attests the node's origin.
    pub open spec fn attested(self, found: Seq<Option<EventRecord>>) -> bool {
        exists|i: int|
            0 <= i < found.len() && (#[trigger] found[i]) is Some && found[i]->0.actor
                == attesting_actor(self.node.origin)
    }
}

/// Source `m` has the greatest sequence, and is the last to have it.
pub open spec fn greatest(found: Seq<Option<EventRecord>>, m: int) -> bool {
    &&& 0 <= m < found.len()
    &&& forall|j: int| 0 <= j < found.len() ==> (#[trigger] found[j])->0.seq <= found[m]->0.seq
    &&& forall|j: int| m < j < found.len() ==> (#[trigger] found[j])->0.seq < found[m]->0.seq
}

/// The budget after that many lookups, where one is kept.
pub open spec fn after_lookups(budget: Option<DeltaVerificationBudget>, k: nat) -> Option<
    DeltaVerificationBudget,
>
    decreases k,
{
    if k == 0 {
        budget
    } else {
        match after_lookups(budget, (k - 1) as nat) {
            Some(b) => Some(b.worked(1)),
            None => None,
        }
    }
}

/// One more lookup is within the budget.
pub open spec fn lookup_allowed(budget: Option<DeltaVerificationBudget>) -> bool {
    match budget {
        Some(b) => attempted_sum(b.work.verification_work, 1)
            <= MAX_NORMAL_DELTA_VERIFICATION_WORK,
        None => true,
    }
}

/// The error refuses one more lookup.
pub open spec fn refuses_lookup(
    e: ContextProjectionError,
    budget: Option<DeltaVerificationBudget>,
) -> bool {
    budget is Some && refuses_count(
        e,
        "normal delta verification work"@,
        attempted_sum(budget->0.work.verification_work, 1),
        MAX_NORMAL_DELTA_VERIFICATION_WORK,
    )
}

/// A node's resolved provenance.
#[derive(Debug)]
pub struct ResolvedNode {
    pub causation_id: String,
    pub causation_seq: i64,
    pub provenance_digest: [u8; 32],
    pub source_count: u64,
}

/// The provenance of a node whose sources are all valid.
pub open spec fn resolved_from(found: Seq<Option<EventRecord>>, r: ResolvedNode) -> bool {
    &&& exists|m: int|
        #[trigger] greatest(found, m) && r.causation_id@ == found[m]->0.event_id@
            && r.causation_seq == found[m]->0.seq
    &&& r.provenance_digest@ == provenance_digest(sources_of(found))
    &&& r.source_count == found.len()
}

/// The result of resolving sources. Each lookup is charged before its source is
/// looked at; the first refusal decides, then the missing attestation.
pub open spec fn resolve_outcome(
    x: Recording,
    found: Seq<Option<EventRecord>>,
    budget: Option<DeltaVerificationBudget>,
    budget_left: Option<DeltaVerificationBudget>,
    r: Result<ResolvedNode, ContextProjectionError>,
) -> bool {
    match r {
        Ok(resolved) => {
            &&& x.sources_valid(found)
            &&& forall|j: int|
                0 <= j < found.len() ==> lookup_allowed(#[trigger] after_lookups(budget, j as nat))
            &&& x.attested(found)
            &&& resolved_from(found, resolved)
            &&& budget_left == after_lookups(budget, found.len())
        },
        Err(e) => {
            ||| exists|i: int|
                {
                    &&& #[trigger] stops_at(x, found, budget, i)
                    &&& if !lookup_allowed(after_lookups(budget, i as nat)) {
                        refuses_lookup(e, after_lookups(budget, i as nat)) && budget_left
                            == after_lookups(budget, i as nat)
                    } else {
                        x.reports(found, i, e) && budget_left == after_lookups(
                            budget,
                            (i + 1) as nat,
                        )
                    }
                }
            ||| {
                &&& x.sources_valid(found)
                &&& forall|j: int|
                    0 <= j < found.len() ==> lookup_allowed(
                        #[trigger] after_lookups(budget, j as nat),
                    )
                &&& !x.attested(found)
                &&& e is OriginNotAttested
                &&& e->OriginNotAttested_node_id@ == x.node.id
                &&& e->origin == x.node.origin
                &&& budget_left == after_lookups(budget, found.len())
            }
        },
    }
}

/// Source `i` is the first that is refused, by the budget or for itself.
pub open spec fn stops_at(
    x: Recording,
    found: Seq<Option<EventRecord>>,
    budget: Option<DeltaVerificationBudget>,
    i: int,
) -> bool {
    &&& 0 <= i < found.len()
    &&& forall|j: int|
        0 <= j < i ==> x.fault_of(#[trigger] found[j]) is None && lookup_allowed(
            after_lookups(budget, j as nat),
        )
    &&& !lookup_allowed(after_lookups(budget, i as nat)) || x.fault_of(found[i]) is Some
}

fn facts(event: &EventRecord) -> (r: SourceFacts)
    ensures
        r@ == source_of(*event),
{
    SourceFacts {
        seq: event.seq,
        event_id: event.event_id.clone(),
        session_id: copy_optional_text(&event.session_id),
        task_id: copy_optional_text(&event.task_id),
        actor: event.actor,
    }
}

/// What is wrong with a found source, as an error.
fn check_source(
    node: &ContextNode,
    session_id: &str,
    task_id: &Option<String>,
    recording_seq: i64,
    found: &Vec<Option<EventRecord>>,
    i: usize,
) -> (r: Result<(), ContextProjectionError>)
    requires
        i < found@.len(),
        found@.len() == node.source_event_ids@.len(),
    ensures
        ({
            let x = Recording {
                node: node@,
                session_id: session_id@,
                task_id: optional_text(*task_id),
                seq: recording_seq,
            };
            match r {
                Ok(_) => x.fault_of(found@[i as int]) is None,
                Err(e) => x.fault_of(found@[i as int]) is Some && x.reports(found@, i as int, e),
            }
        }),
{
    let cited = &node.source_event_ids[i];
    assert(node@.source_event_ids[i as int] == cited@);
    let source = match &found[i] {
        None => {
            return Err(
                ContextProjectionError::MissingSource {
                    node_id: node.id.clone(),
                    source_event_id: cited.clone(),
                },
            );
        },
        Some(e) => e,
    };
    if source.seq >= recording_seq {
        return Err(
            ContextProjectionError::SourceNotPrior {
                node_id: node.id.clone(),
                source_event_id: cited.clone(),
                source_seq: source.seq,
            },
        );
    }
    let same_session = match &source.session_id {
        Some(s) => same_text(s, session_id),
        None => false,
    };
    if !same_session {
        return Err(
            ContextProjectionError::SourceSessionMismatch {
                node_id: node.id.clone(),
                source_event_id: cited.clone(),
            },
        );
    }
    if task_id.is_some() && source.task_id.is_some() && !same_optional_text(
        &source.task_id,
        task_id,
    ) {
        return Err(
            ContextProjectionError::SourceTaskMismatch {
                node_id: node.id.clone(),
                source_event_id: cited.clone(),
            },
        );
    }
    Ok(())
}

/// Resolves the sources of a node recorded at `recording_seq`. `found` holds,
/// for each cited identity, the event of that identity where there is one.
pub fn resolve_sources(
    node: &ContextNode,
    session_id: &str,
    task_id: &Option<String>,
    recording_seq: i64,
    found: &Vec<Option<EventRecord>>,
    budget: &mut Option<DeltaVerificationBudget>,
) -> (r: Result<ResolvedNode, ContextProjectionError>)
    requires
        found@.len() == node.source_event_ids@.len(),
    ensures
        resolve_outcome(
            Recording {
                node: node@,
                session_id: session_id@,
                task_id: optional_text(*task_id),
                seq: recording_seq,
            },
            found@,
            *old(budget),
            *final(budget),
            r,
        ),
        *final(budget) is Some == *old(budget) is Some,
{
    let ghost x = Recording {
        node: node@,
        session_id: session_id@,
        task_id: optional_text(*task_id),
        seq: recording_seq,
    };
    let ghost start = *budget;
    let ghost cited = sources_of(found@);
    let mut sources: Vec<SourceFacts> = Vec::new();
    let expected_actor = origin_actor(node.origin);
    let mut attested = false;
    let mut best: Option<usize> = None;
    let mut i: usize = 0;
    while i < found.len()
        invariant
            x == (Recording {
                node: node@,
                session_id: session_id@,
                task_id: optional_text(*task_id),
                seq: recording_seq,
            }),
            cited == sources_of(found@),
            found@.len() == node.source_event_ids@.len(),
            expected_actor == attesting_actor(node@.origin),
            start == *old(budget),
            0 <= i <= found@.len(),
            *budget == after_lookups(start, i as nat),
            *budget is Some == start is Some,
            forall|j: int|
                0 <= j < i ==> x.fault_of(#[trigger] found@[j]) is None && lookup_allowed(
                    after_lookups(start, j as nat),
                ),
            facts_view(sources@) =~= cited.take(i as int),
            attested == exists|j: int|
                0 <= j < i && (#[trigger] found@[j]) is Some && found@[j]->0.actor
                    == expected_actor,
            match best {
                None => i == 0,
                Some(m) => i > 0 && greatest(found@.take(i as int), m as int),
            },
        decreases found.len() - i,
    {
        match charge_lookup_if(budget) {
            Err(e) => {
                assert(stops_at(x, found@, start, i as int));
                return Err(e);
            },
            Ok(()) => {},
        }
        assert(*budget == after_lookups(start, (i + 1) as nat));
        assert(lookup_allowed(after_lookups(start, i as nat)));
        match check_source(node, session_id, task_id, recording_seq, found, i) {
            Err(e) => {
                assert(stops_at(x, found@, start, i as int));
                return Err(e);
            },
            Ok(()) => {},
        }
        assert(found@[i as int] is Some);
        let ghost before = found@.take(i as int);
        let ghost after = found@.take(i + 1);
        if let Some(source) = &found[i] {
            if source.actor == expected_actor {
                attested = true;
            }
            let newer = match best {
                None => true,
                Some(m) => match &found[m] {
                    Some(b) => source.seq >= b.seq,
                    None => true,
                },
            };
            proof {
                assert(after[i as int] == found@[i as int]);
                assert forall|j: int| 0 <= j < i implies #[trigger] after[j] == before[j] by {}
                match best {
                    Some(m) => {
                        assert(before[m as int] == found@[m as int]);
                        assert(found@[m as int] is Some);
                        assert forall|j: int| 0 <= j < after.len() implies (
                        #[trigger] after[j])->0.seq <= if newer {
                            after[i as int]->0.seq
                        } else {
                            after[m as int]->0.seq
                        } by {
                            if j < i {
                                assert(before[j]->0.seq <= before[m as int]->0.seq);
                            }
                        }
                        if !newer {
                            assert forall|j: int| m < j < after.len() implies (
                            #[trigger] after[j])->0.seq < after[m as int]->0.seq by {
                                if j < i {
                                    assert(before[j]->0.seq < before[m as int]->0.seq);
                                }
                            }
                        }
                    },
                    None => {},
                }
            }
            if newer {
                best = Some(i);
            }
            sources.push(facts(source));
        }
        assert(cited.take(i + 1) =~= cited.take(i as int).push(source_of(found@[i as int]->0)));
        i += 1;
    }
    proof {
        assert(cited.take(i as int) =~= cited);
        assert(found@.take(i as int) =~= found@);
        assert(x.sources_valid(found@));
        assert forall|j: int| 0 <= j < found@.len() implies lookup_allowed(
            #[trigger] after_lookups(start, j as nat),
        ) by {
            assert(x.fault_of(found@[j]) is None);
        }
    }
    let causation = match best {
        Some(m) => m,
        None => {
            return Err(
                ContextProjectionError::OriginNotAttested {
                    node_id: node.id.clone(),
                    origin: node.origin,
                },
            );
        },
    };
    if !attested {
        return Err(
            ContextProjectionError::OriginNotAttested {
                node_id: node.id.clone(),
                origin: node.origin,
            },
        );
    }
    let digest = canonical_provenance_digest(&sources);
    assert(found@[causation as int] is Some);
    match &found[causation] {
        Some(source) => {
            let resolved = ResolvedNode {
                causation_id: source.event_id.clone(),
                causation_seq: source.seq,
                provenance_digest: digest,
                source_count: found.len() as u64,
            };
            assert(greatest(found@, causation as int));
            Ok(resolved)
        },
        None => Err(
            ContextProjectionError::OriginNotAttested {
                node_id: node.id.clone(),
                origin: node.origin,
            },
        ),
    }
}

/// The causation of a resolved node comes before its recording, and after every
/// other source.
pub proof fn causation_is_the_latest_source(
    x: Recording,
    found: Seq<Option<EventRecord>>,
    budget: Option<DeltaVerificationBudget>,
    budget_left: Option<DeltaVerificationBudget>,
    r: ResolvedNode,
)
    requires
        resolve_outcome(x, found, budget, budget_left, Ok(r)),
    ensures
        r.causation_seq < x.seq,
        forall|i: int| 0 <= i < found.len() ==> (#[trigger] found[i])->0.seq <= r.causation_seq,
{
    let m = choose|m: int|
        #[trigger] greatest(found, m) && r.causation_id@ == found[m]->0.event_id@
            && r.causation_seq == found[m]->0.seq;
    assert(x.fault_of(found[m]) is None);
}

/// A source is written by its sequence first, then its event, session, task and
/// actor, each behind its length; different sources are written differently, a
/// missing session or task counting as an empty one.
pub proof fn sources_are_written_apart(a: SourceModel, b: SourceModel)
    requires
        utf8_len(a.event_id) <= u64::MAX,
        utf8_len(b.event_id) <= u64::MAX,
        utf8_len(task_key_of(a.session_id)) <= u64::MAX,
        utf8_len(task_key_of(b.session_id)) <= u64::MAX,
        utf8_len(task_key_of(a.task_id)) <= u64::MAX,
        utf8_len(task_key_of(b.task_id)) <= u64::MAX,
        utf8_len(a.actor.token()) <= u64::MAX,
        utf8_len(b.actor.token()) <= u64::MAX,
    ensures
        source_bytes(a).take(8) == be_bytes(unsigned(a.seq)),
        source_bytes(a) == source_bytes(b) ==> a.seq == b.seq && a.event_id == b.event_id
            && task_key_of(a.session_id) == task_key_of(b.session_id) && task_key_of(a.task_id)
            == task_key_of(b.task_id) && a.actor.token() == b.actor.token(),
{
    let (x, y) = (lemma_source_nested(a), lemma_source_nested(b));
    assert(source_bytes(a).take(8) =~= be_bytes(unsigned(a.seq)));
    if source_bytes(a) == source_bytes(b) {
        numbers_tell_apart(unsigned(a.seq), x, unsigned(b.seq), y);
        let (p, q) = (text_frame(a.actor.token()), text_frame(b.actor.token()));
        let e = Seq::<u8>::empty();
        assert(p + e =~= p && q + e =~= q);
        texts_tell_apart(
            a.event_id,
            text_frame(task_key_of(a.session_id)) + (text_frame(task_key_of(a.task_id)) + p),
            b.event_id,
            text_frame(task_key_of(b.session_id)) + (text_frame(task_key_of(b.task_id)) + q),
        );
        texts_tell_apart(
            task_key_of(a.session_id),
            text_frame(task_key_of(a.task_id)) + p,
            task_key_of(b.session_id),
            text_frame(task_key_of(b.task_id)) + q,
        );
        texts_tell_apart(task_key_of(a.task_id), p, task_key_of(b.task_id), q);
        texts_tell_apart(a.actor.token(), e, b.actor.token(), e);
    }
}

proof fn lemma_source_nested(s: SourceModel) -> (rest: Seq<u8>)
    ensures
        source_bytes(s) == be_bytes(unsigned(s.seq)) + rest,
        rest == text_frame(s.event_id) + (text_frame(task_key_of(s.session_id)) + (text_frame(
            task_key_of(s.task_id),
        ) + text_frame(s.actor.token()))),
{
    let n = be_bytes(unsigned(s.seq));
    let (f, g) = (text_frame(s.event_id), text_frame(task_key_of(s.session_id)));
    let (h, k) = (text_frame(task_key_of(s.task_id)), text_frame(s.actor.token()));
    lemma_regroup(n + f + g, h, k);
    lemma_regroup(n + f, g, h + k);
    lemma_regroup(n, f, g + (h + k));
    f + (g + (h + k))
}

proof fn lemma_regroup(a: Seq<u8>, b: Seq<u8>, c: Seq<u8>)
    ensures
        (a + b) + c == a + (b + c),
{
    assert((a + b) + c =~= a + (b + c));
}

} // verus!
