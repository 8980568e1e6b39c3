//! Binding cached schedule rows to the immutable records they come from.

use vstd::prelude::*;

use crate::events::json::{integer_member, member, number_member, text_member};
use crate::events::laws::windows_repeat_at_the_interval;
use crate::events::record::{
    has_version_one, text_is, version_one, EventActor, EventRecord, EventStoreError,
};
use crate::events::recurrence::{
    check_transition_scope, child_row, claims_next, in_scope, is_progress, matches_progress,
    progress_is_unambiguous, repeat_step, requested_command, requested_entry, requests,
    RepeatEntry, RepeatModel, RepeatScheduleCommand, RepeatState, RepeatTiming,
    OCCURRENCE_CLAIMED, REPEAT_CANCELLED, REPEAT_SKIPPED,
};
use crate::events::schedule::{ScheduleEntry, ScheduleModel, ScheduleRunCommand};
use crate::text::{joined, optional_text, same_optional_text, same_text, starts_with};
use crate::time::{from_millis, millis_instant, millis_round_trip};

verus! {

/// The cached row agrees with the command of its source event.
pub open spec fn bound_to_source(
    entry: RepeatModel,
    source: EventRecord,
    command: RepeatScheduleCommand,
) -> bool {
    &&& optional_text(source.task_id) == Some("repeat_"@ + entry.request_id)
    &&& command.session_id@ == entry.session_id
    &&& command.request_id@ == entry.request_id
    &&& RepeatTiming::asked(command) == entry.timing
    &&& 1 <= entry.next_occurrence <= entry.timing.occurrences + 1
    &&& entry.claimed + entry.missed == entry.next_occurrence - 1
    &&& (entry.claimed == 0) == (entry.last_child_id is None)
}

/// The state that a row has after the given last event.
pub open spec fn state_of(entry: RepeatModel, last: EventRecord) -> RepeatState {
    if last.kind@ == REPEAT_CANCELLED@ {
        RepeatState::Cancelled
    } else if entry.next_occurrence > entry.timing.occurrences {
        RepeatState::Exhausted
    } else {
        RepeatState::Active
    }
}

/// The cached row agrees with its last event: either it is the request itself
/// and nothing has happened, or the last event records its progress and state.
pub open spec fn bound_to_last(
    entry: RepeatModel,
    source: EventRecord,
    last: Option<EventRecord>,
) -> bool {
    if entry.last_event_id == entry.source_event_id {
        &&& entry.next_occurrence == 1
        &&& entry.claimed == 0
        &&& entry.missed == 0
        &&& entry.last_child_id is None
        &&& entry.state == RepeatState::Active
    } else {
        &&& last is Some
        &&& in_scope(last->0, entry)
        &&& member(last->0.payload, "progress"@) is Some
        &&& is_progress(
            member(last->0.payload, "progress"@)->0,
            entry.next_occurrence,
            entry.claimed,
            entry.missed,
            entry.last_child_id,
        )
        &&& entry.state == state_of(entry, last->0)
        &&& last->0.seq > source.seq
    }
}

/// The result of rebinding a cached row to its source event and its last event.
pub open spec fn verify_outcome(
    entry: RepeatModel,
    source: Option<EventRecord>,
    command: Option<RepeatScheduleCommand>,
    max_text_bytes: usize,
    last: Option<EventRecord>,
    r: Result<(), EventStoreError>,
) -> bool {
    match (source, command) {
        (None, _) => r is Err && r->Err_0 is InvalidSchedule,
        (Some(_), None) => r is Err && r->Err_0 is Payload,
        (Some(s), Some(c)) => if requests(s, c, max_text_bytes) && bound_to_source(entry, s, c)
            && bound_to_last(entry, s, last) {
            r is Ok
        } else {
            r is Err && r->Err_0 is InvalidSchedule
        },
    }
}

/// Rebinds every cached field of a row to its source event and its last event.
/// `source` and `last` are the events of those identities, where there are any,
/// and `command` is the source's command, where it could be read.
pub fn verify_repeat(
    entry: &RepeatEntry,
    source: &Option<EventRecord>,
    command: &Option<RepeatScheduleCommand>,
    max_text_bytes: usize,
    last: &Option<EventRecord>,
) -> (r: Result<(), EventStoreError>)
    requires
        command matches Some(c) ==> c.due_at.representable() && c.expires_at.representable(),
    ensures
        verify_outcome(entry@, *source, *command, max_text_bytes, *last, r),
{
    let source = match source {
        Some(s) => s,
        None => {
            return Err(EventStoreError::InvalidSchedule);
        },
    };
    let timing = match requested_command(source, command, max_text_bytes) {
        Ok(t) => t,
        Err(e) => {
            return Err(e);
        },
    };
    let command = match command {
        Some(c) => c,
        None => {
            return Err(EventStoreError::Payload);
        },
    };
    if !text_is(&source.task_id, &joined("repeat_", &entry.request_id)) || !same_text(
        &command.session_id,
        &entry.session_id,
    ) || !same_text(&command.request_id, &entry.request_id) || timing != entry.timing {
        return Err(EventStoreError::InvalidSchedule);
    }
    if entry.next_occurrence == 0 || entry.next_occurrence > entry.timing.occurrences + 1 {
        return Err(EventStoreError::InvalidSchedule);
    }
    match entry.claimed.checked_add(entry.missed) {
        Some(n) => {
            if n != entry.next_occurrence - 1 {
                return Err(EventStoreError::InvalidSchedule);
            }
        },
        None => {
            return Err(EventStoreError::InvalidSchedule);
        },
    }
    if (entry.claimed == 0) != entry.last_child_id.is_none() {
        return Err(EventStoreError::InvalidSchedule);
    }
    if same_text(&entry.last_event_id, &entry.source_event_id) {
        if entry.next_occurrence != 1 || entry.claimed != 0 || entry.missed != 0
            || entry.last_child_id.is_some() || entry.state != RepeatState::Active {
            return Err(EventStoreError::InvalidSchedule);
        }
        return Ok(());
    }
    let last = match last {
        Some(e) => e,
        None => {
            return Err(EventStoreError::InvalidSchedule);
        },
    };
    match check_transition_scope(last, entry) {
        Ok(()) => {},
        Err(e) => {
            return Err(e);
        },
    }
    let expected_state = if same_text(&last.kind, REPEAT_CANCELLED) {
        RepeatState::Cancelled
    } else if entry.next_occurrence > entry.timing.occurrences {
        RepeatState::Exhausted
    } else {
        RepeatState::Active
    };
    let recorded = match last.payload.get("progress") {
        Some(value) => matches_progress(
            value,
            entry.next_occurrence,
            entry.claimed,
            entry.missed,
            &entry.last_child_id,
        ),
        None => false,
    };
    if !recorded || entry.state != expected_state || last.seq <= source.seq {
        return Err(EventStoreError::InvalidSchedule);
    }
    Ok(())
}

/// What projection writes is bound to its records: the row that a transition
/// leaves behind passes verification against its source and that transition.
pub proof fn projected_rows_verify(
    old: RepeatModel,
    source: EventRecord,
    command: RepeatScheduleCommand,
    event: EventRecord,
)
    requires
        old.consistent(),
        bound_to_source(old, source, command),
        repeat_step(event, old) is Some,
        event.seq > source.seq,
        event.event_id@ != old.source_event_id,
    ensures
        bound_to_source(repeat_step(event, old)->0, source, command),
        bound_to_last(repeat_step(event, old)->0, source, Some(event)),
{
    reveal_strlit("schedule.repeat.cancelled");
    reveal_strlit("schedule.repeat.skipped");
    reveal_strlit("schedule.occurrence.claimed");
    assert(REPEAT_CANCELLED@.len() == 25);
    assert(REPEAT_SKIPPED@.len() == 23);
    assert(OCCURRENCE_CLAIMED@.len() == 27);
    crate::events::recurrence::transitions_keep_consistency(event, old);
}

/// The row that a request starts passes verification against the request.
pub proof fn requested_rows_verify(
    source: EventRecord,
    command: RepeatScheduleCommand,
    max_text_bytes: usize,
)
    requires
        requests(source, command, max_text_bytes),
    ensures
        bound_to_source(requested_entry(source, command), source, command),
        bound_to_last(requested_entry(source, command), source, None),
{
}

/// The claim of one occurrence agrees with its parent and its child row.
pub open spec fn bound_claim(
    entry: ScheduleModel,
    claim: EventRecord,
    parent: RepeatScheduleCommand,
) -> bool {
    let ordinal = number_member(claim.payload, "occurrence"@);
    let observed = integer_member(claim.payload, "observed_at_ms"@);
    let timing = RepeatTiming::asked(parent);
    &&& ordinal is Some
    &&& observed is Some
    &&& claim.kind@ == OCCURRENCE_CLAIMED@
    &&& claim.actor == EventActor::Scheduler
    &&& version_one(claim.payload)
    &&& optional_text(claim.session_id) == Some(parent.session_id@)
    &&& parent.session_id@ == entry.session_id
    &&& optional_text(claim.task_id) == Some("schedule_"@ + entry.request_id)
    &&& claim.correlation_id is None
    &&& claim.span_id is None
    &&& text_member(claim.payload, "parent_request_id"@) == Some(parent.request_id@)
    &&& text_member(claim.payload, "run_request_id"@) == Some(entry.run_request_id)
    &&& timing.window_of(ordinal->0) == Some((entry.due_at_ms, entry.expires_at_ms))
    &&& entry.due_at_ms <= observed->0 < entry.expires_at_ms
}

/// The claim follows the event that caused it: either the request itself and
/// the claim is of the first occurrence, or a skip or claim of the same schedule
/// that left this occurrence as the next.
pub open spec fn follows_prior(claim: EventRecord, source: EventRecord, prior: EventRecord) -> bool {
    let next = if prior.event_id@ == source.event_id@ {
        Some(1u32)
    } else if (prior.kind@ == REPEAT_SKIPPED@ || prior.kind@ == OCCURRENCE_CLAIMED@) && prior.actor
        == EventActor::Scheduler && optional_text(prior.session_id) == optional_text(
        source.session_id,
    ) && text_member(prior.payload, "source_event_id"@) == text_member(
        claim.payload,
        "source_event_id"@,
    ) && member(prior.payload, "progress"@) is Some {
        number_member(member(prior.payload, "progress"@)->0, "next_occurrence"@)
    } else {
        None
    };
    &&& next is Some
    &&& next == number_member(claim.payload, "occurrence"@)
    &&& prior.seq < claim.seq
}

/// The identity of the request that a claim derives from.
pub fn claim_source_id(claim: &EventRecord) -> (r: Result<String, EventStoreError>)
    ensures
        match text_member(claim.payload, "source_event_id"@) {
            Some(s) => r is Ok && r->Ok_0@ == s,
            None => r is Err && r->Err_0 is InvalidSchedule,
        },
{
    match claim.payload.get_text("source_event_id") {
        Some(s) => Ok(s.clone()),
        None => Err(EventStoreError::InvalidSchedule),
    }
}

/// The command of one occurrence.
pub open spec fn occurrence_command_of(
    entry: ScheduleModel,
    parent: RepeatScheduleCommand,
    r: ScheduleRunCommand,
) -> bool {
    &&& r.request_id@ == entry.request_id
    &&& r.session_id@ == parent.session_id@
    &&& r.text@ == parent.text@
    &&& Some(r.due_at) == millis_instant(entry.due_at_ms)
    &&& Some(r.expires_at) == millis_instant(entry.expires_at_ms)
}

/// The result of deriving the command of a claimed occurrence.
pub open spec fn occurrence_outcome(
    entry: ScheduleModel,
    claim: EventRecord,
    source: Option<EventRecord>,
    parent: Option<RepeatScheduleCommand>,
    max_text_bytes: usize,
    prior: Option<EventRecord>,
    r: Result<ScheduleRunCommand, EventStoreError>,
) -> bool {
    if text_member(claim.payload, "source_event_id"@) is None || source is None {
        r is Err && r->Err_0 is InvalidSchedule
    } else if parent is None {
        r is Err && r->Err_0 is Payload
    } else if requests(source->0, parent->0, max_text_bytes) && bound_claim(
        entry,
        claim,
        parent->0,
    ) && claim.causation_id is Some && prior is Some && follows_prior(
        claim,
        source->0,
        prior->0,
    ) {
        r is Ok && occurrence_command_of(entry, parent->0, r->Ok_0)
    } else {
        r is Err && r->Err_0 is InvalidSchedule
    }
}

/// Derives the command of a claimed occurrence from its parent's request.
/// `source` is the event that the claim names as its source, `parent` that
/// event's command, and `prior` the event that caused the claim, where there
/// are such.
pub fn occurrence_source(
    entry: &ScheduleEntry,
    claim: &EventRecord,
    source: &Option<EventRecord>,
    parent: &Option<RepeatScheduleCommand>,
    max_text_bytes: usize,
    prior: &Option<EventRecord>,
) -> (r: Result<ScheduleRunCommand, EventStoreError>)
    requires
        parent matches Some(c) ==> c.due_at.representable() && c.expires_at.representable(),
    ensures
        occurrence_outcome(entry@, *claim, *source, *parent, max_text_bytes, *prior, r),
{
    let source_id = match claim_source_id(claim) {
        Ok(s) => s,
        Err(e) => {
            return Err(e);
        },
    };
    let source = match source {
        Some(s) => s,
        None => {
            return Err(EventStoreError::InvalidSchedule);
        },
    };
    let timing = match requested_command(source, parent, max_text_bytes) {
        Ok(t) => t,
        Err(e) => {
            return Err(e);
        },
    };
    let parent = match parent {
        Some(c) => c,
        None => {
            return Err(EventStoreError::Payload);
        },
    };
    let ordinal: u32 = match claim.payload.get_number("occurrence") {
        Some(n) => n,
        None => {
            return Err(EventStoreError::InvalidSchedule);
        },
    };
    let (due, expiry) = match timing.window(ordinal) {
        Ok(w) => w,
        Err(e) => {
            return Err(e);
        },
    };
    let observed: i64 = match claim.payload.get_integer("observed_at_ms") {
        Some(n) => n,
        None => {
            return Err(EventStoreError::InvalidSchedule);
        },
    };
    let parent_named = match claim.payload.get_text("parent_request_id") {
        Some(s) => same_text(s, &parent.request_id),
        None => false,
    };
    let run_named = match claim.payload.get_text("run_request_id") {
        Some(s) => same_text(s, &entry.run_request_id),
        None => false,
    };
    if !same_text(&claim.kind, OCCURRENCE_CLAIMED) || claim.actor != EventActor::Scheduler
        || !has_version_one(&claim.payload) || !text_is(&claim.session_id, &parent.session_id)
        || !same_text(&parent.session_id, &entry.session_id) || !text_is(
        &claim.task_id,
        &joined("schedule_", &entry.request_id),
    ) || claim.correlation_id.is_some() || claim.span_id.is_some() || !parent_named || !run_named
        || due != entry.due_at_ms || expiry != entry.expires_at_ms || observed < due || observed
        >= expiry {
        return Err(EventStoreError::InvalidSchedule);
    }
    if claim.causation_id.is_none() {
        return Err(EventStoreError::InvalidSchedule);
    }
    let prior = match prior {
        Some(e) => e,
        None => {
            return Err(EventStoreError::InvalidSchedule);
        },
    };
    let next: u32 = if same_text(&prior.event_id, &source.event_id) {
        1
    } else {
        let same_source = match prior.payload.get_text("source_event_id") {
            Some(s) => same_text(s, &source_id),
            None => false,
        };
        if !(same_text(&prior.kind, REPEAT_SKIPPED) || same_text(&prior.kind, OCCURRENCE_CLAIMED))
            || prior.actor != EventActor::Scheduler || !same_optional_text(
            &prior.session_id,
            &source.session_id,
        ) || !same_source {
            return Err(EventStoreError::InvalidSchedule);
        }
        let recorded = match prior.payload.get("progress") {
            Some(value) => value.get_number("next_occurrence"),
            None => None,
        };
        match recorded {
            Some(n) => n,
            None => {
                return Err(EventStoreError::InvalidSchedule);
            },
        }
    };
    if next != ordinal || prior.seq >= claim.seq {
        return Err(EventStoreError::InvalidSchedule);
    }
    match (from_millis(due), from_millis(expiry)) {
        (Some(due_at), Some(expires_at)) => Ok(
            ScheduleRunCommand {
                request_id: entry.request_id.clone(),
                session_id: parent.session_id.clone(),
                text: parent.text.clone(),
                due_at,
                expires_at,
            },
        ),
        _ => Err(EventStoreError::InvalidSchedule),
    }
}

/// A claim that projection accepted is bound to the child row it created.
pub proof fn projected_claims_are_bound(
    old: RepeatModel,
    source: EventRecord,
    command: RepeatScheduleCommand,
    claim: EventRecord,
)
    requires
        bound_to_source(old, source, command),
        repeat_step(claim, old) is Some,
        claim.kind@ == OCCURRENCE_CLAIMED@,
    ensures
        bound_claim(child_row(claim, old), claim, command),
{
    reveal_strlit("schedule.repeat.cancelled");
    reveal_strlit("schedule.repeat.skipped");
    reveal_strlit("schedule.occurrence.claimed");
    assert(REPEAT_CANCELLED@.len() == 25);
    assert(REPEAT_SKIPPED@.len() == 23);
    assert(OCCURRENCE_CLAIMED@.len() == 27);
    let row = child_row(claim, old);
    let task = claim.task_id->0@;
    let prefix = "schedule_"@;
    assert(claims_next(claim, old));
    assert(starts_with(task, prefix));
    assert(task =~= prefix + row.request_id);
}

/// A cached row that verifies is the only one that does: two rows that name the
/// same source and the same last event agree in every field, so no cached field
/// can drift unnoticed.
pub proof fn verified_rows_are_determined(
    a: RepeatModel,
    b: RepeatModel,
    source: Option<EventRecord>,
    command: Option<RepeatScheduleCommand>,
    max_text_bytes: usize,
    last: Option<EventRecord>,
    r: Result<(), EventStoreError>,
    q: Result<(), EventStoreError>,
)
    requires
        verify_outcome(a, source, command, max_text_bytes, last, r),
        verify_outcome(b, source, command, max_text_bytes, last, q),
        a.source_event_id == b.source_event_id,
        a.last_event_id == b.last_event_id,
        r is Ok,
        q is Ok,
    ensures
        a.session_id == b.session_id,
        a.request_id == b.request_id,
        a.timing == b.timing,
        a.next_occurrence == b.next_occurrence,
        a.claimed == b.claimed,
        a.missed == b.missed,
        a.last_child_id == b.last_child_id,
        a.state == b.state,
{
    if a.last_event_id != a.source_event_id {
        let value = member(last->0.payload, "progress"@)->0;
        progress_is_unambiguous(
            value,
            (a.next_occurrence, a.claimed, a.missed, a.last_child_id),
            (b.next_occurrence, b.claimed, b.missed, b.last_child_id),
        );
    }
}

/// A cached row that verifies accounts for every settled occurrence: each was
/// claimed or missed, a child is known exactly where one was claimed, the row is
/// cancelled exactly where its last event cancelled it, and otherwise exhausted
/// exactly where no occurrence is left. Its last event is later than its request
/// and comes from the actor whose business it was.
pub proof fn verified_rows_account_for_their_occurrences(
    entry: RepeatModel,
    source: EventRecord,
    command: RepeatScheduleCommand,
    max_text_bytes: usize,
    last: Option<EventRecord>,
    r: Result<(), EventStoreError>,
)
    requires
        verify_outcome(entry, Some(source), Some(command), max_text_bytes, last, r),
        r is Ok,
    ensures
        entry.claimed + entry.missed + 1 == entry.next_occurrence,
        entry.next_occurrence <= command.occurrences + 1,
        entry.last_child_id is Some <==> entry.claimed > 0,
        entry.session_id == command.session_id@,
        entry.request_id == command.request_id@,
        entry.timing.first_due_ms == command.due_at.millis_spec() as i64,
        entry.timing.first_expiry_ms == command.expires_at.millis_spec() as i64,
        entry.timing.interval_ms == command.every_seconds * 1000,
        entry.timing.occurrences == command.occurrences,
        source.actor == EventActor::User,
        source.kind@ == "schedule.repeat.requested"@,
        source.task_id is Some && source.task_id->0@ == "repeat_"@ + entry.request_id,
        entry.last_event_id == entry.source_event_id ==> entry.next_occurrence == 1
            && entry.state == RepeatState::Active,
        entry.last_event_id != entry.source_event_id ==> {
            &&& last is Some
            &&& last->0.seq > source.seq
            &&& entry.state == RepeatState::Cancelled <==> last->0.kind@
                == "schedule.repeat.cancelled"@
            &&& last->0.kind@ != "schedule.repeat.cancelled"@ ==> (entry.state
                == RepeatState::Exhausted <==> entry.next_occurrence > command.occurrences)
            &&& last->0.kind@ == "schedule.repeat.cancelled"@ <==> last->0.actor
                == EventActor::User
            &&& last->0.kind@ == "schedule.repeat.skipped"@ || last->0.kind@
                == "schedule.occurrence.claimed"@ <==> last->0.actor == EventActor::Scheduler
            &&& text_member(last->0.payload, "source_event_id"@) == Some(entry.source_event_id)
            &&& last->0.session_id is Some && last->0.session_id->0@ == entry.session_id
        },
{
    reveal_strlit("schedule.repeat.cancelled");
    reveal_strlit("schedule.repeat.skipped");
    reveal_strlit("schedule.occurrence.claimed");
    assert(REPEAT_CANCELLED@.len() == 25);
    assert(REPEAT_SKIPPED@.len() == 23);
    assert(OCCURRENCE_CLAIMED@.len() == 27);
}

/// A run is derived only from a claim that was observed while the window of its
/// occurrence was open, that the scheduler made for this very child and run, and
/// that follows what was settled before it. It runs the text of the request within
/// that window.
pub proof fn derived_runs_were_claimed_in_time(
    entry: ScheduleModel,
    claim: EventRecord,
    source: EventRecord,
    parent: RepeatScheduleCommand,
    max_text_bytes: usize,
    prior: Option<EventRecord>,
    r: Result<ScheduleRunCommand, EventStoreError>,
)
    requires
        occurrence_outcome(
            entry,
            claim,
            Some(source),
            Some(parent),
            max_text_bytes,
            prior,
            r,
        ),
        parent.due_at.representable(),
        parent.expires_at.representable(),
        r is Ok,
    ensures
        ({
            let k = number_member(claim.payload, "occurrence"@);
            let observed = integer_member(claim.payload, "observed_at_ms"@);
            let step = parent.every_seconds * 1000;
            let due = parent.due_at.secs * 1000 + parent.due_at.nanos / 1_000_000 + (k->0 - 1)
                * step;
            let expiry = parent.expires_at.secs * 1000 + parent.expires_at.nanos / 1_000_000 + (k->0
                - 1) * step;
            &&& k is Some && observed is Some
            &&& 1 <= k->0 <= parent.occurrences
            &&& due <= observed->0 < expiry
            &&& entry.due_at_ms == due
            &&& entry.expires_at_ms == expiry
            &&& r->Ok_0.due_at.millis_spec() == due
            &&& r->Ok_0.expires_at.millis_spec() == expiry
            &&& prior is Some
            &&& prior->0.seq < claim.seq
            &&& prior->0.event_id@ == source.event_id@ ==> k == Some(1u32)
            &&& prior->0.event_id@ != source.event_id@ ==> {
                &&& prior->0.actor == EventActor::Scheduler
                &&& prior->0.kind@ == "schedule.repeat.skipped"@ || prior->0.kind@
                    == "schedule.occurrence.claimed"@
                &&& member(prior->0.payload, "progress"@) is Some
                &&& number_member(
                    member(prior->0.payload, "progress"@)->0,
                    "next_occurrence"@,
                ) == k
                &&& text_member(prior->0.payload, "source_event_id"@) == text_member(
                    claim.payload,
                    "source_event_id"@,
                )
                &&& optional_text(prior->0.session_id) == optional_text(source.session_id)
            }
        }),
        claim.kind@ == "schedule.occurrence.claimed"@,
        claim.actor == EventActor::Scheduler,
        integer_member(claim.payload, "version"@) == Some(1i64),
        claim.session_id is Some && claim.session_id->0@ == parent.session_id@,
        claim.task_id is Some && claim.task_id->0@ == "schedule_"@ + entry.request_id,
        claim.correlation_id is None && claim.span_id is None && claim.causation_id is Some,
        text_member(claim.payload, "parent_request_id"@) == Some(parent.request_id@),
        text_member(claim.payload, "run_request_id"@) == Some(entry.run_request_id),
        entry.session_id == parent.session_id@,
        source.actor == EventActor::User,
        r->Ok_0.request_id@ == entry.request_id,
        r->Ok_0.session_id@ == parent.session_id@,
        r->Ok_0.text@ == parent.text@,
{
    let t = RepeatTiming::asked(parent);
    let k = number_member(claim.payload, "occurrence"@)->0;
    windows_repeat_at_the_interval(t, k);
    millis_round_trip(entry.due_at_ms);
    millis_round_trip(entry.expires_at_ms);
}

/// One claim has one child: two cached rows from which the same claim derives a
/// run agree in everything but what moved since.
pub proof fn claimed_children_are_determined(
    a: ScheduleModel,
    b: ScheduleModel,
    claim: EventRecord,
    source: Option<EventRecord>,
    parent: Option<RepeatScheduleCommand>,
    max_text_bytes: usize,
    prior: Option<EventRecord>,
    r: Result<ScheduleRunCommand, EventStoreError>,
    q: Result<ScheduleRunCommand, EventStoreError>,
)
    requires
        occurrence_outcome(a, claim, source, parent, max_text_bytes, prior, r),
        occurrence_outcome(b, claim, source, parent, max_text_bytes, prior, q),
        r is Ok,
        q is Ok,
    ensures
        a.session_id == b.session_id,
        a.request_id == b.request_id,
        a.run_request_id == b.run_request_id,
        a.due_at_ms == b.due_at_ms,
        a.expires_at_ms == b.expires_at_ms,
{
    let task = claim.task_id->0@;
    let prefix = "schedule_"@;
    assert(task.skip(prefix.len() as int) =~= a.request_id);
    assert(task.skip(prefix.len() as int) =~= b.request_id);
}

/// What projection accepts, a run can be derived from: the claim of an occurrence
/// that projection took gives the run of its child, once the event that caused it
/// records the occurrence as the next.
pub proof fn projected_claims_give_runs(
    old: RepeatEntry,
    source: EventRecord,
    command: RepeatScheduleCommand,
    max_text_bytes: usize,
    claim: EventRecord,
    prior: EventRecord,
    r: Result<ScheduleRunCommand, EventStoreError>,
)
    requires
        requests(source, command, max_text_bytes),
        bound_to_source(old@, source, command),
        repeat_step(claim, old@) is Some,
        claim.kind@ == "schedule.occurrence.claimed"@,
        follows_prior(claim, source, prior),
        occurrence_outcome(
            child_row(claim, old@),
            claim,
            Some(source),
            Some(command),
            max_text_bytes,
            Some(prior),
            r,
        ),
    ensures
        r is Ok,
        r->Ok_0.text@ == command.text@,
{
    projected_claims_are_bound(old@, source, command, claim);
}

} // verus!
