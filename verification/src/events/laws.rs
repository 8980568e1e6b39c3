//! What holds of payloads, one-shot schedules and repeating schedules, in terms
//! of the events and rows themselves.

use vstd::prelude::*;
use vstd::utf8::*;

use crate::events::json::{
    integer_member, member, member_from, number_member, text_member, Json, JsonField,
};
use crate::events::record::{
    canonical, version_one, EventActor, EventRecord, EventStoreError,
};
use crate::events::recurrence::{
    expired_counts_closed_windows, is_progress, repeat_outcome, RepeatChange, RepeatEntry,
    RepeatScheduleCommand, RepeatState, RepeatTiming,
};
use crate::events::schedule::{
    after_prefix, schedule_kind, schedule_outcome, schedule_transition, ScheduleEntry,
    ScheduleRunCommand, ScheduleState,
};
use crate::text::{optional_text, starts_with, white_space};
use crate::time::millis_instant;

verus! {

/// A member is the first of its name, and a name that no member has is not found.
pub proof fn members_are_found_by_name(fields: Vec<JsonField>, name: Seq<char>, i: int)
    ensures
        0 <= i < fields@.len() && fields@[i].name@ == name && (forall|j: int|
            0 <= j < i ==> (#[trigger] fields@[j]).name@ != name) ==> member(
            Json::Object(fields),
            name,
        ) == Some(fields@[i].value),
        (forall|j: int| 0 <= j < fields@.len() ==> (#[trigger] fields@[j]).name@ != name)
            ==> member(Json::Object(fields), name) is None,
{
    lemma_member_from(fields@, name, 0, i);
    lemma_member_missing(fields@, name, 0);
}

proof fn lemma_member_from(fields: Seq<JsonField>, name: Seq<char>, from: int, i: int)
    requires
        0 <= from,
    ensures
        from <= i < fields.len() && fields[i].name@ == name && (forall|j: int|
            from <= j < i ==> (#[trigger] fields[j]).name@ != name) ==> member_from(
            fields,
            name,
            from,
        ) == Some(fields[i].value),
    decreases fields.len() - from,
{
    if from < i < fields.len() {
        lemma_member_from(fields, name, from + 1, i);
    }
}

proof fn lemma_member_missing(fields: Seq<JsonField>, name: Seq<char>, from: int)
    requires
        0 <= from,
    ensures
        (forall|j: int| from <= j < fields.len() ==> (#[trigger] fields[j]).name@ != name)
            ==> member_from(fields, name, from) is None,
    decreases fields.len() - from,
{
    if from < fields.len() {
        lemma_member_missing(fields, name, from + 1);
    }
}

/// Members are read by their type: a text as a text, a count as a count of 32
/// bits, an integer as one of 64 bits, and nothing is read as what it is not.
pub proof fn members_keep_their_types(value: Json, name: Seq<char>, text: String, n: u64, k: i64)
    ensures
        member(value, name) == Some(Json::Text(text)) ==> text_member(value, name) == Some(text@)
            && number_member(value, name) is None && integer_member(value, name) is None,
        member(value, name) == Some(Json::Unsigned(n)) ==> {
            &&& text_member(value, name) is None
            &&& n < 0x1_0000_0000 ==> number_member(value, name) == Some(n as u32)
            &&& n >= 0x1_0000_0000 ==> number_member(value, name) is None
            &&& n < 0x8000_0000_0000_0000 ==> integer_member(value, name) == Some(n as i64)
            &&& n >= 0x8000_0000_0000_0000 ==> integer_member(value, name) is None
        },
        member(value, name) == Some(Json::Negative(k)) ==> integer_member(value, name) == Some(k)
            && number_member(value, name) is None && text_member(value, name) is None,
        member(value, name) is None ==> text_member(value, name) is None && number_member(
            value,
            name,
        ) is None && integer_member(value, name) is None,
        text_member(value, name) is Some ==> member(value, name) is Some && member(value, name)->0
            is Text,
        number_member(value, name) is Some ==> member(value, name) == Some(
            Json::Unsigned(number_member(value, name)->0 as u64),
        ),
        version_one(value) ==> integer_member(value, "version"@) == Some(1i64),
        member(value, "version"@) == Some(Json::Unsigned(1)) ==> version_one(value),
{
}

/// A text with a prefix is the prefix and what follows it, and a text without it
/// has nothing that follows.
pub proof fn prefixes_are_taken_off(prefix: Seq<char>, rest: Seq<char>, value: Seq<char>)
    ensures
        after_prefix(Some(prefix + rest), prefix) == Some(rest),
        after_prefix(Some(value), prefix) is Some ==> value == prefix + after_prefix(
            Some(value),
            prefix,
        )->0,
        after_prefix(None, prefix) is None,
{
    let whole = prefix + rest;
    assert(whole.take(prefix.len() as int) =~= prefix);
    assert(whole.skip(prefix.len() as int) =~= rest);
    if starts_with(value, prefix) {
        assert(value =~= prefix + value.skip(prefix.len() as int));
    }
}

proof fn lemma_schedule_kinds()
    ensures
        "schedule.requested"@ != "schedule.claimed"@,
        "schedule.requested"@ != "schedule.missed"@,
        "schedule.requested"@ != "schedule.cancelled"@,
        "schedule.requested"@ != "schedule.cancel_requested"@,
        "schedule.claimed"@ != "schedule.missed"@,
        "schedule.claimed"@ != "schedule.cancelled"@,
        "schedule.claimed"@ != "schedule.cancel_requested"@,
        "schedule.missed"@ != "schedule.cancelled"@,
        "schedule.missed"@ != "schedule.cancel_requested"@,
        "schedule.cancelled"@ != "schedule.cancel_requested"@,
{
    reveal_strlit("schedule.requested");
    reveal_strlit("schedule.claimed");
    reveal_strlit("schedule.missed");
    reveal_strlit("schedule.cancelled");
    reveal_strlit("schedule.cancel_requested");
    assert("schedule.requested"@.len() == 18);
    assert("schedule.claimed"@.len() == 16);
    assert("schedule.missed"@.len() == 15);
    assert("schedule.cancelled"@.len() == 18);
    assert("schedule.cancel_requested"@.len() == 25);
    assert("schedule.requested"@[9] == 'r');
    assert("schedule.cancelled"@[9] == 'c');
}

/// The scheduler alone claims a schedule or lets it be missed, the user alone
/// cancels one or asks for that, and each does so only from the state where it
/// makes sense, right after the row's last event and in a message of the
/// schedule's own.
pub proof fn only_their_own_actors_move_schedules(
    event: EventRecord,
    command: Option<ScheduleRunCommand>,
    pending: usize,
    old: ScheduleEntry,
    r: Result<ScheduleEntry, EventStoreError>,
)
    requires
        schedule_outcome(event, command, pending, Some(old), r),
        event.kind@ != "schedule.requested"@,
        r is Ok,
    ensures
        event.kind@ == "schedule.claimed"@ || event.kind@ == "schedule.missed"@
            <==> event.actor == EventActor::Scheduler,
        event.kind@ == "schedule.cancelled"@ || event.kind@ == "schedule.cancel_requested"@
            <==> event.actor == EventActor::User,
        event.actor == EventActor::Scheduler || event.actor == EventActor::User,
        old.state == ScheduleState::Pending || old.state == ScheduleState::Claimed,
        old.state == ScheduleState::Claimed <==> r->Ok_0.state == ScheduleState::CancelRequested,
        r->Ok_0.state == ScheduleState::Claimed <==> event.kind@ == "schedule.claimed"@,
        r->Ok_0.state == ScheduleState::Missed <==> event.kind@ == "schedule.missed"@,
        r->Ok_0.state == ScheduleState::Cancelled <==> event.kind@ == "schedule.cancelled"@,
        r->Ok_0.state == ScheduleState::CancelRequested <==> event.kind@
            == "schedule.cancel_requested"@,
        r->Ok_0.state != ScheduleState::Pending,
        event.causation_id is Some && event.causation_id->0@ == old.last_event_id@,
        r->Ok_0.last_event_id@ == event.event_id@,
        event.session_id is Some,
        event.task_id is Some && event.task_id->0@ == "schedule_"@ + event.task_id->0@.skip(9),
        event.correlation_id is None,
        event.span_id is None,
        integer_member(event.payload, "version"@) == Some(1i64),
{
    lemma_schedule_kinds();
    reveal_strlit("schedule_");
    assert("schedule_"@.len() == 9);
    prefixes_are_taken_off("schedule_"@, Seq::empty(), event.task_id->0@);
}

/// A message of the schedule that follows the row's last event is taken: the user
/// can cancel what is pending and ask to cancel what is claimed, and the scheduler
/// can claim what is pending or let it be missed.
pub proof fn schedules_can_be_moved(
    event: EventRecord,
    request: Seq<char>,
    command: Option<ScheduleRunCommand>,
    pending: usize,
    old: ScheduleEntry,
    r: Result<ScheduleEntry, EventStoreError>,
)
    requires
        schedule_outcome(event, command, pending, Some(old), r),
        event.session_id is Some,
        event.task_id is Some && event.task_id->0@ == "schedule_"@ + request,
        event.correlation_id is None,
        event.span_id is None,
        integer_member(event.payload, "version"@) == Some(1i64),
        event.causation_id is Some && event.causation_id->0@ == old.last_event_id@,
    ensures
        old.state == ScheduleState::Pending && event.kind@ == "schedule.cancelled"@ && event.actor
            == EventActor::User ==> r is Ok && r->Ok_0.state == ScheduleState::Cancelled,
        old.state == ScheduleState::Pending && event.kind@ == "schedule.claimed"@ && event.actor
            == EventActor::Scheduler ==> r is Ok && r->Ok_0.state == ScheduleState::Claimed,
        old.state == ScheduleState::Pending && event.kind@ == "schedule.missed"@ && event.actor
            == EventActor::Scheduler ==> r is Ok && r->Ok_0.state == ScheduleState::Missed,
        old.state == ScheduleState::Claimed && event.kind@ == "schedule.cancel_requested"@
            && event.actor == EventActor::User ==> r is Ok && r->Ok_0.state
            == ScheduleState::CancelRequested,
        r is Ok && event.kind@ != "schedule.requested"@ ==> {
            &&& r->Ok_0.session_id@ == old.session_id@
            &&& r->Ok_0.request_id@ == old.request_id@
            &&& r->Ok_0.source_event_id@ == old.source_event_id@
            &&& r->Ok_0.run_request_id@ == old.run_request_id@
            &&& r->Ok_0.due_at_ms == old.due_at_ms
            &&& r->Ok_0.expires_at_ms == old.expires_at_ms
            &&& r->Ok_0.last_event_id@ == event.event_id@
        },
        r is Err && event.kind@ != "schedule.requested"@ ==> r->Err_0 is InvalidSchedule,
{
    lemma_schedule_kinds();
    prefixes_are_taken_off("schedule_"@, request, event.task_id->0@);
}

/// A schedule starts exactly where the user asks for it of their own accord, in a
/// message that names the same request and session as the command, with a window
/// of whole milliseconds that opens before it closes and a run of a canonical
/// name, while fewer than a hundred are pending. The row holds what was asked for.
pub proof fn schedules_start_as_requested(
    event: EventRecord,
    request: Seq<char>,
    command: ScheduleRunCommand,
    pending: usize,
    old: Option<ScheduleEntry>,
    r: Result<ScheduleEntry, EventStoreError>,
)
    requires
        schedule_outcome(event, Some(command), pending, old, r),
        event.kind@ == "schedule.requested"@,
        command.due_at.representable(),
        command.expires_at.representable(),
        event.task_id is Some && event.task_id->0@ == "schedule_"@ + request,
    ensures
        r is Ok <==> {
            &&& event.session_id is Some
            &&& event.correlation_id is None
            &&& event.span_id is None
            &&& event.causation_id is None
            &&& integer_member(event.payload, "version"@) == Some(1i64)
            &&& event.actor == EventActor::User
            &&& command.request_id@ == request
            &&& command.session_id@ == event.session_id->0@
            &&& command.due_at.secs < command.expires_at.secs || command.due_at.secs
                == command.expires_at.secs && command.due_at.nanos < command.expires_at.nanos
            &&& command.due_at.nanos % 1_000_000 == 0
            &&& command.expires_at.nanos % 1_000_000 == 0
            &&& text_member(event.payload, "run_request_id"@) is Some
            &&& canonical(text_member(event.payload, "run_request_id"@)->0)
            &&& pending < 100
        },
        r is Ok ==> {
            &&& r->Ok_0.session_id@ == command.session_id@
            &&& r->Ok_0.request_id@ == request
            &&& r->Ok_0.source_event_id@ == event.event_id@
            &&& r->Ok_0.last_event_id@ == event.event_id@
            &&& Some(r->Ok_0.run_request_id@) == text_member(event.payload, "run_request_id"@)
            &&& r->Ok_0.due_at_ms == command.due_at.secs * 1000 + command.due_at.nanos / 1_000_000
            &&& r->Ok_0.expires_at_ms == command.expires_at.secs * 1000 + command.expires_at.nanos
                / 1_000_000
            &&& r->Ok_0.state == ScheduleState::Pending
        },
        r is Err ==> r->Err_0 is InvalidSchedule,
{
    prefixes_are_taken_off("schedule_"@, request, event.task_id->0@);
}

/// Identifiers are canonical exactly where they are 26 digits of Crockford's
/// Base32 that start with one of eight: no lower case, and none of the letters
/// that look like a digit or like V.
pub proof fn canonical_texts_have_one_alphabet(text: Seq<char>, i: int)
    ensures
        canonical(text) ==> text.len() == 26 && '0' <= text[0] <= '7',
        canonical(text) && 0 <= i < 26 ==> ('0' <= text[i] <= '9' || 'A' <= text[i] <= 'Z')
            && text[i] != 'I' && text[i] != 'L' && text[i] != 'O' && text[i] != 'U',
        text.len() == 26 && '0' <= text[0] <= '7' && (forall|k: int|
            0 <= k < 26 ==> ('0' <= (#[trigger] text[k]) <= '9' || 'A' <= text[k] <= 'Z')
                && text[k] != 'I' && text[k] != 'L' && text[k] != 'O' && text[k] != 'U')
            ==> canonical(text),
{
}

/// The stored names of states are fixed: rows that are already stored are read by
/// them.
pub proof fn stored_names_of_states()
    ensures
        ScheduleState::Pending.name() == "pending"@,
        ScheduleState::Claimed.name() == "claimed"@,
        ScheduleState::CancelRequested.name() == "cancel_requested"@,
        ScheduleState::Cancelled.name() == "cancelled"@,
        ScheduleState::Missed.name() == "missed"@,
        RepeatState::Active.name() == "active"@,
        RepeatState::Exhausted.name() == "exhausted"@,
        RepeatState::Cancelled.name() == "cancelled"@,
        EventActor::User.token() == "user"@,
        EventActor::Model.token() == "model"@,
        EventActor::Capability.token() == "capability"@,
        EventActor::Policy.token() == "policy"@,
        EventActor::System.token() == "system"@,
        EventActor::Scheduler.token() == "scheduler"@,
{
}

/// A progress record says by name how many occurrences were claimed and missed,
/// which one is next and what the last child was.
pub proof fn progress_records_are_read_by_name(
    value: Json,
    next: u32,
    claimed: u32,
    missed: u32,
    child: Option<Seq<char>>,
)
    requires
        is_progress(value, next, claimed, missed, child),
    ensures
        number_member(value, "next_occurrence"@) == Some(next),
        number_member(value, "claimed"@) == Some(claimed),
        number_member(value, "missed"@) == Some(missed),
        child is Some ==> text_member(value, "last_child_id"@) == child,
        child is None ==> member(value, "last_child_id"@) == Some(Json::Null),
        value is Object && value->Object_0@.len() == 4,
{
}

proof fn lemma_repeat_kinds()
    ensures
        "schedule.repeat.requested"@ != "schedule.repeat.skipped"@,
        "schedule.repeat.requested"@ != "schedule.repeat.cancelled"@,
        "schedule.repeat.requested"@ != "schedule.occurrence.claimed"@,
        "schedule.repeat.skipped"@ != "schedule.repeat.cancelled"@,
        "schedule.repeat.skipped"@ != "schedule.occurrence.claimed"@,
        "schedule.repeat.cancelled"@ != "schedule.occurrence.claimed"@,
{
    reveal_strlit("schedule.repeat.requested");
    reveal_strlit("schedule.repeat.skipped");
    reveal_strlit("schedule.repeat.cancelled");
    reveal_strlit("schedule.occurrence.claimed");
    assert("schedule.repeat.requested"@.len() == 25);
    assert("schedule.repeat.skipped"@.len() == 23);
    assert("schedule.repeat.cancelled"@.len() == 25);
    assert("schedule.occurrence.claimed"@.len() == 27);
    assert("schedule.repeat.requested"@[16] == 'r');
    assert("schedule.repeat.cancelled"@[16] == 'c');
}

/// Every message that moves a repeating schedule is addressed to it, follows its
/// last event, is of version one and comes from the actor whose business it is:
/// the user cancels, the scheduler claims and skips.
pub proof fn only_their_own_actors_move_repeats(
    event: EventRecord,
    command: Option<RepeatScheduleCommand>,
    max_text_bytes: usize,
    future: usize,
    old: RepeatEntry,
    r: Result<RepeatChange, EventStoreError>,
)
    requires
        repeat_outcome(event, command, max_text_bytes, future, Some(old), r),
        event.kind@ != "schedule.repeat.requested"@,
        r is Ok,
    ensures
        event.kind@ == "schedule.repeat.cancelled"@ || event.kind@ == "schedule.repeat.skipped"@
            || event.kind@ == "schedule.occurrence.claimed"@,
        event.kind@ == "schedule.repeat.cancelled"@ <==> event.actor == EventActor::User,
        event.kind@ != "schedule.repeat.cancelled"@ <==> event.actor == EventActor::Scheduler,
        old.state != RepeatState::Cancelled,
        event.kind@ != "schedule.repeat.cancelled"@ ==> old.state == RepeatState::Active,
        event.causation_id is Some && event.causation_id->0@ == old.last_event_id@,
        event.session_id is Some && event.session_id->0@ == old.session_id@,
        text_member(event.payload, "source_event_id"@) == Some(old.source_event_id@),
        event.kind@ == "schedule.occurrence.claimed"@ ==> text_member(
            event.payload,
            "parent_request_id"@,
        ) == Some(old.request_id@),
        event.kind@ != "schedule.occurrence.claimed"@ ==> event.task_id is Some
            && event.task_id->0@ == "repeat_"@ + old.request_id@,
        event.correlation_id is None,
        event.span_id is None,
        integer_member(event.payload, "version"@) == Some(1i64),
        r->Ok_0.entry.last_event_id@ == event.event_id@,
        r->Ok_0.entry.session_id@ == old.session_id@,
        r->Ok_0.entry.request_id@ == old.request_id@,
        r->Ok_0.entry.source_event_id@ == old.source_event_id@,
        r->Ok_0.entry.timing == old.timing,
        r->Ok_0.child is Some <==> event.kind@ == "schedule.occurrence.claimed"@,
        ({
            let recorded = member(event.payload, "progress"@);
            let entry = r->Ok_0.entry;
            &&& recorded is Some
            &&& number_member(recorded->0, "next_occurrence"@) == Some(entry.next_occurrence)
            &&& number_member(recorded->0, "claimed"@) == Some(entry.claimed)
            &&& number_member(recorded->0, "missed"@) == Some(entry.missed)
        }),
{
    lemma_repeat_kinds();
}

/// An occurrence is claimed only while its window is open: the time that the claim
/// was observed lies at or after the time it is due and before the time it
/// expires. The child that runs it has that very window.
pub proof fn claims_fall_within_their_windows(
    event: EventRecord,
    command: Option<RepeatScheduleCommand>,
    max_text_bytes: usize,
    future: usize,
    old: RepeatEntry,
    r: Result<RepeatChange, EventStoreError>,
)
    requires
        repeat_outcome(event, command, max_text_bytes, future, Some(old), r),
        event.kind@ == "schedule.occurrence.claimed"@,
        old.next_occurrence < u32::MAX,
        old.claimed < u32::MAX,
        r is Ok,
    ensures
        ({
            let k = old.next_occurrence as int;
            let due = old.timing.first_due_ms + (k - 1) * old.timing.interval_ms;
            let expiry = old.timing.first_expiry_ms + (k - 1) * old.timing.interval_ms;
            let observed = integer_member(event.payload, "observed_at_ms"@);
            let (entry, child) = (r->Ok_0.entry, r->Ok_0.child->0);
            &&& 1 <= k <= old.timing.occurrences
            &&& observed is Some
            &&& due <= observed->0 < expiry
            &&& number_member(event.payload, "occurrence"@) == Some(old.next_occurrence)
            &&& r->Ok_0.child is Some
            &&& child.due_at_ms == due
            &&& child.expires_at_ms == expiry
            &&& child.state == ScheduleState::Claimed
            &&& child.session_id@ == old.session_id@
            &&& event.task_id is Some
            &&& event.task_id->0@ == "schedule_"@ + child.request_id@
            &&& canonical(child.request_id@)
            &&& text_member(event.payload, "run_request_id"@) == Some(child.run_request_id@)
            &&& canonical(child.run_request_id@)
            &&& child.source_event_id@ == event.event_id@
            &&& child.last_event_id@ == event.event_id@
            &&& entry.next_occurrence == k + 1
            &&& entry.claimed == old.claimed + 1
            &&& entry.missed == old.missed
            &&& optional_text(entry.last_child_id) == Some(child.request_id@)
            &&& entry.state == RepeatState::Exhausted <==> k == old.timing.occurrences
            &&& entry.state == RepeatState::Active <==> k != old.timing.occurrences
        }),
{
    lemma_repeat_kinds();
    prefixes_are_taken_off("schedule_"@, Seq::empty(), event.task_id->0@);
    let k = old.next_occurrence as int;
    assert(old.timing.offset(old.next_occurrence) == (k - 1) * old.timing.interval_ms);
    let step = old.timing.interval_ms as int;
    assert((k - 1) * step >= 0) by (nonlinear_arith)
        requires
            k >= 1,
            step > 0,
    ;
}

/// Occurrences are skipped only once their windows have closed, and all that have
/// closed are skipped at once: the last one skipped has expired at the observed
/// time and the one after it has not.
pub proof fn skips_settle_exactly_what_has_expired(
    event: EventRecord,
    command: Option<RepeatScheduleCommand>,
    max_text_bytes: usize,
    future: usize,
    old: RepeatEntry,
    r: Result<RepeatChange, EventStoreError>,
    k: int,
)
    requires
        repeat_outcome(event, command, max_text_bytes, future, Some(old), r),
        event.kind@ == "schedule.repeat.skipped"@,
        old.next_occurrence >= 1,
        old.missed + old.timing.occurrences < u32::MAX,
        r is Ok,
    ensures
        ({
            let from = number_member(event.payload, "from_occurrence"@);
            let through = number_member(event.payload, "through_occurrence"@);
            let observed = integer_member(event.payload, "observed_at_ms"@);
            let entry = r->Ok_0.entry;
            &&& from == Some(old.next_occurrence)
            &&& through is Some && observed is Some
            &&& old.next_occurrence <= through->0 <= old.timing.occurrences
            &&& old.next_occurrence <= k <= through->0 ==> old.timing.first_expiry_ms + (k - 1)
                * old.timing.interval_ms <= observed->0
            &&& through->0 < k <= old.timing.occurrences ==> observed->0
                < old.timing.first_expiry_ms + (k - 1) * old.timing.interval_ms
            &&& entry.next_occurrence == through->0 + 1
            &&& entry.missed - old.missed == through->0 + 1 - old.next_occurrence
            &&& entry.claimed == old.claimed
            &&& optional_text(entry.last_child_id) == optional_text(old.last_child_id)
            &&& entry.state == RepeatState::Exhausted <==> through->0 == old.timing.occurrences
            &&& entry.state == RepeatState::Active <==> through->0 != old.timing.occurrences
            &&& r->Ok_0.child is None
        }),
{
    lemma_repeat_kinds();
    let observed = integer_member(event.payload, "observed_at_ms"@)->0;
    let through = number_member(event.payload, "through_occurrence"@)->0;
    expired_counts_closed_windows(old.timing, observed, old.timing.occurrences);
    if 1 <= k <= old.timing.occurrences {
        expired_counts_closed_windows(old.timing, observed, k as u32);
        assert(old.timing.offset(k as u32) == (k - 1) * old.timing.interval_ms);
    }
}

/// An occurrence that can be skipped can no longer be claimed: no observed time
/// permits both.
pub proof fn no_occurrence_is_both_claimed_and_skipped(
    claim: EventRecord,
    skip: EventRecord,
    max_text_bytes: usize,
    future: usize,
    old: RepeatEntry,
    r: Result<RepeatChange, EventStoreError>,
    q: Result<RepeatChange, EventStoreError>,
)
    requires
        repeat_outcome(claim, None, max_text_bytes, future, Some(old), r),
        repeat_outcome(skip, None, max_text_bytes, future, Some(old), q),
        claim.kind@ == "schedule.occurrence.claimed"@,
        skip.kind@ == "schedule.repeat.skipped"@,
        integer_member(claim.payload, "observed_at_ms"@) == integer_member(
            skip.payload,
            "observed_at_ms"@,
        ),
        old@.consistent(),
    ensures
        r is Err || q is Err,
{
    if r is Ok && q is Ok {
        claims_fall_within_their_windows(claim, None, max_text_bytes, future, old, r);
        skips_settle_exactly_what_has_expired(
            skip,
            None,
            max_text_bytes,
            future,
            old,
            q,
            old.next_occurrence as int,
        );
    }
}

/// The message is one of the schedule's own: it follows the row's last event, in
/// its session, about its source, of version one.
pub open spec fn message_of(event: EventRecord, old: RepeatEntry) -> bool {
    &&& event.causation_id is Some && event.causation_id->0@ == old.last_event_id@
    &&& event.session_id is Some && event.session_id->0@ == old.session_id@
    &&& text_member(event.payload, "source_event_id"@) == Some(old.source_event_id@)
    &&& event.correlation_id is None
    &&& event.span_id is None
    &&& integer_member(event.payload, "version"@) == Some(1i64)
}

/// The user can cancel a repeating schedule that is not cancelled yet, whether or
/// not it has occurrences left; nothing that was settled is taken back.
pub proof fn repeats_can_be_cancelled(
    event: EventRecord,
    command: Option<RepeatScheduleCommand>,
    max_text_bytes: usize,
    future: usize,
    old: RepeatEntry,
    r: Result<RepeatChange, EventStoreError>,
)
    requires
        repeat_outcome(event, command, max_text_bytes, future, Some(old), r),
        message_of(event, old),
        event.kind@ == "schedule.repeat.cancelled"@,
        event.actor == EventActor::User,
        event.task_id is Some && event.task_id->0@ == "repeat_"@ + old.request_id@,
        old.state != RepeatState::Cancelled,
        member(event.payload, "progress"@) is Some,
        is_progress(
            member(event.payload, "progress"@)->0,
            old.next_occurrence,
            old.claimed,
            old.missed,
            optional_text(old.last_child_id),
        ),
    ensures
        r is Ok,
        r->Ok_0.entry.state == RepeatState::Cancelled,
        r->Ok_0.entry.next_occurrence == old.next_occurrence,
        r->Ok_0.entry.claimed == old.claimed,
        r->Ok_0.entry.missed == old.missed,
        optional_text(r->Ok_0.entry.last_child_id) == optional_text(old.last_child_id),
        r->Ok_0.child is None,
{
    lemma_repeat_kinds();
    prefixes_are_taken_off("repeat_"@, old.request_id@, event.task_id->0@);
}

/// The scheduler can claim the next occurrence of an active schedule at any time
/// while its window is open, for a child and a run of canonical names.
pub proof fn open_occurrences_can_be_claimed(
    event: EventRecord,
    child: Seq<char>,
    command: Option<RepeatScheduleCommand>,
    max_text_bytes: usize,
    future: usize,
    old: RepeatEntry,
    r: Result<RepeatChange, EventStoreError>,
)
    requires
        repeat_outcome(event, command, max_text_bytes, future, Some(old), r),
        message_of(event, old),
        old@.consistent(),
        old.state == RepeatState::Active,
        event.kind@ == "schedule.occurrence.claimed"@,
        event.actor == EventActor::Scheduler,
        event.task_id is Some && event.task_id->0@ == "schedule_"@ + child,
        canonical(child),
        text_member(event.payload, "parent_request_id"@) == Some(old.request_id@),
        text_member(event.payload, "run_request_id"@) is Some,
        canonical(text_member(event.payload, "run_request_id"@)->0),
        number_member(event.payload, "occurrence"@) == Some(old.next_occurrence),
        integer_member(event.payload, "observed_at_ms"@) is Some,
        ({
            let offset = (old.next_occurrence - 1) * old.timing.interval_ms;
            let due = old.timing.first_due_ms + offset;
            let expiry = old.timing.first_expiry_ms + offset;
            &&& due <= integer_member(event.payload, "observed_at_ms"@)->0 < expiry
            &&& offset <= i64::MAX
            &&& expiry <= i64::MAX
            &&& millis_instant(due as i64) is Some
            &&& millis_instant(expiry as i64) is Some
        }),
        member(event.payload, "progress"@) is Some,
        is_progress(
            member(event.payload, "progress"@)->0,
            (old.next_occurrence + 1) as u32,
            (old.claimed + 1) as u32,
            old.missed,
            Some(child),
        ),
    ensures
        r is Ok,
{
    lemma_repeat_kinds();
    prefixes_are_taken_off("schedule_"@, child, event.task_id->0@);
    assert(old.timing.offset(old.next_occurrence) == (old.next_occurrence - 1)
        * old.timing.interval_ms);
}

/// The scheduler can skip what has expired: the occurrences from the next one
/// through the last whose window has closed at the observed time.
pub proof fn expired_occurrences_can_be_skipped(
    event: EventRecord,
    through: u32,
    command: Option<RepeatScheduleCommand>,
    max_text_bytes: usize,
    future: usize,
    old: RepeatEntry,
    r: Result<RepeatChange, EventStoreError>,
)
    requires
        repeat_outcome(event, command, max_text_bytes, future, Some(old), r),
        message_of(event, old),
        old@.consistent(),
        old.state == RepeatState::Active,
        event.kind@ == "schedule.repeat.skipped"@,
        event.actor == EventActor::Scheduler,
        event.task_id is Some && event.task_id->0@ == "repeat_"@ + old.request_id@,
        number_member(event.payload, "from_occurrence"@) == Some(old.next_occurrence),
        number_member(event.payload, "through_occurrence"@) == Some(through),
        integer_member(event.payload, "observed_at_ms"@) is Some,
        old.next_occurrence <= through <= old.timing.occurrences,
        old.timing.first_expiry_ms + (through - 1) * old.timing.interval_ms <= integer_member(
            event.payload,
            "observed_at_ms"@,
        )->0,
        through < old.timing.occurrences ==> integer_member(event.payload, "observed_at_ms"@)->0
            < old.timing.first_expiry_ms + through * old.timing.interval_ms,
        member(event.payload, "progress"@) is Some,
        is_progress(
            member(event.payload, "progress"@)->0,
            (through + 1) as u32,
            old.claimed,
            (old.missed + through + 1 - old.next_occurrence) as u32,
            optional_text(old.last_child_id),
        ),
    ensures
        r is Ok,
{
    lemma_repeat_kinds();
    prefixes_are_taken_off("repeat_"@, old.request_id@, event.task_id->0@);
    let observed = integer_member(event.payload, "observed_at_ms"@)->0;
    assert(old.timing.expired(observed) is Some);
    expired_counts_closed_windows(old.timing, observed, through);
    assert(old.timing.offset(through) == (through - 1) * old.timing.interval_ms);
    if through < old.timing.occurrences {
        let next = (through + 1) as u32;
        expired_counts_closed_windows(old.timing, observed, next);
        assert(old.timing.offset(next) == through * old.timing.interval_ms);
    } else {
        expired_counts_closed_windows(old.timing, observed, old.timing.occurrences);
    }
}

/// The window of an occurrence lies that many intervals behind the first, opens
/// and closes as far apart, and exists for the occurrences of the timetable alone.
pub proof fn windows_repeat_at_the_interval(timing: RepeatTiming, k: u32)
    ensures
        timing.window_of(k) is Some ==> {
            let (due, expiry) = timing.window_of(k)->0;
            &&& 1 <= k <= timing.occurrences
            &&& due == timing.first_due_ms + (k - 1) * timing.interval_ms
            &&& expiry == timing.first_expiry_ms + (k - 1) * timing.interval_ms
            &&& timing.interval_ms > 0
        },
        timing.window_of(0) is None,
        k > timing.occurrences ==> timing.window_of(k) is None,
        ({
            let due = timing.first_due_ms + (k - 1) * timing.interval_ms;
            let expiry = timing.first_expiry_ms + (k - 1) * timing.interval_ms;
            1 <= k <= timing.occurrences && timing.interval_ms > 0 && (k - 1) * timing.interval_ms
                <= i64::MAX && due <= i64::MAX && expiry <= i64::MAX && millis_instant(due as i64)
                is Some && millis_instant(expiry as i64) is Some ==> timing.window_of(k) == Some(
                (due as i64, expiry as i64),
            )
        }),
{
    if timing.window_of(k) is Some {
        let step = timing.interval_ms as int;
        assert((k - 1) * step >= 0) by (nonlinear_arith)
            requires
                k >= 1,
                step > 0,
        ;
        assert(timing.offset(k) == (k - 1) * step);
    }
}

/// A repeating schedule starts exactly where the user asks for it of their own
/// accord, in a message of its own, with a text that is neither padded nor too
/// long, at most a thousand times within a year, a minute to a month apart, each
/// window open for a day or the interval at most, while fewer than a hundred
/// schedules are ahead. The row holds what was asked for and nothing is settled.
pub proof fn repeats_start_as_requested(
    event: EventRecord,
    command: RepeatScheduleCommand,
    max_text_bytes: usize,
    future: usize,
    old: Option<RepeatEntry>,
    r: Result<RepeatChange, EventStoreError>,
)
    requires
        repeat_outcome(event, Some(command), max_text_bytes, future, old, r),
        event.kind@ == "schedule.repeat.requested"@,
        command.due_at.representable(),
        command.expires_at.representable(),
        command.due_at.nanos < 1_000_000_000,
        command.expires_at.nanos < 1_000_000_000,
    ensures
        r is Ok ==> {
            let length = (command.expires_at.secs - command.due_at.secs) * 1_000_000_000 + (
            command.expires_at.nanos - command.due_at.nanos);
            let row = r->Ok_0.entry;
            &&& event.actor == EventActor::User
            &&& integer_member(event.payload, "version"@) == Some(1i64)
            &&& event.session_id is Some && event.session_id->0@ == command.session_id@
            &&& event.task_id is Some && event.task_id->0@ == "repeat_"@ + command.request_id@
            &&& event.causation_id is None && event.correlation_id is None && event.span_id is None
            &&& command.text@.len() > 0
            &&& !white_space(command.text@[0])
            &&& !white_space(command.text@[command.text@.len() - 1])
            &&& encode_utf8(command.text@).len() <= max_text_bytes
            &&& canonical(command.request_id@)
            &&& 60 <= command.every_seconds <= 31 * 24 * 3600
            &&& 2 <= command.occurrences <= 1000
            &&& command.due_at.nanos % 1_000_000 == 0 && command.expires_at.nanos % 1_000_000 == 0
            &&& 0 < length <= 24 * 3600 * 1_000_000_000
            &&& length <= command.every_seconds * 1_000_000_000
            &&& command.every_seconds * (command.occurrences - 1) <= 365 * 24 * 3600
            &&& future < 100
            &&& row.session_id@ == command.session_id@
            &&& row.request_id@ == command.request_id@
            &&& row.source_event_id@ == event.event_id@ && row.last_event_id@ == event.event_id@
            &&& row.timing.first_due_ms == command.due_at.secs * 1000 + command.due_at.nanos
                / 1_000_000
            &&& row.timing.first_expiry_ms == command.expires_at.secs * 1000
                + command.expires_at.nanos / 1_000_000
            &&& row.timing.interval_ms == command.every_seconds * 1000
            &&& row.timing.occurrences == command.occurrences
            &&& row.next_occurrence == 1 && row.claimed == 0 && row.missed == 0
            &&& row.last_child_id is None && row.state == RepeatState::Active
            &&& r->Ok_0.child is None
        },
        r is Err ==> r->Err_0 is InvalidSchedule,
{
    assert((command.every_seconds * 1000) * (command.occurrences - 1) == 1000 * (
    command.every_seconds * (command.occurrences - 1))) by (nonlinear_arith);
}

/// Nothing in a well-formed request is refused: where the message is the user's
/// own and the timetable is within its limits and the calendar, the schedule
/// starts.
pub proof fn well_formed_repeats_start(
    event: EventRecord,
    command: RepeatScheduleCommand,
    max_text_bytes: usize,
    future: usize,
    old: Option<RepeatEntry>,
    r: Result<RepeatChange, EventStoreError>,
)
    requires
        repeat_outcome(event, Some(command), max_text_bytes, future, old, r),
        event.kind@ == "schedule.repeat.requested"@,
        event.actor == EventActor::User,
        integer_member(event.payload, "version"@) == Some(1i64),
        event.session_id is Some && event.session_id->0@ == command.session_id@,
        event.task_id is Some && event.task_id->0@ == "repeat_"@ + command.request_id@,
        event.causation_id is None,
        event.correlation_id is None,
        event.span_id is None,
        command.text@.len() > 0,
        !white_space(command.text@[0]),
        !white_space(command.text@[command.text@.len() - 1]),
        encode_utf8(command.text@).len() <= max_text_bytes,
        canonical(command.request_id@),
        60 <= command.every_seconds <= 31 * 24 * 3600,
        2 <= command.occurrences <= 1000,
        command.due_at.nanos < 1_000_000_000 && command.due_at.nanos % 1_000_000 == 0,
        command.expires_at.nanos < 1_000_000_000 && command.expires_at.nanos % 1_000_000 == 0,
        ({
            let length = (command.expires_at.secs - command.due_at.secs) * 1_000_000_000 + (
            command.expires_at.nanos - command.due_at.nanos);
            0 < length <= 24 * 3600 * 1_000_000_000 && length <= command.every_seconds
                * 1_000_000_000
        }),
        command.every_seconds * (command.occurrences - 1) <= 365 * 24 * 3600,
        -62_167_219_200 <= command.due_at.secs <= 253_402_300_799,
        future < 100,
    ensures
        r is Ok,
{
    let (n, e) = (command.occurrences - 1, command.every_seconds as int);
    assert((e * 1000) * n == 1000 * (e * n)) by (nonlinear_arith);
    assert(n * (e * 1000) == 1000 * (e * n)) by (nonlinear_arith);
    assert(0 <= e * n) by (nonlinear_arith)
        requires
            0 <= e,
            0 <= n,
    ;
    let t = RepeatTiming::asked(command);
    assert(t.offset(t.occurrences) == n * (e * 1000));
}

/// The kinds of schedule events are the request and those that lead from one
/// state to another; nothing else is one.
pub proof fn schedule_kinds_request_or_move(kind: Seq<char>, state: ScheduleState)
    ensures
        schedule_kind("schedule.requested"@),
        schedule_transition(state, kind) is Some ==> schedule_kind(kind),
        schedule_kind(kind) && kind != "schedule.requested"@ ==> schedule_transition(
            ScheduleState::Pending,
            kind,
        ) is Some || schedule_transition(ScheduleState::Claimed, kind) is Some,
        schedule_kind(kind) ==> starts_with(kind, "schedule."@),
        schedule_transition(state, "schedule.requested"@) is None,
{
    reveal_strlit("schedule.requested");
    reveal_strlit("schedule.claimed");
    reveal_strlit("schedule.cancel_requested");
    reveal_strlit("schedule.cancelled");
    reveal_strlit("schedule.missed");
    reveal_strlit("schedule.");
    assert("schedule.requested"@.take(9) =~= "schedule."@);
    assert("schedule.claimed"@.take(9) =~= "schedule."@);
    assert("schedule.cancel_requested"@.take(9) =~= "schedule."@);
    assert("schedule.cancelled"@.take(9) =~= "schedule."@);
    assert("schedule.missed"@.take(9) =~= "schedule."@);
    assert("schedule.requested"@.len() == 18 && "schedule.claimed"@.len() == 16
        && "schedule.cancel_requested"@.len() == 25 && "schedule.cancelled"@.len() == 18
        && "schedule.missed"@.len() == 15);
    assert("schedule.requested"@[9] != "schedule.cancelled"@[9]);
}

} // verus!
