//! One-shot schedules: from events to the index of what is pending.

use vstd::prelude::*;

use crate::events::json::text_member;
use crate::events::record::{
    canonical, canonical_id, has_version_one, text_is, version_one, EventActor, EventRecord,
    EventStoreError,
};
use crate::text::{chars_of, optional_text, same_text, stands_at, starts_with};
use crate::time::Timestamp;

verus! {

/// The greatest number of schedules that may be pending at once.
pub const MAX_PENDING_SCHEDULES: usize = 100;

#[derive(Debug, Clone, Copy, PartialEq, Eq, Structural)]
pub enum ScheduleState {
    Pending,
    Claimed,
    CancelRequested,
    Cancelled,
    Missed,
}

impl ScheduleState {
    /// The kind of the event that leads to the state.
    pub open spec fn kind_text(self) -> Seq<char> {
        match self {
            ScheduleState::Pending => "schedule.requested"@,
            ScheduleState::Claimed => "schedule.claimed"@,
            ScheduleState::CancelRequested => "schedule.cancel_requested"@,
            ScheduleState::Cancelled => "schedule.cancelled"@,
            ScheduleState::Missed => "schedule.missed"@,
        }
    }

    /// The stored name of the state.
    pub open spec fn name(self) -> Seq<char> {
        match self {
            ScheduleState::Pending => "pending"@,
            ScheduleState::Claimed => "claimed"@,
            ScheduleState::CancelRequested => "cancel_requested"@,
            ScheduleState::Cancelled => "cancelled"@,
            ScheduleState::Missed => "missed"@,
        }
    }

    /// The kind of the event that leads to the state.
    pub fn event_kind(self) -> (s: &'static str)
        ensures
            s@ == self.kind_text(),
    {
        match self {
            ScheduleState::Pending => "schedule.requested",
            ScheduleState::Claimed => "schedule.claimed",
            ScheduleState::CancelRequested => "schedule.cancel_requested",
            ScheduleState::Cancelled => "schedule.cancelled",
            ScheduleState::Missed => "schedule.missed",
        }
    }

    /// The stored name of the state.
    pub fn as_str(self) -> (s: &'static str)
        ensures
            s@ == self.name(),
    {
        match self {
            ScheduleState::Pending => "pending",
            ScheduleState::Claimed => "claimed",
            ScheduleState::CancelRequested => "cancel_requested",
            ScheduleState::Cancelled => "cancelled",
            ScheduleState::Missed => "missed",
        }
    }

    /// The state of a stored name, if it is one.
    pub fn from_name(name: &str) -> (r: Option<ScheduleState>)
        ensures
            match r {
                Some(s) => s.name() == name@,
                None => forall|s: ScheduleState| s.name() != name@,
            },
    {
        if same_text(name, "pending") {
            return Some(ScheduleState::Pending);
        }
        if same_text(name, "claimed") {
            return Some(ScheduleState::Claimed);
        }
        if same_text(name, "cancel_requested") {
            return Some(ScheduleState::CancelRequested);
        }
        if same_text(name, "cancelled") {
            return Some(ScheduleState::Cancelled);
        }
        if same_text(name, "missed") {
            return Some(ScheduleState::Missed);
        }
        None
    }
}

/// A row of the schedule index.
#[derive(Debug)]
pub struct ScheduleEntry {
    pub session_id: String,
    pub request_id: String,
    pub source_event_id: String,
    pub last_event_id: String,
    pub run_request_id: String,
    pub due_at_ms: i64,
    pub expires_at_ms: i64,
    pub state: ScheduleState,
}

/// The model of a row of the schedule index.
pub struct ScheduleModel {
    pub session_id: Seq<char>,
    pub request_id: Seq<char>,
    pub source_event_id: Seq<char>,
    pub last_event_id: Seq<char>,
    pub run_request_id: Seq<char>,
    pub due_at_ms: i64,
    pub expires_at_ms: i64,
    pub state: ScheduleState,
}

impl View for ScheduleEntry {
    type V = ScheduleModel;

    open spec fn view(&self) -> ScheduleModel {
        ScheduleModel {
            session_id: self.session_id@,
            request_id: self.request_id@,
            source_event_id: self.source_event_id@,
            last_event_id: self.last_event_id@,
            run_request_id: self.run_request_id@,
            due_at_ms: self.due_at_ms,
            expires_at_ms: self.expires_at_ms,
            state: self.state,
        }
    }
}

impl Clone for ScheduleEntry {
    fn clone(&self) -> (r: ScheduleEntry)
        ensures
            r@ == self@,
    {
        ScheduleEntry {
            session_id: self.session_id.clone(),
            request_id: self.request_id.clone(),
            source_event_id: self.source_event_id.clone(),
            last_event_id: self.last_event_id.clone(),
            run_request_id: self.run_request_id.clone(),
            due_at_ms: self.due_at_ms,
            expires_at_ms: self.expires_at_ms,
            state: self.state,
        }
    }
}

/// A request to run once.
#[derive(Debug, Clone)]
pub struct ScheduleRunCommand {
    pub request_id: String,
    pub session_id: String,
    pub text: String,
    pub due_at: Timestamp,
    pub expires_at: Timestamp,
}

/// Whether the text names a kind of schedule event.
pub open spec fn schedule_kind(kind: Seq<char>) -> bool {
    ||| kind == "schedule.requested"@
    ||| kind == "schedule.claimed"@
    ||| kind == "schedule.cancel_requested"@
    ||| kind == "schedule.cancelled"@
    ||| kind == "schedule.missed"@
}

pub fn is_schedule_kind(kind: &str) -> (r: bool)
    ensures
        r == schedule_kind(kind@),
{
    same_text(kind, "schedule.requested") || same_text(kind, "schedule.claimed") || same_text(
        kind,
        "schedule.cancel_requested",
    ) || same_text(kind, "schedule.cancelled") || same_text(kind, "schedule.missed")
}

/// What follows the prefix of an optional text, if it has the prefix.
pub open spec fn after_prefix(value: Option<Seq<char>>, prefix: Seq<char>) -> Option<Seq<char>> {
    match value {
        Some(s) => if starts_with(s, prefix) {
            Some(s.skip(prefix.len() as int))
        } else {
            None
        },
        None => None,
    }
}

/// What follows the prefix of an optional text, if it has the prefix.
pub fn strip(value: &Option<String>, prefix: &str) -> (r: Option<String>)
    ensures
        optional_text(r) == after_prefix(optional_text(*value), prefix@),
{
    match value {
        None => None,
        Some(s) => {
            let chars = chars_of(s);
            let head = chars_of(prefix);
            if !stands_at(&chars, 0, &head) {
                return None;
            }
            let mut rest: String = String::new();
            let mut i: usize = head.len();
            while i < chars.len()
                invariant
                    chars@ == s@,
                    head@ == prefix@,
                    prefix@.len() <= i <= chars@.len(),
                    rest@ =~= s@.subrange(prefix@.len() as int, i as int),
                decreases chars.len() - i,
            {
                crate::text::push_char(&mut rest, chars[i]);
                i += 1;
            }
            assert(rest@ =~= s@.skip(prefix@.len() as int));
            Some(rest)
        },
    }
}

/// The request that a schedule event is about.
pub open spec fn schedule_request(event: EventRecord) -> Option<Seq<char>> {
    after_prefix(optional_text(event.task_id), "schedule_"@)
}

/// The event is addressed to a schedule: it has a session and a request, no
/// correlation and no span, and its payload is of version one.
pub open spec fn schedule_addressed(event: EventRecord) -> bool {
    &&& event.session_id is Some
    &&& schedule_request(event) is Some
    &&& event.correlation_id is None
    &&& event.span_id is None
    &&& version_one(event.payload)
}

/// The session and the request that an addressed schedule event is about.
pub fn schedule_key(event: &EventRecord) -> (r: Result<(String, String), EventStoreError>)
    ensures
        schedule_addressed(*event) ==> r is Ok && Some(r->Ok_0.0@) == optional_text(
            event.session_id,
        ) && Some(r->Ok_0.1@) == schedule_request(*event),
        !schedule_addressed(*event) ==> r is Err && r->Err_0 is InvalidSchedule,
{
    let session = match &event.session_id {
        Some(s) => s.clone(),
        None => {
            return Err(EventStoreError::InvalidSchedule);
        },
    };
    let request = match strip(&event.task_id, "schedule_") {
        Some(s) => s,
        None => {
            return Err(EventStoreError::InvalidSchedule);
        },
    };
    if event.correlation_id.is_some() || event.span_id.is_some() || !has_version_one(
        &event.payload,
    ) {
        return Err(EventStoreError::InvalidSchedule);
    }
    Ok((session, request))
}

/// The request is the user's, names itself consistently, has a window of whole
/// milliseconds that is not empty, and reserves a canonical run.
pub open spec fn schedule_request_valid(event: EventRecord, command: ScheduleRunCommand) -> bool {
    &&& text_member(event.payload, "run_request_id"@) matches Some(run) && canonical(run)
    &&& event.actor == EventActor::User
    &&& event.causation_id is None
    &&& Some(command.request_id@) == schedule_request(event)
    &&& Some(command.session_id@) == optional_text(event.session_id)
    &&& command.due_at.earlier(command.expires_at)
    &&& command.due_at.whole_millis()
    &&& command.expires_at.whole_millis()
}

/// The state that an event of the given kind leads to from `state`, and the
/// actor that may cause it.
pub open spec fn schedule_transition(state: ScheduleState, kind: Seq<char>) -> Option<
    (ScheduleState, EventActor),
> {
    if kind == "schedule.claimed"@ && state == ScheduleState::Pending {
        Some((ScheduleState::Claimed, EventActor::Scheduler))
    } else if kind == "schedule.missed"@ && state == ScheduleState::Pending {
        Some((ScheduleState::Missed, EventActor::Scheduler))
    } else if kind == "schedule.cancelled"@ && state == ScheduleState::Pending {
        Some((ScheduleState::Cancelled, EventActor::User))
    } else if kind == "schedule.cancel_requested"@ && state == ScheduleState::Claimed {
        Some((ScheduleState::CancelRequested, EventActor::User))
    } else {
        None
    }
}

/// The state that an event of the given kind leads to from `state`, and the
/// actor that may cause it.
pub fn next_state(state: ScheduleState, kind: &str) -> (r: Option<(ScheduleState, EventActor)>)
    ensures
        r == schedule_transition(state, kind@),
{
    if same_text(kind, "schedule.claimed") && state == ScheduleState::Pending {
        Some((ScheduleState::Claimed, EventActor::Scheduler))
    } else if same_text(kind, "schedule.missed") && state == ScheduleState::Pending {
        Some((ScheduleState::Missed, EventActor::Scheduler))
    } else if same_text(kind, "schedule.cancelled") && state == ScheduleState::Pending {
        Some((ScheduleState::Cancelled, EventActor::User))
    } else if same_text(kind, "schedule.cancel_requested") && state == ScheduleState::Claimed {
        Some((ScheduleState::CancelRequested, EventActor::User))
    } else {
        None
    }
}

/// The row that a requested schedule starts with.
pub open spec fn requested_row(event: EventRecord, command: ScheduleRunCommand) -> ScheduleModel {
    ScheduleModel {
        session_id: event.session_id->0@,
        request_id: schedule_request(event)->0,
        source_event_id: event.event_id@,
        last_event_id: event.event_id@,
        run_request_id: text_member(event.payload, "run_request_id"@)->0,
        due_at_ms: command.due_at.millis_spec() as i64,
        expires_at_ms: command.expires_at.millis_spec() as i64,
        state: ScheduleState::Pending,
    }
}

/// The row after an event that leads to `state`.
pub open spec fn moved_row(old: ScheduleModel, event: EventRecord, state: ScheduleState) ->
    ScheduleModel {
    ScheduleModel { last_event_id: event.event_id@, state, ..old }
}

/// The result of projecting a schedule event. `command` is the payload's
/// command where it could be read, `pending` the number of pending schedules,
/// and `old` the row of the event's session and request, where there is one.
pub open spec fn schedule_outcome(
    event: EventRecord,
    command: Option<ScheduleRunCommand>,
    pending: usize,
    old: Option<ScheduleEntry>,
    r: Result<ScheduleEntry, EventStoreError>,
) -> bool {
    if !schedule_addressed(event) {
        r is Err && r->Err_0 is InvalidSchedule
    } else if event.kind@ == "schedule.requested"@ {
        match command {
            None => r is Err && r->Err_0 is Payload,
            Some(c) => if !schedule_request_valid(event, c) || pending >= MAX_PENDING_SCHEDULES {
                r is Err && r->Err_0 is InvalidSchedule
            } else {
                r is Ok && r->Ok_0@ == requested_row(event, c)
            },
        }
    } else {
        match old {
            None => r is Err && r->Err_0 is InvalidSchedule,
            Some(row) => match schedule_transition(row.state, event.kind@) {
                Some((state, actor)) => if event.actor != actor || optional_text(
                    event.causation_id,
                ) != Some(row.last_event_id@) {
                    r is Err && r->Err_0 is InvalidSchedule
                } else {
                    r is Ok && r->Ok_0@ == moved_row(row@, event, state)
                },
                None => r is Err && r->Err_0 is InvalidSchedule,
            },
        }
    }
}

/// Projects a schedule event onto the row it leaves behind.
pub fn project_schedule(
    event: &EventRecord,
    command: &Option<ScheduleRunCommand>,
    pending: usize,
    old: &Option<ScheduleEntry>,
) -> (r: Result<ScheduleEntry, EventStoreError>)
    requires
        command matches Some(c) ==> c.due_at.representable() && c.expires_at.representable(),
    ensures
        schedule_outcome(*event, *command, pending, *old, r),
{
    let (session, request) = match schedule_key(event) {
        Ok(key) => key,
        Err(e) => {
            return Err(e);
        },
    };
    if same_text(&event.kind, "schedule.requested") {
        let command = match command {
            Some(c) => c,
            None => {
                return Err(EventStoreError::Payload);
            },
        };
        let run = match event.payload.get_text("run_request_id") {
            Some(s) => s,
            None => {
                return Err(EventStoreError::InvalidSchedule);
            },
        };
        if event.actor != EventActor::User || event.causation_id.is_some() || !same_text(
            &command.request_id,
            &request,
        ) || !same_text(&command.session_id, &session) || !command.due_at.is_before(
            &command.expires_at,
        ) || !command.due_at.has_whole_millis() || !command.expires_at.has_whole_millis()
            || !canonical_id(run) {
            return Err(EventStoreError::InvalidSchedule);
        }
        if pending >= MAX_PENDING_SCHEDULES {
            return Err(EventStoreError::InvalidSchedule);
        }
        return Ok(
            ScheduleEntry {
                session_id: session,
                request_id: request,
                source_event_id: event.event_id.clone(),
                last_event_id: event.event_id.clone(),
                run_request_id: run.clone(),
                due_at_ms: command.due_at.millis(),
                expires_at_ms: command.expires_at.millis(),
                state: ScheduleState::Pending,
            },
        );
    }
    let old = match old {
        Some(row) => row,
        None => {
            return Err(EventStoreError::InvalidSchedule);
        },
    };
    match next_state(old.state, &event.kind) {
        None => Err(EventStoreError::InvalidSchedule),
        Some((state, actor)) => {
            if event.actor != actor || !text_is(&event.causation_id, &old.last_event_id) {
                return Err(EventStoreError::InvalidSchedule);
            }
            let mut row = old.clone();
            row.last_event_id = event.event_id.clone();
            row.state = state;
            Ok(row)
        },
    }
}

/// Refuses a list of pending schedules that is longer than may be pending.
pub fn check_pending(entries: Vec<ScheduleEntry>) -> (r: Result<
    Vec<ScheduleEntry>,
    EventStoreError,
>)
    ensures
        entries@.len() <= MAX_PENDING_SCHEDULES ==> r == Ok::<Vec<ScheduleEntry>, EventStoreError>(
            entries,
        ),
        entries@.len() > MAX_PENDING_SCHEDULES ==> r is Err && r->Err_0 is InvalidSchedule,
{
    if entries.len() > MAX_PENDING_SCHEDULES {
        return Err(EventStoreError::InvalidSchedule);
    }
    Ok(entries)
}

/// A cancelled, missed or cancel-requested schedule never changes again.
pub proof fn settled_schedules_stay(
    event: EventRecord,
    command: Option<ScheduleRunCommand>,
    pending: usize,
    old: ScheduleEntry,
    r: Result<ScheduleEntry, EventStoreError>,
)
    requires
        schedule_outcome(event, command, pending, Some(old), r),
        old.state == ScheduleState::Cancelled || old.state == ScheduleState::Missed || old.state
            == ScheduleState::CancelRequested,
        event.kind@ != "schedule.requested"@,
    ensures
        r is Err,
{
}

/// A transition changes the state and the last event of a row and nothing else,
/// and the new state is the one that the event's kind stands for.
pub proof fn transitions_keep_the_reservation(
    event: EventRecord,
    command: Option<ScheduleRunCommand>,
    pending: usize,
    old: ScheduleEntry,
    r: Result<ScheduleEntry, EventStoreError>,
)
    requires
        schedule_outcome(event, command, pending, Some(old), r),
        event.kind@ != "schedule.requested"@,
        r is Ok,
    ensures
        r->Ok_0@.session_id == old@.session_id,
        r->Ok_0@.request_id == old@.request_id,
        r->Ok_0@.source_event_id == old@.source_event_id,
        r->Ok_0@.run_request_id == old@.run_request_id,
        r->Ok_0@.due_at_ms == old@.due_at_ms,
        r->Ok_0@.expires_at_ms == old@.expires_at_ms,
        r->Ok_0@.last_event_id == event.event_id@,
        r->Ok_0@.state.kind_text() == event.kind@,
        optional_text(event.causation_id) == Some(old@.last_event_id),
{
}

/// A row that a request starts has a window that is not empty.
pub proof fn requested_windows_are_not_empty(
    event: EventRecord,
    command: ScheduleRunCommand,
    pending: usize,
    old: Option<ScheduleEntry>,
    r: Result<ScheduleEntry, EventStoreError>,
)
    requires
        schedule_outcome(event, Some(command), pending, old, r),
        event.kind@ == "schedule.requested"@,
        command.due_at.representable(),
        command.expires_at.representable(),
        command.due_at.nanos < 1_000_000_000,
        command.expires_at.nanos < 1_000_000_000,
        r is Ok,
    ensures
        r->Ok_0@.due_at_ms < r->Ok_0@.expires_at_ms,
{
}

} // verus!
