//! Repeating schedules: timing, progress and projection from events.

use vstd::prelude::*;

use crate::events::json::{
    integer_member, member, number_member, text_member, Json, JsonField,
};
use crate::events::record::{
    canonical, canonical_id, has_version_one, text_is, version_one, EventActor, EventRecord,
    EventStoreError,
};
use crate::events::schedule::{
    after_prefix, strip, ScheduleEntry, ScheduleModel, ScheduleState, MAX_PENDING_SCHEDULES,
};
use crate::text::{
    byte_len, chars_of, copy_optional_text, is_white_space, joined, optional_text, same_text,
    utf8_len, white_space,
};
use crate::time::{from_millis, millis_instant, Timestamp};

verus! {

/// The longest timetable, in milliseconds: 365 days.
pub const MAX_REPEAT_SPAN_MS: i64 = 31_536_000_000;

/// The kind of the event that requests a repeating schedule.
pub const REPEAT_REQUESTED: &'static str = "schedule.repeat.requested";

/// The kind of the event that skips missed occurrences.
pub const REPEAT_SKIPPED: &'static str = "schedule.repeat.skipped";

/// The kind of the event that cancels a repeating schedule.
pub const REPEAT_CANCELLED: &'static str = "schedule.repeat.cancelled";

/// The kind of the event that claims an occurrence.
pub const OCCURRENCE_CLAIMED: &'static str = "schedule.occurrence.claimed";

/// A request to run repeatedly.
#[derive(Debug, Clone)]
pub struct RepeatScheduleCommand {
    pub request_id: String,
    pub session_id: String,
    pub text: String,
    pub due_at: Timestamp,
    pub expires_at: Timestamp,
    pub every_seconds: u32,
    pub occurrences: u32,
}

/// A fixed timetable: the first window, the interval and how often it recurs.
#[derive(Debug, Clone, Copy, PartialEq, Eq, Structural)]
pub struct RepeatTiming {
    pub first_due_ms: i64,
    pub first_expiry_ms: i64,
    pub interval_ms: i64,
    pub occurrences: u32,
}

impl RepeatTiming {
    /// How far an occurrence lies behind the first.
    pub open spec fn offset(self, occurrence: u32) -> int {
        (occurrence - 1) * self.interval_ms
    }

    /// The window of an occurrence, where the timetable and the calendar have
    /// one.
    pub open spec fn window_of(self, occurrence: u32) -> Option<(i64, i64)> {
        let offset = self.offset(occurrence);
        let due = self.first_due_ms + offset;
        let expiry = self.first_expiry_ms + offset;
        if occurrence == 0 || occurrence > self.occurrences || self.interval_ms <= 0 || offset
            > i64::MAX || due > i64::MAX || expiry > i64::MAX || millis_instant(due as i64) is None
            || millis_instant(expiry as i64) is None {
            None
        } else {
            Some((due as i64, expiry as i64))
        }
    }

    /// The number of the last occurrence whose window has closed, or zero.
    pub open spec fn expired(self, now_ms: i64) -> Option<u32> {
        if self.interval_ms <= 0 || !(2 <= self.occurrences <= 1000) {
            None
        } else if now_ms < self.first_expiry_ms {
            Some(0)
        } else {
            let closed = (now_ms - self.first_expiry_ms) / (self.interval_ms as int) + 1;
            if closed < self.occurrences {
                Some(closed as u32)
            } else {
                Some(self.occurrences)
            }
        }
    }

    /// The timing that a command asks for, before it is checked.
    pub open spec fn asked(command: RepeatScheduleCommand) -> RepeatTiming {
        RepeatTiming {
            first_due_ms: command.due_at.millis_spec() as i64,
            first_expiry_ms: command.expires_at.millis_spec() as i64,
            interval_ms: (command.every_seconds * 1000) as i64,
            occurrences: command.occurrences,
        }
    }

    /// The interval and the number of occurrences are in range.
    pub open spec fn rate_allowed(command: RepeatScheduleCommand) -> bool {
        60 <= command.every_seconds <= 2_678_400 && 2 <= command.occurrences <= 1000
    }

    /// The window has whole milliseconds, is not empty, and is no longer than a
    /// day or the interval.
    pub open spec fn window_allowed(command: RepeatScheduleCommand) -> bool {
        let length = command.due_at.nanos_until(command.expires_at);
        &&& command.due_at.whole_millis()
        &&& command.expires_at.whole_millis()
        &&& 0 < length <= 86_400_000_000_000
        &&& length <= command.every_seconds * 1_000_000_000
    }

    /// The timetable fits within a year and the calendar.
    pub open spec fn span_allowed(command: RepeatScheduleCommand) -> bool {
        let timing = RepeatTiming::asked(command);
        &&& timing.interval_ms * (timing.occurrences - 1) <= MAX_REPEAT_SPAN_MS
        &&& timing.window_of(timing.occurrences) is Some
    }

    /// The command asks for an allowed timetable.
    pub open spec fn allowed(command: RepeatScheduleCommand) -> bool {
        &&& RepeatTiming::rate_allowed(command)
        &&& RepeatTiming::window_allowed(command)
        &&& RepeatTiming::span_allowed(command)
    }

    /// The timetable of a command, or why it is refused.
    pub fn new(command: &RepeatScheduleCommand) -> (r: Result<RepeatTiming, &'static str>)
        requires
            command.due_at.representable(),
            command.expires_at.representable(),
        ensures
            RepeatTiming::allowed(*command) ==> r == Ok::<RepeatTiming, &'static str>(
                RepeatTiming::asked(*command),
            ),
            !RepeatTiming::rate_allowed(*command) ==> r is Err && r->Err_0@
                == "repeat requires a 60-second to 31-day interval and 2 to 1000 occurrences"@,
            RepeatTiming::rate_allowed(*command) && !RepeatTiming::window_allowed(*command)
                ==> r is Err && r->Err_0@
                == "repeat times need millisecond precision and a positive window no longer than its interval or 24 hours"@,
            RepeatTiming::rate_allowed(*command) && RepeatTiming::window_allowed(*command)
                && !RepeatTiming::span_allowed(*command) ==> r is Err && r->Err_0@
                == "repeat timetable must fit within 365 days"@,
    {
        if command.every_seconds < 60 || command.every_seconds > 2_678_400 || command.occurrences
            < 2 || command.occurrences > 1000 {
            return Err(
                "repeat requires a 60-second to 31-day interval and 2 to 1000 occurrences",
            );
        }
        let length: i128 = command.due_at.nanoseconds_until(&command.expires_at);
        if !command.due_at.has_whole_millis() || !command.expires_at.has_whole_millis() || length
            <= 0 || length > 86_400_000_000_000 || length > command.every_seconds as i128
            * 1_000_000_000 {
            return Err(
                "repeat times need millisecond precision and a positive window no longer than its interval or 24 hours",
            );
        }
        let timing = RepeatTiming {
            first_due_ms: command.due_at.millis(),
            first_expiry_ms: command.expires_at.millis(),
            interval_ms: command.every_seconds as i64 * 1000,
            occurrences: command.occurrences,
        };
        assert(timing.interval_ms * (timing.occurrences - 1) <= 2_678_400_000 * 999)
            by (nonlinear_arith)
            requires
                0 <= timing.interval_ms <= 2_678_400_000,
                0 <= timing.occurrences - 1 <= 999,
        ;
        assert(timing.interval_ms * (timing.occurrences - 1) >= 0) by (nonlinear_arith)
            requires
                0 <= timing.interval_ms,
                0 <= timing.occurrences - 1,
        ;
        if timing.interval_ms * (timing.occurrences - 1) as i64 > MAX_REPEAT_SPAN_MS
            || timing.window(timing.occurrences).is_err() {
            return Err("repeat timetable must fit within 365 days");
        }
        Ok(timing)
    }

    /// The window of an occurrence.
    pub fn window(&self, occurrence: u32) -> (r: Result<(i64, i64), EventStoreError>)
        ensures
            match self.window_of(occurrence) {
                Some(w) => r == Ok::<(i64, i64), EventStoreError>(w),
                None => r is Err && r->Err_0 is InvalidSchedule,
            },
    {
        if occurrence == 0 || occurrence > self.occurrences || self.interval_ms <= 0 {
            return Err(EventStoreError::InvalidSchedule);
        }
        assert(self.offset(occurrence) >= 0) by (nonlinear_arith)
            requires
                occurrence >= 1,
                self.interval_ms > 0,
                self.offset(occurrence) == (occurrence - 1) * self.interval_ms,
        ;
        let offset: i64 = match ((occurrence - 1) as i64).checked_mul(self.interval_ms) {
            Some(n) => n,
            None => {
                return Err(EventStoreError::InvalidSchedule);
            },
        };
        let due: i64 = match self.first_due_ms.checked_add(offset) {
            Some(n) => n,
            None => {
                return Err(EventStoreError::InvalidSchedule);
            },
        };
        let expiry: i64 = match self.first_expiry_ms.checked_add(offset) {
            Some(n) => n,
            None => {
                return Err(EventStoreError::InvalidSchedule);
            },
        };
        if from_millis(due).is_none() || from_millis(expiry).is_none() {
            return Err(EventStoreError::InvalidSchedule);
        }
        Ok((due, expiry))
    }

    /// The number of occurrences whose window has closed, from the fixed anchor
    /// alone.
    pub fn expired_through(&self, now_ms: i64) -> (r: Result<u32, EventStoreError>)
        ensures
            match self.expired(now_ms) {
                Some(n) => r == Ok::<u32, EventStoreError>(n),
                None => r is Err && r->Err_0 is InvalidSchedule,
            },
    {
        if self.interval_ms <= 0 || self.occurrences < 2 || self.occurrences > 1000 {
            return Err(EventStoreError::InvalidSchedule);
        }
        if now_ms < self.first_expiry_ms {
            return Ok(0);
        }
        let late: u128 = (now_ms as i128 - self.first_expiry_ms as i128) as u128;
        let closed: u128 = late / self.interval_ms as u128 + 1;
        if closed < self.occurrences as u128 {
            Ok(closed as u32)
        } else {
            Ok(self.occurrences)
        }
    }
}

/// An occurrence counts as expired exactly when its window has closed: the
/// closing time itself is outside the window.
pub proof fn expired_counts_closed_windows(timing: RepeatTiming, now_ms: i64, occurrence: u32)
    requires
        timing.expired(now_ms) is Some,
        1 <= occurrence <= timing.occurrences,
    ensures
        occurrence <= timing.expired(now_ms)->0 <==> timing.first_expiry_ms + timing.offset(
            occurrence,
        ) <= now_ms,
        timing.expired(now_ms)->0 <= timing.occurrences,
{
    let step = timing.interval_ms as int;
    let late = now_ms - timing.first_expiry_ms;
    let k = occurrence - 1;
    if late < 0 {
        assert(k * step >= 0) by (nonlinear_arith)
            requires
                k >= 0,
                step > 0,
        ;
    } else {
        let closed = late / step;
        assert(closed * step <= late < closed * step + step) by (nonlinear_arith)
            requires
                closed == late / step,
                step > 0,
        ;
        if k <= closed {
            assert(k * step <= closed * step) by (nonlinear_arith)
                requires
                    k <= closed,
                    step > 0,
            ;
        } else {
            assert(k * step >= closed * step + step) by (nonlinear_arith)
                requires
                    k >= closed + 1,
                    step > 0,
            ;
        }
    }
}

/// Expiry never goes back as time goes on.
pub proof fn expiry_is_monotone(timing: RepeatTiming, earlier_ms: i64, later_ms: i64)
    requires
        timing.expired(earlier_ms) is Some,
        earlier_ms <= later_ms,
    ensures
        timing.expired(later_ms) is Some,
        timing.expired(earlier_ms)->0 <= timing.expired(later_ms)->0,
{
    let n = timing.expired(earlier_ms)->0;
    if n > 0 {
        expired_counts_closed_windows(timing, earlier_ms, n);
        expired_counts_closed_windows(timing, later_ms, n);
    }
}

/// An allowed timetable has a window for every occurrence, each open before it
/// closes and closed no later than the next one opens. The two ends of the first
/// window are in UTC, with no leap second counted between them.
pub proof fn allowed_windows_exist(command: RepeatScheduleCommand, occurrence: u32)
    requires
        RepeatTiming::allowed(command),
        command.due_at.representable(),
        command.expires_at.representable(),
        command.due_at.nanos_until(command.expires_at) == (command.expires_at.millis_spec()
            - command.due_at.millis_spec()) * 1_000_000,
        1 <= occurrence <= command.occurrences,
    ensures
        RepeatTiming::asked(command).window_of(occurrence) is Some,
        ({
            let (due, expiry) = RepeatTiming::asked(command).window_of(occurrence)->0;
            &&& due < expiry <= due + RepeatTiming::asked(command).interval_ms
        }),
{
    let t = RepeatTiming::asked(command);
    let last = t.occurrences;
    let k = occurrence - 1;
    let step = t.interval_ms as int;
    assert(0 <= k * step <= (last - 1) * step) by (nonlinear_arith)
        requires
            0 <= k <= last - 1,
            step > 0,
    ;
    assert(t.offset(last) == (last - 1) * step);
    assert(t.offset(occurrence) == k * step);
    assert(t.window_of(last) is Some);
}

#[derive(Debug, Clone, Copy, PartialEq, Eq, Structural)]
pub enum RepeatState {
    Active,
    Exhausted,
    Cancelled,
}

impl RepeatState {
    /// The stored name of the state.
    pub open spec fn name(self) -> Seq<char> {
        match self {
            RepeatState::Active => "active"@,
            RepeatState::Exhausted => "exhausted"@,
            RepeatState::Cancelled => "cancelled"@,
        }
    }

    pub fn as_str(self) -> (s: &'static str)
        ensures
            s@ == self.name(),
    {
        match self {
            RepeatState::Active => "active",
            RepeatState::Exhausted => "exhausted",
            RepeatState::Cancelled => "cancelled",
        }
    }

    /// The state of a stored name, if it is one.
    pub fn from_name(name: &str) -> (r: Option<RepeatState>)
        ensures
            match r {
                Some(s) => s.name() == name@,
                None => forall|s: RepeatState| s.name() != name@,
            },
    {
        if same_text(name, "active") {
            return Some(RepeatState::Active);
        }
        if same_text(name, "exhausted") {
            return Some(RepeatState::Exhausted);
        }
        if same_text(name, "cancelled") {
            return Some(RepeatState::Cancelled);
        }
        None
    }
}

/// A row of the index of repeating schedules.
#[derive(Debug)]
pub struct RepeatEntry {
    pub session_id: String,
    pub request_id: String,
    pub source_event_id: String,
    pub last_event_id: String,
    pub timing: RepeatTiming,
    pub next_occurrence: u32,
    pub claimed: u32,
    pub missed: u32,
    pub last_child_id: Option<String>,
    pub state: RepeatState,
}

/// The model of a row of the index of repeating schedules.
pub struct RepeatModel {
    pub session_id: Seq<char>,
    pub request_id: Seq<char>,
    pub source_event_id: Seq<char>,
    pub last_event_id: Seq<char>,
    pub timing: RepeatTiming,
    pub next_occurrence: u32,
    pub claimed: u32,
    pub missed: u32,
    pub last_child_id: Option<Seq<char>>,
    pub state: RepeatState,
}

impl View for RepeatEntry {
    type V = RepeatModel;

    open spec fn view(&self) -> RepeatModel {
        RepeatModel {
            session_id: self.session_id@,
            request_id: self.request_id@,
            source_event_id: self.source_event_id@,
            last_event_id: self.last_event_id@,
            timing: self.timing,
            next_occurrence: self.next_occurrence,
            claimed: self.claimed,
            missed: self.missed,
            last_child_id: optional_text(self.last_child_id),
            state: self.state,
        }
    }
}

impl Clone for RepeatEntry {
    fn clone(&self) -> (r: RepeatEntry)
        ensures
            r@ == self@,
    {
        RepeatEntry {
            session_id: self.session_id.clone(),
            request_id: self.request_id.clone(),
            source_event_id: self.source_event_id.clone(),
            last_event_id: self.last_event_id.clone(),
            timing: self.timing,
            next_occurrence: self.next_occurrence,
            claimed: self.claimed,
            missed: self.missed,
            last_child_id: copy_optional_text(&self.last_child_id),
            state: self.state,
        }
    }
}

/// The value is an object of exactly the four members of a progress record.
pub open spec fn is_progress(
    value: Json,
    next: u32,
    claimed: u32,
    missed: u32,
    child: Option<Seq<char>>,
) -> bool {
    &&& value matches Json::Object(fields) && fields@.len() == 4
    &&& number_is(value, "next_occurrence"@, next)
    &&& number_is(value, "claimed"@, claimed)
    &&& number_is(value, "missed"@, missed)
    &&& match child {
        Some(c) => text_member(value, "last_child_id"@) == Some(c),
        None => member(value, "last_child_id"@) == Some(Json::Null),
    }
}

/// The member is that unsigned number.
pub open spec fn number_is(value: Json, name: Seq<char>, n: u32) -> bool {
    member(value, name) == Some(Json::Unsigned(n as u64))
}

/// A progress record has one reading.
pub proof fn progress_is_unambiguous(
    value: Json,
    a: (u32, u32, u32, Option<Seq<char>>),
    b: (u32, u32, u32, Option<Seq<char>>),
)
    requires
        is_progress(value, a.0, a.1, a.2, a.3),
        is_progress(value, b.0, b.1, b.2, b.3),
    ensures
        a == b,
{
}

fn has_number(value: &Json, name: &str, n: u32) -> (r: bool)
    ensures
        r == number_is(*value, name@, n),
{
    match value.get(name) {
        Some(Json::Unsigned(m)) => *m == n as u64,
        _ => false,
    }
}

/// Whether the value is the given progress record.
pub fn matches_progress(
    value: &Json,
    next: u32,
    claimed: u32,
    missed: u32,
    child: &Option<String>,
) -> (r: bool)
    ensures
        r == is_progress(*value, next, claimed, missed, optional_text(*child)),
{
    let four = match value {
        Json::Object(fields) => fields.len() == 4,
        _ => false,
    };
    if !four || !has_number(value, "next_occurrence", next) || !has_number(
        value,
        "claimed",
        claimed,
    ) || !has_number(value, "missed", missed) {
        return false;
    }
    match child {
        Some(c) => match value.get_text("last_child_id") {
            Some(s) => same_text(s, c),
            None => false,
        },
        None => match value.get("last_child_id") {
            Some(Json::Null) => true,
            _ => false,
        },
    }
}

/// A progress record.
pub fn progress(next: u32, claimed: u32, missed: u32, child: &Option<String>) -> (r: Json)
    ensures
        is_progress(r, next, claimed, missed, optional_text(*child)),
{
    let child_value = match child {
        Some(c) => Json::Text(c.clone()),
        None => Json::Null,
    };
    let mut fields: Vec<JsonField> = Vec::new();
    fields.push(JsonField { name: "claimed".to_owned(), value: Json::Unsigned(claimed as u64) });
    fields.push(JsonField { name: "last_child_id".to_owned(), value: child_value });
    fields.push(JsonField { name: "missed".to_owned(), value: Json::Unsigned(missed as u64) });
    fields.push(
        JsonField { name: "next_occurrence".to_owned(), value: Json::Unsigned(next as u64) },
    );
    proof {
        let f = fields@;
        reveal_strlit("claimed");
        reveal_strlit("last_child_id");
        reveal_strlit("missed");
        reveal_strlit("next_occurrence");
        assert("claimed"@[0] == 'c');
        assert("last_child_id"@[0] == 'l');
        assert("missed"@[0] == 'm');
        assert("next_occurrence"@[0] == 'n');
        reveal_with_fuel(crate::events::json::member_from, 5);
    }
    Json::Object(fields)
}

impl RepeatModel {
    /// The counters are consistent: every occurrence before the next one was
    /// claimed or missed, a child is known exactly when one was claimed, and
    /// only a schedule that is not exhausted is active.
    pub open spec fn consistent(self) -> bool {
        &&& 2 <= self.timing.occurrences <= 1000
        &&& self.timing.interval_ms > 0
        &&& 1 <= self.next_occurrence <= self.timing.occurrences + 1
        &&& self.claimed + self.missed == self.next_occurrence - 1
        &&& (self.claimed == 0) == (self.last_child_id is None)
        &&& self.state == RepeatState::Active ==> self.next_occurrence <= self.timing.occurrences
        &&& self.state == RepeatState::Exhausted ==> self.next_occurrence
            == self.timing.occurrences + 1
    }
}

impl RepeatEntry {
    /// The progress of the schedule.
    pub fn progress(&self) -> (r: Json)
        ensures
            is_progress(
                r,
                self.next_occurrence,
                self.claimed,
                self.missed,
                optional_text(self.last_child_id),
            ),
    {
        progress(self.next_occurrence, self.claimed, self.missed, &self.last_child_id)
    }

    /// The progress once the next occurrence is claimed for `child`.
    pub fn claim_progress(&self, child: &str) -> (r: Json)
        requires
            self.next_occurrence < u32::MAX,
            self.claimed < u32::MAX,
        ensures
            is_progress(
                r,
                (self.next_occurrence + 1) as u32,
                (self.claimed + 1) as u32,
                self.missed,
                Some(child@),
            ),
    {
        progress(
            self.next_occurrence + 1,
            self.claimed + 1,
            self.missed,
            &Some(child.to_owned()),
        )
    }

    /// The progress once the occurrences up to `through` are skipped.
    pub fn skip_progress(&self, through: u32) -> (r: Result<Json, EventStoreError>)
        requires
            self.next_occurrence <= through <= self.timing.occurrences ==> through < u32::MAX
                && self.missed + through <= u32::MAX && self.missed + through
                - self.next_occurrence < u32::MAX,
        ensures
            !(self.next_occurrence <= through <= self.timing.occurrences) ==> r is Err
                && r->Err_0 is InvalidSchedule,
            self.next_occurrence <= through <= self.timing.occurrences ==> r is Ok && is_progress(
                r->Ok_0,
                (through + 1) as u32,
                self.claimed,
                (self.missed + through - self.next_occurrence + 1) as u32,
                optional_text(self.last_child_id),
            ),
    {
        if through < self.next_occurrence || through > self.timing.occurrences {
            return Err(EventStoreError::InvalidSchedule);
        }
        Ok(
            progress(
                through + 1,
                self.claimed,
                self.missed + through - self.next_occurrence + 1,
                &self.last_child_id,
            ),
        )
    }
}

/// A text that is neither empty nor padded with white space.
pub open spec fn neat(text: Seq<char>) -> bool {
    &&& text.len() > 0
    &&& !white_space(text[0])
    &&& !white_space(text.last())
}

fn is_neat(text: &str) -> (r: bool)
    ensures
        r == neat(text@),
{
    let chars = chars_of(text);
    chars.len() > 0 && !is_white_space(chars[0]) && !is_white_space(chars[chars.len() - 1])
}

/// The event requests the command: the user's, addressed to its own request,
/// caused by nothing, with a neat, bounded text and an allowed timetable.
pub open spec fn requests(
    event: EventRecord,
    command: RepeatScheduleCommand,
    max_text_bytes: usize,
) -> bool {
    &&& event.kind@ == REPEAT_REQUESTED@
    &&& event.actor == EventActor::User
    &&& version_one(event.payload)
    &&& optional_text(event.session_id) == Some(command.session_id@)
    &&& optional_text(event.task_id) == Some("repeat_"@ + command.request_id@)
    &&& event.causation_id is None
    &&& event.correlation_id is None
    &&& event.span_id is None
    &&& neat(command.text@)
    &&& utf8_len(command.text@) <= max_text_bytes
    &&& canonical(command.request_id@)
    &&& RepeatTiming::allowed(command)
}

/// Checks that the event requests the command that its payload holds; `command`
/// is nothing where the payload could not be read.
pub fn requested_command(
    event: &EventRecord,
    command: &Option<RepeatScheduleCommand>,
    max_text_bytes: usize,
) -> (r: Result<RepeatTiming, EventStoreError>)
    requires
        command matches Some(c) ==> c.due_at.representable() && c.expires_at.representable(),
    ensures
        match command {
            None => r is Err && r->Err_0 is Payload,
            Some(c) => if requests(*event, *c, max_text_bytes) {
                r == Ok::<RepeatTiming, EventStoreError>(RepeatTiming::asked(*c))
            } else {
                r is Err && r->Err_0 is InvalidSchedule
            },
        },
{
    let command = match command {
        Some(c) => c,
        None => {
            return Err(EventStoreError::Payload);
        },
    };
    if !same_text(&event.kind, REPEAT_REQUESTED) || event.actor != EventActor::User
        || !has_version_one(&event.payload) || !text_is(&event.session_id, &command.session_id)
        || !text_is(&event.task_id, &joined("repeat_", &command.request_id))
        || event.causation_id.is_some() || event.correlation_id.is_some()
        || event.span_id.is_some() || !is_neat(&command.text) || byte_len(&command.text)
        > max_text_bytes || !canonical_id(&command.request_id) {
        return Err(EventStoreError::InvalidSchedule);
    }
    match RepeatTiming::new(command) {
        Ok(timing) => Ok(timing),
        Err(_) => Err(EventStoreError::InvalidSchedule),
    }
}

/// The event is a transition of the schedule: of the right kind and actor,
/// addressed to it, of version one, and caused by something.
pub open spec fn in_scope(event: EventRecord, entry: RepeatModel) -> bool {
    &&& event.kind@ == REPEAT_SKIPPED@ || event.kind@ == REPEAT_CANCELLED@ || event.kind@
        == OCCURRENCE_CLAIMED@
    &&& event.actor == if event.kind@ == REPEAT_CANCELLED@ {
        EventActor::User
    } else {
        EventActor::Scheduler
    }
    &&& if event.kind@ == OCCURRENCE_CLAIMED@ {
        after_prefix(optional_text(event.task_id), "schedule_"@) is Some && text_member(
            event.payload,
            "parent_request_id"@,
        ) == Some(entry.request_id)
    } else {
        optional_text(event.task_id) == Some("repeat_"@ + entry.request_id)
    }
    &&& version_one(event.payload)
    &&& optional_text(event.session_id) == Some(entry.session_id)
    &&& text_member(event.payload, "source_event_id"@) == Some(entry.source_event_id)
    &&& event.causation_id is Some
    &&& event.correlation_id is None
    &&& event.span_id is None
}

fn member_is(payload: &Json, name: &str, wanted: &str) -> (r: bool)
    ensures
        r == (text_member(*payload, name@) == Some(wanted@)),
{
    match payload.get_text(name) {
        Some(s) => same_text(s, wanted),
        None => false,
    }
}

/// Checks that the event is a transition of the schedule.
pub fn check_transition_scope(event: &EventRecord, entry: &RepeatEntry) -> (r: Result<
    (),
    EventStoreError,
>)
    ensures
        in_scope(*event, entry@) ==> r is Ok,
        !in_scope(*event, entry@) ==> r is Err && r->Err_0 is InvalidSchedule,
{
    let cancels = same_text(&event.kind, REPEAT_CANCELLED);
    let claims = same_text(&event.kind, OCCURRENCE_CLAIMED);
    let skips = same_text(&event.kind, REPEAT_SKIPPED);
    let expected_actor = if cancels {
        EventActor::User
    } else {
        EventActor::Scheduler
    };
    let valid_task = if claims {
        strip(&event.task_id, "schedule_").is_some() && member_is(
            &event.payload,
            "parent_request_id",
            &entry.request_id,
        )
    } else {
        text_is(&event.task_id, &joined("repeat_", &entry.request_id))
    };
    if !(skips || cancels || claims) || event.actor != expected_actor || !valid_task
        || !has_version_one(&event.payload) || !text_is(&event.session_id, &entry.session_id)
        || !member_is(&event.payload, "source_event_id", &entry.source_event_id)
        || event.causation_id.is_none() || event.correlation_id.is_some()
        || event.span_id.is_some() {
        return Err(EventStoreError::InvalidSchedule);
    }
    Ok(())
}

/// The row that a request starts.
pub open spec fn requested_entry(event: EventRecord, command: RepeatScheduleCommand) ->
    RepeatModel {
    RepeatModel {
        session_id: command.session_id@,
        request_id: command.request_id@,
        source_event_id: event.event_id@,
        last_event_id: event.event_id@,
        timing: RepeatTiming::asked(command),
        next_occurrence: 1,
        claimed: 0,
        missed: 0,
        last_child_id: None,
        state: RepeatState::Active,
    }
}

/// The state once all occurrences up to `done` are settled.
pub open spec fn state_after(timing: RepeatTiming, done: u32) -> RepeatState {
    if done == timing.occurrences {
        RepeatState::Exhausted
    } else {
        RepeatState::Active
    }
}

/// The occurrences that a skip event settles: from the next one through the
/// last that had expired when it was observed.
pub open spec fn skipped_through(event: EventRecord, old: RepeatModel) -> Option<u32> {
    let from = number_member(event.payload, "from_occurrence"@);
    let through = number_member(event.payload, "through_occurrence"@);
    let observed = integer_member(event.payload, "observed_at_ms"@);
    if from == Some(old.next_occurrence) && through is Some && observed is Some
        && old.timing.expired(observed->0) == through && through->0 >= from->0 {
        through
    } else {
        None
    }
}

/// The claim is of the next occurrence, observed within its window, for a
/// canonical run and a canonical child.
pub open spec fn claims_next(event: EventRecord, old: RepeatModel) -> bool {
    let occurrence = number_member(event.payload, "occurrence"@);
    let run = text_member(event.payload, "run_request_id"@);
    let child = after_prefix(optional_text(event.task_id), "schedule_"@);
    let observed = integer_member(event.payload, "observed_at_ms"@);
    &&& occurrence == Some(old.next_occurrence)
    &&& run is Some && canonical(run->0)
    &&& child is Some && canonical(child->0)
    &&& observed is Some
    &&& match old.timing.window_of(old.next_occurrence) {
        Some((due, expiry)) => due <= observed->0 < expiry,
        None => false,
    }
}

/// The row of the child that a claim creates.
pub open spec fn child_row(event: EventRecord, old: RepeatModel) -> ScheduleModel {
    let (due, expiry) = old.timing.window_of(old.next_occurrence)->0;
    ScheduleModel {
        session_id: event.session_id->0@,
        request_id: after_prefix(optional_text(event.task_id), "schedule_"@)->0,
        source_event_id: event.event_id@,
        last_event_id: event.event_id@,
        run_request_id: text_member(event.payload, "run_request_id"@)->0,
        due_at_ms: due,
        expires_at_ms: expiry,
        state: ScheduleState::Claimed,
    }
}

/// The row after a transition, before its recorded progress is compared.
pub open spec fn moved_entry(event: EventRecord, old: RepeatModel) -> Option<RepeatModel> {
    if event.kind@ == REPEAT_CANCELLED@ {
        Some(
            RepeatModel {
                last_event_id: event.event_id@,
                state: RepeatState::Cancelled,
                ..old
            },
        )
    } else if event.kind@ == REPEAT_SKIPPED@ && old.state == RepeatState::Active {
        match skipped_through(event, old) {
            Some(through) => Some(
                RepeatModel {
                    last_event_id: event.event_id@,
                    next_occurrence: (through + 1) as u32,
                    missed: (old.missed + through - old.next_occurrence + 1) as u32,
                    state: state_after(old.timing, through),
                    ..old
                },
            ),
            None => None,
        }
    } else if event.kind@ == OCCURRENCE_CLAIMED@ && old.state == RepeatState::Active {
        if claims_next(event, old) {
            Some(
                RepeatModel {
                    last_event_id: event.event_id@,
                    next_occurrence: (old.next_occurrence + 1) as u32,
                    claimed: (old.claimed + 1) as u32,
                    last_child_id: after_prefix(optional_text(event.task_id), "schedule_"@),
                    state: state_after(old.timing, old.next_occurrence),
                    ..old
                },
            )
        } else {
            None
        }
    } else {
        None
    }
}

/// The row after a transition that is in scope, follows the row's last event,
/// and records the progress it makes.
pub open spec fn repeat_step(event: EventRecord, old: RepeatModel) -> Option<RepeatModel> {
    if !in_scope(event, old) || optional_text(event.causation_id) != Some(old.last_event_id)
        || old.state == RepeatState::Cancelled {
        None
    } else {
        match moved_entry(event, old) {
            Some(new) => if member(event.payload, "progress"@) is Some && is_progress(
                member(event.payload, "progress"@)->0,
                new.next_occurrence,
                new.claimed,
                new.missed,
                new.last_child_id,
            ) {
                Some(new)
            } else {
                None
            },
            None => None,
        }
    }
}

/// What projecting an event changes: the row, and the child row of a claim.
#[derive(Debug)]
pub struct RepeatChange {
    pub entry: RepeatEntry,
    pub child: Option<ScheduleEntry>,
}

/// The row that an event about a repeating schedule concerns: its session and
/// its request, unless the event starts one.
pub open spec fn repeat_parent(event: EventRecord) -> Option<Seq<char>> {
    if event.kind@ == OCCURRENCE_CLAIMED@ {
        text_member(event.payload, "parent_request_id"@)
    } else {
        after_prefix(optional_text(event.task_id), "repeat_"@)
    }
}

/// The session and the request of the row that a transition concerns.
pub fn repeat_key(event: &EventRecord) -> (r: Result<(String, String), EventStoreError>)
    ensures
        match (event.session_id, repeat_parent(*event)) {
            (Some(s), Some(p)) => r is Ok && r->Ok_0.0@ == s@ && r->Ok_0.1@ == p,
            _ => r is Err && r->Err_0 is InvalidSchedule,
        },
{
    let session = match &event.session_id {
        Some(s) => s.clone(),
        None => {
            return Err(EventStoreError::InvalidSchedule);
        },
    };
    let parent = if same_text(&event.kind, OCCURRENCE_CLAIMED) {
        match event.payload.get_text("parent_request_id") {
            Some(s) => s.clone(),
            None => {
                return Err(EventStoreError::InvalidSchedule);
            },
        }
    } else {
        match strip(&event.task_id, "repeat_") {
            Some(s) => s,
            None => {
                return Err(EventStoreError::InvalidSchedule);
            },
        }
    };
    Ok((session, parent))
}

/// The result of projecting an event about a repeating schedule. `future` is
/// the number of pending schedules and active repeats, and `old` the row of the
/// event's session and parent, where there is one.
pub open spec fn repeat_outcome(
    event: EventRecord,
    command: Option<RepeatScheduleCommand>,
    max_text_bytes: usize,
    future: usize,
    old: Option<RepeatEntry>,
    r: Result<RepeatChange, EventStoreError>,
) -> bool {
    if event.kind@ == REPEAT_REQUESTED@ {
        match command {
            None => r is Err && r->Err_0 is Payload,
            Some(c) => if requests(event, c, max_text_bytes) && future < MAX_PENDING_SCHEDULES {
                r is Ok && r->Ok_0.entry@ == requested_entry(event, c) && r->Ok_0.child is None
            } else {
                r is Err && r->Err_0 is InvalidSchedule
            },
        }
    } else if event.session_id is Some && repeat_parent(event) is Some && old is Some
        && repeat_step(event, old->0@) is Some {
        &&& r is Ok
        &&& r->Ok_0.entry@ == repeat_step(event, old->0@)->0
        &&& if event.kind@ == OCCURRENCE_CLAIMED@ {
            r->Ok_0.child is Some && r->Ok_0.child->0@ == child_row(event, old->0@)
        } else {
            r->Ok_0.child is None
        }
    } else {
        r is Err && r->Err_0 is InvalidSchedule
    }
}

fn claim_child(event: &EventRecord, old: &RepeatEntry) -> (r: Option<ScheduleEntry>)
    requires
        event.session_id is Some,
    ensures
        claims_next(*event, old@) ==> r is Some && r->0@ == child_row(*event, old@),
        !claims_next(*event, old@) ==> r is None,
{
    let session = match &event.session_id {
        Some(s) => s.clone(),
        None => {
            return None;
        },
    };
    let occurrence: u32 = match event.payload.get_number("occurrence") {
        Some(n) => n,
        None => {
            return None;
        },
    };
    let run = match event.payload.get_text("run_request_id") {
        Some(s) => s.clone(),
        None => {
            return None;
        },
    };
    let child = match strip(&event.task_id, "schedule_") {
        Some(s) => s,
        None => {
            return None;
        },
    };
    if occurrence != old.next_occurrence {
        return None;
    }
    let (due, expiry) = match old.timing.window(occurrence) {
        Ok(w) => w,
        Err(_) => {
            return None;
        },
    };
    let observed: i64 = match event.payload.get_integer("observed_at_ms") {
        Some(n) => n,
        None => {
            return None;
        },
    };
    if observed < due || observed >= expiry || !canonical_id(&run) || !canonical_id(&child) {
        return None;
    }
    Some(
        ScheduleEntry {
            session_id: session,
            request_id: child,
            source_event_id: event.event_id.clone(),
            last_event_id: event.event_id.clone(),
            run_request_id: run,
            due_at_ms: due,
            expires_at_ms: expiry,
            state: ScheduleState::Claimed,
        },
    )
}

fn skip_through(event: &EventRecord, old: &RepeatEntry) -> (r: Option<u32>)
    ensures
        r == skipped_through(*event, old@),
{
    let from: u32 = match event.payload.get_number("from_occurrence") {
        Some(n) => n,
        None => {
            return None;
        },
    };
    let through: u32 = match event.payload.get_number("through_occurrence") {
        Some(n) => n,
        None => {
            return None;
        },
    };
    let observed: i64 = match event.payload.get_integer("observed_at_ms") {
        Some(n) => n,
        None => {
            return None;
        },
    };
    if from != old.next_occurrence {
        return None;
    }
    match old.timing.expired_through(observed) {
        Ok(expired) => {
            if through != expired || through < from {
                return None;
            }
            Some(through)
        },
        Err(_) => None,
    }
}

/// The event is a transition of the schedule as it stands: in scope, caused by
/// its last event, and the schedule is not cancelled.
pub open spec fn follows_last(event: EventRecord, old: RepeatModel) -> bool {
    &&& in_scope(event, old)
    &&& optional_text(event.causation_id) == Some(old.last_event_id)
    &&& old.state != RepeatState::Cancelled
}

/// The counters that the event moves stay within 32 bits.
pub open spec fn counters_fit(event: EventRecord, old: RepeatModel) -> bool {
    follows_last(event, old) && old.state == RepeatState::Active ==> {
        &&& event.kind@ == REPEAT_SKIPPED@ && skipped_through(event, old) is Some ==> old.missed
            + skipped_through(event, old)->0 - old.next_occurrence < u32::MAX
        &&& event.kind@ == OCCURRENCE_CLAIMED@ && claims_next(event, old) ==> old.claimed
            < u32::MAX && old.next_occurrence < u32::MAX
    }
}

fn is_next(event: &EventRecord, old: &RepeatEntry) -> (r: bool)
    ensures
        r == follows_last(*event, old@),
{
    check_transition_scope(event, old).is_ok() && text_is(&event.causation_id, &old.last_event_id)
        && old.state != RepeatState::Cancelled
}

impl RepeatEntry {
    /// Whether the counters that the event moves stay within 32 bits.
    pub fn has_room(&self, event: &EventRecord) -> (r: bool)
        ensures
            r == counters_fit(*event, self@),
    {
        if !is_next(event, self) || self.state != RepeatState::Active {
            return true;
        }
        proof {
            reveal_strlit("schedule.repeat.skipped");
            reveal_strlit("schedule.occurrence.claimed");
            assert(REPEAT_SKIPPED@.len() == 23);
            assert(OCCURRENCE_CLAIMED@.len() == 27);
        }
        if same_text(&event.kind, REPEAT_SKIPPED) {
            return match skip_through(event, self) {
                Some(through) => self.missed < u32::MAX - (through - self.next_occurrence),
                None => true,
            };
        }
        if same_text(&event.kind, OCCURRENCE_CLAIMED) && claim_child(event, self).is_some() {
            return self.claimed < u32::MAX && self.next_occurrence < u32::MAX;
        }
        true
    }
}

/// The counters of a consistent schedule have room for every event.
pub proof fn consistent_counters_fit(event: EventRecord, old: RepeatModel)
    requires
        old.consistent(),
    ensures
        counters_fit(event, old),
{
    if skipped_through(event, old) is Some {
        let observed = integer_member(event.payload, "observed_at_ms"@)->0;
        expired_counts_closed_windows(old.timing, observed, old.timing.occurrences);
    }
}

/// Projects an event about a repeating schedule onto the rows it leaves behind.
pub fn project_repeat(
    event: &EventRecord,
    command: &Option<RepeatScheduleCommand>,
    max_text_bytes: usize,
    future: usize,
    old: &Option<RepeatEntry>,
) -> (r: Result<RepeatChange, EventStoreError>)
    requires
        command matches Some(c) ==> c.due_at.representable() && c.expires_at.representable(),
        old matches Some(row) ==> counters_fit(*event, row@),
    ensures
        repeat_outcome(*event, *command, max_text_bytes, future, *old, r),
{
    if same_text(&event.kind, REPEAT_REQUESTED) {
        let timing = match requested_command(event, command, max_text_bytes) {
            Ok(t) => t,
            Err(e) => {
                return Err(e);
            },
        };
        if future >= MAX_PENDING_SCHEDULES {
            return Err(EventStoreError::InvalidSchedule);
        }
        return match command {
            Some(c) => Ok(
                RepeatChange {
                    entry: RepeatEntry {
                        session_id: c.session_id.clone(),
                        request_id: c.request_id.clone(),
                        source_event_id: event.event_id.clone(),
                        last_event_id: event.event_id.clone(),
                        timing,
                        next_occurrence: 1,
                        claimed: 0,
                        missed: 0,
                        last_child_id: None,
                        state: RepeatState::Active,
                    },
                    child: None,
                },
            ),
            None => Err(EventStoreError::Payload),
        };
    }
    match repeat_key(event) {
        Ok(_) => {},
        Err(e) => {
            return Err(e);
        },
    }
    let old = match old {
        Some(row) => row,
        None => {
            return Err(EventStoreError::InvalidSchedule);
        },
    };
    match check_transition_scope(event, old) {
        Ok(()) => {},
        Err(e) => {
            return Err(e);
        },
    }
    if !text_is(&event.causation_id, &old.last_event_id) || old.state == RepeatState::Cancelled {
        return Err(EventStoreError::InvalidSchedule);
    }
    let mut entry = old.clone();
    entry.last_event_id = event.event_id.clone();
    let mut child: Option<ScheduleEntry> = None;
    proof {
        reveal_strlit("schedule.repeat.cancelled");
        reveal_strlit("schedule.repeat.skipped");
        reveal_strlit("schedule.occurrence.claimed");
        assert(REPEAT_CANCELLED@.len() == 25);
        assert(REPEAT_SKIPPED@.len() == 23);
        assert(OCCURRENCE_CLAIMED@.len() == 27);
    }
    if same_text(&event.kind, REPEAT_CANCELLED) {
        entry.state = RepeatState::Cancelled;
    } else if same_text(&event.kind, REPEAT_SKIPPED) && old.state
        == RepeatState::Active {
        let through: u32 = match skip_through(event, old) {
            Some(n) => n,
            None => {
                return Err(EventStoreError::InvalidSchedule);
            },
        };
        entry.next_occurrence = through + 1;
        entry.missed = old.missed + (through - old.next_occurrence) + 1;
        entry.state = if through == old.timing.occurrences {
            RepeatState::Exhausted
        } else {
            RepeatState::Active
        };
    } else if same_text(&event.kind, OCCURRENCE_CLAIMED) && old.state
        == RepeatState::Active {
        let row = match claim_child(event, old) {
            Some(row) => row,
            None => {
                return Err(EventStoreError::InvalidSchedule);
            },
        };
        entry.next_occurrence = old.next_occurrence + 1;
        entry.claimed = old.claimed + 1;
        entry.last_child_id = Some(row.request_id.clone());
        entry.state = if old.next_occurrence == old.timing.occurrences {
            RepeatState::Exhausted
        } else {
            RepeatState::Active
        };
        child = Some(row);
    } else {
        return Err(EventStoreError::InvalidSchedule);
    }
    let recorded = match event.payload.get("progress") {
        Some(value) => matches_progress(
            value,
            entry.next_occurrence,
            entry.claimed,
            entry.missed,
            &entry.last_child_id,
        ),
        None => false,
    };
    if !recorded {
        return Err(EventStoreError::InvalidSchedule);
    }
    Ok(RepeatChange { entry, child })
}

/// Every transition keeps a schedule consistent and bound to its request, and
/// never takes progress back.
pub proof fn transitions_keep_consistency(event: EventRecord, old: RepeatModel)
    requires
        old.consistent(),
        repeat_step(event, old) is Some,
    ensures
        repeat_step(event, old)->0.consistent(),
        repeat_step(event, old)->0.timing == old.timing,
        repeat_step(event, old)->0.source_event_id == old.source_event_id,
        repeat_step(event, old)->0.next_occurrence >= old.next_occurrence,
        repeat_step(event, old)->0.claimed >= old.claimed,
        repeat_step(event, old)->0.missed >= old.missed,
{
    if skipped_through(event, old) is Some {
        let observed = integer_member(event.payload, "observed_at_ms"@)->0;
        expired_counts_closed_windows(old.timing, observed, old.timing.occurrences);
    }
}

/// A requested schedule starts consistent and active.
pub proof fn requests_start_consistent(
    event: EventRecord,
    command: RepeatScheduleCommand,
    max_text_bytes: usize,
)
    requires
        requests(event, command, max_text_bytes),
    ensures
        requested_entry(event, command).consistent(),
        requested_entry(event, command).state == RepeatState::Active,
{
}

/// A cancelled schedule never changes again, and an exhausted one can only be
/// cancelled.
pub proof fn ended_repeats_stay(event: EventRecord, old: RepeatModel)
    requires
        repeat_step(event, old) is Some,
    ensures
        old.state != RepeatState::Cancelled,
        old.state == RepeatState::Exhausted ==> event.kind@ == REPEAT_CANCELLED@
            && repeat_step(event, old)->0.state == RepeatState::Cancelled,
{
}

/// A claim takes the next occurrence and no other, within its window; a skip
/// leaves the last child and the claims alone and skips only what had expired.
pub proof fn occurrences_are_settled_in_order(event: EventRecord, old: RepeatModel)
    requires
        old.consistent(),
        repeat_step(event, old) is Some,
    ensures
        ({
            let new = repeat_step(event, old)->0;
            &&& event.kind@ == OCCURRENCE_CLAIMED@ ==> new.next_occurrence == old.next_occurrence
                + 1 && new.claimed == old.claimed + 1 && new.missed == old.missed
            &&& event.kind@ == REPEAT_SKIPPED@ ==> new.claimed == old.claimed
                && new.last_child_id == old.last_child_id && new.missed - old.missed
                == new.next_occurrence - old.next_occurrence && (forall|k: u32|
                old.next_occurrence <= k < new.next_occurrence ==> old.timing.first_expiry_ms
                    + #[trigger] old.timing.offset(k) <= integer_member(
                    event.payload,
                    "observed_at_ms"@,
                )->0)
        }),
{
    reveal_strlit("schedule.repeat.cancelled");
    reveal_strlit("schedule.repeat.skipped");
    reveal_strlit("schedule.occurrence.claimed");
    assert(REPEAT_CANCELLED@.len() == 25);
    assert(REPEAT_SKIPPED@.len() == 23);
    assert(OCCURRENCE_CLAIMED@.len() == 27);
    if event.kind@ == REPEAT_SKIPPED@ {
        let observed = integer_member(event.payload, "observed_at_ms"@)->0;
        let new = repeat_step(event, old)->0;
        assert(skipped_through(event, old) is Some);
        expired_counts_closed_windows(old.timing, observed, old.timing.occurrences);
        assert forall|k: u32|
            old.next_occurrence <= k < new.next_occurrence implies old.timing.first_expiry_ms
            + #[trigger] old.timing.offset(k) <= observed by {
            expired_counts_closed_windows(old.timing, observed, k);
        }
    }
}

/// Refuses a list of active repeats that is longer than may be pending.
pub fn check_active(entries: Vec<RepeatEntry>) -> (r: Result<Vec<RepeatEntry>, EventStoreError>)
    ensures
        entries@.len() <= MAX_PENDING_SCHEDULES ==> r == Ok::<Vec<RepeatEntry>, EventStoreError>(
            entries,
        ),
        entries@.len() > MAX_PENDING_SCHEDULES ==> r is Err && r->Err_0 is InvalidSchedule,
{
    if entries.len() > MAX_PENDING_SCHEDULES {
        return Err(EventStoreError::InvalidSchedule);
    }
    Ok(entries)
}

} // verus!
