//! Events of the journal and their stored form.

use ulid::Ulid;
use vstd::prelude::*;

use crate::events::json::{integer_member, Json};
use crate::text::{optional_text, same_text};
use crate::time::{
    from_millis, kept_instant, millis_instant, parse_rfc3339, rfc3339_text, stored_instant,
    write_rfc3339, Timestamp, FIRST_WRITABLE_SECOND, LAST_WRITABLE_SECOND, MAX_SECONDS,
    MIN_SECONDS,
};

verus! {

/// The newest layout of the journal's database.
pub const CURRENT_SCHEMA_VERSION: i64 = 6;

/// Who caused an event.
#[derive(Debug, Clone, Copy, PartialEq, Eq, Structural)]
pub enum EventActor {
    User,
    Model,
    Capability,
    Policy,
    System,
    Scheduler,
}

impl EventActor {
    /// The stored name of the actor.
    pub open spec fn token(self) -> Seq<char> {
        match self {
            EventActor::User => "user"@,
            EventActor::Model => "model"@,
            EventActor::Capability => "capability"@,
            EventActor::Policy => "policy"@,
            EventActor::System => "system"@,
            EventActor::Scheduler => "scheduler"@,
        }
    }

    /// The stored name of the actor.
    pub fn as_str(self) -> (s: &'static str)
        ensures
            s@ == self.token(),
    {
        match self {
            EventActor::User => "user",
            EventActor::Model => "model",
            EventActor::Capability => "capability",
            EventActor::Policy => "policy",
            EventActor::System => "system",
            EventActor::Scheduler => "scheduler",
        }
    }

    /// The actor of a stored name, if it is one.
    pub open spec fn named(name: Seq<char>) -> Option<EventActor> {
        if name == "user"@ {
            Some(EventActor::User)
        } else if name == "model"@ {
            Some(EventActor::Model)
        } else if name == "capability"@ {
            Some(EventActor::Capability)
        } else if name == "policy"@ {
            Some(EventActor::Policy)
        } else if name == "system"@ {
            Some(EventActor::System)
        } else if name == "scheduler"@ {
            Some(EventActor::Scheduler)
        } else {
            None
        }
    }

    /// The actor of a stored name, if it is one.
    pub fn from_name(name: &str) -> (r: Option<EventActor>)
        ensures
            r == EventActor::named(name@),
    {
        if same_text(name, "user") {
            return Some(EventActor::User);
        }
        if same_text(name, "model") {
            return Some(EventActor::Model);
        }
        if same_text(name, "capability") {
            return Some(EventActor::Capability);
        }
        if same_text(name, "policy") {
            return Some(EventActor::Policy);
        }
        if same_text(name, "system") {
            return Some(EventActor::System);
        }
        if same_text(name, "scheduler") {
            return Some(EventActor::Scheduler);
        }
        None
    }
}

/// Actors and their stored names convert both ways.
pub proof fn actor_names_read_back(actor: EventActor)
    ensures
        EventActor::named(actor.token()) == Some(actor),
{
    reveal_strlit("user");
    reveal_strlit("model");
    reveal_strlit("capability");
    reveal_strlit("policy");
    reveal_strlit("system");
    reveal_strlit("scheduler");
    assert("user"@.len() == 4);
    assert("model"@.len() == 5);
    assert("capability"@.len() == 10);
    assert("policy"@[0] == 'p');
    assert("system"@[0] == 's');
    assert("policy"@.len() == 6);
    assert("system"@.len() == 6);
    assert("scheduler"@.len() == 9);
}

/// A failure of the journal.
#[derive(Debug, PartialEq, Eq)]
pub enum EventStoreError {
    Payload,
    Timestamp,
    InvalidActor(String),
    InvalidSchedule,
    UnsupportedSchemaVersion { found: i64, supported: i64 },
}

/// An event as it is kept in the journal; `payload_bytes` is the size of the
/// payload's compact JSON text.
#[derive(Debug)]
pub struct EventRecord {
    pub seq: i64,
    pub event_id: String,
    pub recorded_at: Timestamp,
    pub session_id: Option<String>,
    pub task_id: Option<String>,
    pub actor: EventActor,
    pub kind: String,
    pub payload: Json,
    pub payload_bytes: usize,
    pub causation_id: Option<String>,
    pub correlation_id: Option<String>,
    pub span_id: Option<String>,
}

/// An event before it is recorded; `payload_bytes` is the size of the payload's
/// compact JSON text.
#[derive(Debug)]
pub struct NewEvent {
    pub session_id: Option<String>,
    pub task_id: Option<String>,
    pub actor: EventActor,
    pub kind: String,
    pub payload: Json,
    pub payload_bytes: usize,
    pub causation_id: Option<String>,
    pub correlation_id: Option<String>,
    pub span_id: Option<String>,
}

/// A row of the journal. `payload` is what reading the payload's text gave,
/// where it could be read.
#[derive(Debug)]
pub struct EventRow {
    pub seq: i64,
    pub event_id: String,
    pub recorded_at: String,
    pub session_id: Option<String>,
    pub task_id: Option<String>,
    pub actor: String,
    pub kind: String,
    pub payload: Option<Json>,
    pub payload_bytes: usize,
    pub causation_id: Option<String>,
    pub correlation_id: Option<String>,
    pub span_id: Option<String>,
}

/// The record of a new event, before it has a place in the journal.
pub open spec fn recorded(event: NewEvent, event_id: String, at: Timestamp) -> EventRecord {
    EventRecord {
        seq: 0,
        event_id,
        recorded_at: at,
        session_id: event.session_id,
        task_id: event.task_id,
        actor: event.actor,
        kind: event.kind,
        payload: event.payload,
        payload_bytes: event.payload_bytes,
        causation_id: event.causation_id,
        correlation_id: event.correlation_id,
        span_id: event.span_id,
    }
}

/// Records an event under an identity, at that many milliseconds from the
/// epoch; nothing where the calendar does not reach.
pub fn record_event(event: NewEvent, event_id: String, now_ms: i64) -> (r: Option<EventRecord>)
    ensures
        match millis_instant(now_ms) {
            Some(at) => r == Some(recorded(event, event_id, at)),
            None => r is None,
        },
{
    match from_millis(now_ms) {
        None => None,
        Some(at) => Some(
            EventRecord {
                seq: 0,
                event_id,
                recorded_at: at,
                session_id: event.session_id,
                task_id: event.task_id,
                actor: event.actor,
                kind: event.kind,
                payload: event.payload,
                payload_bytes: event.payload_bytes,
                causation_id: event.causation_id,
                correlation_id: event.correlation_id,
                span_id: event.span_id,
            },
        ),
    }
}

/// The text under which the time of an event is stored.
pub fn encode_recorded_at(recorded_at: Timestamp) -> (s: String)
    requires
        MIN_SECONDS <= recorded_at.secs <= MAX_SECONDS,
        recorded_at.nanos < 1_000_000_000,
    ensures
        s@ == rfc3339_text(recorded_at.secs, recorded_at.nanos),
        stored_instant(s@) == kept_instant(recorded_at),
{
    write_rfc3339(recorded_at)
}

/// The row holds the record: every field as it is, the time and the actor as
/// texts that stand for them.
pub open spec fn row_holds(row: EventRow, record: EventRecord) -> bool {
    &&& row.seq == record.seq
    &&& row.event_id@ == record.event_id@
    &&& stored_instant(row.recorded_at@) == kept_instant(record.recorded_at)
    &&& optional_text(row.session_id) == optional_text(record.session_id)
    &&& optional_text(row.task_id) == optional_text(record.task_id)
    &&& row.actor@ == record.actor.token()
    &&& row.kind@ == record.kind@
    &&& row.payload == Some(record.payload)
    &&& row.payload_bytes == record.payload_bytes
    &&& optional_text(row.causation_id) == optional_text(record.causation_id)
    &&& optional_text(row.correlation_id) == optional_text(record.correlation_id)
    &&& optional_text(row.span_id) == optional_text(record.span_id)
}

/// The row under which a record is stored.
pub fn store_event(record: EventRecord) -> (row: EventRow)
    requires
        MIN_SECONDS <= record.recorded_at.secs <= MAX_SECONDS,
        record.recorded_at.nanos < 1_000_000_000,
    ensures
        row.recorded_at@ == rfc3339_text(record.recorded_at.secs, record.recorded_at.nanos),
        row.actor@ == record.actor.token(),
        row == (EventRow {
            seq: record.seq,
            event_id: record.event_id,
            recorded_at: row.recorded_at,
            session_id: record.session_id,
            task_id: record.task_id,
            actor: row.actor,
            kind: record.kind,
            payload: Some(record.payload),
            payload_bytes: record.payload_bytes,
            causation_id: record.causation_id,
            correlation_id: record.correlation_id,
            span_id: record.span_id,
        }),
        row_holds(row, record),
{
    EventRow {
        seq: record.seq,
        event_id: record.event_id,
        recorded_at: encode_recorded_at(record.recorded_at),
        session_id: record.session_id,
        task_id: record.task_id,
        actor: record.actor.as_str().to_owned(),
        kind: record.kind,
        payload: Some(record.payload),
        payload_bytes: record.payload_bytes,
        causation_id: record.causation_id,
        correlation_id: record.correlation_id,
        span_id: record.span_id,
    }
}

/// The result of reading a row whose time stands for `at`: the actor decides
/// first, then the time, then the payload.
pub open spec fn read_outcome(
    row: EventRow,
    at: Option<Timestamp>,
    r: Result<EventRecord, EventStoreError>,
) -> bool {
    match (EventActor::named(row.actor@), at, row.payload) {
        (None, _, _) => {
            &&& r is Err
            &&& r->Err_0 is InvalidActor
            &&& r->Err_0->InvalidActor_0@ == row.actor@
        },
        (Some(_), None, _) => r is Err && r->Err_0 is Timestamp,
        (Some(_), Some(_), None) => r is Err && r->Err_0 is Payload,
        (Some(actor), Some(recorded_at), Some(payload)) => {
            r == Ok::<EventRecord, EventStoreError>(
                EventRecord {
                    seq: row.seq,
                    event_id: row.event_id,
                    recorded_at,
                    session_id: row.session_id,
                    task_id: row.task_id,
                    actor,
                    kind: row.kind,
                    payload,
                    payload_bytes: row.payload_bytes,
                    causation_id: row.causation_id,
                    correlation_id: row.correlation_id,
                    span_id: row.span_id,
                },
            )
        },
    }
}

/// Reads a row of the journal.
pub fn read_event(row: EventRow) -> (r: Result<EventRecord, EventStoreError>)
    ensures
        read_outcome(row, stored_instant(row.recorded_at@), r),
{
    let recorded_at = parse_rfc3339(&row.recorded_at);
    read_event_at(row, recorded_at)
}

/// Reads a row of the journal whose time has been read.
pub fn read_event_at(row: EventRow, recorded_at: Option<Timestamp>) -> (r: Result<
    EventRecord,
    EventStoreError,
>)
    ensures
        read_outcome(row, recorded_at, r),
{
    let actor = match EventActor::from_name(&row.actor) {
        Some(a) => a,
        None => {
            return Err(EventStoreError::InvalidActor(row.actor));
        },
    };
    match (recorded_at, row.payload) {
        (None, _) => Err(EventStoreError::Timestamp),
        (Some(_), None) => Err(EventStoreError::Payload),
        (Some(at), Some(payload)) => Ok(
            EventRecord {
                seq: row.seq,
                event_id: row.event_id,
                recorded_at: at,
                session_id: row.session_id,
                task_id: row.task_id,
                actor,
                kind: row.kind,
                payload,
                payload_bytes: row.payload_bytes,
                causation_id: row.causation_id,
                correlation_id: row.correlation_id,
                span_id: row.span_id,
            },
        ),
    }
}

/// The records agree in every field.
pub open spec fn same_record(a: EventRecord, b: EventRecord) -> bool {
    &&& a.seq == b.seq
    &&& a.event_id@ == b.event_id@
    &&& a.recorded_at == b.recorded_at
    &&& optional_text(a.session_id) == optional_text(b.session_id)
    &&& optional_text(a.task_id) == optional_text(b.task_id)
    &&& a.actor == b.actor
    &&& a.kind@ == b.kind@
    &&& a.payload == b.payload
    &&& a.payload_bytes == b.payload_bytes
    &&& optional_text(a.causation_id) == optional_text(b.causation_id)
    &&& optional_text(a.correlation_id) == optional_text(b.correlation_id)
    &&& optional_text(a.span_id) == optional_text(b.span_id)
}

/// What was stored reads back: within the years 0 to 9999, reading the row that
/// holds a record gives the record, its time to the millisecond, and any other
/// time is refused.
pub proof fn stored_events_read_back(
    record: EventRecord,
    row: EventRow,
    r: Result<EventRecord, EventStoreError>,
)
    requires
        row_holds(row, record),
        read_outcome(row, stored_instant(row.recorded_at@), r),
    ensures
        match kept_instant(record.recorded_at) {
            Some(at) => r is Ok && same_record(r->Ok_0, EventRecord { recorded_at: at, ..record }),
            None => r is Err && r->Err_0 is Timestamp,
        },
{
    actor_names_read_back(record.actor);
}

/// A recorded event reads back whole: an event is recorded on a whole
/// millisecond, so within the years 0 to 9999 reading its row, under whatever
/// sequence it was given, returns it as it was recorded.
pub proof fn recorded_events_read_back(
    event: NewEvent,
    event_id: String,
    now_ms: i64,
    seq: i64,
    row: EventRow,
    r: Result<EventRecord, EventStoreError>,
)
    requires
        millis_instant(now_ms) matches Some(at) && FIRST_WRITABLE_SECOND <= at.secs
            <= LAST_WRITABLE_SECOND,
        row_holds(
            row,
            (EventRecord { seq, ..recorded(event, event_id, millis_instant(now_ms)->0) }),
        ),
        read_outcome(row, stored_instant(row.recorded_at@), r),
    ensures
        r is Ok,
        same_record(
            r->Ok_0,
            (EventRecord { seq, ..recorded(event, event_id, millis_instant(now_ms)->0) }),
        ),
{
    let record = EventRecord { seq, ..recorded(event, event_id, millis_instant(now_ms)->0) };
    stored_events_read_back(record, row, r);
}

/// Recording keeps the event: nothing of it is dropped, renamed or swapped, and it
/// gets the identity and the time it was given.
pub proof fn recorded_events_keep_every_field(
    event: NewEvent,
    event_id: String,
    at: Timestamp,
    a: EventRecord,
    b: EventRecord,
)
    ensures
        ({
            let r = recorded(event, event_id, at);
            &&& r.event_id == event_id
            &&& r.recorded_at == at
            &&& r.session_id == event.session_id
            &&& r.task_id == event.task_id
            &&& r.actor == event.actor
            &&& r.kind == event.kind
            &&& r.payload == event.payload
            &&& r.payload_bytes == event.payload_bytes
            &&& r.causation_id == event.causation_id
            &&& r.correlation_id == event.correlation_id
            &&& r.span_id == event.span_id
        }),
        same_record(a, b) ==> {
            &&& a.seq == b.seq && a.event_id@ == b.event_id@ && a.recorded_at == b.recorded_at
            &&& a.session_id is Some <==> b.session_id is Some
            &&& a.session_id is Some ==> a.session_id->0@ == b.session_id->0@
            &&& a.task_id is Some <==> b.task_id is Some
            &&& a.task_id is Some ==> a.task_id->0@ == b.task_id->0@
            &&& a.actor == b.actor && a.kind@ == b.kind@ && a.payload == b.payload
            &&& a.payload_bytes == b.payload_bytes
            &&& a.causation_id is Some <==> b.causation_id is Some
            &&& a.causation_id is Some ==> a.causation_id->0@ == b.causation_id->0@
            &&& a.correlation_id is Some <==> b.correlation_id is Some
            &&& a.correlation_id is Some ==> a.correlation_id->0@ == b.correlation_id->0@
            &&& a.span_id is Some <==> b.span_id is Some
            &&& a.span_id is Some ==> a.span_id->0@ == b.span_id->0@
        },
{
}

/// A row is read only as what it says: its actor is one of the stored names, its
/// time can be read, its payload is there, and every other column is taken as it
/// is. What cannot be read is told apart, the actor before the time and the time
/// before the payload.
pub proof fn rows_are_read_as_they_stand(
    row: EventRow,
    at: Option<Timestamp>,
    r: Result<EventRecord, EventStoreError>,
)
    requires
        read_outcome(row, at, r),
    ensures
        r is Ok ==> {
            &&& row.actor@ == r->Ok_0.actor.token()
            &&& at == Some(r->Ok_0.recorded_at)
            &&& row.payload == Some(r->Ok_0.payload)
            &&& r->Ok_0.seq == row.seq && r->Ok_0.event_id == row.event_id
            &&& r->Ok_0.session_id == row.session_id && r->Ok_0.task_id == row.task_id
            &&& r->Ok_0.kind == row.kind && r->Ok_0.payload_bytes == row.payload_bytes
            &&& r->Ok_0.causation_id == row.causation_id
            &&& r->Ok_0.correlation_id == row.correlation_id && r->Ok_0.span_id == row.span_id
        },
        r is Err ==> {
            &&& r->Err_0 is InvalidActor ==> r->Err_0->InvalidActor_0@ == row.actor@ && forall|
                a: EventActor,
            | (#[trigger] a.token()) != row.actor@
            &&& r->Err_0 is Timestamp ==> at is None
            &&& r->Err_0 is Payload ==> row.payload is None && at is Some
            &&& r->Err_0 is InvalidActor || r->Err_0 is Timestamp || r->Err_0 is Payload
        },
        at is Some && row.payload is Some && (exists|a: EventActor|
            (#[trigger] a.token()) == row.actor@) ==> r is Ok,
{
    assert forall|a: EventActor| (#[trigger] a.token()) == row.actor@ implies EventActor::named(
        row.actor@,
    ) is Some by {
        actor_names_read_back(a);
    }
}

/// The row of the event with that identity, where the table holds one.
pub open spec fn row_by_event_id(table: Seq<EventRow>, event_id: Seq<char>) -> Option<EventRow>
    decreases table.len(),
{
    if table.len() == 0 {
        None
    } else if table.last().event_id@ == event_id {
        Some(table.last())
    } else {
        row_by_event_id(table.drop_last(), event_id)
    }
}

/// The row of the event with that sequence, where the table holds one.
pub open spec fn row_by_seq(table: Seq<EventRow>, seq: i64) -> Option<EventRow>
    decreases table.len(),
{
    if table.len() == 0 {
        None
    } else if table.last().seq == seq {
        Some(table.last())
    } else {
        row_by_seq(table.drop_last(), seq)
    }
}

/// An appended event is found and every other lookup stays as it was: looking up
/// its identity or its sequence gives its row, which reads back as the event that
/// was recorded.
pub proof fn appended_events_are_found(
    table: Seq<EventRow>,
    event: NewEvent,
    event_id: String,
    now_ms: i64,
    seq: i64,
    row: EventRow,
    r: Result<EventRecord, EventStoreError>,
)
    requires
        millis_instant(now_ms) matches Some(at) && FIRST_WRITABLE_SECOND <= at.secs
            <= LAST_WRITABLE_SECOND,
        row_holds(
            row,
            (EventRecord { seq, ..recorded(event, event_id, millis_instant(now_ms)->0) }),
        ),
        read_outcome(row, stored_instant(row.recorded_at@), r),
    ensures
        row_by_event_id(table.push(row), event_id@) == Some(row),
        row_by_seq(table.push(row), seq) == Some(row),
        forall|other: Seq<char>|
            other != event_id@ ==> #[trigger] row_by_event_id(table.push(row), other)
                == row_by_event_id(table, other),
        forall|other: i64|
            other != seq ==> #[trigger] row_by_seq(table.push(row), other) == row_by_seq(
                table,
                other,
            ),
        r is Ok,
        same_record(
            r->Ok_0,
            (EventRecord { seq, ..recorded(event, event_id, millis_instant(now_ms)->0) }),
        ),
{
    recorded_events_read_back(event, event_id, now_ms, seq, row, r);
    assert(table.push(row).drop_last() =~= table);
}

/// The steps that bring a database to the newest layout.
#[derive(Debug, Clone, Copy, PartialEq, Eq, Structural)]
pub struct MigrationSteps {
    pub events: bool,
    pub append_only: bool,
    pub schedules: bool,
    pub repeats: bool,
}

/// The steps that a database of the given version still needs, or the refusal of a
/// newer one.
pub open spec fn migration_outcome(
    version: i64,
    r: Result<MigrationSteps, EventStoreError>,
) -> bool {
    match r {
        Err(e) => version > CURRENT_SCHEMA_VERSION && e
            == EventStoreError::UnsupportedSchemaVersion {
            found: version,
            supported: CURRENT_SCHEMA_VERSION,
        },
        Ok(steps) => version <= CURRENT_SCHEMA_VERSION && steps == (MigrationSteps {
            events: version < 1,
            append_only: version < 2,
            schedules: version < 5,
            repeats: version < 6,
        }),
    }
}

/// Each layout adds to the one before it: events came with the first version, their
/// protection with the second, schedules with the fifth and repeats with the
/// sixth. A database lacks exactly what came after its own version, the newest
/// lacks nothing, and a still newer one is refused.
pub proof fn migrations_add_what_came_later(
    version: i64,
    r: Result<MigrationSteps, EventStoreError>,
)
    requires
        migration_outcome(version, r),
    ensures
        r is Ok <==> version <= 6,
        r is Ok && version == 6 ==> !r->Ok_0.events && !r->Ok_0.append_only && !r->Ok_0.schedules
            && !r->Ok_0.repeats,
        r is Ok && version == 5 ==> !r->Ok_0.schedules && r->Ok_0.repeats,
        r is Ok && 2 <= version <= 4 ==> !r->Ok_0.events && !r->Ok_0.append_only
            && r->Ok_0.schedules && r->Ok_0.repeats,
        r is Ok && version == 1 ==> !r->Ok_0.events && r->Ok_0.append_only && r->Ok_0.schedules,
        r is Ok && version <= 0 ==> r->Ok_0.events && r->Ok_0.append_only && r->Ok_0.schedules
            && r->Ok_0.repeats,
        r is Ok && r->Ok_0.schedules ==> r->Ok_0.repeats,
        r is Ok && r->Ok_0.append_only ==> r->Ok_0.schedules,
        r is Ok && r->Ok_0.events ==> r->Ok_0.append_only,
        r is Err ==> r->Err_0 == (EventStoreError::UnsupportedSchemaVersion {
            found: version,
            supported: 6,
        }),
{
}

/// Which steps a database of the given version still needs; a newer one is
/// refused.
pub fn migration_steps(version: i64) -> (r: Result<MigrationSteps, EventStoreError>)
    ensures
        match r {
            Err(e) => version > CURRENT_SCHEMA_VERSION
                && e == EventStoreError::UnsupportedSchemaVersion {
                found: version,
                supported: CURRENT_SCHEMA_VERSION,
            },
            Ok(steps) => version <= CURRENT_SCHEMA_VERSION && steps == (MigrationSteps {
                events: version < 1,
                append_only: version < 2,
                schedules: version < 5,
                repeats: version < 6,
            }),
        },
        migration_outcome(version, r),
{
    if version > CURRENT_SCHEMA_VERSION {
        return Err(
            EventStoreError::UnsupportedSchemaVersion {
                found: version,
                supported: CURRENT_SCHEMA_VERSION,
            },
        );
    }
    Ok(
        MigrationSteps {
            events: version < 1,
            append_only: version < 2,
            schedules: version < 5,
            repeats: version < 6,
        },
    )
}

/// The bounds of a page.
pub open spec fn page_range(after_seq: Option<i64>, through_seq: i64, r: (i64, i64)) -> bool {
    &&& r.0 == match after_seq {
        Some(n) => if n > 0 {
            n
        } else {
            0
        },
        None => 0,
    }
    &&& r.1 == if through_seq > 0 {
        through_seq
    } else {
        0
    }
}

/// A page holds the events after the cursor and up to the high-water, and the
/// cursor itself is not read again: a sequence lies between the bounds exactly
/// where it follows the cursor and does not pass the high-water.
pub proof fn pages_follow_the_cursor(
    after_seq: Option<i64>,
    through_seq: i64,
    r: (i64, i64),
    seq: i64,
)
    requires
        page_range(after_seq, through_seq, r),
        seq >= 1,
    ensures
        r.0 < seq <= r.1 <==> seq <= through_seq && (after_seq is Some ==> after_seq->0 < seq),
        r.0 >= 0,
        r.1 >= 0,
{
}

/// The sequence numbers of a page: after the first and up to the second, both
/// at least zero.
pub fn page_bounds(after_seq: Option<i64>, through_seq: i64) -> (r: (i64, i64))
    ensures
        r.0 == match after_seq {
            Some(n) => if n > 0 {
                n
            } else {
                0
            },
            None => 0,
        },
        r.1 == if through_seq > 0 {
            through_seq
        } else {
            0
        },
        page_range(after_seq, through_seq, r),
{
    let after: i64 = match after_seq {
        Some(n) => if n > 0 {
            n
        } else {
            0
        },
        None => 0,
    };
    let through: i64 = if through_seq > 0 {
        through_seq
    } else {
        0
    };
    (after, through)
}

/// A digit of Crockford's Base32: no I, L, O or U, and no lower case.
pub open spec fn crockford(c: char) -> bool {
    ||| '0' <= c <= '9'
    ||| 'A' <= c <= 'H'
    ||| c == 'J'
    ||| c == 'K'
    ||| c == 'M'
    ||| c == 'N'
    ||| 'P' <= c <= 'T'
    ||| 'V' <= c <= 'Z'
}

/// The text is the canonical form of an identifier: 26 digits, of which the
/// first stands for the three highest of 128 bits.
pub open spec fn canonical(text: Seq<char>) -> bool {
    &&& text.len() == 26
    &&& forall|i: int| 0 <= i < text.len() ==> crockford(#[trigger] text[i])
    &&& text[0] <= '7'
}

/// What `Ulid::from_string` reads.
pub uninterp spec fn ulid_value(text: Seq<char>) -> Option<u128>;

/// `Ulid::from_string`: the value of a Base32 text, which depends on the text
/// alone. Every canonical text has one.
#[verifier::external_body]
fn parse_ulid(text: &str) -> (r: Option<u128>)
    ensures
        r == ulid_value(text@),
        canonical(text@) ==> r is Some,
{
    Ulid::from_string(text).ok().map(|id| id.0)
}

/// `Ulid::to_string`: the canonical text of a value. It reads back as the value,
/// and no other canonical text does.
#[verifier::external_body]
fn write_ulid(value: u128) -> (s: String)
    ensures
        canonical(s@),
        ulid_value(s@) == Some(value),
        forall|t: Seq<char>| canonical(t) && #[trigger] ulid_value(t) == Some(value) ==> t == s@,
{
    Ulid(value).to_string()
}

/// Whether the text is the canonical form of an identifier.
pub fn canonical_id(text: &str) -> (r: bool)
    ensures
        r == canonical(text@),
{
    match parse_ulid(text) {
        Some(value) => is_canonical_form(text, &write_ulid(value)),
        None => false,
    }
}

/// Whether the text is the form that its value is written in.
pub fn is_canonical_form(text: &str, written: &str) -> (r: bool)
    ensures
        r == (text@ == written@),
{
    same_text(text, written)
}

/// The payload's version is one.
pub open spec fn version_one(payload: Json) -> bool {
    integer_member(payload, "version"@) == Some(1i64)
}

/// Whether the payload's version is one.
pub fn has_version_one(payload: &Json) -> (r: bool)
    ensures
        r == version_one(*payload),
{
    match payload.get_integer("version") {
        Some(n) => n == 1,
        None => false,
    }
}

/// Whether an optional text is present and equal to `wanted`.
pub fn text_is(value: &Option<String>, wanted: &str) -> (r: bool)
    ensures
        r == (optional_text(*value) == Some(wanted@)),
{
    match value {
        Some(s) => same_text(s, wanted),
        None => false,
    }
}

} // verus!
