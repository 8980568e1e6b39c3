//! Journal records, schedules and repeating schedules.

use std::collections::{HashMap, HashSet};

use ditto::events::binding::{claim_source_id, occurrence_source, verify_repeat};
use ditto::events::json::{Json, JsonField};
use ditto::events::record::{
    canonical_id, encode_recorded_at, has_version_one, migration_steps, page_bounds, read_event,
    read_event_at, record_event, store_event, EventActor, EventRecord, EventRow, EventStoreError,
    CURRENT_SCHEMA_VERSION,
};
use ditto::events::recurrence::{
    check_active, matches_progress, project_repeat, repeat_key, RepeatEntry,
    RepeatScheduleCommand, RepeatState, RepeatTiming, OCCURRENCE_CLAIMED, REPEAT_CANCELLED,
    REPEAT_REQUESTED, REPEAT_SKIPPED,
};
use ditto::events::schedule::{
    check_pending, is_schedule_kind, next_state, project_schedule, schedule_key, ScheduleEntry,
    ScheduleRunCommand, ScheduleState, MAX_PENDING_SCHEDULES,
};
use ditto::time::Timestamp;
use serde_json::Value;

const MAX_TEXT_BYTES: usize = 4_096;

fn json(value: &Value) -> Json {
    match value {
        Value::Null => Json::Null,
        Value::Bool(b) => Json::Bool(*b),
        Value::Number(n) => match (n.as_u64(), n.as_i64()) {
            (Some(u), _) => Json::Unsigned(u),
            (None, Some(i)) => Json::Negative(i),
            (None, None) => Json::Fractional { bits: n.as_f64().unwrap().to_bits() },
        },
        Value::String(s) => Json::Text(s.clone()),
        Value::Array(items) => Json::Array(items.iter().map(json).collect()),
        Value::Object(fields) => Json::Object(
            fields
                .iter()
                .map(|(name, value)| JsonField { name: name.clone(), value: json(value) })
                .collect(),
        ),
    }
}

fn value(json: &Json) -> Value {
    match json {
        Json::Null => Value::Null,
        Json::Bool(b) => Value::from(*b),
        Json::Unsigned(u) => Value::from(*u),
        Json::Negative(i) => Value::from(*i),
        Json::Fractional { bits } => Value::from(f64::from_bits(*bits)),
        Json::Text(s) => Value::from(s.as_str()),
        Json::Array(items) => Value::Array(items.iter().map(value).collect()),
        Json::Object(fields) => {
            Value::Object(fields.iter().map(|f| (f.name.clone(), value(&f.value))).collect())
        }
    }
}

fn parsed(text: &str) -> Value {
    serde_json::from_str(text).expect("fixture is JSON")
}

#[derive(Clone, Debug)]
struct NewEvent {
    session_id: Option<String>,
    task_id: Option<String>,
    actor: EventActor,
    kind: String,
    payload: Value,
    causation_id: Option<String>,
    correlation_id: Option<String>,
}

fn id(number: u128) -> String {
    ulid::Ulid(number).to_string()
}

fn record(seq: i64, event: &NewEvent) -> EventRecord {
    EventRecord {
        seq,
        event_id: id(seq as u128),
        recorded_at: Timestamp { secs: 1_760_000_000 + seq, nanos: 0 },
        session_id: event.session_id.clone(),
        task_id: event.task_id.clone(),
        actor: event.actor,
        kind: event.kind.clone(),
        payload: json(&event.payload),
        payload_bytes: event.payload.to_string().len(),
        causation_id: event.causation_id.clone(),
        correlation_id: event.correlation_id.clone(),
        span_id: None,
    }
}

fn time(value: &Value) -> Option<Timestamp> {
    let time = chrono::DateTime::parse_from_rfc3339(value.as_str()?).ok()?;
    Some(Timestamp { secs: time.timestamp(), nanos: time.timestamp_subsec_nanos() })
}

fn repeat_command(payload: &Value) -> Option<RepeatScheduleCommand> {
    let command = payload.get("command")?;
    Some(RepeatScheduleCommand {
        request_id: command.get("request_id")?.as_str()?.to_owned(),
        session_id: command.get("session_id")?.as_str()?.to_owned(),
        text: command.get("text")?.as_str()?.to_owned(),
        due_at: time(command.get("due_at")?)?,
        expires_at: time(command.get("expires_at")?)?,
        every_seconds: command.get("every_seconds")?.as_u64()? as u32,
        occurrences: command.get("occurrences")?.as_u64()? as u32,
    })
}

fn run_command(payload: &Value) -> Option<ScheduleRunCommand> {
    let command = payload.get("command")?;
    Some(ScheduleRunCommand {
        request_id: command.get("request_id")?.as_str()?.to_owned(),
        session_id: command.get("session_id")?.as_str()?.to_owned(),
        text: command.get("text")?.as_str()?.to_owned(),
        due_at: time(command.get("due_at")?)?,
        expires_at: time(command.get("expires_at")?)?,
    })
}

type Key = (String, String);

/// A journal in memory with the two indexes that are derived from it.
#[derive(Default)]
struct Journal {
    events: Vec<NewEvent>,
    schedules: HashMap<Key, ScheduleEntry>,
    repeats: HashMap<Key, RepeatEntry>,
    runs: HashSet<String>,
}

impl Journal {
    fn pending(&self) -> usize {
        self.schedules.values().filter(|row| row.state == ScheduleState::Pending).count()
    }

    fn future(&self) -> usize {
        let active =
            self.repeats.values().filter(|row| row.state == RepeatState::Active).count();
        self.pending() + active
    }

    fn project(&mut self, event: &NewEvent, seq: i64) -> Result<(), EventStoreError> {
        let kept = record(seq, event);
        if is_schedule_kind(&event.kind) {
            let key = schedule_key(&kept)?;
            let old = self.schedules.get(&key).cloned();
            let fresh = old.is_none();
            let row =
                project_schedule(&kept, &run_command(&event.payload), self.pending(), &old)?;
            if fresh && !self.runs.insert(row.run_request_id.clone()) {
                return Err(EventStoreError::InvalidSchedule);
            }
            self.schedules.insert(key, row);
        } else if event.kind.starts_with("schedule.") {
            let key = repeat_key(&kept)?;
            let old = self.repeats.get(&key).cloned();
            assert!(old.iter().all(|row| row.has_room(&kept)));
            let command = repeat_command(&event.payload);
            let change = project_repeat(&kept, &command, MAX_TEXT_BYTES, self.future(), &old)?;
            if let Some(child) = change.child {
                if self.runs.contains(&child.run_request_id) {
                    return Err(EventStoreError::InvalidSchedule);
                }
                self.runs.insert(child.run_request_id.clone());
                let key = (child.session_id.clone(), child.request_id.clone());
                self.schedules.insert(key, child);
            }
            self.repeats.insert(key, change.entry);
        }
        Ok(())
    }

    fn append(&mut self, event: NewEvent) -> Result<EventRecord, EventStoreError> {
        let seq = self.events.len() as i64 + 1;
        self.project(&event, seq)?;
        let kept = record(seq, &event);
        self.events.push(event);
        Ok(kept)
    }

    fn rebuild(&mut self) {
        self.schedules.clear();
        self.repeats.clear();
        self.runs.clear();
        for (index, event) in self.events.clone().iter().enumerate() {
            self.project(event, index as i64 + 1).expect("the journal is sound");
        }
    }

    fn find(&self, event_id: &str) -> Option<EventRecord> {
        self.events
            .iter()
            .enumerate()
            .map(|(index, event)| record(index as i64 + 1, event))
            .find(|event| event.event_id == event_id)
    }

    fn schedule(&self, request: &str) -> Option<ScheduleEntry> {
        self.schedules.get(&("personal".to_owned(), request.to_owned())).cloned()
    }

    fn repeat(&self, source: &EventRecord) -> RepeatEntry {
        let request = value(source.payload.get("command").expect("command"))["request_id"]
            .as_str()
            .expect("request")
            .to_owned();
        self.repeats.get(&("personal".to_owned(), request)).cloned().expect("repeat")
    }

    fn verified_repeat(&self, entry: &RepeatEntry) -> Result<(), EventStoreError> {
        let source = self.find(&entry.source_event_id);
        let command = source.as_ref().and_then(|event| repeat_command(&value(&event.payload)));
        let last = self.find(&entry.last_event_id);
        verify_repeat(entry, &source, &command, MAX_TEXT_BYTES, &last)
    }

    fn occurrence(
        &self,
        entry: &ScheduleEntry,
        claim: &EventRecord,
    ) -> Result<ScheduleRunCommand, EventStoreError> {
        let source = self.find(&claim_source_id(claim)?);
        let parent = source.as_ref().and_then(|event| repeat_command(&value(&event.payload)));
        let prior = claim.causation_id.as_deref().and_then(|cause| self.find(cause));
        occurrence_source(entry, claim, &source, &parent, MAX_TEXT_BYTES, &prior)
    }
}

fn requested() -> NewEvent {
    let request = id(900_001);
    NewEvent {
        session_id: Some("personal".into()),
        task_id: Some(format!("repeat_{request}")),
        actor: EventActor::User,
        kind: REPEAT_REQUESTED.into(),
        payload: parsed(&format!(
            "{{\"version\":1,\"command\":{{\"request_id\":\"{request}\",\
             \"session_id\":\"personal\",\"text\":\"read scoped evidence\",\
             \"due_at\":\"2026-09-09T00:00:00Z\",\"expires_at\":\"2026-09-09T00:00:30Z\",\
             \"every_seconds\":60,\"occurrences\":1000}}}}"
        )),
        causation_id: None,
        correlation_id: None,
    }
}

fn claim(parent: &RepeatEntry, child: &str, run: &str) -> NewEvent {
    let observed =
        parent.timing.window(parent.next_occurrence).map(|window| window.0).unwrap_or(0);
    let mut payload = parsed(&format!(
        "{{\"version\":1,\"parent_request_id\":\"{}\",\"source_event_id\":\"{}\",\
         \"occurrence\":{},\"run_request_id\":\"{run}\",\"observed_at_ms\":{observed}}}",
        parent.request_id, parent.source_event_id, parent.next_occurrence,
    ));
    payload["progress"] = value(&parent.claim_progress(child));
    NewEvent {
        session_id: Some(parent.session_id.clone()),
        task_id: Some(format!("schedule_{child}")),
        actor: EventActor::Scheduler,
        kind: OCCURRENCE_CLAIMED.into(),
        payload,
        causation_id: Some(parent.last_event_id.clone()),
        correlation_id: None,
    }
}

fn skip(parent: &RepeatEntry, through: u32) -> NewEvent {
    let mut payload = parsed(&format!(
        "{{\"version\":1,\"source_event_id\":\"{}\",\"from_occurrence\":{},\
         \"through_occurrence\":{through},\"observed_at_ms\":{}}}",
        parent.source_event_id,
        parent.next_occurrence,
        parent.timing.window(through).unwrap().1,
    ));
    payload["progress"] = value(&parent.skip_progress(through).unwrap());
    NewEvent {
        session_id: Some(parent.session_id.clone()),
        task_id: Some(format!("repeat_{}", parent.request_id)),
        actor: EventActor::Scheduler,
        kind: REPEAT_SKIPPED.into(),
        payload,
        causation_id: Some(parent.last_event_id.clone()),
        correlation_id: None,
    }
}

fn cancel(parent: &RepeatEntry) -> NewEvent {
    let mut payload =
        parsed(&format!("{{\"version\":1,\"source_event_id\":\"{}\"}}", parent.source_event_id));
    payload["progress"] = value(&parent.progress());
    NewEvent {
        session_id: Some(parent.session_id.clone()),
        task_id: Some(format!("repeat_{}", parent.request_id)),
        actor: EventActor::User,
        kind: REPEAT_CANCELLED.into(),
        payload,
        causation_id: Some(parent.last_event_id.clone()),
        correlation_id: None,
    }
}

fn same_progress(a: &RepeatEntry, b: &RepeatEntry) -> bool {
    value(&a.progress()) == value(&b.progress())
}

#[test]
fn fixed_anchor_expiry_is_exclusive_and_extreme_downtime_is_bounded() {
    let source = requested();
    let command = repeat_command(&source.payload).unwrap();
    let timing = RepeatTiming::new(&command).unwrap();
    assert_eq!(timing.expired_through(i64::MIN).unwrap(), 0);
    assert_eq!(timing.expired_through(timing.first_expiry_ms - 1).unwrap(), 0);
    assert_eq!(timing.expired_through(timing.first_expiry_ms).unwrap(), 1);
    let (due, expiry) = timing.window(999).unwrap();
    assert_eq!(due, timing.first_due_ms + 998 * 60_000);
    assert_eq!(timing.expired_through(due).unwrap(), 998);
    assert_eq!(timing.expired_through(expiry).unwrap(), 999);
    assert_eq!(timing.expired_through(i64::MAX).unwrap(), 1000);
    assert!(timing.window(0).is_err());
    assert!(timing.window(1001).is_err());
    let corrupt = RepeatTiming { interval_ms: 0, ..timing };
    assert!(corrupt.expired_through(i64::MAX).is_err());
    assert!(corrupt.window(1).is_err());
}

#[test]
fn claim_journal_child_and_parent_progress_commit_or_rollback_together() {
    let mut store = Journal::default();
    let source = store.append(requested()).unwrap();
    let parent = store.repeat(&source);
    let child = id(900_002);
    let run = id(900_003);
    let valid = claim(&parent, &child, &run);
    for field in
        ["progress", "occurrence", "observed_at_ms", "parent_request_id", "source_event_id"]
    {
        let mut invalid = valid.clone();
        invalid.payload[field] = Value::from(0);
        assert!(store.append(invalid).is_err(), "{field}");
        assert_eq!(store.events.len(), 1);
        assert!(store.schedule(&child).is_none());
        assert!(!store.runs.contains(&run));
        assert!(same_progress(&store.repeat(&source), &parent));
    }
    for variation in 0..4 {
        let mut invalid = valid.clone();
        match variation {
            0 => invalid.actor = EventActor::User,
            1 => invalid.session_id = Some("other".into()),
            2 => invalid.causation_id = None,
            _ => invalid.correlation_id = Some("turn_forged".into()),
        }
        assert!(store.append(invalid).is_err());
        assert_eq!(store.events.len(), 1);
    }
    let claimed = store.append(valid.clone()).unwrap();
    assert!(store.append(valid).is_err());
    assert_eq!(store.events.len(), 2);
    assert_eq!(store.repeat(&source).claimed, 1);
    let indexed = store.schedule(&child).unwrap();
    assert_eq!(indexed.state, ScheduleState::Claimed);
    assert_eq!(indexed.source_event_id, claimed.event_id);
    let derived = store.occurrence(&indexed, &claimed).unwrap();
    assert_eq!(derived.text, "read scoped evidence");
    let parent = store.repeat(&source);
    // A unique run reservation failure must not consume the next ordinal.
    assert!(store.append(claim(&parent, &id(900_004), &run)).is_err());
    assert_eq!(store.events.len(), 2);
    assert!(same_progress(&store.repeat(&source), &parent));
}

#[test]
fn deleted_indexes_rebuild_mixed_claims_missed_ranges_and_cancellation_from_journal() {
    let mut store = Journal::default();
    let source = store.append(requested()).unwrap();
    store.append(skip(&store.repeat(&source), 998)).unwrap();
    let child = id(900_002);
    let run = id(900_003);
    let claimed = store.append(claim(&store.repeat(&source), &child, &run)).unwrap();
    store.append(cancel(&store.repeat(&source))).unwrap();
    let before = store.repeat(&source);
    store.rebuild();
    let restored = store.repeat(&source);
    assert!(same_progress(&restored, &before));
    assert_eq!(restored.state, RepeatState::Cancelled);
    assert_eq!(restored.missed, 998);
    assert_eq!(restored.claimed, 1);
    assert_eq!(restored.next_occurrence, 1000);
    assert_eq!(store.events.len(), 4);
    assert_eq!(store.future(), 0);
    store.verified_repeat(&restored).unwrap();
    let indexed = store.schedule(&child).unwrap();
    store.occurrence(&indexed, &claimed).unwrap();
    assert!(store.runs.contains(&run));
    assert!(store.append(claim(&restored, &id(900_005), &id(900_006))).is_err());
}

#[test]
fn cached_progress_and_child_scope_are_bound_to_immutable_records() {
    let mut store = Journal::default();
    let source = store.append(requested()).unwrap();
    let child = id(900_002);
    let claimed = store.append(claim(&store.repeat(&source), &child, &id(900_003))).unwrap();
    let parent = store.repeat(&source);
    store.verified_repeat(&parent).unwrap();
    for change in 0..5 {
        let mut drifted = parent.clone();
        match change {
            0 => {
                drifted.claimed = 0;
                drifted.missed = 1;
                drifted.last_child_id = None;
            }
            1 => drifted.state = RepeatState::Cancelled,
            2 => drifted.last_child_id = Some(id(900_007)),
            3 => drifted.timing.first_due_ms += 1,
            _ => drifted.session_id = "other".into(),
        }
        assert!(store.verified_repeat(&drifted).is_err());
    }
    let child = store.schedule(&child).unwrap();
    for change in 0..4 {
        let mut drifted = child.clone();
        match change {
            0 => drifted.session_id = "other".into(),
            1 => drifted.request_id = id(900_008),
            2 => drifted.run_request_id = id(900_009),
            _ => drifted.due_at_ms += 1,
        }
        assert!(store.occurrence(&drifted, &claimed).is_err());
    }
}

fn one_shot(request: &str, run: &str) -> NewEvent {
    NewEvent {
        session_id: Some("personal".into()),
        task_id: Some(format!("schedule_{request}")),
        actor: EventActor::User,
        kind: "schedule.requested".into(),
        payload: parsed(&format!(
            "{{\"version\":1,\"command\":{{\"request_id\":\"{request}\",\
             \"session_id\":\"personal\",\"text\":\"a bounded request\",\
             \"due_at\":\"2026-09-08T00:00:00Z\",\"expires_at\":\"2026-09-08T01:00:00Z\"}},\
             \"run_request_id\":\"{run}\"}}"
        )),
        causation_id: None,
        correlation_id: None,
    }
}

fn transition(kind: &str, actor: EventActor, row: &ScheduleEntry) -> NewEvent {
    NewEvent {
        session_id: Some(row.session_id.clone()),
        task_id: Some(format!("schedule_{}", row.request_id)),
        actor,
        kind: kind.into(),
        payload: parsed("{\"version\":1}"),
        causation_id: Some(row.last_event_id.clone()),
        correlation_id: None,
    }
}

#[test]
fn a_refused_transition_leaves_journal_and_index_alone() {
    let mut store = Journal::default();
    let request = id(900_001);
    let run = id(900_002);
    store.append(one_shot(&request, &run)).unwrap();
    let pending = store.schedule(&request).unwrap();
    assert_eq!(pending.state, ScheduleState::Pending);
    assert_eq!(pending.due_at_ms, 1_788_825_600_000);
    assert_eq!(pending.expires_at_ms, 1_788_829_200_000);
    let mut claim = transition("schedule.claimed", EventActor::User, &pending);
    assert_eq!(store.append(claim.clone()).unwrap_err(), EventStoreError::InvalidSchedule);
    assert_eq!(store.events.len(), 1);
    assert_eq!(store.future(), 1);
    claim.actor = EventActor::Scheduler;
    let claimed = store.append(claim).unwrap();
    assert_eq!(store.events.len(), 2);
    assert_eq!(store.future(), 0);
    assert!(store.runs.contains(&run));
    store.rebuild();
    let restored = store.schedule(&request).unwrap();
    assert_eq!(restored.state, ScheduleState::Claimed);
    assert_eq!(restored.last_event_id, claimed.event_id);
    assert_eq!(restored.run_request_id, run);
    assert_eq!(restored.due_at_ms, pending.due_at_ms);
}

#[test]
fn one_shot_requests_are_checked() {
    let refusal = |change: &dyn Fn(&mut NewEvent)| {
        let mut event = one_shot(&id(900_001), &id(900_002));
        change(&mut event);
        Journal::default().append(event).unwrap_err()
    };
    let invalid = EventStoreError::InvalidSchedule;
    assert_eq!(refusal(&|e| e.session_id = None), invalid);
    assert_eq!(refusal(&|e| e.session_id = Some("other".into())), invalid);
    assert_eq!(refusal(&|e| e.task_id = Some("task".into())), invalid);
    assert_eq!(refusal(&|e| e.task_id = Some("schedule_x".into())), invalid);
    assert_eq!(refusal(&|e| e.actor = EventActor::Model), invalid);
    assert_eq!(refusal(&|e| e.causation_id = Some(id(1))), invalid);
    assert_eq!(refusal(&|e| e.payload["version"] = Value::from(2)), invalid);
    assert_eq!(refusal(&|e| e.payload["run_request_id"] = Value::from("run")), invalid);
    let at = |text: &'static str| move |e: &mut NewEvent| {
        e.payload["command"]["expires_at"] = Value::from(text);
    };
    assert_eq!(refusal(&at("2026-09-08T00:00:00Z")), invalid);
    assert_eq!(refusal(&at("2026-09-08T01:00:00.0001Z")), invalid);
    assert_eq!(refusal(&at("tomorrow")), EventStoreError::Payload);
}

#[test]
fn no_more_than_the_allowed_number_of_schedules_is_pending() {
    let mut store = Journal::default();
    for index in 0..MAX_PENDING_SCHEDULES as u128 {
        store.append(one_shot(&id(1_000 + index), &id(2_000 + index))).unwrap();
    }
    assert_eq!(
        store.append(one_shot(&id(3_000), &id(4_000))).unwrap_err(),
        EventStoreError::InvalidSchedule
    );
    assert_eq!(store.append(requested()).unwrap_err(), EventStoreError::InvalidSchedule);
    let rows: Vec<ScheduleEntry> = store.schedules.values().cloned().collect();
    assert_eq!(check_pending(rows.clone()).unwrap().len(), MAX_PENDING_SCHEDULES);
    let mut more = rows;
    more.push(more[0].clone());
    assert_eq!(check_pending(more).unwrap_err(), EventStoreError::InvalidSchedule);
}

#[test]
fn no_more_than_the_allowed_number_of_repeats_is_active() {
    let mut store = Journal::default();
    let source = store.append(requested()).unwrap();
    let row = store.repeat(&source);
    let full: Vec<RepeatEntry> = vec![row.clone(); MAX_PENDING_SCHEDULES];
    assert_eq!(check_active(full).unwrap().len(), MAX_PENDING_SCHEDULES);
    let over: Vec<RepeatEntry> = vec![row; MAX_PENDING_SCHEDULES + 1];
    assert_eq!(check_active(over).unwrap_err(), EventStoreError::InvalidSchedule);
}

#[test]
fn states_follow_one_another_and_settled_ones_stay() {
    let pending = ScheduleState::Pending;
    assert_eq!(
        next_state(pending, "schedule.claimed"),
        Some((ScheduleState::Claimed, EventActor::Scheduler))
    );
    assert_eq!(
        next_state(pending, "schedule.missed"),
        Some((ScheduleState::Missed, EventActor::Scheduler))
    );
    assert_eq!(next_state(pending, "schedule.requested"), None);
    for settled in [ScheduleState::Cancelled, ScheduleState::Missed] {
        for kind in [
            "schedule.claimed",
            "schedule.cancel_requested",
            "schedule.cancelled",
            "schedule.missed",
        ] {
            assert_eq!(next_state(settled, kind), None);
        }
    }
    for state in [
        ScheduleState::Pending,
        ScheduleState::Claimed,
        ScheduleState::CancelRequested,
        ScheduleState::Cancelled,
        ScheduleState::Missed,
    ] {
        assert_eq!(ScheduleState::from_name(state.as_str()), Some(state));
        assert!(is_schedule_kind(state.event_kind()));
    }
    assert_eq!(ScheduleState::from_name("done"), None);
    assert_eq!(ScheduleState::Pending.event_kind(), "schedule.requested");
    assert_eq!(ScheduleState::CancelRequested.event_kind(), "schedule.cancel_requested");
}

#[test]
fn repeats_end_when_every_occurrence_is_settled() {
    let mut store = Journal::default();
    let source = store.append(requested()).unwrap();
    assert_eq!(store.repeat(&source).state, RepeatState::Active);
    store.append(skip(&store.repeat(&source), 999)).unwrap();
    let child = id(900_002);
    store.append(claim(&store.repeat(&source), &child, &id(900_003))).unwrap();
    let ended = store.repeat(&source);
    assert_eq!(ended.state, RepeatState::Exhausted);
    assert_eq!((ended.claimed, ended.missed, ended.next_occurrence), (1, 999, 1001));
    assert_eq!(ended.last_child_id.as_deref(), Some(child.as_str()));
    store.verified_repeat(&ended).unwrap();
    assert!(ended.skip_progress(1001).is_err());
    assert!(store.append(claim(&ended, &id(900_004), &id(900_005))).is_err());
    store.append(cancel(&ended)).unwrap();
    let cancelled = store.repeat(&source);
    assert_eq!(cancelled.state, RepeatState::Cancelled);
    assert!(store.append(cancel(&cancelled)).is_err());
    assert_eq!(RepeatState::from_name("exhausted"), Some(RepeatState::Exhausted));
    assert_eq!(RepeatState::from_name(RepeatState::Active.as_str()), Some(RepeatState::Active));
    assert_eq!(RepeatState::from_name("idle"), None);
}

#[test]
fn skipped_ranges_begin_at_the_next_occurrence_and_have_closed() {
    let mut store = Journal::default();
    let source = store.append(requested()).unwrap();
    let parent = store.repeat(&source);
    let mut early = skip(&parent, 5);
    early.payload["observed_at_ms"] = Value::from(parent.timing.window(5).unwrap().1 - 1);
    assert!(store.append(early).is_err());
    let mut gap = skip(&parent, 5);
    gap.payload["from_occurrence"] = Value::from(2);
    assert!(store.append(gap).is_err());
    store.append(skip(&parent, 5)).unwrap();
    let moved = store.repeat(&source);
    assert_eq!((moved.missed, moved.next_occurrence), (5, 6));
    assert!(matches_progress(&moved.progress(), 6, 0, 5, &None));
    assert!(!matches_progress(&moved.progress(), 6, 0, 4, &None));
}

#[test]
fn timetables_are_bounded() {
    let command = repeat_command(&requested().payload).unwrap();
    let with = |change: &dyn Fn(&mut RepeatScheduleCommand)| {
        let mut changed = command.clone();
        change(&mut changed);
        RepeatTiming::new(&changed).err()
    };
    let rate =
        Some("repeat requires a 60-second to 31-day interval and 2 to 1000 occurrences");
    assert_eq!(with(&|c| c.every_seconds = 59), rate);
    assert_eq!(with(&|c| c.every_seconds = 2_678_401), rate);
    assert_eq!(with(&|c| c.occurrences = 1), rate);
    assert_eq!(with(&|c| c.occurrences = 1001), rate);
    let window = Some(
        "repeat times need millisecond precision and a positive window no longer than its \
         interval or 24 hours",
    );
    assert_eq!(with(&|c| c.expires_at = c.due_at), window);
    assert_eq!(with(&|c| c.expires_at.secs += 31), window);
    assert_eq!(with(&|c| c.due_at.nanos = 1), window);
    assert_eq!(with(&|c| c.expires_at.secs += 30), None);
    assert!(with(&|c| c.every_seconds = 86_400).is_some());
    assert_eq!(with(&|c| (c.every_seconds, c.occurrences) = (86_400, 366)), None);
    assert!(with(&|c| (c.every_seconds, c.occurrences) = (86_400, 367)).is_some());
}

fn event_row(recorded_at: &str, actor: &str, payload: Option<&str>) -> EventRow {
    EventRow {
        seq: 7,
        event_id: "event-7".to_owned(),
        recorded_at: recorded_at.to_owned(),
        session_id: Some("personal".to_owned()),
        task_id: None,
        actor: actor.to_owned(),
        kind: "user.input".to_owned(),
        payload: payload.and_then(|text| serde_json::from_str(text).ok()).map(|v| json(&v)),
        payload_bytes: 13,
        causation_id: None,
        correlation_id: Some("correlation".to_owned()),
        span_id: None,
    }
}

#[test]
fn stored_columns_that_cannot_be_read_are_told_apart() {
    let record =
        read_event(event_row("2026-01-02T03:04:05.678Z", "scheduler", Some("{\"version\":1}")))
            .unwrap();
    assert_eq!(record.actor, EventActor::Scheduler);
    assert_eq!(record.recorded_at, Timestamp { secs: 1_767_323_045, nanos: 678_000_000 });
    assert!(has_version_one(&record.payload));
    assert_eq!(record.seq, 7);
    assert_eq!(record.event_id, "event-7");
    assert_eq!(record.session_id.as_deref(), Some("personal"));
    assert_eq!(record.task_id, None);
    assert_eq!(record.kind, "user.input");
    assert_eq!(record.payload_bytes, 13);
    assert_eq!(record.causation_id, None);
    assert_eq!(record.correlation_id.as_deref(), Some("correlation"));
    assert_eq!(record.span_id, None);
    assert_eq!(
        read_event(event_row("not-a-timestamp", "forged", None)).unwrap_err(),
        EventStoreError::InvalidActor("forged".to_owned())
    );
    assert_eq!(
        read_event(event_row("not-a-timestamp", "user", None)).unwrap_err(),
        EventStoreError::Timestamp
    );
    assert_eq!(
        read_event(event_row("2026-01-02T03:04:05Z", "user", Some("{not-json"))).unwrap_err(),
        EventStoreError::Payload
    );
    let shifted =
        read_event(event_row("2026-01-02T03:04:05+02:00", "user", Some("null"))).unwrap();
    assert_eq!(shifted.recorded_at.secs, 1_767_323_045 - 7_200);
}

#[test]
fn a_row_is_read_with_the_time_it_stands_for() {
    let time = Timestamp { secs: 5, nanos: 1 };
    let row = || event_row("whatever", "model", Some("{}"));
    assert_eq!(read_event_at(row(), Some(time)).unwrap().recorded_at, time);
    assert_eq!(read_event_at(row(), None).unwrap_err(), EventStoreError::Timestamp);
}

#[test]
fn stored_times_read_back() {
    let time = Timestamp { secs: 1_767_323_045, nanos: 678_000_000 };
    let text = encode_recorded_at(time);
    assert_eq!(text, "2026-01-02T03:04:05.678Z");
    let record = read_event(event_row(&text, "system", Some("{}"))).unwrap();
    assert_eq!(record.recorded_at, time);
}

#[test]
fn recorded_events_read_back() {
    let new_event = || ditto::events::record::NewEvent {
        session_id: Some("alpha".to_owned()),
        task_id: Some("task-1".to_owned()),
        actor: EventActor::System,
        kind: "task.completed".to_owned(),
        payload: Json::Object(vec![JsonField {
            name: "verified".to_owned(),
            value: Json::Bool(true),
        }]),
        payload_bytes: 17,
        causation_id: Some("cause".to_owned()),
        correlation_id: None,
        span_id: Some("span".to_owned()),
    };
    let record = record_event(new_event(), "id-1".to_owned(), 1_767_323_045_678).unwrap();
    assert_eq!(record.seq, 0);
    assert_eq!(record.recorded_at, Timestamp { secs: 1_767_323_045, nanos: 678_000_000 });
    let row = store_event(record);
    assert_eq!(row.recorded_at, "2026-01-02T03:04:05.678Z");
    assert_eq!(row.actor, "system");
    let read = read_event(EventRow { seq: 3, ..row }).unwrap();
    assert_eq!(read.seq, 3);
    assert_eq!(read.event_id, "id-1");
    assert_eq!(read.recorded_at, Timestamp { secs: 1_767_323_045, nanos: 678_000_000 });
    assert_eq!(read.session_id.as_deref(), Some("alpha"));
    assert_eq!(read.task_id.as_deref(), Some("task-1"));
    assert_eq!(read.actor, EventActor::System);
    assert_eq!(read.kind, "task.completed");
    assert!(matches!(read.payload.get("verified"), Some(Json::Bool(true))));
    assert_eq!(read.payload_bytes, 17);
    assert_eq!(read.causation_id.as_deref(), Some("cause"));
    assert_eq!(read.correlation_id, None);
    assert_eq!(read.span_id.as_deref(), Some("span"));
    assert!(record_event(new_event(), "id-2".to_owned(), i64::MAX).is_none());
}

#[test]
fn actors_are_stored_by_name() {
    for actor in [
        EventActor::User,
        EventActor::Model,
        EventActor::Capability,
        EventActor::Policy,
        EventActor::System,
        EventActor::Scheduler,
    ] {
        assert_eq!(EventActor::from_name(actor.as_str()), Some(actor));
    }
    assert_eq!(EventActor::from_name("User"), None);
}

#[test]
fn identities_are_written_in_one_way_only() {
    assert!(canonical_id("01ARZ3NDEKTSV4RRFFQ69G5FAV"));
    assert!(!canonical_id("01arz3ndektsv4rrffq69g5fav"));
    assert!(!canonical_id("O1ARZ3NDEKTSV4RRFFQ69G5FAV"));
    assert!(!canonical_id("01ARZ3NDEKTSV4RRFFQ69G5FA"));
    assert!(!canonical_id(""));
    assert!(canonical_id(&id(u128::MAX)));
    assert!(canonical_id(&format!("7{}", "Z".repeat(25))));
    assert!(!canonical_id(&format!("8{}", "Z".repeat(25))));
    assert!(!canonical_id(&format!("0{}", "U".repeat(25))));
    assert!(!canonical_id(&format!("0{}é", "0".repeat(23))));
}

#[test]
fn older_layouts_are_brought_up_and_newer_ones_refused() {
    let fresh = migration_steps(0).unwrap();
    assert!(fresh.events && fresh.append_only && fresh.schedules && fresh.repeats);
    let five = migration_steps(5).unwrap();
    assert!(!five.events && !five.append_only && !five.schedules && five.repeats);
    let current = migration_steps(CURRENT_SCHEMA_VERSION).unwrap();
    assert!(!current.events && !current.repeats);
    assert_eq!(
        migration_steps(CURRENT_SCHEMA_VERSION + 1).err(),
        Some(EventStoreError::UnsupportedSchemaVersion { found: 7, supported: 6 })
    );
}

#[test]
fn pages_lie_between_the_cursor_and_the_high_water_mark() {
    assert_eq!(page_bounds(None, 10), (0, 10));
    assert_eq!(page_bounds(Some(4), 10), (4, 10));
}

#[test]
fn members_are_read_by_type() {
    let object = json(&parsed(
        "{\"text\":\"a\",\"small\":7,\"large\":4294967296,\"negative\":-3,\"half\":0.5}",
    ));
    assert_eq!(object.get_text("text").map(String::as_str), Some("a"));
    assert_eq!(object.get_text("small"), None);
    assert_eq!(object.get_number("small"), Some(7));
    assert_eq!(object.get_number("large"), None);
    assert_eq!(object.get_integer("large"), Some(4_294_967_296));
    assert_eq!(object.get_integer("negative"), Some(-3));
    assert_eq!(object.get_integer("half"), None);
    assert!(object.get("missing").is_none());
    assert!(Json::Null.get("text").is_none());
}

#[test]
fn only_the_counters_that_an_event_moves_need_room() {
    let mut store = Journal::default();
    let source = store.append(requested()).unwrap();
    let row = store.repeat(&source);
    let skipped = record(2, &skip(&row, 998));
    let claimed = record(2, &claim(&row, &id(900_002), &id(900_003)));
    let cancelled = record(2, &cancel(&row));
    let with = |change: &dyn Fn(&mut RepeatEntry)| {
        let mut changed = row.clone();
        change(&mut changed);
        changed
    };
    assert!(row.has_room(&skipped) && row.has_room(&claimed) && row.has_room(&cancelled));
    assert!(with(&|r| r.missed = u32::MAX - 998).has_room(&skipped));
    assert!(!with(&|r| r.missed = u32::MAX - 997).has_room(&skipped));
    assert!(with(&|r| r.missed = u32::MAX).has_room(&claimed));
    assert!(!with(&|r| r.claimed = u32::MAX).has_room(&claimed));
    assert!(with(&|r| r.claimed = u32::MAX).has_room(&skipped));
    assert!(with(&|r| (r.claimed, r.missed) = (u32::MAX, u32::MAX)).has_room(&cancelled));
    let mut stale = with(&|r| (r.claimed, r.missed) = (u32::MAX, u32::MAX));
    stale.last_event_id = "elsewhere".to_owned();
    assert!(stale.has_room(&skipped) && stale.has_room(&claimed));
}

#[test]
fn stored_times_keep_their_milliseconds_within_the_written_years() {
    let event = ditto::events::record::NewEvent {
        session_id: None,
        task_id: None,
        actor: EventActor::Model,
        kind: "model.output".to_owned(),
        payload: json(&parsed("{\"share\":0.375,\"parts\":[1e300,-2.5]}")),
        payload_bytes: 35,
        causation_id: None,
        correlation_id: None,
        span_id: None,
    };
    let mut record = record_event(event, "id-1".to_owned(), 0).unwrap();
    record.recorded_at = Timestamp { secs: 1_767_323_045, nanos: 678_999_999 };
    let read = read_event(store_event(record)).unwrap();
    assert_eq!(read.recorded_at, Timestamp { secs: 1_767_323_045, nanos: 678_000_000 });
    assert_eq!(value(&read.payload), parsed("{\"share\":0.375,\"parts\":[1e300,-2.5]}"));

    let at = |secs: i64| {
        let row = event_row(&encode_recorded_at(Timestamp { secs, nanos: 0 }), "user", Some("1"));
        read_event(row).map(|record| record.recorded_at.secs)
    };
    assert_eq!(at(253_402_300_799), Ok(253_402_300_799));
    assert_eq!(at(253_402_300_800), Err(EventStoreError::Timestamp));
    assert_eq!(at(-62_167_219_200), Ok(-62_167_219_200));
    assert_eq!(at(-62_167_219_201), Err(EventStoreError::Timestamp));
}
