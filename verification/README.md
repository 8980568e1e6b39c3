# ditto

The core of a personal agent runtime, written in Verus. The rules that decide
what an agent may do, what it is told and what it remembers stand in `src/`, each
with a contract that Verus proves. `app/` is the ordinary Rust around them:
SQLite, the file system, processes, JSON and floating-point scores.

## Layout

- `src/effect_policy.rs`, `src/executor.rs`: capability leases, and which
  processes run under them.
- `src/context/`: context nodes, their validity and cost, the compiler that
  selects them for a task, rankings for a query, and the validation of both.
- `src/events/`: journal records, schedules and repeating schedules.
- `src/projection/`: the cache of recorded nodes that is derived from the
  journal: decoding, the session index and its digests, catching up, verified
  snapshots, audits and admission of new nodes.
- `src/private_path.rs`: which paths are private enough for a database.
- `src/text.rs`, `src/time.rs`, `src/binary32.rs`, `src/order.rs`,
  `src/table.rs`, `src/retrieval.rs`: what these build on.

Functions that need input or output are machines: a state, an event, and the
next action. `app/` performs the action and hands back the event.

Laws that span functions are public proof functions next to what they speak of,
for instance that validation accepts what the compiler makes
(`context/laws.rs`), that the order of candidates decides nothing
(`context/independence.rs`), that a replayed cache verifies
(`projection/replay.rs`), that a synchronization ends at its high-water
(`projection/sync.rs`), that a cache is determined by the journal however it was
filled (`projection/journal.rs`), and that its snapshots hold the journal's live
nodes (`projection/held.rs`).

## What is trusted

A few wrappers around std, `chrono`, `ulid` and `sha2` state what those functions
promise: `push_char` in `text.rs`, the conversions in `time.rs`, `is_alphanumeric`
and `to_lowercase` in `context/signature.rs`, `parse_ulid` and `write_ulid` in
`events/record.rs`, `from_utf8_lossy` in `executor.rs`, and `sha256` in
`projection/digest.rs`.

Scores arrive as the bits of 32-bit floating-point numbers (`Binary32`): the
library orders and compares them, and never computes with them.
