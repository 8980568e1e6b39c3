//! Verifying a whole stored index and loading the identities it holds.

use vstd::prelude::*;

use crate::projection::checkpoint::ProjectionCheckpoint;
use crate::projection::digest::{
    advance_state_digest, advanced_digest, empty_digest, empty_state_digest, same_digest,
    GLOBAL_INDEX_DIGEST_DOMAIN,
};
use crate::projection::error::ContextProjectionError;
use crate::projection::identity::{IdentityIndex, IdentityModel, SessionIndexIdentity};
use crate::projection::index::{
    advance_refusal, advance_session_index_state, advanced_state, advances, corrupt,
    read_session_index_state, state_model, validated_session_index_entry, RawSessionIndexEntry,
    RawSessionIndexState, SessionIndexState, StateModel,
};
use crate::table::TextTable;
use crate::text::{copy_optional_text, same_text};

verus! {

/// The digest over all entries, in order.
pub open spec fn index_digest(rows: Seq<RawSessionIndexEntry>) -> Seq<u8>
    decreases rows.len(),
{
    if rows.len() == 0 {
        empty_digest(GLOBAL_INDEX_DIGEST_DOMAIN@)
    } else {
        advanced_digest(
            GLOBAL_INDEX_DIGEST_DOMAIN@,
            index_digest(rows.drop_last()),
            rows.last().entry(),
        )
    }
}

/// The state of a session after all its entries, in order.
pub open spec fn session_state(rows: Seq<RawSessionIndexEntry>, session: Seq<char>) -> Option<
    StateModel,
>
    decreases rows.len(),
{
    if rows.len() == 0 {
        None
    } else if rows.last().session_id@ == session {
        Some(advanced_state(session_state(rows.drop_last(), session), rows.last().entry()))
    } else {
        session_state(rows.drop_last(), session)
    }
}

/// The sessions of the entries, in order of their first entry.
pub open spec fn sessions_of(rows: Seq<RawSessionIndexEntry>) -> Seq<Seq<char>>
    decreases rows.len(),
{
    if rows.len() == 0 {
        Seq::empty()
    } else {
        let before = sessions_of(rows.drop_last());
        if before.contains(rows.last().session_id@) {
            before
        } else {
            before.push(rows.last().session_id@)
        }
    }
}

/// Where the entries record a node of a session.
pub open spec fn identity_in(
    rows: Seq<RawSessionIndexEntry>,
    session: Seq<char>,
    node: Seq<char>,
) -> Option<IdentityModel>
    decreases rows.len(),
{
    if rows.len() == 0 {
        None
    } else if rows.last().session_id@ == session && rows.last().node_id@ == node {
        Some(
            IdentityModel {
                task_id: rows.last().entry().task_id,
                event_seq: rows.last().event_seq,
                event_id: rows.last().event_id@,
            },
        )
    } else {
        identity_in(rows.drop_last(), session, node)
    }
}

/// Entry `i` is verified, advances its session, and records a new identity.
pub open spec fn row_fine(rows: Seq<RawSessionIndexEntry>, i: int) -> bool {
    &&& rows[i].verified()
    &&& advances(session_state(rows.take(i), rows[i].session_id@), rows[i].entry())
    &&& identity_in(rows.take(i), rows[i].session_id@, rows[i].node_id@) is None
}

/// Every entry is fine.
pub open spec fn rows_fine(rows: Seq<RawSessionIndexEntry>) -> bool {
    forall|i: int| 0 <= i < rows.len() ==> #[trigger] row_fine(rows, i)
}

/// The error reports entry `i`, the first that is not fine.
pub open spec fn reports_row(
    e: ContextProjectionError,
    rows: Seq<RawSessionIndexEntry>,
    i: int,
) -> bool {
    &&& 0 <= i < rows.len()
    &&& forall|j: int| 0 <= j < i ==> #[trigger] row_fine(rows, j)
    &&& if !rows[i].verified() {
        rows[i].refusal(e)
    } else if !advances(session_state(rows.take(i), rows[i].session_id@), rows[i].entry()) {
        advance_refusal(session_state(rows.take(i), rows[i].session_id@), rows[i].entry(), e)
    } else {
        &&& !row_fine(rows, i)
        &&& corrupt(
            e,
            rows[i].event_seq,
            "compact session index contains a duplicate identity"@,
        )
    }
}

/// The stored state of a session: the first row of that name.
pub open spec fn stored_for(
    stored: Seq<RawSessionIndexState>,
    session: Seq<char>,
    from: int,
) -> Option<RawSessionIndexState>
    decreases stored.len() - from,
{
    if from < 0 || from >= stored.len() {
        None
    } else if stored[from].session_id@ == session {
        Some(stored[from])
    } else {
        stored_for(stored, session, from + 1)
    }
}

/// The session's stored state is the one that its entries lead to.
pub open spec fn state_confirmed(
    rows: Seq<RawSessionIndexEntry>,
    stored: Seq<RawSessionIndexState>,
    session: Seq<char>,
) -> bool {
    stored_for(stored, session, 0) matches Some(raw) && raw.readable() && Some(raw.state())
        == session_state(rows, session)
}

/// The totals of the stored index are those of its entries.
pub open spec fn totals_confirmed(
    rows: Seq<RawSessionIndexEntry>,
    digest: Seq<u8>,
    projected_count: i64,
    stored: Seq<RawSessionIndexState>,
) -> bool {
    &&& index_digest(rows) == digest
    &&& projected_count == rows.len()
    &&& stored.len() == sessions_of(rows).len()
}

/// The result of verifying and loading a stored index: the entries decide in
/// order, then the totals, then the states of the sessions in order of their
/// first entry.
pub open spec fn load_outcome(
    rows: Seq<RawSessionIndexEntry>,
    digest: Seq<u8>,
    through_seq: i64,
    projected_count: i64,
    stored: Seq<RawSessionIndexState>,
    r: Result<IdentityIndex, ContextProjectionError>,
) -> bool {
    match r {
        Ok(index) => {
            &&& rows_fine(rows)
            &&& totals_confirmed(rows, digest, projected_count, stored)
            &&& forall|k: int|
                0 <= k < sessions_of(rows).len() ==> state_confirmed(
                    rows,
                    stored,
                    #[trigger] sessions_of(rows)[k],
                )
            &&& index.well_formed()
            &&& index.size() == rows.len()
            &&& forall|s: Seq<char>, n: Seq<char>| #[trigger]
                index.at(s, n) == identity_in(rows, s, n)
        },
        Err(e) => {
            ||| exists|i: int| #[trigger] reports_row(e, rows, i)
            ||| {
                &&& rows_fine(rows)
                &&& !totals_confirmed(rows, digest, projected_count, stored)
                &&& e == ContextProjectionError::SessionIndexIntegrityMismatch {
                    high_water: through_seq,
                }
            }
            ||| {
                &&& rows_fine(rows)
                &&& totals_confirmed(rows, digest, projected_count, stored)
                &&& exists|k: int| #[trigger] reports_state(e, rows, through_seq, stored, k)
            }
        },
    }
}

/// The error reports the state of session `k`, the first that is not confirmed.
pub open spec fn reports_state(
    e: ContextProjectionError,
    rows: Seq<RawSessionIndexEntry>,
    through_seq: i64,
    stored: Seq<RawSessionIndexState>,
    k: int,
) -> bool {
    &&& 0 <= k < sessions_of(rows).len()
    &&& forall|j: int|
        0 <= j < k ==> state_confirmed(rows, stored, #[trigger] sessions_of(rows)[j])
    &&& !state_confirmed(rows, stored, sessions_of(rows)[k])
    &&& match stored_for(stored, sessions_of(rows)[k], 0) {
        Some(raw) => if raw.readable() {
            e == ContextProjectionError::SessionIndexIntegrityMismatch { high_water: through_seq }
        } else {
            raw.refusal(e)
        },
        None => e == ContextProjectionError::SessionIndexIntegrityMismatch {
            high_water: through_seq,
        },
    }
}

fn find_stored<'a>(stored: &'a Vec<RawSessionIndexState>, session: &str) -> (r: Option<
    &'a RawSessionIndexState,
>)
    ensures
        match stored_for(stored@, session@, 0) {
            Some(raw) => r is Some && *r->0 == raw,
            None => r is None,
        },
{
    let mut i: usize = 0;
    while i < stored.len()
        invariant
            0 <= i <= stored@.len(),
            stored_for(stored@, session@, 0) == stored_for(stored@, session@, i as int),
        decreases stored.len() - i,
    {
        if same_text(&stored[i].session_id, session) {
            return Some(&stored[i]);
        }
        i += 1;
    }
    None
}

/// The states that the table of running states holds.
spec fn states_match(
    states: &TextTable<SessionIndexState>,
    rows: Seq<RawSessionIndexEntry>,
) -> bool {
    &&& states.well_formed()
    &&& states.key_list() == sessions_of(rows)
    &&& forall|s: Seq<char>| state_model(#[trigger] states.at(s)) == session_state(rows, s)
}

/// Verifies every stored index entry in order, the digest over them all, the
/// counts, and the state of every session, and loads the identities.
pub fn load_verified_session_identities(
    rows: &Vec<RawSessionIndexEntry>,
    checkpoint: &ProjectionCheckpoint,
    projected_count: i64,
    stored: &Vec<RawSessionIndexState>,
) -> (r: Result<IdentityIndex, ContextProjectionError>)
    ensures
        load_outcome(
            rows@,
            checkpoint.canonical_state_digest@,
            checkpoint.through_seq,
            projected_count,
            stored@,
            r,
        ),
{
    let ghost all = rows@;
    let mut index = IdentityIndex::new();
    let mut states: TextTable<SessionIndexState> = TextTable::new();
    let mut digest: [u8; 32] = empty_state_digest(GLOBAL_INDEX_DIGEST_DOMAIN);
    let mut i: usize = 0;
    proof {
        assert(all.take(0) =~= Seq::empty());
        assert(states.key_list() =~= sessions_of(all.take(0)));
    }
    while i < rows.len()
        invariant
            all == rows@,
            0 <= i <= rows@.len(),
            forall|j: int| 0 <= j < i ==> #[trigger] row_fine(all, j),
            index.well_formed(),
            index.size() == i,
            forall|s: Seq<char>, n: Seq<char>| #[trigger]
                index.at(s, n) == identity_in(all.take(i as int), s, n),
            states_match(&states, all.take(i as int)),
            digest@ == index_digest(all.take(i as int)),
        decreases rows.len() - i,
    {
        let raw = &rows[i];
        let ghost before = all.take(i as int);
        let ghost after = all.take(i + 1);
        assert(after.drop_last() =~= before);
        assert(after.last() == *raw);
        let entry = match validated_session_index_entry(raw) {
            Ok(v) => v,
            Err(e) => {
                assert(reports_row(e, all, i as int));
                return Err(e);
            },
        };
        let prior: Option<SessionIndexState> = match states.get(&entry.session_id) {
            Some(s) => Some(s.clone()),
            None => None,
        };
        assert(state_model(prior) == state_model(states.at(entry.session_id@)));
        let state = match advance_session_index_state(&prior, &entry) {
            Ok(s) => s,
            Err(e) => {
                assert(reports_row(e, all, i as int));
                return Err(e);
            },
        };
        let ghost old_states = states;
        if prior.is_some() {
            states.replace(&entry.session_id, state);
        } else {
            let added = states.insert(entry.session_id.clone(), state);
            assert(added);
        }
        proof {
            assert(states.key_list() =~= sessions_of(after));
            assert forall|s: Seq<char>| state_model(#[trigger] states.at(s)) == session_state(
                after,
                s,
            ) by {
                assert(state_model(old_states.at(s)) == session_state(before, s));
            }
        }
        digest = advance_state_digest(GLOBAL_INDEX_DIGEST_DOMAIN, &digest, &entry);
        let added = index.insert(
            entry.session_id.clone(),
            entry.node_id.clone(),
            SessionIndexIdentity {
                task_id: copy_optional_text(&entry.task_id),
                event_seq: entry.event_seq,
                event_id: entry.event_id.clone(),
            },
        );
        if !added {
            let e = ContextProjectionError::CorruptProjectionRow {
                seq: entry.event_seq,
                reason: "compact session index contains a duplicate identity".to_owned(),
            };
            assert(reports_row(e, all, i as int));
            return Err(e);
        }
        assert(row_fine(all, i as int));
        i += 1;
    }
    assert(all.take(i as int) =~= all);
    let counted = projected_count >= 0 && projected_count as u64 == rows.len() as u64;
    if !same_digest(&digest, &checkpoint.canonical_state_digest) || !counted || stored.len()
        != states.len() {
        return Err(
            ContextProjectionError::SessionIndexIntegrityMismatch {
                high_water: checkpoint.through_seq,
            },
        );
    }
    let count: usize = states.len();
    let ghost sessions = sessions_of(all);
    let mut k: usize = 0;
    while k < count
        invariant
            all == rows@,
            rows_fine(all),
            totals_confirmed(
                all,
                checkpoint.canonical_state_digest@,
                projected_count,
                stored@,
            ),
            sessions == sessions_of(all),
            states_match(&states, all),
            count == sessions.len(),
            0 <= k <= count,
            forall|j: int| 0 <= j < k ==> state_confirmed(all, stored@, #[trigger] sessions[j]),
        decreases count - k,
    {
        let session = states.key_at(k);
        let expected = states.value_at(k);
        proof {
            states.lemma_key_found(k as int);
            assert(state_model(states.at(session@)) == session_state(all, session@));
        }
        match find_stored(stored, session) {
            None => {
                let e = ContextProjectionError::SessionIndexIntegrityMismatch {
                    high_water: checkpoint.through_seq,
                };
                assert(reports_state(e, all, checkpoint.through_seq, stored@, k as int));
                return Err(e);
            },
            Some(raw) => match read_session_index_state(raw) {
                Err(e) => {
                    assert(reports_state(e, all, checkpoint.through_seq, stored@, k as int));
                    return Err(e);
                },
                Ok(actual) => {
                    if !actual.equals(expected) {
                        let e = ContextProjectionError::SessionIndexIntegrityMismatch {
                            high_water: checkpoint.through_seq,
                        };
                        assert(reports_state(e, all, checkpoint.through_seq, stored@, k as int));
                        return Err(e);
                    }
                },
            },
        }
        k += 1;
    }
    Ok(index)
}

/// An index whose entries, totals and states are all in order loads.
pub proof fn sound_indexes_load(
    rows: Seq<RawSessionIndexEntry>,
    digest: Seq<u8>,
    through_seq: i64,
    projected_count: i64,
    stored: Seq<RawSessionIndexState>,
    r: Result<IdentityIndex, ContextProjectionError>,
)
    requires
        rows_fine(rows),
        totals_confirmed(rows, digest, projected_count, stored),
        forall|k: int|
            0 <= k < sessions_of(rows).len() ==> state_confirmed(
                rows,
                stored,
                #[trigger] sessions_of(rows)[k],
            ),
        load_outcome(rows, digest, through_seq, projected_count, stored, r),
    ensures
        r is Ok,
        r->Ok_0.size() == rows.len(),
{
    if let Err(e) = r {
        if exists|i: int| #[trigger] reports_row(e, rows, i) {
            let i = choose|i: int| #[trigger] reports_row(e, rows, i);
            assert(row_fine(rows, i));
            assert(false);
        }
        let k = choose|k: int| #[trigger] reports_state(e, rows, through_seq, stored, k);
        assert(reports_state(e, rows, through_seq, stored, k));
        assert(state_confirmed(rows, stored, sessions_of(rows)[k]));
        assert(false);
    }
}

/// A session of a verified index never exceeds its limits.
pub proof fn verified_sessions_are_bounded(rows: Seq<RawSessionIndexEntry>, session: Seq<char>)
    requires
        rows_fine(rows),
    ensures
        session_state(rows, session) matches Some(s) ==> s.entry_count
            <= crate::projection::index::MAX_SESSION_INDEX_IDENTITIES && s.accounted_bytes
            <= crate::projection::index::MAX_SESSION_INDEX_BYTES,
    decreases rows.len(),
{
    if rows.len() > 0 {
        let rest = rows.drop_last();
        let n = rest.len() as int;
        assert forall|i: int| 0 <= i < rest.len() implies #[trigger] row_fine(rest, i) by {
            assert(row_fine(rows, i));
            assert(rest.take(i) =~= rows.take(i));
        }
        verified_sessions_are_bounded(rest, session);
        assert(row_fine(rows, n));
        assert(rows.take(n) =~= rest);
    }
}

} // verus!
