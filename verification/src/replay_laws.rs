//! What a recovery leaves behind of each event that it replays.

use vstd::prelude::*;

use crate::commit_laws::commit_batch_tags;
use crate::encoding::{be8, be8_round_trip};
use crate::errors::MetastoreError;
use crate::event_keys::{did_events_key_bytes, rev_to_seq_key_bytes};
use crate::event_ops::{applied_cursor, cursor_write, sidecar_writes};
use crate::events::Entry;
use crate::keys::{did_hash, KeyTag};
use crate::recovery::{repo_writes, MutationSet};
use crate::replay::{base_meta, replay_all, replayed, ReplayState};
use crate::repo_meta::repo_meta_key_bytes;
use crate::store::{lookup, write_rows_frame, write_rows_last, writes_key, WriteView};

verus! {

/// The writes of a replayed event's commit.
spec fn changes_of(s: ReplayState, e: Entry) -> Seq<WriteView> {
    match e.mutation_set {
        None => Seq::empty(),
        Some(b) => match MutationSet::read(b) {
            None => Seq::empty(),
            Some(ms) => repo_writes(
                did_hash(e.event.did),
                base_meta(s.repo_data.rows, e.event.did),
                ms,
            ),
        },
    }
}

/// An event that was replayed is found among its account's, and under its revision where it has
/// one; and the cursor is at it.
pub proof fn replayed_event_is_indexed(s: ReplayState, e: Entry)
    requires
        replayed(s, e) is Ok,
    ensures
        ({
            let rows = replayed(s, e)->Ok_0.repo_data.rows;
            let hash = did_hash(e.event.did);
            let seq = e.event.seq as u64;
            &&& applied_cursor(rows) == Ok::<Option<u64>, MetastoreError>(Some(seq))
            &&& lookup(rows, did_events_key_bytes(hash, seq)) is Some
            &&& e.event.rev matches Some(rev) ==> lookup(rows, rev_to_seq_key_bytes(hash, rev))
                == Some(be8(seq))
        }),
{
    reveal(replayed);
    let hash = did_hash(e.event.did);
    let seq = e.event.seq as u64;
    let index = sidecar_writes(e.event.did, e.event.rev, seq);
    let changes = changes_of(s, e);
    let ws = (index + changes).push(cursor_write(seq));
    assert(index + Seq::<WriteView>::empty() =~= index);
    assert(replayed(s, e)->Ok_0.repo_data == s.repo_data.commit(ws));
    let m = s.repo_data.rows;
    be8_round_trip(seq);
    write_rows_last(m, ws, ws.len() - 1);
    assert(writes_key(ws.last())[0] == KeyTag::MetastoreCursor.byte());
    assert forall|j: int| index.len() <= j < ws.len() implies ({
        let tag = writes_key(#[trigger] ws[j])[0];
        tag != KeyTag::DidEvents.byte() && tag != KeyTag::RevToSeq.byte()
    }) by {
        let k = j - index.len();
        if k < changes.len() {
            assert(ws[j] == changes[k]);
            if k > 0 {
                let ms = MutationSet::read(e.mutation_set->0)->0;
                commit_batch_tags(hash, base_meta(m, e.event.did), ms, k);
            } else {
                assert(writes_key(ws[j]) == repo_meta_key_bytes(hash));
            }
        }
    }
    assert(ws[0] == index[0]);
    assert(writes_key(ws[0]) == did_events_key_bytes(hash, seq));
    assert(writes_key(ws[0])[0] == KeyTag::DidEvents.byte());
    if let Some(rev) = e.event.rev {
        assert(ws[1] == index[1]);
        assert(index.len() == 2);
        assert(writes_key(ws[1]) == rev_to_seq_key_bytes(hash, rev));
        assert(writes_key(ws[1])[0] == KeyTag::RevToSeq.byte());
        write_rows_last(m, ws, 1);
    } else {
        assert(index.len() == 1);
    }
    write_rows_last(m, ws, 0);
}

/// Once all pending events were replayed, the cursor is at the last of them.
pub proof fn replayed_events_end_at_last(s: ReplayState, pending: Seq<Entry>)
    requires
        pending.len() > 0,
        replay_all(s, pending).0 is Ok,
    ensures
        applied_cursor(replay_all(s, pending).1.repo_data.rows) == Ok::<
            Option<u64>,
            MetastoreError,
        >(Some(pending.last().event.seq as u64)),
    decreases pending.len(),
{
    if let Ok(t) = replayed(s, pending[0]) {
        let rest = pending.skip(1);
        if rest.len() == 0 {
            replayed_event_is_indexed(s, pending[0]);
        } else {
            replayed_events_end_at_last(t, rest);
            assert(rest.last() == pending.last());
        }
    }
}

/// An event without a commit is always replayed, and changes neither links nor repositories.
pub proof fn plain_event_is_replayed(s: ReplayState, e: Entry, hash: u64)
    requires
        e.mutation_set is None,
    ensures
        replayed(s, e) matches Ok(t) && t.indexes == s.indexes && lookup(
            t.repo_data.rows,
            repo_meta_key_bytes(hash),
        ) == lookup(s.repo_data.rows, repo_meta_key_bytes(hash)),
{
    reveal(replayed);
    let seq = e.event.seq as u64;
    let key = repo_meta_key_bytes(hash);
    let index = sidecar_writes(e.event.did, e.event.rev, seq);
    let ws = index.push(cursor_write(seq));
    assert(key[0] == KeyTag::RepoMeta.byte());
    assert forall|j: int| 0 <= j < ws.len() implies writes_key(#[trigger] ws[j]) != key by {
        if j < index.len() {
            crate::commit_laws::index_tags(e.event.did, e.event.rev, seq, j);
            assert(ws[j] == index[j]);
        } else {
            assert(writes_key(ws[j])[0] == KeyTag::MetastoreCursor.byte());
        }
    }
    write_rows_frame(s.repo_data.rows, ws, key);
}

/// An event whose commit cannot be read stops the replay, and says so with its number; what was
/// replayed before it stays.
pub proof fn unreadable_commit_stops_replay(s: ReplayState, done: Seq<Entry>, e: Entry, rest: Seq<Entry>)
    requires
        replay_all(s, done).0 is Ok,
        e.mutation_set matches Some(b) && MutationSet::read(b) is None,
    ensures
        replay_all(s, done + seq![e] + rest).0 is Err,
        replay_all(s, done + seq![e] + rest).1 == replay_all(s, done).1,
{
    let last = seq![e] + rest;
    assert(done + seq![e] + rest =~= done + last);
    crate::replay::replay_all_concat(s, done, last);
    reveal(replayed);
    assert(last[0] == e);
}

} // verus!
