//! What holds of events whatever was done before.

use vstd::prelude::*;

use crate::bytes::has_prefix;
use crate::encoding::{be8, be8_round_trip, second_number_round_trip};
use crate::errors::{DbErrorView, MetastoreError};
use crate::event_keys::{did_events_key_bytes, did_events_prefix_bytes, event_keys_injective};
use crate::event_keys::{rev_keys_injective, rev_to_seq_key_bytes, rev_to_seq_prefix_bytes};
use crate::event_keys::seq_tombstone_key_bytes;
use crate::event_ops::{alive, applied_cursor, blobs_of, cursor_write, deletion, unseen};
use crate::event_ops::{did_event_rows, index_writes, indexed_seq, largest, other_seq, page_writes, pending_events};
use crate::event_ops::{purge, rebuilt, recorded, removals, sidecar_recovery, sidecar_writes, stale_rev_key};
use crate::event_ops::{tombstone_writes, tombstoned, visible_event, EventState, RECOVERY_BATCH_SIZE};
use crate::eventlog::{after_from, after_is_exact, appended_in_sequence, entry_at, in_sequence};
use crate::eventlog::{limited, max_seq, numbered};
use crate::event_ops::{account_event, commit_event, genesis_event, identity_event, sync_event};
use crate::events::{AccountStatus, CommitEvent, Entry, Event};
use crate::keys::{did_hash, KeyTag};
use crate::scan::{collect_all, collected, Contribution};
use crate::store::{lookup, prefix_keys, scan, scan_lists, write_row, write_rows};
use crate::store::{write_rows_concat, write_rows_frame, write_rows_last, writes_key, KeyspaceView};
use crate::store::{write_one, RowView, Rows, WriteView};

verus! {

proof fn index_writes_shape(did: Seq<char>, rev: Option<Seq<char>>, seq: u64)
    ensures
        index_writes(did, rev, seq).len() >= 2,
        index_writes(did, rev, seq)[0] == (WriteView::Put {
            key: did_events_key_bytes(did_hash(did), seq),
            value: Seq::empty(),
        }),
        index_writes(did, rev, seq).last() == cursor_write(seq),
        forall|i: int|
            0 <= i < index_writes(did, rev, seq).len() ==> {
                let k = writes_key(#[trigger] index_writes(did, rev, seq)[i]);
                &&& k[0] != KeyTag::SeqTombstone.byte()
                &&& k[0] == KeyTag::MetastoreCursor.byte() <==> i == index_writes(
                    did,
                    rev,
                    seq,
                ).len() - 1
                &&& k[0] == KeyTag::DidEvents.byte() <==> i == 0
            },
{
}

/// The cursor that was written is the cursor that is read.
pub proof fn cursor_round_trip(ks: KeyspaceView, seq: u64)
    ensures
        applied_cursor(ks.commit(seq![cursor_write(seq)]).rows) == Ok::<Option<u64>, MetastoreError>(
            Some(seq),
        ),
{
    write_one(ks.rows, cursor_write(seq));
    be8_round_trip(seq);
}

/// An event that was recorded can be read under its number, which is the next one; the
/// cursor is at it; and no other event has changed.
pub proof fn recorded_event_is_read(
    s: EventState,
    e: Event,
    did: Seq<char>,
    rev: Option<Seq<char>>,
    other: i64,
)
    requires
        in_sequence(s.log),
        max_seq(s.log) < i64::MAX,
        !tombstoned(s.repo_data.rows, (max_seq(s.log) + 1) as i64),
    ensures
        ({
            let seq = (max_seq(s.log) + 1) as i64;
            let t = recorded(s, e, did, rev).1;
            &&& recorded(s, e, did, rev).0 == Ok::<i64, DbErrorView>(seq)
            &&& visible_event(t, seq) == Some(numbered(e, seq))
            &&& max_seq(t.log) == seq
            &&& applied_cursor(t.repo_data.rows) == Ok::<Option<u64>, MetastoreError>(
                Some(seq as u64),
            )
            &&& other != seq ==> visible_event(t, other) == visible_event(s, other)
        }),
{
    let seq = (max_seq(s.log) + 1) as i64;
    let t = recorded(s, e, did, rev).1;
    let ws = index_writes(did, rev, seq as u64);
    let rows = s.repo_data.rows;
    index_writes_shape(did, rev, seq as u64);
    be8_round_trip(seq as u64);
    write_rows_last(rows, ws, ws.len() - 1);
    assert forall|q: u64|
        lookup(#[trigger] t.repo_data.rows, seq_tombstone_key_bytes(q)) == lookup(
            rows,
            seq_tombstone_key_bytes(q),
        ) by {
        write_rows_frame(rows, ws, seq_tombstone_key_bytes(q));
    }
    write_rows_frame(rows, ws, seq_tombstone_key_bytes(seq as u64));
    write_rows_frame(rows, ws, seq_tombstone_key_bytes(other as u64));
    appended_in_sequence(s.log, e, None);
    let log = t.log;
    let n = s.log.len() as int;
    assert(log[n].event.seq == seq);
    let k = choose|k: int| 0 <= k < log.len() && (#[trigger] log[k]).event.seq == seq;
    if k < n {
        assert(log[k].event.seq < log[n].event.seq);
    }
    if other != seq {
        if exists|i: int| 0 <= i < s.log.len() && (#[trigger] s.log[i]).event.seq == other {
            let i = choose|i: int| 0 <= i < s.log.len() && (#[trigger] s.log[i]).event.seq == other;
            assert(log[i] == s.log[i]);
            let j = choose|j: int| 0 <= j < log.len() && (#[trigger] log[j]).event.seq == other;
            if i < j {
                assert(log[i].event.seq < log[j].event.seq);
            } else if j < i {
                assert(log[j].event.seq < log[i].event.seq);
            }
        } else if exists|j: int| 0 <= j < log.len() && (#[trigger] log[j]).event.seq == other {
            let j = choose|j: int| 0 <= j < log.len() && (#[trigger] log[j]).event.seq == other;
            assert(s.log[j] == log[j]);
        }
    }
}

/// A commit that was recorded is read with all that it said of itself.
pub proof fn recorded_commit_is_read(s: EventState, data: CommitEvent, now: i64)
    requires
        in_sequence(s.log),
        max_seq(s.log) < i64::MAX,
        !tombstoned(s.repo_data.rows, (max_seq(s.log) + 1) as i64),
    ensures
        ({
            let seq = (max_seq(s.log) + 1) as i64;
            let r = recorded(s, commit_event(data, now), data.did, data.rev);
            let read = visible_event(r.1, seq);
            &&& r.0 == Ok::<i64, DbErrorView>(seq)
            &&& read is Some
            &&& ({
                let e = read->0;
                &&& e.seq == seq
                &&& e.created_at == now
                &&& e.did == data.did
                &&& e.event_type == data.event_type
                &&& e.commit_cid == data.commit_cid
                &&& e.prev_cid == data.prev_cid
                &&& e.prev_data_cid == data.prev_data_cid
                &&& e.ops == data.ops
                &&& e.blobs == data.blobs
                &&& e.blocks == data.blocks
                &&& e.rev == data.rev
                &&& e.handle is None && e.active is None && e.status is None
            })
        }),
{
    recorded_event_is_read(s, commit_event(data, now), data.did, data.rev, 0);
}

/// What an event says that speaks of no commit.
pub open spec fn of_no_commit(e: Event) -> bool {
    &&& e.commit_cid is None
    &&& e.prev_cid is None
    &&& e.prev_data_cid is None
    &&& e.ops is None
    &&& e.blobs is None
    &&& e.blocks is None
    &&& e.rev is None
}

/// A change of an account's identity is read with the handle that it was recorded with.
pub proof fn recorded_identity_is_read(
    s: EventState,
    did: Seq<char>,
    handle: Option<Seq<char>>,
    now: i64,
)
    requires
        in_sequence(s.log),
        max_seq(s.log) < i64::MAX,
        !tombstoned(s.repo_data.rows, (max_seq(s.log) + 1) as i64),
    ensures
        ({
            let seq = (max_seq(s.log) + 1) as i64;
            let r = recorded(s, identity_event(did, handle, now), did, None);
            let read = visible_event(r.1, seq);
            &&& r.0 == Ok::<i64, DbErrorView>(seq)
            &&& read is Some
            &&& ({
                let e = read->0;
                &&& e.seq == seq
                &&& e.created_at == now
                &&& e.did == did
                &&& e.event_type is Identity
                &&& e.handle == handle
                &&& e.active is None && e.status is None
                &&& of_no_commit(e)
            })
        }),
{
    recorded_event_is_read(s, identity_event(did, handle, now), did, None, 0);
}

/// A change of an account's status is read with that status, and says that the account is
/// active exactly where the status does.
pub proof fn recorded_status_is_read(s: EventState, did: Seq<char>, status: AccountStatus, now: i64)
    requires
        in_sequence(s.log),
        max_seq(s.log) < i64::MAX,
        !tombstoned(s.repo_data.rows, (max_seq(s.log) + 1) as i64),
    ensures
        ({
            let seq = (max_seq(s.log) + 1) as i64;
            let r = recorded(s, account_event(did, status, now), did, None);
            let read = visible_event(r.1, seq);
            &&& r.0 == Ok::<i64, DbErrorView>(seq)
            &&& read is Some
            &&& ({
                let e = read->0;
                &&& e.seq == seq
                &&& e.created_at == now
                &&& e.did == did
                &&& e.event_type is Account
                &&& e.status == Some(status)
                &&& e.active == Some(status is Active)
                &&& e.handle is None
                &&& of_no_commit(e)
            })
        }),
{
    recorded_event_is_read(s, account_event(did, status, now), did, None, 0);
}

/// An event from which readers start over is read with the commit's link, its bytes under that
/// link and its revision.
pub proof fn recorded_sync_is_read(
    s: EventState,
    did: Seq<char>,
    commit_cid: Seq<u8>,
    rev: Option<Seq<char>>,
    commit_bytes: Seq<u8>,
    now: i64,
)
    requires
        in_sequence(s.log),
        max_seq(s.log) < i64::MAX,
        !tombstoned(s.repo_data.rows, (max_seq(s.log) + 1) as i64),
    ensures
        ({
            let seq = (max_seq(s.log) + 1) as i64;
            let r = recorded(s, sync_event(did, commit_cid, rev, commit_bytes, now), did, rev);
            let read = visible_event(r.1, seq);
            &&& r.0 == Ok::<i64, DbErrorView>(seq)
            &&& read is Some
            &&& ({
                let e = read->0;
                &&& e.seq == seq
                &&& e.created_at == now
                &&& e.did == did
                &&& e.event_type is Sync
                &&& e.commit_cid == Some(commit_cid)
                &&& e.rev == rev
                &&& e.blocks matches Some(bs) && bs.len() == 1 && bs[0].cid_bytes == commit_cid
                    && bs[0].data == commit_bytes
                &&& e.prev_cid is None && e.prev_data_cid is None && e.ops is None && e.blobs is None
                &&& e.handle is None && e.active is None && e.status is None
            })
        }),
{
    recorded_event_is_read(s, sync_event(did, commit_cid, rev, commit_bytes, now), did, rev, 0);
}

/// A repository's first commit is read with its link and that of its tree, and with the bytes
/// of both under their links.
pub proof fn recorded_genesis_is_read(
    s: EventState,
    did: Seq<char>,
    commit_cid: Seq<u8>,
    mst_root_cid: Seq<u8>,
    rev: Seq<char>,
    commit_bytes: Seq<u8>,
    mst_root_bytes: Seq<u8>,
    now: i64,
)
    requires
        in_sequence(s.log),
        max_seq(s.log) < i64::MAX,
        !tombstoned(s.repo_data.rows, (max_seq(s.log) + 1) as i64),
    ensures
        ({
            let seq = (max_seq(s.log) + 1) as i64;
            let first = genesis_event(
                did,
                commit_cid,
                mst_root_cid,
                rev,
                commit_bytes,
                mst_root_bytes,
                now,
            );
            let r = recorded(s, first, did, Some(rev));
            let read = visible_event(r.1, seq);
            &&& r.0 == Ok::<i64, DbErrorView>(seq)
            &&& read is Some
            &&& ({
                let e = read->0;
                &&& e.seq == seq
                &&& e.created_at == now
                &&& e.did == did
                &&& e.event_type is Commit
                &&& e.commit_cid == Some(commit_cid)
                &&& e.prev_data_cid == Some(mst_root_cid)
                &&& e.rev == Some(rev)
                &&& e.blocks matches Some(bs) && bs.len() == 2 && bs[0].cid_bytes == commit_cid
                    && bs[0].data == commit_bytes && bs[1].cid_bytes == mst_root_cid && bs[1].data
                    == mst_root_bytes
                &&& e.prev_cid is None && e.ops is None && e.blobs is None
                &&& e.handle is None && e.active is None && e.status is None
            })
        }),
{
    recorded_event_is_read(
        s,
        genesis_event(did, commit_cid, mst_root_cid, rev, commit_bytes, mst_root_bytes, now),
        did,
        Some(rev),
        0,
    );
}

/// No hidden event is among the events that are returned, and every other one is.
pub proof fn alive_is_exact(rows: Rows, events: Seq<Event>, e: Event)
    ensures
        alive(rows, events).contains(e) <==> events.contains(e) && !tombstoned(rows, e.seq),
    decreases events.len(),
{
    if events.len() > 0 {
        let t = events.drop_last();
        alive_is_exact(rows, t, e);
        let a = alive(rows, t);
        if events.contains(e) {
            let i = choose|i: int| 0 <= i < events.len() && events[i] == e;
            if i < t.len() {
                assert(t[i] == e);
            } else if !tombstoned(rows, e.seq) {
                assert(a.push(e)[a.len() as int] == e);
            }
        }
        if t.contains(e) {
            let i = choose|i: int| 0 <= i < t.len() && t[i] == e;
            assert(events[i] == e);
        }
        if a.contains(e) {
            let i = choose|i: int| 0 <= i < a.len() && a[i] == e;
            assert(a.push(events.last())[i] == e);
        }
        if alive(rows, events).contains(e) && !a.contains(e) {
            assert(alive(rows, events) == a.push(events.last()));
            let i = choose|i: int| 0 <= i < a.push(events.last()).len() && a.push(events.last())[i] == e;
            if i < a.len() {
                assert(a[i] == e);
            }
            assert(events[events.len() - 1] == e);
        }
    }
}

/// Events are returned in the order of their numbers.
pub proof fn alive_in_order(rows: Rows, events: Seq<Event>)
    requires
        forall|i: int, j: int|
            0 <= i < j < events.len() ==> (#[trigger] events[i]).seq < (#[trigger] events[j]).seq,
    ensures
        forall|i: int, j: int|
            0 <= i < j < alive(rows, events).len() ==> (#[trigger] alive(rows, events)[i]).seq < (
            #[trigger] alive(rows, events)[j]).seq,
    decreases events.len(),
{
    if events.len() > 0 {
        let t = events.drop_last();
        assert forall|i: int, j: int| 0 <= i < j < t.len() implies (#[trigger] t[i]).seq < (
        #[trigger] t[j]).seq by {
            assert(t[i] == events[i] && t[j] == events[j]);
        }
        alive_in_order(rows, t);
        let a = alive(rows, t);
        assert forall|i: int| 0 <= i < a.len() implies (#[trigger] a[i]).seq < events.last().seq by {
            assert(a.contains(a[i]));
            alive_is_exact(rows, t, a[i]);
            let k = choose|k: int| 0 <= k < t.len() && t[k] == a[i];
            assert(events[k] == a[i] && events[events.len() - 1] == events.last());
        }
    }
}

proof fn unseen_once(acc: Seq<Seq<char>>, blobs: Seq<Seq<char>>)
    requires
        acc.no_duplicates(),
    ensures
        unseen(acc, blobs).no_duplicates(),
    decreases blobs.len(),
{
    if blobs.len() > 0 {
        unseen_once(acc, blobs.drop_last());
    }
}

/// Each blob is named once, however many events name it.
pub proof fn blobs_are_named_once(s: EventState, seqs: Seq<u64>)
    ensures
        blobs_of(s, seqs) matches Ok(blobs) ==> blobs.no_duplicates(),
    decreases seqs.len(),
{
    if seqs.len() > 0 {
        blobs_are_named_once(s, seqs.drop_last());
        if let Ok(acc) = blobs_of(s, seqs.drop_last()) {
            if let Some(e) = entry_at(s.log, seqs.last() as i64) {
                if e.event.blobs is Some {
                    unseen_once(acc, e.event.blobs->0);
                }
            }
        }
    }
}

pub(crate) proof fn tombstones_written(rows: Rows, hash: u64, seqs: Seq<u64>, seq: u64)
    ensures
        ({
            let t = write_rows(rows, tombstone_writes(hash, seqs));
            &&& t.contains_key(seq_tombstone_key_bytes(seq)) <==> seqs.contains(seq)
                || rows.contains_key(seq_tombstone_key_bytes(seq))
            &&& lookup(t, did_events_key_bytes(hash, seq)) == (if seqs.contains(seq) {
                None
            } else {
                lookup(rows, did_events_key_bytes(hash, seq))
            })
        }),
        forall|i: int|
            0 <= i < tombstone_writes(hash, seqs).len() ==> (writes_key(
                #[trigger] tombstone_writes(hash, seqs)[i],
            )[0] == KeyTag::SeqTombstone.byte() || writes_key(tombstone_writes(hash, seqs)[i])[0]
                == KeyTag::DidEvents.byte()),
    decreases seqs.len(),
{
    if seqs.len() > 0 {
        let p = seqs.drop_last();
        let x = seqs.last();
        tombstones_written(rows, hash, p, seq);
        let before = tombstone_writes(hash, p);
        let ws = seq![
            WriteView::Put { key: seq_tombstone_key_bytes(x), value: Seq::<u8>::empty() },
            WriteView::Remove { key: did_events_key_bytes(hash, x) },
        ];
        assert(tombstone_writes(hash, seqs) == before + ws);
        write_rows_concat(rows, before, ws);
        let m = write_rows(rows, before);
        reveal_with_fuel(write_rows, 3);
        assert(ws.drop_last() =~= seq![ws[0]]);
        assert(ws.drop_last().drop_last() =~= Seq::empty());
        assert(write_rows(m, ws) == write_row(write_row(m, ws[0]), ws[1]));
        event_keys_injective(hash, seq, hash, x);
        assert(seq_tombstone_key_bytes(seq)[0] != did_events_key_bytes(hash, x)[0]);
        assert(did_events_key_bytes(hash, seq)[0] != seq_tombstone_key_bytes(x)[0]);
        if seqs.contains(seq) && seq != x {
            let i = choose|i: int| 0 <= i < seqs.len() && seqs[i] == seq;
            assert(p[i] == seq);
        }
        if p.contains(seq) {
            let i = choose|i: int| 0 <= i < p.len() && p[i] == seq;
            assert(seqs[i] == seq);
        }
        if seq == x {
            assert(seqs[seqs.len() - 1] == seq);
        }
    }
}

/// Once all of a user's events but one are deleted, each other event that was indexed for
/// the user is hidden and indexed no more, and the one to keep is as it was.
pub proof fn deletion_keeps_only(s: EventState, did: Seq<char>, keep: i64, seq: u64)
    requires
        s.repo_data.rows.dom().finite(),
        deletion(s, did, keep).0 is Ok,
    ensures
        ({
            let hash = did_hash(did);
            let rows = s.repo_data.rows;
            let t = deletion(s, did, keep).1.repo_data.rows;
            let indexed = rows.contains_key(did_events_key_bytes(hash, seq));
            &&& indexed && seq != keep ==> t.contains_key(seq_tombstone_key_bytes(seq))
                && !t.contains_key(did_events_key_bytes(hash, seq))
            &&& seq == keep ==> lookup(t, did_events_key_bytes(hash, seq)) == lookup(
                rows,
                did_events_key_bytes(hash, seq),
            ) && t.contains_key(seq_tombstone_key_bytes(seq)) == rows.contains_key(
                seq_tombstone_key_bytes(seq),
            )
            &&& indexed && seq != keep && seq <= i64::MAX ==> visible_event(
                deletion(s, did, keep).1,
                seq as i64,
            ) is None
            &&& visible_event(deletion(s, did, keep).1, keep) == visible_event(s, keep)
            &&& deletion(s, did, keep).1.log == s.log
        }),
    decreases (if seq == keep {
        0int
    } else {
        1int
    }),
{
    let hash = did_hash(did);
    let rows = s.repo_data.rows;
    if seq != keep {
        deletion_keeps_only(s, did, keep, keep as u64);
    }
    let keys = prefix_keys(did_events_prefix_bytes(hash));
    let f = |row: RowView| other_seq(row, keep as u64);
    let drows = did_event_rows(rows, hash);
    scan_lists(rows, keys);
    let seqs = collect_all(drows, f)->Ok_0;
    let rev_keys = prefix_keys(rev_to_seq_prefix_bytes(hash));
    let rrows = scan(rows, rev_keys);
    scan_lists(rows, rev_keys);
    let g = |row: RowView| stale_rev_key(row, seqs);
    let stale = collect_all(rrows, g)->Ok_0;
    collected(drows, f, drows.len(), seq);
    let key = did_events_key_bytes(hash, seq);
    second_number_round_trip(KeyTag::DidEvents.byte(), hash, seq);
    if rows.contains_key(key) && seq != keep {
        assert(key.take(did_events_prefix_bytes(hash).len() as int) =~= did_events_prefix_bytes(hash));
        assert(keys.contains(key));
        let i = choose|i: int| 0 <= i < drows.len() && (#[trigger] drows[i]).key == key;
        assert(f(drows[i]) == Contribution::<u64>::Ok(Some(seq)));
    }
    let ws = tombstone_writes(hash, seqs);
    tombstones_written(rows, hash, seqs, seq);
    let m = write_rows(rows, ws);
    write_rows_concat(rows, ws, removals(stale));
    assert forall|i: int| 0 <= i < removals(stale).len() implies writes_key(
        #[trigger] removals(stale)[i],
    )[0] == KeyTag::RevToSeq.byte() by {
        let x = stale[i];
        assert(stale.contains(x));
        collected(rrows, g, rrows.len(), x);
        let j = choose|j: int|
            0 <= j < rrows.len() && g(#[trigger] rrows[j]) == Contribution::<Seq<u8>>::Ok(Some(x));
        assert(rev_keys.contains(rrows[j].key));
        assert(rrows[j].key.take(rev_to_seq_prefix_bytes(hash).len() as int)[0]
            == KeyTag::RevToSeq.byte());
    }
    assert(key[0] == KeyTag::DidEvents.byte());
    assert(seq_tombstone_key_bytes(seq)[0] == KeyTag::SeqTombstone.byte());
    write_rows_frame(m, removals(stale), key);
    write_rows_frame(m, removals(stale), seq_tombstone_key_bytes(seq));
    if seq == keep {
        if seqs.contains(seq) {
            let i = choose|i: int|
                0 <= i < drows.len() && f(#[trigger] drows[i]) == Contribution::<u64>::Ok(Some(seq));
            assert(false);
        }
    }
}

/// A recovery without a gap recovers nothing and changes nothing.
pub proof fn recovery_without_gap(s: EventState, cursor: u64)
    requires
        applied_cursor(s.repo_data.rows) == Ok::<Option<u64>, MetastoreError>(Some(cursor)),
        max_seq(s.log) <= cursor,
    ensures
        sidecar_recovery(s) == (Ok::<u64, DbErrorView>(0), s),
{
}

proof fn page_keys(page: Seq<Entry>)
    ensures
        forall|i: int|
            0 <= i < page_writes(page).len() ==> (#[trigger] page_writes(page)[i] is Put)
                && writes_key(page_writes(page)[i])[0] != KeyTag::MetastoreCursor.byte(),
    decreases page.len(),
{
    if page.len() > 0 {
        page_keys(page.drop_last());
        let e = page.last().event;
        index_writes_shape(e.did, e.rev, e.seq as u64);
        let w = sidecar_writes(e.did, e.rev, e.seq as u64);
        assert forall|i: int| 0 <= i < w.len() implies (#[trigger] w[i] is Put) && writes_key(w[i])[0]
            != KeyTag::MetastoreCursor.byte() by {
            assert(w[i] == index_writes(e.did, e.rev, e.seq as u64)[i]);
        }
    }
}

proof fn page_indexed(page: Seq<Entry>, i: int)
    requires
        0 <= i < page.len(),
    ensures
        exists|j: int|
            0 <= j < page_writes(page).len() && (#[trigger] page_writes(page)[j]) == (
            WriteView::Put {
                key: did_events_key_bytes(did_hash(page[i].event.did), page[i].event.seq as u64),
                value: Seq::empty(),
            }),
    decreases page.len(),
{
    let p = page.drop_last();
    let e = page.last().event;
    let w = sidecar_writes(e.did, e.rev, e.seq as u64);
    if i < p.len() {
        page_indexed(p, i);
        let j = choose|j: int|
            0 <= j < page_writes(p).len() && (#[trigger] page_writes(p)[j]) == (WriteView::Put {
                key: did_events_key_bytes(did_hash(p[i].event.did), p[i].event.seq as u64),
                value: Seq::empty(),
            });
        assert(page_writes(page)[j] == page_writes(p)[j]);
    } else {
        index_writes_shape(e.did, e.rev, e.seq as u64);
        assert(w[0] == index_writes(e.did, e.rev, e.seq as u64)[0]);
        assert(page_writes(page)[page_writes(p).len() as int] == w[0]);
    }
}

proof fn puts_stay(rows: Rows, ws: Seq<WriteView>, key: Seq<u8>)
    requires
        forall|i: int| 0 <= i < ws.len() ==> #[trigger] ws[i] is Put,
        rows.contains_key(key) || exists|j: int| 0 <= j < ws.len() && writes_key(#[trigger] ws[j]) == key,
    ensures
        write_rows(rows, ws).contains_key(key),
    decreases ws.len(),
{
    if ws.len() > 0 {
        let p = ws.drop_last();
        assert(ws[ws.len() - 1] is Put);
        if writes_key(ws.last()) != key {
            if !rows.contains_key(key) {
                let j = choose|j: int| 0 <= j < ws.len() && writes_key(#[trigger] ws[j]) == key;
                assert(p[j] == ws[j]);
            }
            assert forall|i: int| 0 <= i < p.len() implies #[trigger] p[i] is Put by {
                assert(p[i] == ws[i]);
            }
            puts_stay(rows, p, key);
        }
    }
}

/// Rebuilding indexes leaves the cursor at the last pending event and an index row for
/// each of them.
pub proof fn rebuilt_indexes(ks: KeyspaceView, pending: Seq<Entry>, i: int)
    requires
        in_sequence(pending),
        0 <= i < pending.len(),
    ensures
        applied_cursor(rebuilt(ks, pending).rows) == Ok::<Option<u64>, MetastoreError>(
            Some(pending.last().event.seq as u64),
        ),
        rebuilt(ks, pending).rows.contains_key(
            did_events_key_bytes(did_hash(pending[i].event.did), pending[i].event.seq as u64),
        ),
    decreases pending.len(),
{
    let page = limited(pending, RECOVERY_BATCH_SIZE as nat);
    let high = page.last().event.seq as u64;
    let ws = page_writes(page).push(cursor_write(high));
    let next = ks.commit(ws);
    let rest = pending.skip(page.len() as int);
    let key = did_events_key_bytes(did_hash(pending[i].event.did), pending[i].event.seq as u64);
    page_keys(page);
    be8_round_trip(high);
    write_rows_last(ks.rows, ws, ws.len() - 1);
    assert forall|j: int| 0 <= j < ws.len() implies #[trigger] ws[j] is Put by {
        if j < page_writes(page).len() {
            assert(ws[j] == page_writes(page)[j]);
        }
    }
    if i < page.len() {
        page_indexed(page, i);
        let j = choose|j: int|
            0 <= j < page_writes(page).len() && (#[trigger] page_writes(page)[j]) == (
            WriteView::Put { key, value: Seq::empty() });
        assert(ws[j] == page_writes(page)[j]);
        puts_stay(ks.rows, ws, key);
    }
    assert(rebuilt(ks, pending) == rebuilt(next, rest));
    if rest.len() == 0 {
        assert(rebuilt(next, rest) == next);
        assert(page =~= pending);
    } else {
        assert(in_sequence(rest)) by {
            assert forall|a: int| 0 <= a < rest.len() implies (#[trigger] rest[a]).event.seq > 0 by {
                assert(rest[a] == pending[a + page.len()]);
            }
            assert forall|a: int, b: int| 0 <= a < b < rest.len() implies (#[trigger] rest[a]).event.seq
                < (#[trigger] rest[b]).event.seq by {
                assert(rest[a] == pending[a + page.len()] && rest[b] == pending[b + page.len()]);
            }
        }
        if i < page.len() {
            rebuilt_indexes(next, rest, 0);
            rebuilt_keeps(next, rest, key);
        } else {
            assert(rest[i - page.len()] == pending[i]);
            rebuilt_indexes(next, rest, i - page.len());
        }
        assert(rest.last() == pending.last());
    }
}

/// An event whose index has the row under a revision key.
spec fn names_revision(e: Event, key: Seq<u8>) -> bool {
    e.rev matches Some(r) && rev_to_seq_key_bytes(did_hash(e.did), r) == key
}

proof fn sidecar_revision(rows: Rows, e: Event, key: Seq<u8>)
    requires
        key.len() > 0,
        key[0] == KeyTag::RevToSeq.byte(),
    ensures
        lookup(write_rows(rows, sidecar_writes(e.did, e.rev, e.seq as u64)), key) == (
        if names_revision(e, key) {
            Some(be8(e.seq as u64))
        } else {
            lookup(rows, key)
        }),
{
    let ws = sidecar_writes(e.did, e.rev, e.seq as u64);
    assert(did_events_key_bytes(did_hash(e.did), e.seq as u64)[0] == KeyTag::DidEvents.byte());
    if names_revision(e, key) {
        assert(ws.len() == 2 && writes_key(ws[1]) == key);
        write_rows_last(rows, ws, 1);
    } else {
        write_rows_frame(rows, ws, key);
    }
}

/// The row under a revision key after some events were indexed: that of the last event that
/// has the revision, or what was there before.
proof fn page_revision(rows: Rows, page: Seq<Entry>, key: Seq<u8>, i: int)
    requires
        key.len() > 0,
        key[0] == KeyTag::RevToSeq.byte(),
        -1 <= i < page.len(),
        i >= 0 ==> names_revision(page[i].event, key),
        forall|j: int| i < j < page.len() ==> !names_revision((#[trigger] page[j]).event, key),
    ensures
        lookup(write_rows(rows, page_writes(page)), key) == (if i >= 0 {
            Some(be8(page[i].event.seq as u64))
        } else {
            lookup(rows, key)
        }),
    decreases page.len(),
{
    if page.len() > 0 {
        let p = page.drop_last();
        let e = page.last().event;
        let w = sidecar_writes(e.did, e.rev, e.seq as u64);
        write_rows_concat(rows, page_writes(p), w);
        sidecar_revision(write_rows(rows, page_writes(p)), e, key);
        if i < p.len() {
            assert(!names_revision(page[page.len() - 1].event, key));
            assert forall|j: int| i < j < p.len() implies !names_revision(
                (#[trigger] p[j]).event,
                key,
            ) by {
                assert(p[j] == page[j]);
            }
            page_revision(rows, p, key, i);
        }
    }
}

proof fn rebuilt_revision(ks: KeyspaceView, pending: Seq<Entry>, key: Seq<u8>, i: int)
    requires
        key.len() > 0,
        key[0] == KeyTag::RevToSeq.byte(),
        -1 <= i < pending.len(),
        i >= 0 ==> names_revision(pending[i].event, key),
        forall|j: int|
            i < j < pending.len() ==> !names_revision((#[trigger] pending[j]).event, key),
    ensures
        lookup(rebuilt(ks, pending).rows, key) == (if i >= 0 {
            Some(be8(pending[i].event.seq as u64))
        } else {
            lookup(ks.rows, key)
        }),
    decreases pending.len(),
{
    if pending.len() > 0 {
        let page = limited(pending, RECOVERY_BATCH_SIZE as nat);
        let n = page.len() as int;
        let cursor = seq![cursor_write(page.last().event.seq as u64)];
        let ws = page_writes(page).push(cursor_write(page.last().event.seq as u64));
        let rest = pending.skip(n);
        assert(ws =~= page_writes(page) + cursor);
        write_rows_concat(ks.rows, page_writes(page), cursor);
        let m = write_rows(ks.rows, page_writes(page));
        assert(writes_key(cursor[0])[0] == KeyTag::MetastoreCursor.byte());
        write_rows_frame(m, cursor, key);
        assert forall|j: int| n <= j < pending.len() implies rest[j - n] == #[trigger] pending[j] by {}
        if i < n {
            assert forall|j: int| i < j < page.len() implies !names_revision(
                (#[trigger] page[j]).event,
                key,
            ) by {
                assert(page[j] == pending[j]);
            }
            page_revision(ks.rows, page, key, i);
            assert forall|j: int| -1 < j < rest.len() implies !names_revision(
                (#[trigger] rest[j]).event,
                key,
            ) by {
                assert(rest[j] == pending[j + n]);
            }
            rebuilt_revision(ks.commit(ws), rest, key, -1);
        } else {
            assert(rest[i - n] == pending[i]);
            assert forall|j: int| i - n < j < rest.len() implies !names_revision(
                (#[trigger] rest[j]).event,
                key,
            ) by {
                assert(rest[j] == pending[j + n]);
            }
            rebuilt_revision(ks.commit(ws), rest, key, i - n);
        }
    }
}

/// Rebuilding indexes leaves under each revision the number of its event: that of the last
/// pending event of the account that has the revision.
pub proof fn rebuilt_revisions(ks: KeyspaceView, pending: Seq<Entry>, i: int, rev: Seq<char>)
    requires
        0 <= i < pending.len(),
        pending[i].event.rev == Some(rev),
        forall|j: int|
            i < j < pending.len() && (#[trigger] pending[j]).event.rev == Some(rev) ==> did_hash(
                pending[j].event.did,
            ) != did_hash(pending[i].event.did),
    ensures
        lookup(
            rebuilt(ks, pending).rows,
            rev_to_seq_key_bytes(did_hash(pending[i].event.did), rev),
        ) == Some(be8(pending[i].event.seq as u64)),
{
    let hash = did_hash(pending[i].event.did);
    let key = rev_to_seq_key_bytes(hash, rev);
    assert(key[0] == KeyTag::RevToSeq.byte());
    assert forall|j: int| i < j < pending.len() implies !names_revision(
        (#[trigger] pending[j]).event,
        key,
    ) by {
        if let Some(r) = pending[j].event.rev {
            rev_keys_injective(did_hash(pending[j].event.did), r, hash, rev);
        }
    }
    rebuilt_revision(ks, pending, key, i);
}

proof fn rebuilt_keeps(ks: KeyspaceView, pending: Seq<Entry>, key: Seq<u8>)
    requires
        ks.rows.contains_key(key),
    ensures
        rebuilt(ks, pending).rows.contains_key(key),
    decreases pending.len(),
{
    if pending.len() > 0 {
        let page = limited(pending, RECOVERY_BATCH_SIZE as nat);
        let ws = page_writes(page).push(cursor_write(page.last().event.seq as u64));
        page_keys(page);
        assert forall|j: int| 0 <= j < ws.len() implies #[trigger] ws[j] is Put by {
            if j < page_writes(page).len() {
                assert(ws[j] == page_writes(page)[j]);
            }
        }
        puts_stay(ks.rows, ws, key);
        rebuilt_keeps(ks.commit(ws), pending.skip(page.len() as int), key);
    }
}

/// A second recovery finds nothing left to recover.
pub proof fn recovery_is_complete(s: EventState)
    requires
        in_sequence(s.log),
        sidecar_recovery(s).0 is Ok,
    ensures
        sidecar_recovery(sidecar_recovery(s).1) == (
            Ok::<u64, DbErrorView>(0),
            sidecar_recovery(s).1,
        ),
{
    let pending = pending_events(s)->Ok_0;
    let t = sidecar_recovery(s).1;
    if pending.len() > 0 {
        let cursor = match applied_cursor(s.repo_data.rows)->Ok_0 {
            Some(n) => n,
            None => 0,
        };
        after_is_exact(s.log, cursor as i64);
        rebuilt_indexes(s.repo_data, pending, 0);
        assert(pending.last() == s.log.last());
        recovery_without_gap(t, max_seq(s.log) as u64);
    } else {
        assert(t == s);
    }
}

/// A recovery says how many events of the log come after the cursor: all of them where nothing was
/// recovered before.
pub proof fn recovery_counts_events(s: EventState, cursor: u64, k: int)
    requires
        in_sequence(s.log),
        s.log.len() <= u64::MAX,
        applied_cursor(s.repo_data.rows) == Ok::<Option<u64>, MetastoreError>(Some(cursor)) || (
        applied_cursor(s.repo_data.rows) == Ok::<Option<u64>, MetastoreError>(None) && cursor == 0),
        0 <= k <= s.log.len(),
        forall|i: int| 0 <= i < k ==> (#[trigger] s.log[i]).event.seq <= cursor,
        forall|i: int| k <= i < s.log.len() ==> (#[trigger] s.log[i]).event.seq > cursor,
    ensures
        sidecar_recovery(s).0 == Ok::<u64, DbErrorView>((s.log.len() - k) as u64),
{
    if k < s.log.len() {
        assert(s.log[s.log.len() - 1].event.seq > cursor);
        after_from(s.log, cursor as i64, k);
    } else if s.log.len() > 0 {
        assert(s.log[s.log.len() - 1].event.seq <= cursor);
    }
}

/// Once all of a user's events but one are deleted, the revisions of the deleted ones are
/// found no more, and that of the one to keep is as it was.
pub proof fn deletion_forgets_revisions(
    s: EventState,
    did: Seq<char>,
    keep: i64,
    rev: Seq<char>,
    seq: u64,
)
    requires
        s.repo_data.rows.dom().finite(),
        deletion(s, did, keep).0 is Ok,
        lookup(s.repo_data.rows, rev_to_seq_key_bytes(did_hash(did), rev)) == Some(be8(seq)),
    ensures
        ({
            let hash = did_hash(did);
            let key = rev_to_seq_key_bytes(hash, rev);
            let rows = s.repo_data.rows;
            let t = deletion(s, did, keep).1.repo_data.rows;
            &&& seq == keep ==> lookup(t, key) == Some(be8(seq))
            &&& seq != keep && rows.contains_key(did_events_key_bytes(hash, seq)) ==> lookup(t, key) is None
        }),
{
    let hash = did_hash(did);
    let rows = s.repo_data.rows;
    let keys = prefix_keys(did_events_prefix_bytes(hash));
    let f = |row: RowView| other_seq(row, keep as u64);
    let drows = did_event_rows(rows, hash);
    scan_lists(rows, keys);
    let seqs = collect_all(drows, f)->Ok_0;
    let prefix = rev_to_seq_prefix_bytes(hash);
    let rev_keys = prefix_keys(prefix);
    let rrows = scan(rows, rev_keys);
    scan_lists(rows, rev_keys);
    let g = |row: RowView| stale_rev_key(row, seqs);
    let stale = collect_all(rrows, g)->Ok_0;
    let key = rev_to_seq_key_bytes(hash, rev);
    let event = did_events_key_bytes(hash, seq);
    be8_round_trip(seq);
    second_number_round_trip(KeyTag::DidEvents.byte(), hash, seq);
    assert(key.take(prefix.len() as int) =~= prefix);
    assert(rows.contains_key(key) && rev_keys.contains(key));
    let r = choose|r: int| 0 <= r < rrows.len() && (#[trigger] rrows[r]).key == key;
    collected(drows, f, drows.len(), seq);
    collected(rrows, g, rrows.len(), key);
    tombstones_written(rows, hash, seqs, seq);
    let ws = tombstone_writes(hash, seqs);
    let m = write_rows(rows, ws);
    write_rows_concat(rows, ws, removals(stale));
    assert(key[0] == KeyTag::RevToSeq.byte());
    write_rows_frame(rows, ws, key);
    if seq == keep {
        if seqs.contains(seq) {
            let i = choose|i: int|
                0 <= i < drows.len() && f(#[trigger] drows[i]) == Contribution::<u64>::Ok(Some(seq));
            assert(false);
        }
        if stale.contains(key) {
            let j = choose|j: int|
                0 <= j < rrows.len() && g(#[trigger] rrows[j]) == Contribution::<Seq<u8>>::Ok(Some(key));
            assert(rrows[j].key == key);
            assert(rrows[j].value == be8(seq));
            assert(false);
        }
        assert forall|i: int| 0 <= i < removals(stale).len() implies writes_key(
            #[trigger] removals(stale)[i],
        ) != key by {
            assert(stale.contains(stale[i]));
        }
        write_rows_frame(m, removals(stale), key);
    } else if rows.contains_key(event) {
        assert(event.take(did_events_prefix_bytes(hash).len() as int) =~= did_events_prefix_bytes(hash));
        assert(rows.contains_key(event) && keys.contains(event));
        let i = choose|i: int| 0 <= i < drows.len() && (#[trigger] drows[i]).key == event;
        assert(f(drows[i]) == Contribution::<u64>::Ok(Some(seq)));
        assert(seqs.contains(seq));
        assert(rrows[r].value == be8(seq));
        assert(g(rrows[r]) == Contribution::<Seq<u8>>::Ok(Some(key)));
        removed_keys_are_gone(m, stale, key);
    }
}

proof fn removed_keys_are_gone(rows: Rows, keys: Seq<Seq<u8>>, key: Seq<u8>)
    requires
        keys.contains(key),
    ensures
        lookup(write_rows(rows, removals(keys)), key) is None,
    decreases keys.len(),
{
    let before = keys.drop_last();
    assert(removals(keys).drop_last() =~= removals(before));
    if keys.last() != key {
        let i = choose|i: int| 0 <= i < keys.len() && keys[i] == key;
        assert(before[i] == key);
        removed_keys_are_gone(rows, before, key);
    }
}

proof fn largest_is(seqs: Seq<u64>, n: u64)
    requires
        seqs.contains(n),
        forall|i: int| 0 <= i < seqs.len() ==> #[trigger] seqs[i] <= n,
    ensures
        largest(seqs) == Some(n),
    decreases seqs.len(),
{
    let before = seqs.drop_last();
    assert(seqs[seqs.len() - 1] <= n);
    assert forall|i: int| 0 <= i < before.len() implies #[trigger] before[i] <= n by {
        assert(before[i] == seqs[i]);
    }
    if before.contains(n) {
        largest_is(before, n);
    } else {
        let i = choose|i: int| 0 <= i < seqs.len() && seqs[i] == n;
        if i < before.len() {
            assert(before[i] == n);
        }
        largest_bound(before, n);
    }
}

proof fn largest_bound(seqs: Seq<u64>, n: u64)
    requires
        forall|i: int| 0 <= i < seqs.len() ==> #[trigger] seqs[i] <= n,
    ensures
        largest(seqs) matches Some(m) ==> m <= n,
    decreases seqs.len(),
{
    if seqs.len() > 0 {
        let before = seqs.drop_last();
        assert forall|i: int| 0 <= i < before.len() implies #[trigger] before[i] <= n by {
            assert(before[i] == seqs[i]);
        }
        largest_bound(before, n);
        assert(seqs[seqs.len() - 1] <= n);
    }
}

/// After a purge a user's latest event is as it was, and every earlier one is hidden and
/// indexed no more.
pub proof fn purge_keeps_latest(s: EventState, did: Seq<char>, latest: u64, seq: u64)
    requires
        s.repo_data.rows.dom().finite(),
        purge(s, did).0 is Ok,
        ({
            let hash = did_hash(did);
            let rows = s.repo_data.rows;
            &&& rows.contains_key(did_events_key_bytes(hash, latest))
            &&& forall|k: Seq<u8>|
                rows.contains_key(k) && #[trigger] has_prefix(k, did_events_prefix_bytes(hash))
                    ==> exists|n: u64| n <= latest && k == #[trigger] did_events_key_bytes(hash, n)
        }),
    ensures
        ({
            let hash = did_hash(did);
            let rows = s.repo_data.rows;
            let t = purge(s, did).1.repo_data.rows;
            &&& lookup(t, did_events_key_bytes(hash, latest)) == lookup(
                rows,
                did_events_key_bytes(hash, latest),
            )
            &&& t.contains_key(seq_tombstone_key_bytes(latest)) == rows.contains_key(
                seq_tombstone_key_bytes(latest),
            )
            &&& rows.contains_key(did_events_key_bytes(hash, seq)) && seq != latest
                ==> t.contains_key(seq_tombstone_key_bytes(seq)) && !t.contains_key(
                did_events_key_bytes(hash, seq),
            )
        }),
{
    let hash = did_hash(did);
    let rows = s.repo_data.rows;
    let prefix = did_events_prefix_bytes(hash);
    let keys = prefix_keys(prefix);
    let drows = did_event_rows(rows, hash);
    let f = |row: RowView| indexed_seq(row);
    scan_lists(rows, keys);
    let seqs = collect_all(drows, f)->Ok_0;
    let key = did_events_key_bytes(hash, latest);
    second_number_round_trip(KeyTag::DidEvents.byte(), hash, latest);
    assert(key.take(prefix.len() as int) =~= prefix);
    assert(rows.contains_key(key) && keys.contains(key));
    let i = choose|i: int| 0 <= i < drows.len() && (#[trigger] drows[i]).key == key;
    assert(f(drows[i]) == Contribution::<u64>::Ok(Some(latest)));
    collected(drows, f, drows.len(), latest);
    assert forall|j: int| 0 <= j < seqs.len() implies #[trigger] seqs[j] <= latest by {
        assert(seqs.contains(seqs[j]));
        collected(drows, f, drows.len(), seqs[j]);
        let k = choose|k: int|
            0 <= k < drows.len() && f(#[trigger] drows[k]) == Contribution::<u64>::Ok(Some(seqs[j]));
        assert(rows.contains_key(drows[k].key) && has_prefix(drows[k].key, prefix));
        let n = choose|n: u64| n <= latest && drows[k].key == #[trigger] did_events_key_bytes(hash, n);
        second_number_round_trip(KeyTag::DidEvents.byte(), hash, n);
    }
    largest_is(seqs, latest);
    deletion_keeps_only(s, did, latest as i64, latest);
    deletion_keeps_only(s, did, latest as i64, seq);
}

} // verus!
