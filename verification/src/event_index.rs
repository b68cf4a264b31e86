//! Whose events are indexed, and that deleting the events of one account leaves those of the
//! others alone.

use vstd::prelude::*;

use crate::bytes::has_prefix;
use crate::commit_laws::commit_batch_tags;
use crate::commit_ops::{commit_outcome, current_repo, mutations_of, CommitInput, CommitState};
use crate::encoding::{be8, be8_injective, be_len, second_number_round_trip};
use crate::event_keys::{did_events_key_bytes, did_events_prefix_bytes, event_keys_injective};
use crate::event_keys::{rev_to_seq_prefix_bytes, seq_tombstone_key_bytes};
use crate::event_laws::tombstones_written;
use crate::event_ops::{applied_cursor, commit_event, cursor_write, deletion, did_event_rows};
use crate::event_ops::{index_writes, indexed_seq, largest, other_seq, page_writes};
use crate::event_ops::{pending_events, purge, rebuilt, recorded};
use crate::event_ops::{removals, sidecar_recovery, sidecar_writes, stale_rev_key};
use crate::event_ops::{tombstone_writes, visible_event, EventState, RECOVERY_BATCH_SIZE};
use crate::eventlog::{after_is_exact, appended, appended_in_sequence, in_sequence, limited};
use crate::eventlog::max_seq;
use crate::events::{Entry, Event};
use crate::keys::{did_hash, KeyTag};
use crate::recovery::{repo_writes, MutationSet};
use crate::replay::{base_meta, mutation_recovery, replay_all, replayed, ReplayState};
use crate::repo_meta::RepoMeta;
use crate::scan::{collect_all, collected, Contribution};
use crate::store::{lookup, prefix_keys, scan, scan_lists, write_row, write_rows};
use crate::store::{write_rows_concat, write_rows_frame, writes_key, KeyspaceView, RowView, Rows};
use crate::store::WriteView;

verus! {

/// A row of the index of events by account.
pub open spec fn is_event_key(key: Seq<u8>) -> bool {
    has_prefix(key, seq![KeyTag::DidEvents.byte()])
}

/// Each number is indexed for one account at most, for that of its event where the log has
/// the event, and none goes beyond the log.
pub open spec fn index_has_owners(rows: Rows, log: Seq<Entry>) -> bool {
    &&& forall|k: Seq<u8>|
        rows.contains_key(k) && #[trigger] is_event_key(k) ==> exists|h: u64, q: u64|
            k == #[trigger] did_events_key_bytes(h, q)
    &&& forall|h: u64, q: u64| #[trigger]
        rows.contains_key(did_events_key_bytes(h, q)) ==> q <= max_seq(log)
    &&& forall|h1: u64, h2: u64, q: u64| #[trigger]
        rows.contains_key(did_events_key_bytes(h1, q)) && #[trigger] rows.contains_key(
            did_events_key_bytes(h2, q),
        ) ==> h1 == h2
    &&& forall|h: u64, q: u64, i: int| #[trigger]
        rows.contains_key(did_events_key_bytes(h, q)) && 0 <= i < log.len() && (
        #[trigger] log[i]).event.seq == q ==> did_hash(log[i].event.did) == h
}

/// A write that indexes an event does so for the event's account.
pub open spec fn indexes_owner(w: WriteView, log: Seq<Entry>) -> bool {
    w matches WriteView::Put { key, value } ==> is_event_key(key) ==> exists|i: int|
        0 <= i < log.len() && key == did_events_key_bytes(
            did_hash((#[trigger] log[i]).event.did),
            log[i].event.seq as u64,
        )
}

proof fn event_key_tag(h: u64, q: u64)
    ensures
        is_event_key(did_events_key_bytes(h, q)),
{
    assert(did_events_key_bytes(h, q).take(1) =~= seq![KeyTag::DidEvents.byte()]);
}

proof fn tag_of_event_key(key: Seq<u8>)
    requires
        is_event_key(key),
    ensures
        key[0] == KeyTag::DidEvents.byte(),
{
    assert(key.take(1)[0] == seq![KeyTag::DidEvents.byte()][0]);
}

/// Before the first event the index has owners.
pub proof fn no_index_has_owners(rows: Rows, log: Seq<Entry>)
    requires
        forall|k: Seq<u8>| #[trigger] rows.contains_key(k) ==> !is_event_key(k),
    ensures
        index_has_owners(rows, log),
{
    assert forall|h: u64, q: u64| !#[trigger] rows.contains_key(did_events_key_bytes(h, q)) by {
        event_key_tag(h, q);
    }
}

proof fn write_keeps_owners(rows: Rows, log: Seq<Entry>, w: WriteView)
    requires
        in_sequence(log),
        index_has_owners(rows, log),
        indexes_owner(w, log),
    ensures
        index_has_owners(write_row(rows, w), log),
{
    let after = write_row(rows, w);
    if let WriteView::Put { key, value } = w {
        if is_event_key(key) {
            let i = choose|i: int|
                0 <= i < log.len() && key == did_events_key_bytes(
                    did_hash((#[trigger] log[i]).event.did),
                    log[i].event.seq as u64,
                );
            let h0 = did_hash(log[i].event.did);
            let q0 = log[i].event.seq as u64;
            assert(log[i].event.seq > 0);
            if i < log.len() - 1 {
                assert(log[i].event.seq < log[log.len() - 1].event.seq);
            }
            assert forall|h: u64, q: u64| #[trigger]
                after.contains_key(did_events_key_bytes(h, q)) implies (h == h0 && q == q0)
                || rows.contains_key(did_events_key_bytes(h, q)) by {
                event_keys_injective(h, q, h0, q0);
            }
            assert forall|h1: u64, h2: u64, q: u64| #[trigger]
                after.contains_key(did_events_key_bytes(h1, q)) && #[trigger] after.contains_key(
                    did_events_key_bytes(h2, q),
                ) implies h1 == h2 by {
                if q == q0 {
                    assert(h1 == h0 || did_hash(log[i].event.did) == h1);
                    assert(h2 == h0 || did_hash(log[i].event.did) == h2);
                }
            }
            assert forall|h: u64, q: u64, j: int| #[trigger]
                after.contains_key(did_events_key_bytes(h, q)) && 0 <= j < log.len() && (
                #[trigger] log[j]).event.seq == q implies did_hash(log[j].event.did) == h by {
                if !rows.contains_key(did_events_key_bytes(h, q)) {
                    if i < j {
                        assert(log[i].event.seq < log[j].event.seq);
                    } else if j < i {
                        assert(log[j].event.seq < log[i].event.seq);
                    }
                }
            }
        } else {
            assert forall|h: u64, q: u64| #[trigger]
                after.contains_key(did_events_key_bytes(h, q)) implies rows.contains_key(
                did_events_key_bytes(h, q),
            ) by {
                event_key_tag(h, q);
            }
        }
    }
}

/// Batches that index events for their accounts leave an index that has owners.
pub proof fn writes_keep_owners(rows: Rows, log: Seq<Entry>, ws: Seq<WriteView>)
    requires
        in_sequence(log),
        index_has_owners(rows, log),
        forall|i: int| 0 <= i < ws.len() ==> #[trigger] indexes_owner(ws[i], log),
    ensures
        index_has_owners(write_rows(rows, ws), log),
    decreases ws.len(),
{
    if ws.len() > 0 {
        let t = ws.drop_last();
        assert forall|i: int| 0 <= i < t.len() implies #[trigger] indexes_owner(t[i], log) by {
            assert(indexes_owner(ws[i], log));
        }
        writes_keep_owners(rows, log, t);
        assert(indexes_owner(ws[ws.len() - 1], log));
        write_keeps_owners(write_rows(rows, t), log, ws.last());
    }
}

proof fn longer_log_keeps_owners(rows: Rows, log: Seq<Entry>, e: Event, set: Option<Seq<u8>>)
    requires
        in_sequence(log),
        max_seq(log) < i64::MAX,
        index_has_owners(rows, log),
    ensures
        index_has_owners(rows, appended(log, e, set)),
{
    let longer = appended(log, e, set);
    assert forall|h: u64, q: u64, i: int| #[trigger]
        rows.contains_key(did_events_key_bytes(h, q)) && 0 <= i < longer.len() && (
        #[trigger] longer[i]).event.seq == q implies did_hash(longer[i].event.did) == h by {
        assert(q <= max_seq(log));
        if i < log.len() {
            assert(log[i] == longer[i]);
        }
    }
}

/// Forgetting old events keeps an index that has owners, as long as the last event stays.
pub proof fn retention_keeps_owners(rows: Rows, log: Seq<Entry>, n: int)
    requires
        index_has_owners(rows, log),
        0 <= n < log.len() || n == 0,
    ensures
        index_has_owners(rows, log.skip(n)),
{
    let rest = log.skip(n);
    assert(max_seq(rest) == max_seq(log));
    assert forall|h: u64, q: u64, i: int| #[trigger]
        rows.contains_key(did_events_key_bytes(h, q)) && 0 <= i < rest.len() && (
        #[trigger] rest[i]).event.seq == q implies did_hash(rest[i].event.did) == h by {
        assert(rest[i] == log[i + n]);
    }
}

proof fn index_writes_have_owner(log: Seq<Entry>, i: int, rev: Option<Seq<char>>, j: int)
    requires
        0 <= i < log.len(),
        0 <= j < index_writes(log[i].event.did, rev, log[i].event.seq as u64).len(),
    ensures
        indexes_owner(index_writes(log[i].event.did, rev, log[i].event.seq as u64)[j], log),
{
    let w = index_writes(log[i].event.did, rev, log[i].event.seq as u64)[j];
    if let WriteView::Put { key, value } = w {
        if is_event_key(key) {
            tag_of_event_key(key);
            assert(j == 0);
        }
    }
}

/// Recording an event keeps an index that has owners, and the log in sequence.
pub proof fn recording_keeps_owners(
    s: EventState,
    e: Event,
    did: Seq<char>,
    rev: Option<Seq<char>>,
)
    requires
        in_sequence(s.log),
        index_has_owners(s.repo_data.rows, s.log),
        e.did == did,
    ensures
        ({
            let t = recorded(s, e, did, rev).1;
            in_sequence(t.log) && index_has_owners(t.repo_data.rows, t.log)
        }),
{
    if max_seq(s.log) < i64::MAX {
        let t = recorded(s, e, did, rev).1;
        let n = s.log.len() as int;
        let seq = (max_seq(s.log) + 1) as i64;
        appended_in_sequence(s.log, e, None);
        longer_log_keeps_owners(s.repo_data.rows, s.log, e, None);
        assert(t.log[n].event.did == did && t.log[n].event.seq == seq);
        let ws = index_writes(did, rev, seq as u64);
        assert forall|j: int| 0 <= j < ws.len() implies #[trigger] indexes_owner(ws[j], t.log) by {
            index_writes_have_owner(t.log, n, rev, j);
        }
        writes_keep_owners(s.repo_data.rows, t.log, ws);
    }
}

proof fn repo_writes_have_owner(
    hash: u64,
    meta: RepoMeta,
    ms: MutationSet,
    log: Seq<Entry>,
    j: int,
)
    requires
        0 <= j < repo_writes(hash, meta, ms).len(),
    ensures
        indexes_owner(repo_writes(hash, meta, ms)[j], log),
{
    let w = repo_writes(hash, meta, ms)[j];
    if j > 0 {
        commit_batch_tags(hash, meta, ms, j);
    } else {
        assert(writes_key(w)[0] == KeyTag::RepoMeta.byte());
    }
    if let WriteView::Put { key, value } = w {
        if is_event_key(key) {
            tag_of_event_key(key);
        }
    }
}

/// A commit keeps an index that has owners, and the log in sequence.
pub proof fn commit_keeps_owners(s: CommitState, input: CommitInput, now: i64)
    requires
        in_sequence(s.log),
        index_has_owners(s.store.repo_data.rows, s.log),
    ensures
        ({
            let t = commit_outcome(s, input, now).1;
            in_sequence(t.log) && index_has_owners(t.store.repo_data.rows, t.log)
        }),
{
    if commit_outcome(s, input, now).0 is Ok {
        let t = commit_outcome(s, input, now).1;
        let (hash, meta) = current_repo(
            s.store,
            input.user_id,
            input.expected_root_cid,
        )->Ok_0;
        let ms = mutations_of(input);
        let event = input.commit_event;
        let e = commit_event(event, now);
        let n = s.log.len() as int;
        let seq = (max_seq(s.log) + 1) as i64;
        let rows = s.store.repo_data.rows;
        appended_in_sequence(s.log, e, Some(ms.stored()));
        longer_log_keeps_owners(rows, s.log, e, Some(ms.stored()));
        assert(t.log[n].event.did == event.did && t.log[n].event.seq == seq);
        let a = repo_writes(hash, meta, ms);
        let b = index_writes(event.did, event.rev, seq as u64);
        let ws = a + b;
        assert forall|j: int| 0 <= j < ws.len() implies #[trigger] indexes_owner(ws[j], t.log) by {
            if j < a.len() {
                assert(ws[j] == a[j]);
                repo_writes_have_owner(hash, meta, ms, t.log, j);
            } else {
                assert(ws[j] == b[j - a.len()]);
                index_writes_have_owner(t.log, n, event.rev, j - a.len());
            }
        }
        writes_keep_owners(rows, t.log, ws);
    }
}

proof fn page_writes_have_owner(log: Seq<Entry>, page: Seq<Entry>, j: int)
    requires
        forall|i: int| 0 <= i < page.len() ==> log.contains(#[trigger] page[i]),
        0 <= j < page_writes(page).len(),
    ensures
        indexes_owner(page_writes(page)[j], log),
    decreases page.len(),
{
    let p = page.drop_last();
    let e = page.last().event;
    let w = sidecar_writes(e.did, e.rev, e.seq as u64);
    let n = page_writes(p).len();
    if j < n {
        assert forall|i: int| 0 <= i < p.len() implies log.contains(#[trigger] p[i]) by {
            assert(p[i] == page[i]);
        }
        page_writes_have_owner(log, p, j);
    } else {
        assert(log.contains(page[page.len() - 1]));
        let i = choose|i: int| 0 <= i < log.len() && log[i] == page.last();
        assert(page_writes(page)[j] == w[j - n]);
        assert(w[j - n] == index_writes(e.did, e.rev, e.seq as u64)[j - n]);
        index_writes_have_owner(log, i, e.rev, j - n);
    }
}

proof fn cursor_write_has_owner(log: Seq<Entry>, seq: u64)
    ensures
        indexes_owner(cursor_write(seq), log),
{
    let key = writes_key(cursor_write(seq));
    if is_event_key(key) {
        tag_of_event_key(key);
    }
}

proof fn rebuilding_keeps_owners(ks: KeyspaceView, log: Seq<Entry>, pending: Seq<Entry>)
    requires
        in_sequence(log),
        index_has_owners(ks.rows, log),
        forall|i: int| 0 <= i < pending.len() ==> log.contains(#[trigger] pending[i]),
    ensures
        index_has_owners(rebuilt(ks, pending).rows, log),
    decreases pending.len(),
{
    if pending.len() > 0 {
        let page = limited(pending, RECOVERY_BATCH_SIZE as nat);
        let ws = page_writes(page).push(cursor_write(page.last().event.seq as u64));
        assert forall|i: int| 0 <= i < page.len() implies log.contains(#[trigger] page[i]) by {
            assert(page[i] == pending[i]);
        }
        assert forall|j: int| 0 <= j < ws.len() implies #[trigger] indexes_owner(ws[j], log) by {
            if j < page_writes(page).len() {
                page_writes_have_owner(log, page, j);
            } else {
                cursor_write_has_owner(log, page.last().event.seq as u64);
            }
        }
        writes_keep_owners(ks.rows, log, ws);
        let rest = pending.skip(page.len() as int);
        assert forall|i: int| 0 <= i < rest.len() implies log.contains(#[trigger] rest[i]) by {
            assert(rest[i] == pending[i + page.len()]);
        }
        rebuilding_keeps_owners(ks.commit(ws), log, rest);
    }
}

proof fn pending_in_log(s: EventState)
    requires
        in_sequence(s.log),
        pending_events(s) is Ok,
    ensures
        forall|i: int|
            0 <= i < pending_events(s)->Ok_0.len() ==> s.log.contains(
                #[trigger] pending_events(s)->Ok_0[i],
            ),
{
    let pending = pending_events(s)->Ok_0;
    if pending.len() > 0 {
        let cursor = match applied_cursor(s.repo_data.rows)->Ok_0 {
            Some(n) => n,
            None => 0,
        };
        after_is_exact(s.log, cursor as i64);
        let p = s.log.len() - pending.len();
        assert forall|i: int| 0 <= i < pending.len() implies s.log.contains(#[trigger] pending[i]) by {
            assert(pending[i] == s.log[p + i]);
        }
    }
}

/// Rebuilding indexes from the log keeps an index that has owners.
pub proof fn rebuild_keeps_owners(s: EventState)
    requires
        in_sequence(s.log),
        index_has_owners(s.repo_data.rows, s.log),
    ensures
        index_has_owners(sidecar_recovery(s).1.repo_data.rows, s.log),
{
    if pending_events(s) is Ok {
        pending_in_log(s);
        rebuilding_keeps_owners(s.repo_data, s.log, pending_events(s)->Ok_0);
    }
}

proof fn replay_keeps_owners(s: ReplayState, log: Seq<Entry>, pending: Seq<Entry>)
    requires
        in_sequence(log),
        index_has_owners(s.repo_data.rows, log),
        forall|i: int| 0 <= i < pending.len() ==> log.contains(#[trigger] pending[i]),
    ensures
        index_has_owners(replay_all(s, pending).1.repo_data.rows, log),
    decreases pending.len(),
{
    if pending.len() > 0 && replayed(s, pending[0]) is Ok {
        let t = replayed(s, pending[0])->Ok_0;
        let entry = pending[0];
        let e = entry.event;
        let seq = e.seq as u64;
        let i = choose|i: int| 0 <= i < log.len() && log[i] == pending[0];
        let index = sidecar_writes(e.did, e.rev, seq);
        assert forall|j: int| 0 <= j < index.len() implies #[trigger] indexes_owner(index[j], log) by {
            assert(index[j] == index_writes(e.did, e.rev, seq)[j]);
            index_writes_have_owner(log, i, e.rev, j);
        }
        cursor_write_has_owner(log, seq);
        let ws = match entry.mutation_set {
            None => index.push(cursor_write(seq)),
            Some(b) => (index + repo_writes(
                did_hash(e.did),
                base_meta(s.repo_data.rows, e.did),
                MutationSet::read(b)->0,
            )).push(cursor_write(seq)),
        };
        assert(t.repo_data == s.repo_data.commit(ws)) by {
            reveal(replayed);
        }
        assert forall|j: int| 0 <= j < ws.len() implies #[trigger] indexes_owner(ws[j], log) by {
            if j < index.len() {
                assert(ws[j] == index[j]);
                assert(indexes_owner(index[j], log));
            } else if j < ws.len() - 1 {
                repo_writes_have_owner(
                    did_hash(e.did),
                    base_meta(s.repo_data.rows, e.did),
                    MutationSet::read(entry.mutation_set->0)->0,
                    log,
                    j - index.len(),
                );
            }
        }
        writes_keep_owners(s.repo_data.rows, log, ws);
        let rest = pending.skip(1);
        assert forall|i: int| 0 <= i < rest.len() implies log.contains(#[trigger] rest[i]) by {
            assert(rest[i] == pending[i + 1]);
        }
        replay_keeps_owners(t, log, rest);
    }
}

/// Replaying lost commits from the log keeps an index that has owners.
pub proof fn recovery_keeps_owners(s: EventState, indexes: KeyspaceView)
    requires
        in_sequence(s.log),
        index_has_owners(s.repo_data.rows, s.log),
    ensures
        index_has_owners(mutation_recovery(s, indexes).1.repo_data.rows, s.log),
{
    if pending_events(s) is Ok {
        pending_in_log(s);
        replay_keeps_owners(
            ReplayState { repo_data: s.repo_data, indexes },
            s.log,
            pending_events(s)->Ok_0,
        );
    }
}

proof fn prefixes_apart(t1: u8, h1: u64, t2: u8, h2: u64, key: Seq<u8>)
    requires
        has_prefix(key, seq![t1] + be8(h1)),
        has_prefix(key, seq![t2] + be8(h2)),
    ensures
        t1 == t2,
        h1 == h2,
{
    be_len(h1 as nat, 8);
    be_len(h2 as nat, 8);
    let a = seq![t1] + be8(h1);
    let b = seq![t2] + be8(h2);
    assert(a == key.take(9) && b == key.take(9));
    assert(a[0] == t1 && b[0] == t2);
    assert(a.skip(1) =~= be8(h1));
    assert(b.skip(1) =~= be8(h2));
    be8_injective(h1, h2);
}

proof fn deletion_keys(hash: u64, seqs: Seq<u64>, j: int)
    requires
        0 <= j < tombstone_writes(hash, seqs).len(),
    ensures
        ({
            let k = writes_key(tombstone_writes(hash, seqs)[j]);
            k[0] == KeyTag::SeqTombstone.byte() || has_prefix(k, did_events_prefix_bytes(hash))
        }),
    decreases seqs.len(),
{
    let before = tombstone_writes(hash, seqs.drop_last());
    if j < before.len() {
        deletion_keys(hash, seqs.drop_last(), j);
        assert(tombstone_writes(hash, seqs)[j] == before[j]);
    } else {
        let p = did_events_prefix_bytes(hash);
        let k = did_events_key_bytes(hash, seqs.last());
        assert(k.take(p.len() as int) =~= p);
    }
}

/// Deleting all events of an account but one leaves every other account alone: its rows in
/// the index of events, the rows of its revisions, and the events that are indexed for it.
pub proof fn deletion_leaves_others(
    s: EventState,
    did: Seq<char>,
    keep: i64,
    other: Seq<char>,
    key: Seq<u8>,
    seq: u64,
)
    requires
        s.repo_data.rows.dom().finite(),
        index_has_owners(s.repo_data.rows, s.log),
        deletion(s, did, keep).0 is Ok,
        did_hash(other) != did_hash(did),
    ensures
        ({
            let h = did_hash(other);
            let rows = s.repo_data.rows;
            let t = deletion(s, did, keep).1;
            &&& has_prefix(key, did_events_prefix_bytes(h)) || has_prefix(
                key,
                rev_to_seq_prefix_bytes(h),
            ) ==> lookup(t.repo_data.rows, key) == lookup(rows, key)
            &&& rows.contains_key(did_events_key_bytes(h, seq)) ==> visible_event(t, seq as i64)
                == visible_event(s, seq as i64)
        }),
{
    let hash = did_hash(did);
    let h = did_hash(other);
    let rows = s.repo_data.rows;
    let keys = prefix_keys(did_events_prefix_bytes(hash));
    let f = |row: RowView| other_seq(row, keep as u64);
    let drows = did_event_rows(rows, hash);
    scan_lists(rows, keys);
    let seqs = collect_all(drows, f)->Ok_0;
    let rev_keys = prefix_keys(rev_to_seq_prefix_bytes(hash));
    let rrows = scan(rows, rev_keys);
    scan_lists(rows, rev_keys);
    let g = |row: RowView| stale_rev_key(row, seqs);
    let stale = collect_all(rrows, g)->Ok_0;
    let ws = tombstone_writes(hash, seqs);
    let rs = removals(stale);
    let all = ws + rs;
    assert(deletion(s, did, keep).1.repo_data.rows == write_rows(rows, all));
    assert forall|j: int| 0 <= j < rs.len() implies has_prefix(
        writes_key(#[trigger] rs[j]),
        rev_to_seq_prefix_bytes(hash),
    ) by {
        let x = stale[j];
        assert(stale.contains(x));
        collected(rrows, g, rrows.len(), x);
        let r = choose|r: int|
            0 <= r < rrows.len() && g(#[trigger] rrows[r]) == Contribution::<Seq<u8>>::Ok(Some(x));
        assert(rev_keys.contains(rrows[r].key));
    }
    if has_prefix(key, did_events_prefix_bytes(h)) || has_prefix(key, rev_to_seq_prefix_bytes(h)) {
        let tag = if has_prefix(key, did_events_prefix_bytes(h)) {
            KeyTag::DidEvents.byte()
        } else {
            KeyTag::RevToSeq.byte()
        };
        assert(has_prefix(key, seq![tag] + be8(h)));
        assert(key.take((seq![tag] + be8(h)).len() as int)[0] == (seq![tag] + be8(h))[0]);
        assert(key[0] == tag);
        assert forall|j: int| 0 <= j < all.len() implies writes_key(#[trigger] all[j]) != key by {
            let k = writes_key(all[j]);
            if k == key {
                if j < ws.len() {
                    assert(all[j] == ws[j]);
                    deletion_keys(hash, seqs, j);
                    prefixes_apart(KeyTag::DidEvents.byte(), hash, tag, h, key);
                } else {
                    assert(all[j] == rs[j - ws.len()]);
                    prefixes_apart(KeyTag::RevToSeq.byte(), hash, tag, h, key);
                }
            }
        }
        write_rows_frame(rows, all, key);
    }
    if rows.contains_key(did_events_key_bytes(h, seq)) {
        assert(seq <= max_seq(s.log));
        if seqs.contains(seq) {
            collected(drows, f, drows.len(), seq);
            let i = choose|i: int|
                0 <= i < drows.len() && f(#[trigger] drows[i]) == Contribution::<u64>::Ok(Some(seq));
            let k = drows[i].key;
            assert(keys.contains(k) && rows.contains_key(k));
            let p = did_events_prefix_bytes(hash);
            assert(k.take(1) =~= k.take(p.len() as int).take(1));
            assert(p.take(1) =~= seq![KeyTag::DidEvents.byte()]);
            assert(is_event_key(k));
            let (h2, q) = choose|h2: u64, q: u64| k == #[trigger] did_events_key_bytes(h2, q);
            let p2 = did_events_prefix_bytes(h2);
            assert(k.take(p2.len() as int) =~= p2);
            prefixes_apart(KeyTag::DidEvents.byte(), hash, KeyTag::DidEvents.byte(), h2, k);
            second_number_round_trip(KeyTag::DidEvents.byte(), h2, q);
            assert(q == seq);
            assert(rows.contains_key(did_events_key_bytes(hash, seq)));
            assert(false);
        }
        tombstones_written(rows, hash, seqs, seq);
        write_rows_concat(rows, ws, rs);
        let tomb = seq_tombstone_key_bytes(seq);
        assert forall|j: int| 0 <= j < rs.len() implies writes_key(#[trigger] rs[j]) != tomb by {
            let k = writes_key(rs[j]);
            let p = rev_to_seq_prefix_bytes(hash);
            assert(k.take(p.len() as int)[0] == p[0]);
        }
        write_rows_frame(write_rows(rows, ws), rs, tomb);
    }
}

/// Purging an account's events leaves every other account alone.
pub proof fn purge_leaves_others(
    s: EventState,
    did: Seq<char>,
    other: Seq<char>,
    key: Seq<u8>,
    seq: u64,
)
    requires
        s.repo_data.rows.dom().finite(),
        index_has_owners(s.repo_data.rows, s.log),
        did_hash(other) != did_hash(did),
    ensures
        ({
            let h = did_hash(other);
            let rows = s.repo_data.rows;
            let t = purge(s, did).1;
            &&& has_prefix(key, did_events_prefix_bytes(h)) || has_prefix(
                key,
                rev_to_seq_prefix_bytes(h),
            ) ==> lookup(t.repo_data.rows, key) == lookup(rows, key)
            &&& rows.contains_key(did_events_key_bytes(h, seq)) ==> visible_event(t, seq as i64)
                == visible_event(s, seq as i64)
        }),
{
    if let Ok(seqs) = collect_all(
        did_event_rows(s.repo_data.rows, did_hash(did)),
        |row: RowView| indexed_seq(row),
    ) {
        if let Some(latest) = largest(seqs) {
            if latest <= i64::MAX && deletion(s, did, latest as i64).0 is Ok {
                deletion_leaves_others(s, did, latest as i64, other, key, seq);
            }
        }
    }
}

proof fn tombstones_have_owner(hash: u64, seqs: Seq<u64>, log: Seq<Entry>, j: int)
    requires
        0 <= j < tombstone_writes(hash, seqs).len(),
    ensures
        indexes_owner(tombstone_writes(hash, seqs)[j], log),
    decreases seqs.len(),
{
    let before = tombstone_writes(hash, seqs.drop_last());
    if j < before.len() {
        tombstones_have_owner(hash, seqs.drop_last(), log, j);
        assert(tombstone_writes(hash, seqs)[j] == before[j]);
    } else {
        let key = seq_tombstone_key_bytes(seqs.last());
        if is_event_key(key) {
            tag_of_event_key(key);
        }
    }
}

/// Deleting events keeps an index that has owners.
pub proof fn deletion_keeps_owners(s: EventState, did: Seq<char>, keep: i64)
    requires
        in_sequence(s.log),
        index_has_owners(s.repo_data.rows, s.log),
    ensures
        index_has_owners(deletion(s, did, keep).1.repo_data.rows, s.log),
{
    if deletion(s, did, keep).0 is Ok {
        let hash = did_hash(did);
        let rows = s.repo_data.rows;
        let seqs = collect_all(
            did_event_rows(rows, hash),
            |row: RowView| other_seq(row, keep as u64),
        )->Ok_0;
        let stale = collect_all(
            scan(rows, prefix_keys(rev_to_seq_prefix_bytes(hash))),
            |row: RowView| stale_rev_key(row, seqs),
        )->Ok_0;
        let ws = tombstone_writes(hash, seqs);
        let all = ws + removals(stale);
        assert forall|j: int| 0 <= j < all.len() implies #[trigger] indexes_owner(all[j], s.log) by {
            if j < ws.len() {
                assert(all[j] == ws[j]);
                tombstones_have_owner(hash, seqs, s.log, j);
            } else {
                assert(all[j] == removals(stale)[j - ws.len()]);
            }
        }
        writes_keep_owners(rows, s.log, all);
    }
}

} // verus!
