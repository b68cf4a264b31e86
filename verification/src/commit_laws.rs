//! What holds of commits whatever was done before.

use vstd::prelude::*;
use vstd::utf8::encode_utf8;

use crate::codec::{text_round_trip, Field};
use crate::commit_ops::{commit_outcome, current_repo, mutations_of, CommitInput, CommitState};
use crate::commit_ops::{imported, ImportedRecord, Refusal};
use crate::encoding::{be8, be8_injective, be_len, escaped, escaped_injective};
use crate::errors::{DbErrorView, MetastoreError};
use crate::event_ops::{applied_cursor, commit_event, cursor_write, index_writes, pending_events};
use crate::event_keys::seq_tombstone_key_bytes;
use crate::event_ops::{sidecar_writes, tombstoned, visible_event, EventState};
use crate::eventlog::{after, after_from, appended, appended_in_sequence, in_sequence, max_seq};
use crate::events::Entry;
use crate::keys::{did_hash, KeyTag};
use crate::records::{record_at, record_key_bytes, record_removals, record_writes};
use crate::recovery::{committed_meta, repo_writes, MutationSet};
use crate::replay::{base_meta, mutation_recovery, replay_all, replay_all_concat, replayed};
use crate::replay::ReplayState;
use crate::metastore::MetastoreView;
use crate::repo_meta::{repo_meta_key_bytes, repo_meta_keys_ordered, repo_meta_round_trip};
use crate::repo_meta::{repo_meta_read_fits, RepoMeta};
use crate::repo_ops::{repo_at, some_rev, Repo};
use crate::store::{batches_commute, lookup, storable, write_rows, write_rows_concat};
use crate::store::{write_rows_frame, write_rows_last, writes_key, WriteView};
use crate::types::{is_cid, Uuid};
use crate::user_hash::hash_of;

verus! {

/// A refused commit changes nothing.
pub proof fn refused_commit_changes_nothing(s: CommitState, input: CommitInput, now: i64)
    requires
        commit_outcome(s, input, now).0 is Err,
    ensures
        commit_outcome(s, input, now).1 == s,
{
}

/// A commit that expects another root than the repository's is refused as concurrent, and
/// one that expects none is not refused for its root.
pub proof fn stale_commit_is_refused(s: CommitState, input: CommitInput, now: i64)
    requires
        current_repo(s.store, input.user_id, None) is Ok,
        is_cid(current_repo(s.store, input.user_id, None)->Ok_0.1.repo_root_cid),
        input.expected_root_cid is Some,
        input.expected_root_cid->0 != current_repo(
            s.store,
            input.user_id,
            None,
        )->Ok_0.1.repo_root_cid,
    ensures
        commit_outcome(s, input, now) == (Err::<bool, Refusal>(Refusal::ConcurrentModification), s),
{
}

/// The parts of a commit's batch and the kinds of rows that they write.
pub proof fn commit_batch_tags(hash: u64, meta: RepoMeta, ms: MutationSet, i: int)
    requires
        0 < i < repo_writes(hash, meta, ms).len(),
    ensures
        ({
            let w = repo_writes(hash, meta, ms)[i];
            writes_key(w)[0] == KeyTag::Records.byte() || writes_key(w)[0]
                == KeyTag::UserBlocks.byte()
        }),
{
}

/// The index rows of an event are of three kinds.
pub proof fn index_tags(did: Seq<char>, rev: Option<Seq<char>>, seq: u64, i: int)
    requires
        0 <= i < index_writes(did, rev, seq).len(),
    ensures
        ({
            let k = writes_key(index_writes(did, rev, seq)[i]);
            k[0] == KeyTag::DidEvents.byte() || k[0] == KeyTag::RevToSeq.byte() || k[0]
                == KeyTag::MetastoreCursor.byte()
        }),
{
}

/// After a commit the repository is at the new root and revision.
pub proof fn committed_repo_is_read(s: CommitState, input: CommitInput, now: i64)
    requires
        storable(s.store.repo_data.rows),
        encode_utf8(input.new_rev).len() <= usize::MAX,
        is_cid(input.new_root_cid),
        commit_outcome(s, input, now).0 is Ok,
    ensures
        ({
            let t = commit_outcome(s, input, now).1.store;
            repo_at(t.repo_data.rows, t.user_hashes, input.user_id) == Ok::<
                Option<Repo>,
                MetastoreError,
            >(
                Some(
                    Repo {
                        user_id: input.user_id,
                        repo_root_cid: input.new_root_cid,
                        repo_rev: some_rev(input.new_rev),
                    },
                ),
            )
        }),
{
    let (hash, meta) = current_repo(s.store, input.user_id, input.expected_root_cid)->Ok_0;
    let ms = mutations_of(input);
    let rows = s.store.repo_data.rows;
    let seq = (max_seq(s.log) + 1) as u64;
    let changes = repo_writes(hash, meta, ms);
    let index = index_writes(input.commit_event.did, input.commit_event.rev, seq);
    let ws = changes + index;
    let key = repo_meta_key_bytes(hash);
    assert(writes_key(ws[0]) == key);
    assert(key[0] == KeyTag::RepoMeta.byte());
    assert forall|j: int| 0 < j < ws.len() implies writes_key(#[trigger] ws[j]) != writes_key(ws[0]) by {
        if j < changes.len() {
            assert(ws[j] == changes[j]);
            commit_batch_tags(hash, meta, ms, j);
        } else {
            assert(ws[j] == index[j - changes.len()]);
            index_tags(input.commit_event.did, input.commit_event.rev, seq, j - changes.len());
        }
    }
    write_rows_last(rows, ws, 0);
    repo_meta_read_fits(rows[key]);
    repo_meta_round_trip(committed_meta(meta, ms));
}

/// A commit replaces the root and the revision in the repository's row and nothing else: its
/// DID, handle, status, time of deactivation and takedown reference are those from before. The
/// account counts as active exactly where the row says so.
pub proof fn commit_keeps_rest_of_row(s: CommitState, input: CommitInput, now: i64)
    requires
        storable(s.store.repo_data.rows),
        encode_utf8(input.new_rev).len() <= usize::MAX,
        input.new_root_cid.len() <= usize::MAX,
        commit_outcome(s, input, now).0 is Ok,
    ensures
        ({
            let t = commit_outcome(s, input, now).1.store;
            let hash = hash_of(s.store.user_hashes, input.user_id);
            let before = lookup(s.store.repo_data.rows, repo_meta_key_bytes(hash->0));
            let after = lookup(t.repo_data.rows, repo_meta_key_bytes(hash->0));
            &&& hash is Some && before is Some && after is Some
            &&& t.user_hashes == s.store.user_hashes
            &&& RepoMeta::read(before->0) is Some && RepoMeta::read(after->0) is Some
            &&& ({
                let old_row = RepoMeta::read(before->0)->0;
                let new_row = RepoMeta::read(after->0)->0;
                &&& new_row.repo_root_cid == input.new_root_cid
                &&& new_row.repo_rev == input.new_rev
                &&& new_row.did == old_row.did
                &&& new_row.handle == old_row.handle
                &&& new_row.status == old_row.status
                &&& new_row.deactivated_at_ms == old_row.deactivated_at_ms
                &&& new_row.takedown_ref == old_row.takedown_ref
                &&& commit_outcome(s, input, now).0 == Ok::<bool, Refusal>(
                    old_row.status is Active,
                )
                &&& input.expected_root_cid matches Some(root) ==> root == old_row.repo_root_cid
            })
        }),
{
    let (hash, meta) = current_repo(s.store, input.user_id, input.expected_root_cid)->Ok_0;
    let ms = mutations_of(input);
    let rows = s.store.repo_data.rows;
    let seq = (max_seq(s.log) + 1) as u64;
    let changes = repo_writes(hash, meta, ms);
    let index = index_writes(input.commit_event.did, input.commit_event.rev, seq);
    let ws = changes + index;
    let key = repo_meta_key_bytes(hash);
    assert(writes_key(ws[0]) == key);
    assert(key[0] == KeyTag::RepoMeta.byte());
    assert forall|j: int| 0 < j < ws.len() implies writes_key(#[trigger] ws[j]) != writes_key(ws[0]) by {
        if j < changes.len() {
            assert(ws[j] == changes[j]);
            commit_batch_tags(hash, meta, ms, j);
        } else {
            assert(ws[j] == index[j - changes.len()]);
            index_tags(input.commit_event.did, input.commit_event.rev, seq, j - changes.len());
        }
    }
    write_rows_last(rows, ws, 0);
    repo_meta_read_fits(rows[key]);
    repo_meta_round_trip(committed_meta(meta, ms));
}

/// The event of a commit is read under the next number, with the DID, the type, the links, the
/// operations, the blobs, the blocks and the revision that the commit was given, and with the
/// time at which it was applied.
pub proof fn committed_event_is_read(s: CommitState, input: CommitInput, now: i64)
    requires
        in_sequence(s.log),
        !tombstoned(s.store.repo_data.rows, (max_seq(s.log) + 1) as i64),
        commit_outcome(s, input, now).0 is Ok,
    ensures
        ({
            let t = commit_outcome(s, input, now).1;
            let seq = (max_seq(s.log) + 1) as i64;
            let data = input.commit_event;
            let read = visible_event(EventState { repo_data: t.store.repo_data, log: t.log }, seq);
            &&& max_seq(s.log) < i64::MAX
            &&& read is Some
            &&& ({
                let e = read->0;
                &&& e.seq == seq
                &&& e.created_at == now
                &&& e.did == data.did
                &&& e.event_type == data.event_type
                &&& e.commit_cid == data.commit_cid
                &&& e.prev_cid == data.prev_cid
                &&& e.prev_data_cid == data.prev_data_cid
                &&& e.ops == data.ops
                &&& e.blobs == data.blobs
                &&& e.blocks == data.blocks
                &&& e.rev == data.rev
                &&& e.handle is None && e.active is None && e.status is None
            })
        }),
{
    let (hash, meta) = current_repo(s.store, input.user_id, input.expected_root_cid)->Ok_0;
    let ms = mutations_of(input);
    let seq = (max_seq(s.log) + 1) as i64;
    let changes = repo_writes(hash, meta, ms);
    let index = index_writes(input.commit_event.did, input.commit_event.rev, seq as u64);
    let ws = changes + index;
    let key = seq_tombstone_key_bytes(seq as u64);
    assert(key[0] == KeyTag::SeqTombstone.byte());
    assert forall|j: int| 0 <= j < ws.len() implies writes_key(#[trigger] ws[j]) != key by {
        if j == 0 {
            assert(writes_key(ws[0]) == repo_meta_key_bytes(hash));
        } else if j < changes.len() {
            assert(ws[j] == changes[j]);
            commit_batch_tags(hash, meta, ms, j);
        } else {
            assert(ws[j] == index[j - changes.len()]);
            index_tags(
                input.commit_event.did,
                input.commit_event.rev,
                seq as u64,
                j - changes.len(),
            );
        }
    }
    write_rows_frame(s.store.repo_data.rows, ws, key);
    appended_in_sequence(s.log, commit_event(input.commit_event, now), Some(ms.stored()));
    let log = commit_outcome(s, input, now).1.log;
    let n = s.log.len() as int;
    assert(log[n].event.seq == seq);
    let k = choose|k: int| 0 <= k < log.len() && (#[trigger] log[k]).event.seq == seq;
    if k < n {
        assert(log[k].event.seq < log[n].event.seq);
    }
}

/// Each record of a user has a row of its own.
pub proof fn record_keys_injective(
    h1: u64,
    c1: Seq<char>,
    r1: Seq<char>,
    h2: u64,
    c2: Seq<char>,
    r2: Seq<char>,
)
    ensures
        record_key_bytes(h1, c1, r1) == record_key_bytes(h2, c2, r2) ==> h1 == h2 && c1 == c2 && r1
            == r2,
{
    be_len(h1 as nat, 8);
    be_len(h2 as nat, 8);
    let a = record_key_bytes(h1, c1, r1);
    let b = record_key_bytes(h2, c2, r2);
    if a == b {
        let (ec1, er1) = (encode_utf8(c1), encode_utf8(r1));
        let (ec2, er2) = (encode_utf8(c2), encode_utf8(r2));
        let none = Seq::<u8>::empty();
        assert(a.subrange(1, 9) =~= be8(h1));
        assert(b.subrange(1, 9) =~= be8(h2));
        be8_injective(h1, h2);
        assert(a.skip(9) =~= escaped(ec1) + (escaped(er1) + none));
        assert(b.skip(9) =~= escaped(ec2) + (escaped(er2) + none));
        escaped_injective(ec1, ec2, escaped(er1) + none, escaped(er2) + none);
        escaped_injective(er1, er2, none, none);
        text_round_trip(c1);
        text_round_trip(c2);
        text_round_trip(r1);
        text_round_trip(r2);
    }
}

/// After a commit each record that it wrote last is read with its content identifier.
#[verifier::spinoff_prover]
#[verifier::rlimit(40)]
pub proof fn committed_record_is_read(s: CommitState, input: CommitInput, now: i64, i: int)
    requires
        commit_outcome(s, input, now).0 is Ok,
        0 <= i < input.record_upserts.len(),
        is_cid(input.record_upserts[i].cid),
        forall|j: int|
            i < j < input.record_upserts.len() ==> (#[trigger] input.record_upserts[j]).collection
                != input.record_upserts[i].collection || input.record_upserts[j].rkey
                != input.record_upserts[i].rkey,
        forall|j: int|
            0 <= j < input.record_deletes.len() ==> (#[trigger] input.record_deletes[j]).collection
                != input.record_upserts[i].collection || input.record_deletes[j].rkey
                != input.record_upserts[i].rkey,
    ensures
        ({
            let t = commit_outcome(s, input, now).1.store;
            let u = input.record_upserts[i];
            record_at(t.repo_data.rows, t.user_hashes, input.user_id, u.collection, u.rkey) == Ok::<
                Option<Seq<u8>>,
                MetastoreError,
            >(Some(u.cid))
        }),
{
    let (hash, meta) = current_repo(s.store, input.user_id, input.expected_root_cid)->Ok_0;
    let ms = mutations_of(input);
    let rows = s.store.repo_data.rows;
    let seq = (max_seq(s.log) + 1) as u64;
    let changes = repo_writes(hash, meta, ms);
    let index = index_writes(input.commit_event.did, input.commit_event.rev, seq);
    let ws = changes + index;
    let u = input.record_upserts[i];
    let key = record_key_bytes(hash, u.collection, u.rkey);
    let puts = record_writes(hash, ms.record_upserts);
    let dels = record_removals(hash, ms.record_deletes);
    let at = 1 + i;
    assert(ms.record_upserts[i].collection == u.collection);
    assert(ws[at] == puts[i]);
    assert(writes_key(ws[at]) == key);
    assert(key[0] == KeyTag::Records.byte());
    assert forall|j: int| at < j < ws.len() implies writes_key(#[trigger] ws[j]) != writes_key(
        ws[at],
    ) by {
        if j < 1 + puts.len() {
            assert(ws[j] == puts[j - 1]);
            let v = input.record_upserts[j - 1];
            assert(ms.record_upserts[j - 1].collection == v.collection);
            record_keys_injective(hash, v.collection, v.rkey, hash, u.collection, u.rkey);
        } else if j < 1 + puts.len() + dels.len() {
            assert(ws[j] == dels[j - 1 - puts.len()]);
            let v = input.record_deletes[j - 1 - puts.len()];
            record_keys_injective(hash, v.collection, v.rkey, hash, u.collection, u.rkey);
        } else if j < changes.len() {
            assert(writes_key(ws[j])[0] == KeyTag::UserBlocks.byte());
        } else {
            assert(ws[j] == index[j - changes.len()]);
            index_tags(input.commit_event.did, input.commit_event.rev, seq, j - changes.len());
        }
    }
    write_rows_last(rows, ws, at);
}

/// After a commit the records that it deleted are gone.
#[verifier::spinoff_prover]
#[verifier::rlimit(40)]
pub proof fn deleted_record_is_gone(s: CommitState, input: CommitInput, now: i64, i: int)
    requires
        commit_outcome(s, input, now).0 is Ok,
        0 <= i < input.record_deletes.len(),
    ensures
        ({
            let t = commit_outcome(s, input, now).1.store;
            let d = input.record_deletes[i];
            record_at(t.repo_data.rows, t.user_hashes, input.user_id, d.collection, d.rkey) == Ok::<
                Option<Seq<u8>>,
                MetastoreError,
            >(None)
        }),
{
    let (hash, meta) = current_repo(s.store, input.user_id, input.expected_root_cid)->Ok_0;
    let ms = mutations_of(input);
    let rows = s.store.repo_data.rows;
    let seq = (max_seq(s.log) + 1) as u64;
    let changes = repo_writes(hash, meta, ms);
    let index = index_writes(input.commit_event.did, input.commit_event.rev, seq);
    let d = input.record_deletes[i];
    let key = record_key_bytes(hash, d.collection, d.rkey);
    let puts = record_writes(hash, ms.record_upserts);
    let dels = record_removals(hash, ms.record_deletes);
    let head = changes.take(1 + puts.len() as int);
    let tail = (changes + index).skip(1 + puts.len() + dels.len() as int);
    let ws = changes + index;
    assert(ws =~= head + dels + tail);
    write_rows_concat(rows, head + dels, tail);
    write_rows_concat(rows, head, dels);
    removed(write_rows(rows, head), dels, i);
    assert(writes_key(dels[i]) == key);
    assert(key[0] == KeyTag::Records.byte());
    assert forall|j: int| 0 <= j < tail.len() implies writes_key(#[trigger] tail[j]) != key by {
        let k = j + 1 + puts.len() + dels.len();
        assert(tail[j] == ws[k]);
        if k < changes.len() {
            assert(writes_key(ws[k])[0] == KeyTag::UserBlocks.byte());
        } else {
            assert(ws[k] == index[k - changes.len()]);
            index_tags(input.commit_event.did, input.commit_event.rev, seq, k - changes.len());
        }
    }
    write_rows_frame(write_rows(rows, head + dels), tail, key);
}

pub(crate) proof fn removed(rows: crate::store::Rows, ws: Seq<WriteView>, i: int)
    requires
        0 <= i < ws.len(),
        forall|j: int| 0 <= j < ws.len() ==> #[trigger] ws[j] is Remove,
    ensures
        lookup(write_rows(rows, ws), writes_key(ws[i])) is None,
    decreases ws.len(),
{
    assert(ws[ws.len() - 1] is Remove);
    if i < ws.len() - 1 {
        let p = ws.drop_last();
        assert(p[i] == ws[i]);
        assert forall|j: int| 0 <= j < p.len() implies #[trigger] p[j] is Remove by {
            assert(p[j] == ws[j]);
        }
        removed(rows, p, i);
    }
}

/// A commit leaves alone the repositories of all other users, and every record, of its own
/// user too, that it neither writes nor deletes.
#[verifier::spinoff_prover]
#[verifier::rlimit(40)]
pub proof fn commit_leaves_others(
    s: CommitState,
    input: CommitInput,
    now: i64,
    h: u64,
    collection: Seq<char>,
    rkey: Seq<char>,
)
    requires
        commit_outcome(s, input, now).0 is Ok,
    ensures
        ({
            let hash = current_repo(s.store, input.user_id, input.expected_root_cid)->Ok_0.0;
            let before = s.store.repo_data.rows;
            let after = commit_outcome(s, input, now).1.store.repo_data.rows;
            let written = exists|i: int|
                0 <= i < input.record_upserts.len() && (#[trigger] input.record_upserts[i]).collection
                    == collection && input.record_upserts[i].rkey == rkey;
            let deleted = exists|i: int|
                0 <= i < input.record_deletes.len() && (#[trigger] input.record_deletes[i]).collection
                    == collection && input.record_deletes[i].rkey == rkey;
            &&& h != hash ==> lookup(after, repo_meta_key_bytes(h)) == lookup(
                before,
                repo_meta_key_bytes(h),
            )
            &&& h != hash || (!written && !deleted) ==> lookup(
                after,
                record_key_bytes(h, collection, rkey),
            ) == lookup(before, record_key_bytes(h, collection, rkey))
        }),
{
    let (hash, meta) = current_repo(s.store, input.user_id, input.expected_root_cid)->Ok_0;
    let ms = mutations_of(input);
    let rows = s.store.repo_data.rows;
    let seq = (max_seq(s.log) + 1) as u64;
    let changes = repo_writes(hash, meta, ms);
    let index = index_writes(input.commit_event.did, input.commit_event.rev, seq);
    let ws = changes + index;
    let puts = record_writes(hash, ms.record_upserts);
    let dels = record_removals(hash, ms.record_deletes);
    let own = repo_meta_key_bytes(h);
    let key = record_key_bytes(h, collection, rkey);
    assert(own[0] == KeyTag::RepoMeta.byte() && key[0] == KeyTag::Records.byte());
    assert forall|j: int| 0 < j < ws.len() implies writes_key(#[trigger] ws[j])[0]
        != KeyTag::RepoMeta.byte() by {
        if j < changes.len() {
            assert(ws[j] == changes[j]);
            commit_batch_tags(hash, meta, ms, j);
        } else {
            assert(ws[j] == index[j - changes.len()]);
            index_tags(input.commit_event.did, input.commit_event.rev, seq, j - changes.len());
        }
    }
    assert(writes_key(ws[0]) == repo_meta_key_bytes(hash));
    if h != hash {
        repo_meta_keys_ordered(h, hash);
        repo_meta_keys_ordered(hash, h);
        write_rows_frame(rows, ws, own);
    }
    if h != hash || (!exists|i: int|
        0 <= i < input.record_upserts.len() && (#[trigger] input.record_upserts[i]).collection
            == collection && input.record_upserts[i].rkey == rkey) && (!exists|i: int|
        0 <= i < input.record_deletes.len() && (#[trigger] input.record_deletes[i]).collection
            == collection && input.record_deletes[i].rkey == rkey) {
        assert forall|j: int| 0 <= j < ws.len() implies writes_key(#[trigger] ws[j]) != key by {
            if j == 0 {
                assert(writes_key(ws[0])[0] == KeyTag::RepoMeta.byte());
            } else if j < 1 + puts.len() {
                assert(ws[j] == puts[j - 1]);
                let v = input.record_upserts[j - 1];
                assert(ms.record_upserts[j - 1].collection == v.collection);
                record_keys_injective(hash, v.collection, v.rkey, h, collection, rkey);
            } else if j < 1 + puts.len() + dels.len() {
                assert(ws[j] == dels[j - 1 - puts.len()]);
                let v = input.record_deletes[j - 1 - puts.len()];
                record_keys_injective(hash, v.collection, v.rkey, h, collection, rkey);
            } else if j < changes.len() {
                assert(writes_key(ws[j])[0] == KeyTag::UserBlocks.byte());
            } else {
                assert(ws[j] == index[j - changes.len()]);
                index_tags(input.commit_event.did, input.commit_event.rev, seq, j - changes.len());
            }
        }
        write_rows_frame(rows, ws, key);
    }
}

/// After an import each record that it wrote last is read with its content identifier.
pub proof fn imported_record_is_read(
    s: MetastoreView,
    user_id: Uuid,
    records: Seq<ImportedRecord>,
    i: int,
)
    requires
        hash_of(s.user_hashes, user_id) is Some,
        0 <= i < records.len(),
        is_cid(records[i].record_cid),
        forall|j: int|
            i < j < records.len() ==> (#[trigger] records[j]).collection != records[i].collection
                || records[j].rkey != records[i].rkey,
    ensures
        ({
            let hash = hash_of(s.user_hashes, user_id)->0;
            let t = s.repo_data.commit(record_writes(hash, imported(records)));
            record_at(t.rows, s.user_hashes, user_id, records[i].collection, records[i].rkey)
                == Ok::<Option<Seq<u8>>, MetastoreError>(Some(records[i].record_cid))
        }),
{
    let hash = hash_of(s.user_hashes, user_id)->0;
    let ws = record_writes(hash, imported(records));
    assert(writes_key(ws[i]) == record_key_bytes(hash, records[i].collection, records[i].rkey));
    assert forall|j: int| i < j < ws.len() implies writes_key(#[trigger] ws[j]) != writes_key(
        ws[i],
    ) by {
        let (a, b) = (records[j], records[i]);
        assert(writes_key(ws[j]) == record_key_bytes(hash, a.collection, a.rkey));
        record_keys_injective(hash, a.collection, a.rkey, hash, b.collection, b.rkey);
    }
    write_rows_last(s.repo_data.rows, ws, i);
}

proof fn only_last_is_pending(log: Seq<Entry>, e: crate::events::Event, set: Option<Seq<u8>>)
    requires
        in_sequence(log),
        max_seq(log) < i64::MAX,
    ensures
        after(appended(log, e, set), max_seq(log)) == seq![appended(log, e, set).last()],
        max_seq(appended(log, e, set)) == max_seq(log) + 1,
        max_seq(log) >= 0,
{
    let t = appended(log, e, set);
    let n = log.len() as int;
    let last = max_seq(log);
    assert forall|i: int| 0 <= i < n implies (#[trigger] t[i]).event.seq <= last by {
        assert(t[i] == log[i]);
        if i < n - 1 {
            assert(log[i].event.seq < log[n - 1].event.seq);
        }
    }
    assert forall|i: int| n <= i < t.len() implies (#[trigger] t[i]).event.seq > last by {
        assert(i == n);
    }
    after_from(t, last, n);
    assert(t.skip(n) =~= seq![t.last()]);
    if n > 0 {
        assert(log[n - 1].event.seq > 0);
    }
}

proof fn commit_rows_agree(
    rows: crate::store::Rows,
    hash: u64,
    meta: RepoMeta,
    ms: MutationSet,
    did: Seq<char>,
    rev: Option<Seq<char>>,
    seq: u64,
)
    ensures
        write_rows(
            rows,
            (sidecar_writes(did, rev, seq) + repo_writes(hash, meta, ms)).push(cursor_write(seq)),
        ) == write_rows(rows, repo_writes(hash, meta, ms) + index_writes(did, rev, seq)),
{
    let index = sidecar_writes(did, rev, seq);
    let all_index = index_writes(did, rev, seq);
    let changes = repo_writes(hash, meta, ms);
    let cursor = seq![cursor_write(seq)];
    assert(all_index =~= index + cursor);
    assert((index + changes).push(cursor_write(seq)) =~= (index + changes) + cursor);
    assert(changes + all_index =~= (changes + index) + cursor);
    assert forall|i: int, j: int|
        0 <= i < index.len() && 0 <= j < changes.len() implies writes_key(#[trigger] index[i])
        != writes_key(#[trigger] changes[j]) by {
        assert(index[i] == all_index[i]);
        index_tags(did, rev, seq, i);
        if j > 0 {
            commit_batch_tags(hash, meta, ms, j);
        } else {
            assert(writes_key(changes[0])[0] == KeyTag::RepoMeta.byte());
        }
    }
    batches_commute(rows, index, changes);
    write_rows_concat(rows, index + changes, cursor);
    write_rows_concat(rows, changes + index, cursor);
}

proof fn replay_of_one(start: ReplayState, entry: Entry)
    ensures
        replay_all(start, seq![entry]) == (match replayed(start, entry) {
            Ok(t) => (Ok::<(), DbErrorView>(()), t),
            Err(e) => (Err::<(), DbErrorView>(e), start),
        }),
{
    reveal_with_fuel(replay_all, 2);
    assert(seq![entry].skip(1) =~= Seq::empty());
}

/// A commit together with the time of its event.
pub struct TimedCommit {
    pub input: CommitInput,
    pub now: i64,
}

/// The state after some commits, one after another.
pub open spec fn after_commits(s: CommitState, commits: Seq<TimedCommit>) -> CommitState
    decreases commits.len(),
{
    if commits.len() == 0 {
        s
    } else {
        let before = after_commits(s, commits.drop_last());
        commit_outcome(before, commits.last().input, commits.last().now).1
    }
}

/// All of some commits were accepted, one after another, each with an event of its user's
/// account and changes that can be stored.
pub open spec fn all_accepted(s: CommitState, commits: Seq<TimedCommit>) -> bool
    decreases commits.len(),
{
    commits.len() > 0 ==> {
        let before = after_commits(s, commits.drop_last());
        let c = commits.last();
        &&& all_accepted(s, commits.drop_last())
        &&& commit_outcome(before, c.input, c.now).0 is Ok
        &&& hash_of(s.store.user_hashes, c.input.user_id) == Some(
            did_hash(c.input.commit_event.did),
        )
        &&& mutations_of(c.input).fits()
    }
}

/// Replaying the event of a commit does to the rows what the commit did.
proof fn replay_agrees(s: CommitState, start: ReplayState, input: CommitInput, now: i64)
    requires
        commit_outcome(s, input, now).0 is Ok,
        start.repo_data.rows == s.store.repo_data.rows,
        start.indexes.rows == s.store.indexes.rows,
        max_seq(s.log) >= 0,
        hash_of(s.store.user_hashes, input.user_id) == Some(did_hash(input.commit_event.did)),
        mutations_of(input).fits(),
    ensures
        ({
            let t = commit_outcome(s, input, now).1;
            replayed(start, t.log.last()) matches Ok(end) && end.repo_data.rows
                == t.store.repo_data.rows && end.indexes.rows == t.store.indexes.rows
        }),
{
    let t = commit_outcome(s, input, now).1;
    let (hash, meta) = current_repo(s.store, input.user_id, input.expected_root_cid)->Ok_0;
    let ms = mutations_of(input);
    let event = input.commit_event;
    let rows = s.store.repo_data.rows;
    let seq = (max_seq(s.log) + 1) as u64;
    let entry = t.log.last();
    ms.round_trip();
    assert(base_meta(rows, event.did) == meta);
    commit_rows_agree(rows, hash, meta, ms, event.did, event.rev, seq);
    reveal(replayed);
    assert(entry.event.seq as u64 == seq);
    assert(entry.event.did == event.did && entry.event.rev == event.rev);
    assert(entry.mutation_set == Some(ms.stored()));
}

proof fn lost_commits_replayed(s: CommitState, commits: Seq<TimedCommit>)
    requires
        in_sequence(s.log),
        all_accepted(s, commits),
    ensures
        ({
            let t = after_commits(s, commits);
            let n = s.log.len() as int;
            let start = ReplayState { repo_data: s.store.repo_data, indexes: s.store.indexes };
            let (outcome, end) = replay_all(start, t.log.skip(n));
            &&& in_sequence(t.log)
            &&& t.log.len() == n + commits.len()
            &&& t.log.take(n) == s.log
            &&& max_seq(t.log) == max_seq(s.log) + commits.len()
            &&& t.store.user_hashes == s.store.user_hashes
            &&& outcome is Ok
            &&& end.repo_data.rows == t.store.repo_data.rows
            &&& end.indexes.rows == t.store.indexes.rows
        }),
    decreases commits.len(),
{
    let t = after_commits(s, commits);
    let n = s.log.len() as int;
    let start = ReplayState { repo_data: s.store.repo_data, indexes: s.store.indexes };
    if commits.len() == 0 {
        assert(t.log.skip(n) =~= Seq::empty());
        assert(t.log.take(n) =~= s.log);
    } else {
        let c = commits.last();
        let before = after_commits(s, commits.drop_last());
        lost_commits_replayed(s, commits.drop_last());
        let done = before.log.skip(n);
        let mid = replay_all(start, done).1;
        let e = commit_event(c.input.commit_event, c.now);
        let set = Some(mutations_of(c.input).stored());
        only_last_is_pending(before.log, e, set);
        appended_in_sequence(before.log, e, set);
        assert(t.log == appended(before.log, e, set));
        assert(t.log.take(n) =~= before.log.take(n));
        assert(t.log.skip(n) =~= done + seq![t.log.last()]);
        replay_agrees(before, mid, c.input, c.now);
        replay_of_one(mid, t.log.last());
        replay_all_concat(start, done, seq![t.log.last()]);
    }
}

/// Recovery from the event log restores commits whose batches were lost: where the log has
/// the events of some commits and nothing else is pending, be they the first events of all,
/// the recovery counts them and leaves the rows that the commits would have left.
#[verifier::spinoff_prover]
#[verifier::rlimit(60)]
pub proof fn recovery_restores_lost_commits(s: CommitState, commits: Seq<TimedCommit>)
    requires
        all_accepted(s, commits),
        in_sequence(s.log),
        applied_cursor(s.store.repo_data.rows) matches Ok(c) && (match c {
            Some(n) => n == max_seq(s.log),
            None => max_seq(s.log) == 0,
        }),
    ensures
        ({
            let t = after_commits(s, commits);
            let lost = EventState { repo_data: s.store.repo_data, log: t.log };
            let (outcome, end) = mutation_recovery(lost, s.store.indexes);
            &&& outcome matches Ok(n) && n == commits.len()
            &&& end.repo_data.rows == t.store.repo_data.rows
            &&& end.indexes.rows == t.store.indexes.rows
        }),
{
    let t = after_commits(s, commits);
    let n = s.log.len() as int;
    let last = max_seq(s.log);
    let lost = EventState { repo_data: s.store.repo_data, log: t.log };
    lost_commits_replayed(s, commits);
    assert(last >= 0) by {
        if n > 0 {
            assert(s.log[n - 1].event.seq > 0);
        }
    }
    if commits.len() == 0 {
        assert(t.log.skip(n) =~= Seq::empty());
        assert(pending_events(lost) == Ok::<Seq<Entry>, MetastoreError>(Seq::empty()));
    } else {
        assert forall|i: int| 0 <= i < n implies (#[trigger] t.log[i]).event.seq <= last by {
            assert(t.log.take(n)[i] == s.log[i]);
            if i < n - 1 {
                assert(s.log[i].event.seq < s.log[n - 1].event.seq);
            }
        }
        assert forall|i: int| n <= i < t.log.len() implies (#[trigger] t.log[i]).event.seq > last by {
            if n > 0 {
                assert(t.log.take(n)[n - 1] == s.log[n - 1]);
                assert(t.log[n - 1].event.seq < t.log[i].event.seq);
            }
        }
        after_from(t.log, last, n);
        assert(pending_events(lost) == Ok::<Seq<Entry>, MetastoreError>(t.log.skip(n)));
    }
}

} // verus!
