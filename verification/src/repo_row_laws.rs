//! What is read of repositories' rows and of their records, whatever was done before.

use vstd::prelude::*;
use vstd::utf8::encode_utf8;

use crate::bytes::has_prefix;
use crate::commit_laws::{record_keys_injective, removed};
use crate::commit_ops::{all_repo_rows, any_with_prefix, lacks_blocks, needs_backfill};
use crate::commit_ops::{record_blob_writes, record_blobs_key_bytes, record_blobs_prefix_bytes};
use crate::commit_ops::{user_hash_key_round_trip, BackfillUser, BlocklessUser, CommitState};
use crate::commit_ops::{current_repo, import_plan, BlockInput, ImportedRecord, RecordBlobs};
use crate::dispatch::{repo_created, with_records};
use crate::encoding::{be8, be8_injective, be_len};
use crate::errors::MetastoreError;
use crate::events::Entry;
use crate::event_ops::{cursor_write, sidecar_writes};
use crate::keys::{did_hash, KeyTag};
use crate::metastore::MetastoreView;
use crate::backlinks::{target_key_bytes, uri_key_bytes, user_links_prefix_bytes, Link};
use crate::commit_ops::{bad_block, Refusal};
use crate::link_laws::link_keys_injective;
use crate::purge::{all_record_removals, listed_repos, records_prefix_bytes, RepoEntry};
use crate::purge::{link_rows, pair_removals_remove, unlinked, user_link, user_link_rows};
use crate::records::{record_at, record_key_bytes, record_removals, record_writes};
use crate::recovery::{committed_meta, repo_writes, MutationSet};
use crate::replay::{base_meta, replayed, ReplayState};
use crate::repo_meta::{handle_key_bytes, repo_meta_key_bytes, repo_meta_keys_ordered};
use crate::repo_meta::{repo_meta_read_fits, repo_meta_round_trip, RepoMeta};
use crate::repo_ops::{new_repo, new_repo_writes};
use crate::repo_steps::{records_upserted, repo_meta_of, user_rows_changed, zipped_keys};
use crate::repo_steps::zipped_records;
use crate::scan::{collect_all, collected, Contribution};
use crate::store::{lookup, prefix_keys, removing_rows, row_is_listed, scan, scan_lists, storable};
use crate::store::{write_rows, write_rows_frame, write_rows_last, writes_key};
use crate::store::{RowView, Rows, WriteView};
use crate::types::{is_cid, Uuid};
use crate::user_blocks::{block_removals, block_writes, user_block_key_bytes};
use crate::user_blocks::user_block_prefix_bytes;
use crate::user_hash::{hash_of, hash_refusal, injective, uuid_of, UserHashes};

verus! {

/// A repository that was created is read with the DID, the handle, the root and the revision
/// that it was created with, as active and never taken down, and is found under its handle.
/// Other repositories and other handles are as they were.
pub proof fn created_row_is_read(
    s: MetastoreView,
    user_id: Uuid,
    did: Seq<char>,
    handle: Seq<char>,
    root: Seq<u8>,
    rev: Seq<char>,
    other: u64,
)
    requires
        hash_refusal(s.user_hashes, user_id, did_hash(did)) is None,
        new_repo(did, handle, root, rev).fits(),
    ensures
        ({
            let (r, t) = repo_created(s, user_id, did, handle, root, rev);
            &&& r is Ok
            &&& repo_meta_of(t, user_id) matches Ok(Some((hash, m))) && {
                &&& hash == did_hash(did)
                &&& m.did == Some(did)
                &&& m.handle == handle
                &&& m.repo_root_cid == root
                &&& m.repo_rev == rev
                &&& m.status is Active
                &&& m.deactivated_at_ms is None
                &&& m.takedown_ref is None
            }
            &&& lookup(t.repo_data.rows, handle_key_bytes(handle)) == Some(be8(did_hash(did)))
            &&& other != did_hash(did) ==> lookup(t.repo_data.rows, repo_meta_key_bytes(other))
                == lookup(s.repo_data.rows, repo_meta_key_bytes(other))
        }),
{
    let hash = did_hash(did);
    let meta = new_repo(did, handle, root, rev);
    let ws = new_repo_writes(user_id, hash, meta);
    let rows = s.repo_data.rows;
    assert(writes_key(ws[0])[0] == KeyTag::UserHash.byte());
    assert(writes_key(ws[1])[0] == KeyTag::RepoMeta.byte());
    assert(writes_key(ws[2])[0] == KeyTag::Handles.byte());
    write_rows_last(rows, ws, 1);
    write_rows_last(rows, ws, 2);
    repo_meta_round_trip(meta);
    if other != hash {
        let key = repo_meta_key_bytes(other);
        assert(key[0] == KeyTag::RepoMeta.byte());
        repo_meta_keys_ordered(other, hash);
        write_rows_frame(rows, ws, key);
    }
}

/// Records that were written are read with their identifiers, each under its own collection and
/// key; the repository's row has the revision that they were written at and is otherwise as it
/// was. Without a repository nothing is written.
#[verifier::spinoff_prover]
#[verifier::rlimit(60)]
pub proof fn written_records_are_read(
    s: MetastoreView,
    user_id: Uuid,
    collections: Seq<Seq<char>>,
    rkeys: Seq<Seq<char>>,
    cids: Seq<Seq<u8>>,
    rev: Seq<char>,
    i: int,
)
    requires
        storable(s.repo_data.rows),
        encode_utf8(rev).len() <= usize::MAX,
        0 <= i < collections.len(),
        i < rkeys.len(),
        i < cids.len(),
        is_cid(cids[i]),
        forall|j: int|
            i < j < collections.len() && j < rkeys.len() ==> #[trigger] collections[j]
                != collections[i] || rkeys[j] != rkeys[i],
    ensures
        ({
            let (r, t) = records_upserted(
                s,
                user_id,
                zipped_records(collections, rkeys, cids),
                rev,
            );
            let before = repo_meta_of(s, user_id);
            &&& r is Ok <==> (before matches Ok(Some(_)))
            &&& r is Err ==> t == s
            &&& before matches Ok(Some((hash, m))) ==> {
                &&& record_at(t.repo_data.rows, t.user_hashes, user_id, collections[i], rkeys[i])
                    == Ok::<Option<Seq<u8>>, MetastoreError>(Some(cids[i]))
                &&& repo_meta_of(t, user_id) matches Ok(Some((h, n))) && {
                    &&& h == hash
                    &&& n.repo_rev == rev
                    &&& n.repo_root_cid == m.repo_root_cid
                    &&& n.did == m.did
                    &&& n.handle == m.handle
                    &&& n.status == m.status
                    &&& n.deactivated_at_ms == m.deactivated_at_ms
                    &&& n.takedown_ref == m.takedown_ref
                }
            }
        }),
{
    let records = zipped_records(collections, rkeys, cids);
    if let Ok(Some((hash, m))) = repo_meta_of(s, user_id) {
        let rows = s.repo_data.rows;
        let key = repo_meta_key_bytes(hash);
        let n = RepoMeta { repo_rev: rev, ..m };
        let puts = record_writes(hash, records);
        let ws = puts.push(WriteView::Put { key, value: n.stored() });
        repo_meta_read_fits(rows[key]);
        assert(n.fits());
        repo_meta_round_trip(n);
        assert(key[0] == KeyTag::RepoMeta.byte());
        write_rows_last(rows, ws, ws.len() - 1);
        assert(records[i].collection == collections[i]);
        assert(ws[i] == puts[i]);
        assert(writes_key(ws[i]) == record_key_bytes(hash, collections[i], rkeys[i]));
        assert(writes_key(ws[i])[0] == KeyTag::Records.byte());
        assert forall|j: int| i < j < ws.len() implies writes_key(#[trigger] ws[j]) != writes_key(
            ws[i],
        ) by {
            if j < puts.len() {
                assert(ws[j] == puts[j]);
                assert(records[j].collection == collections[j]);
                record_keys_injective(
                    hash,
                    collections[j],
                    rkeys[j],
                    hash,
                    collections[i],
                    rkeys[i],
                );
            }
        }
        write_rows_last(rows, ws, i);
    }
}

/// Records that were deleted are gone, and no other record of any user is.
#[verifier::spinoff_prover]
pub proof fn deleted_records_are_not_read(
    s: MetastoreView,
    user_id: Uuid,
    collections: Seq<Seq<char>>,
    rkeys: Seq<Seq<char>>,
    i: int,
    other: Uuid,
    collection: Seq<char>,
    rkey: Seq<char>,
)
    requires
        injective(s.user_hashes),
        hash_of(s.user_hashes, user_id) is Some,
    ensures
        ({
            let (r, t) = user_rows_changed(
                s,
                user_id,
                |hash: u64| record_removals(hash, zipped_keys(collections, rkeys)),
            );
            let kept = other != user_id || forall|j: int|
                0 <= j < collections.len() && j < rkeys.len() ==> #[trigger] collections[j]
                    != collection || rkeys[j] != rkey;
            &&& r is Ok
            &&& 0 <= i < collections.len() && i < rkeys.len() ==> record_at(
                t.repo_data.rows,
                t.user_hashes,
                user_id,
                collections[i],
                rkeys[i],
            ) == Ok::<Option<Seq<u8>>, MetastoreError>(None)
            &&& kept ==> record_at(t.repo_data.rows, t.user_hashes, other, collection, rkey)
                == record_at(s.repo_data.rows, s.user_hashes, other, collection, rkey)
        }),
{
    let hash = hash_of(s.user_hashes, user_id)->0;
    let keys = zipped_keys(collections, rkeys);
    let ws = record_removals(hash, keys);
    let rows = s.repo_data.rows;
    if 0 <= i < collections.len() && i < rkeys.len() {
        removed(rows, ws, i);
        assert(writes_key(ws[i]) == record_key_bytes(hash, collections[i], rkeys[i]));
    }
    let kept = other != user_id || forall|j: int|
        0 <= j < collections.len() && j < rkeys.len() ==> #[trigger] collections[j] != collection
            || rkeys[j] != rkey;
    if kept && hash_of(s.user_hashes, other) is Some {
        let h = hash_of(s.user_hashes, other)->0;
        assert(s.user_hashes.contains_key(other) && s.user_hashes.contains_key(user_id));
        let key = record_key_bytes(h, collection, rkey);
        assert forall|j: int| 0 <= j < ws.len() implies writes_key(#[trigger] ws[j]) != key by {
            assert(keys[j].collection == collections[j]);
            record_keys_injective(hash, collections[j], rkeys[j], h, collection, rkey);
        }
        write_rows_frame(rows, ws, key);
    }
}

/// Deleting all records of a user leaves those of every other user.
pub proof fn other_users_keep_records(
    s: MetastoreView,
    user_id: Uuid,
    other: Uuid,
    collection: Seq<char>,
    rkey: Seq<char>,
)
    requires
        s.repo_data.rows.dom().finite(),
        injective(s.user_hashes),
        hash_of(s.user_hashes, user_id) is Some,
        other != user_id,
    ensures
        ({
            let t = user_rows_changed(
                s,
                user_id,
                |hash: u64| all_record_removals(s.repo_data.rows, hash),
            ).1;
            record_at(t.repo_data.rows, t.user_hashes, other, collection, rkey) == record_at(
                s.repo_data.rows,
                s.user_hashes,
                other,
                collection,
                rkey,
            )
        }),
{
    if hash_of(s.user_hashes, other) is Some {
        let hash = hash_of(s.user_hashes, user_id)->0;
        let h = hash_of(s.user_hashes, other)->0;
        assert(s.user_hashes.contains_key(other) && s.user_hashes.contains_key(user_id));
        let m = s.repo_data.rows;
        let prefix = records_prefix_bytes(hash);
        let keys = prefix_keys(prefix);
        let key = record_key_bytes(h, collection, rkey);
        scan_lists(m, keys);
        removing_rows(m, scan(m, keys), key);
        be_len(hash as nat, 8);
        be_len(h as nat, 8);
        if has_prefix(key, prefix) {
            assert(key.take(prefix.len() as int).skip(1) =~= be8(h));
            assert(prefix.skip(1) =~= be8(hash));
            be8_injective(h, hash);
        }
        if exists|i: int| 0 <= i < scan(m, keys).len() && (#[trigger] scan(m, keys)[i]).key == key {
            let i = choose|i: int|
                0 <= i < scan(m, keys).len() && (#[trigger] scan(m, keys)[i]).key == key;
            assert(keys.contains(scan(m, keys)[i].key));
        }
    }
}

/// Blocks that were stored for a user stand under their identifiers with the revision, and those
/// that were removed are gone.
pub proof fn stored_blocks_have_revision(
    s: MetastoreView,
    user_id: Uuid,
    cids: Seq<Seq<u8>>,
    rev: Seq<char>,
    i: int,
)
    requires
        hash_of(s.user_hashes, user_id) is Some,
        0 <= i < cids.len(),
    ensures
        ({
            let hash = hash_of(s.user_hashes, user_id)->0;
            let (r, t) = user_rows_changed(s, user_id, |h: u64| block_writes(h, cids, rev));
            let (q, u) = user_rows_changed(s, user_id, |h: u64| block_removals(h, cids));
            &&& r is Ok && q is Ok
            &&& lookup(t.repo_data.rows, user_block_key_bytes(hash, cids[i])) == Some(
                encode_utf8(rev),
            )
            &&& lookup(u.repo_data.rows, user_block_key_bytes(hash, cids[i])) is None
        }),
    decreases cids.len(),
{
    let hash = hash_of(s.user_hashes, user_id)->0;
    let rows = s.repo_data.rows;
    let ws = block_writes(hash, cids, rev);
    let rs = block_removals(hash, cids);
    removed(rows, rs, i);
    assert(writes_key(rs[i]) == user_block_key_bytes(hash, cids[i]));
    if i == cids.len() - 1 {
        write_rows_last(rows, ws, i);
    } else {
        let before = cids.drop_last();
        stored_blocks_have_revision(s, user_id, before, rev, i);
        assert(ws.drop_last() =~= block_writes(hash, before, rev));
        assert(ws.last() == WriteView::Put {
            key: user_block_key_bytes(hash, cids.last()),
            value: encode_utf8(rev),
        });
        }
}

/// Every repository stands under the hash of a user.
pub open spec fn repos_stand_under_hashes(rows: Rows) -> bool {
    forall|k: Seq<u8>|
        rows.contains_key(k) && #[trigger] has_prefix(k, seq![KeyTag::RepoMeta.byte()])
            ==> exists|h: u64| k == #[trigger] repo_meta_key_bytes(h)
}

proof fn repo_row_listed(rows: Rows, hash: u64) -> (i: int)
    requires
        rows.dom().finite(),
        rows.contains_key(repo_meta_key_bytes(hash)),
    ensures
        0 <= i < all_repo_rows(rows).len(),
        all_repo_rows(rows)[i] == (RowView {
            key: repo_meta_key_bytes(hash),
            value: rows[repo_meta_key_bytes(hash)],
        }),
{
    let key = repo_meta_key_bytes(hash);
    assert(key.take(1) =~= seq![KeyTag::RepoMeta.byte()]);
    row_is_listed(rows, prefix_keys(seq![KeyTag::RepoMeta.byte()]), key)
}

/// A user is listed as without blocks exactly where no block is stored for the user, with the
/// root and the revision of the user's repository; and as to be searched for blobs exactly where
/// no blobs are recorded for the user, with the DID of the repository.
#[verifier::spinoff_prover]
#[verifier::rlimit(60)]
pub proof fn lacking_users_are_listed(
    rows: Rows,
    hashes: UserHashes,
    id: Uuid,
    hash: u64,
    meta: RepoMeta,
)
    requires
        rows.dom().finite(),
        repos_stand_under_hashes(rows),
        injective(hashes),
        hash_of(hashes, id) == Some(hash),
        lookup(rows, repo_meta_key_bytes(hash)) is Some,
        RepoMeta::read(rows[repo_meta_key_bytes(hash)]) == Some(meta),
    ensures
        ({
            let blockless = collect_all(
                all_repo_rows(rows),
                |row: RowView| lacks_blocks(row, rows, hashes),
            );
            let blobless = collect_all(
                all_repo_rows(rows),
                |row: RowView| needs_backfill(row, rows, hashes),
            );
            let has_blocks = any_with_prefix(rows, user_block_prefix_bytes(hash));
            let has_blobs = any_with_prefix(rows, record_blobs_prefix_bytes(hash));
            &&& blockless matches Ok(list) ==> {
                &&& (exists|x: BlocklessUser| #[trigger] list.contains(x) && x.user_id == id)
                    <==> !has_blocks
                &&& forall|x: BlocklessUser| #[trigger]
                    list.contains(x) && x.user_id == id ==> x.repo_root_cid == meta.repo_root_cid && (
                    meta.repo_rev.len() > 0 ==> x.repo_rev == Some(meta.repo_rev)) && (
                    meta.repo_rev.len() == 0 ==> x.repo_rev is None)
            }
            &&& blobless matches Ok(list) ==> {
                &&& (exists|x: BackfillUser| #[trigger] list.contains(x) && x.user_id == id)
                    <==> !has_blobs
                &&& forall|x: BackfillUser| #[trigger]
                    list.contains(x) && x.user_id == id ==> Some(x.did) == meta.did
            }
        }),
{
    let all = all_repo_rows(rows);
    let keys = prefix_keys(seq![KeyTag::RepoMeta.byte()]);
    let key = repo_meta_key_bytes(hash);
    scan_lists(rows, keys);
    let k = repo_row_listed(rows, hash);
    user_hash_key_round_trip(hash);
    assert(hashes.contains_key(id) && hashes[id] == hash);
    crate::user_hash::lookups_are_inverse(hashes, id, hash);
    let f = |row: RowView| lacks_blocks(row, rows, hashes);
    let g = |row: RowView| needs_backfill(row, rows, hashes);
    if collect_all(all, f) is Ok {
        let list = collect_all(all, f)->Ok_0;
        crate::comms_laws::all_readable(all, f, all.len());
        assert(f(all[k]) is Ok);
        assert forall|x: BlocklessUser| #[trigger] list.contains(x) && x.user_id == id implies f(
            all[k],
        ) == Contribution::<BlocklessUser>::Ok(Some(x)) by {
            collected(all, f, all.len(), x);
            let i = choose|i: int|
                0 <= i < all.len() && f(#[trigger] all[i]) == Contribution::<BlocklessUser>::Ok(
                    Some(x),
                );
            same_repo_row(rows, hashes, id, hash, i);
        }
        if !any_with_prefix(rows, user_block_prefix_bytes(hash)) {
            let x = f(all[k])->Ok_0->0;
            assert(f(all[k]) == Contribution::<BlocklessUser>::Ok(Some(x)));
            collected(all, f, all.len(), x);
            assert(list.contains(x) && x.user_id == id);
        }
    }
    if collect_all(all, g) is Ok {
        let list = collect_all(all, g)->Ok_0;
        crate::comms_laws::all_readable(all, g, all.len());
        assert(g(all[k]) is Ok);
        assert forall|x: BackfillUser| #[trigger] list.contains(x) && x.user_id == id implies g(
            all[k],
        ) == Contribution::<BackfillUser>::Ok(Some(x)) by {
            collected(all, g, all.len(), x);
            let i = choose|i: int|
                0 <= i < all.len() && g(#[trigger] all[i]) == Contribution::<BackfillUser>::Ok(
                    Some(x),
                );
            same_repo_row(rows, hashes, id, hash, i);
        }
        if !any_with_prefix(rows, record_blobs_prefix_bytes(hash)) {
            let x = g(all[k])->Ok_0->0;
            assert(g(all[k]) == Contribution::<BackfillUser>::Ok(Some(x)));
            collected(all, g, all.len(), x);
            assert(list.contains(x) && x.user_id == id);
        }
    }
}

proof fn same_repo_row(rows: Rows, hashes: UserHashes, id: Uuid, hash: u64, i: int)
    requires
        rows.dom().finite(),
        repos_stand_under_hashes(rows),
        injective(hashes),
        hash_of(hashes, id) == Some(hash),
        0 <= i < all_repo_rows(rows).len(),
        crate::commit_ops::user_hash_in_key(all_repo_rows(rows)[i].key) is Some,
        uuid_of(
            hashes,
            crate::commit_ops::user_hash_in_key(all_repo_rows(rows)[i].key)->0,
        ) == Some(id),
    ensures
        all_repo_rows(rows)[i] == (RowView {
            key: repo_meta_key_bytes(hash),
            value: rows[repo_meta_key_bytes(hash)],
        }),
{
    let all = all_repo_rows(rows);
    let keys = prefix_keys(seq![KeyTag::RepoMeta.byte()]);
    scan_lists(rows, keys);
    let key = all[i].key;
    assert(keys.contains(key) && rows.contains_key(key));
    assert(has_prefix(key, seq![KeyTag::RepoMeta.byte()]));
    let h = choose|h: u64| key == #[trigger] repo_meta_key_bytes(h);
    user_hash_key_round_trip(h);
    assert(uuid_of(hashes, h) == Some(id));
    crate::user_hash::lookups_are_inverse(hashes, id, h);
}

/// The blobs that some records name are stored under each of the records, all of them.
pub proof fn recorded_blobs_are_stored(
    rows: Rows,
    hash: u64,
    uris: Seq<Seq<char>>,
    cids: Seq<Seq<u8>>,
    i: int,
)
    requires
        0 <= i < uris.len(),
        (RecordBlobs { blob_cid_bytes: cids }).fits(),
    ensures
        lookup(
            write_rows(rows, record_blob_writes(hash, uris, cids)),
            record_blobs_key_bytes(hash, uris[i]),
        ) matches Some(b) && (RecordBlobs::read(b) matches Some(v) && v.blob_cid_bytes == cids),
    decreases uris.len(),
{
    let ws = record_blob_writes(hash, uris, cids);
    (RecordBlobs { blob_cid_bytes: cids }).round_trip();
    if i == uris.len() - 1 {
        write_rows_last(rows, ws, i);
    } else {
        let before = uris.drop_last();
        recorded_blobs_are_stored(rows, hash, before, cids, i);
        assert(ws.drop_last() =~= record_blob_writes(hash, before, cids));
        assert(ws.last() == WriteView::Put {
            key: record_blobs_key_bytes(hash, uris.last()),
            value: (RecordBlobs { blob_cid_bytes: cids }).stored(),
        });
    }
}

/// Repositories are listed in their order, each with the DID, the times, the root and the
/// revision of its entry; where one has no DID, none is.
pub proof fn repos_are_listed(entries: Seq<RepoEntry>, i: int)
    requires
        0 <= i < entries.len(),
    ensures
        entries[i].did is None ==> listed_repos(entries) is Err,
        listed_repos(entries) matches Ok(list) ==> list.len() == entries.len() && {
            &&& entries[i].did == Some(list[i].did)
            &&& list[i].deactivated_at == entries[i].deactivated_at
            &&& list[i].takedown_ref == entries[i].takedown_ref
            &&& list[i].repo_root_cid == entries[i].repo_root_cid
            &&& list[i].repo_rev == entries[i].repo_rev
        },
        (forall|j: int| 0 <= j < entries.len() ==> (#[trigger] entries[j]).did is Some)
            ==> listed_repos(entries) is Ok,
{
    assert(crate::purge::listed(entries[i]) is Some <==> entries[i].did is Some);
    if forall|j: int| 0 <= j < entries.len() ==> (#[trigger] entries[j]).did is Some {
        assert forall|j: int| 0 <= j < entries.len() implies crate::purge::listed(
            #[trigger] entries[j],
        ) is Some by {}
    }
}

/// An import leaves the repository's row alone, and is refused like a commit where the root has
/// moved.
pub proof fn import_keeps_row(
    s: CommitState,
    user_id: Uuid,
    blocks: Seq<BlockInput>,
    expected: Option<Seq<u8>>,
    store_blocks: bool,
    records: Seq<ImportedRecord>,
    hash: u64,
)
    ensures
        ({
            let plan = import_plan(s.store, user_id, blocks, expected, store_blocks);
            let (r, t) = with_records(s, plan, records);
            &&& t.log == s.log
            &&& lookup(t.store.repo_data.rows, repo_meta_key_bytes(hash)) == lookup(
                s.store.repo_data.rows,
                repo_meta_key_bytes(hash),
            )
            &&& r is Err ==> t == s
            &&& current_repo(s.store, user_id, expected) is Err ==> (r matches Err(e) && e
                == current_repo(s.store, user_id, expected)->Err_0)
        }),
{
    let plan = import_plan(s.store, user_id, blocks, expected, store_blocks);
    if let Ok(h) = plan {
        let ws = record_writes(h, crate::commit_ops::imported(records));
        let key = repo_meta_key_bytes(hash);
        assert(key[0] == KeyTag::RepoMeta.byte());
        assert forall|j: int| 0 <= j < ws.len() implies writes_key(#[trigger] ws[j]) != key by {
            assert(writes_key(ws[j])[0] == KeyTag::Records.byte());
        }
        write_rows_frame(s.store.repo_data.rows, ws, key);
    }
}

/// A commit that is replayed leaves its root and revision in the repository's row. The rest of
/// the row is as it was; where there was none, it is that of an active account with the DID of
/// the event.
#[verifier::spinoff_prover]
#[verifier::rlimit(40)]
pub proof fn replayed_row_is_read(s: ReplayState, e: Entry, ms: MutationSet)
    requires
        storable(s.repo_data.rows),
        ms.fits(),
        e.mutation_set == Some(ms.stored()),
        encode_utf8(e.event.did).len() <= usize::MAX,
        replayed(s, e) is Ok,
    ensures
        ({
            let key = repo_meta_key_bytes(did_hash(e.event.did));
            let t = replayed(s, e)->Ok_0;
            let before = lookup(s.repo_data.rows, key);
            let after = lookup(t.repo_data.rows, key);
            after matches Some(b) && (RepoMeta::read(b) matches Some(n) && {
                &&& n.repo_root_cid == ms.new_root_cid
                &&& n.repo_rev == ms.new_rev
                &&& before is None ==> n.did == Some(e.event.did) && n.handle.len() == 0
                    && n.status is Active && n.deactivated_at_ms is None && n.takedown_ref is None
                &&& before matches Some(a) ==> (RepoMeta::read(a) matches Some(m) ==> n.did == m.did
                    && n.handle == m.handle && n.status == m.status && n.deactivated_at_ms
                    == m.deactivated_at_ms && n.takedown_ref == m.takedown_ref)
            })
        }),
{
    let rows = s.repo_data.rows;
    let did = e.event.did;
    let hash = did_hash(did);
    let seq = e.event.seq as u64;
    let key = repo_meta_key_bytes(hash);
    reveal(replayed);
    ms.round_trip();
    let base = base_meta(rows, did);
    if lookup(rows, key) is Some {
        repo_meta_read_fits(rows[key]);
    }
    let n = committed_meta(base, ms);
    assert(base.fits());
    committed_fits(base, ms);
    repo_meta_round_trip(n);
    let index = sidecar_writes(did, e.event.rev, seq);
    let changes = repo_writes(hash, base, ms);
    let ws = (index + changes).push(cursor_write(seq));
    let at = index.len() as int;
    assert(ws[at] == changes[0]);
    assert(writes_key(ws[at]) == key);
    assert(key[0] == KeyTag::RepoMeta.byte());
    assert forall|j: int| at < j < ws.len() implies writes_key(#[trigger] ws[j]) != writes_key(
        ws[at],
    ) by {
        if j < index.len() + changes.len() {
            assert(ws[j] == changes[j - index.len()]);
            crate::commit_laws::commit_batch_tags(hash, base, ms, j - index.len());
        } else {
            assert(ws[j] == cursor_write(seq));
            assert(writes_key(ws[j])[0] == KeyTag::MetastoreCursor.byte());
        }
    }
    write_rows_last(rows, ws, at);
}

proof fn committed_fits(base: RepoMeta, ms: MutationSet)
    requires
        base.fits(),
        ms.fits(),
    ensures
        committed_meta(base, ms).fits(),
{
}

/// A commit or an import for a user who has no hash, or whose repository has no row that can be
/// read, is refused because there is no such repository.
pub proof fn unknown_repo_is_not_found(s: MetastoreView, user_id: Uuid, expected: Option<Seq<u8>>)
    requires
        !(repo_meta_of(s, user_id) matches Ok(Some(_))),
    ensures
        current_repo(s, user_id, expected) == Err::<(u64, RepoMeta), Refusal>(Refusal::RepoNotFound),
{
}

/// An import of a known repository whose root has not moved is refused exactly where blocks are
/// to be stored and one of them has an identifier of another length than 36.
pub proof fn import_is_refused_for_bad_blocks(
    s: MetastoreView,
    user_id: Uuid,
    blocks: Seq<BlockInput>,
    expected: Option<Seq<u8>>,
    store_blocks: bool,
)
    requires
        current_repo(s, user_id, expected) is Ok,
    ensures
        ({
            let plan = import_plan(s, user_id, blocks, expected, store_blocks);
            &&& plan is Err <==> store_blocks && exists|i: int|
                0 <= i < blocks.len() && (#[trigger] blocks[i]).cid_bytes.len() != 36
            &&& plan matches Ok(hash) ==> hash_of(s.user_hashes, user_id) == Some(hash)
        }),
{
    bad_block_is_found(blocks);
}

proof fn bad_block_is_found(blocks: Seq<BlockInput>)
    ensures
        bad_block(blocks) is Some <==> exists|i: int|
            0 <= i < blocks.len() && (#[trigger] blocks[i]).cid_bytes.len() != 36,
    decreases blocks.len(),
{
    if blocks.len() > 0 {
        let t = blocks.skip(1);
        bad_block_is_found(t);
        if exists|i: int| 0 <= i < t.len() && (#[trigger] t[i]).cid_bytes.len() != 36 {
            let i = choose|i: int| 0 <= i < t.len() && (#[trigger] t[i]).cid_bytes.len() != 36;
            assert(blocks[i + 1].cid_bytes.len() != 36);
        }
        if exists|i: int| 0 <= i < blocks.len() && (#[trigger] blocks[i]).cid_bytes.len() != 36 {
            let i = choose|i: int|
                0 <= i < blocks.len() && (#[trigger] blocks[i]).cid_bytes.len() != 36;
            if i > 0 {
                assert(t[i - 1].cid_bytes.len() != 36);
            }
        }
    }
}

/// A hash that another user has is refused with both users, and a user who has a hash gets no
/// second one.
pub proof fn hashes_are_not_shared(m: UserHashes, id: Uuid, other: Uuid, hash: u64)
    requires
        injective(m),
    ensures
        hash_of(m, other) == Some(hash) && other != id ==> hash_refusal(m, id, hash) == Some(
            MetastoreError::UserHashCollision { hash, existing_uuid: other, new_uuid: id },
        ),
        hash_of(m, id) matches Some(h) ==> (h != hash ==> hash_refusal(m, id, hash) is Some),
        hash_of(m, id) is None && (forall|u: Uuid| #[trigger] m.contains_key(u) ==> m[u] != hash)
            ==> hash_refusal(m, id, hash) is None,
{
    if hash_of(m, other) == Some(hash) {
        crate::user_hash::lookups_are_inverse(m, other, hash);
    }
    if let Some(u) = uuid_of(m, hash) {
        crate::user_hash::lookups_are_inverse(m, u, hash);
    }
}

/// Removing the links of one user leaves those of every other.
pub proof fn other_users_keep_links(s: MetastoreView, hash: u64, h: u64, link: Link)
    requires
        s.indexes.rows.dom().finite(),
        h != hash,
    ensures
        lookup(unlinked(s, hash).1.indexes.rows, uri_key_bytes(h, link)) == lookup(
            s.indexes.rows,
            uri_key_bytes(h, link),
        ),
        lookup(unlinked(s, hash).1.indexes.rows, target_key_bytes(h, link)) == lookup(
            s.indexes.rows,
            target_key_bytes(h, link),
        ),
{
    let m = s.indexes.rows;
    let rows = user_link_rows(m, hash);
    let f = |row: RowView| link_rows(hash, row);
    if let Ok(pairs) = collect_all(rows, f) {
        let prefix = user_links_prefix_bytes(hash);
        scan_lists(m, prefix_keys(prefix));
        let own = uri_key_bytes(h, link);
        let target = target_key_bytes(h, link);
        be_len(hash as nat, 8);
        be_len(h as nat, 8);
        assert forall|i: int| 0 <= i < pairs.len() implies (#[trigger] pairs[i]).0 != own
            && pairs[i].1 != own && pairs[i].0 != target && pairs[i].1 != target by {
            assert(pairs.contains(pairs[i]));
            collected(rows, f, rows.len(), pairs[i]);
            let k = choose|k: int|
                0 <= k < rows.len() && f(#[trigger] rows[k])
                    == Contribution::<(Seq<u8>, Seq<u8>)>::Ok(Some(pairs[i]));
            let l = user_link(rows[k].key)->0;
            link_keys_injective(hash, l, h, link);
            assert(prefix_keys(prefix).contains(rows[k].key));
            let key = rows[k].key;
            assert(key.take(prefix.len() as int).skip(1) =~= be8(hash));
            if key == own {
                assert(own.take(prefix.len() as int).skip(1) =~= be8(h));
                be8_injective(h, hash);
            }
            assert(key.take(prefix.len() as int)[0] == KeyTag::BacklinkByUri.byte());
            assert(target[0] == KeyTag::BacklinkByTarget.byte());
        }
        pair_removals_remove(m, pairs, own);
        pair_removals_remove(m, pairs, target);
    }
}

} // verus!
