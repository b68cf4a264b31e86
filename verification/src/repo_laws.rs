//! What holds of repositories and users whatever was done before.

use vstd::prelude::*;
use vstd::utf8::encode_utf8;

use crate::backlinks::{link_writes, target_key_bytes, uri_key_bytes, Link};
use crate::commit_ops::{commit_outcome, current_repo, lacks_blocks, mutations_of, needs_backfill};
use crate::commit_ops::{record_blob_writes, record_blobs_prefix_bytes};
use crate::commit_ops::{user_hash_key_round_trip, CommitInput, CommitState};
use crate::commit_laws::{commit_batch_tags, index_tags};
use crate::encoding::{be8_injective, be8_round_trip, escaped, escaped_injective};
use crate::event_ops::index_writes;
use crate::eventlog::max_seq;
use crate::errors::MetastoreError;
use crate::keys::KeyTag;
use crate::metastore::{user_hash_rows, MetastoreView};
use crate::repo_meta::{repo_meta_key_bytes, repo_meta_round_trip, RepoMeta};
use crate::recovery::repo_writes;
use crate::repo_ops::{new_repo_writes, repo_at, some_rev, Repo};
use crate::scan::Contribution;
use crate::store::{lists, lookup, prefix_keys, scan, scan_lists, write_rows, write_rows_frame};
use crate::store::{write_rows_last, writes_key, KeyspaceView, RowView, Rows, WriteView};
use crate::store::write_row;
use crate::types::{is_cid, uuid_bytes, uuid_bytes_round_trip, Uuid};
use crate::user_blocks::{block_removals, block_writes, user_block_key_bytes};
use crate::user_blocks::user_block_prefix_bytes;
use crate::user_hash::{hash_of, hash_refusal, hash_row, hashes_in, injective, user_hash_key_bytes};
use crate::user_hash::{user_hash_write, uuid_of, UserHashes};

verus! {

pub open spec fn hash_keys() -> Set<Seq<u8>> {
    prefix_keys(seq![KeyTag::UserHash.byte()])
}

/// Rows record the users' hashes, and no others.
pub open spec fn records_hashes(rows: Rows, m: UserHashes) -> bool {
    &&& forall|u: Uuid| #[trigger]
        m.contains_key(u) ==> lookup(rows, user_hash_key_bytes(m[u])) == Some(uuid_bytes(u))
    &&& forall|k: Seq<u8>| #[trigger]
        rows.contains_key(k) && hash_keys().contains(k) ==> exists|u: Uuid| #[trigger]
            m.contains_key(u) && k == user_hash_key_bytes(m[u])
}

proof fn hash_key_facts(a: u64, b: u64)
    ensures
        user_hash_key_bytes(a).len() == 9,
        user_hash_key_bytes(a)[0] == KeyTag::UserHash.byte(),
        hash_keys().contains(user_hash_key_bytes(a)),
        user_hash_key_bytes(a) == user_hash_key_bytes(b) ==> a == b,
{
    be8_round_trip(a);
    be8_round_trip(b);
    assert(user_hash_key_bytes(a).take(1) =~= seq![KeyTag::UserHash.byte()]);
    assert(user_hash_key_bytes(a).skip(1) =~= crate::encoding::be8(a));
    assert(user_hash_key_bytes(b).skip(1) =~= crate::encoding::be8(b));
    if user_hash_key_bytes(a) == user_hash_key_bytes(b) {
        be8_injective(a, b);
    }
}

/// The users whose hashes are among the first rows of a list.
spec fn among(m: UserHashes, s: Seq<RowView>, n: int, u: Uuid) -> bool {
    m.contains_key(u) && exists|i: int|
        0 <= i < n && (#[trigger] s[i]).key == user_hash_key_bytes(m[u])
}

proof fn first_hashes(rows: Rows, m: UserHashes, s: Seq<RowView>, n: int)
    requires
        records_hashes(rows, m),
        injective(m),
        lists(rows, hash_keys(), s),
        0 <= n <= s.len(),
    ensures
        hashes_in(s.take(n)) is Ok,
        forall|u: Uuid| #[trigger]
            hashes_in(s.take(n))->Ok_0.contains_key(u) <==> among(m, s, n, u),
        forall|u: Uuid| #[trigger]
            hashes_in(s.take(n))->Ok_0.contains_key(u) ==> hashes_in(s.take(n))->Ok_0[u] == m[u],
    decreases n,
{
    if n == 0 {
        assert(s.take(0) =~= Seq::empty());
    } else {
        first_hashes(rows, m, s, n - 1);
        assert(s.take(n).drop_last() =~= s.take(n - 1));
        let before = hashes_in(s.take(n - 1))->Ok_0;
        let row = s[n - 1];
        assert(rows.contains_key(row.key) && hash_keys().contains(row.key));
        let u = choose|u: Uuid| #[trigger]
            m.contains_key(u) && row.key == user_hash_key_bytes(m[u]);
        hash_key_facts(m[u], m[u]);
        be8_round_trip(m[u]);
        uuid_bytes_round_trip(u);
        assert(row.key.skip(1) =~= crate::encoding::be8(m[u]));
        assert(hash_row(row) == Some((u, m[u])));
        if before.contains_key(u) {
            let i = choose|i: int| 0 <= i < n - 1 && (#[trigger] s[i]).key == user_hash_key_bytes(m[u]);
            crate::bytes::lex_lt_irreflexive(s[i].key);
            assert(crate::bytes::lex_lt(s[i].key, s[n - 1].key));
        }
        if uuid_of(before, m[u]) is Some {
            let v = choose|v: Uuid| #[trigger] before.contains_key(v) && before[v] == m[u];
            assert(m.contains_key(v) && m[v] == m[u]);
        }
        let after = hashes_in(s.take(n))->Ok_0;
        assert(after == before.insert(u, m[u]));
        assert forall|v: Uuid| #[trigger] after.contains_key(v) <==> among(m, s, n, v) by {
            if v == u {
                assert(s[n - 1].key == user_hash_key_bytes(m[v]));
            } else {
                if among(m, s, n, v) {
                    let i = choose|i: int| 0 <= i < n && (#[trigger] s[i]).key == user_hash_key_bytes(m[v]);
                    if i == n - 1 {
                        hash_key_facts(m[v], m[u]);
                    }
                    assert(among(m, s, n - 1, v));
                }
                if among(m, s, n - 1, v) {
                    let i = choose|i: int|
                        0 <= i < n - 1 && (#[trigger] s[i]).key == user_hash_key_bytes(m[v]);
                    assert(among(m, s, n, v));
                }
            }
        }
    }
}

/// Users keep their hashes when the store is opened again.
pub proof fn hashes_survive_reopening(repo_data: KeyspaceView, m: UserHashes)
    requires
        repo_data.rows.dom().finite(),
        injective(m),
        records_hashes(repo_data.rows, m),
    ensures
        hashes_in(user_hash_rows(repo_data)) == Ok::<UserHashes, MetastoreError>(m),
{
    let rows = repo_data.rows;
    let s = user_hash_rows(repo_data);
    scan_lists(rows, hash_keys());
    first_hashes(rows, m, s, s.len() as int);
    assert(s.take(s.len() as int) =~= s);
    let read = hashes_in(s)->Ok_0;
    assert forall|u: Uuid| #[trigger] m.contains_key(u) implies read.contains_key(u) by {
        let k = user_hash_key_bytes(m[u]);
        hash_key_facts(m[u], m[u]);
        assert(lookup(rows, k) is Some);
        assert(rows.contains_key(k) && hash_keys().contains(k));
        let i = choose|i: int| 0 <= i < s.len() && (#[trigger] s[i]).key == k;
        assert(among(m, s, s.len() as int, u));
    }
    assert(read =~= m);
}

/// A user who is given a hash is recorded with it, beside all others.
pub proof fn new_hash_is_recorded(rows: Rows, m: UserHashes, id: Uuid, hash: u64)
    requires
        records_hashes(rows, m),
        injective(m),
        hash_refusal(m, id, hash) is None,
    ensures
        records_hashes(write_rows(rows, seq![user_hash_write(id, hash)]), m.insert(id, hash)),
        injective(m.insert(id, hash)),
{
    let w = user_hash_write(id, hash);
    let key = user_hash_key_bytes(hash);
    let n = m.insert(id, hash);
    let after = write_rows(rows, seq![w]);
    crate::store::write_one(rows, w);
    assert(after == rows.insert(key, uuid_bytes(id)));
    assert forall|u: Uuid, v: Uuid| #[trigger]
        n.contains_key(u) && #[trigger] n.contains_key(v) && n[u] == n[v] implies u == v by {
        if u != v {
            let other = if u == id {
                v
            } else {
                u
            };
            if u == id || v == id {
                assert(m.contains_key(other) && m[other] == hash);
                crate::user_hash::lookups_are_inverse(m, other, hash);
            }
        }
    }
    assert forall|u: Uuid| #[trigger] n.contains_key(u) implies lookup(
        after,
        user_hash_key_bytes(n[u]),
    ) == Some(uuid_bytes(u)) by {
        if u != id {
            assert(m.contains_key(u));
            hash_key_facts(m[u], hash);
            if m[u] == hash {
                crate::user_hash::lookups_are_inverse(m, u, hash);
            }
        }
    }
    assert forall|k: Seq<u8>| #[trigger]
        after.contains_key(k) && hash_keys().contains(k) implies exists|u: Uuid| #[trigger]
        n.contains_key(u) && k == user_hash_key_bytes(n[u]) by {
        if k == key {
            assert(n.contains_key(id) && k == user_hash_key_bytes(n[id]));
        } else {
            assert(rows.contains_key(k) && hash_keys().contains(k));
            let u = choose|u: Uuid| #[trigger]
                m.contains_key(u) && k == user_hash_key_bytes(m[u]);
            if u == id {
                crate::user_hash::lookups_are_inverse(m, id, m[id]);
                if uuid_of(m, hash) == Some(id) {
                    crate::user_hash::lookups_are_inverse(m, id, hash);
                }
                assert(false);
            }
            assert(n.contains_key(u) && k == user_hash_key_bytes(n[u]));
        }
    }
}

/// A repository that was created is read, at its root and revision.
pub proof fn created_repo_is_read(
    s: MetastoreView,
    user_id: Uuid,
    hash: u64,
    meta: RepoMeta,
)
    requires
        hash_refusal(s.user_hashes, user_id, hash) is None,
        is_cid(meta.repo_root_cid),
        meta.fits(),
    ensures
        repo_at(
            s.repo_data.commit(new_repo_writes(user_id, hash, meta)).rows,
            s.user_hashes.insert(user_id, hash),
            user_id,
        ) == Ok::<Option<Repo>, MetastoreError>(
            Some(
                Repo {
                    user_id,
                    repo_root_cid: meta.repo_root_cid,
                    repo_rev: some_rev(meta.repo_rev),
                },
            ),
        ),
{
    let ws = new_repo_writes(user_id, hash, meta);
    assert(writes_key(ws[1])[0] == KeyTag::RepoMeta.byte());
    assert(writes_key(ws[2])[0] == KeyTag::Handles.byte());
    write_rows_last(s.repo_data.rows, ws, 1);
    repo_meta_round_trip(meta);
}

/// A user with a row under a prefix is not listed as lacking such rows.
proof fn not_lacking(rows: Rows, prefix: Seq<u8>, key: Seq<u8>)
    requires
        rows.dom().finite(),
        rows.contains_key(key),
        prefix_keys(prefix).contains(key),
    ensures
        scan(rows, prefix_keys(prefix)).len() > 0,
{
    scan_lists(rows, prefix_keys(prefix));
    assert(rows.contains_key(key) && prefix_keys(prefix).contains(key));
}

/// A user whose records' blobs were recorded is no longer among those whose are to be.
pub proof fn recorded_blobs_end_backfill(
    rows: Rows,
    hashes: UserHashes,
    hash: u64,
    uris: Seq<Seq<char>>,
    cids: Seq<Seq<u8>>,
    value: Seq<u8>,
)
    requires
        rows.dom().finite(),
        uris.len() > 0,
    ensures
        needs_backfill(
            (RowView { key: repo_meta_key_bytes(hash), value }),
            write_rows(rows, record_blob_writes(hash, uris, cids)),
            hashes,
        ) == Contribution::<crate::commit_ops::BackfillUser>::Ok(None),
{
    let ws = record_blob_writes(hash, uris, cids);
    let after = write_rows(rows, ws);
    let prefix = record_blobs_prefix_bytes(hash);
    let last = ws.len() - 1;
    let key = writes_key(ws[last]);
    write_rows_last(rows, ws, last);
    crate::store::write_rows_finite(rows, ws);
    user_hash_key_round_trip(hash);
    assert(key.take(prefix.len() as int) =~= prefix);
    not_lacking(after, prefix, key);
}

/// A created repository's user is recorded with the hash of the repository's rows, beside all
/// others.
pub proof fn created_repo_is_recorded(s: MetastoreView, user_id: Uuid, hash: u64, meta: RepoMeta)
    requires
        records_hashes(s.repo_data.rows, s.user_hashes),
        injective(s.user_hashes),
        hash_refusal(s.user_hashes, user_id, hash) is None,
    ensures
        records_hashes(
            s.repo_data.commit(new_repo_writes(user_id, hash, meta)).rows,
            s.user_hashes.insert(user_id, hash),
        ),
        injective(s.user_hashes.insert(user_id, hash)),
{
    let rows = s.repo_data.rows;
    let ws = new_repo_writes(user_id, hash, meta);
    let first = seq![ws[0]];
    let rest = seq![ws[1], ws[2]];
    assert(ws =~= first + rest);
    crate::store::write_rows_concat(rows, first, rest);
    new_hash_is_recorded(rows, s.user_hashes, user_id, hash);
    other_rows_keep_hashes(write_rows(rows, first), s.user_hashes.insert(user_id, hash), rest);
}

/// Writes to rows of other kinds leave the users' hashes as they are recorded.
pub proof fn other_rows_keep_hashes(rows: Rows, m: UserHashes, ws: Seq<WriteView>)
    requires
        records_hashes(rows, m),
        forall|i: int|
            0 <= i < ws.len() ==> writes_key(#[trigger] ws[i]).len() > 0 && writes_key(ws[i])[0]
                != KeyTag::UserHash.byte(),
    ensures
        records_hashes(write_rows(rows, ws), m),
{
    let after = write_rows(rows, ws);
    assert forall|k: Seq<u8>| #[trigger] hash_keys().contains(k) implies lookup(after, k) == lookup(
        rows,
        k,
    ) by {
        assert(k.take(1)[0] == KeyTag::UserHash.byte());
        assert(k[0] == KeyTag::UserHash.byte());
        write_rows_frame(rows, ws, k);
    }
    assert forall|u: Uuid| #[trigger] m.contains_key(u) implies lookup(
        after,
        user_hash_key_bytes(m[u]),
    ) == Some(uuid_bytes(u)) by {
        hash_key_facts(m[u], m[u]);
    }
    assert forall|k: Seq<u8>| #[trigger] after.contains_key(k) && hash_keys().contains(k) implies exists|
        u: Uuid,
    | #[trigger] m.contains_key(u) && k == user_hash_key_bytes(m[u]) by {
        assert(lookup(after, k) == lookup(rows, k));
        assert(rows.contains_key(k) && hash_keys().contains(k));
    }
}

/// After a commit that adds a block and does not remove it, its user is not among those
/// without blocks.
pub proof fn committed_blocks_are_found(
    s: CommitState,
    input: CommitInput,
    now: i64,
    i: int,
    value: Seq<u8>,
)
    requires
        s.store.repo_data.rows.dom().finite(),
        commit_outcome(s, input, now).0 is Ok,
        0 <= i < input.new_block_cids.len(),
        !input.obsolete_block_cids.contains(input.new_block_cids[i]),
    ensures
        ({
            let t = commit_outcome(s, input, now).1.store;
            let hash = hash_of(s.store.user_hashes, input.user_id)->0;
            lacks_blocks(
                (RowView { key: repo_meta_key_bytes(hash), value }),
                t.repo_data.rows,
                t.user_hashes,
            ) == Contribution::<crate::commit_ops::BlocklessUser>::Ok(None)
        }),
{
    let (hash, meta) = current_repo(s.store, input.user_id, input.expected_root_cid)->Ok_0;
    let ms = mutations_of(input);
    let rows = s.store.repo_data.rows;
    let seq = (max_seq(s.log) + 1) as u64;
    let changes = repo_writes(hash, meta, ms);
    let index = index_writes(input.commit_event.did, input.commit_event.rev, seq);
    let ws = changes + index;
    let cid = input.new_block_cids[i];
    let key = user_block_key_bytes(hash, cid);
    let prefix = user_block_prefix_bytes(hash);
    let head = 1 + ms.record_upserts.len() + ms.record_deletes.len();
    let puts = block_writes(hash, ms.block_inserts, ms.new_rev);
    let dels = block_removals(hash, ms.block_deletes);
    let after = write_rows(rows, ws);
    assert(ws[head + i] == puts[i]);
    // Some write of the block stands behind all others that name its row.
    let last = last_put(ms.block_inserts, cid, i);
    assert(ws[head + last] == puts[last]);
    assert(writes_key(ws[head + last]) == key);
    assert(key[0] == KeyTag::UserBlocks.byte());
    assert forall|j: int| head + last < j < ws.len() implies writes_key(#[trigger] ws[j])
        != writes_key(ws[head + last]) by {
        if j < head + puts.len() {
            assert(ws[j] == puts[j - head]);
            escaped_block_keys(hash, ms.block_inserts[j - head], cid);
        } else if j < changes.len() {
            let d = j - head - puts.len();
            assert(ws[j] == dels[d]);
            assert(input.obsolete_block_cids.contains(input.obsolete_block_cids[d]));
            escaped_block_keys(hash, ms.block_deletes[d], cid);
        } else {
            assert(ws[j] == index[j - changes.len()]);
            index_tags(input.commit_event.did, input.commit_event.rev, seq, j - changes.len());
        }
    }
    write_rows_last(rows, ws, head + last);
    crate::store::write_rows_finite(rows, ws);
    user_hash_key_round_trip(hash);
    be8_round_trip(hash);
    assert(key.take(prefix.len() as int) =~= prefix);
    not_lacking(after, prefix, key);
}

/// After a commit the blocks that it made obsolete are gone, the others that it added stand under
/// their identifiers with the new revision, and all other blocks, of its own user or of another,
/// are as they were.
#[verifier::spinoff_prover]
#[verifier::rlimit(60)]
pub proof fn committed_blocks_are_stored(
    s: CommitState,
    input: CommitInput,
    now: i64,
    h: u64,
    cid: Seq<u8>,
)
    requires
        commit_outcome(s, input, now).0 is Ok,
    ensures
        ({
            let hash = hash_of(s.store.user_hashes, input.user_id);
            let key = user_block_key_bytes(h, cid);
            let before = lookup(s.store.repo_data.rows, key);
            let after = lookup(commit_outcome(s, input, now).1.store.repo_data.rows, key);
            if hash == Some(h) && input.obsolete_block_cids.contains(cid) {
                after is None
            } else if hash == Some(h) && input.new_block_cids.contains(cid) {
                after == Some(encode_utf8(input.new_rev))
            } else {
                after == before
            }
        }),
{
    let (hash, meta) = current_repo(s.store, input.user_id, input.expected_root_cid)->Ok_0;
    let ms = mutations_of(input);
    let rows = s.store.repo_data.rows;
    let seq = (max_seq(s.log) + 1) as u64;
    let changes = repo_writes(hash, meta, ms);
    let index = index_writes(input.commit_event.did, input.commit_event.rev, seq);
    let ws = changes + index;
    let key = user_block_key_bytes(h, cid);
    let n = 1 + ms.record_upserts.len() + ms.record_deletes.len();
    let puts = block_writes(hash, ms.block_inserts, ms.new_rev);
    let dels = block_removals(hash, ms.block_deletes);
    assert(key[0] == KeyTag::UserBlocks.byte());
    be8_round_trip(hash);
    be8_round_trip(h);
    if key == user_block_key_bytes(hash, cid) {
        assert(key.subrange(1, 9) =~= crate::encoding::be8(h));
        assert(user_block_key_bytes(hash, cid).subrange(1, 9) =~= crate::encoding::be8(hash));
    }
    assert forall|j: int| 0 <= j < n implies writes_key(#[trigger] ws[j]) != key by {
        assert(ws[j] == changes[j]);
        assert(writes_key(changes[j])[0] == KeyTag::RepoMeta.byte() || writes_key(changes[j])[0]
            == KeyTag::Records.byte());
    }
    assert forall|j: int| n <= j < n + puts.len() implies #[trigger] ws[j] == puts[j - n] by {}
    assert forall|j: int| n + puts.len() <= j < changes.len() implies #[trigger] ws[j] == dels[j - n
        - puts.len()] by {}
    assert forall|j: int| changes.len() <= j < ws.len() implies writes_key(#[trigger] ws[j]) != key by {
        assert(ws[j] == index[j - changes.len()]);
        index_tags(input.commit_event.did, input.commit_event.rev, seq, j - changes.len());
    }
    assert forall|b: Seq<u8>| #[trigger] user_block_key_bytes(hash, b) == key implies h == hash && b
        == cid by {
        let k = user_block_key_bytes(hash, b);
        assert(k.subrange(1, 9) =~= crate::encoding::be8(hash));
        assert(key.subrange(1, 9) =~= crate::encoding::be8(h));
        be8_injective(h, hash);
        escaped_block_keys(hash, b, cid);
    }
    if hash == h && input.obsolete_block_cids.contains(cid) {
        let d = choose|d: int|
            0 <= d < input.obsolete_block_cids.len() && input.obsolete_block_cids[d] == cid;
        let last = last_put(ms.block_deletes, cid, d);
        let at = n + puts.len() + last;
        assert(ws[at] == dels[last]);
        assert(writes_key(ws[at]) == key);
        assert forall|j: int| at < j < ws.len() implies writes_key(#[trigger] ws[j]) != writes_key(
            ws[at],
        ) by {
            if j < changes.len() {
                assert(writes_key(ws[j]) == user_block_key_bytes(
                    hash,
                    ms.block_deletes[j - n - puts.len()],
                ));
            }
        }
        write_rows_last(rows, ws, at);
    } else if hash == h && input.new_block_cids.contains(cid) {
        let d = choose|d: int| 0 <= d < input.new_block_cids.len() && input.new_block_cids[d] == cid;
        let last = last_put(ms.block_inserts, cid, d);
        let at = n + last;
        assert(ws[at] == puts[last]);
        assert(writes_key(ws[at]) == key);
        assert forall|j: int| at < j < ws.len() implies writes_key(#[trigger] ws[j]) != writes_key(
            ws[at],
        ) by {
            if j < n + puts.len() {
                assert(writes_key(ws[j]) == user_block_key_bytes(hash, ms.block_inserts[j - n]));
            } else if j < changes.len() {
                let e = j - n - puts.len();
                assert(input.obsolete_block_cids.contains(input.obsolete_block_cids[e]));
                assert(writes_key(ws[j]) == user_block_key_bytes(hash, ms.block_deletes[e]));
            }
        }
        write_rows_last(rows, ws, at);
    } else {
        assert forall|j: int| 0 <= j < ws.len() implies writes_key(#[trigger] ws[j]) != key by {
            if n <= j < n + puts.len() {
                assert(writes_key(ws[j]) == user_block_key_bytes(hash, ms.block_inserts[j - n]));
                assert(input.new_block_cids.contains(input.new_block_cids[j - n]));
            } else if n + puts.len() <= j < changes.len() {
                let e = j - n - puts.len();
                assert(writes_key(ws[j]) == user_block_key_bytes(hash, ms.block_deletes[e]));
                assert(input.obsolete_block_cids.contains(input.obsolete_block_cids[e]));
            }
        }
        write_rows_frame(rows, ws, key);
    }
}

proof fn escaped_block_keys(hash: u64, a: Seq<u8>, b: Seq<u8>)
    ensures
        user_block_key_bytes(hash, a) == user_block_key_bytes(hash, b) ==> a == b,
{
    be8_round_trip(hash);
    if user_block_key_bytes(hash, a) == user_block_key_bytes(hash, b) {
        let none = Seq::<u8>::empty();
        assert(user_block_key_bytes(hash, a).skip(9) =~= escaped(a) + none);
        assert(user_block_key_bytes(hash, b).skip(9) =~= escaped(b) + none);
        escaped_injective(a, b, none, none);
    }
}

/// Where a block is written last.
proof fn last_put(cids: Seq<Seq<u8>>, cid: Seq<u8>, i: int) -> (r: int)
    requires
        0 <= i < cids.len(),
        cids[i] == cid,
    ensures
        0 <= r < cids.len(),
        cids[r] == cid,
        forall|j: int| r < j < cids.len() ==> #[trigger] cids[j] != cid,
    decreases cids.len() - i,
{
    if exists|j: int| i < j < cids.len() && #[trigger] cids[j] == cid {
        let j = choose|j: int| i < j < cids.len() && #[trigger] cids[j] == cid;
        last_put(cids, cid, j)
    } else {
        i
    }
}

/// A link that was added is found under its target and under its record.
pub proof fn added_link_is_found(indexes: Rows, hash: u64, links: Seq<Link>, i: int)
    requires
        0 <= i < links.len(),
    ensures
        ({
            let after = write_rows(indexes, link_writes(hash, links));
            &&& lookup(after, target_key_bytes(hash, links[i])) == Some(Seq::<u8>::empty())
            &&& lookup(after, uri_key_bytes(hash, links[i])) == Some(Seq::<u8>::empty())
        }),
    decreases links.len(),
{
    let before = links.drop_last();
    let ws = link_writes(hash, links);
    let first = ws.drop_last();
    assert(first.drop_last() =~= link_writes(hash, before));
    let m = write_rows(indexes, first.drop_last());
    assert(write_rows(indexes, first) == write_row(m, first.last()));
    assert(write_rows(indexes, ws) == write_row(write_rows(indexes, first), ws.last()));
    if i < before.len() {
        added_link_is_found(indexes, hash, before, i);
        assert(before[i] == links[i]);
    }
    assert(target_key_bytes(hash, links[i])[0] == KeyTag::BacklinkByTarget.byte());
    assert(uri_key_bytes(hash, links[i])[0] == KeyTag::BacklinkByUri.byte());
    assert(target_key_bytes(hash, links.last())[0] == KeyTag::BacklinkByTarget.byte());
    assert(uri_key_bytes(hash, links.last())[0] == KeyTag::BacklinkByUri.byte());
}

/// A commit leaves the users' hashes as they are recorded.
pub proof fn commits_keep_hashes(s: CommitState, input: CommitInput, now: i64)
    requires
        records_hashes(s.store.repo_data.rows, s.store.user_hashes),
    ensures
        ({
            let t = commit_outcome(s, input, now).1.store;
            records_hashes(t.repo_data.rows, t.user_hashes)
        }),
{
    if commit_outcome(s, input, now).0 is Ok {
        let (hash, meta) = current_repo(s.store, input.user_id, input.expected_root_cid)->Ok_0;
        let ms = mutations_of(input);
        let seq = (max_seq(s.log) + 1) as u64;
        let changes = repo_writes(hash, meta, ms);
        let index = index_writes(input.commit_event.did, input.commit_event.rev, seq);
        let ws = changes + index;
        assert forall|i: int| 0 <= i < ws.len() implies writes_key(#[trigger] ws[i]).len() > 0
            && writes_key(ws[i])[0] != KeyTag::UserHash.byte() by {
            if i == 0 {
                assert(writes_key(ws[i])[0] == KeyTag::RepoMeta.byte());
            } else if i < changes.len() {
                assert(ws[i] == changes[i]);
                commit_batch_tags(hash, meta, ms, i);
            } else {
                assert(ws[i] == index[i - changes.len()]);
                index_tags(input.commit_event.did, input.commit_event.rev, seq, i - changes.len());
            }
        }
        other_rows_keep_hashes(s.store.repo_data.rows, s.store.user_hashes, ws);
    }
}

} // verus!
