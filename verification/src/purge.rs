//! Removing what a user's repository left behind, and listing repositories.

use vstd::prelude::*;
use vstd::utf8::encode_utf8;

use crate::backlinks::{backlink_by_user_prefix, link_in_key, target_key, target_key_bytes};
use crate::backlinks::{uri_key_bytes, user_links_prefix_bytes, Link};
use crate::bytes::copy_bytes;
use crate::codec::{text_of, text_round_trip};
use crate::encoding::{be8, be8_round_trip, escaped, escaped_round_trip, unescaped, unescaped_len, KeyBuilder};
use crate::encoding::KeyReader;
use crate::errors::{db_error, db_viewed, metastore_to_db, DbError, DbErrorView};
use crate::errors::MetastoreError;
use crate::keys::{did_hash, KeyTag, UserHash};
use crate::metastore::{Metastore, MetastoreView};
use crate::records::{record_at, record_key_bytes};
use crate::repo_steps::{unknown_user, unknown_user_error, user_rows_changed};
use crate::scan::{collect_all, collect_all_items, collected, Contribution, Reader};
use crate::store::{lookup, prefix_keys, push_removals, removing_rows, row_removals, scan};
use crate::store::{scan_lists, write_row, write_rows, Row, RowView, Rows, Write, WriteView};
use crate::types::{CidLink, Did, Uuid};
use crate::user_hash::hash_of;

verus! {

/// The link that a key of a user's links names.
pub open spec fn user_link(key: Seq<u8>) -> Option<Link> {
    if key.len() < 9 {
        None
    } else {
        match unescaped(key.skip(9)) {
            None => None,
            Some((u, n)) => match (text_of(u), link_in_key(key, 9 + n)) {
                (Some(uri), Some((path, link_to))) => Some(Link { uri, path, link_to }),
                _ => None,
            },
        }
    }
}

fn read_user_link(key: &[u8]) -> (r: Option<(String, u8, String)>)
    ensures
        match user_link(key@) {
            Some(l) => r is Some && (r->0).0@ == l.uri && (r->0).1 == l.path && (r->0).2@
                == l.link_to,
            None => r is None,
        },
{
    if key.len() < 9 {
        return None;
    }
    let mut reader: KeyReader<'_> = KeyReader::new(
        vstd::slice::slice_subrange(key, 9, key.len()),
    );
    assert(reader@ =~= key@.skip(9));
    proof {
        unescaped_len(key@.skip(9));
    }
    match reader.string() {
        None => None,
        Some(uri) => {
            let ghost n = (unescaped(key@.skip(9))->0).1 as int;
            assert(reader@ =~= key@.skip(9 + n));
            match reader.tag() {
                None => None,
                Some(path) => {
                    assert(reader@ =~= key@.skip(9 + n + 1));
                    match reader.string() {
                        None => None,
                        Some(link_to) => Some((uri, path, link_to)),
                    }
                },
            }
        },
    }
}

/// The two rows of a link: the one under its target, and its own.
pub open spec fn link_rows(hash: u64, row: RowView) -> Contribution<(Seq<u8>, Seq<u8>)> {
    match user_link(row.key) {
        None => Err(MetastoreError::CorruptData("corrupt backlink key")),
        Some(link) => Ok(Some((target_key_bytes(hash, link), row.key))),
    }
}

struct LinkRows {
    user_hash: UserHash,
}

impl Reader for LinkRows {
    type In = Row;

    type Item = (Vec<u8>, Vec<u8>);

    closed spec fn reading(&self) -> spec_fn(RowView) -> Contribution<(Seq<u8>, Seq<u8>)> {
        |row: RowView| link_rows(self.user_hash@, row)
    }

    fn read(&self, row: &Row) -> (r: Contribution<(Vec<u8>, Vec<u8>)>) {
        match read_user_link(row.key.as_slice()) {
            None => Err(MetastoreError::CorruptData("corrupt backlink key")),
            Some((uri, path, link_to)) => {
                let target: Vec<u8> = target_key(
                    self.user_hash,
                    uri.as_str(),
                    path,
                    link_to.as_str(),
                );
                let own: Vec<u8> = copy_bytes(row.key.as_slice());
                assert(target.deep_view() =~= target@);
                assert(own.deep_view() =~= own@);
                assert(row.deep_view().key =~= own@);
                Ok(Some((target, own)))
            },
        }
    }
}

/// The removals of pairs of rows.
pub open spec fn pair_removals(pairs: Seq<(Seq<u8>, Seq<u8>)>) -> Seq<WriteView>
    decreases pairs.len(),
{
    if pairs.len() == 0 {
        Seq::empty()
    } else {
        pair_removals(pairs.drop_last()) + seq![
            WriteView::Remove { key: pairs.last().0 },
            WriteView::Remove { key: pairs.last().1 },
        ]
    }
}

fn push_pairs(batch: &mut Vec<Write>, pairs: Vec<(Vec<u8>, Vec<u8>)>)
    ensures
        final(batch).deep_view() == old(batch).deep_view() + pair_removals(pairs.deep_view()),
{
    let ghost start = batch.deep_view();
    let ghost all = pairs.deep_view();
    let mut i: usize = 0;
    assert(all.take(0) =~= Seq::empty());
    assert(start + pair_removals(all.take(0)) =~= start);
    while i < pairs.len()
        invariant
            i <= pairs@.len(),
            all == pairs.deep_view(),
            batch.deep_view() == start + pair_removals(all.take(i as int)),
        decreases pairs.len() - i,
    {
        assert(all.take(i + 1).drop_last() =~= all.take(i as int));
        let ghost before = batch.deep_view();
        let target: Vec<u8> = copy_bytes(pairs[i].0.as_slice());
        let own: Vec<u8> = copy_bytes(pairs[i].1.as_slice());
        assert(all[i as int].0 =~= target@);
        assert(all[i as int].1 =~= own@);
        batch.push(Write::Remove { key: target });
        batch.push(Write::Remove { key: own });
        proof {
            let ws = seq![
                WriteView::Remove { key: all[i as int].0 },
                WriteView::Remove { key: all[i as int].1 },
            ];
            assert(batch.deep_view() =~= before + ws);
            assert(before + ws =~= start + (pair_removals(all.take(i as int)) + ws));
        }
        i = i + 1;
    }
    assert(all.take(i as int) =~= all);
}

/// The links of a user.
pub open spec fn user_link_rows(indexes: Rows, hash: u64) -> Seq<RowView> {
    scan(indexes, prefix_keys(user_links_prefix_bytes(hash)))
}

/// The store without any links from a user's records.
pub open spec fn unlinked(s: MetastoreView, hash: u64) -> (Result<(), MetastoreError>, MetastoreView) {
    match collect_all(user_link_rows(s.indexes.rows, hash), |row: RowView| link_rows(hash, row)) {
        Err(e) => (Err(e), s),
        Ok(pairs) => (
            Ok(()),
            MetastoreView { indexes: s.indexes.commit(pair_removals(pairs)), ..s },
        ),
    }
}

/// The links of a known user were removed.
pub open spec fn repo_unlinked(s: MetastoreView, user_id: Uuid) -> (
    Result<(), DbErrorView>,
    MetastoreView,
) {
    match hash_of(s.user_hashes, user_id) {
        None => (Err(unknown_user()), s),
        Some(hash) => match unlinked(s, hash) {
            (Err(e), t) => (Err(db_error(e)), t),
            (Ok(_), t) => (Ok(()), t),
        },
    }
}

/// The prefix of a user's records.
pub open spec fn records_prefix_bytes(hash: u64) -> Seq<u8> {
    seq![KeyTag::Records.byte()] + be8(hash)
}

fn records_prefix(user_hash: UserHash) -> (r: Vec<u8>)
    ensures
        r@ == records_prefix_bytes(user_hash@),
{
    let r: Vec<u8> = KeyBuilder::new().tag(KeyTag::Records.raw()).u64(user_hash.raw()).build();
    assert(r@ =~= records_prefix_bytes(user_hash@));
    r
}

/// The removals of all records of a user.
pub open spec fn all_record_removals(repo_data: Rows, hash: u64) -> Seq<WriteView> {
    row_removals(scan(repo_data, prefix_keys(records_prefix_bytes(hash))))
}

impl Metastore {
    fn unlink_user(&mut self, user_hash: UserHash) -> (r: Result<(), MetastoreError>)
        ensures
            (r, final(self)@) == unlinked(old(self)@, user_hash@),
    {
        let rows: Vec<Row> = self.indexes.prefix(backlink_by_user_prefix(user_hash).as_slice());
        let reader = LinkRows { user_hash };
        let ghost hash = user_hash@;
        assert(reader.reading() =~= |row: RowView| link_rows(hash, row));
        match collect_all_items(rows.as_slice(), &reader) {
            Err(e) => Err(e),
            Ok(pairs) => {
                let mut batch: Vec<Write> = Vec::new();
                let ghost removals = pair_removals(pairs.deep_view());
                push_pairs(&mut batch, pairs);
                assert(batch.deep_view() =~= removals);
                self.indexes.commit(batch);
                Ok(())
            },
        }
    }

    /// Removes all links from a user's records.
    pub fn remove_backlinks_by_repo(&mut self, repo_id: Uuid) -> (r: Result<(), DbError>)
        ensures
            (db_viewed(r), final(self)@) == repo_unlinked(old(self)@, repo_id),
    {
        match self.user_hashes.get(&repo_id) {
            None => Err(unknown_user_error()),
            Some(user_hash) => match self.unlink_user(user_hash) {
                Ok(()) => Ok(()),
                Err(e) => Err(metastore_to_db(e)),
            },
        }
    }

    /// Removes what a deleted account's repository left beside its rows: its links, once its
    /// blobs are gone.
    pub fn purge_repo_side_data(
        &mut self,
        blobs_removed: Result<(), MetastoreError>,
        did: &Did,
    ) -> (r: Result<(), MetastoreError>)
        ensures
            (r, final(self)@) == (match blobs_removed {
                Err(e) => (Err::<(), MetastoreError>(e), old(self)@),
                Ok(_) => unlinked(old(self)@, did_hash(did@)),
            }),
    {
        match blobs_removed {
            Err(e) => Err(e),
            Ok(()) => self.unlink_user(UserHash::from_did(did.as_str())),
        }
    }

    /// Deletes all records of a user.
    pub fn delete_all_records(&mut self, repo_id: Uuid) -> (r: Result<(), DbError>)
        ensures
            (db_viewed(r), final(self)@) == user_rows_changed(
                old(self)@,
                repo_id,
                |hash: u64| all_record_removals(old(self)@.repo_data.rows, hash),
            ),
    {
        match self.user_hashes.get(&repo_id) {
            None => Err(unknown_user_error()),
            Some(user_hash) => {
                let rows: Vec<Row> = self.repo_data.prefix(records_prefix(user_hash).as_slice());
                let mut batch: Vec<Write> = Vec::new();
                push_removals(&mut batch, &rows);
                assert(batch.deep_view() =~= all_record_removals(
                    old(self)@.repo_data.rows,
                    user_hash@,
                ));
                self.repo_data.commit(batch);
                Ok(())
            },
        }
    }
}

/// A repository, as a page of repositories was read.
#[derive(Debug, PartialEq, Eq)]
pub struct RepoListEntry {
    pub did: Option<String>,
    pub deactivated_at: Option<i64>,
    pub takedown_ref: Option<String>,
    pub repo_root_cid: CidLink,
    pub repo_rev: Option<String>,
}

/// A repository in a list of repositories.
#[derive(Debug, PartialEq, Eq)]
pub struct RepoListItem {
    pub did: Did,
    pub deactivated_at: Option<i64>,
    pub takedown_ref: Option<String>,
    pub repo_root_cid: CidLink,
    pub repo_rev: Option<String>,
}

#[verifier::ext_equal]
pub struct ListedRepo {
    pub did: Seq<char>,
    pub deactivated_at: Option<i64>,
    pub takedown_ref: Option<Seq<char>>,
    pub repo_root_cid: Seq<u8>,
    pub repo_rev: Option<Seq<char>>,
}

#[verifier::ext_equal]
pub struct RepoEntry {
    pub did: Option<Seq<char>>,
    pub deactivated_at: Option<i64>,
    pub takedown_ref: Option<Seq<char>>,
    pub repo_root_cid: Seq<u8>,
    pub repo_rev: Option<Seq<char>>,
}

impl DeepView for RepoListEntry {
    type V = RepoEntry;

    open spec fn deep_view(&self) -> RepoEntry {
        RepoEntry {
            did: self.did.deep_view(),
            deactivated_at: self.deactivated_at,
            takedown_ref: self.takedown_ref.deep_view(),
            repo_root_cid: self.repo_root_cid@,
            repo_rev: self.repo_rev.deep_view(),
        }
    }
}

impl DeepView for RepoListItem {
    type V = ListedRepo;

    open spec fn deep_view(&self) -> ListedRepo {
        ListedRepo {
            did: self.did@,
            deactivated_at: self.deactivated_at,
            takedown_ref: self.takedown_ref.deep_view(),
            repo_root_cid: self.repo_root_cid@,
            repo_rev: self.repo_rev.deep_view(),
        }
    }
}

/// A repository for a list. One whose row names no account cannot be listed.
pub open spec fn listed(r: RepoEntry) -> Option<ListedRepo> {
    match r.did {
        None => None,
        Some(did) => Some(
            ListedRepo {
                did,
                deactivated_at: r.deactivated_at,
                takedown_ref: r.takedown_ref,
                repo_root_cid: r.repo_root_cid,
                repo_rev: r.repo_rev,
            },
        ),
    }
}

pub open spec fn missing_did() -> DbErrorView {
    DbErrorView::CorruptData("repo_meta missing DID field"@)
}

pub fn convert_repo_list_entry(r: RepoListEntry) -> (out: Result<RepoListItem, DbError>)
    ensures
        db_viewed(out) == (match listed(r.deep_view()) {
            Some(item) => Ok(item),
            None => Err(missing_did()),
        }),
{
    match r.did {
        None => Err(DbError::CorruptData("repo_meta missing DID field")),
        Some(did) => Ok(
            RepoListItem {
                did: Did::from(did),
                deactivated_at: r.deactivated_at,
                takedown_ref: r.takedown_ref,
                repo_root_cid: r.repo_root_cid,
                repo_rev: r.repo_rev,
            },
        ),
    }
}

/// A list of repositories, if all of them can be listed.
pub open spec fn listed_repos(entries: Seq<RepoEntry>) -> Result<Seq<ListedRepo>, DbErrorView> {
    if forall|i: int| 0 <= i < entries.len() ==> listed(#[trigger] entries[i]) is Some {
        Ok(Seq::new(entries.len(), |i: int| listed(entries[i])->0))
    } else {
        Err(missing_did())
    }
}

/// Lists repositories that were read.
pub fn list_repos(entries: Vec<RepoListEntry>) -> (r: Result<Vec<RepoListItem>, DbError>)
    ensures
        db_viewed(r) == listed_repos(entries.deep_view()),
{
    let ghost all = entries.deep_view();
    let mut out: Vec<RepoListItem> = Vec::new();
    for entry in iter: entries
        invariant
            all == entries.deep_view(),
            all.len() == iter.seq().len(),
            forall|i: int| 0 <= i < all.len() ==> (#[trigger] iter.seq()[i]).deep_view() == all[i],
            out@.len() == iter.index(),
            forall|i: int|
                0 <= i < out@.len() ==> listed(all[i]) == Some((#[trigger] out@[i]).deep_view()),
    {
        let ghost i = iter.index();
        assert(entry.deep_view() == all[i]);
        match convert_repo_list_entry(entry) {
            Err(e) => {
                assert(listed(all[i]) is None);
                return Err(e);
            },
            Ok(item) => {
                out.push(item);
            },
        }
    }
    proof {
        assert forall|i: int| 0 <= i < all.len() implies listed(#[trigger] all[i]) is Some by {
            assert(listed(all[i]) == Some(out@[i].deep_view()));
        }
        assert(out.deep_view() =~= Seq::new(all.len(), |i: int| listed(all[i])->0)) by {
            assert forall|i: int| 0 <= i < all.len() implies out.deep_view()[i] == listed(
                all[i],
            )->0 by {
                assert(listed(all[i]) == Some(out@[i].deep_view()));
            }
        }
    }
    Ok(out)
}

/// After all records of a user were deleted, none of them is found.
pub proof fn deleted_records_are_gone(
    s: MetastoreView,
    user_id: Uuid,
    collection: Seq<char>,
    rkey: Seq<char>,
)
    requires
        s.repo_data.rows.dom().finite(),
        hash_of(s.user_hashes, user_id) is Some,
    ensures
        ({
            let t = user_rows_changed(
                s,
                user_id,
                |hash: u64| all_record_removals(s.repo_data.rows, hash),
            ).1;
            record_at(t.repo_data.rows, t.user_hashes, user_id, collection, rkey) == Ok::<
                Option<Seq<u8>>,
                MetastoreError,
            >(None)
        }),
{
    let hash = hash_of(s.user_hashes, user_id)->0;
    let m = s.repo_data.rows;
    let keys = prefix_keys(records_prefix_bytes(hash));
    let key = record_key_bytes(hash, collection, rkey);
    assert(key.take(records_prefix_bytes(hash).len() as int) =~= records_prefix_bytes(hash));
    scan_lists(m, keys);
    removing_rows(m, scan(m, keys), key);
    if m.contains_key(key) {
        assert(m.contains_key(key) && keys.contains(key));
    }
}

pub(crate) proof fn pair_removals_remove(m: Rows, pairs: Seq<(Seq<u8>, Seq<u8>)>, key: Seq<u8>)
    ensures
        (exists|i: int|
            0 <= i < pairs.len() && ((#[trigger] pairs[i]).0 == key || pairs[i].1 == key))
            ==> lookup(write_rows(m, pair_removals(pairs)), key) is None,
        (forall|i: int| 0 <= i < pairs.len() ==> (#[trigger] pairs[i]).0 != key && pairs[i].1 != key)
            ==> lookup(write_rows(m, pair_removals(pairs)), key) == lookup(m, key),
    decreases pairs.len(),
{
    if pairs.len() > 0 {
        let before = pairs.drop_last();
        pair_removals_remove(m, before, key);
        let ws = pair_removals(pairs);
        let first = ws.drop_last();
        assert(first.drop_last() =~= pair_removals(before));
        assert(first.last() == WriteView::Remove { key: pairs.last().0 });
        assert(ws.last() == WriteView::Remove { key: pairs.last().1 });
        assert(write_rows(m, first) == write_row(write_rows(m, first.drop_last()), first.last()));
        assert(write_rows(m, ws) == write_row(write_rows(m, first), ws.last()));
        if exists|i: int|
            0 <= i < pairs.len() && ((#[trigger] pairs[i]).0 == key || pairs[i].1 == key) {
            let i = choose|i: int|
                0 <= i < pairs.len() && ((#[trigger] pairs[i]).0 == key || pairs[i].1 == key);
            if i < before.len() {
                assert(before[i] == pairs[i]);
            }
        }
        if forall|i: int| 0 <= i < pairs.len() ==> (#[trigger] pairs[i]).0 != key && pairs[i].1 != key {
            assert forall|i: int| 0 <= i < before.len() implies (#[trigger] before[i]).0 != key
                && before[i].1 != key by {
                assert(before[i] == pairs[i]);
            }
            assert(pairs[pairs.len() - 1].0 != key);
        }
    }
}

/// A link is read back from its key among the user's links.
pub proof fn user_link_round_trip(hash: u64, link: Link)
    ensures
        user_link(uri_key_bytes(hash, link)) == Some(link),
{
    be8_round_trip(hash);
    let key = uri_key_bytes(hash, link);
    let uri = escaped(encode_utf8(link.uri));
    let target = escaped(encode_utf8(link.link_to));
    assert(key.skip(9) =~= uri + (seq![link.path] + target));
    escaped_round_trip(encode_utf8(link.uri), seq![link.path] + target);
    text_round_trip(link.uri);
    let n = uri.len() as int;
    assert(key[9 + n] == link.path);
    assert(key.skip(9 + n + 1) =~= target + Seq::empty());
    escaped_round_trip(encode_utf8(link.link_to), Seq::empty());
    text_round_trip(link.link_to);
}

/// After a user's links were removed, the user has none, and none of them is found under its
/// target.
pub proof fn removed_links_are_gone(s: MetastoreView, hash: u64, link: Link)
    requires
        s.indexes.rows.dom().finite(),
        unlinked(s, hash).0 is Ok,
    ensures
        lookup(unlinked(s, hash).1.indexes.rows, uri_key_bytes(hash, link)) is None,
        lookup(s.indexes.rows, uri_key_bytes(hash, link)) is Some ==> lookup(
            unlinked(s, hash).1.indexes.rows,
            target_key_bytes(hash, link),
        ) is None,
{
    let m = s.indexes.rows;
    let prefix = user_links_prefix_bytes(hash);
    let keys = prefix_keys(prefix);
    let rows = user_link_rows(m, hash);
    let f = |row: RowView| link_rows(hash, row);
    let own = uri_key_bytes(hash, link);
    let pairs = collect_all(rows, f)->Ok_0;
    assert(own.take(prefix.len() as int) =~= prefix);
    scan_lists(m, keys);
    pair_removals_remove(m, pairs, own);
    pair_removals_remove(m, pairs, target_key_bytes(hash, link));
    if m.contains_key(own) {
        assert(m.contains_key(own) && keys.contains(own));
        let i = choose|i: int| 0 <= i < rows.len() && (#[trigger] rows[i]).key == own;
        user_link_round_trip(hash, link);
        collected(rows, f, rows.len(), (target_key_bytes(hash, link), own));
        assert(f(rows[i]) == Contribution::<(Seq<u8>, Seq<u8>)>::Ok(
            Some((target_key_bytes(hash, link), own)),
        ));
        let k = choose|k: int| 0 <= k < pairs.len() && pairs[k] == (target_key_bytes(hash, link), own);
        assert(pairs[k].1 == own && pairs[k].0 == target_key_bytes(hash, link));
    }
}

} // verus!
