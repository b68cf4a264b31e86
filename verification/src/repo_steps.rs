//! Changes to a user's repository outside commits.

use vstd::prelude::*;

use crate::backlinks::{add_backlinks, link_writes, remove_backlinks_by_uri, unlink_uri};
use crate::backlinks::{BacklinkMutation, Link};
use crate::errors::{db_error, db_viewed, metastore_to_db, viewed, DbError};
use crate::errors::{DbErrorView, MetastoreError};
use crate::keys::{did_hash, UserHash};
use crate::metastore::{Metastore, MetastoreView};
use crate::records::{delete_records, record_at, record_removals, record_writes, upsert_records};
use crate::records::{get_record_cid, RecordKeyView, RecordMutationDelete, RecordMutationUpsert};
use crate::records::RecordPut;
use crate::repo_meta::{repo_meta_key, repo_meta_key_bytes, RepoMeta, RepoMetaValue};
use crate::store::{lookup, Write, WriteView};
use crate::types::{CidLink, Did, Uuid};
use crate::user_blocks::{block_removals, block_writes, delete_user_blocks, insert_user_blocks};
use crate::user_hash::hash_of;

verus! {

/// A user's repository row, with the user's hash.
pub open spec fn repo_meta_of(s: MetastoreView, user_id: Uuid) -> Result<
    Option<(u64, RepoMeta)>,
    MetastoreError,
> {
    match hash_of(s.user_hashes, user_id) {
        None => Ok(None),
        Some(hash) => match lookup(s.repo_data.rows, repo_meta_key_bytes(hash)) {
            None => Ok(None),
            Some(b) => match RepoMeta::read(b) {
                None => Err(MetastoreError::CorruptData("invalid repo_meta value")),
                Some(meta) => Ok(Some((hash, meta))),
            },
        },
    }
}

pub open spec fn unknown_user() -> DbErrorView {
    DbErrorView::Query("unknown user_id"@)
}

pub(crate) fn unknown_user_error() -> (r: DbError)
    ensures
        r@ == unknown_user(),
{
    DbError::Query("unknown user_id".to_owned())
}

pub open spec fn shortest(a: nat, b: nat, c: nat) -> nat {
    if a <= b && a <= c {
        a
    } else if b <= c {
        b
    } else {
        c
    }
}

/// Records by their collections, names and contents; what has no counterpart is left out.
pub open spec fn zipped_records(
    collections: Seq<Seq<char>>,
    rkeys: Seq<Seq<char>>,
    cids: Seq<Seq<u8>>,
) -> Seq<RecordPut> {
    Seq::new(
        shortest(collections.len(), rkeys.len(), cids.len()),
        |i: int| RecordPut { collection: collections[i], rkey: rkeys[i], cid_bytes: cids[i] },
    )
}

/// Records by their collections and names; what has no counterpart is left out.
pub open spec fn zipped_keys(collections: Seq<Seq<char>>, rkeys: Seq<Seq<char>>) -> Seq<
    RecordKeyView,
> {
    Seq::new(
        if collections.len() <= rkeys.len() {
            collections.len()
        } else {
            rkeys.len()
        },
        |i: int| RecordKeyView { collection: collections[i], rkey: rkeys[i] },
    )
}

/// The store whose repository partition took a batch.
pub open spec fn repo_committed(s: MetastoreView, ws: Seq<WriteView>) -> MetastoreView {
    MetastoreView { repo_data: s.repo_data.commit(ws), ..s }
}

/// Some records of a user were written.
pub open spec fn records_upserted(
    s: MetastoreView,
    user_id: Uuid,
    records: Seq<RecordPut>,
    rev: Seq<char>,
) -> (Result<(), DbErrorView>, MetastoreView) {
    match repo_meta_of(s, user_id) {
        Err(e) => (Err(db_error(e)), s),
        Ok(None) => (Err(unknown_user()), s),
        Ok(Some((hash, meta))) => (
            Ok(()),
            repo_committed(
                s,
                record_writes(hash, records).push(
                    WriteView::Put {
                        key: repo_meta_key_bytes(hash),
                        value: RepoMeta { repo_rev: rev, ..meta }.stored(),
                    },
                ),
            ),
        ),
    }
}

/// A change of a known user's rows in the repository partition.
pub open spec fn user_rows_changed(
    s: MetastoreView,
    user_id: Uuid,
    writes: spec_fn(u64) -> Seq<WriteView>,
) -> (Result<(), DbErrorView>, MetastoreView) {
    match hash_of(s.user_hashes, user_id) {
        None => (Err(unknown_user()), s),
        Some(hash) => (Ok(()), repo_committed(s, writes(hash))),
    }
}

/// Links from a user's records were added.
pub open spec fn links_added(s: MetastoreView, user_id: Uuid, links: Seq<Link>) -> (
    Result<(), DbErrorView>,
    MetastoreView,
) {
    match hash_of(s.user_hashes, user_id) {
        None => (Err(unknown_user()), s),
        Some(hash) => (
            Ok(()),
            MetastoreView { indexes: s.indexes.commit(link_writes(hash, links)), ..s },
        ),
    }
}

/// The links from a record were removed.
pub open spec fn links_removed(s: MetastoreView, uri: Seq<char>, did: Option<Seq<char>>) -> (
    Result<(), DbErrorView>,
    MetastoreView,
) {
    match did {
        None => (Err(DbErrorView::Query("backlink uri missing did"@)), s),
        Some(d) => match unlink_uri(s.indexes.rows, did_hash(d), uri) {
            Err(e) => (Err(db_error(e)), s),
            Ok(ws) => (Ok(()), MetastoreView { indexes: s.indexes.commit(ws), ..s }),
        },
    }
}

impl Metastore {
    /// A user's repository row, with the user's hash.
    pub fn get_repo_meta(&self, user_id: Uuid) -> (r: Result<
        Option<(UserHash, RepoMetaValue)>,
        MetastoreError,
    >)
        ensures
            match repo_meta_of(self@, user_id) {
                Err(e) => r is Err && r->Err_0 == e,
                Ok(None) => r is Ok && r->Ok_0 is None,
                Ok(Some((hash, meta))) => r is Ok && r->Ok_0 is Some && (r->Ok_0->0).0@ == hash && (
                r->Ok_0->0).1.deep_view() == meta,
            },
    {
        match self.user_hashes.get(&user_id) {
            None => Ok(None),
            Some(hash) => match self.repo_data.get(repo_meta_key(hash).as_slice()) {
                None => Ok(None),
                Some(raw) => match RepoMetaValue::deserialize(raw.as_slice()) {
                    None => Err(MetastoreError::CorruptData("invalid repo_meta value")),
                    Some(meta) => Ok(Some((hash, meta))),
                },
            },
        }
    }

    /// Writes some records of a user, and the revision that they make.
    pub fn upsert_records(
        &mut self,
        repo_id: Uuid,
        collections: &Vec<String>,
        rkeys: &Vec<String>,
        record_cids: &Vec<CidLink>,
        repo_rev: &str,
    ) -> (r: Result<(), DbError>)
        ensures
            (db_viewed(r), final(self)@) == records_upserted(
                old(self)@,
                repo_id,
                zipped_records(collections.deep_view(), rkeys.deep_view(), record_cids.deep_view()),
                repo_rev@,
            ),
    {
        let (user_hash, meta): (UserHash, RepoMetaValue) = match self.get_repo_meta(repo_id) {
            Err(e) => {
                return Err(metastore_to_db(e));
            },
            Ok(None) => {
                return Err(unknown_user_error());
            },
            Ok(Some(found)) => found,
        };
        let ghost goal = zipped_records(
            collections.deep_view(),
            rkeys.deep_view(),
            record_cids.deep_view(),
        );
        let mut records: Vec<RecordMutationUpsert> = Vec::new();
        let mut i: usize = 0;
        while i < collections.len() && i < rkeys.len() && i < record_cids.len()
            invariant
                i <= goal.len(),
                goal == zipped_records(
                    collections.deep_view(),
                    rkeys.deep_view(),
                    record_cids.deep_view(),
                ),
                records@.len() == i,
                forall|k: int| 0 <= k < i ==> (#[trigger] records@[k]).deep_view() == goal[k],
            decreases collections.len() - i,
        {
            let cid_bytes: Vec<u8> = record_cids[i].to_bytes();
            assert(cid_bytes.deep_view() =~= record_cids@[i as int]@);
            let record = RecordMutationUpsert {
                collection: collections[i].clone(),
                rkey: rkeys[i].clone(),
                cid_bytes,
            };
            assert(record.deep_view() == goal[i as int]);
            records.push(record);
            i = i + 1;
        }
        assert(records.deep_view() =~= goal);
        let mut batch: Vec<Write> = Vec::new();
        upsert_records(&mut batch, user_hash, &records);
        assert(batch.deep_view() =~= record_writes(user_hash@, goal));
        let ghost before = meta.deep_view();
        let mut meta: RepoMetaValue = meta;
        meta.repo_rev = repo_rev.to_owned();
        assert(meta.deep_view() == RepoMeta { repo_rev: repo_rev@, ..before });
        batch.push(Write::Put { key: repo_meta_key(user_hash), value: meta.serialize() });
        assert(batch.deep_view() =~= record_writes(user_hash@, goal).push(
            WriteView::Put {
                key: repo_meta_key_bytes(user_hash@),
                value: RepoMeta { repo_rev: repo_rev@, ..before }.stored(),
            },
        ));
        self.repo_data.commit(batch);
        Ok(())
    }

    /// Deletes some records of a user.
    pub fn delete_records(
        &mut self,
        repo_id: Uuid,
        collections: &Vec<String>,
        rkeys: &Vec<String>,
    ) -> (r: Result<(), DbError>)
        ensures
            (db_viewed(r), final(self)@) == user_rows_changed(
                old(self)@,
                repo_id,
                |hash: u64|
                    record_removals(
                        hash,
                        zipped_keys(collections.deep_view(), rkeys.deep_view()),
                    ),
            ),
    {
        let user_hash: UserHash = match self.user_hashes.get(&repo_id) {
            None => {
                return Err(unknown_user_error());
            },
            Some(h) => h,
        };
        let ghost goal = zipped_keys(collections.deep_view(), rkeys.deep_view());
        let mut records: Vec<RecordMutationDelete> = Vec::new();
        let mut i: usize = 0;
        while i < collections.len() && i < rkeys.len()
            invariant
                i <= goal.len(),
                goal == zipped_keys(collections.deep_view(), rkeys.deep_view()),
                records@.len() == i,
                forall|k: int| 0 <= k < i ==> (#[trigger] records@[k]).deep_view() == goal[k],
            decreases collections.len() - i,
        {
            let record = RecordMutationDelete {
                collection: collections[i].clone(),
                rkey: rkeys[i].clone(),
            };
            assert(record.deep_view() == goal[i as int]);
            records.push(record);
            i = i + 1;
        }
        assert(records.deep_view() =~= goal);
        let mut batch: Vec<Write> = Vec::new();
        delete_records(&mut batch, user_hash, &records);
        assert(batch.deep_view() =~= record_removals(user_hash@, goal));
        self.repo_data.commit(batch);
        Ok(())
    }

    /// The content of a record.
    pub fn get_record_cid(&self, repo_id: Uuid, collection: &str, rkey: &str) -> (r: Result<
        Option<CidLink>,
        MetastoreError,
    >)
        ensures
            viewed(r) == record_at(
                self@.repo_data.rows,
                self@.user_hashes,
                repo_id,
                collection@,
                rkey@,
            ),
    {
        get_record_cid(&self.repo_data, &self.user_hashes, repo_id, collection, rkey)
    }

    /// Records the blocks of a user.
    pub fn insert_user_blocks(&mut self, user_id: Uuid, block_cids: &Vec<Vec<u8>>, repo_rev: &str) -> (r:
        Result<(), DbError>)
        ensures
            (db_viewed(r), final(self)@) == user_rows_changed(
                old(self)@,
                user_id,
                |hash: u64| block_writes(hash, block_cids.deep_view(), repo_rev@),
            ),
    {
        match self.user_hashes.get(&user_id) {
            None => Err(unknown_user_error()),
            Some(user_hash) => {
                let mut batch: Vec<Write> = Vec::new();
                insert_user_blocks(&mut batch, user_hash, block_cids, repo_rev);
                assert(batch.deep_view() =~= block_writes(
                    user_hash@,
                    block_cids.deep_view(),
                    repo_rev@,
                ));
                self.repo_data.commit(batch);
                Ok(())
            },
        }
    }

    /// Forgets blocks of a user.
    pub fn delete_user_blocks(&mut self, user_id: Uuid, block_cids: &Vec<Vec<u8>>) -> (r: Result<
        (),
        DbError,
    >)
        ensures
            (db_viewed(r), final(self)@) == user_rows_changed(
                old(self)@,
                user_id,
                |hash: u64| block_removals(hash, block_cids.deep_view()),
            ),
    {
        match self.user_hashes.get(&user_id) {
            None => Err(unknown_user_error()),
            Some(user_hash) => {
                let mut batch: Vec<Write> = Vec::new();
                delete_user_blocks(&mut batch, user_hash, block_cids);
                assert(batch.deep_view() =~= block_removals(user_hash@, block_cids.deep_view()));
                self.repo_data.commit(batch);
                Ok(())
            },
        }
    }

    /// Adds links from a user's records.
    pub fn add_backlinks(&mut self, repo_id: Uuid, backlinks: &Vec<BacklinkMutation>) -> (r: Result<
        (),
        DbError,
    >)
        ensures
            (db_viewed(r), final(self)@) == links_added(
                old(self)@,
                repo_id,
                backlinks.deep_view(),
            ),
    {
        match self.user_hashes.get(&repo_id) {
            None => Err(unknown_user_error()),
            Some(user_hash) => {
                let mut batch: Vec<Write> = Vec::new();
                add_backlinks(&mut batch, user_hash, backlinks);
                assert(batch.deep_view() =~= link_writes(user_hash@, backlinks.deep_view()));
                self.indexes.commit(batch);
                Ok(())
            },
        }
    }

    /// Removes the links from a record. The DID is that of the record's address.
    pub fn remove_backlinks_by_uri(&mut self, uri: &str, did: Option<&Did>) -> (r: Result<
        (),
        DbError,
    >)
        ensures
            (db_viewed(r), final(self)@) == links_removed(
                old(self)@,
                uri@,
                crate::types::optional_ref(did),
            ),
    {
        match did {
            None => Err(DbError::Query("backlink uri missing did".to_owned())),
            Some(d) => {
                let mut batch: Vec<Write> = Vec::new();
                match remove_backlinks_by_uri(
                    &mut batch,
                    &self.indexes,
                    UserHash::from_did(d.as_str()),
                    uri,
                ) {
                    Err(e) => Err(metastore_to_db(e)),
                    Ok(()) => {
                        assert(batch.deep_view() =~= unlink_uri(
                            old(self)@.indexes.rows,
                            did_hash(d@),
                            uri@,
                        )->Ok_0);
                        self.indexes.commit(batch);
                        Ok(())
                    },
                }
            },
        }
    }
}

} // verus!
