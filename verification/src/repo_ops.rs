//! Repositories: their rows, and the handles that lead to them.

use vstd::prelude::*;

use crate::codec::Field;
use crate::encoding::{be8, push_be};
use crate::errors::{viewed, MetastoreError};
use crate::keys::{did_hash, UserHash};
use crate::metastore::{Metastore, MetastoreView};
use crate::repo_meta::{handle_key, handle_key_bytes, repo_meta_key, repo_meta_key_bytes, RepoMeta};
use crate::repo_meta::{RepoMetaValue, RepoStatus};
use crate::store::{lookup, Rows, Write, WriteView};
use crate::types::{is_cid, CidLink, Did, Handle, Uuid};
use crate::user_hash::{hash_of, hash_refusal, user_hash_write, UserHashes};

verus! {

/// A stored content identifier, if the bytes are one.
pub open spec fn cid_of(b: Seq<u8>) -> Result<Seq<u8>, MetastoreError> {
    if is_cid(b) {
        Ok(b)
    } else {
        Err(MetastoreError::CorruptData("invalid CID bytes"))
    }
}

pub fn bytes_to_cid_link(b: &[u8]) -> (r: Result<CidLink, MetastoreError>)
    ensures
        viewed(r) == cid_of(b@),
{
    match CidLink::from_bytes(b) {
        Some(c) => Ok(c),
        None => Err(MetastoreError::CorruptData("invalid CID bytes")),
    }
}

/// A repository as its readers see it.
#[derive(Debug, PartialEq, Eq)]
pub struct RepoInfo {
    pub user_id: Uuid,
    pub repo_root_cid: CidLink,
    pub repo_rev: Option<String>,
}

pub struct Repo {
    pub user_id: Uuid,
    pub repo_root_cid: Seq<u8>,
    pub repo_rev: Option<Seq<char>>,
}

impl DeepView for RepoInfo {
    type V = Repo;

    open spec fn deep_view(&self) -> Repo {
        Repo {
            user_id: self.user_id,
            repo_root_cid: self.repo_root_cid.deep_view(),
            repo_rev: self.repo_rev.deep_view(),
        }
    }
}

/// A revision that is not empty.
pub open spec fn some_rev(rev: Seq<char>) -> Option<Seq<char>> {
    if rev.len() == 0 {
        None
    } else {
        Some(rev)
    }
}

pub fn non_empty_rev(rev: String) -> (r: Option<String>)
    ensures
        r.deep_view() == some_rev(rev@),
{
    if rev.as_str().unicode_len() == 0 {
        None
    } else {
        Some(rev)
    }
}

/// A user's repository.
pub open spec fn repo_at(rows: Rows, hashes: UserHashes, user_id: Uuid) -> Result<
    Option<Repo>,
    MetastoreError,
> {
    match hash_of(hashes, user_id) {
        None => Ok(None),
        Some(hash) => match lookup(rows, repo_meta_key_bytes(hash)) {
            None => Ok(None),
            Some(b) => match RepoMeta::read(b) {
                None => Err(MetastoreError::CorruptData("invalid repo_meta value")),
                Some(meta) => match cid_of(meta.repo_root_cid) {
                    Err(e) => Err(e),
                    Ok(root) => Ok(
                        Some(
                            Repo {
                                user_id,
                                repo_root_cid: root,
                                repo_rev: some_rev(meta.repo_rev),
                            },
                        ),
                    ),
                },
            },
        },
    }
}

/// The row of a new repository.
pub open spec fn new_repo(
    did: Seq<char>,
    handle: Seq<char>,
    root: Seq<u8>,
    rev: Seq<char>,
) -> RepoMeta {
    RepoMeta {
        repo_root_cid: root,
        repo_rev: rev,
        handle,
        status: RepoStatus::Active,
        deactivated_at_ms: None,
        takedown_ref: None,
        did: Some(did),
    }
}

/// The writes of a new repository: its user's hash, its row, and its handle's row.
pub open spec fn new_repo_writes(user_id: Uuid, hash: u64, meta: RepoMeta) -> Seq<WriteView> {
    seq![
        user_hash_write(user_id, hash),
        WriteView::Put { key: repo_meta_key_bytes(hash), value: meta.stored() },
        WriteView::Put { key: handle_key_bytes(meta.handle), value: be8(hash) },
    ]
}

impl Metastore {
    /// Creates a repository for a user. The handle is in lower case.
    pub fn create_repo(
        &mut self,
        user_id: Uuid,
        did: &Did,
        handle: &Handle,
        repo_root_cid: &CidLink,
        repo_rev: &str,
    ) -> (r: Result<(), MetastoreError>)
        ensures
            match hash_refusal(old(self)@.user_hashes, user_id, did_hash(did@)) {
                Some(e) => r == Err::<(), MetastoreError>(e) && final(self)@ == old(self)@,
                None => r is Ok && final(self)@ == (MetastoreView {
                    user_hashes: old(self)@.user_hashes.insert(user_id, did_hash(did@)),
                    repo_data: old(self)@.repo_data.commit(
                        new_repo_writes(
                            user_id,
                            did_hash(did@),
                            new_repo(did@, handle@, repo_root_cid@, repo_rev@),
                        ),
                    ),
                    ..old(self)@
                }),
            },
    {
        let user_hash: UserHash = UserHash::from_did(did.as_str());
        match self.user_hashes.stage_insert(user_id, user_hash) {
            Err(e) => Err(e),
            Ok(hash_write) => {
                let root: Vec<u8> = repo_root_cid.to_bytes();
                assert(root.deep_view() =~= root@);
                let meta = RepoMetaValue {
                    repo_root_cid: root,
                    repo_rev: repo_rev.to_owned(),
                    handle: handle.as_str().to_owned(),
                    status: RepoStatus::Active,
                    deactivated_at_ms: None,
                    takedown_ref: None,
                    did: Some(did.as_str().to_owned()),
                };
                let ghost mv = new_repo(did@, handle@, repo_root_cid@, repo_rev@);
                assert(meta.deep_view() == mv);
                let mut number: Vec<u8> = Vec::new();
                push_be(&mut number, user_hash.raw(), 8);
                assert(number@ =~= be8(user_hash@));
                let batch: Vec<Write> = vec![
                    hash_write,
                    Write::Put { key: repo_meta_key(user_hash), value: meta.serialize() },
                    Write::Put { key: handle_key(handle.as_str()), value: number },
                ];
                assert(batch.deep_view() =~= new_repo_writes(user_id, user_hash@, mv));
                self.repo_data.commit(batch);
                Ok(())
            },
        }
    }

    /// A user's repository.
    pub fn get_repo(&self, user_id: Uuid) -> (r: Result<Option<RepoInfo>, MetastoreError>)
        ensures
            viewed(r) == repo_at(self@.repo_data.rows, self@.user_hashes, user_id),
    {
        match self.user_hashes.get(&user_id) {
            None => Ok(None),
            Some(hash) => match self.repo_data.get(repo_meta_key(hash).as_slice()) {
                None => Ok(None),
                Some(raw) => match RepoMetaValue::deserialize(raw.as_slice()) {
                    None => Err(MetastoreError::CorruptData("invalid repo_meta value")),
                    Some(meta) => {
                        assert(meta.repo_root_cid.deep_view() =~= meta.repo_root_cid@);
                        match bytes_to_cid_link(meta.repo_root_cid.as_slice()) {
                            Err(e) => Err(e),
                            Ok(root) => Ok(
                                Some(
                                    RepoInfo {
                                        user_id,
                                        repo_root_cid: root,
                                        repo_rev: non_empty_rev(meta.repo_rev),
                                    },
                                ),
                            ),
                        }
                    },
                },
            },
        }
    }
}

} // verus!
