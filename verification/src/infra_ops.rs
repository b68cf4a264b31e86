//! Account infrastructure: the store as the keeper of messages, invite codes, keys,
//! requests, preferences and settings.

use vstd::prelude::*;

use crate::metastore::{Metastore, MetastoreView};
use crate::store::{Keyspace, Rows, WriteView};
use crate::types::{Did, Handle, Uuid};
use crate::user_hash::{hash_of, UserHashMap, UserHashes};
use crate::users::{did_at, handle_at, resolve_did, resolve_handle};

verus! {

/// The store as the keeper of account infrastructure.
pub struct InfraOps<'a> {
    pub store: &'a mut Metastore,
}

impl<'a> View for InfraOps<'a> {
    type V = MetastoreView;

    open spec fn view(&self) -> MetastoreView {
        self.store@
    }
}

impl Metastore {
    pub fn infra_ops(&mut self) -> (r: InfraOps<'_>)
        ensures
            *r.store == *old(self),
            *final(r.store) == *final(self),
    {
        InfraOps { store: self }
    }
}

/// A store whose infrastructure partition took a batch.
pub open spec fn infra_committed(s: MetastoreView, ws: Seq<WriteView>) -> MetastoreView {
    MetastoreView { infra: s.infra.commit(ws), ..s }
}

/// The DID of a user, if the user is known and the DID is well formed.
pub open spec fn did_of_user(users: Rows, hashes: UserHashes, id: Uuid) -> Option<Seq<char>> {
    match hash_of(hashes, id) {
        Some(h) => did_at(users, h),
        None => None,
    }
}

/// The handle of a user, if the user is known and the handle is well formed.
pub open spec fn handle_of_user(users: Rows, hashes: UserHashes, id: Uuid) -> Option<Seq<char>> {
    match hash_of(hashes, id) {
        Some(h) => handle_at(users, h),
        None => None,
    }
}

pub(crate) fn resolve_did_for_uuid(users: &Keyspace, hashes: &UserHashMap, id: Uuid) -> (r: Option<
    Did,
>)
    ensures
        r.deep_view() == did_of_user(users@.rows, hashes@, id),
{
    match hashes.get(&id) {
        Some(h) => resolve_did(users, h),
        None => None,
    }
}

pub(crate) fn resolve_handle_for_uuid(
    users: &Keyspace,
    hashes: &UserHashMap,
    id: Uuid,
) -> (r: Option<Handle>)
    ensures
        r.deep_view() == handle_of_user(users@.rows, hashes@, id),
{
    match hashes.get(&id) {
        Some(h) => resolve_handle(users, h),
        None => None,
    }
}

} // verus!
