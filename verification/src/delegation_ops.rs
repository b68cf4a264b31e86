//! Delegations: who may act for an account, and what they did.

use vstd::prelude::*;
use vstd::utf8::encode_utf8;

use crate::bytes::has_prefix;
use crate::clock::{is_timestamp, now_millis, random_uuid, time_or_epoch, time_or_none};
use crate::clock::{timestamp_or_epoch, timestamp_or_none};
use crate::codec::{same_text, Field};
use crate::delegations::{action_type_to_u8, audit_log_key, audit_log_key_bytes, audit_log_prefix};
use crate::delegations::{audit_log_prefix_bytes, by_controller_key, by_controller_key_bytes};
use crate::delegations::{by_controller_prefix, by_controller_prefix_bytes, grant_key};
use crate::delegations::{grant_key_bytes, grant_keys_injective, grant_prefix, grant_prefix_bytes};
use crate::delegations::{u8_to_action_type, AuditLogValue, AuditRow, DelegationActionType};
use crate::delegations::{DelegationGrantValue, GrantRow};
use crate::encoding::{read_second_number, second_number};
use crate::errors::{viewed, MetastoreError};
use crate::json::{json_bytes, optional_json_read, optional_json_to_store, read_optional_json};
use crate::json::stored_optional_json;
use crate::keys::{did_hash, KeyTag, UserHash};
use crate::metastore::{Metastore, MetastoreView};
use crate::scan::{collect, collect_all, collect_all_items, collect_items, count_limit, limit_of};
use crate::scan::{collect_nothing, rewriting_rows, saturate, saturated, Contribution, Reader};
use crate::store::{lookup, prefix_keys, scan, Keyspace, Row, RowView, Rows};
use crate::store::{scan_lists, storable, write_rows, write_rows_finite, write_rows_last, Write};
use crate::store::WriteView;
use crate::types::{is_did, optional_ref, optional_text, owned_did, owned_text, scope_or_empty};
use crate::types::{is_scope, DbScope, Did, Handle, Uuid};
use crate::user_hash::{uuid_of, UserHashMap, UserHashes};
use crate::users::{handle_at, resolve_handle};

verus! {

/// A grant as its users see it.
#[derive(Debug, PartialEq, Eq)]
pub struct DelegationGrant {
    pub id: Uuid,
    pub delegated_did: Did,
    pub controller_did: Did,
    pub granted_scopes: DbScope,
    pub granted_at: i64,
    pub granted_by: Did,
    pub revoked_at: Option<i64>,
    pub revoked_by: Option<Did>,
}

#[verifier::ext_equal]
pub struct Grant {
    pub id: Uuid,
    pub delegated_did: Seq<char>,
    pub controller_did: Seq<char>,
    pub granted_scopes: Seq<char>,
    pub granted_at: i64,
    pub granted_by: Seq<char>,
    pub revoked_at: Option<i64>,
    pub revoked_by: Option<Seq<char>>,
}

impl DeepView for DelegationGrant {
    type V = Grant;

    open spec fn deep_view(&self) -> Grant {
        Grant {
            id: self.id,
            delegated_did: self.delegated_did.deep_view(),
            controller_did: self.controller_did.deep_view(),
            granted_scopes: self.granted_scopes.deep_view(),
            granted_at: self.granted_at,
            granted_by: self.granted_by.deep_view(),
            revoked_at: self.revoked_at,
            revoked_by: self.revoked_by.deep_view(),
        }
    }
}

/// A controller of a delegated account.
#[derive(Debug, PartialEq, Eq)]
pub struct ControllerInfo {
    pub did: Did,
    pub handle: Option<Handle>,
    pub granted_scopes: DbScope,
    pub granted_at: i64,
    pub is_active: bool,
    pub is_local: bool,
}

#[verifier::ext_equal]
pub struct Controller {
    pub did: Seq<char>,
    pub handle: Option<Seq<char>>,
    pub granted_scopes: Seq<char>,
    pub granted_at: i64,
    pub is_active: bool,
    pub is_local: bool,
}

impl DeepView for ControllerInfo {
    type V = Controller;

    open spec fn deep_view(&self) -> Controller {
        Controller {
            did: self.did.deep_view(),
            handle: self.handle.deep_view(),
            granted_scopes: self.granted_scopes.deep_view(),
            granted_at: self.granted_at,
            is_active: self.is_active,
            is_local: self.is_local,
        }
    }
}

/// An account that a controller has a grant on.
#[derive(Debug, PartialEq, Eq)]
pub struct DelegatedAccountInfo {
    pub did: Did,
    pub handle: Handle,
    pub granted_scopes: DbScope,
    pub granted_at: i64,
}

#[verifier::ext_equal]
pub struct ControlledAccount {
    pub did: Seq<char>,
    pub handle: Seq<char>,
    pub granted_scopes: Seq<char>,
    pub granted_at: i64,
}

impl DeepView for DelegatedAccountInfo {
    type V = ControlledAccount;

    open spec fn deep_view(&self) -> ControlledAccount {
        ControlledAccount {
            did: self.did.deep_view(),
            handle: self.handle.deep_view(),
            granted_scopes: self.granted_scopes.deep_view(),
            granted_at: self.granted_at,
        }
    }
}

/// An entry of the audit log as its readers see it. Details are JSON text.
#[derive(Debug, PartialEq, Eq)]
pub struct AuditLogEntry {
    pub id: Uuid,
    pub delegated_did: Did,
    pub actor_did: Did,
    pub controller_did: Option<Did>,
    pub action_type: DelegationActionType,
    pub action_details: Option<Vec<u8>>,
    pub ip_address: Option<String>,
    pub user_agent: Option<String>,
    pub created_at: i64,
}

#[verifier::ext_equal]
pub struct AuditEntry {
    pub id: Uuid,
    pub delegated_did: Seq<char>,
    pub actor_did: Seq<char>,
    pub controller_did: Option<Seq<char>>,
    pub action_type: DelegationActionType,
    pub action_details: Option<Seq<u8>>,
    pub ip_address: Option<Seq<char>>,
    pub user_agent: Option<Seq<char>>,
    pub created_at: i64,
}

impl DeepView for AuditLogEntry {
    type V = AuditEntry;

    open spec fn deep_view(&self) -> AuditEntry {
        AuditEntry {
            id: self.id,
            delegated_did: self.delegated_did.deep_view(),
            actor_did: self.actor_did.deep_view(),
            controller_did: self.controller_did.deep_view(),
            action_type: self.action_type,
            action_details: self.action_details.deep_view(),
            ip_address: self.ip_address.deep_view(),
            user_agent: self.user_agent.deep_view(),
            created_at: self.created_at,
        }
    }
}

/// The store as the delegations' keeper.
pub struct DelegationOps<'a> {
    pub store: &'a mut Metastore,
}

impl<'a> View for DelegationOps<'a> {
    type V = MetastoreView;

    open spec fn view(&self) -> MetastoreView {
        self.store@
    }
}

impl Metastore {
    pub fn delegation_ops(&mut self) -> (r: DelegationOps<'_>)
        ensures
            *r.store == *old(self),
            *final(r.store) == *final(self),
    {
        DelegationOps { store: self }
    }
}

/// A text that is a DID.
pub open spec fn did_text(t: Seq<char>) -> bool {
    is_did(encode_utf8(t))
}

/// The grant that a row holds.
pub open spec fn grant_of(v: GrantRow) -> Result<Grant, MetastoreError> {
    if !did_text(v.delegated_did) {
        Err(MetastoreError::CorruptData("invalid delegated_did"))
    } else if !did_text(v.controller_did) {
        Err(MetastoreError::CorruptData("invalid controller_did"))
    } else if !did_text(v.granted_by) {
        Err(MetastoreError::CorruptData("invalid granted_by"))
    } else {
        Ok(
            Grant {
                id: v.id,
                delegated_did: v.delegated_did,
                controller_did: v.controller_did,
                granted_scopes: scope_or_empty(v.granted_scopes),
                granted_at: timestamp_or_epoch(v.granted_at_ms),
                granted_by: v.granted_by,
                revoked_at: timestamp_or_none(v.revoked_at_ms),
                revoked_by: optional_did(v.revoked_by),
            },
        )
    }
}

pub open spec fn optional_did(t: Option<Seq<char>>) -> Option<Seq<char>> {
    match t {
        Some(d) => if did_text(d) {
            Some(d)
        } else {
            None
        },
        None => None,
    }
}

/// A grant row, if the bytes hold one.
pub open spec fn grant_row(b: Seq<u8>) -> Result<GrantRow, MetastoreError> {
    match GrantRow::read(b) {
        Some(v) => Ok(v),
        None => Err(MetastoreError::CorruptData("corrupt delegation grant")),
    }
}

/// The grant row at a key, if there is one.
pub open spec fn grant_row_at(rows: Rows, key: Seq<u8>) -> Result<Option<GrantRow>, MetastoreError> {
    match lookup(rows, key) {
        None => Ok(None),
        Some(b) => match grant_row(b) {
            Ok(v) => Ok(Some(v)),
            Err(e) => Err(e),
        },
    }
}

/// The grants on an account.
pub open spec fn grant_rows(indexes: Rows, delegated: Seq<char>) -> Seq<RowView> {
    scan(indexes, prefix_keys(grant_prefix_bytes(did_hash(delegated))))
}

pub open spec fn grant_key_of(delegated: Seq<char>, controller: Seq<char>) -> Seq<u8> {
    grant_key_bytes(did_hash(delegated), did_hash(controller))
}

pub open spec fn reverse_key_of(delegated: Seq<char>, controller: Seq<char>) -> Seq<u8> {
    by_controller_key_bytes(did_hash(controller), did_hash(delegated))
}

/// Whether a grant is in force: a row that was not revoked.
pub open spec fn active_grant(row: RowView) -> Contribution<()> {
    match grant_row(row.value) {
        Err(e) => Err(e),
        Ok(v) => Ok(if v.revoked_at_ms is None { Some(()) } else { None }),
    }
}

/// Whether any grant on the account is in force; rows are read up to the first that is.
pub open spec fn delegated_account(rows: Seq<RowView>) -> Result<bool, MetastoreError> {
    match collect(rows, |row: RowView| active_grant(row), 1) {
        Ok(found) => Ok(found.len() > 0),
        Err(e) => Err(e),
    }
}

/// How many grants on the account are in force.
pub open spec fn active_grants(rows: Seq<RowView>) -> Result<i64, MetastoreError> {
    match collect_all(rows, |row: RowView| active_grant(row)) {
        Ok(found) => Ok(saturated(found.len())),
        Err(e) => Err(e),
    }
}

struct ActiveGrants {}

impl Reader for ActiveGrants {
    type In = Row;

    type Item = ();

    closed spec fn reading(&self) -> spec_fn(RowView) -> Contribution<()> {
        |row: RowView| active_grant(row)
    }

    fn read(&self, row: &Row) -> (r: Contribution<()>) {
        match DelegationGrantValue::deserialize(row.value.as_slice()) {
            None => Err(MetastoreError::CorruptData("corrupt delegation grant")),
            Some(v) => Ok(
                if v.revoked_at_ms.is_none() {
                    Some(())
                } else {
                    None
                },
            ),
        }
    }
}

/// A new grant.
pub open spec fn new_grant(
    delegated: Seq<char>,
    controller: Seq<char>,
    scopes: Seq<char>,
    granted_by: Seq<char>,
    id: Uuid,
    now: i64,
) -> GrantRow {
    GrantRow {
        id,
        delegated_did: delegated,
        controller_did: controller,
        granted_scopes: scopes,
        granted_at_ms: now,
        granted_by,
        revoked_at_ms: None,
        revoked_by: None,
    }
}

/// The writes of a new grant: its row, and its entry in the index by controller.
pub open spec fn grant_writes(v: GrantRow) -> Seq<WriteView> {
    seq![
        WriteView::Put { key: grant_key_of(v.delegated_did, v.controller_did), value: v.stored() },
        WriteView::Put {
            key: reverse_key_of(v.delegated_did, v.controller_did),
            value: Seq::empty(),
        },
    ]
}

/// A grant after it was revoked.
pub open spec fn revoked(v: GrantRow, by: Seq<char>, now: i64) -> GrantRow {
    GrantRow { revoked_at_ms: Some(now), revoked_by: Some(by), ..v }
}

/// The writes of a revocation: the row, and its entry's removal from the index.
pub open spec fn revocation_writes(
    delegated: Seq<char>,
    controller: Seq<char>,
    v: GrantRow,
) -> Seq<WriteView> {
    seq![
        WriteView::Put { key: grant_key_of(delegated, controller), value: v.stored() },
        WriteView::Remove { key: reverse_key_of(delegated, controller) },
    ]
}

/// A grant with other scopes.
pub open spec fn rescoped(v: GrantRow, scopes: Seq<char>) -> GrantRow {
    GrantRow { granted_scopes: scopes, ..v }
}

/// The write that moves a grant from one scope to another, for rows that hold the first.
/// Rows that cannot be read are passed over.
pub open spec fn remap_row(row: RowView, from: Seq<char>, to: Seq<char>) -> Contribution<WriteView> {
    match GrantRow::read(row.value) {
        Some(v) => if v.granted_scopes == from {
            Ok(Some(WriteView::Put { key: row.key, value: rescoped(v, to).stored() }))
        } else {
            Ok(None)
        },
        None => Ok(None),
    }
}

pub open spec fn all_grant_rows(indexes: Rows) -> Seq<RowView> {
    scan(indexes, prefix_keys(seq![KeyTag::DelegGrant.byte()]))
}

/// The writes that move every grant from one scope to another.
pub open spec fn remap_writes(indexes: Rows, from: Seq<char>, to: Seq<char>) -> Seq<WriteView> {
    collect_all(all_grant_rows(indexes), |row: RowView| remap_row(row, from, to))->Ok_0
}

struct Remap<'b> {
    from: &'b str,
    to: &'b str,
}

impl<'b> Reader for Remap<'b> {
    type In = Row;

    type Item = Write;

    closed spec fn reading(&self) -> spec_fn(RowView) -> Contribution<WriteView> {
        |row: RowView| remap_row(row, self.from@, self.to@)
    }

    fn read(&self, row: &Row) -> (r: Contribution<Write>) {
        match DelegationGrantValue::deserialize(row.value.as_slice()) {
            Some(v) => {
                if same_text(v.granted_scopes.as_str(), self.from) {
                    let mut v: DelegationGrantValue = v;
                    let ghost before = v.deep_view();
                    v.granted_scopes = self.to.to_owned();
                    assert(v.deep_view() == rescoped(before, self.to@));
                    let key: Vec<u8> = crate::bytes::copy_bytes(row.key.as_slice());
                    Ok(Some(Write::Put { key, value: v.serialize() }))
                } else {
                    Ok(None)
                }
            },
            None => Ok(None),
        }
    }
}

/// What an account's owner sees of a grant.
pub open spec fn controller_of(
    row: RowView,
    users: Rows,
    hashes: UserHashes,
) -> Contribution<Controller> {
    match grant_row(row.value) {
        Err(e) => Err(e),
        Ok(v) => if !did_text(v.controller_did) {
            Err(MetastoreError::CorruptData("invalid controller_did"))
        } else {
            Ok(
                Some(
                    Controller {
                        did: v.controller_did,
                        handle: handle_at(users, did_hash(v.controller_did)),
                        granted_scopes: scope_or_empty(v.granted_scopes),
                        granted_at: timestamp_or_epoch(v.granted_at_ms),
                        is_active: v.revoked_at_ms is None,
                        is_local: uuid_of(hashes, did_hash(v.controller_did)) is Some,
                    },
                ),
            )
        },
    }
}

struct Controllers<'b> {
    users: &'b Keyspace,
    hashes: &'b UserHashMap,
}

impl<'b> Reader for Controllers<'b> {
    type In = Row;

    type Item = ControllerInfo;

    closed spec fn reading(&self) -> spec_fn(RowView) -> Contribution<Controller> {
        |row: RowView| controller_of(row, self.users@.rows, self.hashes@)
    }

    fn read(&self, row: &Row) -> (r: Contribution<ControllerInfo>) {
        match DelegationGrantValue::deserialize(row.value.as_slice()) {
            None => Err(MetastoreError::CorruptData("corrupt delegation grant")),
            Some(v) => {
                let hash: UserHash = UserHash::from_did(v.controller_did.as_str());
                let handle: Option<Handle> = resolve_handle(self.users, hash);
                let is_local: bool = self.hashes.get_uuid(&hash).is_some();
                match Did::new(v.controller_did) {
                    None => Err(MetastoreError::CorruptData("invalid controller_did")),
                    Some(did) => Ok(
                        Some(
                            ControllerInfo {
                                did,
                                handle,
                                granted_scopes: DbScope::new_or_empty(v.granted_scopes.as_str()),
                                granted_at: time_or_epoch(v.granted_at_ms),
                                is_active: v.revoked_at_ms.is_none(),
                                is_local,
                            },
                        ),
                    ),
                }
            },
        }
    }
}

/// The account that an index row names, if the grant on it is in force.
pub open spec fn controlled_account(
    row: RowView,
    controller: u64,
    indexes: Rows,
    users: Rows,
) -> Contribution<ControlledAccount> {
    match second_number(row.key) {
        None => Err(MetastoreError::CorruptData("corrupt by_controller key")),
        Some(delegated) => match grant_row_at(indexes, grant_key_bytes(delegated, controller)) {
            Err(e) => Err(e),
            Ok(None) => Ok(None),
            Ok(Some(v)) => if v.revoked_at_ms is Some {
                Ok(None)
            } else if !did_text(v.delegated_did) {
                Err(MetastoreError::CorruptData("invalid delegated_did"))
            } else {
                Ok(
                    Some(
                        ControlledAccount {
                            did: v.delegated_did,
                            handle: match handle_at(users, did_hash(v.delegated_did)) {
                                Some(h) => h,
                                None => "unknown.invalid"@,
                            },
                            granted_scopes: scope_or_empty(v.granted_scopes),
                            granted_at: timestamp_or_epoch(v.granted_at_ms),
                        },
                    ),
                )
            },
        },
    }
}

/// The index rows of a controller.
pub open spec fn controller_rows(indexes: Rows, controller: Seq<char>) -> Seq<RowView> {
    scan(indexes, prefix_keys(by_controller_prefix_bytes(did_hash(controller))))
}

/// The accounts that a controller's index rows name.
pub open spec fn controlled_accounts(indexes: Rows, users: Rows, controller: Seq<char>) -> Result<
    Seq<ControlledAccount>,
    MetastoreError,
> {
    collect_all(
        controller_rows(indexes, controller),
        |row: RowView| controlled_account(row, did_hash(controller), indexes, users),
    )
}

struct ControlledAccounts<'b> {
    controller: UserHash,
    indexes: &'b Keyspace,
    users: &'b Keyspace,
}

impl<'b> Reader for ControlledAccounts<'b> {
    type In = Row;

    type Item = DelegatedAccountInfo;

    closed spec fn reading(&self) -> spec_fn(RowView) -> Contribution<ControlledAccount> {
        |row: RowView|
            controlled_account(row, self.controller@, self.indexes@.rows, self.users@.rows)
    }

    fn read(&self, row: &Row) -> (r: Contribution<DelegatedAccountInfo>) {
        let delegated: u64 = match read_second_number(row.key.as_slice()) {
            Some(h) => h,
            None => {
                return Err(MetastoreError::CorruptData("corrupt by_controller key"));
            },
        };
        let key: Vec<u8> = grant_key(UserHash::from_raw(delegated), self.controller);
        match find_grant(self.indexes, key.as_slice()) {
            Err(e) => Err(e),
            Ok(None) => Ok(None),
            Ok(Some(v)) => {
                if v.revoked_at_ms.is_some() {
                    return Ok(None);
                }
                let handle: Handle = match resolve_handle(
                    self.users,
                    UserHash::from_did(v.delegated_did.as_str()),
                ) {
                    Some(h) => h,
                    None => Handle::from("unknown.invalid".to_owned()),
                };
                match Did::new(v.delegated_did) {
                    None => Err(MetastoreError::CorruptData("invalid delegated_did")),
                    Some(did) => Ok(
                        Some(
                            DelegatedAccountInfo {
                                did,
                                handle,
                                granted_scopes: DbScope::new_or_empty(v.granted_scopes.as_str()),
                                granted_at: time_or_epoch(v.granted_at_ms),
                            },
                        ),
                    ),
                }
            },
        }
    }
}

/// What a reader of the audit log sees of an entry.
pub open spec fn audit_entry_of(v: AuditRow) -> Result<AuditEntry, MetastoreError> {
    if !did_text(v.delegated_did) {
        Err(MetastoreError::CorruptData("invalid delegated_did"))
    } else if !did_text(v.actor_did) {
        Err(MetastoreError::CorruptData("invalid actor_did"))
    } else if v.controller_did is Some && !did_text(v.controller_did->0) {
        Err(MetastoreError::CorruptData("invalid controller_did"))
    } else {
        match DelegationActionType::numbered(v.action_type) {
            None => Err(MetastoreError::CorruptData("unknown delegation action type")),
            Some(action_type) => Ok(
                AuditEntry {
                    id: v.id,
                    delegated_did: v.delegated_did,
                    actor_did: v.actor_did,
                    controller_did: v.controller_did,
                    action_type,
                    action_details: read_optional_json(v.action_details),
                    ip_address: v.ip_address,
                    user_agent: v.user_agent,
                    created_at: timestamp_or_epoch(v.created_at_ms),
                },
            ),
        }
    }
}

pub open spec fn audit_entry(row: RowView) -> Contribution<AuditEntry> {
    match AuditRow::read(row.value) {
        None => Err(MetastoreError::CorruptData("corrupt audit log entry")),
        Some(v) => match audit_entry_of(v) {
            Ok(e) => Ok(Some(e)),
            Err(e) => Err(e),
        },
    }
}

/// The audit log of an account, newest entries first.
pub open spec fn audit_rows(indexes: Rows, delegated: Seq<char>) -> Seq<RowView> {
    scan(indexes, prefix_keys(audit_log_prefix_bytes(did_hash(delegated))))
}

pub open spec fn skipped(rows: Seq<RowView>, n: nat) -> Seq<RowView> {
    if n <= rows.len() {
        rows.skip(n as int)
    } else {
        Seq::empty()
    }
}

struct AuditEntries {}

impl Reader for AuditEntries {
    type In = Row;

    type Item = AuditLogEntry;

    closed spec fn reading(&self) -> spec_fn(RowView) -> Contribution<AuditEntry> {
        |row: RowView| audit_entry(row)
    }

    fn read(&self, row: &Row) -> (r: Contribution<AuditLogEntry>) {
        match AuditLogValue::deserialize(row.value.as_slice()) {
            None => Err(MetastoreError::CorruptData("corrupt audit log entry")),
            Some(v) => match value_to_audit_entry(v) {
                Ok(e) => Ok(Some(e)),
                Err(e) => Err(e),
            },
        }
    }
}

fn value_to_audit_entry(v: AuditLogValue) -> (r: Result<AuditLogEntry, MetastoreError>)
    ensures
        viewed(r) == audit_entry_of(v.deep_view()),
{
    let delegated_did: Did = match Did::new(v.delegated_did) {
        Some(d) => d,
        None => {
            return Err(MetastoreError::CorruptData("invalid delegated_did"));
        },
    };
    let actor_did: Did = match Did::new(v.actor_did) {
        Some(d) => d,
        None => {
            return Err(MetastoreError::CorruptData("invalid actor_did"));
        },
    };
    let controller_did: Option<Did> = match v.controller_did {
        Some(t) => match Did::new(t) {
            Some(d) => Some(d),
            None => {
                return Err(MetastoreError::CorruptData("invalid controller_did"));
            },
        },
        None => None,
    };
    let action_type: DelegationActionType = match u8_to_action_type(v.action_type) {
        Some(a) => a,
        None => {
            return Err(MetastoreError::CorruptData("unknown delegation action type"));
        },
    };
    Ok(
        AuditLogEntry {
            id: v.id,
            delegated_did,
            actor_did,
            controller_did,
            action_type,
            action_details: optional_json_read(&v.action_details),
            ip_address: v.ip_address,
            user_agent: v.user_agent,
            created_at: time_or_epoch(v.created_at_ms),
        },
    )
}

fn value_to_grant(v: DelegationGrantValue) -> (r: Result<DelegationGrant, MetastoreError>)
    ensures
        viewed(r) == grant_of(v.deep_view()),
{
    let delegated_did: Did = match Did::new(v.delegated_did) {
        Some(d) => d,
        None => {
            return Err(MetastoreError::CorruptData("invalid delegated_did"));
        },
    };
    let controller_did: Did = match Did::new(v.controller_did) {
        Some(d) => d,
        None => {
            return Err(MetastoreError::CorruptData("invalid controller_did"));
        },
    };
    let granted_by: Did = match Did::new(v.granted_by) {
        Some(d) => d,
        None => {
            return Err(MetastoreError::CorruptData("invalid granted_by"));
        },
    };
    let revoked_by: Option<Did> = match v.revoked_by {
        Some(t) => Did::new(t),
        None => None,
    };
    Ok(
        DelegationGrant {
            id: v.id,
            delegated_did,
            controller_did,
            granted_scopes: DbScope::new_or_empty(v.granted_scopes.as_str()),
            granted_at: time_or_epoch(v.granted_at_ms),
            granted_by,
            revoked_at: time_or_none(v.revoked_at_ms),
            revoked_by,
        },
    )
}

/// Looks a grant up.
fn find_grant(indexes: &Keyspace, key: &[u8]) -> (r: Result<
    Option<DelegationGrantValue>,
    MetastoreError,
>)
    ensures
        viewed(r) == grant_row_at(indexes@.rows, key@),
{
    match indexes.get(key) {
        None => Ok(None),
        Some(raw) => match DelegationGrantValue::deserialize(raw.as_slice()) {
            Some(v) => Ok(Some(v)),
            None => Err(MetastoreError::CorruptData("corrupt delegation grant")),
        },
    }
}

/// A store whose index partition took a batch.
pub open spec fn indexed(s: MetastoreView, ws: Seq<WriteView>) -> MetastoreView {
    MetastoreView { indexes: s.indexes.commit(ws), ..s }
}

/// An entry of the audit log.
pub open spec fn new_audit_row(
    delegated: Seq<char>,
    actor: Seq<char>,
    controller: Option<Seq<char>>,
    action_type: DelegationActionType,
    details: Option<Seq<u8>>,
    ip_address: Option<Seq<char>>,
    user_agent: Option<Seq<char>>,
    id: Uuid,
    now: i64,
) -> AuditRow {
    AuditRow {
        id,
        delegated_did: delegated,
        actor_did: actor,
        controller_did: controller,
        action_type: action_type.number(),
        action_details: stored_optional_json(details),
        ip_address,
        user_agent,
        created_at_ms: now,
    }
}

pub open spec fn audit_writes(v: AuditRow) -> Seq<WriteView> {
    seq![
        WriteView::Put {
            key: audit_log_key_bytes(did_hash(v.delegated_did), v.created_at_ms, v.id),
            value: v.stored(),
        },
    ]
}

impl<'a> DelegationOps<'a> {
    /// Whether anybody holds a grant on the account that is in force.
    pub fn is_delegated_account(&self, did: &Did) -> (r: Result<bool, MetastoreError>)
        ensures
            r == delegated_account(grant_rows(self@.indexes.rows, did@)),
    {
        let prefix: Vec<u8> = grant_prefix(UserHash::from_did(did.as_str()));
        let rows: Vec<Row> = self.store.indexes.prefix(prefix.as_slice());
        let reader = ActiveGrants {  };
        match collect_items(rows.as_slice(), &reader, 1) {
            Ok(found) => Ok(found.len() > 0),
            Err(e) => Err(e),
        }
    }

    /// Records a grant.
    pub fn create_delegation(
        &mut self,
        delegated_did: &Did,
        controller_did: &Did,
        granted_scopes: &DbScope,
        granted_by: &Did,
    ) -> (r: Result<Uuid, MetastoreError>)
        ensures
            r is Ok,
            r->Ok_0.is_random(),
            is_scope(encode_utf8(granted_scopes@)),
            exists|now: i64| #[trigger]
                is_timestamp(now as int) && final(self)@ == indexed(
                    old(self)@,
                    grant_writes(
                        new_grant(
                            delegated_did@,
                            controller_did@,
                            granted_scopes@,
                            granted_by@,
                            r->Ok_0,
                            now,
                        ),
                    ),
                ),
            *final(final(self).store) == *final(old(self).store),
    {
        let id: Uuid = random_uuid();
        let now: i64 = now_millis();
        self.create_delegation_at(
            delegated_did,
            controller_did,
            granted_scopes,
            granted_by,
            id,
            now,
        );
        assert(is_timestamp(now as int));
        Ok(id)
    }

    /// Records a grant with a given identifier and time.
    pub fn create_delegation_at(
        &mut self,
        delegated_did: &Did,
        controller_did: &Did,
        granted_scopes: &DbScope,
        granted_by: &Did,
        id: Uuid,
        now: i64,
    )
        ensures
            is_scope(encode_utf8(granted_scopes@)),
            final(self)@ == indexed(
                old(self)@,
                grant_writes(
                    new_grant(
                        delegated_did@,
                        controller_did@,
                        granted_scopes@,
                        granted_by@,
                        id,
                        now,
                    ),
                ),
            ),
            *final(final(self).store) == *final(old(self).store),
    {
        let delegated: UserHash = UserHash::from_did(delegated_did.as_str());
        let controller: UserHash = UserHash::from_did(controller_did.as_str());
        let value = DelegationGrantValue {
            id,
            delegated_did: delegated_did.as_str().to_owned(),
            controller_did: controller_did.as_str().to_owned(),
            granted_scopes: granted_scopes.as_str().to_owned(),
            granted_at_ms: now,
            granted_by: granted_by.as_str().to_owned(),
            revoked_at_ms: None,
            revoked_by: None,
        };
        let batch: Vec<Write> = vec![
            Write::Put { key: grant_key(delegated, controller), value: value.serialize() },
            Write::Put { key: by_controller_key(controller, delegated), value: Vec::new() },
        ];
        proof {
            let v = new_grant(
                delegated_did@,
                controller_did@,
                granted_scopes@,
                granted_by@,
                id,
                now,
            );
            assert(value.deep_view() == v);
            assert(batch.deep_view() =~= grant_writes(v));
        }
        self.store.indexes.commit(batch);
    }

    /// Revokes a grant that is in force, and says whether there was one.
    pub fn revoke_delegation(
        &mut self,
        delegated_did: &Did,
        controller_did: &Did,
        revoked_by: &Did,
    ) -> (r: Result<bool, MetastoreError>)
        ensures
            exists|now: i64| #[trigger]
                is_timestamp(now as int) && (r, final(self)@) == revocation(
                    old(self)@,
                    delegated_did@,
                    controller_did@,
                    revoked_by@,
                    now,
                ),
            *final(final(self).store) == *final(old(self).store),
    {
        let now: i64 = now_millis();
        assert(is_timestamp(now as int));
        self.revoke_delegation_at(delegated_did, controller_did, revoked_by, now)
    }

    /// Revokes a grant at a given time.
    pub fn revoke_delegation_at(
        &mut self,
        delegated_did: &Did,
        controller_did: &Did,
        revoked_by: &Did,
        now: i64,
    ) -> (r: Result<bool, MetastoreError>)
        ensures
            (r, final(self)@) == revocation(
                old(self)@,
                delegated_did@,
                controller_did@,
                revoked_by@,
                now,
            ),
            *final(final(self).store) == *final(old(self).store),
    {
        let delegated: UserHash = UserHash::from_did(delegated_did.as_str());
        let controller: UserHash = UserHash::from_did(controller_did.as_str());
        let primary: Vec<u8> = grant_key(delegated, controller);
        match find_grant(&self.store.indexes, primary.as_slice()) {
            Err(e) => Err(e),
            Ok(None) => Ok(false),
            Ok(Some(v)) => {
                if v.revoked_at_ms.is_some() {
                    return Ok(false);
                }
                let ghost before = v.deep_view();
                let mut v: DelegationGrantValue = v;
                v.revoked_at_ms = Some(now);
                v.revoked_by = Some(revoked_by.as_str().to_owned());
                assert(v.deep_view() == revoked(before, revoked_by@, now));
                let batch: Vec<Write> = vec![
                    Write::Put { key: primary, value: v.serialize() },
                    Write::Remove { key: by_controller_key(controller, delegated) },
                ];
                assert(batch.deep_view() =~= revocation_writes(
                    delegated_did@,
                    controller_did@,
                    v.deep_view(),
                ));
                self.store.indexes.commit(batch);
                Ok(true)
            },
        }
    }

    /// Changes the scopes of a grant that is in force, and says whether there was one.
    pub fn update_delegation_scopes(
        &mut self,
        delegated_did: &Did,
        controller_did: &Did,
        new_scopes: &DbScope,
    ) -> (r: Result<bool, MetastoreError>)
        ensures
            is_scope(encode_utf8(new_scopes@)),
            (r, final(self)@) == rescoping(
                old(self)@,
                delegated_did@,
                controller_did@,
                new_scopes@,
            ),
            *final(final(self).store) == *final(old(self).store),
    {
        let scopes: &str = new_scopes.as_str();
        let delegated: UserHash = UserHash::from_did(delegated_did.as_str());
        let controller: UserHash = UserHash::from_did(controller_did.as_str());
        let primary: Vec<u8> = grant_key(delegated, controller);
        match find_grant(&self.store.indexes, primary.as_slice()) {
            Err(e) => Err(e),
            Ok(None) => Ok(false),
            Ok(Some(v)) => {
                if v.revoked_at_ms.is_some() {
                    return Ok(false);
                }
                let ghost before = v.deep_view();
                let mut v: DelegationGrantValue = v;
                v.granted_scopes = scopes.to_owned();
                assert(v.deep_view() == rescoped(before, new_scopes@));
                let batch: Vec<Write> = vec![Write::Put { key: primary, value: v.serialize() }];
                assert(batch.deep_view() =~= seq![
                    WriteView::Put {
                        key: grant_key_of(delegated_did@, controller_did@),
                        value: v.deep_view().stored(),
                    },
                ]);
                self.store.indexes.commit(batch);
                Ok(true)
            },
        }
    }

    /// Moves every grant from one scope to another, and says how many there were.
    pub fn remap_grant_scopes(&mut self, from: &str, to: &str) -> (r: Result<
        usize,
        MetastoreError,
    >)
        ensures
            r is Ok,
            r->Ok_0 == remap_writes(old(self)@.indexes.rows, from@, to@).len(),
            final(self)@ == indexed(
                old(self)@,
                remap_writes(old(self)@.indexes.rows, from@, to@),
            ),
            *final(final(self).store) == *final(old(self).store),
    {
        let prefix: Vec<u8> = vec![KeyTag::DelegGrant.raw()];
        assert(prefix@ =~= seq![KeyTag::DelegGrant.byte()]);
        let rows: Vec<Row> = self.store.indexes.prefix(prefix.as_slice());
        let reader = Remap { from, to };
        proof {
            remap_succeeds(rows.deep_view(), from@, to@, rows.deep_view().len());
        }
        match collect_all_items(rows.as_slice(), &reader) {
            Ok(batch) => {
                let migrated: usize = batch.len();
                if migrated > 0 {
                    self.store.indexes.commit(batch);
                } else {
                    proof {
                        crate::store::commit_nothing(self@.indexes);
                        assert(batch.deep_view() =~= Seq::<WriteView>::empty());
                    }
                }
                Ok(migrated)
            },
            Err(e) => Err(e),
        }
    }

    /// A grant, whether or not it is in force.
    pub fn get_delegation(&self, delegated_did: &Did, controller_did: &Did) -> (r: Result<
        Option<DelegationGrant>,
        MetastoreError,
    >)
        ensures
            viewed(r) == grant_at(self@.indexes.rows, delegated_did@, controller_did@),
    {
        let primary: Vec<u8> = grant_key(
            UserHash::from_did(delegated_did.as_str()),
            UserHash::from_did(controller_did.as_str()),
        );
        match find_grant(&self.store.indexes, primary.as_slice()) {
            Err(e) => Err(e),
            Ok(None) => Ok(None),
            Ok(Some(v)) => match value_to_grant(v) {
                Ok(g) => Ok(Some(g)),
                Err(e) => Err(e),
            },
        }
    }

    /// All grants on an account.
    pub fn get_delegations_for_account(&self, delegated_did: &Did) -> (r: Result<
        Vec<ControllerInfo>,
        MetastoreError,
    >)
        ensures
            viewed(r) == collect_all(
                grant_rows(self@.indexes.rows, delegated_did@),
                |row: RowView|
                    controller_of(row, self@.users.rows, self@.user_hashes),
            ),
    {
        let prefix: Vec<u8> = grant_prefix(UserHash::from_did(delegated_did.as_str()));
        let rows: Vec<Row> = self.store.indexes.prefix(prefix.as_slice());
        let reader = Controllers { users: &self.store.users, hashes: &self.store.user_hashes };
        assert(reader.reading() =~= |row: RowView|
            controller_of(row, self@.users.rows, self@.user_hashes));
        collect_all_items(rows.as_slice(), &reader)
    }

    /// The accounts that a controller has a grant on that is in force.
    pub fn get_accounts_controlled_by(&self, controller_did: &Did) -> (r: Result<
        Vec<DelegatedAccountInfo>,
        MetastoreError,
    >)
        ensures
            viewed(r) == controlled_accounts(
                self@.indexes.rows,
                self@.users.rows,
                controller_did@,
            ),
    {
        let controller: UserHash = UserHash::from_did(controller_did.as_str());
        let prefix: Vec<u8> = by_controller_prefix(controller);
        let rows: Vec<Row> = self.store.indexes.prefix(prefix.as_slice());
        let reader = ControlledAccounts {
            controller,
            indexes: &self.store.indexes,
            users: &self.store.users,
        };
        assert(reader.reading() =~= |row: RowView|
            controlled_account(
                row,
                did_hash(controller_did@),
                self@.indexes.rows,
                self@.users.rows,
            ));
        collect_all_items(rows.as_slice(), &reader)
    }

    /// How many grants on an account are in force.
    pub fn count_active_controllers(&self, delegated_did: &Did) -> (r: Result<i64, MetastoreError>)
        ensures
            r == active_grants(grant_rows(self@.indexes.rows, delegated_did@)),
    {
        let prefix: Vec<u8> = grant_prefix(UserHash::from_did(delegated_did.as_str()));
        let rows: Vec<Row> = self.store.indexes.prefix(prefix.as_slice());
        let reader = ActiveGrants {  };
        match collect_all_items(rows.as_slice(), &reader) {
            Ok(found) => Ok(saturate(found.len())),
            Err(e) => Err(e),
        }
    }

    /// Whether the index names any account for a controller.
    pub fn controls_any_accounts(&self, did: &Did) -> (r: Result<bool, MetastoreError>)
        ensures
            r is Ok,
            r->Ok_0 <==> controller_rows(self@.indexes.rows, did@).len() > 0,
    {
        let prefix: Vec<u8> = by_controller_prefix(UserHash::from_did(did.as_str()));
        let rows: Vec<Row> = self.store.indexes.prefix(prefix.as_slice());
        Ok(rows.len() > 0)
    }

    /// Enters an action in the audit log of an account.
    pub fn log_delegation_action(
        &mut self,
        delegated_did: &Did,
        actor_did: &Did,
        controller_did: Option<&Did>,
        action_type: DelegationActionType,
        action_details: Option<&[u8]>,
        ip_address: Option<&str>,
        user_agent: Option<&str>,
    ) -> (r: Result<Uuid, MetastoreError>)
        ensures
            r is Ok,
            r->Ok_0.is_random(),
            exists|now: i64| #[trigger]
                is_timestamp(now as int) && final(self)@ == indexed(
                    old(self)@,
                    audit_writes(
                        new_audit_row(
                            delegated_did@,
                            actor_did@,
                            optional_ref(controller_did),
                            action_type,
                            json_bytes(action_details),
                            optional_text(ip_address),
                            optional_text(user_agent),
                            r->Ok_0,
                            now,
                        ),
                    ),
                ),
            *final(final(self).store) == *final(old(self).store),
    {
        let id: Uuid = random_uuid();
        let now: i64 = now_millis();
        assert(is_timestamp(now as int));
        self.log_delegation_action_at(
            delegated_did,
            actor_did,
            controller_did,
            action_type,
            action_details,
            ip_address,
            user_agent,
            id,
            now,
        );
        Ok(id)
    }

    /// Enters an action in the audit log with a given identifier and time.
    pub fn log_delegation_action_at(
        &mut self,
        delegated_did: &Did,
        actor_did: &Did,
        controller_did: Option<&Did>,
        action_type: DelegationActionType,
        action_details: Option<&[u8]>,
        ip_address: Option<&str>,
        user_agent: Option<&str>,
        id: Uuid,
        now: i64,
    )
        ensures
            final(self)@ == indexed(
                old(self)@,
                audit_writes(
                    new_audit_row(
                        delegated_did@,
                        actor_did@,
                        optional_ref(controller_did),
                        action_type,
                        json_bytes(action_details),
                        optional_text(ip_address),
                        optional_text(user_agent),
                        id,
                        now,
                    ),
                ),
            ),
            *final(final(self).store) == *final(old(self).store),
    {
        let value = AuditLogValue {
            id,
            delegated_did: delegated_did.as_str().to_owned(),
            actor_did: actor_did.as_str().to_owned(),
            controller_did: owned_did(controller_did),
            action_type: action_type_to_u8(action_type),
            action_details: optional_json_to_store(action_details),
            ip_address: owned_text(ip_address),
            user_agent: owned_text(user_agent),
            created_at_ms: now,
        };
        let key: Vec<u8> = audit_log_key(UserHash::from_did(delegated_did.as_str()), now, id);
        let batch: Vec<Write> = vec![Write::Put { key, value: value.serialize() }];
        assert(batch.deep_view() =~= audit_writes(value.deep_view()));
        self.store.indexes.commit(batch);
    }

    /// A page of the audit log of an account, newest entries first.
    pub fn get_audit_log_for_account(&self, delegated_did: &Did, limit: i64, offset: i64) -> (r: Result<
        Vec<AuditLogEntry>,
        MetastoreError,
    >)
        ensures
            viewed(r) == collect(
                skipped(audit_rows(self@.indexes.rows, delegated_did@), count_limit(offset)),
                |row: RowView| audit_entry(row),
                count_limit(limit),
            ),
    {
        let prefix: Vec<u8> = audit_log_prefix(UserHash::from_did(delegated_did.as_str()));
        let rows: Vec<Row> = self.store.indexes.prefix(prefix.as_slice());
        let ghost all = rows.deep_view();
        let offset: usize = limit_of(offset);
        let mut rows: Vec<Row> = rows;
        let page: Vec<Row> = if offset <= rows.len() {
            rows.split_off(offset)
        } else {
            Vec::new()
        };
        assert(page.deep_view() =~= skipped(all, offset as nat));
        let reader = AuditEntries {  };
        collect_items(page.as_slice(), &reader, limit_of(limit))
    }

    /// How many entries the audit log of an account has.
    pub fn count_audit_log_entries(&self, delegated_did: &Did) -> (r: Result<i64, MetastoreError>)
        ensures
            r is Ok,
            r->Ok_0 == saturated(audit_rows(self@.indexes.rows, delegated_did@).len()),
    {
        let prefix: Vec<u8> = audit_log_prefix(UserHash::from_did(delegated_did.as_str()));
        let rows: Vec<Row> = self.store.indexes.prefix(prefix.as_slice());
        Ok(saturate(rows.len()))
    }
}

/// A revocation: its outcome and the store after it.
pub open spec fn revocation(
    s: MetastoreView,
    delegated: Seq<char>,
    controller: Seq<char>,
    by: Seq<char>,
    now: i64,
) -> (Result<bool, MetastoreError>, MetastoreView) {
    match grant_row_at(s.indexes.rows, grant_key_of(delegated, controller)) {
        Err(e) => (Err(e), s),
        Ok(None) => (Ok(false), s),
        Ok(Some(v)) => if v.revoked_at_ms is Some {
            (Ok(false), s)
        } else {
            (Ok(true), indexed(s, revocation_writes(delegated, controller, revoked(v, by, now))))
        },
    }
}

/// A change of scopes: its outcome and the store after it.
pub open spec fn rescoping(
    s: MetastoreView,
    delegated: Seq<char>,
    controller: Seq<char>,
    scopes: Seq<char>,
) -> (Result<bool, MetastoreError>, MetastoreView) {
    match grant_row_at(s.indexes.rows, grant_key_of(delegated, controller)) {
        Err(e) => (Err(e), s),
        Ok(None) => (Ok(false), s),
        Ok(Some(v)) => if v.revoked_at_ms is Some {
            (Ok(false), s)
        } else {
            (
                Ok(true),
                indexed(
                    s,
                    seq![
                        WriteView::Put {
                            key: grant_key_of(delegated, controller),
                            value: rescoped(v, scopes).stored(),
                        },
                    ],
                ),
            )
        },
    }
}

/// A grant as it is read.
pub open spec fn grant_at(indexes: Rows, delegated: Seq<char>, controller: Seq<char>) -> Result<
    Option<Grant>,
    MetastoreError,
> {
    match grant_row_at(indexes, grant_key_of(delegated, controller)) {
        Err(e) => Err(e),
        Ok(None) => Ok(None),
        Ok(Some(v)) => match grant_of(v) {
            Ok(g) => Ok(Some(g)),
            Err(e) => Err(e),
        },
    }
}

proof fn remap_succeeds(rows: Seq<RowView>, from: Seq<char>, to: Seq<char>, limit: nat)
    ensures
        collect(rows, |row: RowView| remap_row(row, from, to), limit) is Ok,
    decreases rows.len(),
{
    if limit > 0 && rows.len() > 0 {
        remap_succeeds(rows.skip(1), from, to, limit);
        remap_succeeds(rows.skip(1), from, to, (limit - 1) as nat);
    }
}

/// A grant that was recorded is read back with its scopes, and is in force.
pub proof fn created_grant_is_read(
    s: MetastoreView,
    delegated: Seq<char>,
    controller: Seq<char>,
    scopes: Seq<char>,
    by: Seq<char>,
    id: Uuid,
    now: i64,
)
    requires
        new_grant(delegated, controller, scopes, by, id, now).fits(),
        did_text(delegated),
        did_text(controller),
        did_text(by),
        is_scope(encode_utf8(scopes)),
    ensures
        ({
            let v = new_grant(delegated, controller, scopes, by, id, now);
            let after = indexed(s, grant_writes(v)).indexes.rows;
            &&& grant_at(after, delegated, controller) == Ok::<Option<Grant>, MetastoreError>(
                Some(
                    Grant {
                        id,
                        delegated_did: delegated,
                        controller_did: controller,
                        granted_scopes: scopes,
                        granted_at: timestamp_or_epoch(now),
                        granted_by: by,
                        revoked_at: None,
                        revoked_by: None,
                    },
                ),
            )
            &&& lookup(after, reverse_key_of(delegated, controller)) is Some
        }),
{
    let v = new_grant(delegated, controller, scopes, by, id, now);
    let ws = grant_writes(v);
    grant_keys_injective(
        did_hash(delegated),
        did_hash(controller),
        did_hash(delegated),
        did_hash(controller),
    );
    write_rows_last(s.indexes.rows, ws, 0);
    write_rows_last(s.indexes.rows, ws, 1);
    v.round_trip();
}

/// A revocation that found a grant leaves it revoked and out of the controller's index; a
/// second one finds nothing to revoke and changes nothing.
pub proof fn revocation_is_final(
    s: MetastoreView,
    delegated: Seq<char>,
    controller: Seq<char>,
    by: Seq<char>,
    now: i64,
    by_again: Seq<char>,
    later: i64,
)
    requires
        storable(s.indexes.rows),
        encode_utf8(by).len() <= usize::MAX,
        revocation(s, delegated, controller, by, now).0 == Ok::<bool, MetastoreError>(true),
    ensures
        ({
            let after = revocation(s, delegated, controller, by, now).1;
            &&& grant_row_at(after.indexes.rows, grant_key_of(delegated, controller)) matches Ok(
                Some(v),
            ) && v.revoked_at_ms == Some(now) && v.revoked_by == Some(by)
            &&& lookup(after.indexes.rows, reverse_key_of(delegated, controller)) is None
            &&& revocation(after, delegated, controller, by_again, later) == (
                Ok::<bool, MetastoreError>(false),
                after,
            )
        }),
{
    let key = grant_key_of(delegated, controller);
    let v = grant_row_at(s.indexes.rows, key)->Ok_0->0;
    GrantRow::read_fits(s.indexes.rows[key]);
    let ws = revocation_writes(delegated, controller, revoked(v, by, now));
    grant_keys_injective(
        did_hash(delegated),
        did_hash(controller),
        did_hash(delegated),
        did_hash(controller),
    );
    write_rows_last(s.indexes.rows, ws, 0);
    write_rows_last(s.indexes.rows, ws, 1);
    revoked(v, by, now).round_trip();
}

/// What the index partition holds at a key once every grant was moved from one scope to
/// another: the grants that had the first scope have the second, and nothing else differs.
pub proof fn remap_changes_matching_grants(
    indexes: Rows,
    from: Seq<char>,
    to: Seq<char>,
    key: Seq<u8>,
)
    requires
        indexes.dom().finite(),
    ensures
        lookup(write_rows(indexes, remap_writes(indexes, from, to)), key) == (match lookup(
            indexes,
            key,
        ) {
            Some(b) => if has_prefix(key, seq![KeyTag::DelegGrant.byte()]) {
                match GrantRow::read(b) {
                    Some(v) => Some(
                        if v.granted_scopes == from {
                            rescoped(v, to).stored()
                        } else {
                            b
                        },
                    ),
                    None => Some(b),
                }
            } else {
                Some(b)
            },
            None => None,
        }),
{
    let rows = all_grant_rows(indexes);
    let keys = prefix_keys(seq![KeyTag::DelegGrant.byte()]);
    let f = |row: RowView| remap_row(row, from, to);
    scan_lists(indexes, keys);
    rewriting_rows(indexes, rows, f, rows.len(), key);
    if indexes.contains_key(key) && keys.contains(key) {
        let i = choose|i: int| 0 <= i < rows.len() && (#[trigger] rows[i]).key == key;
        assert(rows[i].value == indexes[key]);
    } else {
        assert forall|i: int| 0 <= i < rows.len() implies (#[trigger] rows[i]).key != key by {
            assert(keys.contains(rows[i].key) && indexes.contains_key(rows[i].key));
        }
    }
}

/// Moving grants from one scope to another a second time finds none to move.
pub proof fn remap_is_idempotent(indexes: Rows, from: Seq<char>, to: Seq<char>)
    requires
        storable(indexes),
        encode_utf8(to).len() <= usize::MAX,
        from != to,
    ensures
        remap_writes(write_rows(indexes, remap_writes(indexes, from, to)), from, to).len() == 0,
{
    let after = write_rows(indexes, remap_writes(indexes, from, to));
    let keys = prefix_keys(seq![KeyTag::DelegGrant.byte()]);
    let f = |row: RowView| remap_row(row, from, to);
    write_rows_finite(indexes, remap_writes(indexes, from, to));
    scan_lists(after, keys);
    let rows = all_grant_rows(after);
    assert forall|i: int| 0 <= i < rows.len() implies f(#[trigger] rows[i]) == Contribution::<
        WriteView,
    >::Ok(None) by {
        let key = rows[i].key;
        assert(keys.contains(key) && after.contains_key(key) && after[key] == rows[i].value);
        remap_changes_matching_grants(indexes, from, to, key);
        assert(indexes.contains_key(key));
        GrantRow::read_fits(indexes[key]);
        if let Some(v) = GrantRow::read(indexes[key]) {
            if v.granted_scopes == from {
                rescoped(v, to).round_trip();
            }
        }
    }
    collect_nothing(rows, f, rows.len());
}

/// An action that was logged stands in the audit log of its account, as it was logged.
pub proof fn logged_action_is_read(s: MetastoreView, v: AuditRow)
    requires
        s.indexes.rows.dom().finite(),
        v.fits(),
        audit_entry_of(v) is Ok,
    ensures
        ({
            let log = audit_rows(indexed(s, audit_writes(v)).indexes.rows, v.delegated_did);
            exists|i: int|
                0 <= i < log.len() && audit_entry(#[trigger] log[i]) == Contribution::<AuditEntry>::Ok(
                    Some(audit_entry_of(v)->Ok_0),
                )
        }),
{
    let ws = audit_writes(v);
    let after = indexed(s, ws).indexes.rows;
    let hash = did_hash(v.delegated_did);
    let prefix = audit_log_prefix_bytes(hash);
    let key = audit_log_key_bytes(hash, v.created_at_ms, v.id);
    let log = audit_rows(after, v.delegated_did);
    write_rows_last(s.indexes.rows, ws, 0);
    write_rows_finite(s.indexes.rows, ws);
    scan_lists(after, prefix_keys(prefix));
    assert(key.take(prefix.len() as int) =~= prefix);
    assert(after.contains_key(key) && prefix_keys(prefix).contains(key));
    let i = choose|i: int| 0 <= i < log.len() && (#[trigger] log[i]).key == key;
    v.round_trip();
    assert(log[i].value == v.stored());
}

} // verus!
