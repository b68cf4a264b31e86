//! What the server keeps for accounts: reserved signing keys, requests to delete an account,
//! tokens for directory operations, settings, reports and blobs.

use vstd::prelude::*;
use vstd::utf8::encode_utf8;

use crate::bytes::copy_bytes;
use crate::clock::{is_timestamp, now_millis, random_uuid, time_or_epoch, time_or_none};
use crate::clock::{timestamp_or_epoch, timestamp_or_none};
use crate::codec::{text_from_bytes, text_of};
use crate::delegation_ops::{did_text, optional_did};
use crate::encoding::{be8, be8_round_trip, be_value, push_be, read_be8, read_second_text};
use crate::encoding::second_text;
use crate::errors::{viewed, MetastoreError};
use crate::infra_ops::{infra_committed, InfraOps};
use crate::infra_schema::{blob_at, blob_meta_key, blob_meta_key_bytes, deletion_at, find_blob};
use crate::infra_schema::{find_deletion, find_signing_key, id_key, id_key_bytes, owner_key};
use crate::infra_schema::{owner_key_bytes, owner_prefix, owner_prefix_bytes, report_key};
use crate::infra_schema::{report_key_bytes, signing_key_at, text_key, text_key_bytes, DeletionRow};
use crate::infra_schema::{DeletionRequestValue, ReportRow, ReportValue, SigningKeyRow};
use crate::infra_schema::SigningKeyValue;
use crate::json::{json_to_store, stored_json};
use crate::keys::{did_hash, KeyTag, UserHash};
use crate::metastore::MetastoreView;
use crate::scan::{collect_all, collect_all_items, Contribution, Reader};
use crate::store::{lookup, prefix_keys, push_removals, row_removals, scan, Keyspace, Row, RowView};
use crate::store::{Rows, Write, WriteView};
use crate::types::{is_handle, optional_ref, optional_text, owned_did, owned_text, Did, Handle, Uuid};
use crate::users::{resolve_user_value, user_at, User, UserValue};

verus! {

/// A signing key that can be used.
#[derive(Debug, PartialEq, Eq)]
pub struct ReservedSigningKey {
    pub id: Uuid,
    pub private_key_bytes: Vec<u8>,
}

#[verifier::ext_equal]
pub struct ReservedKey {
    pub id: Uuid,
    pub private_key_bytes: Seq<u8>,
}

impl DeepView for ReservedSigningKey {
    type V = ReservedKey;

    open spec fn deep_view(&self) -> ReservedKey {
        ReservedKey {
            id: self.id,
            private_key_bytes: self.private_key_bytes.deep_view(),
        }
    }
}

/// All that is known of a signing key.
#[derive(Debug, PartialEq, Eq)]
pub struct ReservedSigningKeyFull {
    pub id: Uuid,
    pub did: Option<Did>,
    pub public_key_did_key: String,
    pub private_key_bytes: Vec<u8>,
    pub expires_at: i64,
    pub used_at: Option<i64>,
}

#[verifier::ext_equal]
pub struct ReservedKeyFull {
    pub id: Uuid,
    pub did: Option<Seq<char>>,
    pub public_key_did_key: Seq<char>,
    pub private_key_bytes: Seq<u8>,
    pub expires_at: i64,
    pub used_at: Option<i64>,
}

impl DeepView for ReservedSigningKeyFull {
    type V = ReservedKeyFull;

    open spec fn deep_view(&self) -> ReservedKeyFull {
        ReservedKeyFull {
            id: self.id,
            did: self.did.deep_view(),
            public_key_did_key: self.public_key_did_key@,
            private_key_bytes: self.private_key_bytes.deep_view(),
            expires_at: self.expires_at,
            used_at: self.used_at,
        }
    }
}

/// A request to delete an account.
#[derive(Debug, PartialEq, Eq)]
pub struct DeletionRequest {
    pub did: Did,
    pub expires_at: i64,
}

#[verifier::ext_equal]
pub struct Deletion {
    pub did: Seq<char>,
    pub expires_at: i64,
}

impl DeepView for DeletionRequest {
    type V = Deletion;

    open spec fn deep_view(&self) -> Deletion {
        Deletion {
            did: self.did.deep_view(),
            expires_at: self.expires_at,
        }
    }
}

/// A request to delete an account, with its token.
#[derive(Debug, PartialEq, Eq)]
pub struct DeletionRequestWithToken {
    pub token: String,
    pub did: Did,
    pub expires_at: i64,
}

#[verifier::ext_equal]
pub struct DeletionWithToken {
    pub token: Seq<char>,
    pub did: Seq<char>,
    pub expires_at: i64,
}

impl DeepView for DeletionRequestWithToken {
    type V = DeletionWithToken;

    open spec fn deep_view(&self) -> DeletionWithToken {
        DeletionWithToken {
            token: self.token@,
            did: self.did.deep_view(),
            expires_at: self.expires_at,
        }
    }
}

/// A token for directory operations.
#[derive(Debug, PartialEq, Eq)]
pub struct PlcTokenInfo {
    pub token: String,
    pub expires_at: i64,
}

#[verifier::ext_equal]
pub struct PlcToken {
    pub token: Seq<char>,
    pub expires_at: i64,
}

impl DeepView for PlcTokenInfo {
    type V = PlcToken;

    open spec fn deep_view(&self) -> PlcToken {
        PlcToken {
            token: self.token@,
            expires_at: self.expires_at,
        }
    }
}

/// An account as administrators see it.
#[derive(Debug, PartialEq, Eq)]
pub struct AdminAccountInfo {
    pub id: Uuid,
    pub did: Did,
    pub handle: Handle,
    pub email: Option<String>,
    pub created_at: i64,
    pub invites_disabled: bool,
    pub email_verified: bool,
    pub deactivated_at: Option<i64>,
}

#[verifier::ext_equal]
pub struct AdminAccount {
    pub id: Uuid,
    pub did: Seq<char>,
    pub handle: Seq<char>,
    pub email: Option<Seq<char>>,
    pub created_at: i64,
    pub invites_disabled: bool,
    pub email_verified: bool,
    pub deactivated_at: Option<i64>,
}

impl DeepView for AdminAccountInfo {
    type V = AdminAccount;

    open spec fn deep_view(&self) -> AdminAccount {
        AdminAccount {
            id: self.id,
            did: self.did.deep_view(),
            handle: self.handle.deep_view(),
            email: self.email.deep_view(),
            created_at: self.created_at,
            invites_disabled: self.invites_disabled,
            email_verified: self.email_verified,
            deactivated_at: self.deactivated_at,
        }
    }
}

/// How far back the expiry of an expired request lies.
pub const EXPIRED_MS: i64 = 3_600_000;

/// A text that is stored as its bytes.
pub open spec fn stored_text(infra: Rows, key: Seq<u8>, problem: &'static str) -> Result<
    Option<Seq<char>>,
    MetastoreError,
> {
    match lookup(infra, key) {
        None => Ok(None),
        Some(b) => match text_of(b) {
            Some(t) => Ok(Some(t)),
            None => Err(MetastoreError::CorruptData(problem)),
        },
    }
}

fn find_text(infra: &Keyspace, key: &[u8], problem: &'static str) -> (r: Result<
    Option<String>,
    MetastoreError,
>)
    ensures
        viewed(r) == stored_text(infra@.rows, key@, problem),
{
    match infra.get(key) {
        None => Ok(None),
        Some(raw) => match text_from_bytes(raw.as_slice()) {
            Some(t) => Ok(Some(t)),
            None => Err(MetastoreError::CorruptData(problem)),
        },
    }
}

/// A new reserved key.
pub open spec fn new_signing_key(
    id: Uuid,
    did: Option<Seq<char>>,
    public_key: Seq<char>,
    private_key: Seq<u8>,
    expires_at: i64,
    now: i64,
) -> SigningKeyRow {
    SigningKeyRow {
        id,
        did,
        public_key_did_key: public_key,
        private_key_bytes: private_key,
        used: false,
        created_at_ms: now,
        expires_at_ms: expires_at,
        used_at_ms: None,
    }
}

pub open spec fn signing_key_key(public_key: Seq<char>) -> Seq<u8> {
    text_key_bytes(KeyTag::SigningKey, public_key)
}

/// The writes of a new reserved key: its row, and its entry in the index by identifier.
pub open spec fn signing_key_writes(v: SigningKeyRow) -> Seq<WriteView> {
    seq![
        WriteView::Put { key: signing_key_key(v.public_key_did_key), value: v.stored() },
        WriteView::Put {
            key: id_key_bytes(KeyTag::SigningKeyById, v.id),
            value: encode_utf8(v.public_key_did_key),
        },
    ]
}

/// A reserved key that was not used and has not expired.
pub open spec fn usable_key(infra: Rows, public_key: Seq<char>, now: i64) -> Result<
    Option<ReservedKey>,
    MetastoreError,
> {
    match signing_key_at(infra, signing_key_key(public_key)) {
        Err(e) => Err(e),
        Ok(None) => Ok(None),
        Ok(Some(v)) => Ok(
            if !v.used && v.expires_at_ms > now {
                Some(ReservedKey { id: v.id, private_key_bytes: v.private_key_bytes })
            } else {
                None
            },
        ),
    }
}

/// The store after a key was used.
pub open spec fn key_used(s: MetastoreView, id: Uuid, now: i64) -> (
    Result<(), MetastoreError>,
    MetastoreView,
) {
    match stored_text(
        s.infra.rows,
        id_key_bytes(KeyTag::SigningKeyById, id),
        "signing key index not valid utf8",
    ) {
        Err(e) => (Err(e), s),
        Ok(None) => (Ok(()), s),
        Ok(Some(public_key)) => match signing_key_at(s.infra.rows, signing_key_key(public_key)) {
            Err(e) => (Err(e), s),
            Ok(None) => (Err(MetastoreError::CorruptData("signing key missing from primary")), s),
            Ok(Some(v)) => (
                Ok(()),
                infra_committed(
                    s,
                    seq![
                        WriteView::Put {
                            key: signing_key_key(public_key),
                            value: SigningKeyRow { used: true, used_at_ms: Some(now), ..v }.stored(),
                        },
                    ],
                ),
            ),
        },
    }
}

/// All that is known of a reserved key.
pub open spec fn full_key(v: SigningKeyRow) -> ReservedKeyFull {
    ReservedKeyFull {
        id: v.id,
        did: optional_did(v.did),
        public_key_did_key: v.public_key_did_key,
        private_key_bytes: v.private_key_bytes,
        expires_at: timestamp_or_epoch(v.expires_at_ms),
        used_at: timestamp_or_none(v.used_at_ms),
    }
}

pub open spec fn deletion_key(token: Seq<char>) -> Seq<u8> {
    text_key_bytes(KeyTag::DeletionRequest, token)
}

pub open spec fn deletion_did_key(did: Seq<char>) -> Seq<u8> {
    text_key_bytes(KeyTag::DeletionByDid, did)
}

/// The writes of a request: its row, and the token of the account's latest request.
pub open spec fn deletion_writes(v: DeletionRow) -> Seq<WriteView> {
    seq![
        WriteView::Put { key: deletion_key(v.token), value: v.stored() },
        WriteView::Put { key: deletion_did_key(v.did), value: encode_utf8(v.token) },
    ]
}

/// The request with a token, unless its DID is not well formed.
pub open spec fn deletion_with(infra: Rows, token: Seq<char>) -> Result<
    Option<Deletion>,
    MetastoreError,
> {
    match deletion_at(infra, deletion_key(token)) {
        Err(e) => Err(e),
        Ok(None) => Ok(None),
        Ok(Some(v)) => Ok(
            if did_text(v.did) {
                Some(Deletion { did: v.did, expires_at: timestamp_or_epoch(v.expires_at_ms) })
            } else {
                None
            },
        ),
    }
}

/// The removals of the request with a token.
pub open spec fn deletion_removals(infra: Rows, token: Seq<char>) -> Result<
    Seq<WriteView>,
    MetastoreError,
> {
    match deletion_at(infra, deletion_key(token)) {
        Err(e) => Err(e),
        Ok(None) => Ok(seq![WriteView::Remove { key: deletion_key(token) }]),
        Ok(Some(v)) => Ok(
            seq![
                WriteView::Remove { key: deletion_key(token) },
                WriteView::Remove { key: deletion_did_key(v.did) },
            ],
        ),
    }
}

/// The token of an account's latest request.
pub open spec fn deletion_token(infra: Rows, did: Seq<char>) -> Result<
    Option<Seq<char>>,
    MetastoreError,
> {
    stored_text(infra, deletion_did_key(did), "deletion by_did not valid utf8")
}

/// The row of an account's latest request.
pub open spec fn latest_deletion(infra: Rows, did: Seq<char>) -> Result<
    Option<(Seq<char>, DeletionRow)>,
    MetastoreError,
> {
    match deletion_token(infra, did) {
        Err(e) => Err(e),
        Ok(None) => Ok(None),
        Ok(Some(token)) => match deletion_at(infra, deletion_key(token)) {
            Err(e) => Err(e),
            Ok(None) => Ok(None),
            Ok(Some(v)) => Ok(Some((token, v))),
        },
    }
}

/// The row of an account's latest request names a well-formed DID.
pub open spec fn deletion_well_formed(infra: Rows, did: Seq<char>) -> bool {
    latest_deletion(infra, did) matches Ok(Some((_, v))) ==> did_text(v.did)
}

/// The store after a request expired.
pub open spec fn deletion_expired(s: MetastoreView, token: Seq<char>, now: i64) -> (
    Result<(), MetastoreError>,
    MetastoreView,
) {
    match deletion_at(s.infra.rows, deletion_key(token)) {
        Err(e) => (Err(e), s),
        Ok(None) => (Err(MetastoreError::InvalidInput("deletion request not found")), s),
        Ok(Some(v)) => (
            Ok(()),
            infra_committed(
                s,
                seq![
                    WriteView::Put {
                        key: deletion_key(token),
                        value: DeletionRow {
                            expires_at_ms: (now - EXPIRED_MS) as i64,
                            ..v
                        }.stored(),
                    },
                ],
            ),
        ),
    }
}

pub open spec fn config_key(name: Seq<char>) -> Seq<u8> {
    text_key_bytes(KeyTag::ServerConfig, name)
}

/// A setting.
pub open spec fn config_value(infra: Rows, name: Seq<char>) -> Result<
    Option<Seq<char>>,
    MetastoreError,
> {
    stored_text(infra, config_key(name), "server config not valid utf8")
}

/// A setting with its name, where it can be read.
pub open spec fn named_config(infra: Rows, name: Seq<char>) -> Contribution<(Seq<char>, Seq<char>)> {
    Ok(
        match config_value(infra, name) {
            Ok(Some(v)) => Some((name, v)),
            _ => None,
        },
    )
}

struct NamedConfigs<'b> {
    infra: &'b Keyspace,
}

impl<'b> Reader for NamedConfigs<'b> {
    type In = &'b str;

    type Item = (String, String);

    closed spec fn reading(&self) -> spec_fn(Seq<char>) -> Contribution<(Seq<char>, Seq<char>)> {
        |name: Seq<char>| named_config(self.infra@.rows, name)
    }

    fn read(&self, name: &&'b str) -> (r: Contribution<(String, String)>) {
        let key: Vec<u8> = text_key(KeyTag::ServerConfig, *name);
        match find_text(self.infra, key.as_slice(), "server config not valid utf8") {
            Ok(Some(v)) => Ok(Some(((*name).to_owned(), v))),
            _ => Ok(None),
        }
    }
}

/// A signed number by the bits of its two's complement.
pub open spec fn signed_bits(v: i64) -> u64 {
    if v >= 0 {
        v as u64
    } else {
        (v + 0x1_0000_0000_0000_0000) as u64
    }
}

pub open spec fn bits_signed(b: u64) -> i64 {
    if b <= i64::MAX {
        b as i64
    } else {
        (b - 0x1_0000_0000_0000_0000) as i64
    }
}

fn to_bits(v: i64) -> (r: u64)
    ensures
        r == signed_bits(v),
{
    if v >= 0 {
        v as u64
    } else {
        (v as i128 + 0x1_0000_0000_0000_0000) as u64
    }
}

fn from_bits(b: u64) -> (r: i64)
    ensures
        r == bits_signed(b),
{
    if b <= i64::MAX as u64 {
        b as i64
    } else {
        (b as i128 - 0x1_0000_0000_0000_0000) as i64
    }
}

pub open spec fn plc_key(user: Uuid, token: Seq<char>) -> Seq<u8> {
    owner_key_bytes(KeyTag::PlcToken, user, token)
}

/// A user's tokens.
pub open spec fn plc_rows(infra: Rows, user: Uuid) -> Seq<RowView> {
    scan(infra, prefix_keys(owner_prefix_bytes(KeyTag::PlcToken, user)))
}

/// When a token expires, by what is stored of it.
pub open spec fn stored_expiry(b: Seq<u8>) -> Result<i64, MetastoreError> {
    if b.len() == 8 {
        Ok(bits_signed(be_value(b) as u64))
    } else {
        Err(MetastoreError::CorruptData("plc token expiry not 8 bytes"))
    }
}

fn read_expiry(b: &[u8]) -> (r: Result<i64, MetastoreError>)
    ensures
        r == stored_expiry(b@),
{
    if b.len() == 8 {
        Ok(from_bits(read_be8(b)))
    } else {
        Err(MetastoreError::CorruptData("plc token expiry not 8 bytes"))
    }
}

/// A stored expiry is read back.
pub proof fn expiry_round_trip(ms: i64)
    ensures
        stored_expiry(be8(signed_bits(ms))) == Ok::<i64, MetastoreError>(ms),
{
    be8_round_trip(signed_bits(ms));
}

/// When a user's token expires.
pub open spec fn plc_expiry(infra: Rows, user: Uuid, token: Seq<char>) -> Result<
    Option<i64>,
    MetastoreError,
> {
    match lookup(infra, plc_key(user, token)) {
        None => Ok(None),
        Some(b) => match stored_expiry(b) {
            Err(e) => Err(e),
            Ok(ms) => Ok(timestamp_or_none(Some(ms))),
        },
    }
}

/// The token that a row holds.
pub open spec fn plc_token(row: RowView) -> Contribution<PlcToken> {
    match stored_expiry(row.value) {
        Err(e) => Err(e),
        Ok(ms) => match second_text(row.key) {
            None => Err(MetastoreError::CorruptData("plc token key missing token")),
            Some(token) => Ok(Some(PlcToken { token, expires_at: timestamp_or_epoch(ms) })),
        },
    }
}

struct PlcTokens {}

impl Reader for PlcTokens {
    type In = Row;

    type Item = PlcTokenInfo;

    closed spec fn reading(&self) -> spec_fn(RowView) -> Contribution<PlcToken> {
        |row: RowView| plc_token(row)
    }

    fn read(&self, row: &Row) -> (r: Contribution<PlcTokenInfo>) {
        match read_expiry(row.value.as_slice()) {
            Err(e) => Err(e),
            Ok(ms) => match read_second_text(row.key.as_slice()) {
                None => Err(MetastoreError::CorruptData("plc token key missing token")),
                Some(token) => Ok(Some(PlcTokenInfo { token, expires_at: time_or_epoch(ms) })),
            },
        }
    }
}

/// A count as a signed number; one that does not fit counts as zero.
pub open spec fn small_count(n: nat) -> i64 {
    if n <= i64::MAX {
        n as i64
    } else {
        0
    }
}

pub open spec fn blob_cid_key(cid: Seq<char>) -> Seq<u8> {
    text_key_bytes(KeyTag::BlobByCid, cid)
}

/// The hash of the user who owns a blob.
pub open spec fn blob_owner(repo_data: Rows, cid: Seq<char>) -> Result<Option<u64>, MetastoreError> {
    match lookup(repo_data, blob_cid_key(cid)) {
        None => Ok(None),
        Some(b) => if b.len() == 8 {
            Ok(Some(be_value(b) as u64))
        } else {
            Err(MetastoreError::CorruptData("blob_by_cid value not 8 bytes"))
        },
    }
}

fn find_blob_owner(repo_data: &Keyspace, cid: &str) -> (r: Result<Option<u64>, MetastoreError>)
    ensures
        r == blob_owner(repo_data@.rows, cid@),
{
    let key: Vec<u8> = text_key(KeyTag::BlobByCid, cid);
    match repo_data.get(key.as_slice()) {
        None => Ok(None),
        Some(raw) => {
            if raw.len() == 8 {
                Ok(Some(read_be8(raw.as_slice())))
            } else {
                Err(MetastoreError::CorruptData("blob_by_cid value not 8 bytes"))
            }
        },
    }
}

/// Where a blob is stored.
pub open spec fn blob_storage(repo_data: Rows, cid: Seq<char>) -> Result<
    Option<Seq<char>>,
    MetastoreError,
> {
    match blob_owner(repo_data, cid) {
        Err(e) => Err(e),
        Ok(None) => Ok(None),
        Ok(Some(owner)) => match blob_at(repo_data, blob_meta_key_bytes(owner, cid)) {
            Err(e) => Err(e),
            Ok(Some(v)) => Ok(Some(v.storage_key)),
            Ok(None) => Ok(None),
        },
    }
}

/// What administrators see of a user.
pub open spec fn admin_account(u: User) -> Result<AdminAccount, MetastoreError> {
    if !did_text(u.did) {
        Err(MetastoreError::CorruptData("invalid did in user record"))
    } else if !is_handle(encode_utf8(u.handle)) {
        Err(MetastoreError::CorruptData("invalid handle in user record"))
    } else {
        Ok(
            AdminAccount {
                id: u.id,
                did: u.did,
                handle: u.handle,
                email: u.email,
                created_at: timestamp_or_epoch(u.created_at_ms),
                invites_disabled: u.invites_disabled,
                email_verified: u.email_verified,
                deactivated_at: timestamp_or_none(u.deactivated_at_ms),
            },
        )
    }
}

/// What administrators see of the account with a DID.
pub open spec fn admin_account_of(users: Rows, did: Seq<char>) -> Contribution<AdminAccount> {
    match user_at(users, did_hash(did)) {
        None => Ok(None),
        Some(u) => match admin_account(u) {
            Ok(a) => Ok(Some(a)),
            Err(e) => Err(e),
        },
    }
}

fn user_to_admin_info(u: UserValue) -> (r: Result<AdminAccountInfo, MetastoreError>)
    ensures
        viewed(r) == admin_account(u.deep_view()),
{
    let did: Did = match Did::new(u.did) {
        Some(d) => d,
        None => {
            return Err(MetastoreError::CorruptData("invalid did in user record"));
        },
    };
    let handle: Handle = match Handle::new(u.handle) {
        Some(h) => h,
        None => {
            return Err(MetastoreError::CorruptData("invalid handle in user record"));
        },
    };
    Ok(
        AdminAccountInfo {
            id: u.id,
            did,
            handle,
            email: u.email,
            created_at: time_or_epoch(u.created_at_ms),
            invites_disabled: u.invites_disabled,
            email_verified: u.email_verified,
            deactivated_at: time_or_none(u.deactivated_at_ms),
        },
    )
}

struct AdminAccounts<'b> {
    users: &'b Keyspace,
}

impl<'b> Reader for AdminAccounts<'b> {
    type In = Did;

    type Item = AdminAccountInfo;

    closed spec fn reading(&self) -> spec_fn(Seq<char>) -> Contribution<AdminAccount> {
        |did: Seq<char>| admin_account_of(self.users@.rows, did)
    }

    fn read(&self, did: &Did) -> (r: Contribution<AdminAccountInfo>) {
        match resolve_user_value(self.users, UserHash::from_did(did.as_str())) {
            None => Ok(None),
            Some(u) => match user_to_admin_info(u) {
                Ok(a) => Ok(Some(a)),
                Err(e) => Err(e),
            },
        }
    }
}

/// A report, as it is stored.
pub open spec fn new_report(
    id: i64,
    reason_type: Seq<char>,
    reason: Option<Seq<char>>,
    subject: Seq<u8>,
    reported_by: Seq<char>,
    created_at: i64,
) -> ReportRow {
    ReportRow {
        id,
        reason_type,
        reason,
        subject_json: stored_json(subject),
        reported_by_did: reported_by,
        created_at_ms: created_at,
    }
}

impl<'a> InfraOps<'a> {
    /// Reserves a signing key.
    pub fn reserve_signing_key(
        &mut self,
        did: Option<&Did>,
        public_key_did_key: &str,
        private_key_bytes: &[u8],
        expires_at: i64,
    ) -> (r: Result<Uuid, MetastoreError>)
        ensures
            r is Ok,
            r->Ok_0.is_random(),
            exists|now: i64| #[trigger]
                is_timestamp(now as int) && final(self)@ == infra_committed(
                    old(self)@,
                    signing_key_writes(
                        new_signing_key(
                            r->Ok_0,
                            optional_ref(did),
                            public_key_did_key@,
                            private_key_bytes@,
                            expires_at,
                            now,
                        ),
                    ),
                ),
            *final(final(self).store) == *final(old(self).store),
    {
        let id: Uuid = random_uuid();
        let now: i64 = now_millis();
        self.reserve_signing_key_at(
            did,
            public_key_did_key,
            private_key_bytes,
            expires_at,
            id,
            now,
        );
        assert(is_timestamp(now as int));
        Ok(id)
    }

    /// Reserves a signing key with a given identifier and time.
    pub fn reserve_signing_key_at(
        &mut self,
        did: Option<&Did>,
        public_key_did_key: &str,
        private_key_bytes: &[u8],
        expires_at: i64,
        id: Uuid,
        now: i64,
    )
        ensures
            final(self)@ == infra_committed(
                old(self)@,
                signing_key_writes(
                    new_signing_key(
                        id,
                        optional_ref(did),
                        public_key_did_key@,
                        private_key_bytes@,
                        expires_at,
                        now,
                    ),
                ),
            ),
            *final(final(self).store) == *final(old(self).store),
    {
        let value = SigningKeyValue {
            id,
            did: owned_did(did),
            public_key_did_key: public_key_did_key.to_owned(),
            private_key_bytes: copy_bytes(private_key_bytes),
            used: false,
            created_at_ms: now,
            expires_at_ms: expires_at,
            used_at_ms: None,
        };
        let batch: Vec<Write> = vec![
            Write::Put {
                key: text_key(KeyTag::SigningKey, public_key_did_key),
                value: value.serialize(),
            },
            Write::Put {
                key: id_key(KeyTag::SigningKeyById, id),
                value: copy_bytes(public_key_did_key.as_bytes()),
            },
        ];
        proof {
            let v = new_signing_key(
                id,
                optional_ref(did),
                public_key_did_key@,
                private_key_bytes@,
                expires_at,
                now,
            );
            assert(value.private_key_bytes.deep_view() =~= private_key_bytes@);
            assert(value.deep_view() == v);
            assert(batch.deep_view() =~= signing_key_writes(v));
        }
        self.store.infra.commit(batch);
    }

    /// A reserved key that was not used and has not expired.
    pub fn get_reserved_signing_key(&self, public_key_did_key: &str) -> (r: Result<
        Option<ReservedSigningKey>,
        MetastoreError,
    >)
        ensures
            exists|now: i64| #[trigger]
                is_timestamp(now as int) && viewed(r) == usable_key(
                    self@.infra.rows,
                    public_key_did_key@,
                    now,
                ),
    {
        let now: i64 = now_millis();
        assert(is_timestamp(now as int));
        self.get_reserved_signing_key_at(public_key_did_key, now)
    }

    /// A reserved key that was not used and has not expired at a given time.
    pub fn get_reserved_signing_key_at(&self, public_key_did_key: &str, now: i64) -> (r: Result<
        Option<ReservedSigningKey>,
        MetastoreError,
    >)
        ensures
            viewed(r) == usable_key(self@.infra.rows, public_key_did_key@, now),
    {
        let key: Vec<u8> = text_key(KeyTag::SigningKey, public_key_did_key);
        match find_signing_key(&self.store.infra, key.as_slice()) {
            Err(e) => Err(e),
            Ok(None) => Ok(None),
            Ok(Some(v)) => {
                if !v.used && v.expires_at_ms > now {
                    Ok(
                        Some(
                            ReservedSigningKey {
                                id: v.id,
                                private_key_bytes: v.private_key_bytes,
                            },
                        ),
                    )
                } else {
                    Ok(None)
                }
            },
        }
    }

    /// Records that a key was used.
    pub fn mark_signing_key_used(&mut self, key_id: Uuid) -> (r: Result<(), MetastoreError>)
        ensures
            exists|now: i64| #[trigger]
                is_timestamp(now as int) && (r, final(self)@) == key_used(
                    old(self)@,
                    key_id,
                    now,
                ),
            *final(final(self).store) == *final(old(self).store),
    {
        let now: i64 = now_millis();
        assert(is_timestamp(now as int));
        self.mark_signing_key_used_at(key_id, now)
    }

    /// Records that a key was used at a given time.
    pub fn mark_signing_key_used_at(&mut self, key_id: Uuid, now: i64) -> (r: Result<
        (),
        MetastoreError,
    >)
        ensures
            (r, final(self)@) == key_used(old(self)@, key_id, now),
            *final(final(self).store) == *final(old(self).store),
    {
        let index_key: Vec<u8> = id_key(KeyTag::SigningKeyById, key_id);
        let public_key: String = match find_text(
            &self.store.infra,
            index_key.as_slice(),
            "signing key index not valid utf8",
        ) {
            Err(e) => {
                return Err(e);
            },
            Ok(None) => {
                return Ok(());
            },
            Ok(Some(t)) => t,
        };
        let key: Vec<u8> = text_key(KeyTag::SigningKey, public_key.as_str());
        match find_signing_key(&self.store.infra, key.as_slice()) {
            Err(e) => Err(e),
            Ok(None) => Err(MetastoreError::CorruptData("signing key missing from primary")),
            Ok(Some(v)) => {
                let ghost before = v.deep_view();
                let mut v: SigningKeyValue = v;
                v.used = true;
                v.used_at_ms = Some(now);
                assert(v.deep_view() == SigningKeyRow {
                    used: true,
                    used_at_ms: Some(now),
                    ..before
                });
                let batch: Vec<Write> = vec![Write::Put { key, value: v.serialize() }];
                assert(batch.deep_view() =~= seq![
                    WriteView::Put {
                        key: signing_key_key(public_key@),
                        value: v.deep_view().stored(),
                    },
                ]);
                self.store.infra.commit(batch);
                Ok(())
            },
        }
    }

    /// All that is known of a reserved key.
    pub fn get_reserved_signing_key_full(&self, public_key_did_key: &str) -> (r: Result<
        Option<ReservedSigningKeyFull>,
        MetastoreError,
    >)
        ensures
            viewed(r) == (match signing_key_at(
                self@.infra.rows,
                signing_key_key(public_key_did_key@),
            ) {
                Err(e) => Err(e),
                Ok(Some(v)) => Ok(Some(full_key(v))),
                Ok(None) => Ok(None),
            }),
    {
        let key: Vec<u8> = text_key(KeyTag::SigningKey, public_key_did_key);
        match find_signing_key(&self.store.infra, key.as_slice()) {
            Err(e) => Err(e),
            Ok(None) => Ok(None),
            Ok(Some(v)) => {
                let did: Option<Did> = match v.did {
                    Some(d) => Did::new(d),
                    None => None,
                };
                Ok(
                    Some(
                        ReservedSigningKeyFull {
                            id: v.id,
                            did,
                            public_key_did_key: v.public_key_did_key,
                            private_key_bytes: v.private_key_bytes,
                            expires_at: time_or_epoch(v.expires_at_ms),
                            used_at: time_or_none(v.used_at_ms),
                        },
                    ),
                )
            },
        }
    }

    /// Records a request to delete an account.
    pub fn create_deletion_request(&mut self, token: &str, did: &Did, expires_at: i64) -> (r:
        Result<(), MetastoreError>)
        ensures
            r is Ok,
            exists|now: i64| #[trigger]
                is_timestamp(now as int) && final(self)@ == infra_committed(
                    old(self)@,
                    deletion_writes(
                        DeletionRow {
                            token: token@,
                            did: did@,
                            created_at_ms: now,
                            expires_at_ms: expires_at,
                        },
                    ),
                ),
            *final(final(self).store) == *final(old(self).store),
    {
        let now: i64 = now_millis();
        self.create_deletion_request_at(token, did, expires_at, now);
        assert(is_timestamp(now as int));
        Ok(())
    }

    /// Records a request to delete an account at a given time.
    pub fn create_deletion_request_at(
        &mut self,
        token: &str,
        did: &Did,
        expires_at: i64,
        now: i64,
    )
        ensures
            final(self)@ == infra_committed(
                old(self)@,
                deletion_writes(
                    DeletionRow {
                        token: token@,
                        did: did@,
                        created_at_ms: now,
                        expires_at_ms: expires_at,
                    },
                ),
            ),
            *final(final(self).store) == *final(old(self).store),
    {
        let value = DeletionRequestValue {
            token: token.to_owned(),
            did: did.as_str().to_owned(),
            created_at_ms: now,
            expires_at_ms: expires_at,
        };
        let batch: Vec<Write> = vec![
            Write::Put { key: text_key(KeyTag::DeletionRequest, token), value: value.serialize() },
            Write::Put {
                key: text_key(KeyTag::DeletionByDid, did.as_str()),
                value: copy_bytes(token.as_bytes()),
            },
        ];
        proof {
            let v = DeletionRow {
                token: token@,
                did: did@,
                created_at_ms: now,
                expires_at_ms: expires_at,
            };
            assert(value.deep_view() == v);
            assert(batch.deep_view() =~= deletion_writes(v));
        }
        self.store.infra.commit(batch);
    }

    /// The request with a token.
    pub fn get_deletion_request(&self, token: &str) -> (r: Result<
        Option<DeletionRequest>,
        MetastoreError,
    >)
        ensures
            viewed(r) == deletion_with(self@.infra.rows, token@),
    {
        let key: Vec<u8> = text_key(KeyTag::DeletionRequest, token);
        match find_deletion(&self.store.infra, key.as_slice()) {
            Err(e) => Err(e),
            Ok(None) => Ok(None),
            Ok(Some(v)) => match Did::new(v.did) {
                Some(did) => Ok(
                    Some(DeletionRequest { did, expires_at: time_or_epoch(v.expires_at_ms) }),
                ),
                None => Ok(None),
            },
        }
    }

    /// Removes the request with a token.
    pub fn delete_deletion_request(&mut self, token: &str) -> (r: Result<(), MetastoreError>)
        ensures
            match deletion_removals(old(self)@.infra.rows, token@) {
                Ok(ws) => r is Ok && final(self)@ == infra_committed(old(self)@, ws),
                Err(e) => r == Err::<(), MetastoreError>(e) && final(self)@ == old(self)@,
            },
            *final(final(self).store) == *final(old(self).store),
    {
        let key: Vec<u8> = text_key(KeyTag::DeletionRequest, token);
        match find_deletion(&self.store.infra, key.as_slice()) {
            Err(e) => Err(e),
            Ok(found) => {
                let mut batch: Vec<Write> = vec![Write::Remove { key }];
                if let Some(v) = &found {
                    batch.push(
                        Write::Remove { key: text_key(KeyTag::DeletionByDid, v.did.as_str()) },
                    );
                }
                assert(batch.deep_view() =~= deletion_removals(old(self)@.infra.rows, token@)->Ok_0);
                self.store.infra.commit(batch);
                Ok(())
            },
        }
    }

    /// Removes an account's latest request.
    pub fn delete_deletion_requests_by_did(&mut self, did: &Did) -> (r: Result<
        (),
        MetastoreError,
    >)
        ensures
            match deletion_token(old(self)@.infra.rows, did@) {
                Err(e) => r == Err::<(), MetastoreError>(e) && final(self)@ == old(self)@,
                Ok(None) => r is Ok && final(self)@ == old(self)@,
                Ok(Some(token)) => r is Ok && final(self)@ == infra_committed(
                    old(self)@,
                    seq![
                        WriteView::Remove { key: deletion_key(token) },
                        WriteView::Remove { key: deletion_did_key(did@) },
                    ],
                ),
            },
            *final(final(self).store) == *final(old(self).store),
    {
        let did_key: Vec<u8> = text_key(KeyTag::DeletionByDid, did.as_str());
        match find_text(&self.store.infra, did_key.as_slice(), "deletion by_did not valid utf8") {
            Err(e) => Err(e),
            Ok(None) => Ok(()),
            Ok(Some(token)) => {
                let batch: Vec<Write> = vec![
                    Write::Remove { key: text_key(KeyTag::DeletionRequest, token.as_str()) },
                    Write::Remove { key: did_key },
                ];
                assert(batch.deep_view() =~= seq![
                    WriteView::Remove { key: deletion_key(token@) },
                    WriteView::Remove { key: deletion_did_key(did@) },
                ]);
                self.store.infra.commit(batch);
                Ok(())
            },
        }
    }

    /// Whether the row of an account's latest request names a well-formed DID, as far as
    /// there is such a row.
    pub fn deletion_request_is_well_formed(&self, did: &Did) -> (r: bool)
        ensures
            r == deletion_well_formed(self@.infra.rows, did@),
    {
        let did_key: Vec<u8> = text_key(KeyTag::DeletionByDid, did.as_str());
        match find_text(&self.store.infra, did_key.as_slice(), "deletion by_did not valid utf8") {
            Ok(Some(token)) => {
                let key: Vec<u8> = text_key(KeyTag::DeletionRequest, token.as_str());
                match find_deletion(&self.store.infra, key.as_slice()) {
                    Ok(Some(v)) => Did::new(v.did).is_some(),
                    _ => true,
                }
            },
            _ => true,
        }
    }

    /// An account's latest request.
    pub fn get_deletion_request_by_did(&self, did: &Did) -> (r: Result<
        Option<DeletionRequestWithToken>,
        MetastoreError,
    >)
        requires
            deletion_well_formed(self@.infra.rows, did@),
        ensures
            viewed(r) == (match latest_deletion(self@.infra.rows, did@) {
                Err(e) => Err(e),
                Ok(None) => Ok(None),
                Ok(Some((token, v))) => Ok(
                    Some(
                        DeletionWithToken {
                            token,
                            did: v.did,
                            expires_at: timestamp_or_epoch(v.expires_at_ms),
                        },
                    ),
                ),
            }),
    {
        let did_key: Vec<u8> = text_key(KeyTag::DeletionByDid, did.as_str());
        let token: String = match find_text(
            &self.store.infra,
            did_key.as_slice(),
            "deletion by_did not valid utf8",
        ) {
            Err(e) => {
                return Err(e);
            },
            Ok(None) => {
                return Ok(None);
            },
            Ok(Some(t)) => t,
        };
        let key: Vec<u8> = text_key(KeyTag::DeletionRequest, token.as_str());
        match find_deletion(&self.store.infra, key.as_slice()) {
            Err(e) => Err(e),
            Ok(None) => Ok(None),
            Ok(Some(v)) => Ok(
                Some(
                    DeletionRequestWithToken {
                        token,
                        did: Did::from(v.did),
                        expires_at: time_or_epoch(v.expires_at_ms),
                    },
                ),
            ),
        }
    }

    /// Lets a request expire.
    pub fn expire_deletion_request(&mut self, token: &str) -> (r: Result<(), MetastoreError>)
        ensures
            exists|now: i64| #[trigger]
                is_timestamp(now as int) && (r, final(self)@) == deletion_expired(
                    old(self)@,
                    token@,
                    now,
                ),
            *final(final(self).store) == *final(old(self).store),
    {
        let now: i64 = now_millis();
        assert(is_timestamp(now as int));
        self.expire_deletion_request_at(token, now)
    }

    /// Lets a request expire at a given time.
    pub fn expire_deletion_request_at(&mut self, token: &str, now: i64) -> (r: Result<
        (),
        MetastoreError,
    >)
        requires
            is_timestamp(now as int),
        ensures
            (r, final(self)@) == deletion_expired(old(self)@, token@, now),
            *final(final(self).store) == *final(old(self).store),
    {
        let key: Vec<u8> = text_key(KeyTag::DeletionRequest, token);
        match find_deletion(&self.store.infra, key.as_slice()) {
            Err(e) => Err(e),
            Ok(None) => Err(MetastoreError::InvalidInput("deletion request not found")),
            Ok(Some(v)) => {
                let ghost before = v.deep_view();
                let mut v: DeletionRequestValue = v;
                v.expires_at_ms = now - EXPIRED_MS;
                assert(v.deep_view() == DeletionRow {
                    expires_at_ms: (now - EXPIRED_MS) as i64,
                    ..before
                });
                let batch: Vec<Write> = vec![Write::Put { key, value: v.serialize() }];
                assert(batch.deep_view() =~= seq![
                    WriteView::Put { key: deletion_key(token@), value: v.deep_view().stored() },
                ]);
                self.store.infra.commit(batch);
                Ok(())
            },
        }
    }

    /// A setting.
    pub fn get_server_config(&self, key: &str) -> (r: Result<Option<String>, MetastoreError>)
        ensures
            viewed(r) == config_value(self@.infra.rows, key@),
    {
        let k: Vec<u8> = text_key(KeyTag::ServerConfig, key);
        find_text(&self.store.infra, k.as_slice(), "server config not valid utf8")
    }

    /// Some settings with their names, where they can be read.
    pub fn get_server_configs<'k>(&self, keys: &[&'k str]) -> (r: Result<
        Vec<(String, String)>,
        MetastoreError,
    >)
        ensures
            viewed(r) == collect_all(
                keys.deep_view(),
                |name: Seq<char>| named_config(self@.infra.rows, name),
            ),
    {
        let reader = NamedConfigs { infra: &self.store.infra };
        assert(reader.reading() =~= |name: Seq<char>| named_config(self@.infra.rows, name));
        collect_all_items(keys, &reader)
    }

    /// Changes a setting.
    pub fn upsert_server_config(&mut self, key: &str, value: &str) -> (r: Result<
        (),
        MetastoreError,
    >)
        ensures
            r is Ok,
            final(self)@ == infra_committed(
                old(self)@,
                seq![WriteView::Put { key: config_key(key@), value: encode_utf8(value@) }],
            ),
            *final(final(self).store) == *final(old(self).store),
    {
        let batch: Vec<Write> = vec![
            Write::Put {
                key: text_key(KeyTag::ServerConfig, key),
                value: copy_bytes(value.as_bytes()),
            },
        ];
        assert(batch.deep_view() =~= seq![
            WriteView::Put { key: config_key(key@), value: encode_utf8(value@) },
        ]);
        self.store.infra.commit(batch);
        Ok(())
    }

    /// Removes a setting.
    pub fn delete_server_config(&mut self, key: &str) -> (r: Result<(), MetastoreError>)
        ensures
            r is Ok,
            final(self)@ == infra_committed(
                old(self)@,
                seq![WriteView::Remove { key: config_key(key@) }],
            ),
            *final(final(self).store) == *final(old(self).store),
    {
        let batch: Vec<Write> = vec![Write::Remove { key: text_key(KeyTag::ServerConfig, key) }];
        assert(batch.deep_view() =~= seq![WriteView::Remove { key: config_key(key@) }]);
        self.store.infra.commit(batch);
        Ok(())
    }

    /// Whether the store is in order.
    pub fn health_check(&self) -> (r: Result<bool, MetastoreError>)
        ensures
            r == Ok::<bool, MetastoreError>(true),
    {
        Ok(true)
    }

    /// Records a moderation report. Its subject is JSON text.
    pub fn insert_report(
        &mut self,
        id: i64,
        reason_type: &str,
        reason: Option<&str>,
        subject_json: &[u8],
        reported_by_did: &Did,
        created_at: i64,
    ) -> (r: Result<(), MetastoreError>)
        ensures
            r is Ok,
            final(self)@ == infra_committed(
                old(self)@,
                seq![
                    WriteView::Put {
                        key: report_key_bytes(id),
                        value: new_report(
                            id,
                            reason_type@,
                            optional_text(reason),
                            subject_json@,
                            reported_by_did@,
                            created_at,
                        ).stored(),
                    },
                ],
            ),
            *final(final(self).store) == *final(old(self).store),
    {
        let value = ReportValue {
            id,
            reason_type: reason_type.to_owned(),
            reason: owned_text(reason),
            subject_json: json_to_store(subject_json),
            reported_by_did: reported_by_did.as_str().to_owned(),
            created_at_ms: created_at,
        };
        let batch: Vec<Write> = vec![
            Write::Put { key: report_key(id), value: value.serialize() },
        ];
        proof {
            let v = new_report(
                id,
                reason_type@,
                optional_text(reason),
                subject_json@,
                reported_by_did@,
                created_at,
            );
            assert(value.deep_view() == v);
            assert(batch.deep_view() =~= seq![
                WriteView::Put { key: report_key_bytes(id), value: v.stored() },
            ]);
        }
        self.store.infra.commit(batch);
        Ok(())
    }

    /// Removes a user's tokens.
    pub fn delete_plc_tokens_for_user(&mut self, user_id: Uuid) -> (r: Result<(), MetastoreError>)
        ensures
            r is Ok,
            final(self)@ == infra_committed(
                old(self)@,
                row_removals(plc_rows(old(self)@.infra.rows, user_id)),
            ),
            *final(final(self).store) == *final(old(self).store),
    {
        let prefix: Vec<u8> = owner_prefix(KeyTag::PlcToken, user_id);
        let rows: Vec<Row> = self.store.infra.prefix(prefix.as_slice());
        let mut batch: Vec<Write> = Vec::new();
        assert(batch.deep_view() =~= Seq::empty());
        push_removals(&mut batch, &rows);
        assert(batch.deep_view() =~= row_removals(plc_rows(old(self)@.infra.rows, user_id)));
        self.store.infra.commit(batch);
        Ok(())
    }

    /// Records a token of a user.
    pub fn insert_plc_token(&mut self, user_id: Uuid, token: &str, expires_at: i64) -> (r: Result<
        (),
        MetastoreError,
    >)
        ensures
            r is Ok,
            final(self)@ == infra_committed(
                old(self)@,
                seq![
                    WriteView::Put {
                        key: plc_key(user_id, token@),
                        value: be8(signed_bits(expires_at)),
                    },
                ],
            ),
            *final(final(self).store) == *final(old(self).store),
    {
        let mut value: Vec<u8> = Vec::new();
        push_be(&mut value, to_bits(expires_at), 8);
        assert(value@ =~= be8(signed_bits(expires_at)));
        let batch: Vec<Write> = vec![
            Write::Put { key: owner_key(KeyTag::PlcToken, user_id, token), value },
        ];
        assert(batch.deep_view() =~= seq![
            WriteView::Put {
                key: plc_key(user_id, token@),
                value: be8(signed_bits(expires_at)),
            },
        ]);
        self.store.infra.commit(batch);
        Ok(())
    }

    /// When a token of a user expires.
    pub fn get_plc_token_expiry(&self, user_id: Uuid, token: &str) -> (r: Result<
        Option<i64>,
        MetastoreError,
    >)
        ensures
            r == plc_expiry(self@.infra.rows, user_id, token@),
    {
        let key: Vec<u8> = owner_key(KeyTag::PlcToken, user_id, token);
        match self.store.infra.get(key.as_slice()) {
            None => Ok(None),
            Some(raw) => match read_expiry(raw.as_slice()) {
                Err(e) => Err(e),
                Ok(ms) => Ok(time_or_none(Some(ms))),
            },
        }
    }

    /// Removes a token of a user.
    pub fn delete_plc_token(&mut self, user_id: Uuid, token: &str) -> (r: Result<
        (),
        MetastoreError,
    >)
        ensures
            r is Ok,
            final(self)@ == infra_committed(
                old(self)@,
                seq![WriteView::Remove { key: plc_key(user_id, token@) }],
            ),
            *final(final(self).store) == *final(old(self).store),
    {
        let batch: Vec<Write> = vec![
            Write::Remove { key: owner_key(KeyTag::PlcToken, user_id, token) },
        ];
        assert(batch.deep_view() =~= seq![WriteView::Remove { key: plc_key(user_id, token@) }]);
        self.store.infra.commit(batch);
        Ok(())
    }

    /// A user's tokens.
    pub fn get_plc_tokens_for_user(&self, user_id: Uuid) -> (r: Result<
        Vec<PlcTokenInfo>,
        MetastoreError,
    >)
        ensures
            viewed(r) == collect_all(
                plc_rows(self@.infra.rows, user_id),
                |row: RowView| plc_token(row),
            ),
    {
        let prefix: Vec<u8> = owner_prefix(KeyTag::PlcToken, user_id);
        let rows: Vec<Row> = self.store.infra.prefix(prefix.as_slice());
        let reader = PlcTokens {  };
        assert(reader.reading() =~= |row: RowView| plc_token(row));
        collect_all_items(rows.as_slice(), &reader)
    }

    /// How many tokens a user has.
    pub fn count_plc_tokens_for_user(&self, user_id: Uuid) -> (r: Result<i64, MetastoreError>)
        ensures
            r == Ok::<i64, MetastoreError>(
                small_count(plc_rows(self@.infra.rows, user_id).len()),
            ),
    {
        let prefix: Vec<u8> = owner_prefix(KeyTag::PlcToken, user_id);
        let rows: Vec<Row> = self.store.infra.prefix(prefix.as_slice());
        let n: usize = rows.len();
        assert(rows.deep_view().len() == n);
        if n as u64 <= i64::MAX as u64 {
            Ok(n as i64)
        } else {
            Ok(0)
        }
    }

    /// Where a blob is stored.
    pub fn get_blob_storage_key_by_cid(&self, cid: &str) -> (r: Result<
        Option<String>,
        MetastoreError,
    >)
        ensures
            viewed(r) == blob_storage(self@.repo_data.rows, cid@),
    {
        match find_blob_owner(&self.store.repo_data, cid) {
            Err(e) => Err(e),
            Ok(None) => Ok(None),
            Ok(Some(owner)) => {
                let key: Vec<u8> = blob_meta_key(UserHash::from_raw(owner), cid);
                match find_blob(&self.store.repo_data, key.as_slice()) {
                    Err(e) => Err(e),
                    Ok(Some(v)) => Ok(Some(v.storage_key)),
                    Ok(None) => Ok(None),
                }
            },
        }
    }

    /// Forgets a blob.
    pub fn delete_blob_by_cid(&mut self, cid: &str) -> (r: Result<(), MetastoreError>)
        ensures
            match blob_owner(old(self)@.repo_data.rows, cid@) {
                Err(e) => r == Err::<(), MetastoreError>(e) && final(self)@ == old(self)@,
                Ok(None) => r is Ok && final(self)@ == old(self)@,
                Ok(Some(owner)) => r is Ok && final(self)@ == (MetastoreView {
                    repo_data: old(self)@.repo_data.commit(
                        seq![
                            WriteView::Remove { key: blob_meta_key_bytes(owner, cid@) },
                            WriteView::Remove { key: blob_cid_key(cid@) },
                        ],
                    ),
                    ..old(self)@
                }),
            },
            *final(final(self).store) == *final(old(self).store),
    {
        match find_blob_owner(&self.store.repo_data, cid) {
            Err(e) => Err(e),
            Ok(None) => Ok(()),
            Ok(Some(owner)) => {
                let batch: Vec<Write> = vec![
                    Write::Remove { key: blob_meta_key(UserHash::from_raw(owner), cid) },
                    Write::Remove { key: text_key(KeyTag::BlobByCid, cid) },
                ];
                assert(batch.deep_view() =~= seq![
                    WriteView::Remove { key: blob_meta_key_bytes(owner, cid@) },
                    WriteView::Remove { key: blob_cid_key(cid@) },
                ]);
                self.store.repo_data.commit(batch);
                Ok(())
            },
        }
    }

    /// What administrators see of an account.
    pub fn get_admin_account_info_by_did(&self, did: &Did) -> (r: Result<
        Option<AdminAccountInfo>,
        MetastoreError,
    >)
        ensures
            viewed(r) == admin_account_of(self@.users.rows, did@),
    {
        let reader = AdminAccounts { users: &self.store.users };
        reader.read(did)
    }

    /// What administrators see of some accounts; those that do not exist are passed over.
    pub fn get_admin_account_infos_by_dids(&self, dids: &[Did]) -> (r: Result<
        Vec<AdminAccountInfo>,
        MetastoreError,
    >)
        ensures
            viewed(r) == collect_all(
                dids.deep_view(),
                |did: Seq<char>| admin_account_of(self@.users.rows, did),
            ),
    {
        let reader = AdminAccounts { users: &self.store.users };
        assert(reader.reading() =~= |did: Seq<char>| admin_account_of(self@.users.rows, did));
        collect_all_items(dids, &reader)
    }
}

} // verus!
