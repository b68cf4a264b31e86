//! Answers to requests about account infrastructure.

use vstd::prelude::*;
use vstd::utf8::encode_utf8;

use crate::account_ops::{admin_account_of, blob_cid_key, blob_owner, blob_storage, config_key};
use crate::account_ops::{config_value, deletion_did_key, deletion_expired, deletion_key};
use crate::account_ops::{deletion_removals, deletion_token, deletion_well_formed, deletion_with};
use crate::account_ops::{deletion_writes, full_key, key_used, latest_deletion, named_config};
use crate::account_ops::{new_report, new_signing_key, plc_expiry, plc_key, plc_rows, signed_bits};
use crate::account_ops::{signing_key_key, signing_key_writes, usable_key, AdminAccountInfo};
use crate::account_ops::{DeletionRequest, DeletionRequestWithToken, DeletionWithToken};
use crate::account_ops::{PlcTokenInfo, ReservedKeyFull, ReservedSigningKey, ReservedSigningKeyFull};
use crate::account_steps::{email_factor, email_factor_change, token_count_of, tokens_of};
use crate::clock::{is_timestamp, timestamp_or_epoch};
use crate::comms_ops::{abandoned, attempted, comms_changed, comms_rows, due_message, enqueued};
use crate::comms_ops::{first_items, history_entry, history_rows, latest_messages, new_message};
use crate::comms_ops::{removals, sent, NotificationHistoryRow, QueuedComms, QueuedMessage};
use crate::encoding::be8;
use crate::errors::{db_result, db_viewed, to_db, DbError, MetastoreError};
use crate::infra_ops::{infra_committed, InfraOps};
use crate::infra_schema::{blob_meta_key_bytes, id_key_bytes, invite_at, invite_use_key_bytes};
use crate::infra_schema::{report_key_bytes, signing_key_at, CommsRow, CommsType, DeletionRow};
use crate::invite_ops::{account_disable_write, code_used_by, disable_write, invite_by};
use crate::invite_ops::{invite_created, invite_for, invite_info, invite_key, invite_list};
use crate::invite_ops::{invite_made, invite_page, invite_refusal, invite_rows, invite_writes};
use crate::invite_ops::{maker_removals, new_invite, refusal, use_taken, use_writes};
use crate::invite_ops::{user_code, user_did, uses_of_code, uses_of_codes, InviteCodeError};
use crate::invite_ops::{InviteCodeInfo, InviteCodeRow, InviteCodeSortOrder, InviteCodeUse};
use crate::invite_ops::{InviteInfo, ListedInvite, ValidatedInviteCode};
use crate::json::json_bytes;
use crate::keys::{did_hash, KeyTag, UserHash};
use crate::metastore::MetastoreView;
use crate::pool::{lost_reply_error, reply_lost};
use crate::pref_ops::{pref_key, pref_rows, pref_stored, preference, replacement};
use crate::requests::InfraRequest;
use crate::scan::{collect, collect_all, count_limit, saturated};
use crate::store::{row_removals, Keyspace, RowView, Rows, WriteView};
use crate::types::{optional_ref, optional_text, Did, Uuid};
use crate::users::{resolve_user_value, user_at};

verus! {

/// An answer to a request about account infrastructure.
#[derive(Debug, PartialEq, Eq)]
pub enum InfraReply {
    Id(Result<Uuid, DbError>),
    Done(Result<(), DbError>),
    Flag(Result<bool, DbError>),
    Number(Result<i64, DbError>),
    Count(Result<u64, DbError>),
    Uses(Result<Option<i32>, DbError>),
    Text(Result<Option<String>, DbError>),
    Time(Result<Option<i64>, DbError>),
    Messages(Result<Vec<QueuedComms>, DbError>),
    History(Result<Vec<NotificationHistoryRow>, DbError>),
    Validated(Result<(), InviteCodeError>),
    Invite(Result<Option<InviteCodeInfo>, DbError>),
    Invites(Result<Vec<InviteCodeInfo>, DbError>),
    UserInvites(Result<Vec<(Uuid, InviteCodeInfo)>, DbError>),
    InviteUses(Result<Vec<InviteCodeUse>, DbError>),
    InviteList(Result<Vec<InviteCodeRow>, DbError>),
    UserDids(Result<Vec<(Uuid, Did)>, DbError>),
    UserCodes(Result<Vec<(Uuid, String)>, DbError>),
    SigningKey(Result<Option<ReservedSigningKey>, DbError>),
    SigningKeyFull(Result<Option<ReservedSigningKeyFull>, DbError>),
    Deletion(Result<Option<DeletionRequest>, DbError>),
    DeletionWithToken(Result<Option<DeletionRequestWithToken>, DbError>),
    Preferences(Result<Vec<(String, Vec<u8>)>, DbError>),
    Settings(Result<Vec<(String, String)>, DbError>),
    AdminAccount(Result<Option<AdminAccountInfo>, DbError>),
    AdminAccounts(Result<Vec<AdminAccountInfo>, DbError>),
    PlcTokens(Result<Vec<PlcTokenInfo>, DbError>),
    /// What became of a preference, and what it says of the second factor by e-mail.
    Preference { result: Result<(), DbError>, email_factor: Option<bool> },
}

/// The outcome of an operation, as a client sees it, and the store after it.
pub open spec fn answered<T: DeepView>(
    r: Result<T, DbError>,
    t: MetastoreView,
    outcome: (Result<T::V, MetastoreError>, MetastoreView),
) -> bool {
    db_viewed(r) == db_result(outcome.0) && t == outcome.1
}

/// The store with a batch, where one could be put together.
pub open spec fn committed_if_ok(s: MetastoreView, ws: Result<Seq<WriteView>, MetastoreError>) -> (
    Result<(), MetastoreError>,
    MetastoreView,
) {
    match ws {
        Ok(ws) => (Ok(()), infra_committed(s, ws)),
        Err(e) => (Err(e), s),
    }
}

/// How many uses a code has left.
pub open spec fn uses_left(infra: Rows, code: Seq<char>) -> Result<Option<i32>, MetastoreError> {
    match invite_at(infra, invite_key(code)) {
        Err(e) => Err(e),
        Ok(Some(v)) => Ok(Some(v.available_uses)),
        Ok(None) => Ok(None),
    }
}

/// What is known of a code.
pub open spec fn info_of_code(s: MetastoreView, code: Seq<char>) -> Result<
    Option<InviteInfo>,
    MetastoreError,
> {
    match invite_at(s.infra.rows, invite_key(code)) {
        Err(e) => Err(e),
        Ok(Some(v)) => Ok(Some(invite_info(v, s.users.rows, s.user_hashes))),
        Ok(None) => Ok(None),
    }
}

/// A page of the list of all codes.
pub open spec fn invite_listing(
    infra: Rows,
    cursor: Option<Seq<char>>,
    limit: i64,
    sort: InviteCodeSortOrder,
) -> Result<Seq<ListedInvite>, MetastoreError> {
    match invite_list(infra, sort) {
        Ok(list) => Ok(invite_page(list, cursor, count_limit(limit))),
        Err(e) => Err(e),
    }
}

/// The store after it forgot which code a user joined with.
pub open spec fn use_forgotten(s: MetastoreView, user: Uuid) -> (
    Result<(), MetastoreError>,
    MetastoreView,
) {
    match code_used_by(s.infra.rows, user) {
        Err(e) => (Err(e), s),
        Ok(None) => (Ok(()), s),
        Ok(Some(code)) => (
            Ok(()),
            infra_committed(
                s,
                seq![
                    WriteView::Remove { key: invite_use_key_bytes(code, user) },
                    WriteView::Remove { key: id_key_bytes(KeyTag::InviteUsedBy, user) },
                ],
            ),
        ),
    }
}

/// The store without the codes that a user made.
pub open spec fn invites_removed(s: MetastoreView, user: Uuid) -> (
    Result<(), MetastoreError>,
    MetastoreView,
) {
    match maker_removals(s.infra.rows, invite_rows(s.infra.rows), user) {
        Err(e) => (Err(e), s),
        Ok(ws) => (
            Ok(()),
            infra_committed(
                s,
                ws.push(WriteView::Remove { key: id_key_bytes(KeyTag::InviteByUser, user) }),
            ),
        ),
    }
}

/// The store without an account's latest request to be deleted.
pub open spec fn deletion_forgotten(s: MetastoreView, did: Seq<char>) -> (
    Result<(), MetastoreError>,
    MetastoreView,
) {
    match deletion_token(s.infra.rows, did) {
        Err(e) => (Err(e), s),
        Ok(None) => (Ok(()), s),
        Ok(Some(token)) => (
            Ok(()),
            infra_committed(
                s,
                seq![
                    WriteView::Remove { key: deletion_key(token) },
                    WriteView::Remove { key: deletion_did_key(did) },
                ],
            ),
        ),
    }
}

/// An account's latest request to be deleted.
pub open spec fn deletion_of(infra: Rows, did: Seq<char>) -> Result<
    Option<DeletionWithToken>,
    MetastoreError,
> {
    match latest_deletion(infra, did) {
        Err(e) => Err(e),
        Ok(None) => Ok(None),
        Ok(Some((token, v))) => Ok(
            Some(
                DeletionWithToken {
                    token,
                    did: v.did,
                    expires_at: timestamp_or_epoch(v.expires_at_ms),
                },
            ),
        ),
    }
}

/// The store with a preference, unless there was one of the name.
pub open spec fn pref_inserted(s: MetastoreView, user: Uuid, name: Seq<char>, value: Seq<u8>) -> (
    Result<(), MetastoreError>,
    MetastoreView,
) {
    match s.infra.get(pref_key(user, name)) {
        Some(_) => (Ok(()), s),
        None => pref_stored(s, user, name, value),
    }
}

/// The store without a blob.
pub open spec fn blob_forgotten(s: MetastoreView, cid: Seq<char>) -> (
    Result<(), MetastoreError>,
    MetastoreView,
) {
    match blob_owner(s.repo_data.rows, cid) {
        Err(e) => (Err(e), s),
        Ok(None) => (Ok(()), s),
        Ok(Some(owner)) => (
            Ok(()),
            MetastoreView {
                repo_data: s.repo_data.commit(
                    seq![
                        WriteView::Remove { key: blob_meta_key_bytes(owner, cid) },
                        WriteView::Remove { key: blob_cid_key(cid) },
                    ],
                ),
                ..s
            },
        ),
    }
}

/// The latest messages to a user, of a type, up to a limit.
pub open spec fn first_latest(infra: Rows, user: Uuid, comms_type: CommsType, limit: i64) -> Result<
    Seq<QueuedMessage>,
    MetastoreError,
> {
    match latest_messages(infra, user, comms_type) {
        Ok(ms) => Ok(first_items(ms, count_limit(limit))),
        Err(e) => Err(e),
    }
}

/// How many messages to a user, of a type, the queue holds.
pub open spec fn message_count(infra: Rows, user: Uuid, comms_type: CommsType) -> Result<
    i64,
    MetastoreError,
> {
    match removals(infra, user, comms_type) {
        Ok(ws) => Ok(saturated(ws.len())),
        Err(e) => Err(e),
    }
}

/// The store without the messages to a user, of a type.
pub open spec fn messages_removed(s: MetastoreView, user: Uuid, comms_type: CommsType) -> (
    Result<u64, MetastoreError>,
    MetastoreView,
) {
    match removals(s.infra.rows, user, comms_type) {
        Ok(ws) => (Ok(ws.len() as u64), infra_committed(s, ws)),
        Err(e) => (Err(e), s),
    }
}

/// All that is known of a reserved key.
pub open spec fn full_key_of(infra: Rows, public_key: Seq<char>) -> Result<
    Option<ReservedKeyFull>,
    MetastoreError,
> {
    match signing_key_at(infra, signing_key_key(public_key)) {
        Err(e) => Err(e),
        Ok(Some(v)) => Ok(Some(full_key(v))),
        Ok(None) => Ok(None),
    }
}

/// The user with a DID.
pub open spec fn id_with_did(users: Rows, did: Seq<char>) -> Option<Uuid> {
    match user_at(users, did_hash(did)) {
        Some(u) => Some(u.id),
        None => None,
    }
}

fn user_with_did(users: &Keyspace, did: &Did) -> (r: Option<Uuid>)
    ensures
        r == id_with_did(users@.rows, did@),
{
    match resolve_user_value(users, UserHash::from_did(did.as_str())) {
        Some(u) => Some(u.id),
        None => None,
    }
}

/// Whether an answer is the one to a request: the outcome of the operation that the request
/// asks for, and the store as the operation leaves it.
pub open spec fn infra_answer(
    s: MetastoreView,
    request: InfraRequest,
    reply: InfraReply,
    t: MetastoreView,
) -> bool {
    match request {
        InfraRequest::EnqueueComms { user_id, channel, comms_type, recipient, subject, body, metadata } => match reply {
            InfraReply::Id(r) => { r is Ok && r->Ok_0.is_random() && exists|now: i64| #[trigger] is_timestamp(now as int) && t == enqueued(
                s,
                new_message(
                    r->Ok_0,
                    user_id,
                    channel,
                    comms_type,
                    recipient@,
                    subject.deep_view(),
                    body@,
                    metadata.deep_view(),
                    now,
                ),
            ) },
            _ => false,
        },
        InfraRequest::FetchPendingComms { now, batch_size } => match reply {
            InfraReply::Messages(r) => answered(r, t, (collect(comms_rows(s.infra.rows), |row: RowView| due_message(row, now), count_limit(batch_size)), s)),
            _ => false,
        },
        InfraRequest::MarkCommsSent { id } => match reply {
            InfraReply::Done(r) => { exists|now: i64| #[trigger] is_timestamp(now as int) && answered(r, t, comms_changed(s, id, |v: CommsRow| sent(v, now))) },
            _ => false,
        },
        InfraRequest::MarkCommsFailed { id, error } => match reply {
            InfraReply::Done(r) => { exists|now: i64| #[trigger] is_timestamp(now as int) && answered(r, t, comms_changed(s, id, |v: CommsRow| attempted(v, error@, now))) },
            _ => false,
        },
        InfraRequest::MarkCommsFailedPermanent { id, error } => match reply {
            InfraReply::Done(r) => answered(r, t, comms_changed(s, id, |v: CommsRow| abandoned(v, error@))),
            _ => false,
        },
        InfraRequest::CreateInviteCode { code, use_count, for_account } => match reply {
            InfraReply::Flag(r) => { r is Ok && exists|now: i64| #[trigger] is_timestamp(now as int) && (r->Ok_0, t) == invite_created(s, new_invite(code@, use_count, for_account.deep_view(), None, now)) },
            _ => false,
        },
        InfraRequest::CreateInviteCodesBatch { codes, use_count, created_by_user, for_account } => match reply {
            InfraReply::Done(r) => { r is Ok && exists|now: i64| #[trigger] is_timestamp(now as int) && t == infra_committed(
                s,
                invite_writes(codes.deep_view(), use_count, for_account.deep_view(), created_by_user, now),
            ) },
            _ => false,
        },
        InfraRequest::GetInviteCodeAvailableUses { code } => match reply {
            InfraReply::Uses(r) => answered(r, t, (uses_left(s.infra.rows, code@), s)),
            _ => false,
        },
        InfraRequest::ValidateInviteCode { code } => match reply {
            InfraReply::Validated(r) => refusal(r) == invite_refusal(s.infra.rows, code@) && t == s,
            _ => false,
        },
        InfraRequest::DecrementInviteCodeUses { code } => match reply {
            InfraReply::Done(r) => answered(r, t, use_taken(s, code@)),
            _ => false,
        },
        InfraRequest::RecordInviteCodeUse { code, used_by_user } => match reply {
            InfraReply::Done(r) => { r is Ok && exists|now: i64| #[trigger] is_timestamp(now as int) && t == infra_committed(s, use_writes(code@, used_by_user, now)) },
            _ => false,
        },
        InfraRequest::GetInviteCodesForAccount { for_account } => match reply {
            InfraReply::Invites(r) => answered(r, t, (collect_all(invite_rows(s.infra.rows), |row: RowView| invite_for(row, for_account@, s.users.rows, s.user_hashes)), s)),
            _ => false,
        },
        InfraRequest::GetInviteCodeUses { code } => match reply {
            InfraReply::InviteUses(r) => answered(r, t, (uses_of_code(s, code@), s)),
            _ => false,
        },
        InfraRequest::DisableInviteCodesByCode { codes } => match reply {
            InfraReply::Done(r) => answered(r, t, committed_if_ok(s, collect_all(codes.deep_view(), |code: Seq<char>| disable_write(s.infra.rows, code)))),
            _ => false,
        },
        InfraRequest::DisableInviteCodesByAccount { accounts } => match reply {
            InfraReply::Done(r) => answered(r, t, committed_if_ok(s, collect_all(invite_rows(s.infra.rows), |row: RowView| account_disable_write(row, accounts.deep_view())))),
            _ => false,
        },
        InfraRequest::ListInviteCodes { cursor, limit, sort } => match reply {
            InfraReply::InviteList(r) => answered(r, t, (invite_listing(s.infra.rows, cursor.deep_view(), limit, sort), s)),
            _ => false,
        },
        InfraRequest::GetUserDidsByIds { user_ids } => match reply {
            InfraReply::UserDids(r) => answered(r, t, (collect_all(user_ids.deep_view(), |id: Uuid| user_did(id, s.users.rows, s.user_hashes)), s)),
            _ => false,
        },
        InfraRequest::GetInviteCodeUsesBatch { codes } => match reply {
            InfraReply::InviteUses(r) => answered(r, t, (uses_of_codes(s, codes.deep_view()), s)),
            _ => false,
        },
        InfraRequest::GetInvitesCreatedByUser { user_id } => match reply {
            InfraReply::Invites(r) => answered(r, t, (collect_all(invite_rows(s.infra.rows), |row: RowView| invite_made(row, user_id, s.users.rows, s.user_hashes)), s)),
            _ => false,
        },
        InfraRequest::GetInviteCodeInfo { code } => match reply {
            InfraReply::Invite(r) => answered(r, t, (info_of_code(s, code@), s)),
            _ => false,
        },
        InfraRequest::GetInviteCodesByUsers { user_ids } => match reply {
            InfraReply::UserInvites(r) => answered(r, t, (collect_all(invite_rows(s.infra.rows), |row: RowView| invite_by(row, user_ids@, s.users.rows, s.user_hashes)), s)),
            _ => false,
        },
        InfraRequest::GetInviteCodeUsedByUser { user_id } => match reply {
            InfraReply::Text(r) => answered(r, t, (code_used_by(s.infra.rows, user_id), s)),
            _ => false,
        },
        InfraRequest::DeleteInviteCodeUsesByUser { user_id } => match reply {
            InfraReply::Done(r) => answered(r, t, use_forgotten(s, user_id)),
            _ => false,
        },
        InfraRequest::DeleteInviteCodesByUser { user_id } => match reply {
            InfraReply::Done(r) => answered(r, t, invites_removed(s, user_id)),
            _ => false,
        },
        InfraRequest::ReserveSigningKey { did, public_key_did_key, private_key_bytes, expires_at } => match reply {
            InfraReply::Id(r) => { r is Ok && r->Ok_0.is_random() && exists|now: i64| #[trigger] is_timestamp(now as int) && t == infra_committed(
                s,
                signing_key_writes(
                    new_signing_key(
                        r->Ok_0,
                        did.deep_view(),
                        public_key_did_key@,
                        private_key_bytes@,
                        expires_at,
                        now,
                    ),
                ),
            ) },
            _ => false,
        },
        InfraRequest::GetReservedSigningKey { public_key_did_key } => match reply {
            InfraReply::SigningKey(r) => { exists|now: i64| #[trigger] is_timestamp(now as int) && answered(r, t, (usable_key(s.infra.rows, public_key_did_key@, now), s)) },
            _ => false,
        },
        InfraRequest::MarkSigningKeyUsed { key_id } => match reply {
            InfraReply::Done(r) => { exists|now: i64| #[trigger] is_timestamp(now as int) && answered(r, t, key_used(s, key_id, now)) },
            _ => false,
        },
        InfraRequest::CreateDeletionRequest { token, did, expires_at } => match reply {
            InfraReply::Done(r) => { r is Ok && exists|now: i64| #[trigger] is_timestamp(now as int) && t == infra_committed(
                s,
                deletion_writes(
                    DeletionRow {
                        token: token@,
                        did: did@,
                        created_at_ms: now,
                        expires_at_ms: expires_at,
                    },
                ),
            ) },
            _ => false,
        },
        InfraRequest::GetDeletionRequest { token } => match reply {
            InfraReply::Deletion(r) => answered(r, t, (deletion_with(s.infra.rows, token@), s)),
            _ => false,
        },
        InfraRequest::DeleteDeletionRequest { token } => match reply {
            InfraReply::Done(r) => answered(r, t, committed_if_ok(s, deletion_removals(s.infra.rows, token@))),
            _ => false,
        },
        InfraRequest::DeleteDeletionRequestsByDid { did } => match reply {
            InfraReply::Done(r) => answered(r, t, deletion_forgotten(s, did@)),
            _ => false,
        },
        InfraRequest::UpsertAccountPreference { user_id, name, value_json } => match reply {
            InfraReply::Preference { result, email_factor: change } => answered(
                result,
                t,
                pref_stored(s, user_id, name@, value_json@),
            ) && change == email_factor(name@, value_json@),
            _ => false,
        },
        InfraRequest::InsertAccountPreferenceIfNotExists { user_id, name, value_json } => match reply {
            InfraReply::Done(r) => answered(r, t, pref_inserted(s, user_id, name@, value_json@)),
            _ => false,
        },
        InfraRequest::GetServerConfig { key } => match reply {
            InfraReply::Text(r) => answered(r, t, (config_value(s.infra.rows, key@), s)),
            _ => false,
        },
        InfraRequest::InsertReport { id, reason_type, reason, subject_json, reported_by_did, created_at } => match reply {
            InfraReply::Done(r) => r is Ok && t == infra_committed(
                s,
                seq![
                    WriteView::Put {
                        key: report_key_bytes(id),
                        value: new_report(
                            id,
                            reason_type@,
                            reason.deep_view(),
                            subject_json@,
                            reported_by_did@,
                            created_at,
                        ).stored(),
                    },
                ],
            ),
            _ => false,
        },
        InfraRequest::DeletePlcTokensForUser { user_id } => match reply {
            InfraReply::Done(r) => answered(r, t, (Ok(()), infra_committed(s, row_removals(plc_rows(s.infra.rows, user_id))))),
            _ => false,
        },
        InfraRequest::InsertPlcToken { user_id, token, expires_at } => match reply {
            InfraReply::Done(r) => answered(r, t, (Ok(()), infra_committed(s, seq![WriteView::Put { key: plc_key(user_id, token@), value: be8(signed_bits(expires_at)) }]))),
            _ => false,
        },
        InfraRequest::GetPlcTokenExpiry { user_id, token } => match reply {
            InfraReply::Time(r) => answered(r, t, (plc_expiry(s.infra.rows, user_id, token@), s)),
            _ => false,
        },
        InfraRequest::DeletePlcToken { user_id, token } => match reply {
            InfraReply::Done(r) => answered(r, t, (Ok(()), infra_committed(s, seq![WriteView::Remove { key: plc_key(user_id, token@) }]))),
            _ => false,
        },
        InfraRequest::GetAccountPreferences { user_id } => match reply {
            InfraReply::Preferences(r) => answered(r, t, (collect_all(pref_rows(s.infra.rows, user_id), |row: RowView| preference(row)), s)),
            _ => false,
        },
        InfraRequest::ReplaceNamespacePreferences { user_id, namespace, preferences } => match reply {
            InfraReply::Done(r) => answered(r, t, committed_if_ok(s, replacement(s.infra.rows, user_id, namespace@, preferences.deep_view()))),
            _ => false,
        },
        InfraRequest::GetNotificationHistory { user_id, limit } => match reply {
            InfraReply::History(r) => answered(r, t, (collect(history_rows(s.infra.rows, user_id), |row: RowView| history_entry(row), count_limit(limit)), s)),
            _ => false,
        },
        InfraRequest::GetServerConfigs { keys } => match reply {
            InfraReply::Settings(r) => answered(r, t, (collect_all(keys.deep_view(), |name: Seq<char>| named_config(s.infra.rows, name)), s)),
            _ => false,
        },
        InfraRequest::UpsertServerConfig { key, value } => match reply {
            InfraReply::Done(r) => answered(r, t, (Ok(()), infra_committed(s, seq![WriteView::Put { key: config_key(key@), value: encode_utf8(value@) }]))),
            _ => false,
        },
        InfraRequest::DeleteServerConfig { key } => match reply {
            InfraReply::Done(r) => answered(r, t, (Ok(()), infra_committed(s, seq![WriteView::Remove { key: config_key(key@) }]))),
            _ => false,
        },
        InfraRequest::GetBlobStorageKeyByCid { cid } => match reply {
            InfraReply::Text(r) => answered(r, t, (blob_storage(s.repo_data.rows, cid@), s)),
            _ => false,
        },
        InfraRequest::DeleteBlobByCid { cid } => match reply {
            InfraReply::Done(r) => answered(r, t, blob_forgotten(s, cid@)),
            _ => false,
        },
        InfraRequest::GetAdminAccountInfoByDid { did } => match reply {
            InfraReply::AdminAccount(r) => answered(r, t, (admin_account_of(s.users.rows, did@), s)),
            _ => false,
        },
        InfraRequest::GetAdminAccountInfosByDids { dids } => match reply {
            InfraReply::AdminAccounts(r) => answered(r, t, (collect_all(dids.deep_view(), |did: Seq<char>| admin_account_of(s.users.rows, did)), s)),
            _ => false,
        },
        InfraRequest::GetInviteCodeUsesByUsers { user_ids } => match reply {
            InfraReply::UserCodes(r) => answered(r, t, (collect_all(user_ids.deep_view(), |id: Uuid| user_code(id, s.infra.rows)), s)),
            _ => false,
        },
        InfraRequest::GetDeletionRequestByDid { did } => match reply {
            InfraReply::DeletionWithToken(r) => { if deletion_well_formed(s.infra.rows, did@) {
                answered(r, t, (deletion_of(s.infra.rows, did@), s))
            } else {
                r is Err && r->Err_0@ == reply_lost() && t == s
            } },
            _ => false,
        },
        InfraRequest::GetLatestCommsForUser { user_id, comms_type, limit } => match reply {
            InfraReply::Messages(r) => answered(r, t, (first_latest(s.infra.rows, user_id, comms_type, limit), s)),
            _ => false,
        },
        InfraRequest::CountCommsByType { user_id, comms_type } => match reply {
            InfraReply::Number(r) => answered(r, t, (message_count(s.infra.rows, user_id, comms_type), s)),
            _ => false,
        },
        InfraRequest::DeleteCommsByTypeForUser { user_id, comms_type } => match reply {
            InfraReply::Count(r) => answered(r, t, messages_removed(s, user_id, comms_type)),
            _ => false,
        },
        InfraRequest::ExpireDeletionRequest { token } => match reply {
            InfraReply::Done(r) => { exists|now: i64| #[trigger] is_timestamp(now as int) && answered(r, t, deletion_expired(s, token@, now)) },
            _ => false,
        },
        InfraRequest::GetReservedSigningKeyFull { public_key_did_key } => match reply {
            InfraReply::SigningKeyFull(r) => answered(r, t, (full_key_of(s.infra.rows, public_key_did_key@), s)),
            _ => false,
        },
        InfraRequest::GetPlcTokensByDid { did } => match reply {
            InfraReply::PlcTokens(r) => answered(r, t, (tokens_of(s.infra.rows, Ok(id_with_did(s.users.rows, did@))), s)),
            _ => false,
        },
        InfraRequest::CountPlcTokensByDid { did } => match reply {
            InfraReply::Number(r) => answered(r, t, (token_count_of(s.infra.rows, Ok(id_with_did(s.users.rows, did@))), s)),
            _ => false,
        },
    }
}

pub(crate) fn did_ref(d: &Option<Did>) -> (r: Option<&Did>)
    ensures
        optional_ref(r) == d.deep_view(),
{
    match d {
        Some(d) => Some(d),
        None => None,
    }
}

pub(crate) fn text_ref(t: &Option<String>) -> (r: Option<&str>)
    ensures
        optional_text(r) == t.deep_view(),
{
    match t {
        Some(t) => Some(t.as_str()),
        None => None,
    }
}

pub(crate) fn bytes_ref(b: &Option<Vec<u8>>) -> (r: Option<&[u8]>)
    ensures
        json_bytes(r) == b.deep_view(),
{
    match b {
        Some(b) => {
            assert(b.deep_view() =~= b@);
            Some(b.as_slice())
        },
        None => None,
    }
}

fn text_refs(texts: &Vec<String>) -> (r: Vec<&str>)
    ensures
        r.deep_view() == texts.deep_view(),
{
    let mut out: Vec<&str> = Vec::new();
    let mut i: usize = 0;
    while i < texts.len()
        invariant
            i <= texts@.len(),
            out@.len() == i,
            forall|k: int| 0 <= k < i ==> (#[trigger] out@[k])@ == texts@[k]@,
        decreases texts.len() - i,
    {
        out.push(texts[i].as_str());
        i = i + 1;
    }
    assert(out.deep_view() =~= texts.deep_view());
    out
}

/// Answers a request about account infrastructure.
#[verifier::rlimit(50)]
pub fn dispatch_infra(ops: &mut InfraOps<'_>, request: InfraRequest) -> (reply: InfraReply)
    ensures
        infra_answer(old(ops)@, request, reply, final(ops)@),
        *final(final(ops).store) == *final(old(ops).store),
{
    match request {
        InfraRequest::EnqueueComms { user_id, channel, comms_type, recipient, subject, body, metadata } => InfraReply::Id(
            to_db(
                ops.enqueue_comms(
                    user_id,
                    channel,
                    comms_type,
                    recipient.as_str(),
                    text_ref(&subject),
                    body.as_str(),
                    bytes_ref(&metadata),
                ),
            ),
        ),
        InfraRequest::FetchPendingComms { now, batch_size } => InfraReply::Messages(
            to_db(ops.fetch_pending_comms(now, batch_size)),
        ),
        InfraRequest::MarkCommsSent { id } => InfraReply::Done(
            to_db(ops.mark_comms_sent(id)),
        ),
        InfraRequest::MarkCommsFailed { id, error } => InfraReply::Done(
            to_db(ops.mark_comms_failed(id, error.as_str())),
        ),
        InfraRequest::MarkCommsFailedPermanent { id, error } => InfraReply::Done(
            to_db(ops.mark_comms_failed_permanent(id, error.as_str())),
        ),
        InfraRequest::CreateInviteCode { code, use_count, for_account } => InfraReply::Flag(
            to_db(ops.create_invite_code(code.as_str(), use_count, did_ref(&for_account))),
        ),
        InfraRequest::CreateInviteCodesBatch { codes, use_count, created_by_user, for_account } => InfraReply::Done(
            to_db(
                ops.create_invite_codes_batch(
                    codes.as_slice(),
                    use_count,
                    created_by_user,
                    did_ref(&for_account),
                ),
            ),
        ),
        InfraRequest::GetInviteCodeAvailableUses { code } => InfraReply::Uses(
            to_db(ops.get_invite_code_available_uses(code.as_str())),
        ),
        InfraRequest::ValidateInviteCode { code } => InfraReply::Validated(
            match ops.validate_invite_code(code.as_str()) {
                Ok(_) => Ok(()),
                Err(e) => Err(e),
            },
        ),
        InfraRequest::DecrementInviteCodeUses { code } => InfraReply::Done(
            to_db(ops.decrement_invite_code_uses(&ValidatedInviteCode::new_validated(code.as_str()))),
        ),
        InfraRequest::RecordInviteCodeUse { code, used_by_user } => InfraReply::Done(
            to_db(
                ops.record_invite_code_use(
                    &ValidatedInviteCode::new_validated(code.as_str()),
                    used_by_user,
                ),
            ),
        ),
        InfraRequest::GetInviteCodesForAccount { for_account } => InfraReply::Invites(
            to_db(ops.get_invite_codes_for_account(&for_account)),
        ),
        InfraRequest::GetInviteCodeUses { code } => InfraReply::InviteUses(
            to_db(ops.get_invite_code_uses(code.as_str())),
        ),
        InfraRequest::DisableInviteCodesByCode { codes } => InfraReply::Done(
            to_db(ops.disable_invite_codes_by_code(codes.as_slice())),
        ),
        InfraRequest::DisableInviteCodesByAccount { accounts } => InfraReply::Done(
            to_db(ops.disable_invite_codes_by_account(accounts.as_slice())),
        ),
        InfraRequest::ListInviteCodes { cursor, limit, sort } => InfraReply::InviteList(
            to_db(ops.list_invite_codes(text_ref(&cursor), limit, sort)),
        ),
        InfraRequest::GetUserDidsByIds { user_ids } => InfraReply::UserDids(
            to_db(ops.get_user_dids_by_ids(user_ids.as_slice())),
        ),
        InfraRequest::GetInviteCodeUsesBatch { codes } => InfraReply::InviteUses(
            to_db(ops.get_invite_code_uses_batch(codes.as_slice())),
        ),
        InfraRequest::GetInvitesCreatedByUser { user_id } => InfraReply::Invites(
            to_db(ops.get_invites_created_by_user(user_id)),
        ),
        InfraRequest::GetInviteCodeInfo { code } => InfraReply::Invite(
            to_db(ops.get_invite_code_info(code.as_str())),
        ),
        InfraRequest::GetInviteCodesByUsers { user_ids } => InfraReply::UserInvites(
            to_db(ops.get_invite_codes_by_users(user_ids.as_slice())),
        ),
        InfraRequest::GetInviteCodeUsedByUser { user_id } => InfraReply::Text(
            to_db(ops.get_invite_code_used_by_user(user_id)),
        ),
        InfraRequest::DeleteInviteCodeUsesByUser { user_id } => InfraReply::Done(
            to_db(ops.delete_invite_code_uses_by_user(user_id)),
        ),
        InfraRequest::DeleteInviteCodesByUser { user_id } => InfraReply::Done(
            to_db(ops.delete_invite_codes_by_user(user_id)),
        ),
        InfraRequest::ReserveSigningKey { did, public_key_did_key, private_key_bytes, expires_at } => InfraReply::Id(
            to_db(
                ops.reserve_signing_key(
                    did_ref(&did),
                    public_key_did_key.as_str(),
                    private_key_bytes.as_slice(),
                    expires_at,
                ),
            ),
        ),
        InfraRequest::GetReservedSigningKey { public_key_did_key } => InfraReply::SigningKey(
            to_db(ops.get_reserved_signing_key(public_key_did_key.as_str())),
        ),
        InfraRequest::MarkSigningKeyUsed { key_id } => InfraReply::Done(
            to_db(ops.mark_signing_key_used(key_id)),
        ),
        InfraRequest::CreateDeletionRequest { token, did, expires_at } => InfraReply::Done(
            to_db(ops.create_deletion_request(token.as_str(), &did, expires_at)),
        ),
        InfraRequest::GetDeletionRequest { token } => InfraReply::Deletion(
            to_db(ops.get_deletion_request(token.as_str())),
        ),
        InfraRequest::DeleteDeletionRequest { token } => InfraReply::Done(
            to_db(ops.delete_deletion_request(token.as_str())),
        ),
        InfraRequest::DeleteDeletionRequestsByDid { did } => InfraReply::Done(
            to_db(ops.delete_deletion_requests_by_did(&did)),
        ),
        InfraRequest::UpsertAccountPreference { user_id, name, value_json } => {
            let email_factor: Option<bool> = email_factor_change(
                name.as_str(),
                value_json.as_slice(),
            );
            let result: Result<(), DbError> = to_db(
                ops.upsert_account_preference(user_id, name.as_str(), value_json.as_slice()),
            );
            InfraReply::Preference { result, email_factor }
        },
        InfraRequest::InsertAccountPreferenceIfNotExists { user_id, name, value_json } => InfraReply::Done(
            to_db(ops.insert_account_preference_if_not_exists(user_id, name.as_str(), value_json.as_slice())),
        ),
        InfraRequest::GetServerConfig { key } => InfraReply::Text(
            to_db(ops.get_server_config(key.as_str())),
        ),
        InfraRequest::InsertReport { id, reason_type, reason, subject_json, reported_by_did, created_at } => InfraReply::Done(
            to_db(
                ops.insert_report(
                    id,
                    reason_type.as_str(),
                    text_ref(&reason),
                    subject_json.as_slice(),
                    &reported_by_did,
                    created_at,
                ),
            ),
        ),
        InfraRequest::DeletePlcTokensForUser { user_id } => InfraReply::Done(
            to_db(ops.delete_plc_tokens_for_user(user_id)),
        ),
        InfraRequest::InsertPlcToken { user_id, token, expires_at } => InfraReply::Done(
            to_db(ops.insert_plc_token(user_id, token.as_str(), expires_at)),
        ),
        InfraRequest::GetPlcTokenExpiry { user_id, token } => InfraReply::Time(
            to_db(ops.get_plc_token_expiry(user_id, token.as_str())),
        ),
        InfraRequest::DeletePlcToken { user_id, token } => InfraReply::Done(
            to_db(ops.delete_plc_token(user_id, token.as_str())),
        ),
        InfraRequest::GetAccountPreferences { user_id } => InfraReply::Preferences(
            to_db(ops.get_account_preferences(user_id)),
        ),
        InfraRequest::ReplaceNamespacePreferences { user_id, namespace, preferences } => InfraReply::Done(
            to_db(ops.replace_namespace_preferences(user_id, namespace.as_str(), preferences)),
        ),
        InfraRequest::GetNotificationHistory { user_id, limit } => InfraReply::History(
            to_db(ops.get_notification_history(user_id, limit)),
        ),
        InfraRequest::GetServerConfigs { keys } => InfraReply::Settings(
            {
                let refs: Vec<&str> = text_refs(&keys);
                to_db(ops.get_server_configs(refs.as_slice()))
            },
        ),
        InfraRequest::UpsertServerConfig { key, value } => InfraReply::Done(
            to_db(ops.upsert_server_config(key.as_str(), value.as_str())),
        ),
        InfraRequest::DeleteServerConfig { key } => InfraReply::Done(
            to_db(ops.delete_server_config(key.as_str())),
        ),
        InfraRequest::GetBlobStorageKeyByCid { cid } => InfraReply::Text(
            to_db(ops.get_blob_storage_key_by_cid(cid.as_str())),
        ),
        InfraRequest::DeleteBlobByCid { cid } => InfraReply::Done(
            to_db(ops.delete_blob_by_cid(cid.as_str())),
        ),
        InfraRequest::GetAdminAccountInfoByDid { did } => InfraReply::AdminAccount(
            to_db(ops.get_admin_account_info_by_did(&did)),
        ),
        InfraRequest::GetAdminAccountInfosByDids { dids } => InfraReply::AdminAccounts(
            to_db(ops.get_admin_account_infos_by_dids(dids.as_slice())),
        ),
        InfraRequest::GetInviteCodeUsesByUsers { user_ids } => InfraReply::UserCodes(
            to_db(ops.get_invite_code_uses_by_users(user_ids.as_slice())),
        ),
        InfraRequest::GetDeletionRequestByDid { did } => InfraReply::DeletionWithToken(
            if ops.deletion_request_is_well_formed(&did) {
                to_db(ops.get_deletion_request_by_did(&did))
            } else {
                Err(lost_reply_error())
            },
        ),
        InfraRequest::GetLatestCommsForUser { user_id, comms_type, limit } => InfraReply::Messages(
            to_db(ops.get_latest_comms_for_user(user_id, comms_type, limit)),
        ),
        InfraRequest::CountCommsByType { user_id, comms_type } => InfraReply::Number(
            to_db(ops.count_comms_by_type(user_id, comms_type)),
        ),
        InfraRequest::DeleteCommsByTypeForUser { user_id, comms_type } => InfraReply::Count(
            to_db(ops.delete_comms_by_type_for_user(user_id, comms_type)),
        ),
        InfraRequest::ExpireDeletionRequest { token } => InfraReply::Done(
            to_db(ops.expire_deletion_request(token.as_str())),
        ),
        InfraRequest::GetReservedSigningKeyFull { public_key_did_key } => InfraReply::SigningKeyFull(
            to_db(ops.get_reserved_signing_key_full(public_key_did_key.as_str())),
        ),
        InfraRequest::GetPlcTokensByDid { did } => InfraReply::PlcTokens(
            ops.get_plc_tokens_of(Ok(user_with_did(&ops.store.users, &did))),
        ),
        InfraRequest::CountPlcTokensByDid { did } => InfraReply::Number(
            ops.count_plc_tokens_of(Ok(user_with_did(&ops.store.users, &did))),
        ),
    }
}

} // verus!
