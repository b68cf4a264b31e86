//! How the values that clients hand in and are given stand for what contracts say of them.

use vstd::prelude::*;

use crate::account_ops::{AdminAccountInfo, DeletionRequest, DeletionRequestWithToken};
use crate::account_ops::{PlcTokenInfo, ReservedSigningKey, ReservedSigningKeyFull};
use crate::backlinks::BacklinkMutation;
use crate::commit_ops::{ApplyCommitInput, Backlink, ImportBlock, ImportRecord, RecordUpsert};
use crate::commit_ops::{UserNeedingRecordBlobsBackfill, UserWithoutBlocks};
use crate::comms_ops::{NotificationHistoryRow, QueuedComms};
use crate::delegation_ops::{AuditLogEntry, ControllerInfo, DelegatedAccountInfo, DelegationGrant};
use crate::events::{CommitEventData, EventBlockInline, SequencedEvent};
use crate::invite_ops::{InviteCodeInfo, InviteCodeRow, InviteCodeUse};
use crate::purge::{RepoListEntry, RepoListItem};
use crate::records::{RecordMutationDelete, RecordMutationUpsert};
use crate::repo_ops::RepoInfo;

verus! {

/// What contracts say of a reserved key is said of its fields, each under its own name.
pub proof fn reserved_key_is_viewed(x: ReservedSigningKey)
    ensures
        x.deep_view().id == x.id,
        x.deep_view().private_key_bytes == x.private_key_bytes.deep_view(),
{
}

/// What contracts say of a reserved key in full is said of its fields, each under its own name.
pub proof fn full_key_is_viewed(x: ReservedSigningKeyFull)
    ensures
        x.deep_view().id == x.id,
        x.deep_view().did == x.did.deep_view(),
        x.deep_view().public_key_did_key == x.public_key_did_key@,
        x.deep_view().private_key_bytes == x.private_key_bytes.deep_view(),
        x.deep_view().expires_at == x.expires_at,
        x.deep_view().used_at == x.used_at,
{
}

/// What contracts say of a deletion request is said of its fields, each under its own name.
pub proof fn deletion_request_is_viewed(x: DeletionRequest)
    ensures
        x.deep_view().did == x.did.deep_view(),
        x.deep_view().expires_at == x.expires_at,
{
}

/// What contracts say of a deletion request with its token is said of its fields, each under its own name.
pub proof fn deletion_request_with_token_is_viewed(x: DeletionRequestWithToken)
    ensures
        x.deep_view().token == x.token@,
        x.deep_view().did == x.did.deep_view(),
        x.deep_view().expires_at == x.expires_at,
{
}

/// What contracts say of a token is said of its fields, each under its own name.
pub proof fn token_is_viewed(x: PlcTokenInfo)
    ensures
        x.deep_view().token == x.token@,
        x.deep_view().expires_at == x.expires_at,
{
}

/// What contracts say of an account is said of its fields, each under its own name.
pub proof fn account_is_viewed(x: AdminAccountInfo)
    ensures
        x.deep_view().id == x.id,
        x.deep_view().did == x.did.deep_view(),
        x.deep_view().handle == x.handle.deep_view(),
        x.deep_view().email == x.email.deep_view(),
        x.deep_view().created_at == x.created_at,
        x.deep_view().invites_disabled == x.invites_disabled,
        x.deep_view().email_verified == x.email_verified,
        x.deep_view().deactivated_at == x.deactivated_at,
{
}

/// What contracts say of a link is said of its fields, each under its own name.
pub proof fn link_is_viewed(x: BacklinkMutation)
    ensures
        x.deep_view().uri == x.uri@,
        x.deep_view().path == x.path,
        x.deep_view().link_to == x.link_to@,
{
}

/// What contracts say of a record that is written is said of its fields, each under its own name.
pub proof fn record_upsert_is_viewed(x: RecordUpsert)
    ensures
        x.deep_view().collection == x.collection@,
        x.deep_view().rkey == x.rkey@,
        x.deep_view().cid == x.cid.deep_view(),
{
}

/// What contracts say of a link that is added is said of its fields, each under its own name.
pub proof fn added_link_is_viewed(x: Backlink)
    ensures
        x.deep_view().uri == x.uri@,
        x.deep_view().path == x.path,
        x.deep_view().link_to == x.link_to@,
{
}

/// What contracts say of a commit is said of its fields, each under its own name.
pub proof fn commit_is_viewed(x: ApplyCommitInput)
    ensures
        x.deep_view().user_id == x.user_id,
        x.deep_view().did == x.did.deep_view(),
        x.deep_view().expected_root_cid == x.expected_root_cid.deep_view(),
        x.deep_view().new_root_cid == x.new_root_cid.deep_view(),
        x.deep_view().new_rev == x.new_rev@,
        x.deep_view().new_block_cids == x.new_block_cids.deep_view(),
        x.deep_view().obsolete_block_cids == x.obsolete_block_cids.deep_view(),
        x.deep_view().record_upserts == x.record_upserts.deep_view(),
        x.deep_view().record_deletes == x.record_deletes.deep_view(),
        x.deep_view().backlinks_to_add == x.backlinks_to_add.deep_view(),
        x.deep_view().backlinks_to_remove == x.backlinks_to_remove.deep_view(),
        x.deep_view().commit_event == x.commit_event.deep_view(),
{
}

/// What contracts say of a block is said of its fields, each under its own name.
pub proof fn block_is_viewed(x: ImportBlock)
    ensures
        x.deep_view().cid_bytes == x.cid_bytes.deep_view(),
        x.deep_view().data == x.data.deep_view(),
{
}

/// What contracts say of an imported record is said of its fields, each under its own name.
pub proof fn imported_record_is_viewed(x: ImportRecord)
    ensures
        x.deep_view().collection == x.collection@,
        x.deep_view().rkey == x.rkey@,
        x.deep_view().record_cid == x.record_cid.deep_view(),
{
}

/// What contracts say of a user who is to be searched for blobs is said of its fields, each under its own name.
pub proof fn blobless_user_is_viewed(x: UserNeedingRecordBlobsBackfill)
    ensures
        x.deep_view().user_id == x.user_id,
        x.deep_view().did == x.did.deep_view(),
{
}

/// What contracts say of a user without blocks is said of its fields, each under its own name.
pub proof fn blockless_user_is_viewed(x: UserWithoutBlocks)
    ensures
        x.deep_view().user_id == x.user_id,
        x.deep_view().repo_root_cid == x.repo_root_cid.deep_view(),
        x.deep_view().repo_rev == x.repo_rev.deep_view(),
{
}

/// What contracts say of a message is said of its fields, each under its own name.
pub proof fn message_is_viewed(x: QueuedComms)
    ensures
        x.deep_view().id == x.id,
        x.deep_view().user_id == x.user_id,
        x.deep_view().channel == x.channel,
        x.deep_view().comms_type == x.comms_type,
        x.deep_view().status == x.status,
        x.deep_view().recipient == x.recipient@,
        x.deep_view().subject == x.subject.deep_view(),
        x.deep_view().body == x.body@,
        x.deep_view().metadata == x.metadata.deep_view(),
        x.deep_view().attempts == x.attempts,
        x.deep_view().max_attempts == x.max_attempts,
        x.deep_view().last_error == x.last_error.deep_view(),
        x.deep_view().created_at == x.created_at,
        x.deep_view().updated_at == x.updated_at,
        x.deep_view().scheduled_for == x.scheduled_for,
        x.deep_view().processed_at == x.processed_at,
{
}

/// What contracts say of an entry of a history is said of its fields, each under its own name.
pub proof fn history_entry_is_viewed(x: NotificationHistoryRow)
    ensures
        x.deep_view().created_at == x.created_at,
        x.deep_view().channel == x.channel,
        x.deep_view().comms_type == x.comms_type,
        x.deep_view().status == x.status,
        x.deep_view().subject == x.subject.deep_view(),
        x.deep_view().body == x.body@,
{
}

/// What contracts say of a grant is said of its fields, each under its own name.
pub proof fn grant_is_viewed(x: DelegationGrant)
    ensures
        x.deep_view().id == x.id,
        x.deep_view().delegated_did == x.delegated_did.deep_view(),
        x.deep_view().controller_did == x.controller_did.deep_view(),
        x.deep_view().granted_scopes == x.granted_scopes.deep_view(),
        x.deep_view().granted_at == x.granted_at,
        x.deep_view().granted_by == x.granted_by.deep_view(),
        x.deep_view().revoked_at == x.revoked_at,
        x.deep_view().revoked_by == x.revoked_by.deep_view(),
{
}

/// What contracts say of a controller is said of its fields, each under its own name.
pub proof fn controller_is_viewed(x: ControllerInfo)
    ensures
        x.deep_view().did == x.did.deep_view(),
        x.deep_view().handle == x.handle.deep_view(),
        x.deep_view().granted_scopes == x.granted_scopes.deep_view(),
        x.deep_view().granted_at == x.granted_at,
        x.deep_view().is_active == x.is_active,
        x.deep_view().is_local == x.is_local,
{
}

/// What contracts say of a controlled account is said of its fields, each under its own name.
pub proof fn controlled_account_is_viewed(x: DelegatedAccountInfo)
    ensures
        x.deep_view().did == x.did.deep_view(),
        x.deep_view().handle == x.handle.deep_view(),
        x.deep_view().granted_scopes == x.granted_scopes.deep_view(),
        x.deep_view().granted_at == x.granted_at,
{
}

/// What contracts say of an entry of the audit log is said of its fields, each under its own name.
pub proof fn audit_entry_is_viewed(x: AuditLogEntry)
    ensures
        x.deep_view().id == x.id,
        x.deep_view().delegated_did == x.delegated_did.deep_view(),
        x.deep_view().actor_did == x.actor_did.deep_view(),
        x.deep_view().controller_did == x.controller_did.deep_view(),
        x.deep_view().action_type == x.action_type,
        x.deep_view().action_details == x.action_details.deep_view(),
        x.deep_view().ip_address == x.ip_address.deep_view(),
        x.deep_view().user_agent == x.user_agent.deep_view(),
        x.deep_view().created_at == x.created_at,
{
}

/// What contracts say of a block of an event is said of its fields, each under its own name.
pub proof fn event_block_is_viewed(x: EventBlockInline)
    ensures
        x.deep_view().cid_bytes == x.cid_bytes.deep_view(),
        x.deep_view().data == x.data.deep_view(),
{
}

/// What contracts say of an event is said of its fields, each under its own name.
pub proof fn event_is_viewed(x: SequencedEvent)
    ensures
        x.deep_view().seq == x.seq.deep_view(),
        x.deep_view().did == x.did.deep_view(),
        x.deep_view().created_at == x.created_at,
        x.deep_view().event_type == x.event_type,
        x.deep_view().commit_cid == x.commit_cid.deep_view(),
        x.deep_view().prev_cid == x.prev_cid.deep_view(),
        x.deep_view().prev_data_cid == x.prev_data_cid.deep_view(),
        x.deep_view().ops == x.ops.deep_view(),
        x.deep_view().blobs == x.blobs.deep_view(),
        x.deep_view().blocks == x.blocks.deep_view(),
        x.deep_view().handle == x.handle.deep_view(),
        x.deep_view().active == x.active,
        x.deep_view().status == x.status,
        x.deep_view().rev == x.rev.deep_view(),
{
}

/// What contracts say of the event of a commit is said of its fields, each under its own name.
pub proof fn commit_event_is_viewed(x: CommitEventData)
    ensures
        x.deep_view().did == x.did.deep_view(),
        x.deep_view().event_type == x.event_type,
        x.deep_view().commit_cid == x.commit_cid.deep_view(),
        x.deep_view().prev_cid == x.prev_cid.deep_view(),
        x.deep_view().ops == x.ops.deep_view(),
        x.deep_view().blobs == x.blobs.deep_view(),
        x.deep_view().blocks == x.blocks.deep_view(),
        x.deep_view().prev_data_cid == x.prev_data_cid.deep_view(),
        x.deep_view().rev == x.rev.deep_view(),
{
}

/// What contracts say of an invite code is said of its fields, each under its own name.
pub proof fn invite_code_is_viewed(x: InviteCodeInfo)
    ensures
        x.deep_view().code == x.code@,
        x.deep_view().available_uses == x.available_uses,
        x.deep_view().state == x.state,
        x.deep_view().for_account == x.for_account.deep_view(),
        x.deep_view().created_at == x.created_at,
        x.deep_view().created_by == x.created_by.deep_view(),
{
}

/// What contracts say of a use of an invite code is said of its fields, each under its own name.
pub proof fn invite_use_is_viewed(x: InviteCodeUse)
    ensures
        x.deep_view().code == x.code@,
        x.deep_view().used_by_did == x.used_by_did.deep_view(),
        x.deep_view().used_by_handle == x.used_by_handle.deep_view(),
        x.deep_view().used_at == x.used_at,
{
}

/// What contracts say of a listed invite code is said of its fields, each under its own name.
pub proof fn listed_code_is_viewed(x: InviteCodeRow)
    ensures
        x.deep_view().code == x.code@,
        x.deep_view().available_uses == x.available_uses,
        x.deep_view().disabled == x.disabled,
        x.deep_view().created_by_user == x.created_by_user,
        x.deep_view().created_at == x.created_at,
{
}

/// What contracts say of a repository before it is listed is said of its fields, each under its own name.
pub proof fn repo_entry_is_viewed(x: RepoListEntry)
    ensures
        x.deep_view().did == x.did.deep_view(),
        x.deep_view().deactivated_at == x.deactivated_at,
        x.deep_view().takedown_ref == x.takedown_ref.deep_view(),
        x.deep_view().repo_root_cid == x.repo_root_cid@,
        x.deep_view().repo_rev == x.repo_rev.deep_view(),
{
}

/// What contracts say of a listed repository is said of its fields, each under its own name.
pub proof fn listed_repo_is_viewed(x: RepoListItem)
    ensures
        x.deep_view().did == x.did@,
        x.deep_view().deactivated_at == x.deactivated_at,
        x.deep_view().takedown_ref == x.takedown_ref.deep_view(),
        x.deep_view().repo_root_cid == x.repo_root_cid@,
        x.deep_view().repo_rev == x.repo_rev.deep_view(),
{
}

/// What contracts say of a stored record is said of its fields, each under its own name.
pub proof fn record_put_is_viewed(x: RecordMutationUpsert)
    ensures
        x.deep_view().collection == x.collection@,
        x.deep_view().rkey == x.rkey@,
        x.deep_view().cid_bytes == x.cid_bytes.deep_view(),
{
}

/// What contracts say of a deleted record is said of its fields, each under its own name.
pub proof fn record_key_is_viewed(x: RecordMutationDelete)
    ensures
        x.deep_view().collection == x.collection@,
        x.deep_view().rkey == x.rkey@,
{
}

/// What contracts say of a repository is said of its fields, each under its own name.
pub proof fn repo_is_viewed(x: RepoInfo)
    ensures
        x.deep_view().user_id == x.user_id,
        x.deep_view().repo_root_cid == x.repo_root_cid.deep_view(),
        x.deep_view().repo_rev == x.repo_rev.deep_view(),
{
}

} // verus!
