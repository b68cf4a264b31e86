//! Which requests are handled one after the other.

use vstd::prelude::*;
use vstd::utf8::encode_utf8;

use crate::keys::{did_hash, siphash24};
use crate::requests::{BacklinkRequest, BlobRequest, CommitRequest, DelegationRequest, EventRequest};
use crate::requests::{InfraRequest, OAuthRequest, RecordRequest, RepoRequest};
use crate::requests::{SessionRequest, SsoRequest, UserBlockRequest, UserRequest};
use crate::routing::{route, Routing, Subject};
use crate::types::Uuid;
use crate::user_hash::{hash_of, UserHashes};

verus! {

/// A request about an account goes by the hash of its DID, one about a known user by the user's
/// hash, and one about a blob by the hash of its identifier; any handler takes one about nothing
/// in particular.
pub proof fn subjects_are_routed(hashes: UserHashes, did: Seq<char>, id: Uuid, cid: Seq<char>)
    ensures
        route(Subject::Account(did), hashes) == Routing::Sharded(did_hash(did)),
        hash_of(hashes, id) matches Some(h) ==> route(Subject::User(id), hashes)
            == Routing::Sharded(h),
        route(Subject::User(id), hashes) is Sharded,
        route(Subject::Content(cid), hashes) == Routing::Sharded(
            siphash24(encode_utf8(cid).push(0xFF)),
        ),
        route(Subject::Anything, hashes) is Global,
{
}

/// The request goes where those about the account go.
pub open spec fn with_account(routing: Routing, did: Seq<char>) -> bool {
    routing == Routing::Sharded(did_hash(did))
}

/// The request goes where those about the user go.
pub open spec fn with_user(routing: Routing, hashes: UserHashes, id: Uuid) -> bool {
    &&& hash_of(hashes, id) matches Some(h) ==> routing == Routing::Sharded(h)
    &&& hash_of(hashes, id) is None ==> routing == Routing::Sharded(
        (id.bits as nat % 0x1_0000_0000_0000_0000) as u64,
    )
}

/// The request goes where those about the blob go.
pub open spec fn with_blob(routing: Routing, cid: Seq<char>) -> bool {
    routing == Routing::Sharded(siphash24(encode_utf8(cid).push(0xFF)))
}

/// Requests about repositories go to the handler of the account, the user or the blob that they
/// name; the others go to any.
pub proof fn repo_requests_are_routed(request: RepoRequest, hashes: UserHashes)
    ensures
        request matches RepoRequest::CreateRepoFull { did, .. } ==> (
        with_account(route(request.subject(), hashes), did@)),
        request matches RepoRequest::GetRepoRootByDid { did, .. } ==> (
        with_account(route(request.subject(), hashes), did@)),
        request matches RepoRequest::GetAccountWithRepo { did, .. } ==> (
        with_account(route(request.subject(), hashes), did@)),
        request matches RepoRequest::UpdateRepoStatus { did, .. } ==> (
        with_account(route(request.subject(), hashes), did@)),
        request matches RepoRequest::UpdateRepoRoot { user_id, .. } ==> (
        with_user(route(request.subject(), hashes), hashes, user_id)),
        request matches RepoRequest::UpdateRepoRev { user_id, .. } ==> (
        with_user(route(request.subject(), hashes), hashes, user_id)),
        request matches RepoRequest::DeleteRepo { user_id, .. } ==> (
        with_user(route(request.subject(), hashes), hashes, user_id)),
        request matches RepoRequest::GetRepoRootForUpdate { user_id, .. } ==> (
        with_user(route(request.subject(), hashes), hashes, user_id)),
        request matches RepoRequest::GetRepo { user_id, .. } ==> (
        with_user(route(request.subject(), hashes), hashes, user_id)),
        request matches RepoRequest::GetRepoRootCidByUserId { user_id, .. } ==> (
        with_user(route(request.subject(), hashes), hashes, user_id)),
        request is CountRepos ==> route(request.subject(), hashes) is Global,
        request is GetReposWithoutRev ==> route(request.subject(), hashes) is Global,
        request is ListReposPaginated ==> route(request.subject(), hashes) is Global,
{
}

/// Requests about records go to the handler of the account, the user or the blob that they
/// name; the others go to any.
pub proof fn record_requests_are_routed(request: RecordRequest, hashes: UserHashes)
    ensures
        request matches RecordRequest::UpsertRecords { repo_id: user_id, .. } ==> (
        with_user(route(request.subject(), hashes), hashes, user_id)),
        request matches RecordRequest::DeleteRecords { repo_id: user_id, .. } ==> (
        with_user(route(request.subject(), hashes), hashes, user_id)),
        request matches RecordRequest::DeleteAllRecords { repo_id: user_id, .. } ==> (
        with_user(route(request.subject(), hashes), hashes, user_id)),
        request matches RecordRequest::GetRecordCid { repo_id: user_id, .. } ==> (
        with_user(route(request.subject(), hashes), hashes, user_id)),
        request matches RecordRequest::ListRecords { repo_id: user_id, .. } ==> (
        with_user(route(request.subject(), hashes), hashes, user_id)),
        request matches RecordRequest::GetAllRecords { repo_id: user_id, .. } ==> (
        with_user(route(request.subject(), hashes), hashes, user_id)),
        request matches RecordRequest::ListCollections { repo_id: user_id, .. } ==> (
        with_user(route(request.subject(), hashes), hashes, user_id)),
        request matches RecordRequest::CountRecords { repo_id: user_id, .. } ==> (
        with_user(route(request.subject(), hashes), hashes, user_id)),
        request matches RecordRequest::SetRecordTakedown { scope_user: id, .. } ==> (
        (id matches Some(u) ==> with_user(route(request.subject(), hashes), hashes, u))
            && (id is None ==> route(request.subject(), hashes) is Global)),
        request is CountAllRecords ==> route(request.subject(), hashes) is Global,
        request is GetRecordByCid ==> route(request.subject(), hashes) is Global,
{
}

/// Requests about blocks go to the handler of the account, the user or the blob that they
/// name; the others go to any.
pub proof fn block_requests_are_routed(request: UserBlockRequest, hashes: UserHashes)
    ensures
        request matches UserBlockRequest::InsertUserBlocks { user_id, .. } ==> (
        with_user(route(request.subject(), hashes), hashes, user_id)),
        request matches UserBlockRequest::DeleteUserBlocks { user_id, .. } ==> (
        with_user(route(request.subject(), hashes), hashes, user_id)),
        request matches UserBlockRequest::GetUserBlockCidsSinceRev { user_id, .. } ==> (
        with_user(route(request.subject(), hashes), hashes, user_id)),
        request matches UserBlockRequest::CountUserBlocks { user_id, .. } ==> (
        with_user(route(request.subject(), hashes), hashes, user_id)),
{
}

/// Requests about the event log go to the handler of the account, the user or the blob that they
/// name; the others go to any.
pub proof fn event_requests_are_routed(request: EventRequest, hashes: UserHashes)
    ensures
        request matches EventRequest::InsertIdentityEvent { did, .. } ==> (
        with_account(route(request.subject(), hashes), did@)),
        request matches EventRequest::InsertAccountEvent { did, .. } ==> (
        with_account(route(request.subject(), hashes), did@)),
        request matches EventRequest::InsertSyncEvent { did, .. } ==> (
        with_account(route(request.subject(), hashes), did@)),
        request matches EventRequest::InsertGenesisCommitEvent { did, .. } ==> (
        with_account(route(request.subject(), hashes), did@)),
        request matches EventRequest::PurgeDidEventsKeepingLatest { did, .. } ==> (
        with_account(route(request.subject(), hashes), did@)),
        request matches EventRequest::InsertCommitEvent { data, .. } ==> (
        with_account(route(request.subject(), hashes), data.did@)),
        request is GetMaxSeq ==> route(request.subject(), hashes) is Global,
        request is GetMinSeqSince ==> route(request.subject(), hashes) is Global,
        request is GetEventsSinceSeq ==> route(request.subject(), hashes) is Global,
        request is GetEventsInSeqRange ==> route(request.subject(), hashes) is Global,
        request is GetEventBySeq ==> route(request.subject(), hashes) is Global,
        request is GetEventsSinceCursor ==> route(request.subject(), hashes) is Global,
{
}

/// Requests about commits go to the handler of the account, the user or the blob that they
/// name; the others go to any.
pub proof fn commit_requests_are_routed(request: CommitRequest, hashes: UserHashes)
    ensures
        request matches CommitRequest::ApplyCommit { input, .. } ==> (
        with_account(route(request.subject(), hashes), input.did@)),
        request matches CommitRequest::ImportRepoData { user_id, .. } ==> (
        with_user(route(request.subject(), hashes), hashes, user_id)),
        request matches CommitRequest::InsertRecordBlobs { repo_id: user_id, .. } ==> (
        with_user(route(request.subject(), hashes), hashes, user_id)),
        request is GetUsersWithoutBlocks ==> route(request.subject(), hashes) is Global,
        request is GetUsersNeedingRecordBlobsBackfill ==> route(request.subject(), hashes) is Global,
{
}

/// Requests about links go to the handler of the account, the user or the blob that they
/// name; the others go to any.
pub proof fn link_requests_are_routed(request: BacklinkRequest, hashes: UserHashes)
    ensures
        request matches BacklinkRequest::GetBacklinkConflicts { repo_id: user_id, .. } ==> (
        with_user(route(request.subject(), hashes), hashes, user_id)),
        request matches BacklinkRequest::AddBacklinks { repo_id: user_id, .. } ==> (
        with_user(route(request.subject(), hashes), hashes, user_id)),
        request matches BacklinkRequest::RemoveBacklinksByRepo { repo_id: user_id, .. } ==> (
        with_user(route(request.subject(), hashes), hashes, user_id)),
        request matches BacklinkRequest::RemoveBacklinksByUri { did, .. } ==> (
        (did matches Some(d) ==> with_account(route(request.subject(), hashes), d@))
            && (did is None ==> route(request.subject(), hashes) is Global)),
{
}

/// Requests about blobs go to the handler of the account, the user or the blob that they
/// name; the others go to any.
pub proof fn blob_requests_are_routed(request: BlobRequest, hashes: UserHashes)
    ensures
        request matches BlobRequest::ListBlobsSinceRev { did, .. } ==> (
        with_account(route(request.subject(), hashes), did@)),
        request matches BlobRequest::ListBlobsByUser { user_id, .. } ==> (
        with_user(route(request.subject(), hashes), hashes, user_id)),
        request matches BlobRequest::CountBlobsByUser { user_id, .. } ==> (
        with_user(route(request.subject(), hashes), hashes, user_id)),
        request matches BlobRequest::DeleteBlobsByUser { user_id, .. } ==> (
        with_user(route(request.subject(), hashes), hashes, user_id)),
        request matches BlobRequest::GetBlobStorageKeysByUser { user_id, .. } ==> (
        with_user(route(request.subject(), hashes), hashes, user_id)),
        request matches BlobRequest::ListMissingBlobs { repo_id: user_id, .. } ==> (
        with_user(route(request.subject(), hashes), hashes, user_id)),
        request matches BlobRequest::CountDistinctRecordBlobs { repo_id: user_id, .. } ==> (
        with_user(route(request.subject(), hashes), hashes, user_id)),
        request matches BlobRequest::GetBlobsForExport { repo_id: user_id, .. } ==> (
        with_user(route(request.subject(), hashes), hashes, user_id)),
        request matches BlobRequest::InsertBlob { cid, .. } ==> (
        with_blob(route(request.subject(), hashes), cid@)),
        request matches BlobRequest::UpdateBlobTakedown { cid, .. } ==> (
        with_blob(route(request.subject(), hashes), cid@)),
        request matches BlobRequest::DeleteBlobByCid { cid, .. } ==> (
        with_blob(route(request.subject(), hashes), cid@)),
        request is GetBlobMetadata ==> route(request.subject(), hashes) is Global,
        request is GetBlobWithTakedown ==> route(request.subject(), hashes) is Global,
        request is GetBlobStorageKey ==> route(request.subject(), hashes) is Global,
        request is SumBlobStorage ==> route(request.subject(), hashes) is Global,
{
}

/// Requests about delegations go to the handler of the account, the user or the blob that they
/// name; the others go to any.
pub proof fn delegation_requests_are_routed(request: DelegationRequest, hashes: UserHashes)
    ensures
        request matches DelegationRequest::IsDelegatedAccount { did, .. } ==> (
        with_account(route(request.subject(), hashes), did@)),
        request matches DelegationRequest::CreateDelegation { delegated_did: did, .. } ==> (
        with_account(route(request.subject(), hashes), did@)),
        request matches DelegationRequest::RevokeDelegation { delegated_did: did, .. } ==> (
        with_account(route(request.subject(), hashes), did@)),
        request matches DelegationRequest::UpdateDelegationScopes { delegated_did: did, .. } ==> (
        with_account(route(request.subject(), hashes), did@)),
        request matches DelegationRequest::GetDelegation { delegated_did: did, .. } ==> (
        with_account(route(request.subject(), hashes), did@)),
        request matches DelegationRequest::GetDelegationsForAccount { delegated_did: did, .. } ==> (
        with_account(route(request.subject(), hashes), did@)),
        request matches DelegationRequest::GetAccountsControlledBy { controller_did: did, .. } ==> (
        with_account(route(request.subject(), hashes), did@)),
        request matches DelegationRequest::CountActiveControllers { delegated_did: did, .. } ==> (
        with_account(route(request.subject(), hashes), did@)),
        request matches DelegationRequest::ControlsAnyAccounts { did, .. } ==> (
        with_account(route(request.subject(), hashes), did@)),
        request matches DelegationRequest::LogDelegationAction { delegated_did: did, .. } ==> (
        with_account(route(request.subject(), hashes), did@)),
        request matches DelegationRequest::GetAuditLogForAccount { delegated_did: did, .. } ==> (
        with_account(route(request.subject(), hashes), did@)),
        request matches DelegationRequest::CountAuditLogEntries { delegated_did: did, .. } ==> (
        with_account(route(request.subject(), hashes), did@)),
{
}

/// Requests about sign-on go to the handler of the account, the user or the blob that they
/// name; the others go to any.
pub proof fn sign_on_requests_are_routed(request: SsoRequest, hashes: UserHashes)
    ensures
        request matches SsoRequest::CreateExternalIdentity { did, .. } ==> (
        with_account(route(request.subject(), hashes), did@)),
        request matches SsoRequest::GetExternalIdentitiesByDid { did, .. } ==> (
        with_account(route(request.subject(), hashes), did@)),
        request matches SsoRequest::DeleteExternalIdentity { did, .. } ==> (
        with_account(route(request.subject(), hashes), did@)),
        request is GetExternalIdentityByProvider ==> route(request.subject(), hashes) is Global,
        request is UpdateExternalIdentityLogin ==> route(request.subject(), hashes) is Global,
        request is CreateSsoAuthState ==> route(request.subject(), hashes) is Global,
        request is ConsumeSsoAuthState ==> route(request.subject(), hashes) is Global,
        request is CleanupExpiredSsoAuthStates ==> route(request.subject(), hashes) is Global,
        request is CreatePendingRegistration ==> route(request.subject(), hashes) is Global,
        request is GetPendingRegistration ==> route(request.subject(), hashes) is Global,
        request is ConsumePendingRegistration ==> route(request.subject(), hashes) is Global,
        request is CleanupExpiredPendingRegistrations ==> route(request.subject(), hashes) is Global,
{
}

/// Requests about sessions go to the handler of the account, the user or the blob that they
/// name; the others go to any.
pub proof fn session_requests_are_routed(request: SessionRequest, hashes: UserHashes)
    ensures
        request matches SessionRequest::DeleteSessionsByDid { did, .. } ==> (
        with_account(route(request.subject(), hashes), did@)),
        request matches SessionRequest::DeleteSessionsByDidExceptJti { did, .. } ==> (
        with_account(route(request.subject(), hashes), did@)),
        request matches SessionRequest::ListSessionsByDid { did, .. } ==> (
        with_account(route(request.subject(), hashes), did@)),
        request matches SessionRequest::GetSessionAccessJtiById { did, .. } ==> (
        with_account(route(request.subject(), hashes), did@)),
        request matches SessionRequest::DeleteSessionsByAppPassword { did, .. } ==> (
        with_account(route(request.subject(), hashes), did@)),
        request matches SessionRequest::GetSessionJtisByAppPassword { did, .. } ==> (
        with_account(route(request.subject(), hashes), did@)),
        request matches SessionRequest::DeleteAppPasswordsByController { did, .. } ==> (
        with_account(route(request.subject(), hashes), did@)),
        request matches SessionRequest::GetLastReauthAt { did, .. } ==> (
        with_account(route(request.subject(), hashes), did@)),
        request matches SessionRequest::UpdateLastReauth { did, .. } ==> (
        with_account(route(request.subject(), hashes), did@)),
        request matches SessionRequest::GetSessionMfaStatus { did, .. } ==> (
        with_account(route(request.subject(), hashes), did@)),
        request matches SessionRequest::UpdateMfaVerified { did, .. } ==> (
        with_account(route(request.subject(), hashes), did@)),
        request matches SessionRequest::GetAppPasswordHashesByDid { did, .. } ==> (
        with_account(route(request.subject(), hashes), did@)),
        request matches SessionRequest::ListAppPasswords { user_id, .. } ==> (
        with_user(route(request.subject(), hashes), hashes, user_id)),
        request matches SessionRequest::GetAppPasswordsForLogin { user_id, .. } ==> (
        with_user(route(request.subject(), hashes), hashes, user_id)),
        request matches SessionRequest::GetAppPasswordByName { user_id, .. } ==> (
        with_user(route(request.subject(), hashes), hashes, user_id)),
        request matches SessionRequest::CreateAppPassword { user_id, .. } ==> (
        with_user(route(request.subject(), hashes), hashes, user_id)),
        request matches SessionRequest::DeleteAppPassword { user_id, .. } ==> (
        with_user(route(request.subject(), hashes), hashes, user_id)),
        request is CreateSession ==> route(request.subject(), hashes) is Global,
        request is GetSessionByAccessJti ==> route(request.subject(), hashes) is Global,
        request is GetSessionForRefresh ==> route(request.subject(), hashes) is Global,
        request is UpdateSessionTokens ==> route(request.subject(), hashes) is Global,
        request is DeleteSessionByAccessJti ==> route(request.subject(), hashes) is Global,
        request is DeleteSessionById ==> route(request.subject(), hashes) is Global,
        request is CheckRefreshTokenUsed ==> route(request.subject(), hashes) is Global,
        request is MarkRefreshTokenUsed ==> route(request.subject(), hashes) is Global,
        request is RefreshSessionAtomic ==> route(request.subject(), hashes) is Global,
{
}

/// Requests about account infrastructure go to the handler of the account, the user or the blob
/// that they name; the others go to any.
pub proof fn infra_requests_are_routed(request: InfraRequest, hashes: UserHashes)
    ensures
        request matches InfraRequest::GetInviteCodesForAccount { for_account: did, .. } ==> (
        with_account(route(request.subject(), hashes), did@)),
        request matches InfraRequest::CreateDeletionRequest { did, .. } ==> (
        with_account(route(request.subject(), hashes), did@)),
        request matches InfraRequest::DeleteDeletionRequestsByDid { did, .. } ==> (
        with_account(route(request.subject(), hashes), did@)),
        request matches InfraRequest::GetAdminAccountInfoByDid { did, .. } ==> (
        with_account(route(request.subject(), hashes), did@)),
        request matches InfraRequest::GetDeletionRequestByDid { did, .. } ==> (
        with_account(route(request.subject(), hashes), did@)),
        request matches InfraRequest::GetPlcTokensByDid { did, .. } ==> (
        with_account(route(request.subject(), hashes), did@)),
        request matches InfraRequest::CountPlcTokensByDid { did, .. } ==> (
        with_account(route(request.subject(), hashes), did@)),
        request matches InfraRequest::CreateInviteCodesBatch { created_by_user: user_id, .. } ==> (
        with_user(route(request.subject(), hashes), hashes, user_id)),
        request matches InfraRequest::RecordInviteCodeUse { used_by_user: user_id, .. } ==> (
        with_user(route(request.subject(), hashes), hashes, user_id)),
        request matches InfraRequest::GetInvitesCreatedByUser { user_id, .. } ==> (
        with_user(route(request.subject(), hashes), hashes, user_id)),
        request matches InfraRequest::GetInviteCodeUsedByUser { user_id, .. } ==> (
        with_user(route(request.subject(), hashes), hashes, user_id)),
        request matches InfraRequest::DeleteInviteCodeUsesByUser { user_id, .. } ==> (
        with_user(route(request.subject(), hashes), hashes, user_id)),
        request matches InfraRequest::DeleteInviteCodesByUser { user_id, .. } ==> (
        with_user(route(request.subject(), hashes), hashes, user_id)),
        request matches InfraRequest::UpsertAccountPreference { user_id, .. } ==> (
        with_user(route(request.subject(), hashes), hashes, user_id)),
        request matches InfraRequest::InsertAccountPreferenceIfNotExists { user_id, .. } ==> (
        with_user(route(request.subject(), hashes), hashes, user_id)),
        request matches InfraRequest::DeletePlcTokensForUser { user_id, .. } ==> (
        with_user(route(request.subject(), hashes), hashes, user_id)),
        request matches InfraRequest::InsertPlcToken { user_id, .. } ==> (
        with_user(route(request.subject(), hashes), hashes, user_id)),
        request matches InfraRequest::GetPlcTokenExpiry { user_id, .. } ==> (
        with_user(route(request.subject(), hashes), hashes, user_id)),
        request matches InfraRequest::DeletePlcToken { user_id, .. } ==> (
        with_user(route(request.subject(), hashes), hashes, user_id)),
        request matches InfraRequest::GetAccountPreferences { user_id, .. } ==> (
        with_user(route(request.subject(), hashes), hashes, user_id)),
        request matches InfraRequest::ReplaceNamespacePreferences { user_id, .. } ==> (
        with_user(route(request.subject(), hashes), hashes, user_id)),
        request matches InfraRequest::GetNotificationHistory { user_id, .. } ==> (
        with_user(route(request.subject(), hashes), hashes, user_id)),
        request matches InfraRequest::GetLatestCommsForUser { user_id, .. } ==> (
        with_user(route(request.subject(), hashes), hashes, user_id)),
        request matches InfraRequest::CountCommsByType { user_id, .. } ==> (
        with_user(route(request.subject(), hashes), hashes, user_id)),
        request matches InfraRequest::DeleteCommsByTypeForUser { user_id, .. } ==> (
        with_user(route(request.subject(), hashes), hashes, user_id)),
        request matches InfraRequest::GetBlobStorageKeyByCid { cid, .. } ==> (
        with_blob(route(request.subject(), hashes), cid@)),
        request matches InfraRequest::DeleteBlobByCid { cid, .. } ==> (
        with_blob(route(request.subject(), hashes), cid@)),
        request matches InfraRequest::EnqueueComms { user_id: id, .. } ==> (
        (id matches Some(u) ==> with_user(route(request.subject(), hashes), hashes, u))
            && (id is None ==> route(request.subject(), hashes) is Global)),
        request is FetchPendingComms ==> route(request.subject(), hashes) is Global,
        request is MarkCommsSent ==> route(request.subject(), hashes) is Global,
        request is MarkCommsFailed ==> route(request.subject(), hashes) is Global,
        request is MarkCommsFailedPermanent ==> route(request.subject(), hashes) is Global,
        request is CreateInviteCode ==> route(request.subject(), hashes) is Global,
        request is GetInviteCodeAvailableUses ==> route(request.subject(), hashes) is Global,
        request is ValidateInviteCode ==> route(request.subject(), hashes) is Global,
        request is DecrementInviteCodeUses ==> route(request.subject(), hashes) is Global,
        request is GetInviteCodeUses ==> route(request.subject(), hashes) is Global,
        request is DisableInviteCodesByCode ==> route(request.subject(), hashes) is Global,
        request is DisableInviteCodesByAccount ==> route(request.subject(), hashes) is Global,
        request is ListInviteCodes ==> route(request.subject(), hashes) is Global,
        request is GetUserDidsByIds ==> route(request.subject(), hashes) is Global,
        request is GetInviteCodeUsesBatch ==> route(request.subject(), hashes) is Global,
        request is GetInviteCodeInfo ==> route(request.subject(), hashes) is Global,
        request is GetInviteCodesByUsers ==> route(request.subject(), hashes) is Global,
        request is ReserveSigningKey ==> route(request.subject(), hashes) is Global,
        request is GetReservedSigningKey ==> route(request.subject(), hashes) is Global,
        request is MarkSigningKeyUsed ==> route(request.subject(), hashes) is Global,
        request is GetDeletionRequest ==> route(request.subject(), hashes) is Global,
        request is DeleteDeletionRequest ==> route(request.subject(), hashes) is Global,
        request is GetServerConfig ==> route(request.subject(), hashes) is Global,
        request is InsertReport ==> route(request.subject(), hashes) is Global,
        request is GetServerConfigs ==> route(request.subject(), hashes) is Global,
        request is UpsertServerConfig ==> route(request.subject(), hashes) is Global,
        request is DeleteServerConfig ==> route(request.subject(), hashes) is Global,
        request is GetAdminAccountInfosByDids ==> route(request.subject(), hashes) is Global,
        request is GetInviteCodeUsesByUsers ==> route(request.subject(), hashes) is Global,
        request is ExpireDeletionRequest ==> route(request.subject(), hashes) is Global,
        request is GetReservedSigningKeyFull ==> route(request.subject(), hashes) is Global,
{
}

/// Requests about authorizations go to the handler of the account, the user or the blob that they
/// name; the others go to any.
pub proof fn authorization_requests_are_routed(request: OAuthRequest, hashes: UserHashes)
    ensures
        request matches OAuthRequest::ListTokensForUser { did, .. } ==> (
        with_account(route(request.subject(), hashes), did@)),
        request matches OAuthRequest::CountTokensForUser { did, .. } ==> (
        with_account(route(request.subject(), hashes), did@)),
        request matches OAuthRequest::DeleteOldestTokensForUser { did, .. } ==> (
        with_account(route(request.subject(), hashes), did@)),
        request matches OAuthRequest::RevokeTokensForClient { did, .. } ==> (
        with_account(route(request.subject(), hashes), did@)),
        request matches OAuthRequest::RevokeTokensForController { delegated_did: did, .. } ==> (
        with_account(route(request.subject(), hashes), did@)),
        request matches OAuthRequest::SetAuthorizationDid { did, .. } ==> (
        with_account(route(request.subject(), hashes), did@)),
        request matches OAuthRequest::UpdateAuthorizationRequest { did, .. } ==> (
        with_account(route(request.subject(), hashes), did@)),
        request matches OAuthRequest::MarkRequestAuthenticated { did, .. } ==> (
        with_account(route(request.subject(), hashes), did@)),
        request matches OAuthRequest::SetRequestDid { did, .. } ==> (
        with_account(route(request.subject(), hashes), did@)),
        request matches OAuthRequest::UpsertAccountDevice { did, .. } ==> (
        with_account(route(request.subject(), hashes), did@)),
        request matches OAuthRequest::VerifyAccountOnDevice { did, .. } ==> (
        with_account(route(request.subject(), hashes), did@)),
        request matches OAuthRequest::Create2faChallenge { did, .. } ==> (
        with_account(route(request.subject(), hashes), did@)),
        request matches OAuthRequest::CheckUser2faEnabled { did, .. } ==> (
        with_account(route(request.subject(), hashes), did@)),
        request matches OAuthRequest::GetScopePreferences { did, .. } ==> (
        with_account(route(request.subject(), hashes), did@)),
        request matches OAuthRequest::UpsertScopePreferences { did, .. } ==> (
        with_account(route(request.subject(), hashes), did@)),
        request matches OAuthRequest::DeleteScopePreferences { did, .. } ==> (
        with_account(route(request.subject(), hashes), did@)),
        request matches OAuthRequest::UpsertAuthorizedClient { did, .. } ==> (
        with_account(route(request.subject(), hashes), did@)),
        request matches OAuthRequest::GetAuthorizedClient { did, .. } ==> (
        with_account(route(request.subject(), hashes), did@)),
        request matches OAuthRequest::ListTrustedDevices { did, .. } ==> (
        with_account(route(request.subject(), hashes), did@)),
        request matches OAuthRequest::GetDeviceTrustInfo { did, .. } ==> (
        with_account(route(request.subject(), hashes), did@)),
        request matches OAuthRequest::DeviceBelongsToUser { did, .. } ==> (
        with_account(route(request.subject(), hashes), did@)),
        request matches OAuthRequest::ListSessionsByDid { did, .. } ==> (
        with_account(route(request.subject(), hashes), did@)),
        request matches OAuthRequest::DeleteSessionById { did, .. } ==> (
        with_account(route(request.subject(), hashes), did@)),
        request matches OAuthRequest::DeleteSessionsByDid { did, .. } ==> (
        with_account(route(request.subject(), hashes), did@)),
        request matches OAuthRequest::DeleteSessionsByDidExcept { did, .. } ==> (
        with_account(route(request.subject(), hashes), did@)),
        request is CreateToken ==> route(request.subject(), hashes) is Global,
        request is GetTokenById ==> route(request.subject(), hashes) is Global,
        request is GetTokenByRefreshToken ==> route(request.subject(), hashes) is Global,
        request is GetTokenByPreviousRefreshToken ==> route(request.subject(), hashes) is Global,
        request is RotateToken ==> route(request.subject(), hashes) is Global,
        request is CheckRefreshTokenUsed ==> route(request.subject(), hashes) is Global,
        request is DeleteToken ==> route(request.subject(), hashes) is Global,
        request is DeleteTokenFamily ==> route(request.subject(), hashes) is Global,
        request is CreateAuthorizationRequest ==> route(request.subject(), hashes) is Global,
        request is GetAuthorizationRequest ==> route(request.subject(), hashes) is Global,
        request is ConsumeAuthorizationRequestByCode ==> route(request.subject(), hashes) is Global,
        request is DeleteAuthorizationRequest ==> route(request.subject(), hashes) is Global,
        request is DeleteExpiredAuthorizationRequests ==> route(request.subject(), hashes) is Global,
        request is ExtendAuthorizationRequestExpiry ==> route(request.subject(), hashes) is Global,
        request is UpdateRequestScope ==> route(request.subject(), hashes) is Global,
        request is SetControllerDid ==> route(request.subject(), hashes) is Global,
        request is CreateDevice ==> route(request.subject(), hashes) is Global,
        request is GetDevice ==> route(request.subject(), hashes) is Global,
        request is UpdateDeviceLastSeen ==> route(request.subject(), hashes) is Global,
        request is DeleteDevice ==> route(request.subject(), hashes) is Global,
        request is GetDeviceAccounts ==> route(request.subject(), hashes) is Global,
        request is CheckAndRecordDpopJti ==> route(request.subject(), hashes) is Global,
        request is CleanupExpiredDpopJtis ==> route(request.subject(), hashes) is Global,
        request is Get2faChallenge ==> route(request.subject(), hashes) is Global,
        request is Increment2faAttempts ==> route(request.subject(), hashes) is Global,
        request is Delete2faChallenge ==> route(request.subject(), hashes) is Global,
        request is Delete2faChallengeByRequestUri ==> route(request.subject(), hashes) is Global,
        request is CleanupExpired2faChallenges ==> route(request.subject(), hashes) is Global,
        request is RevokeDeviceTrust ==> route(request.subject(), hashes) is Global,
        request is UpdateDeviceFriendlyName ==> route(request.subject(), hashes) is Global,
        request is TrustDevice ==> route(request.subject(), hashes) is Global,
        request is ExtendDeviceTrust ==> route(request.subject(), hashes) is Global,
        request is Get2faChallengeCode ==> route(request.subject(), hashes) is Global,
{
}

/// Requests about users go to the handler of the account, the user or the blob that they
/// name; the others go to any.
pub proof fn user_requests_are_routed(request: UserRequest, hashes: UserHashes)
    ensures
        request matches UserRequest::GetByDid { did, .. } ==> (
        with_account(route(request.subject(), hashes), did@)),
        request matches UserRequest::GetWithKeyByDid { did, .. } ==> (
        with_account(route(request.subject(), hashes), did@)),
        request matches UserRequest::GetStatusByDid { did, .. } ==> (
        with_account(route(request.subject(), hashes), did@)),
        request matches UserRequest::GetSessionAccessExpiry { did, .. } ==> (
        with_account(route(request.subject(), hashes), did@)),
        request matches UserRequest::GetUserInfoByDid { did, .. } ==> (
        with_account(route(request.subject(), hashes), did@)),
        request matches UserRequest::SetInvitesDisabled { did, .. } ==> (
        with_account(route(request.subject(), hashes), did@)),
        request matches UserRequest::GetAuthInfoByDid { did, .. } ==> (
        with_account(route(request.subject(), hashes), did@)),
        request matches UserRequest::Get2faStatusByDid { did, .. } ==> (
        with_account(route(request.subject(), hashes), did@)),
        request matches UserRequest::GetIdByDid { did, .. } ==> (
        with_account(route(request.subject(), hashes), did@)),
        request matches UserRequest::GetIdAndHandleByDid { did, .. } ==> (
        with_account(route(request.subject(), hashes), did@)),
        request matches UserRequest::GetHandleByDid { did, .. } ==> (
        with_account(route(request.subject(), hashes), did@)),
        request matches UserRequest::IsAccountActiveByDid { did, .. } ==> (
        with_account(route(request.subject(), hashes), did@)),
        request matches UserRequest::GetUserForDeletion { did, .. } ==> (
        with_account(route(request.subject(), hashes), did@)),
        request matches UserRequest::GetUserWithKeyByDid { did, .. } ==> (
        with_account(route(request.subject(), hashes), did@)),
        request matches UserRequest::IsAccountMigrated { did, .. } ==> (
        with_account(route(request.subject(), hashes), did@)),
        request matches UserRequest::HasVerifiedCommsChannel { did, .. } ==> (
        with_account(route(request.subject(), hashes), did@)),
        request matches UserRequest::GetEmailInfoByDid { did, .. } ==> (
        with_account(route(request.subject(), hashes), did@)),
        request matches UserRequest::CheckChannelVerifiedByDid { did, .. } ==> (
        with_account(route(request.subject(), hashes), did@)),
        request matches UserRequest::AdminUpdateEmail { did, .. } ==> (
        with_account(route(request.subject(), hashes), did@)),
        request matches UserRequest::AdminUpdateHandle { did, .. } ==> (
        with_account(route(request.subject(), hashes), did@)),
        request matches UserRequest::AdminUpdatePassword { did, .. } ==> (
        with_account(route(request.subject(), hashes), did@)),
        request matches UserRequest::SetAdminStatus { did, .. } ==> (
        with_account(route(request.subject(), hashes), did@)),
        request matches UserRequest::GetNotificationPrefs { did, .. } ==> (
        with_account(route(request.subject(), hashes), did@)),
        request matches UserRequest::GetIdHandleEmailByDid { did, .. } ==> (
        with_account(route(request.subject(), hashes), did@)),
        request matches UserRequest::UpdatePreferredCommsChannel { did, .. } ==> (
        with_account(route(request.subject(), hashes), did@)),
        request matches UserRequest::GetVerificationInfo { did, .. } ==> (
        with_account(route(request.subject(), hashes), did@)),
        request matches UserRequest::HasTotpEnabled { did, .. } ==> (
        with_account(route(request.subject(), hashes), did@)),
        request matches UserRequest::HasPasskeys { did, .. } ==> (
        with_account(route(request.subject(), hashes), did@)),
        request matches UserRequest::GetPasswordHashByDid { did, .. } ==> (
        with_account(route(request.subject(), hashes), did@)),
        request matches UserRequest::GetPasskeysForUser { did, .. } ==> (
        with_account(route(request.subject(), hashes), did@)),
        request matches UserRequest::SavePasskey { did, .. } ==> (
        with_account(route(request.subject(), hashes), did@)),
        request matches UserRequest::DeletePasskey { did, .. } ==> (
        with_account(route(request.subject(), hashes), did@)),
        request matches UserRequest::UpdatePasskeyName { did, .. } ==> (
        with_account(route(request.subject(), hashes), did@)),
        request matches UserRequest::SaveWebauthnChallenge { did, .. } ==> (
        with_account(route(request.subject(), hashes), did@)),
        request matches UserRequest::LoadWebauthnChallenge { did, .. } ==> (
        with_account(route(request.subject(), hashes), did@)),
        request matches UserRequest::DeleteWebauthnChallenge { did, .. } ==> (
        with_account(route(request.subject(), hashes), did@)),
        request matches UserRequest::GetTotpRecord { did, .. } ==> (
        with_account(route(request.subject(), hashes), did@)),
        request matches UserRequest::GetTotpRecordState { did, .. } ==> (
        with_account(route(request.subject(), hashes), did@)),
        request matches UserRequest::UpsertTotpSecret { did, .. } ==> (
        with_account(route(request.subject(), hashes), did@)),
        request matches UserRequest::SetTotpVerified { did, .. } ==> (
        with_account(route(request.subject(), hashes), did@)),
        request matches UserRequest::UpdateTotpLastUsed { did, .. } ==> (
        with_account(route(request.subject(), hashes), did@)),
        request matches UserRequest::DeleteTotp { did, .. } ==> (
        with_account(route(request.subject(), hashes), did@)),
        request matches UserRequest::GetUnusedBackupCodes { did, .. } ==> (
        with_account(route(request.subject(), hashes), did@)),
        request matches UserRequest::CountUnusedBackupCodes { did, .. } ==> (
        with_account(route(request.subject(), hashes), did@)),
        request matches UserRequest::DeleteBackupCodes { did, .. } ==> (
        with_account(route(request.subject(), hashes), did@)),
        request matches UserRequest::InsertBackupCodes { did, .. } ==> (
        with_account(route(request.subject(), hashes), did@)),
        request matches UserRequest::EnableTotpWithBackupCodes { did, .. } ==> (
        with_account(route(request.subject(), hashes), did@)),
        request matches UserRequest::DeleteTotpAndBackupCodes { did, .. } ==> (
        with_account(route(request.subject(), hashes), did@)),
        request matches UserRequest::ReplaceBackupCodes { did, .. } ==> (
        with_account(route(request.subject(), hashes), did@)),
        request matches UserRequest::GetSessionInfoByDid { did, .. } ==> (
        with_account(route(request.subject(), hashes), did@)),
        request matches UserRequest::GetLegacyLoginPref { did, .. } ==> (
        with_account(route(request.subject(), hashes), did@)),
        request matches UserRequest::UpdateLegacyLogin { did, .. } ==> (
        with_account(route(request.subject(), hashes), did@)),
        request matches UserRequest::UpdateLocale { did, .. } ==> (
        with_account(route(request.subject(), hashes), did@)),
        request matches UserRequest::GetConfirmSignupByDid { did, .. } ==> (
        with_account(route(request.subject(), hashes), did@)),
        request matches UserRequest::GetResendVerificationByDid { did, .. } ==> (
        with_account(route(request.subject(), hashes), did@)),
        request matches UserRequest::SetChannelVerified { did, .. } ==> (
        with_account(route(request.subject(), hashes), did@)),
        request matches UserRequest::GetIdAndPasswordHashByDid { did, .. } ==> (
        with_account(route(request.subject(), hashes), did@)),
        request matches UserRequest::ActivateAccount { did, .. } ==> (
        with_account(route(request.subject(), hashes), did@)),
        request matches UserRequest::DeactivateAccount { did, .. } ==> (
        with_account(route(request.subject(), hashes), did@)),
        request matches UserRequest::HasPasswordByDid { did, .. } ==> (
        with_account(route(request.subject(), hashes), did@)),
        request matches UserRequest::GetPasswordInfoByDid { did, .. } ==> (
        with_account(route(request.subject(), hashes), did@)),
        request matches UserRequest::GetUserKeyByDid { did, .. } ==> (
        with_account(route(request.subject(), hashes), did@)),
        request matches UserRequest::DeleteAccountComplete { did, .. } ==> (
        with_account(route(request.subject(), hashes), did@)),
        request matches UserRequest::SetUserTakedown { did, .. } ==> (
        with_account(route(request.subject(), hashes), did@)),
        request matches UserRequest::AdminDeleteAccountComplete { did, .. } ==> (
        with_account(route(request.subject(), hashes), did@)),
        request matches UserRequest::GetUserForDidDoc { did, .. } ==> (
        with_account(route(request.subject(), hashes), did@)),
        request matches UserRequest::GetUserForDidDocBuild { did, .. } ==> (
        with_account(route(request.subject(), hashes), did@)),
        request matches UserRequest::UpdateMigratedToPds { did, .. } ==> (
        with_account(route(request.subject(), hashes), did@)),
        request matches UserRequest::GetUserForPasskeySetup { did, .. } ==> (
        with_account(route(request.subject(), hashes), did@)),
        request matches UserRequest::SetRecoveryToken { did, .. } ==> (
        with_account(route(request.subject(), hashes), did@)),
        request matches UserRequest::GetUserForRecovery { did, .. } ==> (
        with_account(route(request.subject(), hashes), did@)),
        request matches UserRequest::DeleteAccountWithFirehose { did, .. } ==> (
        with_account(route(request.subject(), hashes), did@)),
        request matches UserRequest::CreatePasswordAccount { did, .. } ==> (
        with_account(route(request.subject(), hashes), did@)),
        request matches UserRequest::CreateDelegatedAccount { did, .. } ==> (
        with_account(route(request.subject(), hashes), did@)),
        request matches UserRequest::CreatePasskeyAccount { did, .. } ==> (
        with_account(route(request.subject(), hashes), did@)),
        request matches UserRequest::CreateSsoAccount { did, .. } ==> (
        with_account(route(request.subject(), hashes), did@)),
        request matches UserRequest::ReactivateMigrationAccount { did, .. } ==> (
        with_account(route(request.subject(), hashes), did@)),
        request matches UserRequest::CompletePasskeySetup { did, .. } ==> (
        with_account(route(request.subject(), hashes), did@)),
        request matches UserRequest::RecoverPasskeyAccount { did, .. } ==> (
        with_account(route(request.subject(), hashes), did@)),
        request matches UserRequest::EnableTotpVerified { did, .. } ==> (
        with_account(route(request.subject(), hashes), did@)),
        request matches UserRequest::SetTwoFactorEnabled { did, .. } ==> (
        with_account(route(request.subject(), hashes), did@)),
        request matches UserRequest::GetCommsPrefs { user_id, .. } ==> (
        with_user(route(request.subject(), hashes), hashes, user_id)),
        request matches UserRequest::GetUserKeyById { user_id, .. } ==> (
        with_user(route(request.subject(), hashes), hashes, user_id)),
        request matches UserRequest::GetDidWebOverrides { user_id, .. } ==> (
        with_user(route(request.subject(), hashes), hashes, user_id)),
        request matches UserRequest::CheckHandleExists { exclude_user_id: user_id, .. } ==> (
        with_user(route(request.subject(), hashes), hashes, user_id)),
        request matches UserRequest::UpdateHandle { user_id, .. } ==> (
        with_user(route(request.subject(), hashes), hashes, user_id)),
        request matches UserRequest::CheckEmailExists { exclude_user_id: user_id, .. } ==> (
        with_user(route(request.subject(), hashes), hashes, user_id)),
        request matches UserRequest::UpdateEmail { user_id, .. } ==> (
        with_user(route(request.subject(), hashes), hashes, user_id)),
        request matches UserRequest::SetEmailVerified { user_id, .. } ==> (
        with_user(route(request.subject(), hashes), hashes, user_id)),
        request matches UserRequest::ClearDiscord { user_id, .. } ==> (
        with_user(route(request.subject(), hashes), hashes, user_id)),
        request matches UserRequest::ClearTelegram { user_id, .. } ==> (
        with_user(route(request.subject(), hashes), hashes, user_id)),
        request matches UserRequest::ClearSignal { user_id, .. } ==> (
        with_user(route(request.subject(), hashes), hashes, user_id)),
        request matches UserRequest::SetUnverifiedSignal { user_id, .. } ==> (
        with_user(route(request.subject(), hashes), hashes, user_id)),
        request matches UserRequest::SetUnverifiedTelegram { user_id, .. } ==> (
        with_user(route(request.subject(), hashes), hashes, user_id)),
        request matches UserRequest::GetTelegramChatId { user_id, .. } ==> (
        with_user(route(request.subject(), hashes), hashes, user_id)),
        request matches UserRequest::SetUnverifiedDiscord { user_id, .. } ==> (
        with_user(route(request.subject(), hashes), hashes, user_id)),
        request matches UserRequest::VerifyEmailChannel { user_id, .. } ==> (
        with_user(route(request.subject(), hashes), hashes, user_id)),
        request matches UserRequest::VerifyDiscordChannel { user_id, .. } ==> (
        with_user(route(request.subject(), hashes), hashes, user_id)),
        request matches UserRequest::VerifyTelegramChannel { user_id, .. } ==> (
        with_user(route(request.subject(), hashes), hashes, user_id)),
        request matches UserRequest::VerifySignalChannel { user_id, .. } ==> (
        with_user(route(request.subject(), hashes), hashes, user_id)),
        request matches UserRequest::SetEmailVerifiedFlag { user_id, .. } ==> (
        with_user(route(request.subject(), hashes), hashes, user_id)),
        request matches UserRequest::SetDiscordVerifiedFlag { user_id, .. } ==> (
        with_user(route(request.subject(), hashes), hashes, user_id)),
        request matches UserRequest::SetTelegramVerifiedFlag { user_id, .. } ==> (
        with_user(route(request.subject(), hashes), hashes, user_id)),
        request matches UserRequest::SetSignalVerifiedFlag { user_id, .. } ==> (
        with_user(route(request.subject(), hashes), hashes, user_id)),
        request matches UserRequest::SetPasswordResetCode { user_id, .. } ==> (
        with_user(route(request.subject(), hashes), hashes, user_id)),
        request matches UserRequest::ClearPasswordResetCode { user_id, .. } ==> (
        with_user(route(request.subject(), hashes), hashes, user_id)),
        request matches UserRequest::UpdatePasswordHash { user_id, .. } ==> (
        with_user(route(request.subject(), hashes), hashes, user_id)),
        request matches UserRequest::ResetPasswordWithSessions { user_id, .. } ==> (
        with_user(route(request.subject(), hashes), hashes, user_id)),
        request matches UserRequest::RemoveUserPassword { user_id, .. } ==> (
        with_user(route(request.subject(), hashes), hashes, user_id)),
        request matches UserRequest::SetNewUserPassword { user_id, .. } ==> (
        with_user(route(request.subject(), hashes), hashes, user_id)),
        request matches UserRequest::UpsertDidWebOverrides { user_id, .. } ==> (
        with_user(route(request.subject(), hashes), hashes, user_id)),
        request is GetByHandle ==> route(request.subject(), hashes) is Global,
        request is CountUsers ==> route(request.subject(), hashes) is Global,
        request is GetOAuthTokenWithUser ==> route(request.subject(), hashes) is Global,
        request is GetAnyAdminUserId ==> route(request.subject(), hashes) is Global,
        request is SearchAccounts ==> route(request.subject(), hashes) is Global,
        request is GetByEmail ==> route(request.subject(), hashes) is Global,
        request is GetLoginCheckByIdentifier ==> route(request.subject(), hashes) is Global,
        request is GetLoginInfoByIdentifier ==> route(request.subject(), hashes) is Global,
        request is GetDidWebInfoByHandle ==> route(request.subject(), hashes) is Global,
        request is GetIdByHandle ==> route(request.subject(), hashes) is Global,
        request is CheckEmailVerifiedByIdentifier ==> route(request.subject(), hashes) is Global,
        request is StoreTelegramChatId ==> route(request.subject(), hashes) is Global,
        request is StoreDiscordUserId ==> route(request.subject(), hashes) is Global,
        request is GetPasskeyByCredentialId ==> route(request.subject(), hashes) is Global,
        request is UpdatePasskeyCounter ==> route(request.subject(), hashes) is Global,
        request is SaveDiscoverableChallenge ==> route(request.subject(), hashes) is Global,
        request is LoadDiscoverableChallenge ==> route(request.subject(), hashes) is Global,
        request is DeleteDiscoverableChallenge ==> route(request.subject(), hashes) is Global,
        request is MarkBackupCodeUsed ==> route(request.subject(), hashes) is Global,
        request is GetLoginFullByIdentifier ==> route(request.subject(), hashes) is Global,
        request is GetIdByEmailOrHandle ==> route(request.subject(), hashes) is Global,
        request is CountAccountsByEmail ==> route(request.subject(), hashes) is Global,
        request is GetHandlesByEmail ==> route(request.subject(), hashes) is Global,
        request is GetUserByResetCode ==> route(request.subject(), hashes) is Global,
        request is GetUserForPasskeyRecovery ==> route(request.subject(), hashes) is Global,
        request is GetAccountsScheduledForDeletion ==> route(request.subject(), hashes) is Global,
        request is CheckHandleAvailableForNewAccount ==> route(request.subject(), hashes) is Global,
        request is ReserveHandle ==> route(request.subject(), hashes) is Global,
        request is ReleaseHandleReservation ==> route(request.subject(), hashes) is Global,
        request is CleanupExpiredHandleReservations ==> route(request.subject(), hashes) is Global,
        request is CheckAndConsumeInviteCode ==> route(request.subject(), hashes) is Global,
        request is GetPasswordResetInfo ==> route(request.subject(), hashes) is Global,
        request is ExpirePasswordResetCode ==> route(request.subject(), hashes) is Global,
{
}

} // verus!
