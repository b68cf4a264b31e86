//! What clients ask of the store.
//!
//! A request that is answered here carries all that its answer depends on. Of the others
//! the store only decides who handles them, so they name their subject alone.

use vstd::prelude::*;

use crate::backlinks::BacklinkMutation;
use crate::commit_ops::{ApplyCommitInput, ImportBlock, ImportRecord};
use crate::delegations::DelegationActionType;
use crate::events::{AccountStatus, CommitEventData};
use crate::infra_schema::{CommsChannel, CommsType};
use crate::invite_ops::InviteCodeSortOrder;
use crate::types::{CidLink, DbScope, Did, Handle, SequenceNumber, Uuid};

verus! {

/// A request to the store.
#[derive(Debug, PartialEq, Eq)]
pub enum MetastoreRequest {
    Repo(RepoRequest),
    Record(RecordRequest),
    UserBlock(UserBlockRequest),
    Event(EventRequest),
    Commit(CommitRequest),
    Backlink(BacklinkRequest),
    Blob(BlobRequest),
    Delegation(DelegationRequest),
    Sso(SsoRequest),
    Session(SessionRequest),
    Infra(InfraRequest),
    OAuth(OAuthRequest),
    User(UserRequest),
}

/// Repositories.
#[derive(Debug, PartialEq, Eq)]
pub enum RepoRequest {
    CreateRepoFull {
        user_id: Uuid,
        did: Did,
        handle: Handle,
        repo_root_cid: CidLink,
        repo_rev: String,
    },
    UpdateRepoRoot { user_id: Uuid },
    UpdateRepoRev { user_id: Uuid },
    DeleteRepo { user_id: Uuid },
    GetRepoRootForUpdate { user_id: Uuid },
    GetRepo { user_id: Uuid },
    GetRepoRootByDid { did: Did },
    CountRepos,
    GetReposWithoutRev,
    GetRepoRootCidByUserId { user_id: Uuid },
    GetAccountWithRepo { did: Did },
    ListReposPaginated,
    UpdateRepoStatus { did: Did },
}

/// Records of a repository.
#[derive(Debug, PartialEq, Eq)]
pub enum RecordRequest {
    UpsertRecords {
        repo_id: Uuid,
        collections: Vec<String>,
        rkeys: Vec<String>,
        record_cids: Vec<CidLink>,
        repo_rev: String,
    },
    DeleteRecords { repo_id: Uuid, collections: Vec<String>, rkeys: Vec<String> },
    DeleteAllRecords { repo_id: Uuid },
    GetRecordCid { repo_id: Uuid, collection: String, rkey: String },
    ListRecords { repo_id: Uuid },
    GetAllRecords { repo_id: Uuid },
    ListCollections { repo_id: Uuid },
    CountRecords { repo_id: Uuid },
    CountAllRecords,
    GetRecordByCid,
    SetRecordTakedown { scope_user: Option<Uuid> },
}

/// The blocks of a user's repository.
#[derive(Debug, PartialEq, Eq)]
pub enum UserBlockRequest {
    InsertUserBlocks { user_id: Uuid, block_cids: Vec<Vec<u8>>, repo_rev: String },
    DeleteUserBlocks { user_id: Uuid, block_cids: Vec<Vec<u8>> },
    GetUserBlockCidsSinceRev { user_id: Uuid },
    CountUserBlocks { user_id: Uuid },
}

/// The event log.
#[derive(Debug, PartialEq, Eq)]
pub enum EventRequest {
    InsertCommitEvent { data: CommitEventData },
    InsertIdentityEvent { did: Did, handle: Option<Handle> },
    InsertAccountEvent { did: Did, status: AccountStatus },
    InsertSyncEvent { did: Did, commit_cid: CidLink, rev: Option<String>, commit_bytes: Vec<u8> },
    InsertGenesisCommitEvent {
        did: Did,
        commit_cid: CidLink,
        mst_root_cid: CidLink,
        rev: String,
        commit_bytes: Vec<u8>,
        mst_root_bytes: Vec<u8>,
    },
    PurgeDidEventsKeepingLatest { did: Did },
    GetMaxSeq,
    GetMinSeqSince { since: i64 },
    GetEventsSinceSeq { since_seq: SequenceNumber, limit: Option<i64> },
    GetEventsInSeqRange { start_seq: SequenceNumber, end_seq: SequenceNumber },
    GetEventBySeq { seq: SequenceNumber },
    GetEventsSinceCursor { cursor: SequenceNumber, limit: i64 },
}

/// Commits and imports.
#[derive(Debug, PartialEq, Eq)]
pub enum CommitRequest {
    ApplyCommit { input: ApplyCommitInput },
    ImportRepoData {
        user_id: Uuid,
        blocks: Vec<ImportBlock>,
        records: Vec<ImportRecord>,
        expected_root_cid: Option<CidLink>,
    },
    GetUsersWithoutBlocks,
    GetUsersNeedingRecordBlobsBackfill { limit: i64 },
    InsertRecordBlobs { repo_id: Uuid, record_uris: Vec<String>, blob_cids: Vec<CidLink> },
}

/// Links from records.
#[derive(Debug, PartialEq, Eq)]
pub enum BacklinkRequest {
    GetBacklinkConflicts { repo_id: Uuid },
    AddBacklinks { repo_id: Uuid, backlinks: Vec<BacklinkMutation> },
    RemoveBacklinksByUri { uri: String, did: Option<Did> },
    RemoveBacklinksByRepo { repo_id: Uuid },
}

/// Blobs.
#[derive(Debug, PartialEq, Eq)]
pub enum BlobRequest {
    InsertBlob { cid: String },
    GetBlobMetadata,
    GetBlobWithTakedown,
    GetBlobStorageKey,
    ListBlobsByUser { user_id: Uuid },
    ListBlobsSinceRev { did: Did, since: String },
    CountBlobsByUser { user_id: Uuid },
    SumBlobStorage,
    UpdateBlobTakedown { cid: String },
    DeleteBlobByCid { cid: String },
    DeleteBlobsByUser { user_id: Uuid },
    GetBlobStorageKeysByUser { user_id: Uuid },
    ListMissingBlobs { repo_id: Uuid },
    CountDistinctRecordBlobs { repo_id: Uuid },
    GetBlobsForExport { repo_id: Uuid },
}

/// Delegations.
#[derive(Debug, PartialEq, Eq)]
pub enum DelegationRequest {
    IsDelegatedAccount { did: Did },
    CreateDelegation {
        delegated_did: Did,
        controller_did: Did,
        granted_scopes: DbScope,
        granted_by: Did,
    },
    RevokeDelegation { delegated_did: Did, controller_did: Did, revoked_by: Did },
    UpdateDelegationScopes { delegated_did: Did, controller_did: Did, new_scopes: DbScope },
    GetDelegation { delegated_did: Did, controller_did: Did },
    GetDelegationsForAccount { delegated_did: Did },
    GetAccountsControlledBy { controller_did: Did },
    CountActiveControllers { delegated_did: Did },
    ControlsAnyAccounts { did: Did },
    LogDelegationAction {
        delegated_did: Did,
        actor_did: Did,
        controller_did: Option<Did>,
        action_type: DelegationActionType,
        action_details: Option<Vec<u8>>,
        ip_address: Option<String>,
        user_agent: Option<String>,
    },
    GetAuditLogForAccount { delegated_did: Did, limit: i64, offset: i64 },
    CountAuditLogEntries { delegated_did: Did },
}

/// Sign-on by other providers.
#[derive(Debug, PartialEq, Eq)]
pub enum SsoRequest {
    CreateExternalIdentity { did: Did },
    GetExternalIdentityByProvider,
    GetExternalIdentitiesByDid { did: Did },
    UpdateExternalIdentityLogin,
    DeleteExternalIdentity { did: Did },
    CreateSsoAuthState,
    ConsumeSsoAuthState,
    CleanupExpiredSsoAuthStates,
    CreatePendingRegistration,
    GetPendingRegistration,
    ConsumePendingRegistration,
    CleanupExpiredPendingRegistrations,
}

/// Sessions and app passwords.
#[derive(Debug, PartialEq, Eq)]
pub enum SessionRequest {
    CreateSession,
    GetSessionByAccessJti,
    GetSessionForRefresh,
    UpdateSessionTokens,
    DeleteSessionByAccessJti,
    DeleteSessionById,
    DeleteSessionsByDid { did: Did },
    DeleteSessionsByDidExceptJti { did: Did },
    ListSessionsByDid { did: Did },
    GetSessionAccessJtiById { did: Did },
    DeleteSessionsByAppPassword { did: Did },
    GetSessionJtisByAppPassword { did: Did },
    CheckRefreshTokenUsed,
    MarkRefreshTokenUsed,
    ListAppPasswords { user_id: Uuid },
    GetAppPasswordsForLogin { user_id: Uuid },
    GetAppPasswordByName { user_id: Uuid },
    CreateAppPassword { user_id: Uuid },
    DeleteAppPassword { user_id: Uuid },
    DeleteAppPasswordsByController { did: Did },
    GetLastReauthAt { did: Did },
    UpdateLastReauth { did: Did },
    GetSessionMfaStatus { did: Did },
    UpdateMfaVerified { did: Did },
    GetAppPasswordHashesByDid { did: Did },
    RefreshSessionAtomic,
}

/// Account infrastructure.
#[derive(Debug, PartialEq, Eq)]
pub enum InfraRequest {
    EnqueueComms {
        user_id: Option<Uuid>,
        channel: CommsChannel,
        comms_type: CommsType,
        recipient: String,
        subject: Option<String>,
        body: String,
        metadata: Option<Vec<u8>>,
    },
    FetchPendingComms { now: i64, batch_size: i64 },
    MarkCommsSent { id: Uuid },
    MarkCommsFailed { id: Uuid, error: String },
    MarkCommsFailedPermanent { id: Uuid, error: String },
    CreateInviteCode { code: String, use_count: i32, for_account: Option<Did> },
    CreateInviteCodesBatch {
        codes: Vec<String>,
        use_count: i32,
        created_by_user: Uuid,
        for_account: Option<Did>,
    },
    GetInviteCodeAvailableUses { code: String },
    ValidateInviteCode { code: String },
    DecrementInviteCodeUses { code: String },
    RecordInviteCodeUse { code: String, used_by_user: Uuid },
    GetInviteCodesForAccount { for_account: Did },
    GetInviteCodeUses { code: String },
    DisableInviteCodesByCode { codes: Vec<String> },
    DisableInviteCodesByAccount { accounts: Vec<Did> },
    ListInviteCodes { cursor: Option<String>, limit: i64, sort: InviteCodeSortOrder },
    GetUserDidsByIds { user_ids: Vec<Uuid> },
    GetInviteCodeUsesBatch { codes: Vec<String> },
    GetInvitesCreatedByUser { user_id: Uuid },
    GetInviteCodeInfo { code: String },
    GetInviteCodesByUsers { user_ids: Vec<Uuid> },
    GetInviteCodeUsedByUser { user_id: Uuid },
    DeleteInviteCodeUsesByUser { user_id: Uuid },
    DeleteInviteCodesByUser { user_id: Uuid },
    ReserveSigningKey {
        did: Option<Did>,
        public_key_did_key: String,
        private_key_bytes: Vec<u8>,
        expires_at: i64,
    },
    GetReservedSigningKey { public_key_did_key: String },
    MarkSigningKeyUsed { key_id: Uuid },
    CreateDeletionRequest { token: String, did: Did, expires_at: i64 },
    GetDeletionRequest { token: String },
    DeleteDeletionRequest { token: String },
    DeleteDeletionRequestsByDid { did: Did },
    UpsertAccountPreference { user_id: Uuid, name: String, value_json: Vec<u8> },
    InsertAccountPreferenceIfNotExists { user_id: Uuid, name: String, value_json: Vec<u8> },
    GetServerConfig { key: String },
    InsertReport {
        id: i64,
        reason_type: String,
        reason: Option<String>,
        subject_json: Vec<u8>,
        reported_by_did: Did,
        created_at: i64,
    },
    DeletePlcTokensForUser { user_id: Uuid },
    InsertPlcToken { user_id: Uuid, token: String, expires_at: i64 },
    GetPlcTokenExpiry { user_id: Uuid, token: String },
    DeletePlcToken { user_id: Uuid, token: String },
    GetAccountPreferences { user_id: Uuid },
    ReplaceNamespacePreferences {
        user_id: Uuid,
        namespace: String,
        preferences: Vec<(String, Vec<u8>)>,
    },
    GetNotificationHistory { user_id: Uuid, limit: i64 },
    GetServerConfigs { keys: Vec<String> },
    UpsertServerConfig { key: String, value: String },
    DeleteServerConfig { key: String },
    GetBlobStorageKeyByCid { cid: String },
    DeleteBlobByCid { cid: String },
    GetAdminAccountInfoByDid { did: Did },
    GetAdminAccountInfosByDids { dids: Vec<Did> },
    GetInviteCodeUsesByUsers { user_ids: Vec<Uuid> },
    GetDeletionRequestByDid { did: Did },
    GetLatestCommsForUser { user_id: Uuid, comms_type: CommsType, limit: i64 },
    CountCommsByType { user_id: Uuid, comms_type: CommsType },
    DeleteCommsByTypeForUser { user_id: Uuid, comms_type: CommsType },
    ExpireDeletionRequest { token: String },
    GetReservedSigningKeyFull { public_key_did_key: String },
    GetPlcTokensByDid { did: Did },
    CountPlcTokensByDid { did: Did },
}

/// Authorizations of clients.
#[derive(Debug, PartialEq, Eq)]
pub enum OAuthRequest {
    CreateToken,
    GetTokenById,
    GetTokenByRefreshToken,
    GetTokenByPreviousRefreshToken,
    RotateToken,
    CheckRefreshTokenUsed,
    DeleteToken,
    DeleteTokenFamily,
    ListTokensForUser { did: Did },
    CountTokensForUser { did: Did },
    DeleteOldestTokensForUser { did: Did },
    RevokeTokensForClient { did: Did },
    RevokeTokensForController { delegated_did: Did },
    CreateAuthorizationRequest,
    GetAuthorizationRequest,
    SetAuthorizationDid { did: Did },
    UpdateAuthorizationRequest { did: Did },
    ConsumeAuthorizationRequestByCode,
    DeleteAuthorizationRequest,
    DeleteExpiredAuthorizationRequests,
    ExtendAuthorizationRequestExpiry,
    MarkRequestAuthenticated { did: Did },
    UpdateRequestScope,
    SetControllerDid,
    SetRequestDid { did: Did },
    CreateDevice,
    GetDevice,
    UpdateDeviceLastSeen,
    DeleteDevice,
    UpsertAccountDevice { did: Did },
    GetDeviceAccounts,
    VerifyAccountOnDevice { did: Did },
    CheckAndRecordDpopJti,
    CleanupExpiredDpopJtis,
    Create2faChallenge { did: Did },
    Get2faChallenge,
    Increment2faAttempts,
    Delete2faChallenge,
    Delete2faChallengeByRequestUri,
    CleanupExpired2faChallenges,
    CheckUser2faEnabled { did: Did },
    GetScopePreferences { did: Did },
    UpsertScopePreferences { did: Did },
    DeleteScopePreferences { did: Did },
    UpsertAuthorizedClient { did: Did },
    GetAuthorizedClient { did: Did },
    ListTrustedDevices { did: Did },
    GetDeviceTrustInfo { did: Did },
    DeviceBelongsToUser { did: Did },
    RevokeDeviceTrust,
    UpdateDeviceFriendlyName,
    TrustDevice,
    ExtendDeviceTrust,
    ListSessionsByDid { did: Did },
    DeleteSessionById { did: Did },
    DeleteSessionsByDid { did: Did },
    DeleteSessionsByDidExcept { did: Did },
    Get2faChallengeCode,
}

/// Users.
#[derive(Debug, PartialEq, Eq)]
pub enum UserRequest {
    GetByDid { did: Did },
    GetByHandle,
    GetWithKeyByDid { did: Did },
    GetStatusByDid { did: Did },
    CountUsers,
    GetSessionAccessExpiry { did: Did },
    GetOAuthTokenWithUser,
    GetUserInfoByDid { did: Did },
    GetAnyAdminUserId,
    SetInvitesDisabled { did: Did },
    SearchAccounts,
    GetAuthInfoByDid { did: Did },
    GetByEmail,
    GetLoginCheckByIdentifier,
    GetLoginInfoByIdentifier,
    Get2faStatusByDid { did: Did },
    GetCommsPrefs { user_id: Uuid },
    GetIdByDid { did: Did },
    GetUserKeyById { user_id: Uuid },
    GetIdAndHandleByDid { did: Did },
    GetDidWebInfoByHandle,
    GetDidWebOverrides { user_id: Uuid },
    GetHandleByDid { did: Did },
    IsAccountActiveByDid { did: Did },
    GetUserForDeletion { did: Did },
    CheckHandleExists { exclude_user_id: Uuid },
    UpdateHandle { user_id: Uuid },
    GetUserWithKeyByDid { did: Did },
    IsAccountMigrated { did: Did },
    HasVerifiedCommsChannel { did: Did },
    GetIdByHandle,
    GetEmailInfoByDid { did: Did },
    CheckEmailExists { exclude_user_id: Uuid },
    UpdateEmail { user_id: Uuid },
    SetEmailVerified { user_id: Uuid },
    CheckEmailVerifiedByIdentifier,
    CheckChannelVerifiedByDid { did: Did },
    AdminUpdateEmail { did: Did },
    AdminUpdateHandle { did: Did },
    AdminUpdatePassword { did: Did },
    SetAdminStatus { did: Did },
    GetNotificationPrefs { did: Did },
    GetIdHandleEmailByDid { did: Did },
    UpdatePreferredCommsChannel { did: Did },
    ClearDiscord { user_id: Uuid },
    ClearTelegram { user_id: Uuid },
    ClearSignal { user_id: Uuid },
    SetUnverifiedSignal { user_id: Uuid },
    SetUnverifiedTelegram { user_id: Uuid },
    StoreTelegramChatId,
    GetTelegramChatId { user_id: Uuid },
    SetUnverifiedDiscord { user_id: Uuid },
    StoreDiscordUserId,
    GetVerificationInfo { did: Did },
    VerifyEmailChannel { user_id: Uuid },
    VerifyDiscordChannel { user_id: Uuid },
    VerifyTelegramChannel { user_id: Uuid },
    VerifySignalChannel { user_id: Uuid },
    SetEmailVerifiedFlag { user_id: Uuid },
    SetDiscordVerifiedFlag { user_id: Uuid },
    SetTelegramVerifiedFlag { user_id: Uuid },
    SetSignalVerifiedFlag { user_id: Uuid },
    HasTotpEnabled { did: Did },
    HasPasskeys { did: Did },
    GetPasswordHashByDid { did: Did },
    GetPasskeysForUser { did: Did },
    GetPasskeyByCredentialId,
    SavePasskey { did: Did },
    UpdatePasskeyCounter,
    DeletePasskey { did: Did },
    UpdatePasskeyName { did: Did },
    SaveWebauthnChallenge { did: Did },
    LoadWebauthnChallenge { did: Did },
    DeleteWebauthnChallenge { did: Did },
    SaveDiscoverableChallenge,
    LoadDiscoverableChallenge,
    DeleteDiscoverableChallenge,
    GetTotpRecord { did: Did },
    GetTotpRecordState { did: Did },
    UpsertTotpSecret { did: Did },
    SetTotpVerified { did: Did },
    UpdateTotpLastUsed { did: Did },
    DeleteTotp { did: Did },
    GetUnusedBackupCodes { did: Did },
    MarkBackupCodeUsed,
    CountUnusedBackupCodes { did: Did },
    DeleteBackupCodes { did: Did },
    InsertBackupCodes { did: Did },
    EnableTotpWithBackupCodes { did: Did },
    DeleteTotpAndBackupCodes { did: Did },
    ReplaceBackupCodes { did: Did },
    GetSessionInfoByDid { did: Did },
    GetLegacyLoginPref { did: Did },
    UpdateLegacyLogin { did: Did },
    UpdateLocale { did: Did },
    GetLoginFullByIdentifier,
    GetConfirmSignupByDid { did: Did },
    GetResendVerificationByDid { did: Did },
    SetChannelVerified { did: Did },
    GetIdByEmailOrHandle,
    CountAccountsByEmail,
    GetHandlesByEmail,
    SetPasswordResetCode { user_id: Uuid },
    GetUserByResetCode,
    ClearPasswordResetCode { user_id: Uuid },
    GetIdAndPasswordHashByDid { did: Did },
    UpdatePasswordHash { user_id: Uuid },
    ResetPasswordWithSessions { user_id: Uuid },
    ActivateAccount { did: Did },
    DeactivateAccount { did: Did },
    HasPasswordByDid { did: Did },
    GetPasswordInfoByDid { did: Did },
    RemoveUserPassword { user_id: Uuid },
    SetNewUserPassword { user_id: Uuid },
    GetUserKeyByDid { did: Did },
    DeleteAccountComplete { did: Did },
    SetUserTakedown { did: Did },
    AdminDeleteAccountComplete { did: Did },
    GetUserForDidDoc { did: Did },
    GetUserForDidDocBuild { did: Did },
    UpsertDidWebOverrides { user_id: Uuid },
    UpdateMigratedToPds { did: Did },
    GetUserForPasskeySetup { did: Did },
    GetUserForPasskeyRecovery,
    SetRecoveryToken { did: Did },
    GetUserForRecovery { did: Did },
    GetAccountsScheduledForDeletion,
    DeleteAccountWithFirehose { did: Did },
    CreatePasswordAccount { did: Did },
    CreateDelegatedAccount { did: Did },
    CreatePasskeyAccount { did: Did },
    CreateSsoAccount { did: Did },
    ReactivateMigrationAccount { did: Did },
    CheckHandleAvailableForNewAccount,
    ReserveHandle,
    ReleaseHandleReservation,
    CleanupExpiredHandleReservations,
    CheckAndConsumeInviteCode { code: String },
    CompletePasskeySetup { did: Did },
    RecoverPasskeyAccount { did: Did },
    GetPasswordResetInfo,
    EnableTotpVerified { did: Did },
    SetTwoFactorEnabled { did: Did },
    ExpirePasswordResetCode,
}

} // verus!
