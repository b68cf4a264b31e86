//! Who handles a request: all requests about one account go to the same handler, one
//! after the other.

use vstd::prelude::*;
use vstd::utf8::encode_utf8;

use crate::keys::{did_hash, sip_hash, siphash24, UserHash};
use crate::requests::{BacklinkRequest, BlobRequest, CommitRequest, DelegationRequest, EventRequest};
use crate::requests::{InfraRequest, MetastoreRequest, OAuthRequest, RecordRequest, RepoRequest};
use crate::requests::{SessionRequest, SsoRequest, UserBlockRequest, UserRequest};
use crate::types::{Did, Uuid};
use crate::user_hash::{hash_of, UserHashMap, UserHashes};

verus! {

/// Which handlers may take a request.
#[derive(Debug, Clone, Copy, PartialEq, Eq, Structural)]
pub enum Routing {
    /// The one that these bits stand for.
    Sharded(u64),
    /// Any.
    Global,
}

/// What a request is about.
pub enum Subject {
    /// The account with a DID.
    Account(Seq<char>),
    User(Uuid),
    /// The blob with a content identifier.
    Content(Seq<char>),
    /// Nothing in particular.
    Anything,
}

/// The last eight bytes of an identifier.
pub open spec fn low_bits(id: Uuid) -> u64 {
    (id.bits as nat % 0x1_0000_0000_0000_0000) as u64
}

/// Where a request about a subject goes. A user who is not known yet has no hash; the
/// user's identifier stands in for it. The text of a content identifier is hashed with the
/// byte that ends texts.
pub open spec fn route(subject: Subject, hashes: UserHashes) -> Routing {
    match subject {
        Subject::Account(did) => Routing::Sharded(did_hash(did)),
        Subject::User(id) => match hash_of(hashes, id) {
            Some(h) => Routing::Sharded(h),
            None => Routing::Sharded(low_bits(id)),
        },
        Subject::Content(cid) => Routing::Sharded(siphash24(encode_utf8(cid).push(0xFF))),
        Subject::Anything => Routing::Global,
    }
}

/// Requests about a user go where requests about the user's account go, once the user is
/// known by the hash of the account's DID.
pub proof fn user_and_account_share_a_handler(hashes: UserHashes, id: Uuid, did: Seq<char>)
    requires
        hash_of(hashes, id) == Some(did_hash(did)),
    ensures
        route(Subject::User(id), hashes) == route(Subject::Account(did), hashes),
{
}

pub fn uuid_to_routing(user_hashes: &UserHashMap, user_id: &Uuid) -> (r: Routing)
    ensures
        r == route(Subject::User(*user_id), user_hashes@),
{
    match user_hashes.get(user_id) {
        Some(h) => Routing::Sharded(h.raw()),
        None => Routing::Sharded((user_id.bits % 0x1_0000_0000_0000_0000) as u64),
    }
}

pub fn did_to_routing(did: &str) -> (r: Routing)
    ensures
        forall|hashes: UserHashes| r == #[trigger] route(Subject::Account(did@), hashes),
{
    Routing::Sharded(UserHash::from_did(did).raw())
}

pub fn cid_to_routing(cid: &str) -> (r: Routing)
    ensures
        forall|hashes: UserHashes| r == #[trigger] route(Subject::Content(cid@), hashes),
{
    let mut bytes: Vec<u8> = crate::bytes::copy_bytes(cid.as_bytes());
    bytes.push(0xFF);
    assert(bytes@ =~= encode_utf8(cid@).push(0xFF));
    Routing::Sharded(sip_hash(bytes.as_slice()))
}

pub open spec fn optional_user(id: Option<Uuid>) -> Subject {
    match id {
        Some(id) => Subject::User(id),
        None => Subject::Anything,
    }
}

fn optional_user_to_routing(user_hashes: &UserHashMap, id: &Option<Uuid>) -> (r: Routing)
    ensures
        r == route(optional_user(*id), user_hashes@),
{
    match id {
        Some(id) => uuid_to_routing(user_hashes, id),
        None => Routing::Global,
    }
}

pub open spec fn optional_account(did: Option<Seq<char>>) -> Subject {
    match did {
        Some(did) => Subject::Account(did),
        None => Subject::Anything,
    }
}

fn optional_did_to_routing(did: &Option<Did>) -> (r: Routing)
    ensures
        forall|hashes: UserHashes|
            r == #[trigger] route(optional_account(did.deep_view()), hashes),
{
    match did {
        Some(did) => did_to_routing(did.as_str()),
        None => Routing::Global,
    }
}

impl RepoRequest {
    pub open spec fn subject(self) -> Subject {
        match self {
            RepoRequest::CreateRepoFull { did, .. }
            | RepoRequest::GetRepoRootByDid { did, .. }
            | RepoRequest::GetAccountWithRepo { did, .. }
            | RepoRequest::UpdateRepoStatus { did, .. } => Subject::Account(did@),
            RepoRequest::UpdateRepoRoot { user_id, .. }
            | RepoRequest::UpdateRepoRev { user_id, .. }
            | RepoRequest::DeleteRepo { user_id, .. }
            | RepoRequest::GetRepoRootForUpdate { user_id, .. }
            | RepoRequest::GetRepo { user_id, .. }
            | RepoRequest::GetRepoRootCidByUserId { user_id, .. } => Subject::User(user_id),
            RepoRequest::CountRepos
            | RepoRequest::GetReposWithoutRev
            | RepoRequest::ListReposPaginated => Subject::Anything,
        }
    }

    pub fn routing(&self, user_hashes: &UserHashMap) -> (r: Routing)
        ensures
            r == route(self.subject(), user_hashes@),
    {
        match self {
            RepoRequest::CreateRepoFull { did, .. }
            | RepoRequest::GetRepoRootByDid { did, .. }
            | RepoRequest::GetAccountWithRepo { did, .. }
            | RepoRequest::UpdateRepoStatus { did, .. } => did_to_routing(did.as_str()),
            RepoRequest::UpdateRepoRoot { user_id, .. }
            | RepoRequest::UpdateRepoRev { user_id, .. }
            | RepoRequest::DeleteRepo { user_id, .. }
            | RepoRequest::GetRepoRootForUpdate { user_id, .. }
            | RepoRequest::GetRepo { user_id, .. }
            | RepoRequest::GetRepoRootCidByUserId { user_id, .. } => uuid_to_routing(user_hashes, user_id),
            RepoRequest::CountRepos
            | RepoRequest::GetReposWithoutRev
            | RepoRequest::ListReposPaginated => Routing::Global,
        }
    }
}

impl RecordRequest {
    pub open spec fn subject(self) -> Subject {
        match self {
            RecordRequest::UpsertRecords { repo_id: user_id, .. }
            | RecordRequest::DeleteRecords { repo_id: user_id, .. }
            | RecordRequest::DeleteAllRecords { repo_id: user_id, .. }
            | RecordRequest::GetRecordCid { repo_id: user_id, .. }
            | RecordRequest::ListRecords { repo_id: user_id, .. }
            | RecordRequest::GetAllRecords { repo_id: user_id, .. }
            | RecordRequest::ListCollections { repo_id: user_id, .. }
            | RecordRequest::CountRecords { repo_id: user_id, .. } => Subject::User(user_id),
            RecordRequest::SetRecordTakedown { scope_user: id, .. } => optional_user(id),
            RecordRequest::CountAllRecords
            | RecordRequest::GetRecordByCid => Subject::Anything,
        }
    }

    pub fn routing(&self, user_hashes: &UserHashMap) -> (r: Routing)
        ensures
            r == route(self.subject(), user_hashes@),
    {
        match self {
            RecordRequest::UpsertRecords { repo_id: user_id, .. }
            | RecordRequest::DeleteRecords { repo_id: user_id, .. }
            | RecordRequest::DeleteAllRecords { repo_id: user_id, .. }
            | RecordRequest::GetRecordCid { repo_id: user_id, .. }
            | RecordRequest::ListRecords { repo_id: user_id, .. }
            | RecordRequest::GetAllRecords { repo_id: user_id, .. }
            | RecordRequest::ListCollections { repo_id: user_id, .. }
            | RecordRequest::CountRecords { repo_id: user_id, .. } => uuid_to_routing(user_hashes, user_id),
            RecordRequest::SetRecordTakedown { scope_user: id, .. } => optional_user_to_routing(user_hashes, id),
            RecordRequest::CountAllRecords
            | RecordRequest::GetRecordByCid => Routing::Global,
        }
    }
}

impl UserBlockRequest {
    pub open spec fn subject(self) -> Subject {
        match self {
            UserBlockRequest::InsertUserBlocks { user_id, .. }
            | UserBlockRequest::DeleteUserBlocks { user_id, .. }
            | UserBlockRequest::GetUserBlockCidsSinceRev { user_id, .. }
            | UserBlockRequest::CountUserBlocks { user_id, .. } => Subject::User(user_id),
        }
    }

    pub fn routing(&self, user_hashes: &UserHashMap) -> (r: Routing)
        ensures
            r == route(self.subject(), user_hashes@),
    {
        match self {
            UserBlockRequest::InsertUserBlocks { user_id, .. }
            | UserBlockRequest::DeleteUserBlocks { user_id, .. }
            | UserBlockRequest::GetUserBlockCidsSinceRev { user_id, .. }
            | UserBlockRequest::CountUserBlocks { user_id, .. } => uuid_to_routing(user_hashes, user_id),
        }
    }
}

impl EventRequest {
    pub open spec fn subject(self) -> Subject {
        match self {
            EventRequest::InsertIdentityEvent { did, .. }
            | EventRequest::InsertAccountEvent { did, .. }
            | EventRequest::InsertSyncEvent { did, .. }
            | EventRequest::InsertGenesisCommitEvent { did, .. }
            | EventRequest::PurgeDidEventsKeepingLatest { did, .. } => Subject::Account(did@),
            EventRequest::InsertCommitEvent { data, .. } => Subject::Account(data.did@),
            EventRequest::GetMaxSeq
            | EventRequest::GetMinSeqSince { .. }
            | EventRequest::GetEventsSinceSeq { .. }
            | EventRequest::GetEventsInSeqRange { .. }
            | EventRequest::GetEventBySeq { .. }
            | EventRequest::GetEventsSinceCursor { .. } => Subject::Anything,
        }
    }

    pub fn routing(&self) -> (r: Routing)
        ensures
            forall|hashes: UserHashes| r == #[trigger] route(self.subject(), hashes),
    {
        match self {
            EventRequest::InsertIdentityEvent { did, .. }
            | EventRequest::InsertAccountEvent { did, .. }
            | EventRequest::InsertSyncEvent { did, .. }
            | EventRequest::InsertGenesisCommitEvent { did, .. }
            | EventRequest::PurgeDidEventsKeepingLatest { did, .. } => did_to_routing(did.as_str()),
            EventRequest::InsertCommitEvent { data, .. } => did_to_routing(data.did.as_str()),
            EventRequest::GetMaxSeq
            | EventRequest::GetMinSeqSince { .. }
            | EventRequest::GetEventsSinceSeq { .. }
            | EventRequest::GetEventsInSeqRange { .. }
            | EventRequest::GetEventBySeq { .. }
            | EventRequest::GetEventsSinceCursor { .. } => Routing::Global,
        }
    }
}

impl CommitRequest {
    pub open spec fn subject(self) -> Subject {
        match self {
            CommitRequest::ApplyCommit { input, .. } => Subject::Account(input.did@),
            CommitRequest::ImportRepoData { user_id, .. }
            | CommitRequest::InsertRecordBlobs { repo_id: user_id, .. } => Subject::User(user_id),
            CommitRequest::GetUsersWithoutBlocks
            | CommitRequest::GetUsersNeedingRecordBlobsBackfill { .. } => Subject::Anything,
        }
    }

    pub fn routing(&self, user_hashes: &UserHashMap) -> (r: Routing)
        ensures
            r == route(self.subject(), user_hashes@),
    {
        match self {
            CommitRequest::ApplyCommit { input, .. } => did_to_routing(input.did.as_str()),
            CommitRequest::ImportRepoData { user_id, .. }
            | CommitRequest::InsertRecordBlobs { repo_id: user_id, .. } => uuid_to_routing(user_hashes, user_id),
            CommitRequest::GetUsersWithoutBlocks
            | CommitRequest::GetUsersNeedingRecordBlobsBackfill { .. } => Routing::Global,
        }
    }
}

impl BacklinkRequest {
    pub open spec fn subject(self) -> Subject {
        match self {
            BacklinkRequest::GetBacklinkConflicts { repo_id: user_id, .. }
            | BacklinkRequest::AddBacklinks { repo_id: user_id, .. }
            | BacklinkRequest::RemoveBacklinksByRepo { repo_id: user_id, .. } => Subject::User(user_id),
            BacklinkRequest::RemoveBacklinksByUri { did, .. } => optional_account(did.deep_view()),
        }
    }

    pub fn routing(&self, user_hashes: &UserHashMap) -> (r: Routing)
        ensures
            r == route(self.subject(), user_hashes@),
    {
        match self {
            BacklinkRequest::GetBacklinkConflicts { repo_id: user_id, .. }
            | BacklinkRequest::AddBacklinks { repo_id: user_id, .. }
            | BacklinkRequest::RemoveBacklinksByRepo { repo_id: user_id, .. } => uuid_to_routing(user_hashes, user_id),
            BacklinkRequest::RemoveBacklinksByUri { did, .. } => optional_did_to_routing(did),
        }
    }
}

impl BlobRequest {
    pub open spec fn subject(self) -> Subject {
        match self {
            BlobRequest::ListBlobsSinceRev { did, .. } => Subject::Account(did@),
            BlobRequest::ListBlobsByUser { user_id, .. }
            | BlobRequest::CountBlobsByUser { user_id, .. }
            | BlobRequest::DeleteBlobsByUser { user_id, .. }
            | BlobRequest::GetBlobStorageKeysByUser { user_id, .. }
            | BlobRequest::ListMissingBlobs { repo_id: user_id, .. }
            | BlobRequest::CountDistinctRecordBlobs { repo_id: user_id, .. }
            | BlobRequest::GetBlobsForExport { repo_id: user_id, .. } => Subject::User(user_id),
            BlobRequest::InsertBlob { cid, .. }
            | BlobRequest::UpdateBlobTakedown { cid, .. }
            | BlobRequest::DeleteBlobByCid { cid, .. } => Subject::Content(cid@),
            BlobRequest::GetBlobMetadata
            | BlobRequest::GetBlobWithTakedown
            | BlobRequest::GetBlobStorageKey
            | BlobRequest::SumBlobStorage => Subject::Anything,
        }
    }

    pub fn routing(&self, user_hashes: &UserHashMap) -> (r: Routing)
        ensures
            r == route(self.subject(), user_hashes@),
    {
        match self {
            BlobRequest::ListBlobsSinceRev { did, .. } => did_to_routing(did.as_str()),
            BlobRequest::ListBlobsByUser { user_id, .. }
            | BlobRequest::CountBlobsByUser { user_id, .. }
            | BlobRequest::DeleteBlobsByUser { user_id, .. }
            | BlobRequest::GetBlobStorageKeysByUser { user_id, .. }
            | BlobRequest::ListMissingBlobs { repo_id: user_id, .. }
            | BlobRequest::CountDistinctRecordBlobs { repo_id: user_id, .. }
            | BlobRequest::GetBlobsForExport { repo_id: user_id, .. } => uuid_to_routing(user_hashes, user_id),
            BlobRequest::InsertBlob { cid, .. }
            | BlobRequest::UpdateBlobTakedown { cid, .. }
            | BlobRequest::DeleteBlobByCid { cid, .. } => cid_to_routing(cid.as_str()),
            BlobRequest::GetBlobMetadata
            | BlobRequest::GetBlobWithTakedown
            | BlobRequest::GetBlobStorageKey
            | BlobRequest::SumBlobStorage => Routing::Global,
        }
    }
}

impl DelegationRequest {
    pub open spec fn subject(self) -> Subject {
        match self {
            DelegationRequest::IsDelegatedAccount { did, .. }
            | DelegationRequest::CreateDelegation { delegated_did: did, .. }
            | DelegationRequest::RevokeDelegation { delegated_did: did, .. }
            | DelegationRequest::UpdateDelegationScopes { delegated_did: did, .. }
            | DelegationRequest::GetDelegation { delegated_did: did, .. }
            | DelegationRequest::GetDelegationsForAccount { delegated_did: did, .. }
            | DelegationRequest::GetAccountsControlledBy { controller_did: did, .. }
            | DelegationRequest::CountActiveControllers { delegated_did: did, .. }
            | DelegationRequest::ControlsAnyAccounts { did, .. }
            | DelegationRequest::LogDelegationAction { delegated_did: did, .. }
            | DelegationRequest::GetAuditLogForAccount { delegated_did: did, .. }
            | DelegationRequest::CountAuditLogEntries { delegated_did: did, .. } => Subject::Account(did@),
        }
    }

    pub fn routing(&self) -> (r: Routing)
        ensures
            forall|hashes: UserHashes| r == #[trigger] route(self.subject(), hashes),
    {
        match self {
            DelegationRequest::IsDelegatedAccount { did, .. }
            | DelegationRequest::CreateDelegation { delegated_did: did, .. }
            | DelegationRequest::RevokeDelegation { delegated_did: did, .. }
            | DelegationRequest::UpdateDelegationScopes { delegated_did: did, .. }
            | DelegationRequest::GetDelegation { delegated_did: did, .. }
            | DelegationRequest::GetDelegationsForAccount { delegated_did: did, .. }
            | DelegationRequest::GetAccountsControlledBy { controller_did: did, .. }
            | DelegationRequest::CountActiveControllers { delegated_did: did, .. }
            | DelegationRequest::ControlsAnyAccounts { did, .. }
            | DelegationRequest::LogDelegationAction { delegated_did: did, .. }
            | DelegationRequest::GetAuditLogForAccount { delegated_did: did, .. }
            | DelegationRequest::CountAuditLogEntries { delegated_did: did, .. } => did_to_routing(did.as_str()),
        }
    }
}

impl SsoRequest {
    pub open spec fn subject(self) -> Subject {
        match self {
            SsoRequest::CreateExternalIdentity { did, .. }
            | SsoRequest::GetExternalIdentitiesByDid { did, .. }
            | SsoRequest::DeleteExternalIdentity { did, .. } => Subject::Account(did@),
            SsoRequest::GetExternalIdentityByProvider
            | SsoRequest::UpdateExternalIdentityLogin
            | SsoRequest::CreateSsoAuthState
            | SsoRequest::ConsumeSsoAuthState
            | SsoRequest::CleanupExpiredSsoAuthStates
            | SsoRequest::CreatePendingRegistration
            | SsoRequest::GetPendingRegistration
            | SsoRequest::ConsumePendingRegistration
            | SsoRequest::CleanupExpiredPendingRegistrations => Subject::Anything,
        }
    }

    pub fn routing(&self) -> (r: Routing)
        ensures
            forall|hashes: UserHashes| r == #[trigger] route(self.subject(), hashes),
    {
        match self {
            SsoRequest::CreateExternalIdentity { did, .. }
            | SsoRequest::GetExternalIdentitiesByDid { did, .. }
            | SsoRequest::DeleteExternalIdentity { did, .. } => did_to_routing(did.as_str()),
            SsoRequest::GetExternalIdentityByProvider
            | SsoRequest::UpdateExternalIdentityLogin
            | SsoRequest::CreateSsoAuthState
            | SsoRequest::ConsumeSsoAuthState
            | SsoRequest::CleanupExpiredSsoAuthStates
            | SsoRequest::CreatePendingRegistration
            | SsoRequest::GetPendingRegistration
            | SsoRequest::ConsumePendingRegistration
            | SsoRequest::CleanupExpiredPendingRegistrations => Routing::Global,
        }
    }
}

impl SessionRequest {
    pub open spec fn subject(self) -> Subject {
        match self {
            SessionRequest::DeleteSessionsByDid { did, .. }
            | SessionRequest::DeleteSessionsByDidExceptJti { did, .. }
            | SessionRequest::ListSessionsByDid { did, .. }
            | SessionRequest::GetSessionAccessJtiById { did, .. }
            | SessionRequest::DeleteSessionsByAppPassword { did, .. }
            | SessionRequest::GetSessionJtisByAppPassword { did, .. }
            | SessionRequest::DeleteAppPasswordsByController { did, .. }
            | SessionRequest::GetLastReauthAt { did, .. }
            | SessionRequest::UpdateLastReauth { did, .. }
            | SessionRequest::GetSessionMfaStatus { did, .. }
            | SessionRequest::UpdateMfaVerified { did, .. }
            | SessionRequest::GetAppPasswordHashesByDid { did, .. } => Subject::Account(did@),
            SessionRequest::ListAppPasswords { user_id, .. }
            | SessionRequest::GetAppPasswordsForLogin { user_id, .. }
            | SessionRequest::GetAppPasswordByName { user_id, .. }
            | SessionRequest::CreateAppPassword { user_id, .. }
            | SessionRequest::DeleteAppPassword { user_id, .. } => Subject::User(user_id),
            SessionRequest::CreateSession
            | SessionRequest::GetSessionByAccessJti
            | SessionRequest::GetSessionForRefresh
            | SessionRequest::UpdateSessionTokens
            | SessionRequest::DeleteSessionByAccessJti
            | SessionRequest::DeleteSessionById
            | SessionRequest::CheckRefreshTokenUsed
            | SessionRequest::MarkRefreshTokenUsed
            | SessionRequest::RefreshSessionAtomic => Subject::Anything,
        }
    }

    pub fn routing(&self, user_hashes: &UserHashMap) -> (r: Routing)
        ensures
            r == route(self.subject(), user_hashes@),
    {
        match self {
            SessionRequest::DeleteSessionsByDid { did, .. }
            | SessionRequest::DeleteSessionsByDidExceptJti { did, .. }
            | SessionRequest::ListSessionsByDid { did, .. }
            | SessionRequest::GetSessionAccessJtiById { did, .. }
            | SessionRequest::DeleteSessionsByAppPassword { did, .. }
            | SessionRequest::GetSessionJtisByAppPassword { did, .. }
            | SessionRequest::DeleteAppPasswordsByController { did, .. }
            | SessionRequest::GetLastReauthAt { did, .. }
            | SessionRequest::UpdateLastReauth { did, .. }
            | SessionRequest::GetSessionMfaStatus { did, .. }
            | SessionRequest::UpdateMfaVerified { did, .. }
            | SessionRequest::GetAppPasswordHashesByDid { did, .. } => did_to_routing(did.as_str()),
            SessionRequest::ListAppPasswords { user_id, .. }
            | SessionRequest::GetAppPasswordsForLogin { user_id, .. }
            | SessionRequest::GetAppPasswordByName { user_id, .. }
            | SessionRequest::CreateAppPassword { user_id, .. }
            | SessionRequest::DeleteAppPassword { user_id, .. } => uuid_to_routing(user_hashes, user_id),
            SessionRequest::CreateSession
            | SessionRequest::GetSessionByAccessJti
            | SessionRequest::GetSessionForRefresh
            | SessionRequest::UpdateSessionTokens
            | SessionRequest::DeleteSessionByAccessJti
            | SessionRequest::DeleteSessionById
            | SessionRequest::CheckRefreshTokenUsed
            | SessionRequest::MarkRefreshTokenUsed
            | SessionRequest::RefreshSessionAtomic => Routing::Global,
        }
    }
}

impl InfraRequest {
    pub open spec fn subject(self) -> Subject {
        match self {
            InfraRequest::GetInviteCodesForAccount { for_account: did, .. }
            | InfraRequest::CreateDeletionRequest { did, .. }
            | InfraRequest::DeleteDeletionRequestsByDid { did, .. }
            | InfraRequest::GetAdminAccountInfoByDid { did, .. }
            | InfraRequest::GetDeletionRequestByDid { did, .. }
            | InfraRequest::GetPlcTokensByDid { did, .. }
            | InfraRequest::CountPlcTokensByDid { did, .. } => Subject::Account(did@),
            InfraRequest::CreateInviteCodesBatch { created_by_user: user_id, .. }
            | InfraRequest::RecordInviteCodeUse { used_by_user: user_id, .. }
            | InfraRequest::GetInvitesCreatedByUser { user_id, .. }
            | InfraRequest::GetInviteCodeUsedByUser { user_id, .. }
            | InfraRequest::DeleteInviteCodeUsesByUser { user_id, .. }
            | InfraRequest::DeleteInviteCodesByUser { user_id, .. }
            | InfraRequest::UpsertAccountPreference { user_id, .. }
            | InfraRequest::InsertAccountPreferenceIfNotExists { user_id, .. }
            | InfraRequest::DeletePlcTokensForUser { user_id, .. }
            | InfraRequest::InsertPlcToken { user_id, .. }
            | InfraRequest::GetPlcTokenExpiry { user_id, .. }
            | InfraRequest::DeletePlcToken { user_id, .. }
            | InfraRequest::GetAccountPreferences { user_id, .. }
            | InfraRequest::ReplaceNamespacePreferences { user_id, .. }
            | InfraRequest::GetNotificationHistory { user_id, .. }
            | InfraRequest::GetLatestCommsForUser { user_id, .. }
            | InfraRequest::CountCommsByType { user_id, .. }
            | InfraRequest::DeleteCommsByTypeForUser { user_id, .. } => Subject::User(user_id),
            InfraRequest::GetBlobStorageKeyByCid { cid, .. }
            | InfraRequest::DeleteBlobByCid { cid, .. } => Subject::Content(cid@),
            InfraRequest::EnqueueComms { user_id: id, .. } => optional_user(id),
            InfraRequest::FetchPendingComms { .. }
            | InfraRequest::MarkCommsSent { .. }
            | InfraRequest::MarkCommsFailed { .. }
            | InfraRequest::MarkCommsFailedPermanent { .. }
            | InfraRequest::CreateInviteCode { .. }
            | InfraRequest::GetInviteCodeAvailableUses { .. }
            | InfraRequest::ValidateInviteCode { .. }
            | InfraRequest::DecrementInviteCodeUses { .. }
            | InfraRequest::GetInviteCodeUses { .. }
            | InfraRequest::DisableInviteCodesByCode { .. }
            | InfraRequest::DisableInviteCodesByAccount { .. }
            | InfraRequest::ListInviteCodes { .. }
            | InfraRequest::GetUserDidsByIds { .. }
            | InfraRequest::GetInviteCodeUsesBatch { .. }
            | InfraRequest::GetInviteCodeInfo { .. }
            | InfraRequest::GetInviteCodesByUsers { .. }
            | InfraRequest::ReserveSigningKey { .. }
            | InfraRequest::GetReservedSigningKey { .. }
            | InfraRequest::MarkSigningKeyUsed { .. }
            | InfraRequest::GetDeletionRequest { .. }
            | InfraRequest::DeleteDeletionRequest { .. }
            | InfraRequest::GetServerConfig { .. }
            | InfraRequest::InsertReport { .. }
            | InfraRequest::GetServerConfigs { .. }
            | InfraRequest::UpsertServerConfig { .. }
            | InfraRequest::DeleteServerConfig { .. }
            | InfraRequest::GetAdminAccountInfosByDids { .. }
            | InfraRequest::GetInviteCodeUsesByUsers { .. }
            | InfraRequest::ExpireDeletionRequest { .. }
            | InfraRequest::GetReservedSigningKeyFull { .. } => Subject::Anything,
        }
    }

    pub fn routing(&self, user_hashes: &UserHashMap) -> (r: Routing)
        ensures
            r == route(self.subject(), user_hashes@),
    {
        match self {
            InfraRequest::GetInviteCodesForAccount { for_account: did, .. }
            | InfraRequest::CreateDeletionRequest { did, .. }
            | InfraRequest::DeleteDeletionRequestsByDid { did, .. }
            | InfraRequest::GetAdminAccountInfoByDid { did, .. }
            | InfraRequest::GetDeletionRequestByDid { did, .. }
            | InfraRequest::GetPlcTokensByDid { did, .. }
            | InfraRequest::CountPlcTokensByDid { did, .. } => did_to_routing(did.as_str()),
            InfraRequest::CreateInviteCodesBatch { created_by_user: user_id, .. }
            | InfraRequest::RecordInviteCodeUse { used_by_user: user_id, .. }
            | InfraRequest::GetInvitesCreatedByUser { user_id, .. }
            | InfraRequest::GetInviteCodeUsedByUser { user_id, .. }
            | InfraRequest::DeleteInviteCodeUsesByUser { user_id, .. }
            | InfraRequest::DeleteInviteCodesByUser { user_id, .. }
            | InfraRequest::UpsertAccountPreference { user_id, .. }
            | InfraRequest::InsertAccountPreferenceIfNotExists { user_id, .. }
            | InfraRequest::DeletePlcTokensForUser { user_id, .. }
            | InfraRequest::InsertPlcToken { user_id, .. }
            | InfraRequest::GetPlcTokenExpiry { user_id, .. }
            | InfraRequest::DeletePlcToken { user_id, .. }
            | InfraRequest::GetAccountPreferences { user_id, .. }
            | InfraRequest::ReplaceNamespacePreferences { user_id, .. }
            | InfraRequest::GetNotificationHistory { user_id, .. }
            | InfraRequest::GetLatestCommsForUser { user_id, .. }
            | InfraRequest::CountCommsByType { user_id, .. }
            | InfraRequest::DeleteCommsByTypeForUser { user_id, .. } => uuid_to_routing(user_hashes, user_id),
            InfraRequest::GetBlobStorageKeyByCid { cid, .. }
            | InfraRequest::DeleteBlobByCid { cid, .. } => cid_to_routing(cid.as_str()),
            InfraRequest::EnqueueComms { user_id: id, .. } => optional_user_to_routing(user_hashes, id),
            InfraRequest::FetchPendingComms { .. }
            | InfraRequest::MarkCommsSent { .. }
            | InfraRequest::MarkCommsFailed { .. }
            | InfraRequest::MarkCommsFailedPermanent { .. }
            | InfraRequest::CreateInviteCode { .. }
            | InfraRequest::GetInviteCodeAvailableUses { .. }
            | InfraRequest::ValidateInviteCode { .. }
            | InfraRequest::DecrementInviteCodeUses { .. }
            | InfraRequest::GetInviteCodeUses { .. }
            | InfraRequest::DisableInviteCodesByCode { .. }
            | InfraRequest::DisableInviteCodesByAccount { .. }
            | InfraRequest::ListInviteCodes { .. }
            | InfraRequest::GetUserDidsByIds { .. }
            | InfraRequest::GetInviteCodeUsesBatch { .. }
            | InfraRequest::GetInviteCodeInfo { .. }
            | InfraRequest::GetInviteCodesByUsers { .. }
            | InfraRequest::ReserveSigningKey { .. }
            | InfraRequest::GetReservedSigningKey { .. }
            | InfraRequest::MarkSigningKeyUsed { .. }
            | InfraRequest::GetDeletionRequest { .. }
            | InfraRequest::DeleteDeletionRequest { .. }
            | InfraRequest::GetServerConfig { .. }
            | InfraRequest::InsertReport { .. }
            | InfraRequest::GetServerConfigs { .. }
            | InfraRequest::UpsertServerConfig { .. }
            | InfraRequest::DeleteServerConfig { .. }
            | InfraRequest::GetAdminAccountInfosByDids { .. }
            | InfraRequest::GetInviteCodeUsesByUsers { .. }
            | InfraRequest::ExpireDeletionRequest { .. }
            | InfraRequest::GetReservedSigningKeyFull { .. } => Routing::Global,
        }
    }
}

impl OAuthRequest {
    pub open spec fn subject(self) -> Subject {
        match self {
            OAuthRequest::ListTokensForUser { did, .. }
            | OAuthRequest::CountTokensForUser { did, .. }
            | OAuthRequest::DeleteOldestTokensForUser { did, .. }
            | OAuthRequest::RevokeTokensForClient { did, .. }
            | OAuthRequest::RevokeTokensForController { delegated_did: did, .. }
            | OAuthRequest::SetAuthorizationDid { did, .. }
            | OAuthRequest::UpdateAuthorizationRequest { did, .. }
            | OAuthRequest::MarkRequestAuthenticated { did, .. }
            | OAuthRequest::SetRequestDid { did, .. }
            | OAuthRequest::UpsertAccountDevice { did, .. }
            | OAuthRequest::VerifyAccountOnDevice { did, .. }
            | OAuthRequest::Create2faChallenge { did, .. }
            | OAuthRequest::CheckUser2faEnabled { did, .. }
            | OAuthRequest::GetScopePreferences { did, .. }
            | OAuthRequest::UpsertScopePreferences { did, .. }
            | OAuthRequest::DeleteScopePreferences { did, .. }
            | OAuthRequest::UpsertAuthorizedClient { did, .. }
            | OAuthRequest::GetAuthorizedClient { did, .. }
            | OAuthRequest::ListTrustedDevices { did, .. }
            | OAuthRequest::GetDeviceTrustInfo { did, .. }
            | OAuthRequest::DeviceBelongsToUser { did, .. }
            | OAuthRequest::ListSessionsByDid { did, .. }
            | OAuthRequest::DeleteSessionById { did, .. }
            | OAuthRequest::DeleteSessionsByDid { did, .. }
            | OAuthRequest::DeleteSessionsByDidExcept { did, .. } => Subject::Account(did@),
            OAuthRequest::CreateToken
            | OAuthRequest::GetTokenById
            | OAuthRequest::GetTokenByRefreshToken
            | OAuthRequest::GetTokenByPreviousRefreshToken
            | OAuthRequest::RotateToken
            | OAuthRequest::CheckRefreshTokenUsed
            | OAuthRequest::DeleteToken
            | OAuthRequest::DeleteTokenFamily
            | OAuthRequest::CreateAuthorizationRequest
            | OAuthRequest::GetAuthorizationRequest
            | OAuthRequest::ConsumeAuthorizationRequestByCode
            | OAuthRequest::DeleteAuthorizationRequest
            | OAuthRequest::DeleteExpiredAuthorizationRequests
            | OAuthRequest::ExtendAuthorizationRequestExpiry
            | OAuthRequest::UpdateRequestScope
            | OAuthRequest::SetControllerDid
            | OAuthRequest::CreateDevice
            | OAuthRequest::GetDevice
            | OAuthRequest::UpdateDeviceLastSeen
            | OAuthRequest::DeleteDevice
            | OAuthRequest::GetDeviceAccounts
            | OAuthRequest::CheckAndRecordDpopJti
            | OAuthRequest::CleanupExpiredDpopJtis
            | OAuthRequest::Get2faChallenge
            | OAuthRequest::Increment2faAttempts
            | OAuthRequest::Delete2faChallenge
            | OAuthRequest::Delete2faChallengeByRequestUri
            | OAuthRequest::CleanupExpired2faChallenges
            | OAuthRequest::RevokeDeviceTrust
            | OAuthRequest::UpdateDeviceFriendlyName
            | OAuthRequest::TrustDevice
            | OAuthRequest::ExtendDeviceTrust
            | OAuthRequest::Get2faChallengeCode => Subject::Anything,
        }
    }

    pub fn routing(&self) -> (r: Routing)
        ensures
            forall|hashes: UserHashes| r == #[trigger] route(self.subject(), hashes),
    {
        match self {
            OAuthRequest::ListTokensForUser { did, .. }
            | OAuthRequest::CountTokensForUser { did, .. }
            | OAuthRequest::DeleteOldestTokensForUser { did, .. }
            | OAuthRequest::RevokeTokensForClient { did, .. }
            | OAuthRequest::RevokeTokensForController { delegated_did: did, .. }
            | OAuthRequest::SetAuthorizationDid { did, .. }
            | OAuthRequest::UpdateAuthorizationRequest { did, .. }
            | OAuthRequest::MarkRequestAuthenticated { did, .. }
            | OAuthRequest::SetRequestDid { did, .. }
            | OAuthRequest::UpsertAccountDevice { did, .. }
            | OAuthRequest::VerifyAccountOnDevice { did, .. }
            | OAuthRequest::Create2faChallenge { did, .. }
            | OAuthRequest::CheckUser2faEnabled { did, .. }
            | OAuthRequest::GetScopePreferences { did, .. }
            | OAuthRequest::UpsertScopePreferences { did, .. }
            | OAuthRequest::DeleteScopePreferences { did, .. }
            | OAuthRequest::UpsertAuthorizedClient { did, .. }
            | OAuthRequest::GetAuthorizedClient { did, .. }
            | OAuthRequest::ListTrustedDevices { did, .. }
            | OAuthRequest::GetDeviceTrustInfo { did, .. }
            | OAuthRequest::DeviceBelongsToUser { did, .. }
            | OAuthRequest::ListSessionsByDid { did, .. }
            | OAuthRequest::DeleteSessionById { did, .. }
            | OAuthRequest::DeleteSessionsByDid { did, .. }
            | OAuthRequest::DeleteSessionsByDidExcept { did, .. } => did_to_routing(did.as_str()),
            OAuthRequest::CreateToken
            | OAuthRequest::GetTokenById
            | OAuthRequest::GetTokenByRefreshToken
            | OAuthRequest::GetTokenByPreviousRefreshToken
            | OAuthRequest::RotateToken
            | OAuthRequest::CheckRefreshTokenUsed
            | OAuthRequest::DeleteToken
            | OAuthRequest::DeleteTokenFamily
            | OAuthRequest::CreateAuthorizationRequest
            | OAuthRequest::GetAuthorizationRequest
            | OAuthRequest::ConsumeAuthorizationRequestByCode
            | OAuthRequest::DeleteAuthorizationRequest
            | OAuthRequest::DeleteExpiredAuthorizationRequests
            | OAuthRequest::ExtendAuthorizationRequestExpiry
            | OAuthRequest::UpdateRequestScope
            | OAuthRequest::SetControllerDid
            | OAuthRequest::CreateDevice
            | OAuthRequest::GetDevice
            | OAuthRequest::UpdateDeviceLastSeen
            | OAuthRequest::DeleteDevice
            | OAuthRequest::GetDeviceAccounts
            | OAuthRequest::CheckAndRecordDpopJti
            | OAuthRequest::CleanupExpiredDpopJtis
            | OAuthRequest::Get2faChallenge
            | OAuthRequest::Increment2faAttempts
            | OAuthRequest::Delete2faChallenge
            | OAuthRequest::Delete2faChallengeByRequestUri
            | OAuthRequest::CleanupExpired2faChallenges
            | OAuthRequest::RevokeDeviceTrust
            | OAuthRequest::UpdateDeviceFriendlyName
            | OAuthRequest::TrustDevice
            | OAuthRequest::ExtendDeviceTrust
            | OAuthRequest::Get2faChallengeCode => Routing::Global,
        }
    }
}

impl UserRequest {
    pub open spec fn subject(self) -> Subject {
        match self {
            UserRequest::GetByDid { did, .. }
            | UserRequest::GetWithKeyByDid { did, .. }
            | UserRequest::GetStatusByDid { did, .. }
            | UserRequest::GetSessionAccessExpiry { did, .. }
            | UserRequest::GetUserInfoByDid { did, .. }
            | UserRequest::SetInvitesDisabled { did, .. }
            | UserRequest::GetAuthInfoByDid { did, .. }
            | UserRequest::Get2faStatusByDid { did, .. }
            | UserRequest::GetIdByDid { did, .. }
            | UserRequest::GetIdAndHandleByDid { did, .. }
            | UserRequest::GetHandleByDid { did, .. }
            | UserRequest::IsAccountActiveByDid { did, .. }
            | UserRequest::GetUserForDeletion { did, .. }
            | UserRequest::GetUserWithKeyByDid { did, .. }
            | UserRequest::IsAccountMigrated { did, .. }
            | UserRequest::HasVerifiedCommsChannel { did, .. }
            | UserRequest::GetEmailInfoByDid { did, .. }
            | UserRequest::CheckChannelVerifiedByDid { did, .. }
            | UserRequest::AdminUpdateEmail { did, .. }
            | UserRequest::AdminUpdateHandle { did, .. }
            | UserRequest::AdminUpdatePassword { did, .. }
            | UserRequest::SetAdminStatus { did, .. }
            | UserRequest::GetNotificationPrefs { did, .. }
            | UserRequest::GetIdHandleEmailByDid { did, .. }
            | UserRequest::UpdatePreferredCommsChannel { did, .. }
            | UserRequest::GetVerificationInfo { did, .. }
            | UserRequest::HasTotpEnabled { did, .. }
            | UserRequest::HasPasskeys { did, .. }
            | UserRequest::GetPasswordHashByDid { did, .. }
            | UserRequest::GetPasskeysForUser { did, .. }
            | UserRequest::SavePasskey { did, .. }
            | UserRequest::DeletePasskey { did, .. }
            | UserRequest::UpdatePasskeyName { did, .. }
            | UserRequest::SaveWebauthnChallenge { did, .. }
            | UserRequest::LoadWebauthnChallenge { did, .. }
            | UserRequest::DeleteWebauthnChallenge { did, .. }
            | UserRequest::GetTotpRecord { did, .. }
            | UserRequest::GetTotpRecordState { did, .. }
            | UserRequest::UpsertTotpSecret { did, .. }
            | UserRequest::SetTotpVerified { did, .. }
            | UserRequest::UpdateTotpLastUsed { did, .. }
            | UserRequest::DeleteTotp { did, .. }
            | UserRequest::GetUnusedBackupCodes { did, .. }
            | UserRequest::CountUnusedBackupCodes { did, .. }
            | UserRequest::DeleteBackupCodes { did, .. }
            | UserRequest::InsertBackupCodes { did, .. }
            | UserRequest::EnableTotpWithBackupCodes { did, .. }
            | UserRequest::DeleteTotpAndBackupCodes { did, .. }
            | UserRequest::ReplaceBackupCodes { did, .. }
            | UserRequest::GetSessionInfoByDid { did, .. }
            | UserRequest::GetLegacyLoginPref { did, .. }
            | UserRequest::UpdateLegacyLogin { did, .. }
            | UserRequest::UpdateLocale { did, .. }
            | UserRequest::GetConfirmSignupByDid { did, .. }
            | UserRequest::GetResendVerificationByDid { did, .. }
            | UserRequest::SetChannelVerified { did, .. }
            | UserRequest::GetIdAndPasswordHashByDid { did, .. }
            | UserRequest::ActivateAccount { did, .. }
            | UserRequest::DeactivateAccount { did, .. }
            | UserRequest::HasPasswordByDid { did, .. }
            | UserRequest::GetPasswordInfoByDid { did, .. }
            | UserRequest::GetUserKeyByDid { did, .. }
            | UserRequest::DeleteAccountComplete { did, .. }
            | UserRequest::SetUserTakedown { did, .. }
            | UserRequest::AdminDeleteAccountComplete { did, .. }
            | UserRequest::GetUserForDidDoc { did, .. }
            | UserRequest::GetUserForDidDocBuild { did, .. }
            | UserRequest::UpdateMigratedToPds { did, .. }
            | UserRequest::GetUserForPasskeySetup { did, .. }
            | UserRequest::SetRecoveryToken { did, .. }
            | UserRequest::GetUserForRecovery { did, .. }
            | UserRequest::DeleteAccountWithFirehose { did, .. }
            | UserRequest::CreatePasswordAccount { did, .. }
            | UserRequest::CreateDelegatedAccount { did, .. }
            | UserRequest::CreatePasskeyAccount { did, .. }
            | UserRequest::CreateSsoAccount { did, .. }
            | UserRequest::ReactivateMigrationAccount { did, .. }
            | UserRequest::CompletePasskeySetup { did, .. }
            | UserRequest::RecoverPasskeyAccount { did, .. }
            | UserRequest::EnableTotpVerified { did, .. }
            | UserRequest::SetTwoFactorEnabled { did, .. } => Subject::Account(did@),
            UserRequest::GetCommsPrefs { user_id, .. }
            | UserRequest::GetUserKeyById { user_id, .. }
            | UserRequest::GetDidWebOverrides { user_id, .. }
            | UserRequest::CheckHandleExists { exclude_user_id: user_id, .. }
            | UserRequest::UpdateHandle { user_id, .. }
            | UserRequest::CheckEmailExists { exclude_user_id: user_id, .. }
            | UserRequest::UpdateEmail { user_id, .. }
            | UserRequest::SetEmailVerified { user_id, .. }
            | UserRequest::ClearDiscord { user_id, .. }
            | UserRequest::ClearTelegram { user_id, .. }
            | UserRequest::ClearSignal { user_id, .. }
            | UserRequest::SetUnverifiedSignal { user_id, .. }
            | UserRequest::SetUnverifiedTelegram { user_id, .. }
            | UserRequest::GetTelegramChatId { user_id, .. }
            | UserRequest::SetUnverifiedDiscord { user_id, .. }
            | UserRequest::VerifyEmailChannel { user_id, .. }
            | UserRequest::VerifyDiscordChannel { user_id, .. }
            | UserRequest::VerifyTelegramChannel { user_id, .. }
            | UserRequest::VerifySignalChannel { user_id, .. }
            | UserRequest::SetEmailVerifiedFlag { user_id, .. }
            | UserRequest::SetDiscordVerifiedFlag { user_id, .. }
            | UserRequest::SetTelegramVerifiedFlag { user_id, .. }
            | UserRequest::SetSignalVerifiedFlag { user_id, .. }
            | UserRequest::SetPasswordResetCode { user_id, .. }
            | UserRequest::ClearPasswordResetCode { user_id, .. }
            | UserRequest::UpdatePasswordHash { user_id, .. }
            | UserRequest::ResetPasswordWithSessions { user_id, .. }
            | UserRequest::RemoveUserPassword { user_id, .. }
            | UserRequest::SetNewUserPassword { user_id, .. }
            | UserRequest::UpsertDidWebOverrides { user_id, .. } => Subject::User(user_id),
            UserRequest::GetByHandle
            | UserRequest::CountUsers
            | UserRequest::GetOAuthTokenWithUser
            | UserRequest::GetAnyAdminUserId
            | UserRequest::SearchAccounts
            | UserRequest::GetByEmail
            | UserRequest::GetLoginCheckByIdentifier
            | UserRequest::GetLoginInfoByIdentifier
            | UserRequest::GetDidWebInfoByHandle
            | UserRequest::GetIdByHandle
            | UserRequest::CheckEmailVerifiedByIdentifier
            | UserRequest::StoreTelegramChatId
            | UserRequest::StoreDiscordUserId
            | UserRequest::GetPasskeyByCredentialId
            | UserRequest::UpdatePasskeyCounter
            | UserRequest::SaveDiscoverableChallenge
            | UserRequest::LoadDiscoverableChallenge
            | UserRequest::DeleteDiscoverableChallenge
            | UserRequest::MarkBackupCodeUsed
            | UserRequest::GetLoginFullByIdentifier
            | UserRequest::GetIdByEmailOrHandle
            | UserRequest::CountAccountsByEmail
            | UserRequest::GetHandlesByEmail
            | UserRequest::GetUserByResetCode
            | UserRequest::GetUserForPasskeyRecovery
            | UserRequest::GetAccountsScheduledForDeletion
            | UserRequest::CheckHandleAvailableForNewAccount
            | UserRequest::ReserveHandle
            | UserRequest::ReleaseHandleReservation
            | UserRequest::CleanupExpiredHandleReservations
            | UserRequest::CheckAndConsumeInviteCode { .. }
            | UserRequest::GetPasswordResetInfo
            | UserRequest::ExpirePasswordResetCode => Subject::Anything,
        }
    }

    pub fn routing(&self, user_hashes: &UserHashMap) -> (r: Routing)
        ensures
            r == route(self.subject(), user_hashes@),
    {
        match self {
            UserRequest::GetByDid { did, .. }
            | UserRequest::GetWithKeyByDid { did, .. }
            | UserRequest::GetStatusByDid { did, .. }
            | UserRequest::GetSessionAccessExpiry { did, .. }
            | UserRequest::GetUserInfoByDid { did, .. }
            | UserRequest::SetInvitesDisabled { did, .. }
            | UserRequest::GetAuthInfoByDid { did, .. }
            | UserRequest::Get2faStatusByDid { did, .. }
            | UserRequest::GetIdByDid { did, .. }
            | UserRequest::GetIdAndHandleByDid { did, .. }
            | UserRequest::GetHandleByDid { did, .. }
            | UserRequest::IsAccountActiveByDid { did, .. }
            | UserRequest::GetUserForDeletion { did, .. }
            | UserRequest::GetUserWithKeyByDid { did, .. }
            | UserRequest::IsAccountMigrated { did, .. }
            | UserRequest::HasVerifiedCommsChannel { did, .. }
            | UserRequest::GetEmailInfoByDid { did, .. }
            | UserRequest::CheckChannelVerifiedByDid { did, .. }
            | UserRequest::AdminUpdateEmail { did, .. }
            | UserRequest::AdminUpdateHandle { did, .. }
            | UserRequest::AdminUpdatePassword { did, .. }
            | UserRequest::SetAdminStatus { did, .. }
            | UserRequest::GetNotificationPrefs { did, .. }
            | UserRequest::GetIdHandleEmailByDid { did, .. }
            | UserRequest::UpdatePreferredCommsChannel { did, .. }
            | UserRequest::GetVerificationInfo { did, .. }
            | UserRequest::HasTotpEnabled { did, .. }
            | UserRequest::HasPasskeys { did, .. }
            | UserRequest::GetPasswordHashByDid { did, .. }
            | UserRequest::GetPasskeysForUser { did, .. }
            | UserRequest::SavePasskey { did, .. }
            | UserRequest::DeletePasskey { did, .. }
            | UserRequest::UpdatePasskeyName { did, .. }
            | UserRequest::SaveWebauthnChallenge { did, .. }
            | UserRequest::LoadWebauthnChallenge { did, .. }
            | UserRequest::DeleteWebauthnChallenge { did, .. }
            | UserRequest::GetTotpRecord { did, .. }
            | UserRequest::GetTotpRecordState { did, .. }
            | UserRequest::UpsertTotpSecret { did, .. }
            | UserRequest::SetTotpVerified { did, .. }
            | UserRequest::UpdateTotpLastUsed { did, .. }
            | UserRequest::DeleteTotp { did, .. }
            | UserRequest::GetUnusedBackupCodes { did, .. }
            | UserRequest::CountUnusedBackupCodes { did, .. }
            | UserRequest::DeleteBackupCodes { did, .. }
            | UserRequest::InsertBackupCodes { did, .. }
            | UserRequest::EnableTotpWithBackupCodes { did, .. }
            | UserRequest::DeleteTotpAndBackupCodes { did, .. }
            | UserRequest::ReplaceBackupCodes { did, .. }
            | UserRequest::GetSessionInfoByDid { did, .. }
            | UserRequest::GetLegacyLoginPref { did, .. }
            | UserRequest::UpdateLegacyLogin { did, .. }
            | UserRequest::UpdateLocale { did, .. }
            | UserRequest::GetConfirmSignupByDid { did, .. }
            | UserRequest::GetResendVerificationByDid { did, .. }
            | UserRequest::SetChannelVerified { did, .. }
            | UserRequest::GetIdAndPasswordHashByDid { did, .. }
            | UserRequest::ActivateAccount { did, .. }
            | UserRequest::DeactivateAccount { did, .. }
            | UserRequest::HasPasswordByDid { did, .. }
            | UserRequest::GetPasswordInfoByDid { did, .. }
            | UserRequest::GetUserKeyByDid { did, .. }
            | UserRequest::DeleteAccountComplete { did, .. }
            | UserRequest::SetUserTakedown { did, .. }
            | UserRequest::AdminDeleteAccountComplete { did, .. }
            | UserRequest::GetUserForDidDoc { did, .. }
            | UserRequest::GetUserForDidDocBuild { did, .. }
            | UserRequest::UpdateMigratedToPds { did, .. }
            | UserRequest::GetUserForPasskeySetup { did, .. }
            | UserRequest::SetRecoveryToken { did, .. }
            | UserRequest::GetUserForRecovery { did, .. }
            | UserRequest::DeleteAccountWithFirehose { did, .. }
            | UserRequest::CreatePasswordAccount { did, .. }
            | UserRequest::CreateDelegatedAccount { did, .. }
            | UserRequest::CreatePasskeyAccount { did, .. }
            | UserRequest::CreateSsoAccount { did, .. }
            | UserRequest::ReactivateMigrationAccount { did, .. }
            | UserRequest::CompletePasskeySetup { did, .. }
            | UserRequest::RecoverPasskeyAccount { did, .. }
            | UserRequest::EnableTotpVerified { did, .. }
            | UserRequest::SetTwoFactorEnabled { did, .. } => did_to_routing(did.as_str()),
            UserRequest::GetCommsPrefs { user_id, .. }
            | UserRequest::GetUserKeyById { user_id, .. }
            | UserRequest::GetDidWebOverrides { user_id, .. }
            | UserRequest::CheckHandleExists { exclude_user_id: user_id, .. }
            | UserRequest::UpdateHandle { user_id, .. }
            | UserRequest::CheckEmailExists { exclude_user_id: user_id, .. }
            | UserRequest::UpdateEmail { user_id, .. }
            | UserRequest::SetEmailVerified { user_id, .. }
            | UserRequest::ClearDiscord { user_id, .. }
            | UserRequest::ClearTelegram { user_id, .. }
            | UserRequest::ClearSignal { user_id, .. }
            | UserRequest::SetUnverifiedSignal { user_id, .. }
            | UserRequest::SetUnverifiedTelegram { user_id, .. }
            | UserRequest::GetTelegramChatId { user_id, .. }
            | UserRequest::SetUnverifiedDiscord { user_id, .. }
            | UserRequest::VerifyEmailChannel { user_id, .. }
            | UserRequest::VerifyDiscordChannel { user_id, .. }
            | UserRequest::VerifyTelegramChannel { user_id, .. }
            | UserRequest::VerifySignalChannel { user_id, .. }
            | UserRequest::SetEmailVerifiedFlag { user_id, .. }
            | UserRequest::SetDiscordVerifiedFlag { user_id, .. }
            | UserRequest::SetTelegramVerifiedFlag { user_id, .. }
            | UserRequest::SetSignalVerifiedFlag { user_id, .. }
            | UserRequest::SetPasswordResetCode { user_id, .. }
            | UserRequest::ClearPasswordResetCode { user_id, .. }
            | UserRequest::UpdatePasswordHash { user_id, .. }
            | UserRequest::ResetPasswordWithSessions { user_id, .. }
            | UserRequest::RemoveUserPassword { user_id, .. }
            | UserRequest::SetNewUserPassword { user_id, .. }
            | UserRequest::UpsertDidWebOverrides { user_id, .. } => uuid_to_routing(user_hashes, user_id),
            UserRequest::GetByHandle
            | UserRequest::CountUsers
            | UserRequest::GetOAuthTokenWithUser
            | UserRequest::GetAnyAdminUserId
            | UserRequest::SearchAccounts
            | UserRequest::GetByEmail
            | UserRequest::GetLoginCheckByIdentifier
            | UserRequest::GetLoginInfoByIdentifier
            | UserRequest::GetDidWebInfoByHandle
            | UserRequest::GetIdByHandle
            | UserRequest::CheckEmailVerifiedByIdentifier
            | UserRequest::StoreTelegramChatId
            | UserRequest::StoreDiscordUserId
            | UserRequest::GetPasskeyByCredentialId
            | UserRequest::UpdatePasskeyCounter
            | UserRequest::SaveDiscoverableChallenge
            | UserRequest::LoadDiscoverableChallenge
            | UserRequest::DeleteDiscoverableChallenge
            | UserRequest::MarkBackupCodeUsed
            | UserRequest::GetLoginFullByIdentifier
            | UserRequest::GetIdByEmailOrHandle
            | UserRequest::CountAccountsByEmail
            | UserRequest::GetHandlesByEmail
            | UserRequest::GetUserByResetCode
            | UserRequest::GetUserForPasskeyRecovery
            | UserRequest::GetAccountsScheduledForDeletion
            | UserRequest::CheckHandleAvailableForNewAccount
            | UserRequest::ReserveHandle
            | UserRequest::ReleaseHandleReservation
            | UserRequest::CleanupExpiredHandleReservations
            | UserRequest::CheckAndConsumeInviteCode { .. }
            | UserRequest::GetPasswordResetInfo
            | UserRequest::ExpirePasswordResetCode => Routing::Global,
        }
    }
}

impl MetastoreRequest {
    pub open spec fn subject(self) -> Subject {
        match self {
            MetastoreRequest::Repo(r) => r.subject(),
            MetastoreRequest::Record(r) => r.subject(),
            MetastoreRequest::UserBlock(r) => r.subject(),
            MetastoreRequest::Event(r) => r.subject(),
            MetastoreRequest::Commit(r) => r.subject(),
            MetastoreRequest::Backlink(r) => r.subject(),
            MetastoreRequest::Blob(r) => r.subject(),
            MetastoreRequest::Delegation(r) => r.subject(),
            MetastoreRequest::Sso(r) => r.subject(),
            MetastoreRequest::Session(r) => r.subject(),
            MetastoreRequest::Infra(r) => r.subject(),
            MetastoreRequest::OAuth(r) => r.subject(),
            MetastoreRequest::User(r) => r.subject(),
        }
    }

    pub fn routing(&self, user_hashes: &UserHashMap) -> (r: Routing)
        ensures
            r == route(self.subject(), user_hashes@),
    {
        match self {
            MetastoreRequest::Repo(r) => r.routing(user_hashes),
            MetastoreRequest::Record(r) => r.routing(user_hashes),
            MetastoreRequest::UserBlock(r) => r.routing(user_hashes),
            MetastoreRequest::Event(r) => r.routing(),
            MetastoreRequest::Commit(r) => r.routing(user_hashes),
            MetastoreRequest::Backlink(r) => r.routing(user_hashes),
            MetastoreRequest::Blob(r) => r.routing(user_hashes),
            MetastoreRequest::Delegation(r) => r.routing(),
            MetastoreRequest::Sso(r) => r.routing(),
            MetastoreRequest::Session(r) => r.routing(user_hashes),
            MetastoreRequest::Infra(r) => r.routing(user_hashes),
            MetastoreRequest::OAuth(r) => r.routing(),
            MetastoreRequest::User(r) => r.routing(user_hashes),
        }
    }
}

} // verus!
