//! Answers to requests.
//!
//! A request is answered by one operation of the store. The answers say what came of it; who
//! asked gets them from whoever runs the handlers.

use vstd::prelude::*;

use crate::account_steps::consumed;
use crate::clock::is_timestamp;
use crate::commit_ops::{all_repo_rows, commit_outcome, import_plan, imported, lacks_blocks};
use crate::commit_ops::{needs_backfill, outcome_of, record_blob_writes, ApplyCommitError};
use crate::commit_ops::{ApplyCommitResult, CommitOps, CommitState, ImportRepoError, Refusal};
use crate::commit_ops::{UserNeedingRecordBlobsBackfill, UserWithoutBlocks};
use crate::commit_ops::MAX_USERS_WITHOUT_BLOCKS;
use crate::delegation_ops::{active_grants, audit_entry, audit_rows, audit_writes, controlled_accounts};
use crate::delegation_ops::controller_rows;
use crate::delegation_ops::{controller_of, delegated_account, grant_at, grant_rows, grant_writes};
use crate::delegation_ops::{indexed, new_audit_row, new_grant, rescoping, revocation, skipped};
use crate::delegation_ops::{AuditLogEntry, ControllerInfo, DelegatedAccountInfo, DelegationGrant};
use crate::delegation_ops::DelegationOps;
use crate::dispatch_infra::{answered, bytes_ref, did_ref, dispatch_infra, infra_answer, text_ref};
use crate::dispatch_infra::InfraReply;
use crate::errors::{db_result, db_viewed, to_db, DbError, DbErrorView, MetastoreError};
use crate::event_ops::{account_event, alive, blobs_since, commit_event, genesis_event};
use crate::event_ops::{identity_event, purge, recorded, sync_event, visible_event, EventOps};
use crate::event_ops::EventState;
use crate::eventlog::{after, between, events_of, first_since, limited, max_seq, EventLog};
use crate::events::{Event, SequencedEvent};
use crate::infra_ops::InfraOps;
use crate::keys::did_hash;
use crate::metastore::{Metastore, MetastoreView};
use crate::purge::{all_record_removals, repo_unlinked};
use crate::records::{record_at, record_removals, record_writes};
use crate::repo_ops::{new_repo, new_repo_writes, repo_at, RepoInfo};
use crate::repo_steps::{links_added, links_removed, records_upserted, user_rows_changed};
use crate::repo_steps::{zipped_keys, zipped_records};
use crate::requests::{BacklinkRequest, BlobRequest, CommitRequest, DelegationRequest, EventRequest};
use crate::requests::{MetastoreRequest, RecordRequest, RepoRequest, UserBlockRequest, UserRequest};
use crate::scan::{collect, collect_all, count_limit, saturated};
use crate::store::RowView;
use crate::types::{CidLink, Handle, SequenceNumber, Uuid};
use crate::user_blocks::{block_removals, block_writes};
use crate::user_hash::{hash_of, hash_refusal};

verus! {

/// An answer to a request about delegations.
#[derive(Debug, PartialEq, Eq)]
pub enum DelegationReply {
    Id(Result<Uuid, DbError>),
    Flag(Result<bool, DbError>),
    Number(Result<i64, DbError>),
    Grant(Result<Option<DelegationGrant>, DbError>),
    Controllers(Result<Vec<ControllerInfo>, DbError>),
    Accounts(Result<Vec<DelegatedAccountInfo>, DbError>),
    AuditLog(Result<Vec<AuditLogEntry>, DbError>),
}

/// An answer to a request about the event log.
#[derive(Debug, PartialEq, Eq)]
pub enum EventReply {
    Done(Result<(), DbError>),
    Number(Result<SequenceNumber, DbError>),
    MaybeNumber(Result<Option<SequenceNumber>, DbError>),
    Event(Result<Option<SequencedEvent>, DbError>),
    Events(Result<Vec<SequencedEvent>, DbError>),
}

/// An answer to a request about commits.
#[derive(Debug, PartialEq, Eq)]
pub enum CommitReply {
    Done(Result<(), DbError>),
    Commit(Result<ApplyCommitResult, ApplyCommitError>),
    Import(Result<(), ImportRepoError>),
    WithoutBlocks(Result<Vec<UserWithoutBlocks>, DbError>),
    NeedingBackfill(Result<Vec<UserNeedingRecordBlobsBackfill>, DbError>),
}

/// An answer to a request about repositories.
#[derive(Debug, PartialEq, Eq)]
pub enum RepoReply {
    Done(Result<(), DbError>),
    Repo(Result<Option<RepoInfo>, DbError>),
    Record(Result<Option<CidLink>, DbError>),
    Blobs(Result<Vec<String>, DbError>),
    Flag(Result<bool, DbError>),
}

/// An answer to a request.
#[derive(Debug, PartialEq, Eq)]
pub enum Reply {
    Delegation(DelegationReply),
    Event(EventReply),
    Commit(CommitReply),
    Infra(InfraReply),
    Repo(RepoReply),
    /// The request is answered elsewhere.
    Elsewhere,
}

/// Whether an answer is the one to a request about delegations.
pub open spec fn delegation_answer(
    s: MetastoreView,
    request: DelegationRequest,
    reply: DelegationReply,
    t: MetastoreView,
) -> bool {
    match request {
        DelegationRequest::IsDelegatedAccount { did } => match reply {
            DelegationReply::Flag(r) => answered(
                r,
                t,
                (delegated_account(grant_rows(s.indexes.rows, did@)), s),
            ),
            _ => false,
        },
        DelegationRequest::CreateDelegation {
            delegated_did,
            controller_did,
            granted_scopes,
            granted_by,
        } => match reply {
            DelegationReply::Id(r) => {
                r is Ok && r->Ok_0.is_random() && exists|now: i64| #[trigger]
                    is_timestamp(now as int) && t == indexed(
                        s,
                        grant_writes(
                            new_grant(
                                delegated_did@,
                                controller_did@,
                                granted_scopes@,
                                granted_by@,
                                r->Ok_0,
                                now,
                            ),
                        ),
                    )
            },
            _ => false,
        },
        DelegationRequest::RevokeDelegation { delegated_did, controller_did, revoked_by } => match reply {
            DelegationReply::Flag(r) => {
                exists|now: i64| #[trigger]
                    is_timestamp(now as int) && answered(
                        r,
                        t,
                        revocation(s, delegated_did@, controller_did@, revoked_by@, now),
                    )
            },
            _ => false,
        },
        DelegationRequest::UpdateDelegationScopes { delegated_did, controller_did, new_scopes } =>
            match reply {
            DelegationReply::Flag(r) => answered(
                r,
                t,
                rescoping(s, delegated_did@, controller_did@, new_scopes@),
            ),
            _ => false,
        },
        DelegationRequest::GetDelegation { delegated_did, controller_did } => match reply {
            DelegationReply::Grant(r) => answered(
                r,
                t,
                (grant_at(s.indexes.rows, delegated_did@, controller_did@), s),
            ),
            _ => false,
        },
        DelegationRequest::GetDelegationsForAccount { delegated_did } => match reply {
            DelegationReply::Controllers(r) => answered(
                r,
                t,
                (
                    collect_all(
                        grant_rows(s.indexes.rows, delegated_did@),
                        |row: RowView| controller_of(row, s.users.rows, s.user_hashes),
                    ),
                    s,
                ),
            ),
            _ => false,
        },
        DelegationRequest::GetAccountsControlledBy { controller_did } => match reply {
            DelegationReply::Accounts(r) => answered(
                r,
                t,
                (controlled_accounts(s.indexes.rows, s.users.rows, controller_did@), s),
            ),
            _ => false,
        },
        DelegationRequest::CountActiveControllers { delegated_did } => match reply {
            DelegationReply::Number(r) => answered(
                r,
                t,
                (active_grants(grant_rows(s.indexes.rows, delegated_did@)), s),
            ),
            _ => false,
        },
        DelegationRequest::ControlsAnyAccounts { did } => match reply {
            DelegationReply::Flag(r) => r is Ok && (r->Ok_0 <==> controller_rows(
                s.indexes.rows,
                did@,
            ).len() > 0) && t == s,
            _ => false,
        },
        DelegationRequest::LogDelegationAction {
            delegated_did,
            actor_did,
            controller_did,
            action_type,
            action_details,
            ip_address,
            user_agent,
        } => match reply {
            DelegationReply::Id(r) => {
                r is Ok && r->Ok_0.is_random() && exists|now: i64| #[trigger]
                    is_timestamp(now as int) && t == indexed(
                        s,
                        audit_writes(
                            new_audit_row(
                                delegated_did@,
                                actor_did@,
                                controller_did.deep_view(),
                                action_type,
                                action_details.deep_view(),
                                ip_address.deep_view(),
                                user_agent.deep_view(),
                                r->Ok_0,
                                now,
                            ),
                        ),
                    )
            },
            _ => false,
        },
        DelegationRequest::GetAuditLogForAccount { delegated_did, limit, offset } => match reply {
            DelegationReply::AuditLog(r) => answered(
                r,
                t,
                (
                    collect(
                        skipped(audit_rows(s.indexes.rows, delegated_did@), count_limit(offset)),
                        |row: RowView| audit_entry(row),
                        count_limit(limit),
                    ),
                    s,
                ),
            ),
            _ => false,
        },
        DelegationRequest::CountAuditLogEntries { delegated_did } => match reply {
            DelegationReply::Number(r) => answered(
                r,
                t,
                (Ok(saturated(audit_rows(s.indexes.rows, delegated_did@).len())), s),
            ),
            _ => false,
        },
    }
}

/// Answers a request about delegations.
pub fn dispatch_delegation(ops: &mut DelegationOps<'_>, request: DelegationRequest) -> (reply:
    DelegationReply)
    ensures
        delegation_answer(old(ops)@, request, reply, final(ops)@),
        *final(final(ops).store) == *final(old(ops).store),
{
    match request {
        DelegationRequest::IsDelegatedAccount { did } => DelegationReply::Flag(
            to_db(ops.is_delegated_account(&did)),
        ),
        DelegationRequest::CreateDelegation {
            delegated_did,
            controller_did,
            granted_scopes,
            granted_by,
        } => DelegationReply::Id(
            to_db(
                ops.create_delegation(
                    &delegated_did,
                    &controller_did,
                    &granted_scopes,
                    &granted_by,
                ),
            ),
        ),
        DelegationRequest::RevokeDelegation { delegated_did, controller_did, revoked_by } =>
            DelegationReply::Flag(
            to_db(ops.revoke_delegation(&delegated_did, &controller_did, &revoked_by)),
        ),
        DelegationRequest::UpdateDelegationScopes { delegated_did, controller_did, new_scopes } =>
            DelegationReply::Flag(
            to_db(ops.update_delegation_scopes(&delegated_did, &controller_did, &new_scopes)),
        ),
        DelegationRequest::GetDelegation { delegated_did, controller_did } =>
            DelegationReply::Grant(to_db(ops.get_delegation(&delegated_did, &controller_did))),
        DelegationRequest::GetDelegationsForAccount { delegated_did } =>
            DelegationReply::Controllers(to_db(ops.get_delegations_for_account(&delegated_did))),
        DelegationRequest::GetAccountsControlledBy { controller_did } => DelegationReply::Accounts(
            to_db(ops.get_accounts_controlled_by(&controller_did)),
        ),
        DelegationRequest::CountActiveControllers { delegated_did } => DelegationReply::Number(
            to_db(ops.count_active_controllers(&delegated_did)),
        ),
        DelegationRequest::ControlsAnyAccounts { did } => DelegationReply::Flag(
            to_db(ops.controls_any_accounts(&did)),
        ),
        DelegationRequest::LogDelegationAction {
            delegated_did,
            actor_did,
            controller_did,
            action_type,
            action_details,
            ip_address,
            user_agent,
        } => DelegationReply::Id(
            to_db(
                ops.log_delegation_action(
                    &delegated_did,
                    &actor_did,
                    did_ref(&controller_did),
                    action_type,
                    bytes_ref(&action_details),
                    text_ref(&ip_address),
                    text_ref(&user_agent),
                ),
            ),
        ),
        DelegationRequest::GetAuditLogForAccount { delegated_did, limit, offset } =>
            DelegationReply::AuditLog(
            to_db(ops.get_audit_log_for_account(&delegated_did, limit, offset)),
        ),
        DelegationRequest::CountAuditLogEntries { delegated_did } => DelegationReply::Number(
            to_db(ops.count_audit_log_entries(&delegated_did)),
        ),
    }
}

/// The outcome of an event that was recorded, and the state after it.
pub open spec fn event_recorded(
    r: Result<SequenceNumber, DbError>,
    t: EventState,
    outcome: (Result<i64, DbErrorView>, EventState),
) -> bool {
    db_viewed(r) == outcome.0 && t == outcome.1
}

pub open spec fn events_found(
    r: Result<Vec<SequencedEvent>, DbError>,
    events: Seq<Event>,
) -> bool {
    db_viewed(r) == Ok::<Seq<Event>, DbErrorView>(events)
}

/// Whether an answer is the one to a request about the event log.
pub open spec fn event_answer(
    s: EventState,
    request: EventRequest,
    reply: EventReply,
    t: EventState,
) -> bool {
    match request {
        EventRequest::InsertCommitEvent { data } => match reply {
            EventReply::Number(r) => {
                exists|now: i64| #[trigger]
                    is_timestamp(now as int) && event_recorded(
                        r,
                        t,
                        recorded(
                            s,
                            commit_event(data.deep_view(), now),
                            data.did@,
                            data.rev.deep_view(),
                        ),
                    )
            },
            _ => false,
        },
        EventRequest::InsertIdentityEvent { did, handle } => match reply {
            EventReply::Number(r) => {
                exists|now: i64| #[trigger]
                    is_timestamp(now as int) && event_recorded(
                        r,
                        t,
                        recorded(s, identity_event(did@, handle.deep_view(), now), did@, None),
                    )
            },
            _ => false,
        },
        EventRequest::InsertAccountEvent { did, status } => match reply {
            EventReply::Number(r) => {
                exists|now: i64| #[trigger]
                    is_timestamp(now as int) && event_recorded(
                        r,
                        t,
                        recorded(s, account_event(did@, status, now), did@, None),
                    )
            },
            _ => false,
        },
        EventRequest::InsertSyncEvent { did, commit_cid, rev, commit_bytes } => match reply {
            EventReply::Number(r) => {
                exists|now: i64| #[trigger]
                    is_timestamp(now as int) && event_recorded(
                        r,
                        t,
                        recorded(
                            s,
                            sync_event(did@, commit_cid@, rev.deep_view(), commit_bytes@, now),
                            did@,
                            rev.deep_view(),
                        ),
                    )
            },
            _ => false,
        },
        EventRequest::InsertGenesisCommitEvent {
            did,
            commit_cid,
            mst_root_cid,
            rev,
            commit_bytes,
            mst_root_bytes,
        } => match reply {
            EventReply::Number(r) => {
                exists|now: i64| #[trigger]
                    is_timestamp(now as int) && event_recorded(
                        r,
                        t,
                        recorded(
                            s,
                            genesis_event(
                                did@,
                                commit_cid@,
                                mst_root_cid@,
                                rev@,
                                commit_bytes@,
                                mst_root_bytes@,
                                now,
                            ),
                            did@,
                            Some(rev@),
                        ),
                    )
            },
            _ => false,
        },
        EventRequest::PurgeDidEventsKeepingLatest { did } => match reply {
            EventReply::Done(r) => (db_viewed(r), t) == purge(s, did@),
            _ => false,
        },
        EventRequest::GetMaxSeq => match reply {
            EventReply::Number(r) => r is Ok && r->Ok_0@ == max_seq(s.log) && t == s,
            _ => false,
        },
        EventRequest::GetMinSeqSince { since } => match reply {
            EventReply::MaybeNumber(r) => db_viewed(r) == Ok::<Option<i64>, DbErrorView>(
                first_since(s.log, since),
            ) && t == s,
            _ => false,
        },
        EventRequest::GetEventsSinceSeq { since_seq, limit } => match reply {
            EventReply::Events(r) => events_found(
                r,
                alive(
                    s.repo_data.rows,
                    events_of(
                        match limit {
                            Some(n) => limited(after(s.log, since_seq@), count_limit(n)),
                            None => after(s.log, since_seq@),
                        },
                    ),
                ),
            ) && t == s,
            _ => false,
        },
        EventRequest::GetEventsInSeqRange { start_seq, end_seq } => match reply {
            EventReply::Events(r) => events_found(
                r,
                alive(s.repo_data.rows, events_of(between(s.log, start_seq@, end_seq@))),
            ) && t == s,
            _ => false,
        },
        EventRequest::GetEventBySeq { seq } => match reply {
            EventReply::Event(r) => db_viewed(r) == Ok::<Option<Event>, DbErrorView>(
                visible_event(s, seq@),
            ) && t == s,
            _ => false,
        },
        EventRequest::GetEventsSinceCursor { cursor, limit } => match reply {
            EventReply::Events(r) => events_found(
                r,
                alive(
                    s.repo_data.rows,
                    events_of(limited(after(s.log, cursor@), count_limit(limit))),
                ),
            ) && t == s,
            _ => false,
        },
    }
}

fn handle_ref(h: &Option<Handle>) -> (r: Option<&Handle>)
    ensures
        (match r {
            Some(h) => Some(h@),
            None => None,
        }) == h.deep_view(),
{
    match h {
        Some(h) => Some(h),
        None => None,
    }
}

/// Answers a request about the event log.
pub fn dispatch_event(ops: &mut EventOps<'_>, request: EventRequest) -> (reply: EventReply)
    ensures
        event_answer(old(ops)@, request, reply, final(ops)@),
        *final(final(ops).repo_data) == *final(old(ops).repo_data),
        *final(final(ops).log) == *final(old(ops).log),
{
    match request {
        EventRequest::InsertCommitEvent { data } => EventReply::Number(ops.insert_commit_event(&data)),
        EventRequest::InsertIdentityEvent { did, handle } => EventReply::Number(
            ops.insert_identity_event(&did, handle_ref(&handle)),
        ),
        EventRequest::InsertAccountEvent { did, status } => EventReply::Number(
            ops.insert_account_event(&did, status),
        ),
        EventRequest::InsertSyncEvent { did, commit_cid, rev, commit_bytes } => EventReply::Number(
            ops.insert_sync_event(&did, &commit_cid, text_ref(&rev), commit_bytes.as_slice()),
        ),
        EventRequest::InsertGenesisCommitEvent {
            did,
            commit_cid,
            mst_root_cid,
            rev,
            commit_bytes,
            mst_root_bytes,
        } => EventReply::Number(
            ops.insert_genesis_commit_event(
                &did,
                &commit_cid,
                &mst_root_cid,
                rev.as_str(),
                commit_bytes.as_slice(),
                mst_root_bytes.as_slice(),
            ),
        ),
        EventRequest::PurgeDidEventsKeepingLatest { did } => EventReply::Done(
            ops.purge_did_events_keeping_latest(&did),
        ),
        EventRequest::GetMaxSeq => EventReply::Number(Ok(ops.get_max_seq())),
        EventRequest::GetMinSeqSince { since } => EventReply::MaybeNumber(
            ops.get_min_seq_since(since),
        ),
        EventRequest::GetEventsSinceSeq { since_seq, limit } => EventReply::Events(
            ops.get_events_since_seq(since_seq, limit),
        ),
        EventRequest::GetEventsInSeqRange { start_seq, end_seq } => EventReply::Events(
            ops.get_events_in_seq_range(start_seq, end_seq),
        ),
        EventRequest::GetEventBySeq { seq } => EventReply::Event(ops.get_event_by_seq(seq)),
        EventRequest::GetEventsSinceCursor { cursor, limit } => EventReply::Events(
            ops.get_events_since_cursor(cursor, limit),
        ),
    }
}

/// What came of an import.
pub open spec fn import_outcome(r: Result<(), ImportRepoError>) -> Result<(), Refusal> {
    match r {
        Ok(_) => Ok(()),
        Err(e) => Err(e@),
    }
}

/// The state after an import of records.
pub open spec fn with_records(
    s: CommitState,
    plan: Result<u64, Refusal>,
    records: Seq<crate::commit_ops::ImportedRecord>,
) -> (Result<(), Refusal>, CommitState) {
    match plan {
        Err(e) => (Err(e), s),
        Ok(hash) => (
            Ok(()),
            CommitState {
                store: MetastoreView {
                    repo_data: s.store.repo_data.commit(record_writes(hash, imported(records))),
                    ..s.store
                },
                ..s
            },
        ),
    }
}

/// The state after the blobs of some records were recorded.
pub open spec fn with_record_blobs(
    s: CommitState,
    repo_id: Uuid,
    uris: Seq<Seq<char>>,
    cids: Seq<Seq<u8>>,
) -> (Result<(), MetastoreError>, CommitState) {
    match hash_of(s.store.user_hashes, repo_id) {
        None => (Err(MetastoreError::InvalidInput("unknown user_id")), s),
        Some(hash) => (
            Ok(()),
            CommitState {
                store: MetastoreView {
                    repo_data: s.store.repo_data.commit(record_blob_writes(hash, uris, cids)),
                    ..s.store
                },
                ..s
            },
        ),
    }
}

/// Whether an answer is the one to a request about commits. Blocks of an import are checked
/// where they are to be stored.
pub open spec fn commit_answer(
    s: CommitState,
    request: CommitRequest,
    store_blocks: bool,
    reply: CommitReply,
    t: CommitState,
) -> bool {
    match request {
        CommitRequest::ApplyCommit { input } => match reply {
            CommitReply::Commit(r) => {
                exists|now: i64| #[trigger]
                    is_timestamp(now as int) && (outcome_of(r), t) == commit_outcome(
                        s,
                        input.deep_view(),
                        now,
                    )
            },
            _ => false,
        },
        CommitRequest::ImportRepoData { user_id, blocks, records, expected_root_cid } => match reply {
            CommitReply::Import(r) => (import_outcome(r), t) == with_records(
                s,
                import_plan(
                    s.store,
                    user_id,
                    blocks.deep_view(),
                    expected_root_cid.deep_view(),
                    store_blocks,
                ),
                records.deep_view(),
            ),
            _ => false,
        },
        CommitRequest::GetUsersWithoutBlocks => match reply {
            CommitReply::WithoutBlocks(r) => db_viewed(r) == db_result(
                collect(
                    all_repo_rows(s.store.repo_data.rows),
                    |row: RowView|
                        lacks_blocks(row, s.store.repo_data.rows, s.store.user_hashes),
                    MAX_USERS_WITHOUT_BLOCKS as nat,
                ),
            ) && t == s,
            _ => false,
        },
        CommitRequest::GetUsersNeedingRecordBlobsBackfill { limit } => match reply {
            CommitReply::NeedingBackfill(r) => db_viewed(r) == db_result(
                collect(
                    all_repo_rows(s.store.repo_data.rows),
                    |row: RowView|
                        needs_backfill(row, s.store.repo_data.rows, s.store.user_hashes),
                    count_limit(limit),
                ),
            ) && t == s,
            _ => false,
        },
        CommitRequest::InsertRecordBlobs { repo_id, record_uris, blob_cids } => match reply {
            CommitReply::Done(r) => {
                let outcome = with_record_blobs(
                    s,
                    repo_id,
                    record_uris.deep_view(),
                    blob_cids.deep_view(),
                );
                db_viewed(r) == db_result(outcome.0) && t == outcome.1
            },
            _ => false,
        },
    }
}

/// Answers a request about commits.
pub fn dispatch_commit(ops: &mut CommitOps<'_>, request: CommitRequest, store_blocks: bool) -> (reply:
    CommitReply)
    ensures
        commit_answer(old(ops)@, request, store_blocks, reply, final(ops)@),
        *final(final(ops).store) == *final(old(ops).store),
        *final(final(ops).log) == *final(old(ops).log),
{
    match request {
        CommitRequest::ApplyCommit { input } => CommitReply::Commit(ops.apply_commit(input)),
        CommitRequest::ImportRepoData { user_id, blocks, records, expected_root_cid } => {
            let expected: Option<&CidLink> = match &expected_root_cid {
                Some(c) => Some(c),
                None => None,
            };
            CommitReply::Import(
                ops.import_repo_data(user_id, &blocks, &records, expected, store_blocks),
            )
        },
        CommitRequest::GetUsersWithoutBlocks => CommitReply::WithoutBlocks(
            to_db(ops.get_users_without_blocks()),
        ),
        CommitRequest::GetUsersNeedingRecordBlobsBackfill { limit } =>
            CommitReply::NeedingBackfill(
            to_db(ops.get_users_needing_record_blobs_backfill(limit)),
        ),
        CommitRequest::InsertRecordBlobs { repo_id, record_uris, blob_cids } => CommitReply::Done(
            to_db(ops.insert_record_blobs(repo_id, &record_uris, &blob_cids)),
        ),
    }
}

/// The store with a new repository.
pub open spec fn repo_created(
    s: MetastoreView,
    user_id: Uuid,
    did: Seq<char>,
    handle: Seq<char>,
    root: Seq<u8>,
    rev: Seq<char>,
) -> (Result<(), MetastoreError>, MetastoreView) {
    match hash_refusal(s.user_hashes, user_id, did_hash(did)) {
        Some(e) => (Err(e), s),
        None => (
            Ok(()),
            MetastoreView {
                user_hashes: s.user_hashes.insert(user_id, did_hash(did)),
                repo_data: s.repo_data.commit(
                    new_repo_writes(user_id, did_hash(did), new_repo(did, handle, root, rev)),
                ),
                ..s
            },
        ),
    }
}

/// Whether an answer is the one to a request about repositories; nothing where the request
/// is answered elsewhere.
pub open spec fn repo_answer(
    s: MetastoreView,
    request: RepoRequest,
    reply: Option<RepoReply>,
    t: MetastoreView,
) -> bool {
    match request {
        RepoRequest::CreateRepoFull { user_id, did, handle, repo_root_cid, repo_rev } => match reply {
            Some(RepoReply::Done(r)) => answered(
                r,
                t,
                repo_created(s, user_id, did@, handle@, repo_root_cid@, repo_rev@),
            ),
            _ => false,
        },
        RepoRequest::GetRepo { user_id } => match reply {
            Some(RepoReply::Repo(r)) => answered(
                r,
                t,
                (repo_at(s.repo_data.rows, s.user_hashes, user_id), s),
            ),
            _ => false,
        },
        _ => reply is None && t == s,
    }
}

/// Answers a request about repositories, if it is one that is answered here.
pub fn dispatch_repo(store: &mut Metastore, request: RepoRequest) -> (reply: Option<RepoReply>)
    ensures
        repo_answer(old(store)@, request, reply, final(store)@),
{
    match request {
        RepoRequest::CreateRepoFull { user_id, did, handle, repo_root_cid, repo_rev } => Some(
            RepoReply::Done(
                to_db(store.create_repo(user_id, &did, &handle, &repo_root_cid, repo_rev.as_str())),
            ),
        ),
        RepoRequest::GetRepo { user_id } => Some(RepoReply::Repo(to_db(store.get_repo(user_id)))),
        _ => None,
    }
}

/// Whether an answer is the one to a request about records.
pub open spec fn record_answer(
    s: MetastoreView,
    request: RecordRequest,
    reply: Option<RepoReply>,
    t: MetastoreView,
) -> bool {
    match request {
        RecordRequest::UpsertRecords { repo_id, collections, rkeys, record_cids, repo_rev } =>
            match reply {
            Some(RepoReply::Done(r)) => (db_viewed(r), t) == records_upserted(
                s,
                repo_id,
                zipped_records(collections.deep_view(), rkeys.deep_view(), record_cids.deep_view()),
                repo_rev@,
            ),
            _ => false,
        },
        RecordRequest::DeleteRecords { repo_id, collections, rkeys } => match reply {
            Some(RepoReply::Done(r)) => (db_viewed(r), t) == user_rows_changed(
                s,
                repo_id,
                |hash: u64|
                    record_removals(
                        hash,
                        zipped_keys(collections.deep_view(), rkeys.deep_view()),
                    ),
            ),
            _ => false,
        },
        RecordRequest::DeleteAllRecords { repo_id } => match reply {
            Some(RepoReply::Done(r)) => (db_viewed(r), t) == user_rows_changed(
                s,
                repo_id,
                |hash: u64| all_record_removals(s.repo_data.rows, hash),
            ),
            _ => false,
        },
        RecordRequest::GetRecordCid { repo_id, collection, rkey } => match reply {
            Some(RepoReply::Record(r)) => answered(
                r,
                t,
                (record_at(s.repo_data.rows, s.user_hashes, repo_id, collection@, rkey@), s),
            ),
            _ => false,
        },
        _ => reply is None && t == s,
    }
}

/// Answers a request about records, if it is one that is answered here.
pub fn dispatch_record(store: &mut Metastore, request: RecordRequest) -> (reply: Option<RepoReply>)
    ensures
        record_answer(old(store)@, request, reply, final(store)@),
{
    match request {
        RecordRequest::UpsertRecords { repo_id, collections, rkeys, record_cids, repo_rev } => Some(
            RepoReply::Done(
                store.upsert_records(repo_id, &collections, &rkeys, &record_cids, repo_rev.as_str()),
            ),
        ),
        RecordRequest::DeleteRecords { repo_id, collections, rkeys } => Some(
            RepoReply::Done(store.delete_records(repo_id, &collections, &rkeys)),
        ),
        RecordRequest::DeleteAllRecords { repo_id } => Some(
            RepoReply::Done(store.delete_all_records(repo_id)),
        ),
        RecordRequest::GetRecordCid { repo_id, collection, rkey } => Some(
            RepoReply::Record(
                to_db(store.get_record_cid(repo_id, collection.as_str(), rkey.as_str())),
            ),
        ),
        _ => None,
    }
}

/// Whether an answer is the one to a request about blocks.
pub open spec fn user_block_answer(
    s: MetastoreView,
    request: UserBlockRequest,
    reply: Option<RepoReply>,
    t: MetastoreView,
) -> bool {
    match request {
        UserBlockRequest::InsertUserBlocks { user_id, block_cids, repo_rev } => match reply {
            Some(RepoReply::Done(r)) => (db_viewed(r), t) == user_rows_changed(
                s,
                user_id,
                |hash: u64| block_writes(hash, block_cids.deep_view(), repo_rev@),
            ),
            _ => false,
        },
        UserBlockRequest::DeleteUserBlocks { user_id, block_cids } => match reply {
            Some(RepoReply::Done(r)) => (db_viewed(r), t) == user_rows_changed(
                s,
                user_id,
                |hash: u64| block_removals(hash, block_cids.deep_view()),
            ),
            _ => false,
        },
        _ => reply is None && t == s,
    }
}

/// Answers a request about blocks, if it is one that is answered here.
pub fn dispatch_user_block(store: &mut Metastore, request: UserBlockRequest) -> (reply: Option<
    RepoReply,
>)
    ensures
        user_block_answer(old(store)@, request, reply, final(store)@),
{
    match request {
        UserBlockRequest::InsertUserBlocks { user_id, block_cids, repo_rev } => Some(
            RepoReply::Done(store.insert_user_blocks(user_id, &block_cids, repo_rev.as_str())),
        ),
        UserBlockRequest::DeleteUserBlocks { user_id, block_cids } => Some(
            RepoReply::Done(store.delete_user_blocks(user_id, &block_cids)),
        ),
        _ => None,
    }
}

/// Whether an answer is the one to a request about links.
pub open spec fn backlink_answer(
    s: MetastoreView,
    request: BacklinkRequest,
    reply: Option<RepoReply>,
    t: MetastoreView,
) -> bool {
    match request {
        BacklinkRequest::AddBacklinks { repo_id, backlinks } => match reply {
            Some(RepoReply::Done(r)) => (db_viewed(r), t) == links_added(
                s,
                repo_id,
                backlinks.deep_view(),
            ),
            _ => false,
        },
        BacklinkRequest::RemoveBacklinksByUri { uri, did } => match reply {
            Some(RepoReply::Done(r)) => (db_viewed(r), t) == links_removed(
                s,
                uri@,
                did.deep_view(),
            ),
            _ => false,
        },
        BacklinkRequest::RemoveBacklinksByRepo { repo_id } => match reply {
            Some(RepoReply::Done(r)) => (db_viewed(r), t) == repo_unlinked(s, repo_id),
            _ => false,
        },
        _ => reply is None && t == s,
    }
}

/// Answers a request about links, if it is one that is answered here.
pub fn dispatch_backlink(store: &mut Metastore, request: BacklinkRequest) -> (reply: Option<
    RepoReply,
>)
    ensures
        backlink_answer(old(store)@, request, reply, final(store)@),
{
    match request {
        BacklinkRequest::AddBacklinks { repo_id, backlinks } => Some(
            RepoReply::Done(store.add_backlinks(repo_id, &backlinks)),
        ),
        BacklinkRequest::RemoveBacklinksByUri { uri, did } => Some(
            RepoReply::Done(store.remove_backlinks_by_uri(uri.as_str(), did_ref(&did))),
        ),
        BacklinkRequest::RemoveBacklinksByRepo { repo_id } => Some(
            RepoReply::Done(store.remove_backlinks_by_repo(repo_id)),
        ),
        _ => None,
    }
}

/// Whether an answer is the one to a request about blobs.
pub open spec fn blob_answer(s: EventState, request: BlobRequest, reply: Option<RepoReply>) -> bool {
    match request {
        BlobRequest::ListBlobsSinceRev { did, since } => match reply {
            Some(RepoReply::Blobs(r)) => db_viewed(r) == db_result(blobs_since(s, did@, since@)),
            _ => false,
        },
        _ => reply is None,
    }
}

/// Answers a request about blobs, if it is one that is answered here.
pub fn dispatch_blob(ops: &EventOps<'_>, request: BlobRequest) -> (reply: Option<RepoReply>)
    ensures
        blob_answer(ops@, request, reply),
{
    match request {
        BlobRequest::ListBlobsSinceRev { did, since } => Some(
            RepoReply::Blobs(ops.get_blob_cids_since_rev(&did, since.as_str())),
        ),
        _ => None,
    }
}

/// Whether an answer is the one to a request about users.
pub open spec fn user_answer(
    s: MetastoreView,
    request: UserRequest,
    reply: Option<RepoReply>,
    t: MetastoreView,
) -> bool {
    match request {
        UserRequest::CheckAndConsumeInviteCode { code } => match reply {
            Some(RepoReply::Flag(r)) => r is Ok && (r->Ok_0, t) == consumed(s, code@),
            _ => false,
        },
        _ => reply is None && t == s,
    }
}

/// Answers a request about users, if it is one that is answered here.
pub fn dispatch_user(ops: &mut InfraOps<'_>, request: UserRequest) -> (reply: Option<RepoReply>)
    ensures
        user_answer(old(ops)@, request, reply, final(ops)@),
        *final(final(ops).store) == *final(old(ops).store),
{
    match request {
        UserRequest::CheckAndConsumeInviteCode { code } => Some(
            RepoReply::Flag(ops.check_and_consume_invite_code(code.as_str())),
        ),
        _ => None,
    }
}

/// What the keeper of events sees of a state.
pub open spec fn event_state(s: CommitState) -> EventState {
    EventState { repo_data: s.store.repo_data, log: s.log }
}

/// Whether an optional answer about repositories is what was asked for.
pub open spec fn repo_reply(reply: Reply) -> Option<Option<RepoReply>> {
    match reply {
        Reply::Repo(r) => Some(Some(r)),
        Reply::Elsewhere => Some(None),
        _ => None,
    }
}

/// Whether an answer is the one to a request.
pub open spec fn answer(
    s: CommitState,
    request: MetastoreRequest,
    store_blocks: bool,
    reply: Reply,
    t: CommitState,
) -> bool {
    match request {
        MetastoreRequest::Delegation(request) => {
            &&& reply matches Reply::Delegation(r) && delegation_answer(s.store, request, r, t.store)
            &&& t.log == s.log
        },
        MetastoreRequest::Event(request) => {
            &&& reply matches Reply::Event(r) && event_answer(
                event_state(s),
                request,
                r,
                event_state(t),
            )
            &&& t.store == (MetastoreView { repo_data: t.store.repo_data, ..s.store })
        },
        MetastoreRequest::Commit(request) => {
            reply matches Reply::Commit(r) && commit_answer(s, request, store_blocks, r, t)
        },
        MetastoreRequest::Infra(request) => {
            &&& reply matches Reply::Infra(r) && infra_answer(s.store, request, r, t.store)
            &&& t.log == s.log
        },
        MetastoreRequest::Repo(request) => {
            &&& repo_reply(reply) matches Some(r) && repo_answer(s.store, request, r, t.store)
            &&& t.log == s.log
        },
        MetastoreRequest::Record(request) => {
            &&& repo_reply(reply) matches Some(r) && record_answer(s.store, request, r, t.store)
            &&& t.log == s.log
        },
        MetastoreRequest::UserBlock(request) => {
            &&& repo_reply(reply) matches Some(r) && user_block_answer(s.store, request, r, t.store)
            &&& t.log == s.log
        },
        MetastoreRequest::Backlink(request) => {
            &&& repo_reply(reply) matches Some(r) && backlink_answer(s.store, request, r, t.store)
            &&& t.log == s.log
        },
        MetastoreRequest::Blob(request) => {
            &&& repo_reply(reply) matches Some(r) && blob_answer(event_state(s), request, r)
            &&& t == s
        },
        MetastoreRequest::User(request) => {
            &&& repo_reply(reply) matches Some(r) && user_answer(s.store, request, r, t.store)
            &&& t.log == s.log
        },
        _ => reply is Elsewhere && t == s,
    }
}

fn repo_answered(r: Option<RepoReply>) -> (reply: Reply)
    ensures
        repo_reply(reply) == Some(r),
{
    match r {
        Some(r) => Reply::Repo(r),
        None => Reply::Elsewhere,
    }
}

/// Answers a request.
pub fn dispatch(
    store: &mut Metastore,
    log: &mut EventLog,
    request: MetastoreRequest,
    store_blocks: bool,
) -> (reply: Reply)
    ensures
        answer(
            (CommitState { store: old(store)@, log: old(log)@ }),
            request,
            store_blocks,
            reply,
            (CommitState { store: final(store)@, log: final(log)@ }),
        ),
{
    match request {
        MetastoreRequest::Delegation(request) => {
            let mut ops = store.delegation_ops();
            Reply::Delegation(dispatch_delegation(&mut ops, request))
        },
        MetastoreRequest::Event(request) => {
            let mut ops = store.event_ops(log);
            Reply::Event(dispatch_event(&mut ops, request))
        },
        MetastoreRequest::Commit(request) => {
            let mut ops = store.commit_ops(log);
            Reply::Commit(dispatch_commit(&mut ops, request, store_blocks))
        },
        MetastoreRequest::Infra(request) => {
            let mut ops = store.infra_ops();
            Reply::Infra(dispatch_infra(&mut ops, request))
        },
        MetastoreRequest::Repo(request) => repo_answered(dispatch_repo(store, request)),
        MetastoreRequest::Record(request) => repo_answered(dispatch_record(store, request)),
        MetastoreRequest::UserBlock(request) => repo_answered(dispatch_user_block(store, request)),
        MetastoreRequest::Backlink(request) => repo_answered(dispatch_backlink(store, request)),
        MetastoreRequest::Blob(request) => {
            let ops = store.event_ops(log);
            repo_answered(dispatch_blob(&ops, request))
        },
        MetastoreRequest::User(request) => {
            let mut ops = store.infra_ops();
            repo_answered(dispatch_user(&mut ops, request))
        },
        _ => Reply::Elsewhere,
    }
}

} // verus!
