//! What holds of the service as a whole: who may read without a trace, how many handlers there
//! are, and which stores and times it accepts.

use vstd::prelude::*;
use vstd::utf8::encode_utf8;

use crate::clock::{is_timestamp, timestamp_or_epoch, timestamp_or_none};
use crate::config::cache_size;
use crate::dispatch::{commit_answer, delegation_answer, event_answer};
use crate::dispatch::{record_answer, repo_answer, CommitReply, DelegationReply, EventReply, RepoReply};
use crate::dispatch_infra::{infra_answer, InfraReply};
use crate::commit_ops::CommitState;
use crate::encoding::{be8, be8_round_trip, be_len};
use crate::account_ops::key_used;
use crate::account_steps::{email_factor, key_claimed};
use crate::errors::{db_error, DbErrorView, MetastoreError};
use crate::events::Entry;
use crate::json::compact_json;
use crate::event_ops::EventState;
use crate::metastore::{version_problem, MetastoreView, CURRENT_FORMAT_VERSION};
use crate::partitions::Partition;
use crate::commit_ops::{all_repo_rows, lacks_blocks};
use crate::pool::{assigned, assignment, pool_size, RosterView};
use crate::scan::{collect_all, collect_is_first};
use crate::store::RowView;
use crate::retention::{forgotten, forgotten_is_too_old, micros, window_keeps_since_cutoff};
use crate::retention::{window_since, RetentionWindow};
use crate::routing::Routing;
use crate::types::Uuid;
use crate::requests::{CommitRequest, DelegationRequest, EventRequest};
use crate::requests::{InfraRequest, RecordRequest, RepoRequest};

verus! {

/// Asking about delegations changes nothing.
pub proof fn reading_delegations_changes_nothing(
    s: MetastoreView,
    request: DelegationRequest,
    reply: DelegationReply,
    t: MetastoreView,
)
    requires
        delegation_answer(s, request, reply, t),
        request is IsDelegatedAccount || request is GetDelegation
            || request is GetDelegationsForAccount || request is GetAccountsControlledBy
            || request is CountActiveControllers || request is ControlsAnyAccounts
            || request is GetAuditLogForAccount || request is CountAuditLogEntries,
    ensures
        t == s,
{
}

/// Asking about events changes nothing.
pub proof fn reading_events_changes_nothing(
    s: EventState,
    request: EventRequest,
    reply: EventReply,
    t: EventState,
)
    requires
        event_answer(s, request, reply, t),
        request is GetMaxSeq || request is GetMinSeqSince || request is GetEventsSinceSeq
            || request is GetEventsInSeqRange || request is GetEventBySeq
            || request is GetEventsSinceCursor,
    ensures
        t == s,
{
}

/// Asking about account infrastructure changes nothing.
pub proof fn reading_infra_changes_nothing(
    s: MetastoreView,
    request: InfraRequest,
    reply: InfraReply,
    t: MetastoreView,
)
    requires
        infra_answer(s, request, reply, t),
        request is FetchPendingComms || request is GetInviteCodeAvailableUses
            || request is ValidateInviteCode || request is GetInviteCodesForAccount
            || request is GetInviteCodeUses || request is ListInviteCodes
            || request is GetUserDidsByIds || request is GetInviteCodeUsesBatch
            || request is GetInvitesCreatedByUser || request is GetInviteCodeInfo
            || request is GetInviteCodesByUsers || request is GetInviteCodeUsedByUser
            || request is GetReservedSigningKey || request is GetDeletionRequest
            || request is GetServerConfig || request is GetPlcTokenExpiry
            || request is GetAccountPreferences || request is GetNotificationHistory
            || request is GetServerConfigs || request is GetBlobStorageKeyByCid
            || request is GetAdminAccountInfoByDid || request is GetAdminAccountInfosByDids
            || request is GetInviteCodeUsesByUsers || request is GetDeletionRequestByDid
            || request is GetLatestCommsForUser || request is CountCommsByType
            || request is GetReservedSigningKeyFull || request is GetPlcTokensByDid
            || request is CountPlcTokensByDid,
    ensures
        t == s,
{
}

/// Changes of account infrastructure touch no other partition but that of the repositories,
/// and that one only where a blob is removed.
pub proof fn infra_changes_stay_in_place(
    s: MetastoreView,
    request: InfraRequest,
    reply: InfraReply,
    t: MetastoreView,
)
    requires
        infra_answer(s, request, reply, t),
    ensures
        t.indexes == s.indexes,
        t.users == s.users,
        t.auth == s.auth,
        t.signal == s.signal,
        t.user_hashes == s.user_hashes,
        request !is DeleteBlobByCid ==> t.repo_data == s.repo_data,
        request is DeleteBlobByCid ==> t.infra == s.infra,
{
}

/// Changes of delegations touch the partition of the indexes alone.
pub proof fn delegation_changes_stay_in_place(
    s: MetastoreView,
    request: DelegationRequest,
    reply: DelegationReply,
    t: MetastoreView,
)
    requires
        delegation_answer(s, request, reply, t),
    ensures
        t.repo_data == s.repo_data,
        t.users == s.users,
        t.infra == s.infra,
        t.auth == s.auth,
        t.signal == s.signal,
        t.user_hashes == s.user_hashes,
{
}

/// Asking about a repository or a record changes nothing, and neither does any request that is
/// answered elsewhere.
pub proof fn reading_repos_changes_nothing(
    s: MetastoreView,
    repo: RepoRequest,
    record: RecordRequest,
    reply: Option<RepoReply>,
    t: MetastoreView,
)
    ensures
        repo_answer(s, repo, reply, t) && repo !is CreateRepoFull ==> t == s,
        record_answer(s, record, reply, t) && record !is UpsertRecords && record !is DeleteRecords
            && record !is DeleteAllRecords ==> t == s,
{
}

/// Asking which users lack blocks or blobs changes nothing.
pub proof fn reading_users_changes_nothing(
    s: CommitState,
    request: CommitRequest,
    store_blocks: bool,
    reply: CommitReply,
    t: CommitState,
)
    requires
        commit_answer(s, request, store_blocks, reply, t),
        request is GetUsersWithoutBlocks || request is GetUsersNeedingRecordBlobsBackfill,
    ensures
        t == s,
{
}

/// There are as many handlers as were asked for, or half as many as can run at once, and never
/// none.
pub proof fn handlers_are_counted(requested: Option<usize>, parallelism: Option<usize>)
    ensures
        pool_size(requested, parallelism) >= 1,
        requested matches Some(n) ==> (n >= 1 ==> pool_size(requested, parallelism) == n),
        requested is None ==> (parallelism matches Some(p) ==> (p >= 2 ==> 2 * pool_size(
            requested,
            parallelism,
        ) <= p < 2 * pool_size(requested, parallelism) + 2)),
        requested is None && parallelism is None ==> pool_size(requested, parallelism) == 1,
{
}

/// The cache takes a fifth of the memory, up to four gibibytes.
pub proof fn cache_is_a_fifth(total_ram: u64)
    ensures
        total_ram < 5 * 4_294_967_296 ==> 5 * cache_size(total_ram) <= total_ram < 5 * cache_size(
            total_ram,
        ) + 5,
        total_ram >= 5 * 4_294_967_296 ==> cache_size(total_ram) == 4_294_967_296,
{
}

/// A store is opened exactly where it has no version yet or that of this one; one of another
/// version is refused with both.
pub proof fn other_versions_are_refused(found: u64, recorded: Seq<u8>)
    ensures
        version_problem(None) is None,
        version_problem(Some(be8(CURRENT_FORMAT_VERSION))) is None,
        found != CURRENT_FORMAT_VERSION ==> version_problem(Some(be8(found))) == Some(
            MetastoreError::VersionMismatch { expected: CURRENT_FORMAT_VERSION, found },
        ),
        recorded.len() != 8 ==> version_problem(Some(recorded)) is Some,
{
    be8_round_trip(found);
    be8_round_trip(CURRENT_FORMAT_VERSION);
    be_len(found as nat, 8);
    be_len(CURRENT_FORMAT_VERSION as nat, 8);
}

/// A time that there is is read as it is; one that there is not, as the epoch, or as none.
pub proof fn times_are_read(ms: i64)
    ensures
        is_timestamp(ms as int) ==> timestamp_or_epoch(ms) == ms && timestamp_or_none(Some(ms))
            == Some(ms),
        !is_timestamp(ms as int) ==> timestamp_or_epoch(ms) == 0 && timestamp_or_none(Some(ms)) is None,
        timestamp_or_none(None) is None,
{
}

/// Each partition has a place and a name of its own.
pub proof fn partitions_differ(p: Partition, q: Partition)
    ensures
        p.position() == q.position() ==> p == q,
        p.label() == q.label() ==> p == q,
        p.position() < 6,
{
    reveal_strlit("repo_data");
    reveal_strlit("indexes");
    reveal_strlit("users");
    reveal_strlit("infra");
    reveal_strlit("auth");
    reveal_strlit("signal");
    assert("repo_data"@.len() == 9 && "indexes"@.len() == 7 && "auth"@.len() == 4);
    assert("signal"@.len() == 6 && "users"@.len() == 5 && "infra"@.len() == 5);
    assert("users"@[0] != "infra"@[0]);
    if p.label() == q.label() {
        assert(p.label().len() == q.label().len() && p.label()[0] == q.label()[0]);
    }
}

/// A request is given to one of the handlers that there are; one that any may take moves on to the
/// next, and one about a subject does not.
pub proof fn requests_are_assigned(roster: RosterView, routing: Routing)
    ensures
        roster.handlers > 0 ==> (assignment(roster, routing).0 matches Ok(i) && 0 <= i
            < roster.handlers),
        routing is Sharded ==> assignment(roster, routing).1 == roster,
        routing is Global && roster.handlers > 0 && roster.turn < usize::MAX ==> assignment(
            roster,
            routing,
        ).1.turn == roster.turn + 1,
        assignment(roster, routing).1.handlers == roster.handlers,
        roster.handlers == 0 ==> assignment(roster, routing).0 is Err,
{
}

/// Clients are told of data that cannot be read as such, of a shared hash or a second row of a
/// kind as a constraint, and of everything else as a query that failed; the words are the store's.
pub proof fn errors_are_told(e: MetastoreError)
    ensures
        e matches MetastoreError::CorruptData(m) ==> db_error(e) == DbErrorView::CorruptData(m@),
        e matches MetastoreError::InvalidInput(m) ==> db_error(e) == DbErrorView::Query(m@),
        e matches MetastoreError::Fjall(m) ==> db_error(e) == DbErrorView::Query(m@),
        e matches MetastoreError::Lsm(m) ==> db_error(e) == DbErrorView::Query(m@),
        e is UserHashCollision || e is UniqueViolation ==> db_error(e) is Constraint,
        e is VersionMismatch ==> db_error(e) is Query,
{
}

/// An event is kept exactly as long as it is not older than the cutoff allows, and at least the
/// last one always is.
pub proof fn old_events_are_forgotten(log: Seq<Entry>, cutoff: i64, now: i64, i: int)
    requires
        0 <= cutoff <= now,
        0 <= i < log.len(),
        0 <= log[i].event.created_at,
    ensures
        ({
            let window = window_since(cutoff, now)->Ok_0;
            &&& i < forgotten(log, window) ==> log[i].event.created_at * 1000 < cutoff
            &&& i == forgotten(log, window) && i + 1 < log.len() ==> log[i].event.created_at * 1000
                >= cutoff
            &&& forgotten(log, window) < log.len()
        }),
{
    let window = window_since(cutoff, now)->Ok_0;
    forgotten_is_too_old(log, window);
    some_stay(log, window);
    window_keeps_since_cutoff(cutoff, now, micros(log[i].event.created_at));
}

proof fn some_stay(log: Seq<Entry>, window: RetentionWindow)
    requires
        log.len() > 0,
    ensures
        forgotten(log, window) < log.len(),
    decreases log.len(),
{
    if log.len() > 1 {
        some_stay(log.skip(1), window);
    }
}

/// A change of the second factor by e-mail is announced exactly where the preference of that name
/// is stored, and switches it on exactly where the value is true.
pub proof fn email_factor_is_announced(name: Seq<char>, value: Seq<u8>)
    ensures
        email_factor(name, value) is Some <==> name == "email_auth_factor"@,
        email_factor(name, value) == Some(true) ==> compact_json(value) == Some(
            encode_utf8("true"@),
        ),
        name == "email_auth_factor"@ && compact_json(value) == Some(encode_utf8("true"@))
            ==> email_factor(name, value) == Some(true),
{
}

/// A key that was reserved is claimed for an account exactly where its use can be recorded.
pub proof fn claimed_key_is_used(s: MetastoreView, id: Uuid, now: i64)
    ensures
        key_claimed(s, id, now).0 is Ok <==> key_used(s, id, now).0 is Ok,
        key_claimed(s, id, now).1 == key_used(s, id, now).1,
{
}

/// Every handler is reached by some subject: the hashes of subjects go around the handlers.
pub proof fn every_handler_has_subjects(roster: RosterView, i: u64)
    requires
        i < roster.handlers,
        i <= usize::MAX,
    ensures
        assigned(roster, Routing::Sharded(i)) == i,
        i + roster.handlers <= u64::MAX && i + roster.handlers <= usize::MAX ==> assigned(
            roster,
            Routing::Sharded((i + roster.handlers) as u64),
        ) == i,
{
    let n = roster.handlers as int;
    assert(i as int % n == i) by (nonlinear_arith)
        requires
            0 <= i < n,
    ;
    assert((i + n) % n == i) by (nonlinear_arith)
        requires
            0 <= i < n,
    ;
}

/// A cutoff before the epoch, or a clock before it, is refused; with a cutoff in the future
/// nothing older than the present is kept but the last.
pub proof fn cutoffs_are_checked(cutoff: i64, now: i64, at: u64)
    ensures
        cutoff < 0 || now < 0 ==> window_since(cutoff, now) is Err,
        0 <= now < cutoff ==> (window_since(cutoff, now) matches Ok(w) && (w.too_old(at) <==> at
            < now)),
{
}

/// Each partition is the one of its name.
pub proof fn partitions_are_named(s: MetastoreView)
    ensures
        s.partition(Partition::RepoData) == s.repo_data,
        s.partition(Partition::Indexes) == s.indexes,
        s.partition(Partition::Users) == s.users,
        s.partition(Partition::Infra) == s.infra,
        s.partition(Partition::Auth) == s.auth,
        s.partition(Partition::Signal) == s.signal,
{
}

/// No more than ten thousand users without blocks are given at once.
pub proof fn few_blockless_users_are_given(
    s: CommitState,
    store_blocks: bool,
    reply: CommitReply,
    t: CommitState,
)
    requires
        commit_answer(s, CommitRequest::GetUsersWithoutBlocks, store_blocks, reply, t),
        collect_all(
            all_repo_rows(s.store.repo_data.rows),
            |row: RowView| lacks_blocks(row, s.store.repo_data.rows, s.store.user_hashes),
        ) is Ok,
    ensures
        ({
            let all = collect_all(
                all_repo_rows(s.store.repo_data.rows),
                |row: RowView| lacks_blocks(row, s.store.repo_data.rows, s.store.user_hashes),
            )->Ok_0;
            reply matches CommitReply::WithoutBlocks(Ok(list)) && list.len() == (if all.len()
                <= 10_000 {
                all.len()
            } else {
                10_000
            }) && forall|i: int|
                0 <= i < list.len() ==> (#[trigger] list[i]).deep_view() == all[i]
        }),
{
    let rows = all_repo_rows(s.store.repo_data.rows);
    let f = |row: RowView| lacks_blocks(row, s.store.repo_data.rows, s.store.user_hashes);
    collect_is_first(rows, f, rows.len(), 10_000);
    let list = reply->WithoutBlocks_0->Ok_0;
    assert(list.deep_view().len() == list.len());
    assert forall|i: int| 0 <= i < list.len() implies (#[trigger] list[i]).deep_view()
        == collect_all(rows, f)->Ok_0[i] by {
        assert(list.deep_view()[i] == list[i].deep_view());
    }
}

} // verus!
