//! What clients are answered when one of them reads what another has asked to be stored.

use vstd::prelude::*;
use vstd::utf8::encode_utf8;

use crate::clock::is_timestamp;
use crate::commit_ops::{ApplyCommitInput, CommitState};
use crate::commit_laws::{commit_keeps_rest_of_row, committed_record_is_read};
use crate::commit_laws::committed_repo_is_read;
use crate::delegation_laws::index_follows_grants;
use crate::delegation_ops::{audit_entry, audit_rows, audit_writes, created_grant_is_read, did_text};
use crate::delegation_ops::{indexed, new_audit_row, skipped, AuditEntry};
use crate::delegations::DelegationActionType;
use crate::dispatch::{commit_answer, delegation_answer, event_answer, record_answer, repo_answer};
use crate::dispatch::{CommitReply, DelegationReply, EventReply, RepoReply};
use crate::event_laws::{recorded_commit_is_read, recorded_genesis_is_read};
use crate::event_laws::{recorded_identity_is_read, recorded_status_is_read, recorded_sync_is_read};
use crate::event_ops::{tombstoned, EventState};
use crate::eventlog::{in_sequence, max_seq};
use crate::events::{AccountStatus, CommitEventData};
use crate::grant_laws::{controllers_have_grants, logged_action_is_shown, revoked_grant_is_read};
use crate::grant_laws::{active_count, rescoping_finds_grants};
use crate::delegation_laws::rescoped_grant_is_read;
use crate::metastore::MetastoreView;
use crate::repo_row_laws::{created_row_is_read, deleted_records_are_not_read};
use crate::repo_row_laws::written_records_are_read;
use crate::repo_steps::repo_meta_of;
use crate::requests::{CommitRequest, DelegationRequest, EventRequest, RecordRequest, RepoRequest};
use crate::scan::{collect, collected, count_limit, saturated, Contribution};
use crate::store::{storable, RowView};
use crate::types::{is_cid, is_scope, CidLink, DbScope, Did, Handle, SequenceNumber, Uuid};
use crate::user_hash::injective;

verus! {

/// Texts that a machine can hold.
pub open spec fn holds(t: Seq<char>) -> bool {
    encode_utf8(t).len() <= usize::MAX
}

/// A client who asks for the grant that another has asked to be made is given it, with the
/// accounts, the scopes and the giver that were asked for, under the identifier that the other
/// was told, and as in force.
pub proof fn made_grant_is_answered(
    s: MetastoreView,
    t: MetastoreView,
    u: MetastoreView,
    delegated_did: Did,
    controller_did: Did,
    granted_scopes: DbScope,
    granted_by: Did,
    made: DelegationReply,
    read: DelegationReply,
)
    requires
        delegation_answer(
            s,
            (DelegationRequest::CreateDelegation {
                delegated_did,
                controller_did,
                granted_scopes,
                granted_by,
            }),
            made,
            t,
        ),
        delegation_answer(
            t,
            (DelegationRequest::GetDelegation { delegated_did, controller_did }),
            read,
            u,
        ),
        did_text(delegated_did@),
        did_text(controller_did@),
        did_text(granted_by@),
        is_scope(encode_utf8(granted_scopes@)),
        holds(delegated_did@),
        holds(controller_did@),
        holds(granted_by@),
        holds(granted_scopes@),
    ensures
        u == t,
        read matches DelegationReply::Grant(Ok(Some(g))) && made == DelegationReply::Id(Ok(g.id))
            && g.delegated_did@ == delegated_did@ && g.controller_did@ == controller_did@
            && g.granted_scopes@ == granted_scopes@ && g.granted_by@ == granted_by@
            && g.revoked_at is None && g.revoked_by is None && is_timestamp(g.granted_at as int),
{
    let id = made->Id_0->Ok_0;
    let now = choose|now: i64| #[trigger]
        is_timestamp(now as int) && t == indexed(
            s,
            crate::delegation_ops::grant_writes(
                crate::delegation_ops::new_grant(
                    delegated_did@,
                    controller_did@,
                    granted_scopes@,
                    granted_by@,
                    id,
                    now,
                ),
            ),
        );
    created_grant_is_read(
        s,
        delegated_did@,
        controller_did@,
        granted_scopes@,
        granted_by@,
        id,
        now,
    );
    let g = read->Grant_0->Ok_0->0;
    assert(g.deep_view().id == id);
}

/// A client who asks for a grant that another has asked to be revoked is given it as revoked by
/// the account that was named, and otherwise as it was; whether there was one to be revoked is
/// what the other is told.
pub proof fn revoked_grant_is_answered(
    s: MetastoreView,
    t: MetastoreView,
    u: MetastoreView,
    delegated_did: Did,
    controller_did: Did,
    revoked_by: Did,
    before: DelegationReply,
    revoked: DelegationReply,
    read: DelegationReply,
)
    requires
        index_follows_grants(s.indexes.rows),
        storable(s.indexes.rows),
        holds(revoked_by@),
        did_text(revoked_by@),
        delegation_answer(
            s,
            (DelegationRequest::GetDelegation { delegated_did, controller_did }),
            before,
            s,
        ),
        delegation_answer(
            s,
            (DelegationRequest::RevokeDelegation { delegated_did, controller_did, revoked_by }),
            revoked,
            t,
        ),
        delegation_answer(
            t,
            (DelegationRequest::GetDelegation { delegated_did, controller_did }),
            read,
            u,
        ),
    ensures
        u == t,
        revoked matches DelegationReply::Flag(Ok(found)) && (found <==> (
        before matches DelegationReply::Grant(Ok(Some(g))) && g.revoked_at is None)),
        revoked == DelegationReply::Flag(Ok(false)) ==> t == s,
        revoked == DelegationReply::Flag(Ok(true)) ==> (read matches DelegationReply::Grant(
            Ok(Some(h)),
        ) && (before matches DelegationReply::Grant(Ok(Some(g))) && h.id == g.id && h.delegated_did@
            == g.delegated_did@ && h.controller_did@ == g.controller_did@ && h.granted_scopes@
            == g.granted_scopes@ && h.granted_at == g.granted_at && h.granted_by@ == g.granted_by@ && (
        h.revoked_by matches Some(by) && by@ == revoked_by@) && h.revoked_at is Some)),
{
    let now = choose|now: i64| #[trigger]
        is_timestamp(now as int) && crate::dispatch_infra::answered(
            revoked->Flag_0,
            t,
            crate::delegation_ops::revocation(
                s,
                delegated_did@,
                controller_did@,
                revoked_by@,
                now,
            ),
        );
    revoked_grant_is_read(s, delegated_did@, controller_did@, revoked_by@, now);
    let g = before->Grant_0->Ok_0->0;
    let h = read->Grant_0->Ok_0->0;
    assert(g.deep_view().id == g.id && h.deep_view().id == h.id);
    assert(h.deep_view().revoked_by == h.revoked_by.deep_view());
    if revoked == DelegationReply::Flag(Ok(true)) {
        assert(h.deep_view().revoked_by == Some(revoked_by@));
    }
}

/// A client who asks for the audit log of an account finds in it the action that another has
/// asked to be logged, with all that was said of it, under the identifier that the other was
/// told.
pub proof fn logged_action_is_answered(
    s: MetastoreView,
    t: MetastoreView,
    u: MetastoreView,
    delegated_did: Did,
    actor_did: Did,
    controller_did: Option<Did>,
    action_type: DelegationActionType,
    action_details: Option<Vec<u8>>,
    ip_address: Option<String>,
    user_agent: Option<String>,
    limit: i64,
    made: DelegationReply,
    read: DelegationReply,
)
    requires
        s.indexes.rows.dom().finite(),
        delegation_answer(
            s,
            (DelegationRequest::LogDelegationAction {
                delegated_did,
                actor_did,
                controller_did,
                action_type,
                action_details,
                ip_address,
                user_agent,
            }),
            made,
            t,
        ),
        delegation_answer(
            t,
            (DelegationRequest::GetAuditLogForAccount { delegated_did, limit, offset: 0 }),
            read,
            u,
        ),
        did_text(delegated_did@),
        did_text(actor_did@),
        controller_did matches Some(c) ==> did_text(c@),
        limit <= usize::MAX,
        limit >= audit_rows(t.indexes.rows, delegated_did@).len(),
        forall|id: Uuid, now: i64| #[trigger]
            new_audit_row(
                delegated_did@,
                actor_did@,
                controller_did.deep_view(),
                action_type,
                action_details.deep_view(),
                ip_address.deep_view(),
                user_agent.deep_view(),
                id,
                now,
            ).fits(),
        read matches DelegationReply::AuditLog(Ok(_)),
    ensures
        u == t,
        made matches DelegationReply::Id(Ok(id)) && (read matches DelegationReply::AuditLog(Ok(log))
            && exists|e: AuditEntry| #[trigger]
            log.deep_view().contains(e) && e.id == id && e.delegated_did == delegated_did@
                && e.actor_did == actor_did@ && e.controller_did == controller_did.deep_view()
                && e.action_type == action_type && e.ip_address == ip_address.deep_view()
                && e.user_agent == user_agent.deep_view()),
{
    let id = made->Id_0->Ok_0;
    let details = action_details.deep_view();
    let now = choose|now: i64| #[trigger]
        is_timestamp(now as int) && t == indexed(
            s,
            audit_writes(
                new_audit_row(
                    delegated_did@,
                    actor_did@,
                    controller_did.deep_view(),
                    action_type,
                    details,
                    ip_address.deep_view(),
                    user_agent.deep_view(),
                    id,
                    now,
                ),
            ),
        );
    assert(new_audit_row(
        delegated_did@,
        actor_did@,
        controller_did.deep_view(),
        action_type,
        details,
        ip_address.deep_view(),
        user_agent.deep_view(),
        id,
        now,
    ).fits());
    assert(controller_did.deep_view() matches Some(c) ==> did_text(c));
    logged_action_is_shown(
        s,
        delegated_did@,
        actor_did@,
        controller_did.deep_view(),
        action_type,
        details,
        ip_address.deep_view(),
        user_agent.deep_view(),
        id,
        now,
    );
    let rows = audit_rows(t.indexes.rows, delegated_did@);
    let f = |row: RowView| audit_entry(row);
    let i = choose|i: int|
        0 <= i < rows.len() && (audit_entry(#[trigger] rows[i]) matches Ok(Some(e)) && e.id == id
            && e.delegated_did == delegated_did@ && e.actor_did == actor_did@ && e.controller_did
            == controller_did.deep_view() && e.action_type == action_type && e.ip_address
            == ip_address.deep_view() && e.user_agent == user_agent.deep_view());
    let e = audit_entry(rows[i])->Ok_0->0;
    assert(f(rows[i]) == Contribution::<AuditEntry>::Ok(Some(e)));
    assert(skipped(rows, 0) =~= rows);
    collected(rows, f, count_limit(limit), e);
    let log = read->AuditLog_0->Ok_0;
    assert(log.deep_view().contains(e));
}

/// The number under which a client reads back what another has asked to be recorded: the one
/// that the other was told.
pub open spec fn told(made: EventReply, seq: SequenceNumber) -> bool {
    made matches EventReply::Number(Ok(n)) && n@ == seq@
}

/// A client who asks for the event that another was told the number of is given the commit that
/// the other has asked to be recorded, with all that it said of itself.
pub proof fn recorded_commit_is_answered(
    s: EventState,
    t: EventState,
    u: EventState,
    data: CommitEventData,
    made: EventReply,
    seq: SequenceNumber,
    read: EventReply,
)
    requires
        in_sequence(s.log),
        max_seq(s.log) < i64::MAX,
        !tombstoned(s.repo_data.rows, (max_seq(s.log) + 1) as i64),
        event_answer(s, (EventRequest::InsertCommitEvent { data }), made, t),
        told(made, seq),
        event_answer(t, (EventRequest::GetEventBySeq { seq }), read, u),
    ensures
        u == t,
        read matches EventReply::Event(Ok(Some(e))) && e.seq@ == seq@ && e.did@ == data.did@
            && e.event_type == data.event_type && e.commit_cid.deep_view()
            == data.commit_cid.deep_view() && e.prev_cid.deep_view() == data.prev_cid.deep_view()
            && e.prev_data_cid.deep_view() == data.prev_data_cid.deep_view() && e.ops.deep_view()
            == data.ops.deep_view() && e.blobs.deep_view() == data.blobs.deep_view()
            && e.blocks.deep_view() == data.blocks.deep_view() && e.rev.deep_view()
            == data.rev.deep_view(),
{
    let now = choose|now: i64| #[trigger]
        is_timestamp(now as int) && crate::dispatch::event_recorded(
            made->Number_0,
            t,
            crate::event_ops::recorded(
                s,
                crate::event_ops::commit_event(data.deep_view(), now),
                data.did@,
                data.rev.deep_view(),
            ),
        );
    recorded_commit_is_read(s, data.deep_view(), now);
    let e = read->Event_0->Ok_0->0;
    assert(e.deep_view().did == data.did@);
}

/// A client who asks for the event that another was told the number of is given the change of
/// identity, of status, the restart or the first commit that the other has asked to be recorded.
#[verifier::spinoff_prover]
#[verifier::rlimit(60)]
pub proof fn recorded_change_is_answered(
    s: EventState,
    t: EventState,
    u: EventState,
    did: Did,
    handle: Option<Handle>,
    status: AccountStatus,
    commit_cid: CidLink,
    mst_root_cid: CidLink,
    rev: Option<String>,
    commit_bytes: Vec<u8>,
    mst_root_bytes: Vec<u8>,
    made: EventReply,
    seq: SequenceNumber,
    read: EventReply,
)
    requires
        in_sequence(s.log),
        max_seq(s.log) < i64::MAX,
        !tombstoned(s.repo_data.rows, (max_seq(s.log) + 1) as i64),
        told(made, seq),
        event_answer(t, (EventRequest::GetEventBySeq { seq }), read, u),
    ensures
        u == t,
        event_answer(s, (EventRequest::InsertIdentityEvent { did, handle }), made, t) ==> (
        read matches EventReply::Event(Ok(Some(e))) && e.did@ == did@ && e.event_type is Identity
            && e.handle.deep_view() == handle.deep_view() && e.active is None),
        event_answer(s, (EventRequest::InsertAccountEvent { did, status }), made, t) ==> (
        read matches EventReply::Event(Ok(Some(e))) && e.did@ == did@ && e.event_type is Account
            && e.status == Some(status) && e.active == Some(status is Active)),
        event_answer(
            s,
            (EventRequest::InsertSyncEvent { did, commit_cid, rev, commit_bytes }),
            made,
            t,
        ) ==> (read matches EventReply::Event(Ok(Some(e))) && e.did@ == did@ && e.event_type is Sync
            && e.commit_cid.deep_view() == Some(commit_cid@) && e.rev.deep_view() == rev.deep_view()
            && (e.blocks.deep_view() matches Some(bs) && bs.len() == 1 && bs[0].cid_bytes
            == commit_cid@ && bs[0].data == commit_bytes@)),
        rev matches Some(r) ==> (event_answer(
            s,
            (EventRequest::InsertGenesisCommitEvent {
                did,
                commit_cid,
                mst_root_cid,
                rev: r,
                commit_bytes,
                mst_root_bytes,
            }),
            made,
            t,
        ) ==> (read matches EventReply::Event(Ok(Some(e))) && e.did@ == did@ && e.event_type is Commit
            && e.commit_cid.deep_view() == Some(commit_cid@) && e.prev_data_cid.deep_view() == Some(
            mst_root_cid@,
        ) && e.rev.deep_view() == Some(r@) && (e.blocks.deep_view() matches Some(bs) && bs.len() == 2
            && bs[0].cid_bytes == commit_cid@ && bs[0].data == commit_bytes@ && bs[1].cid_bytes
            == mst_root_cid@ && bs[1].data == mst_root_bytes@))),
{
    assert forall|now: i64| #[trigger] is_timestamp(now as int) implies true by {}
    if event_answer(s, (EventRequest::InsertIdentityEvent { did, handle }), made, t) {
        let now = choose|now: i64| #[trigger]
            is_timestamp(now as int) && crate::dispatch::event_recorded(
                made->Number_0,
                t,
                crate::event_ops::recorded(
                    s,
                    crate::event_ops::identity_event(did@, handle.deep_view(), now),
                    did@,
                    None,
                ),
            );
        recorded_identity_is_read(s, did@, handle.deep_view(), now);
        let e = read->Event_0->Ok_0->0;
        assert(e.deep_view().did == did@);
    }
    if event_answer(s, (EventRequest::InsertAccountEvent { did, status }), made, t) {
        let now = choose|now: i64| #[trigger]
            is_timestamp(now as int) && crate::dispatch::event_recorded(
                made->Number_0,
                t,
                crate::event_ops::recorded(
                    s,
                    crate::event_ops::account_event(did@, status, now),
                    did@,
                    None,
                ),
            );
        recorded_status_is_read(s, did@, status, now);
        let e = read->Event_0->Ok_0->0;
        assert(e.deep_view().did == did@);
    }
    if event_answer(
        s,
        (EventRequest::InsertSyncEvent { did, commit_cid, rev, commit_bytes }),
        made,
        t,
    ) {
        let now = choose|now: i64| #[trigger]
            is_timestamp(now as int) && crate::dispatch::event_recorded(
                made->Number_0,
                t,
                crate::event_ops::recorded(
                    s,
                    crate::event_ops::sync_event(
                        did@,
                        commit_cid@,
                        rev.deep_view(),
                        commit_bytes@,
                        now,
                    ),
                    did@,
                    rev.deep_view(),
                ),
            );
        recorded_sync_is_read(s, did@, commit_cid@, rev.deep_view(), commit_bytes@, now);
        let e = read->Event_0->Ok_0->0;
        assert(e.deep_view().did == did@);
    }
    if let Some(r) = rev {
        if event_answer(
            s,
            (EventRequest::InsertGenesisCommitEvent {
                did,
                commit_cid,
                mst_root_cid,
                rev: r,
                commit_bytes,
                mst_root_bytes,
            }),
            made,
            t,
        ) {
            let now = choose|now: i64| #[trigger]
                is_timestamp(now as int) && crate::dispatch::event_recorded(
                    made->Number_0,
                    t,
                    crate::event_ops::recorded(
                        s,
                        crate::event_ops::genesis_event(
                            did@,
                            commit_cid@,
                            mst_root_cid@,
                            r@,
                            commit_bytes@,
                            mst_root_bytes@,
                            now,
                        ),
                        did@,
                        Some(r@),
                    ),
                );
            recorded_genesis_is_read(
                s,
                did@,
                commit_cid@,
                mst_root_cid@,
                r@,
                commit_bytes@,
                mst_root_bytes@,
                now,
            );
            let e = read->Event_0->Ok_0->0;
            assert(e.deep_view().did == did@);
        }
    }
}

/// A client who asks for the repository that another has asked to be created is given it at the
/// root and the revision that were asked for.
pub proof fn created_repo_is_answered(
    s: MetastoreView,
    t: MetastoreView,
    u: MetastoreView,
    user_id: Uuid,
    did: Did,
    handle: Handle,
    repo_root_cid: CidLink,
    repo_rev: String,
    made: Option<RepoReply>,
    read: Option<RepoReply>,
)
    requires
        repo_answer(
            s,
            (RepoRequest::CreateRepoFull { user_id, did, handle, repo_root_cid, repo_rev }),
            made,
            t,
        ),
        repo_answer(t, (RepoRequest::GetRepo { user_id }), read, u),
        made matches Some(RepoReply::Done(Ok(_))),
        is_cid(repo_root_cid@),
        crate::repo_ops::new_repo(did@, handle@, repo_root_cid@, repo_rev@).fits(),
    ensures
        u == t,
        read matches Some(RepoReply::Repo(Ok(Some(r)))) && r.user_id == user_id && r.repo_root_cid@
            == repo_root_cid@ && (repo_rev@.len() > 0 ==> r.repo_rev.deep_view() == Some(repo_rev@))
            && (repo_rev@.len() == 0 ==> r.repo_rev is None),
{
    created_row_is_read(s, user_id, did@, handle@, repo_root_cid@, repo_rev@, 0);
    let r = read->Some_0->Repo_0->Ok_0->0;
    assert(r.deep_view().user_id == user_id);
    assert(r.repo_rev.deep_view() is None ==> r.repo_rev is None);
}

/// A client who asks for a record that another has asked to be written is given its identifier,
/// and one who asks for a record that another has asked to be deleted is given none.
pub proof fn written_record_is_answered(
    s: MetastoreView,
    t: MetastoreView,
    u: MetastoreView,
    repo_id: Uuid,
    collections: Vec<String>,
    rkeys: Vec<String>,
    record_cids: Vec<CidLink>,
    repo_rev: String,
    i: int,
    made: Option<RepoReply>,
    read: Option<RepoReply>,
)
    requires
        storable(s.repo_data.rows),
        injective(s.user_hashes),
        holds(repo_rev@),
        0 <= i < collections.len(),
        i < rkeys.len(),
        i < record_cids.len(),
        is_cid(record_cids[i]@),
        forall|j: int|
            i < j < collections.len() && j < rkeys.len() ==> (#[trigger] collections[j])@
                != collections[i]@ || rkeys[j]@ != rkeys[i]@,
        made matches Some(RepoReply::Done(Ok(_))),
        record_answer(
            t,
            (RecordRequest::GetRecordCid {
                repo_id,
                collection: collections[i],
                rkey: rkeys[i],
            }),
            read,
            u,
        ),
    ensures
        u == t,
        record_answer(
            s,
            (RecordRequest::UpsertRecords { repo_id, collections, rkeys, record_cids, repo_rev }),
            made,
            t,
        ) ==> (read matches Some(RepoReply::Record(Ok(Some(c)))) && c@ == record_cids[i]@),
        record_answer(s, (RecordRequest::DeleteRecords { repo_id, collections, rkeys }), made, t) ==> (
        read matches Some(RepoReply::Record(Ok(None)))),
{
    let cs = collections.deep_view();
    let ks = rkeys.deep_view();
    let ids = record_cids.deep_view();
    assert(cs[i] == collections[i]@ && ks[i] == rkeys[i]@ && ids[i] == record_cids[i]@);
    assert forall|j: int| i < j < cs.len() && j < ks.len() implies #[trigger] cs[j] != cs[i] || ks[j]
        != ks[i] by {
        assert(cs[j] == collections[j]@ && ks[j] == rkeys[j]@);
    }
    if record_answer(
        s,
        (RecordRequest::UpsertRecords { repo_id, collections, rkeys, record_cids, repo_rev }),
        made,
        t,
    ) {
        written_records_are_read(s, repo_id, cs, ks, ids, repo_rev@, i);
        let c = read->Some_0->Record_0->Ok_0;
        assert(c.deep_view() == Some(ids[i]));
    }
    if record_answer(s, (RecordRequest::DeleteRecords { repo_id, collections, rkeys }), made, t) {
        deleted_records_are_not_read(s, repo_id, cs, ks, i, repo_id, cs[i], ks[i]);
        let c = read->Some_0->Record_0->Ok_0;
        assert(c.deep_view() == Option::<Seq<u8>>::None);
    }
}

/// A client who asks for a grant whose scopes another has asked to be changed is given it with the
/// new scopes, and otherwise as it was.
pub proof fn rescoped_grant_is_answered(
    s: MetastoreView,
    t: MetastoreView,
    delegated_did: Did,
    controller_did: Did,
    new_scopes: DbScope,
    before: DelegationReply,
    changed: DelegationReply,
    read: DelegationReply,
)
    requires
        index_follows_grants(s.indexes.rows),
        storable(s.indexes.rows),
        holds(new_scopes@),
        is_scope(encode_utf8(new_scopes@)),
        delegation_answer(
            s,
            (DelegationRequest::GetDelegation { delegated_did, controller_did }),
            before,
            s,
        ),
        delegation_answer(
            s,
            (DelegationRequest::UpdateDelegationScopes { delegated_did, controller_did, new_scopes }),
            changed,
            t,
        ),
        delegation_answer(
            t,
            (DelegationRequest::GetDelegation { delegated_did, controller_did }),
            read,
            t,
        ),
    ensures
        changed matches DelegationReply::Flag(Ok(found)) && (found <==> (
        before matches DelegationReply::Grant(Ok(Some(g))) && g.revoked_at is None)),
        changed == DelegationReply::Flag(Ok(false)) ==> t == s,
        changed == DelegationReply::Flag(Ok(true)) ==> (read matches DelegationReply::Grant(
            Ok(Some(h)),
        ) && (before matches DelegationReply::Grant(Ok(Some(g))) && h.id == g.id && h.delegated_did@
            == g.delegated_did@ && h.controller_did@ == g.controller_did@ && h.granted_scopes@
            == new_scopes@ && h.granted_at == g.granted_at && h.granted_by@ == g.granted_by@
            && h.revoked_at is None)),
{
    rescoping_finds_grants(s, delegated_did@, controller_did@, new_scopes@);
    let g = before->Grant_0->Ok_0->0;
    let h = read->Grant_0->Ok_0->0;
    assert(g.deep_view().id == g.id && h.deep_view().id == h.id);
    if changed == DelegationReply::Flag(Ok(true)) {
        rescoped_grant_is_read(s, delegated_did@, controller_did@, new_scopes@);
    }
}

/// A client who asks for the controllers of an account is given as many active ones as one who
/// asks for their number, and each of them as active exactly where the grant, asked for alone,
/// was not revoked, with the scopes and the time of that grant.
pub proof fn controllers_are_answered(
    s: MetastoreView,
    delegated_did: Did,
    controller_did: Did,
    listed: DelegationReply,
    counted: DelegationReply,
    read: DelegationReply,
    i: int,
)
    requires
        index_follows_grants(s.indexes.rows),
        s.indexes.rows.dom().finite(),
        delegation_answer(
            s,
            (DelegationRequest::GetDelegationsForAccount { delegated_did }),
            listed,
            s,
        ),
        delegation_answer(
            s,
            (DelegationRequest::CountActiveControllers { delegated_did }),
            counted,
            s,
        ),
        delegation_answer(
            s,
            (DelegationRequest::GetDelegation { delegated_did, controller_did }),
            read,
            s,
        ),
    ensures
        listed matches DelegationReply::Controllers(Ok(list)) && counted == DelegationReply::Number(
            Ok(saturated(active_count(list.deep_view()))),
        ) && (0 <= i < list.len() && list[i].did@ == controller_did@ ==> (
        read matches DelegationReply::Grant(Ok(Some(g))) && list[i].granted_scopes@
            == g.granted_scopes@ && list[i].granted_at == g.granted_at && (list[i].is_active <==> (
        g.revoked_at is None)))),
{
    controllers_have_grants(
        s.indexes.rows,
        s.users.rows,
        s.user_hashes,
        delegated_did@,
        controller_did@,
    );
    let list = listed->Controllers_0->Ok_0;
    let views = list.deep_view();
    if 0 <= i < list.len() && list[i].did@ == controller_did@ {
        assert(views[i] == list[i].deep_view());
        assert(views[i].did == controller_did@);
        let g = read->Grant_0->Ok_0->0;
        assert(g.deep_view().granted_at == g.granted_at);
    }
}

/// A client who asks for the repository after a commit that was accepted is given it at the new
/// root and revision, and one who asks for a record that the commit wrote is given its new
/// identifier; whether the account is active is what its row said.
pub proof fn commit_is_answered(
    s: CommitState,
    t: CommitState,
    input: ApplyCommitInput,
    store_blocks: bool,
    i: int,
    made: CommitReply,
    repo: Option<RepoReply>,
    record: Option<RepoReply>,
)
    requires
        storable(s.store.repo_data.rows),
        holds(input.new_rev@),
        is_cid(input.new_root_cid@),
        commit_answer(s, (CommitRequest::ApplyCommit { input }), store_blocks, made, t),
        made matches CommitReply::Commit(Ok(_)),
        repo_answer(t.store, (RepoRequest::GetRepo { user_id: input.user_id }), repo, t.store),
        0 <= i < input.record_upserts.len(),
        is_cid(input.record_upserts[i].cid@),
        forall|j: int|
            i < j < input.record_upserts.len() ==> (#[trigger] input.record_upserts[j]).collection@
                != input.record_upserts[i].collection@ || input.record_upserts[j].rkey@
                != input.record_upserts[i].rkey@,
        forall|j: int|
            0 <= j < input.record_deletes.len() ==> (#[trigger] input.record_deletes[j]).collection@
                != input.record_upserts[i].collection@ || input.record_deletes[j].rkey@
                != input.record_upserts[i].rkey@,
        record_answer(
            t.store,
            (RecordRequest::GetRecordCid {
                repo_id: input.user_id,
                collection: input.record_upserts[i].collection,
                rkey: input.record_upserts[i].rkey,
            }),
            record,
            t.store,
        ),
    ensures
        repo matches Some(RepoReply::Repo(Ok(Some(r)))) && r.user_id == input.user_id
            && r.repo_root_cid@ == input.new_root_cid@ && (input.new_rev@.len() > 0
            ==> r.repo_rev.deep_view() == Some(input.new_rev@)),
        record matches Some(RepoReply::Record(Ok(Some(c)))) && c@ == input.record_upserts[i].cid@,
        made matches CommitReply::Commit(Ok(a)) && (repo_meta_of(s.store, input.user_id) matches Ok(
            Some((_, m)),
        ) && (a.is_account_active <==> m.status is Active)),
{
    let v = input.deep_view();
    let now = choose|now: i64| #[trigger]
        is_timestamp(now as int) && (crate::commit_ops::outcome_of(made->Commit_0), t)
            == crate::commit_ops::commit_outcome(s, v, now);
    committed_repo_is_read(s, v, now);
    assert(v.record_upserts[i] == input.record_upserts[i].deep_view());
    assert forall|j: int| i < j < v.record_upserts.len() implies (
    #[trigger] v.record_upserts[j]).collection != v.record_upserts[i].collection
        || v.record_upserts[j].rkey != v.record_upserts[i].rkey by {
        assert(v.record_upserts[j] == input.record_upserts[j].deep_view());
    }
    assert forall|j: int| 0 <= j < v.record_deletes.len() implies (
    #[trigger] v.record_deletes[j]).collection != v.record_upserts[i].collection
        || v.record_deletes[j].rkey != v.record_upserts[i].rkey by {
        assert(v.record_deletes[j] == input.record_deletes[j].deep_view());
    }
    committed_record_is_read(s, v, now, i);
    commit_keeps_rest_of_row(s, v, now);
    let r = repo->Some_0->Repo_0->Ok_0->0;
    assert(r.deep_view().user_id == input.user_id);
    let c = record->Some_0->Record_0->Ok_0;
    assert(c.deep_view() == Some(input.record_upserts[i].cid@));
}

proof fn every_row_is_shown(rows: Seq<RowView>, limit: nat)
    requires
        collect(rows, |row: RowView| audit_entry(row), limit) is Ok,
    ensures
        collect(rows, |row: RowView| audit_entry(row), limit)->Ok_0.len() == if limit <= rows.len() {
            limit
        } else {
            rows.len()
        },
    decreases rows.len(),
{
    if limit > 0 && rows.len() > 0 {
        every_row_is_shown(rows.skip(1), (limit - 1) as nat);
    }
}

/// A client who asks how many actions were logged for an account is told as many as are shown
/// page by page: a page holds as many as it may, or those that are left after the skipped ones.
pub proof fn logged_actions_are_counted(
    s: MetastoreView,
    t: MetastoreView,
    u: MetastoreView,
    delegated_did: Did,
    limit: i64,
    offset: i64,
    counted: DelegationReply,
    read: DelegationReply,
)
    requires
        delegation_answer(
            s,
            (DelegationRequest::CountAuditLogEntries { delegated_did }),
            counted,
            t,
        ),
        delegation_answer(
            t,
            (DelegationRequest::GetAuditLogForAccount { delegated_did, limit, offset }),
            read,
            u,
        ),
        0 <= limit <= usize::MAX,
        0 <= offset <= usize::MAX,
    ensures
        u == s,
        counted matches DelegationReply::Number(Ok(n)) && n >= 0 && (n < i64::MAX ==> (
        read matches DelegationReply::AuditLog(Ok(page)) ==> page@.len() == if offset >= n {
            0
        } else if limit <= n - offset {
            limit as int
        } else {
            n - offset
        })),
{
    let rows = audit_rows(s.indexes.rows, delegated_did@);
    if let DelegationReply::AuditLog(Ok(page)) = read {
        every_row_is_shown(skipped(rows, count_limit(offset)), count_limit(limit));
        assert(page.deep_view().len() == page@.len());
    }
}

} // verus!
