//! What clients are told when a request's changes could not be kept.

use vstd::prelude::*;

use crate::commit_ops::Refusal;
use crate::dispatch::{CommitReply, DelegationReply, EventReply, Reply, RepoReply};
use crate::dispatch_infra::InfraReply;
use crate::errors::DbErrorView;
use crate::invite_ops::InviteErrorView;
use crate::replies::{commit_failed, delegation_failed, event_failed, failed, infra_failed, repo_failed};

verus! {

/// A failed request about grants is answered as it would have been, but with the failure.
pub proof fn failed_grant_request_is_told(before: DelegationReply, after: DelegationReply, text: Seq<char>)
    requires
        delegation_failed(before, after, text),
    ensures
        before is Id ==> (after matches DelegationReply::Id(Err(e)) && e@ == DbErrorView::Query(text)),
        before is Flag ==> (after matches DelegationReply::Flag(Err(e)) && e@ == DbErrorView::Query(text)),
        before is Number ==> (after matches DelegationReply::Number(Err(e)) && e@ == DbErrorView::Query(text)),
        before is Grant ==> (after matches DelegationReply::Grant(Err(e)) && e@ == DbErrorView::Query(text)),
        before is Controllers ==> (after matches DelegationReply::Controllers(Err(e)) && e@ == DbErrorView::Query(text)),
        before is Accounts ==> (after matches DelegationReply::Accounts(Err(e)) && e@ == DbErrorView::Query(text)),
        before is AuditLog ==> (after matches DelegationReply::AuditLog(Err(e)) && e@ == DbErrorView::Query(text)),
{
}

/// A failed request about events is answered as it would have been, but with the failure.
pub proof fn failed_event_request_is_told(before: EventReply, after: EventReply, text: Seq<char>)
    requires
        event_failed(before, after, text),
    ensures
        before is Done ==> (after matches EventReply::Done(Err(e)) && e@ == DbErrorView::Query(text)),
        before is Number ==> (after matches EventReply::Number(Err(e)) && e@ == DbErrorView::Query(text)),
        before is MaybeNumber ==> (after matches EventReply::MaybeNumber(Err(e)) && e@ == DbErrorView::Query(text)),
        before is Event ==> (after matches EventReply::Event(Err(e)) && e@ == DbErrorView::Query(text)),
        before is Events ==> (after matches EventReply::Events(Err(e)) && e@ == DbErrorView::Query(text)),
{
}

/// A failed request about commits is answered as it would have been, but with the failure.
pub proof fn failed_commit_is_told(before: CommitReply, after: CommitReply, text: Seq<char>)
    requires
        commit_failed(before, after, text),
    ensures
        before is Done ==> (after matches CommitReply::Done(Err(e)) && e@ == DbErrorView::Query(text)),
        before is Commit ==> (after matches CommitReply::Commit(Err(e)) && e@ == Refusal::Database(text)),
        before is Import ==> (after matches CommitReply::Import(Err(e)) && e@ == Refusal::Database(text)),
        before is WithoutBlocks ==> (after matches CommitReply::WithoutBlocks(Err(e)) && e@ == DbErrorView::Query(text)),
        before is NeedingBackfill ==> (after matches CommitReply::NeedingBackfill(Err(e)) && e@ == DbErrorView::Query(text)),
{
}

/// A failed request about the service's own data is answered as it would have been, but with the
/// failure; no second factor is announced then.
pub proof fn failed_infra_request_is_told(before: InfraReply, after: InfraReply, text: Seq<char>)
    requires
        infra_failed(before, after, text),
    ensures
        before is Id ==> (after matches InfraReply::Id(Err(e)) && e@ == DbErrorView::Query(text)),
        before is Done ==> (after matches InfraReply::Done(Err(e)) && e@ == DbErrorView::Query(text)),
        before is Flag ==> (after matches InfraReply::Flag(Err(e)) && e@ == DbErrorView::Query(text)),
        before is Number ==> (after matches InfraReply::Number(Err(e)) && e@ == DbErrorView::Query(text)),
        before is Count ==> (after matches InfraReply::Count(Err(e)) && e@ == DbErrorView::Query(text)),
        before is Uses ==> (after matches InfraReply::Uses(Err(e)) && e@ == DbErrorView::Query(text)),
        before is Text ==> (after matches InfraReply::Text(Err(e)) && e@ == DbErrorView::Query(text)),
        before is Time ==> (after matches InfraReply::Time(Err(e)) && e@ == DbErrorView::Query(text)),
        before is Messages ==> (after matches InfraReply::Messages(Err(e)) && e@ == DbErrorView::Query(text)),
        before is History ==> (after matches InfraReply::History(Err(e)) && e@ == DbErrorView::Query(text)),
        before is Validated ==> (after matches InfraReply::Validated(Err(e)) && e@
            == InviteErrorView::DatabaseError(DbErrorView::Query("fjall: "@ + text))),
        before is Invite ==> (after matches InfraReply::Invite(Err(e)) && e@ == DbErrorView::Query(text)),
        before is Invites ==> (after matches InfraReply::Invites(Err(e)) && e@ == DbErrorView::Query(text)),
        before is UserInvites ==> (after matches InfraReply::UserInvites(Err(e)) && e@ == DbErrorView::Query(text)),
        before is InviteUses ==> (after matches InfraReply::InviteUses(Err(e)) && e@ == DbErrorView::Query(text)),
        before is InviteList ==> (after matches InfraReply::InviteList(Err(e)) && e@ == DbErrorView::Query(text)),
        before is UserDids ==> (after matches InfraReply::UserDids(Err(e)) && e@ == DbErrorView::Query(text)),
        before is UserCodes ==> (after matches InfraReply::UserCodes(Err(e)) && e@ == DbErrorView::Query(text)),
        before is SigningKey ==> (after matches InfraReply::SigningKey(Err(e)) && e@ == DbErrorView::Query(text)),
        before is SigningKeyFull ==> (after matches InfraReply::SigningKeyFull(Err(e)) && e@ == DbErrorView::Query(text)),
        before is Deletion ==> (after matches InfraReply::Deletion(Err(e)) && e@ == DbErrorView::Query(text)),
        before is DeletionWithToken ==> (after matches InfraReply::DeletionWithToken(Err(e)) && e@ == DbErrorView::Query(text)),
        before is Preferences ==> (after matches InfraReply::Preferences(Err(e)) && e@ == DbErrorView::Query(text)),
        before is Settings ==> (after matches InfraReply::Settings(Err(e)) && e@ == DbErrorView::Query(text)),
        before is AdminAccount ==> (after matches InfraReply::AdminAccount(Err(e)) && e@ == DbErrorView::Query(text)),
        before is AdminAccounts ==> (after matches InfraReply::AdminAccounts(Err(e)) && e@ == DbErrorView::Query(text)),
        before is PlcTokens ==> (after matches InfraReply::PlcTokens(Err(e)) && e@ == DbErrorView::Query(text)),
        before is Preference ==> (after matches InfraReply::Preference { result: Err(e), email_factor: None } && e@ == DbErrorView::Query(text)),
{
}

/// A failed request about repositories is answered as it would have been, but with the failure.
pub proof fn failed_repo_request_is_told(before: RepoReply, after: RepoReply, text: Seq<char>)
    requires
        repo_failed(before, after, text),
    ensures
        before is Done ==> (after matches RepoReply::Done(Err(e)) && e@ == DbErrorView::Query(text)),
        before is Repo ==> (after matches RepoReply::Repo(Err(e)) && e@ == DbErrorView::Query(text)),
        before is Record ==> (after matches RepoReply::Record(Err(e)) && e@ == DbErrorView::Query(text)),
        before is Blobs ==> (after matches RepoReply::Blobs(Err(e)) && e@ == DbErrorView::Query(text)),
        before is Flag ==> (after matches RepoReply::Flag(Err(e)) && e@ == DbErrorView::Query(text)),
{
}

/// A failed request is answered in the kind of answer that it would have had.
pub proof fn failure_keeps_kind(before: Reply, after: Reply, text: Seq<char>)
    requires
        failed(before, after, text),
    ensures
        match (before, after) {
            (Reply::Delegation(b), Reply::Delegation(a)) => delegation_failed(b, a, text),
            (Reply::Event(b), Reply::Event(a)) => event_failed(b, a, text),
            (Reply::Commit(b), Reply::Commit(a)) => commit_failed(b, a, text),
            (Reply::Infra(b), Reply::Infra(a)) => infra_failed(b, a, text),
            (Reply::Repo(b), Reply::Repo(a)) => repo_failed(b, a, text),
            (Reply::Elsewhere, Reply::Elsewhere) => true,
            _ => false,
        },
{
}

} // verus!
