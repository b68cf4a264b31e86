//! What a client is told when a change could not be stored, or an answer was lost.

use vstd::prelude::*;
use vstd::string::*;

use crate::account_steps::{CreateAccountError, CreateErrorView};
use crate::commit_ops::{ApplyCommitError, ImportRepoError, Refusal};
use crate::dispatch::{CommitReply, DelegationReply, EventReply, Reply, RepoReply};
use crate::dispatch_infra::InfraReply;
use crate::errors::{DbError, DbErrorView};
use crate::invite_ops::{InviteCodeError, InviteErrorView};
use crate::pool::{lost_reply_error, reply_lost};
use crate::text::joined;

verus! {

/// An answer that says that the database failed.
pub open spec fn failed_with<T>(r: Result<T, DbError>, text: Seq<char>) -> bool {
    r is Err && r->Err_0@ == DbErrorView::Query(text)
}

/// Whether an answer to a request about delegations is of the kind of another one and says that the
/// database failed.
pub open spec fn delegation_failed(before: DelegationReply, after: DelegationReply, text: Seq<char>) -> bool {
    match before {
        DelegationReply::Id(_) => after matches DelegationReply::Id(r) && failed_with(r, text),
        DelegationReply::Flag(_) => after matches DelegationReply::Flag(r) && failed_with(r, text),
        DelegationReply::Number(_) => after matches DelegationReply::Number(r) && failed_with(r, text),
        DelegationReply::Grant(_) => after matches DelegationReply::Grant(r) && failed_with(r, text),
        DelegationReply::Controllers(_) => after matches DelegationReply::Controllers(r) && failed_with(r, text),
        DelegationReply::Accounts(_) => after matches DelegationReply::Accounts(r) && failed_with(r, text),
        DelegationReply::AuditLog(_) => after matches DelegationReply::AuditLog(r) && failed_with(r, text),
    }
}

fn fail_delegation(before: DelegationReply, text: &str) -> (after: DelegationReply)
    ensures
        delegation_failed(before, after, text@),
{
    match before {
        DelegationReply::Id(_) => DelegationReply::Id(Err(DbError::Query(text.to_owned()))),
        DelegationReply::Flag(_) => DelegationReply::Flag(Err(DbError::Query(text.to_owned()))),
        DelegationReply::Number(_) => DelegationReply::Number(Err(DbError::Query(text.to_owned()))),
        DelegationReply::Grant(_) => DelegationReply::Grant(Err(DbError::Query(text.to_owned()))),
        DelegationReply::Controllers(_) => DelegationReply::Controllers(Err(DbError::Query(text.to_owned()))),
        DelegationReply::Accounts(_) => DelegationReply::Accounts(Err(DbError::Query(text.to_owned()))),
        DelegationReply::AuditLog(_) => DelegationReply::AuditLog(Err(DbError::Query(text.to_owned()))),
    }
}

/// Whether an answer to a request about the event log is of the kind of another one and says that the
/// database failed.
pub open spec fn event_failed(before: EventReply, after: EventReply, text: Seq<char>) -> bool {
    match before {
        EventReply::Done(_) => after matches EventReply::Done(r) && failed_with(r, text),
        EventReply::Number(_) => after matches EventReply::Number(r) && failed_with(r, text),
        EventReply::MaybeNumber(_) => after matches EventReply::MaybeNumber(r) && failed_with(r, text),
        EventReply::Event(_) => after matches EventReply::Event(r) && failed_with(r, text),
        EventReply::Events(_) => after matches EventReply::Events(r) && failed_with(r, text),
    }
}

fn fail_event(before: EventReply, text: &str) -> (after: EventReply)
    ensures
        event_failed(before, after, text@),
{
    match before {
        EventReply::Done(_) => EventReply::Done(Err(DbError::Query(text.to_owned()))),
        EventReply::Number(_) => EventReply::Number(Err(DbError::Query(text.to_owned()))),
        EventReply::MaybeNumber(_) => EventReply::MaybeNumber(Err(DbError::Query(text.to_owned()))),
        EventReply::Event(_) => EventReply::Event(Err(DbError::Query(text.to_owned()))),
        EventReply::Events(_) => EventReply::Events(Err(DbError::Query(text.to_owned()))),
    }
}

/// Whether an answer to a request about commits is of the kind of another one and says that the
/// database failed.
pub open spec fn commit_failed(before: CommitReply, after: CommitReply, text: Seq<char>) -> bool {
    match before {
        CommitReply::Done(_) => after matches CommitReply::Done(r) && failed_with(r, text),
        CommitReply::Commit(_) => after matches CommitReply::Commit(r) && r is Err && r->Err_0@
            == Refusal::Database(text),
        CommitReply::Import(_) => after matches CommitReply::Import(r) && r is Err && r->Err_0@
            == Refusal::Database(text),
        CommitReply::WithoutBlocks(_) => after matches CommitReply::WithoutBlocks(r) && failed_with(r, text),
        CommitReply::NeedingBackfill(_) => after matches CommitReply::NeedingBackfill(r) && failed_with(r, text),
    }
}

fn fail_commit(before: CommitReply, text: &str) -> (after: CommitReply)
    ensures
        commit_failed(before, after, text@),
{
    match before {
        CommitReply::Done(_) => CommitReply::Done(Err(DbError::Query(text.to_owned()))),
        CommitReply::Commit(_) => CommitReply::Commit(Err(ApplyCommitError::Database(text.to_owned()))),
        CommitReply::Import(_) => CommitReply::Import(Err(ImportRepoError::Database(text.to_owned()))),
        CommitReply::WithoutBlocks(_) => CommitReply::WithoutBlocks(Err(DbError::Query(text.to_owned()))),
        CommitReply::NeedingBackfill(_) => CommitReply::NeedingBackfill(Err(DbError::Query(text.to_owned()))),
    }
}

/// Whether an answer to a request about account infrastructure is of the kind of another one and says that the
/// database failed.
pub open spec fn infra_failed(before: InfraReply, after: InfraReply, text: Seq<char>) -> bool {
    match before {
        InfraReply::Id(_) => after matches InfraReply::Id(r) && failed_with(r, text),
        InfraReply::Done(_) => after matches InfraReply::Done(r) && failed_with(r, text),
        InfraReply::Flag(_) => after matches InfraReply::Flag(r) && failed_with(r, text),
        InfraReply::Number(_) => after matches InfraReply::Number(r) && failed_with(r, text),
        InfraReply::Count(_) => after matches InfraReply::Count(r) && failed_with(r, text),
        InfraReply::Uses(_) => after matches InfraReply::Uses(r) && failed_with(r, text),
        InfraReply::Text(_) => after matches InfraReply::Text(r) && failed_with(r, text),
        InfraReply::Time(_) => after matches InfraReply::Time(r) && failed_with(r, text),
        InfraReply::Messages(_) => after matches InfraReply::Messages(r) && failed_with(r, text),
        InfraReply::History(_) => after matches InfraReply::History(r) && failed_with(r, text),
        InfraReply::Validated(_) => after matches InfraReply::Validated(r) && r is Err && r->Err_0@
            == InviteErrorView::DatabaseError(DbErrorView::Query("fjall: "@ + text)),
        InfraReply::Invite(_) => after matches InfraReply::Invite(r) && failed_with(r, text),
        InfraReply::Invites(_) => after matches InfraReply::Invites(r) && failed_with(r, text),
        InfraReply::UserInvites(_) => after matches InfraReply::UserInvites(r) && failed_with(r, text),
        InfraReply::InviteUses(_) => after matches InfraReply::InviteUses(r) && failed_with(r, text),
        InfraReply::InviteList(_) => after matches InfraReply::InviteList(r) && failed_with(r, text),
        InfraReply::UserDids(_) => after matches InfraReply::UserDids(r) && failed_with(r, text),
        InfraReply::UserCodes(_) => after matches InfraReply::UserCodes(r) && failed_with(r, text),
        InfraReply::SigningKey(_) => after matches InfraReply::SigningKey(r) && failed_with(r, text),
        InfraReply::SigningKeyFull(_) => after matches InfraReply::SigningKeyFull(r) && failed_with(r, text),
        InfraReply::Deletion(_) => after matches InfraReply::Deletion(r) && failed_with(r, text),
        InfraReply::DeletionWithToken(_) => after matches InfraReply::DeletionWithToken(r) && failed_with(r, text),
        InfraReply::Preferences(_) => after matches InfraReply::Preferences(r) && failed_with(r, text),
        InfraReply::Settings(_) => after matches InfraReply::Settings(r) && failed_with(r, text),
        InfraReply::AdminAccount(_) => after matches InfraReply::AdminAccount(r) && failed_with(r, text),
        InfraReply::AdminAccounts(_) => after matches InfraReply::AdminAccounts(r) && failed_with(r, text),
        InfraReply::PlcTokens(_) => after matches InfraReply::PlcTokens(r) && failed_with(r, text),
        InfraReply::Preference { .. } => after matches InfraReply::Preference { result, email_factor }
            && failed_with(result, text) && email_factor is None,
    }
}

fn fail_infra(before: InfraReply, text: &str) -> (after: InfraReply)
    ensures
        infra_failed(before, after, text@),
{
    match before {
        InfraReply::Id(_) => InfraReply::Id(Err(DbError::Query(text.to_owned()))),
        InfraReply::Done(_) => InfraReply::Done(Err(DbError::Query(text.to_owned()))),
        InfraReply::Flag(_) => InfraReply::Flag(Err(DbError::Query(text.to_owned()))),
        InfraReply::Number(_) => InfraReply::Number(Err(DbError::Query(text.to_owned()))),
        InfraReply::Count(_) => InfraReply::Count(Err(DbError::Query(text.to_owned()))),
        InfraReply::Uses(_) => InfraReply::Uses(Err(DbError::Query(text.to_owned()))),
        InfraReply::Text(_) => InfraReply::Text(Err(DbError::Query(text.to_owned()))),
        InfraReply::Time(_) => InfraReply::Time(Err(DbError::Query(text.to_owned()))),
        InfraReply::Messages(_) => InfraReply::Messages(Err(DbError::Query(text.to_owned()))),
        InfraReply::History(_) => InfraReply::History(Err(DbError::Query(text.to_owned()))),
        InfraReply::Validated(_) => InfraReply::Validated(
            Err(InviteCodeError::DatabaseError(DbError::Query(joined("fjall: ", text)))),
        ),
        InfraReply::Invite(_) => InfraReply::Invite(Err(DbError::Query(text.to_owned()))),
        InfraReply::Invites(_) => InfraReply::Invites(Err(DbError::Query(text.to_owned()))),
        InfraReply::UserInvites(_) => InfraReply::UserInvites(Err(DbError::Query(text.to_owned()))),
        InfraReply::InviteUses(_) => InfraReply::InviteUses(Err(DbError::Query(text.to_owned()))),
        InfraReply::InviteList(_) => InfraReply::InviteList(Err(DbError::Query(text.to_owned()))),
        InfraReply::UserDids(_) => InfraReply::UserDids(Err(DbError::Query(text.to_owned()))),
        InfraReply::UserCodes(_) => InfraReply::UserCodes(Err(DbError::Query(text.to_owned()))),
        InfraReply::SigningKey(_) => InfraReply::SigningKey(Err(DbError::Query(text.to_owned()))),
        InfraReply::SigningKeyFull(_) => InfraReply::SigningKeyFull(Err(DbError::Query(text.to_owned()))),
        InfraReply::Deletion(_) => InfraReply::Deletion(Err(DbError::Query(text.to_owned()))),
        InfraReply::DeletionWithToken(_) => InfraReply::DeletionWithToken(Err(DbError::Query(text.to_owned()))),
        InfraReply::Preferences(_) => InfraReply::Preferences(Err(DbError::Query(text.to_owned()))),
        InfraReply::Settings(_) => InfraReply::Settings(Err(DbError::Query(text.to_owned()))),
        InfraReply::AdminAccount(_) => InfraReply::AdminAccount(Err(DbError::Query(text.to_owned()))),
        InfraReply::AdminAccounts(_) => InfraReply::AdminAccounts(Err(DbError::Query(text.to_owned()))),
        InfraReply::PlcTokens(_) => InfraReply::PlcTokens(Err(DbError::Query(text.to_owned()))),
        InfraReply::Preference { .. } => InfraReply::Preference {
            result: Err(DbError::Query(text.to_owned())),
            email_factor: None,
        },
    }
}

/// Whether an answer to a request about repositories is of the kind of another one and says that the
/// database failed.
pub open spec fn repo_failed(before: RepoReply, after: RepoReply, text: Seq<char>) -> bool {
    match before {
        RepoReply::Done(_) => after matches RepoReply::Done(r) && failed_with(r, text),
        RepoReply::Repo(_) => after matches RepoReply::Repo(r) && failed_with(r, text),
        RepoReply::Record(_) => after matches RepoReply::Record(r) && failed_with(r, text),
        RepoReply::Blobs(_) => after matches RepoReply::Blobs(r) && failed_with(r, text),
        RepoReply::Flag(_) => after matches RepoReply::Flag(r) && failed_with(r, text),
    }
}

fn fail_repo(before: RepoReply, text: &str) -> (after: RepoReply)
    ensures
        repo_failed(before, after, text@),
{
    match before {
        RepoReply::Done(_) => RepoReply::Done(Err(DbError::Query(text.to_owned()))),
        RepoReply::Repo(_) => RepoReply::Repo(Err(DbError::Query(text.to_owned()))),
        RepoReply::Record(_) => RepoReply::Record(Err(DbError::Query(text.to_owned()))),
        RepoReply::Blobs(_) => RepoReply::Blobs(Err(DbError::Query(text.to_owned()))),
        RepoReply::Flag(_) => RepoReply::Flag(Err(DbError::Query(text.to_owned()))),
    }
}

/// Whether an answer is of the kind of another one and says that the
/// database failed.
pub open spec fn failed(before: Reply, after: Reply, text: Seq<char>) -> bool {
    match before {
        Reply::Delegation(b) => after matches Reply::Delegation(a) && delegation_failed(b, a, text),
        Reply::Event(b) => after matches Reply::Event(a) && event_failed(b, a, text),
        Reply::Commit(b) => after matches Reply::Commit(a) && commit_failed(b, a, text),
        Reply::Infra(b) => after matches Reply::Infra(a) && infra_failed(b, a, text),
        Reply::Repo(b) => after matches Reply::Repo(a) && repo_failed(b, a, text),
        Reply::Elsewhere => after is Elsewhere,
    }
}

/// Turns an answer into one that says that the database failed, in the words of the
/// database.
pub fn fail(before: Reply, text: &str) -> (after: Reply)
    ensures
        failed(before, after, text@),
{
    match before {
        Reply::Delegation(b) => Reply::Delegation(fail_delegation(b, text)),
        Reply::Event(b) => Reply::Event(fail_event(b, text)),
        Reply::Commit(b) => Reply::Commit(fail_commit(b, text)),
        Reply::Infra(b) => Reply::Infra(fail_infra(b, text)),
        Reply::Repo(b) => Reply::Repo(fail_repo(b, text)),
        Reply::Elsewhere => Reply::Elsewhere,
    }
}

fn lost_text() -> (r: String)
    ensures
        r@ == "metastore handler thread closed"@,
{
    "metastore handler thread closed".to_owned()
}

/// What the sender of a commit is told when no answer comes.
pub fn lost_commit() -> (r: ApplyCommitError)
    ensures
        r@ == Refusal::Database("metastore handler thread closed"@),
{
    ApplyCommitError::Database(lost_text())
}

/// What the sender of an import is told when no answer comes.
pub fn lost_import() -> (r: ImportRepoError)
    ensures
        r@ == Refusal::Database("metastore handler thread closed"@),
{
    ImportRepoError::Database(lost_text())
}

/// What the sender of an invite code is told when no answer comes.
pub fn lost_invite() -> (r: InviteCodeError)
    ensures
        r@ == InviteErrorView::DatabaseError(reply_lost()),
{
    InviteCodeError::DatabaseError(lost_reply_error())
}

/// What the maker of an account is told when no answer comes.
pub fn lost_account() -> (r: CreateAccountError)
    ensures
        r@ == CreateErrorView::Database("metastore handler thread closed"@),
{
    CreateAccountError::Database(lost_text())
}

} // verus!
