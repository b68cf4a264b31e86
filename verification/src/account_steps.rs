//! Requests that take more than one step.

use vstd::prelude::*;
use vstd::string::*;
use vstd::utf8::encode_utf8;

use crate::account_ops::{key_used, plc_rows, plc_token, small_count, PlcToken, PlcTokenInfo};
use crate::bytes::same_bytes;
use crate::clock::is_timestamp;
use crate::codec::same_text;
use crate::delegation_ops::{grant_writes, indexed, new_grant, DelegationOps};
use crate::errors::{db_error, db_result, db_viewed, metastore_to_db, to_db, DbError, DbErrorView};
use crate::errors::MetastoreError;
use crate::event_ops::{account_event, recorded, EventOps};
use crate::events::AccountStatus;
use crate::infra_ops::InfraOps;
use crate::invite_ops::{invite_refusal, use_taken};
use crate::json::{compact_json, json_text};
use crate::metastore::MetastoreView;
use crate::scan::collect_all;
use crate::store::{RowView, Rows};
use crate::text::joined;
use crate::types::{is_scope, DbScope, Did, Uuid};

verus! {

/// Why an account could not be made.
#[derive(Debug, PartialEq, Eq)]
pub enum CreateAccountError {
    Database(String),
    InvalidToken,
}

pub enum CreateErrorView {
    Database(Seq<char>),
    InvalidToken,
}

impl View for CreateAccountError {
    type V = CreateErrorView;

    open spec fn view(&self) -> CreateErrorView {
        match self {
            CreateAccountError::Database(m) => CreateErrorView::Database(m@),
            CreateAccountError::InvalidToken => CreateErrorView::InvalidToken,
        }
    }
}

/// An outcome by what the error says.
pub open spec fn create_outcome(r: Result<(), CreateAccountError>) -> Result<(), CreateErrorView> {
    match r {
        Ok(_) => Ok(()),
        Err(e) => Err(e@),
    }
}

/// Takes a use of a code if it can be used.
pub open spec fn consumed(s: MetastoreView, code: Seq<char>) -> (bool, MetastoreView) {
    match invite_refusal(s.infra.rows, code) {
        Some(_) => (false, s),
        None => (true, use_taken(s, code).1),
    }
}

/// The tokens of a user, if there is one.
pub open spec fn tokens_of(infra: Rows, user: Result<Option<Uuid>, MetastoreError>) -> Result<
    Seq<PlcToken>,
    MetastoreError,
> {
    match user {
        Err(e) => Err(e),
        Ok(None) => Ok(Seq::empty()),
        Ok(Some(id)) => collect_all(plc_rows(infra, id), |row: RowView| plc_token(row)),
    }
}

/// How many tokens a user has, if there is one.
pub open spec fn token_count_of(infra: Rows, user: Result<Option<Uuid>, MetastoreError>) -> Result<
    i64,
    MetastoreError,
> {
    match user {
        Err(e) => Err(e),
        Ok(None) => Ok(0),
        Ok(Some(id)) => Ok(small_count(plc_rows(infra, id).len())),
    }
}

/// What storing a preference says of the second factor by e-mail: the preference of that
/// name switches it, on by the value `true` and off by any other.
pub open spec fn email_factor(name: Seq<char>, value: Seq<u8>) -> Option<bool> {
    if name == "email_auth_factor"@ {
        Some(compact_json(value) == Some(encode_utf8("true"@)))
    } else {
        None
    }
}

/// Reads what storing a preference says of the second factor by e-mail.
pub fn email_factor_change(name: &str, value_json: &[u8]) -> (r: Option<bool>)
    ensures
        r == email_factor(name@, value_json@),
{
    if !same_text(name, "email_auth_factor") {
        return None;
    }
    let ghost on = encode_utf8("true"@);
    match json_text(value_json) {
        None => Some(false),
        Some(t) => {
            assert(t.deep_view() =~= t@);
            Some(same_bytes(t.as_slice(), "true".as_bytes()))
        },
    }
}

/// Whether a registration by an external identity goes on, by what became of its token.
pub open spec fn registration(consumed: Result<bool, MetastoreError>) -> Result<(), CreateErrorView> {
    match consumed {
        Err(e) => Err(CreateErrorView::Database(e.text())),
        Ok(true) => Ok(()),
        Ok(false) => Err(CreateErrorView::InvalidToken),
    }
}

/// Lets a registration by an external identity go on if its token was there to be consumed.
pub fn admit_registration(consumed: Result<bool, MetastoreError>) -> (r: Result<
    (),
    CreateAccountError,
>)
    ensures
        create_outcome(r) == registration(consumed),
{
    match consumed {
        Err(e) => Err(CreateAccountError::Database(e.message())),
        Ok(true) => Ok(()),
        Ok(false) => Err(CreateAccountError::InvalidToken),
    }
}

/// The use of a reserved key recorded for a new account.
pub open spec fn key_claimed(s: MetastoreView, id: Uuid, now: i64) -> (
    Result<(), CreateErrorView>,
    MetastoreView,
) {
    match key_used(s, id, now) {
        (Ok(_), t) => (Ok(()), t),
        (Err(e), t) => (Err(CreateErrorView::Database(e.text())), t),
    }
}

/// The store once a controller has the grant on a new account.
pub open spec fn controller_granted(
    s: MetastoreView,
    did: Seq<char>,
    controller: Seq<char>,
    scopes: Seq<char>,
    t: MetastoreView,
) -> bool {
    exists|id: Uuid, now: i64|
        id.is_random() && #[trigger] is_timestamp(now as int) && t == indexed(
            s,
            #[trigger] grant_writes(new_grant(did, controller, scopes, controller, id, now)),
        )
}

pub open spec fn invalid_scope(scopes: Seq<char>) -> CreateErrorView {
    CreateErrorView::Database("invalid delegation scope: "@ + scopes)
}

impl<'a> InfraOps<'a> {
    /// Takes a use of a code if it can be used, and says whether it could.
    pub fn check_and_consume_invite_code(&mut self, code: &str) -> (r: Result<bool, DbError>)
        ensures
            r is Ok,
            (r->Ok_0, final(self)@) == consumed(old(self)@, code@),
            *final(final(self).store) == *final(old(self).store),
    {
        match self.validate_invite_code(code) {
            Err(_) => Ok(false),
            Ok(validated) => match self.decrement_invite_code_uses(&validated) {
                Ok(()) => Ok(true),
                Err(e) => Err(metastore_to_db(e)),
            },
        }
    }

    /// The tokens of the user that a lookup found.
    pub fn get_plc_tokens_of(&self, user: Result<Option<Uuid>, MetastoreError>) -> (r: Result<
        Vec<PlcTokenInfo>,
        DbError,
    >)
        ensures
            db_viewed(r) == db_result(tokens_of(self@.infra.rows, user)),
    {
        match user {
            Err(e) => Err(metastore_to_db(e)),
            Ok(None) => {
                let none: Vec<PlcTokenInfo> = Vec::new();
                assert(none.deep_view() =~= Seq::empty());
                Ok(none)
            },
            Ok(Some(id)) => to_db(self.get_plc_tokens_for_user(id)),
        }
    }

    /// How many tokens the user has that a lookup found.
    pub fn count_plc_tokens_of(&self, user: Result<Option<Uuid>, MetastoreError>) -> (r: Result<
        i64,
        DbError,
    >)
        ensures
            db_viewed(r) == db_result(token_count_of(self@.infra.rows, user)),
    {
        match user {
            Err(e) => Err(metastore_to_db(e)),
            Ok(None) => Ok(0),
            Ok(Some(id)) => to_db(self.count_plc_tokens_for_user(id)),
        }
    }

    /// Records the use of the key that was reserved for a new account, if one was.
    pub fn claim_reserved_key(&mut self, key_id: Option<Uuid>) -> (r: Result<
        (),
        CreateAccountError,
    >)
        ensures
            match key_id {
                None => r is Ok && final(self)@ == old(self)@,
                Some(id) => exists|now: i64| #[trigger]
                    is_timestamp(now as int) && (create_outcome(r), final(self)@) == key_claimed(
                        old(self)@,
                        id,
                        now,
                    ),
            },
            *final(final(self).store) == *final(old(self).store),
    {
        match key_id {
            None => Ok(()),
            Some(id) => match self.mark_signing_key_used(id) {
                Ok(()) => Ok(()),
                Err(e) => Err(CreateAccountError::Database(e.message())),
            },
        }
    }

    /// Records the use of the key that was reserved for an account, once the account was
    /// made. Where it was not, the key stays unused.
    pub fn finish_account(
        &mut self,
        created: Result<(), CreateAccountError>,
        key_id: Option<Uuid>,
    ) -> (r: Result<(), CreateAccountError>)
        ensures
            match (created, key_id) {
                (Err(e), _) => create_outcome(r) == Err::<(), CreateErrorView>(e@) && final(self)@
                    == old(self)@,
                (Ok(_), None) => r is Ok && final(self)@ == old(self)@,
                (Ok(_), Some(id)) => exists|now: i64| #[trigger]
                    is_timestamp(now as int) && (create_outcome(r), final(self)@) == key_claimed(
                        old(self)@,
                        id,
                        now,
                    ),
            },
            *final(final(self).store) == *final(old(self).store),
    {
        match created {
            Err(e) => Err(e),
            Ok(()) => self.claim_reserved_key(key_id),
        }
    }
}

impl<'a> DelegationOps<'a> {
    /// Gives the controller of a new account the grant on it that the controller asked for.
    pub fn grant_controller(&mut self, did: &Did, controller_did: &Did, controller_scopes: &str) -> (r:
        Result<(), CreateAccountError>)
        ensures
            if is_scope(encode_utf8(controller_scopes@)) {
                r is Ok && controller_granted(
                    old(self)@,
                    did@,
                    controller_did@,
                    controller_scopes@,
                    final(self)@,
                )
            } else {
                create_outcome(r) == Err::<(), CreateErrorView>(invalid_scope(controller_scopes@))
                    && final(self)@ == old(self)@
            },
            *final(final(self).store) == *final(old(self).store),
    {
        match DbScope::new(controller_scopes) {
            None => Err(
                CreateAccountError::Database(
                    joined("invalid delegation scope: ", controller_scopes),
                ),
            ),
            Some(scope) => match self.create_delegation(did, controller_did, &scope, controller_did) {
                Ok(_) => Ok(()),
                Err(e) => Err(
                    CreateAccountError::Database(
                        joined("delegation grant creation failed: ", e.message().as_str()),
                    ),
                ),
            },
        }
    }

    /// Gives the controller of an account the grant on it, once the account was made. Where
    /// it was not, there is no grant.
    pub fn finish_delegated_account(
        &mut self,
        created: Result<(), CreateAccountError>,
        did: &Did,
        controller_did: &Did,
        controller_scopes: &str,
    ) -> (r: Result<(), CreateAccountError>)
        ensures
            match created {
                Err(e) => create_outcome(r) == Err::<(), CreateErrorView>(e@) && final(self)@ == old(
                    self,
                )@,
                Ok(_) => if is_scope(encode_utf8(controller_scopes@)) {
                    r is Ok && controller_granted(
                        old(self)@,
                        did@,
                        controller_did@,
                        controller_scopes@,
                        final(self)@,
                    )
                } else {
                    create_outcome(r) == Err::<(), CreateErrorView>(
                        invalid_scope(controller_scopes@),
                    ) && final(self)@ == old(self)@
                },
            },
            *final(final(self).store) == *final(old(self).store),
    {
        match created {
            Err(e) => Err(e),
            Ok(()) => self.grant_controller(did, controller_did, controller_scopes),
        }
    }
}

impl<'a> EventOps<'a> {
    /// Announces that an account is gone, once its removal succeeded.
    pub fn announce_deletion(&mut self, removed: Result<(), MetastoreError>, did: &Did) -> (r: Result<
        (),
        DbError,
    >)
        ensures
            match removed {
                Err(e) => db_viewed(r) == Err::<(), DbErrorView>(db_error(e)) && final(self)@
                    == old(self)@,
                Ok(_) => exists|now: i64| #[trigger]
                    is_timestamp(now as int) && (match recorded(
                        old(self)@,
                        account_event(did@, AccountStatus::Deleted, now),
                        did@,
                        None,
                    ) {
                        (Ok(_), t) => r is Ok && final(self)@ == t,
                        (Err(e), t) => r is Err && r->Err_0@ == e && final(self)@ == t,
                    }),
            },
            r is Ok ==> ({
                let e = final(self)@.log.last().event;
                &&& e.did == did@
                &&& e.event_type is Account
                &&& e.status == Some(AccountStatus::Deleted)
                &&& e.active == Some(false)
            }),
            *final(final(self).repo_data) == *final(old(self).repo_data),
            *final(final(self).log) == *final(old(self).log),
    {
        match removed {
            Err(e) => Err(metastore_to_db(e)),
            Ok(()) => match self.insert_account_event(did, AccountStatus::Deleted) {
                Ok(_) => Ok(()),
                Err(e) => Err(e),
            },
        }
    }
}

} // verus!
