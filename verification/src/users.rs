//! The row of a user.

use vstd::prelude::*;

use crate::codec::{framed, framed_round_trip, frame, unframe, unframed, unframed_fits, Field};
use crate::encoding::{be8, KeyBuilder};
use crate::keys::{KeyTag, UserHash};
use crate::store::{lookup, Keyspace, Rows};
use crate::types::{is_did, is_handle, Did, Handle, Uuid};

verus! {

/// The schema version of a user row.
pub const SCHEMA_VERSION: u8 = 1;

/// A user.
#[derive(Debug, PartialEq, Eq)]
pub struct UserValue {
    pub id: Uuid,
    pub did: String,
    pub handle: String,
    pub email: Option<String>,
    pub created_at_ms: i64,
    pub deactivated_at_ms: Option<i64>,
    pub invites_disabled: bool,
    pub email_verified: bool,
}

#[verifier::ext_equal]
pub struct User {
    pub id: Uuid,
    pub did: Seq<char>,
    pub handle: Seq<char>,
    pub email: Option<Seq<char>>,
    pub created_at_ms: i64,
    pub deactivated_at_ms: Option<i64>,
    pub invites_disabled: bool,
    pub email_verified: bool,
}

impl DeepView for UserValue {
    type V = User;

    open spec fn deep_view(&self) -> User {
        User {
            id: self.id,
            did: self.did@,
            handle: self.handle@,
            email: self.email.deep_view(),
            created_at_ms: self.created_at_ms,
            deactivated_at_ms: self.deactivated_at_ms,
            invites_disabled: self.invites_disabled,
            email_verified: self.email_verified,
        }
    }
}

/// The fields of a user in the order in which they are stored.
pub type UserFields = (Uuid, (String, (String, (Option<String>, (i64, (Option<i64>, (bool, bool)))))));

impl User {
    pub open spec fn fields(self) -> <UserFields as DeepView>::V {
        (self.id, (self.did, (self.handle, (self.email, (self.created_at_ms, (self.deactivated_at_ms, (self.invites_disabled, self.email_verified)))))))
    }

    pub open spec fn of(f: <UserFields as DeepView>::V) -> User {
        User {
            id: f.0,
            did: (f.1).0,
            handle: ((f.1).1).0,
            email: (((f.1).1).1).0,
            created_at_ms: ((((f.1).1).1).1).0,
            deactivated_at_ms: (((((f.1).1).1).1).1).0,
            invites_disabled: ((((((f.1).1).1).1).1).1).0,
            email_verified: ((((((f.1).1).1).1).1).1).1,
        }
    }

    /// The stored value.
    #[verifier::opaque]
    pub open spec fn stored(self) -> Seq<u8> {
        framed::<UserFields>(SCHEMA_VERSION, self.fields())
    }

    /// Reads a stored value.
    #[verifier::opaque]
    pub open spec fn read(s: Seq<u8>) -> Option<User> {
        match unframed::<UserFields>(SCHEMA_VERSION, s) {
            Some(f) => Some(User::of(f)),
            None => None,
        }
    }

    /// No field is longer than a machine can hold.
    pub open spec fn fits(self) -> bool {
        UserFields::fits(self.fields())
    }

    /// A value is read back as it was written.
    pub proof fn round_trip(self)
        requires
            self.fits(),
        ensures
            User::read(self.stored()) == Some(self),
    {
        reveal(User::stored);
        reveal(User::read);
        framed_round_trip::<UserFields>(SCHEMA_VERSION, self.fields());
    }

    /// A value that was read from stored bytes is no longer than a machine can hold.
    pub proof fn read_fits(s: Seq<u8>)
        requires
            s.len() <= usize::MAX,
        ensures
            User::read(s) matches Some(v) ==> v.fits(),
    {
        reveal(User::stored);
        reveal(User::read);
        unframed_fits::<UserFields>(SCHEMA_VERSION, s);
    }
}

impl UserValue {
    pub fn serialize(&self) -> (r: Vec<u8>)
        ensures
            r@ == self.deep_view().stored(),
    {
        proof {
            reveal(User::stored);
        }
        let fields: UserFields = (self.id, (self.did.clone(), (self.handle.clone(), (self.email.duplicate(), (self.created_at_ms, (self.deactivated_at_ms, (self.invites_disabled, self.email_verified)))))));
        assert(fields.deep_view() == self.deep_view().fields());
        frame::<UserFields>(SCHEMA_VERSION, &fields)
    }

    pub fn deserialize(bytes: &[u8]) -> (r: Option<UserValue>)
        ensures
            match User::read(bytes@) {
                Some(v) => r is Some && r->0.deep_view() == v,
                None => r is None,
            },
    {
        proof {
            reveal(User::read);
        }
        match unframe::<UserFields>(SCHEMA_VERSION, bytes) {
            None => None,
            Some((id, (did, (handle, (email, (created_at_ms, (deactivated_at_ms, (invites_disabled, email_verified)))))))) => Some(
                UserValue { id, did, handle, email, created_at_ms, deactivated_at_ms, invites_disabled, email_verified },
            ),
        }
    }
}

pub open spec fn user_primary_key_bytes(hash: u64) -> Seq<u8> {
    seq![KeyTag::UserPrimary.byte()] + be8(hash)
}

/// The key of a user's row.
pub fn user_primary_key(user_hash: UserHash) -> (r: Vec<u8>)
    ensures
        r@ == user_primary_key_bytes(user_hash@),
{
    let r: Vec<u8> = KeyBuilder::new().tag(KeyTag::UserPrimary.raw()).u64(user_hash.raw()).build();
    assert(r@ =~= user_primary_key_bytes(user_hash@));
    r
}

/// The user with a hash; a row that cannot be read counts as none.
pub open spec fn user_at(users: Rows, hash: u64) -> Option<User> {
    match lookup(users, user_primary_key_bytes(hash)) {
        Some(b) => User::read(b),
        None => None,
    }
}

/// Looks a user up.
pub fn resolve_user_value(users: &Keyspace, user_hash: UserHash) -> (r: Option<UserValue>)
    ensures
        r.deep_view() == user_at(users@.rows, user_hash@),
{
    match users.get(user_primary_key(user_hash).as_slice()) {
        Some(raw) => UserValue::deserialize(raw.as_slice()),
        None => None,
    }
}

/// The handle of the user with a hash, if it is well formed.
pub open spec fn handle_at(users: Rows, hash: u64) -> Option<Seq<char>> {
    match user_at(users, hash) {
        Some(u) => if is_handle(vstd::utf8::encode_utf8(u.handle)) {
            Some(u.handle)
        } else {
            None
        },
        None => None,
    }
}

/// The DID of the user with a hash, if it is well formed.
pub open spec fn did_at(users: Rows, hash: u64) -> Option<Seq<char>> {
    match user_at(users, hash) {
        Some(u) => if is_did(vstd::utf8::encode_utf8(u.did)) {
            Some(u.did)
        } else {
            None
        },
        None => None,
    }
}

pub fn resolve_handle(users: &Keyspace, user_hash: UserHash) -> (r: Option<Handle>)
    ensures
        r.deep_view() == handle_at(users@.rows, user_hash@),
{
    match resolve_user_value(users, user_hash) {
        Some(u) => Handle::new(u.handle),
        None => None,
    }
}

pub fn resolve_did(users: &Keyspace, user_hash: UserHash) -> (r: Option<Did>)
    ensures
        r.deep_view() == did_at(users@.rows, user_hash@),
{
    match resolve_user_value(users, user_hash) {
        Some(u) => Did::new(u.did),
        None => None,
    }
}

} // verus!
