//! The rows of delegations: grants, their index by controller, and the audit log.

use vstd::prelude::*;

use crate::bytes::{lex_lt, lex_lt_common_prefix};
use crate::codec::{framed, framed_round_trip, frame, unframe, unframed, unframed_fits, Field};
use crate::encoding::{be8, be8_injective, be8_order, be_len, KeyBuilder};
use crate::keys::{KeyTag, UserHash};
use crate::types::{push_uuid, uuid_bytes, Uuid};

verus! {

/// The schema version of delegation rows.
pub const SCHEMA_VERSION: u8 = 1;

/// A grant: what a controller may do with a delegated account.
#[derive(Debug, PartialEq, Eq)]
pub struct DelegationGrantValue {
    pub id: Uuid,
    pub delegated_did: String,
    pub controller_did: String,
    pub granted_scopes: String,
    pub granted_at_ms: i64,
    pub granted_by: String,
    pub revoked_at_ms: Option<i64>,
    pub revoked_by: Option<String>,
}

#[verifier::ext_equal]
pub struct GrantRow {
    pub id: Uuid,
    pub delegated_did: Seq<char>,
    pub controller_did: Seq<char>,
    pub granted_scopes: Seq<char>,
    pub granted_at_ms: i64,
    pub granted_by: Seq<char>,
    pub revoked_at_ms: Option<i64>,
    pub revoked_by: Option<Seq<char>>,
}

impl DeepView for DelegationGrantValue {
    type V = GrantRow;

    open spec fn deep_view(&self) -> GrantRow {
        GrantRow {
            id: self.id,
            delegated_did: self.delegated_did@,
            controller_did: self.controller_did@,
            granted_scopes: self.granted_scopes@,
            granted_at_ms: self.granted_at_ms,
            granted_by: self.granted_by@,
            revoked_at_ms: self.revoked_at_ms,
            revoked_by: self.revoked_by.deep_view(),
        }
    }
}

/// The fields of a grant in the order in which they are stored.
pub type GrantFields = (Uuid, (String, (String, (String, (i64, (String, (Option<i64>, Option<String>)))))));

impl GrantRow {
    pub open spec fn fields(self) -> <GrantFields as DeepView>::V {
        (self.id, (self.delegated_did, (self.controller_did, (self.granted_scopes, (self.granted_at_ms, (self.granted_by, (self.revoked_at_ms, self.revoked_by)))))))
    }

    pub open spec fn of(f: <GrantFields as DeepView>::V) -> GrantRow {
        GrantRow {
            id: f.0,
            delegated_did: (f.1).0,
            controller_did: ((f.1).1).0,
            granted_scopes: (((f.1).1).1).0,
            granted_at_ms: ((((f.1).1).1).1).0,
            granted_by: (((((f.1).1).1).1).1).0,
            revoked_at_ms: ((((((f.1).1).1).1).1).1).0,
            revoked_by: ((((((f.1).1).1).1).1).1).1,
        }
    }

    /// The stored value.
    #[verifier::opaque]
    pub open spec fn stored(self) -> Seq<u8> {
        framed::<GrantFields>(SCHEMA_VERSION, self.fields())
    }

    /// Reads a stored value.
    #[verifier::opaque]
    pub open spec fn read(s: Seq<u8>) -> Option<GrantRow> {
        match unframed::<GrantFields>(SCHEMA_VERSION, s) {
            Some(f) => Some(GrantRow::of(f)),
            None => None,
        }
    }

    /// No field is longer than a machine can hold.
    pub open spec fn fits(self) -> bool {
        GrantFields::fits(self.fields())
    }

    /// A value is read back as it was written.
    pub proof fn round_trip(self)
        requires
            self.fits(),
        ensures
            GrantRow::read(self.stored()) == Some(self),
    {
        reveal(GrantRow::stored);
        reveal(GrantRow::read);
        framed_round_trip::<GrantFields>(SCHEMA_VERSION, self.fields());
    }

    /// A value that was read from stored bytes is no longer than a machine can hold.
    pub proof fn read_fits(s: Seq<u8>)
        requires
            s.len() <= usize::MAX,
        ensures
            GrantRow::read(s) matches Some(v) ==> v.fits(),
    {
        reveal(GrantRow::stored);
        reveal(GrantRow::read);
        unframed_fits::<GrantFields>(SCHEMA_VERSION, s);
    }
}

impl DelegationGrantValue {
    pub fn serialize(&self) -> (r: Vec<u8>)
        ensures
            r@ == self.deep_view().stored(),
    {
        proof {
            reveal(GrantRow::stored);
        }
        let fields: GrantFields = (self.id, (self.delegated_did.clone(), (self.controller_did.clone(), (self.granted_scopes.clone(), (self.granted_at_ms, (self.granted_by.clone(), (self.revoked_at_ms, self.revoked_by.duplicate())))))));
        assert(fields.deep_view() == self.deep_view().fields());
        frame::<GrantFields>(SCHEMA_VERSION, &fields)
    }

    pub fn deserialize(bytes: &[u8]) -> (r: Option<DelegationGrantValue>)
        ensures
            match GrantRow::read(bytes@) {
                Some(v) => r is Some && r->0.deep_view() == v,
                None => r is None,
            },
    {
        proof {
            reveal(GrantRow::read);
        }
        match unframe::<GrantFields>(SCHEMA_VERSION, bytes) {
            None => None,
            Some((id, (delegated_did, (controller_did, (granted_scopes, (granted_at_ms, (granted_by, (revoked_at_ms, revoked_by)))))))) => Some(
                DelegationGrantValue { id, delegated_did, controller_did, granted_scopes, granted_at_ms, granted_by, revoked_at_ms, revoked_by },
            ),
        }
    }
}

/// An entry of the audit log of a delegated account.
#[derive(Debug, PartialEq, Eq)]
pub struct AuditLogValue {
    pub id: Uuid,
    pub delegated_did: String,
    pub actor_did: String,
    pub controller_did: Option<String>,
    pub action_type: u8,
    pub action_details: Option<Vec<u8>>,
    pub ip_address: Option<String>,
    pub user_agent: Option<String>,
    pub created_at_ms: i64,
}

#[verifier::ext_equal]
pub struct AuditRow {
    pub id: Uuid,
    pub delegated_did: Seq<char>,
    pub actor_did: Seq<char>,
    pub controller_did: Option<Seq<char>>,
    pub action_type: u8,
    pub action_details: Option<Seq<u8>>,
    pub ip_address: Option<Seq<char>>,
    pub user_agent: Option<Seq<char>>,
    pub created_at_ms: i64,
}

impl DeepView for AuditLogValue {
    type V = AuditRow;

    open spec fn deep_view(&self) -> AuditRow {
        AuditRow {
            id: self.id,
            delegated_did: self.delegated_did@,
            actor_did: self.actor_did@,
            controller_did: self.controller_did.deep_view(),
            action_type: self.action_type,
            action_details: self.action_details.deep_view(),
            ip_address: self.ip_address.deep_view(),
            user_agent: self.user_agent.deep_view(),
            created_at_ms: self.created_at_ms,
        }
    }
}

/// The fields of an audit log entry in the order in which they are stored.
pub type AuditFields = (Uuid, (String, (String, (Option<String>, (u8, (Option<Vec<u8>>, (Option<String>, (Option<String>, i64))))))));

impl AuditRow {
    pub open spec fn fields(self) -> <AuditFields as DeepView>::V {
        (self.id, (self.delegated_did, (self.actor_did, (self.controller_did, (self.action_type, (self.action_details, (self.ip_address, (self.user_agent, self.created_at_ms))))))))
    }

    pub open spec fn of(f: <AuditFields as DeepView>::V) -> AuditRow {
        AuditRow {
            id: f.0,
            delegated_did: (f.1).0,
            actor_did: ((f.1).1).0,
            controller_did: (((f.1).1).1).0,
            action_type: ((((f.1).1).1).1).0,
            action_details: (((((f.1).1).1).1).1).0,
            ip_address: ((((((f.1).1).1).1).1).1).0,
            user_agent: (((((((f.1).1).1).1).1).1).1).0,
            created_at_ms: (((((((f.1).1).1).1).1).1).1).1,
        }
    }

    /// The stored value.
    #[verifier::opaque]
    pub open spec fn stored(self) -> Seq<u8> {
        framed::<AuditFields>(SCHEMA_VERSION, self.fields())
    }

    /// Reads a stored value.
    #[verifier::opaque]
    pub open spec fn read(s: Seq<u8>) -> Option<AuditRow> {
        match unframed::<AuditFields>(SCHEMA_VERSION, s) {
            Some(f) => Some(AuditRow::of(f)),
            None => None,
        }
    }

    /// No field is longer than a machine can hold.
    pub open spec fn fits(self) -> bool {
        AuditFields::fits(self.fields())
    }

    /// A value is read back as it was written.
    pub proof fn round_trip(self)
        requires
            self.fits(),
        ensures
            AuditRow::read(self.stored()) == Some(self),
    {
        reveal(AuditRow::stored);
        reveal(AuditRow::read);
        framed_round_trip::<AuditFields>(SCHEMA_VERSION, self.fields());
    }

    /// A value that was read from stored bytes is no longer than a machine can hold.
    pub proof fn read_fits(s: Seq<u8>)
        requires
            s.len() <= usize::MAX,
        ensures
            AuditRow::read(s) matches Some(v) ==> v.fits(),
    {
        reveal(AuditRow::stored);
        reveal(AuditRow::read);
        unframed_fits::<AuditFields>(SCHEMA_VERSION, s);
    }
}

impl AuditLogValue {
    pub fn serialize(&self) -> (r: Vec<u8>)
        ensures
            r@ == self.deep_view().stored(),
    {
        proof {
            reveal(AuditRow::stored);
        }
        let fields: AuditFields = (self.id, (self.delegated_did.clone(), (self.actor_did.clone(), (self.controller_did.duplicate(), (self.action_type, (self.action_details.duplicate(), (self.ip_address.duplicate(), (self.user_agent.duplicate(), self.created_at_ms))))))));
        assert(fields.deep_view() == self.deep_view().fields());
        frame::<AuditFields>(SCHEMA_VERSION, &fields)
    }

    pub fn deserialize(bytes: &[u8]) -> (r: Option<AuditLogValue>)
        ensures
            match AuditRow::read(bytes@) {
                Some(v) => r is Some && r->0.deep_view() == v,
                None => r is None,
            },
    {
        proof {
            reveal(AuditRow::read);
        }
        match unframe::<AuditFields>(SCHEMA_VERSION, bytes) {
            None => None,
            Some((id, (delegated_did, (actor_did, (controller_did, (action_type, (action_details, (ip_address, (user_agent, created_at_ms))))))))) => Some(
                AuditLogValue { id, delegated_did, actor_did, controller_did, action_type, action_details, ip_address, user_agent, created_at_ms },
            ),
        }
    }
}

/// What was done to a delegated account.
#[derive(Debug, Clone, Copy, PartialEq, Eq, Structural)]
pub enum DelegationActionType {
    GrantCreated,
    GrantRevoked,
    ScopesModified,
    TokenIssued,
    RepoWrite,
    BlobUpload,
    AccountAction,
}

impl DelegationActionType {
    /// The number of an action in stored rows.
    pub open spec fn number(self) -> u8 {
        match self {
            DelegationActionType::GrantCreated => 0,
            DelegationActionType::GrantRevoked => 1,
            DelegationActionType::ScopesModified => 2,
            DelegationActionType::TokenIssued => 3,
            DelegationActionType::RepoWrite => 4,
            DelegationActionType::BlobUpload => 5,
            DelegationActionType::AccountAction => 6,
        }
    }

    pub open spec fn numbered(n: u8) -> Option<DelegationActionType> {
        if n == 0 {
            Some(DelegationActionType::GrantCreated)
        } else if n == 1 {
            Some(DelegationActionType::GrantRevoked)
        } else if n == 2 {
            Some(DelegationActionType::ScopesModified)
        } else if n == 3 {
            Some(DelegationActionType::TokenIssued)
        } else if n == 4 {
            Some(DelegationActionType::RepoWrite)
        } else if n == 5 {
            Some(DelegationActionType::BlobUpload)
        } else if n == 6 {
            Some(DelegationActionType::AccountAction)
        } else {
            None
        }
    }
}

pub fn action_type_to_u8(a: DelegationActionType) -> (r: u8)
    ensures
        r == a.number(),
{
    match a {
        DelegationActionType::GrantCreated => 0,
        DelegationActionType::GrantRevoked => 1,
        DelegationActionType::ScopesModified => 2,
        DelegationActionType::TokenIssued => 3,
        DelegationActionType::RepoWrite => 4,
        DelegationActionType::BlobUpload => 5,
        DelegationActionType::AccountAction => 6,
    }
}

pub fn u8_to_action_type(n: u8) -> (r: Option<DelegationActionType>)
    ensures
        r == DelegationActionType::numbered(n),
{
    match n {
        0 => Some(DelegationActionType::GrantCreated),
        1 => Some(DelegationActionType::GrantRevoked),
        2 => Some(DelegationActionType::ScopesModified),
        3 => Some(DelegationActionType::TokenIssued),
        4 => Some(DelegationActionType::RepoWrite),
        5 => Some(DelegationActionType::BlobUpload),
        6 => Some(DelegationActionType::AccountAction),
        _ => None,
    }
}

/// The prefix of the grants on a delegated account.
pub open spec fn grant_prefix_bytes(delegated: u64) -> Seq<u8> {
    seq![KeyTag::DelegGrant.byte()] + be8(delegated)
}

pub open spec fn grant_key_bytes(delegated: u64, controller: u64) -> Seq<u8> {
    grant_prefix_bytes(delegated) + be8(controller)
}

/// The prefix of the accounts that a controller has grants on.
pub open spec fn by_controller_prefix_bytes(controller: u64) -> Seq<u8> {
    seq![KeyTag::DelegByController.byte()] + be8(controller)
}

pub open spec fn by_controller_key_bytes(controller: u64, delegated: u64) -> Seq<u8> {
    by_controller_prefix_bytes(controller) + be8(delegated)
}

/// The prefix of the audit log of a delegated account.
pub open spec fn audit_log_prefix_bytes(delegated: u64) -> Seq<u8> {
    seq![KeyTag::DelegAudit.byte()] + be8(delegated)
}

/// Later entries come first: the time is counted down from the end of the range.
pub open spec fn newest_first(ms: i64) -> u64 {
    (i64::MAX - ms) as u64
}

pub open spec fn audit_log_key_bytes(delegated: u64, ms: i64, id: Uuid) -> Seq<u8> {
    audit_log_prefix_bytes(delegated) + be8(newest_first(ms)) + uuid_bytes(id)
}

pub fn grant_prefix(delegated: UserHash) -> (r: Vec<u8>)
    ensures
        r@ == grant_prefix_bytes(delegated@),
{
    let r: Vec<u8> = KeyBuilder::new().tag(KeyTag::DelegGrant.raw()).u64(delegated.raw()).build();
    assert(r@ =~= grant_prefix_bytes(delegated@));
    r
}

pub fn grant_key(delegated: UserHash, controller: UserHash) -> (r: Vec<u8>)
    ensures
        r@ == grant_key_bytes(delegated@, controller@),
{
    let r: Vec<u8> = KeyBuilder::new().tag(KeyTag::DelegGrant.raw()).u64(delegated.raw()).u64(
        controller.raw(),
    ).build();
    assert(r@ =~= grant_key_bytes(delegated@, controller@));
    r
}

pub fn by_controller_prefix(controller: UserHash) -> (r: Vec<u8>)
    ensures
        r@ == by_controller_prefix_bytes(controller@),
{
    let r: Vec<u8> = KeyBuilder::new().tag(KeyTag::DelegByController.raw()).u64(
        controller.raw(),
    ).build();
    assert(r@ =~= by_controller_prefix_bytes(controller@));
    r
}

pub fn by_controller_key(controller: UserHash, delegated: UserHash) -> (r: Vec<u8>)
    ensures
        r@ == by_controller_key_bytes(controller@, delegated@),
{
    let r: Vec<u8> = KeyBuilder::new().tag(KeyTag::DelegByController.raw()).u64(
        controller.raw(),
    ).u64(delegated.raw()).build();
    assert(r@ =~= by_controller_key_bytes(controller@, delegated@));
    r
}

pub fn audit_log_prefix(delegated: UserHash) -> (r: Vec<u8>)
    ensures
        r@ == audit_log_prefix_bytes(delegated@),
{
    let r: Vec<u8> = KeyBuilder::new().tag(KeyTag::DelegAudit.raw()).u64(delegated.raw()).build();
    assert(r@ =~= audit_log_prefix_bytes(delegated@));
    r
}

pub fn audit_log_key(delegated: UserHash, ms: i64, id: Uuid) -> (r: Vec<u8>)
    ensures
        r@ == audit_log_key_bytes(delegated@, ms, id),
{
    let down: u64 = (i64::MAX as i128 - ms as i128) as u64;
    let mut r: Vec<u8> = KeyBuilder::new().tag(KeyTag::DelegAudit.raw()).u64(delegated.raw()).u64(
        down,
    ).build();
    assert(r@ =~= audit_log_prefix_bytes(delegated@) + be8(newest_first(ms)));
    push_uuid(&mut r, id);
    r
}

/// Each pair of accounts has a grant row and an index row of its own.
pub proof fn grant_keys_injective(d1: u64, c1: u64, d2: u64, c2: u64)
    ensures
        grant_key_bytes(d1, c1) == grant_key_bytes(d2, c2) ==> d1 == d2 && c1 == c2,
        by_controller_key_bytes(c1, d1) == by_controller_key_bytes(c2, d2) ==> d1 == d2 && c1 == c2,
        grant_key_bytes(d1, c1) != by_controller_key_bytes(c2, d2),
{
    be_len(d1 as nat, 8);
    be_len(c1 as nat, 8);
    be_len(d2 as nat, 8);
    be_len(c2 as nat, 8);
    let g1 = grant_key_bytes(d1, c1);
    let g2 = grant_key_bytes(d2, c2);
    if g1 == g2 {
        assert(g1.subrange(1, 9) =~= be8(d1));
        assert(g2.subrange(1, 9) =~= be8(d2));
        assert(g1.skip(9) =~= be8(c1));
        assert(g2.skip(9) =~= be8(c2));
        be8_injective(d1, d2);
        be8_injective(c1, c2);
    }
    let b1 = by_controller_key_bytes(c1, d1);
    let b2 = by_controller_key_bytes(c2, d2);
    if b1 == b2 {
        assert(b1.subrange(1, 9) =~= be8(c1));
        assert(b2.subrange(1, 9) =~= be8(c2));
        assert(b1.skip(9) =~= be8(d1));
        assert(b2.skip(9) =~= be8(d2));
        be8_injective(d1, d2);
        be8_injective(c1, c2);
    }
    assert(g1[0] != b2[0]);
}

/// In the audit log of an account, what was logged later comes first.
pub proof fn audit_log_is_newest_first(
    delegated: u64,
    later: i64,
    earlier: i64,
    id: Uuid,
    other: Uuid,
)
    requires
        later > earlier,
    ensures
        lex_lt(
            audit_log_key_bytes(delegated, later, id),
            audit_log_key_bytes(delegated, earlier, other),
        ),
{
    let p = audit_log_prefix_bytes(delegated);
    let a = be8(newest_first(later)) + uuid_bytes(id);
    let b = be8(newest_first(earlier)) + uuid_bytes(other);
    be8_order(newest_first(later), newest_first(earlier), uuid_bytes(id), uuid_bytes(other));
    lex_lt_common_prefix(p, a, b);
    assert(audit_log_key_bytes(delegated, later, id) =~= p + a);
    assert(audit_log_key_bytes(delegated, earlier, other) =~= p + b);
}

} // verus!
