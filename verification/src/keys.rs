//! The kinds of keys, and the hashes that stand for users in them.

use vstd::prelude::*;
use vstd::utf8::encode_utf8;

verus! {

/// The first byte of a key: what its row holds.
#[derive(Debug, Clone, Copy, PartialEq, Eq, Structural)]
pub enum KeyTag {
    FormatVersion,
    UserHash,
    RepoMeta,
    Handles,
    Records,
    RecordBlobs,
    UserBlocks,
    BlobMeta,
    BlobByCid,
    DidEvents,
    RevToSeq,
    SeqTombstone,
    MetastoreCursor,
    BacklinkByTarget,
    BacklinkByUri,
    DelegGrant,
    DelegByController,
    DelegAudit,
    UserPrimary,
    CommsQueue,
    CommsHistory,
    InviteCode,
    InviteUse,
    InviteUsedBy,
    InviteByUser,
    SigningKey,
    SigningKeyById,
    DeletionRequest,
    DeletionByDid,
    AccountPref,
    ServerConfig,
    Report,
    PlcToken,
}

impl KeyTag {
    pub open spec fn byte(self) -> u8 {
        match self {
            KeyTag::FormatVersion => 0x00,
            KeyTag::UserHash => 0x01,
            KeyTag::RepoMeta => 0x10,
            KeyTag::Handles => 0x11,
            KeyTag::Records => 0x12,
            KeyTag::RecordBlobs => 0x13,
            KeyTag::UserBlocks => 0x14,
            KeyTag::BlobMeta => 0x15,
            KeyTag::BlobByCid => 0x16,
            KeyTag::DidEvents => 0x20,
            KeyTag::RevToSeq => 0x21,
            KeyTag::SeqTombstone => 0x22,
            KeyTag::MetastoreCursor => 0x23,
            KeyTag::BacklinkByTarget => 0x30,
            KeyTag::BacklinkByUri => 0x31,
            KeyTag::DelegGrant => 0x40,
            KeyTag::DelegByController => 0x41,
            KeyTag::DelegAudit => 0x42,
            KeyTag::UserPrimary => 0x50,
            KeyTag::CommsQueue => 0x60,
            KeyTag::CommsHistory => 0x61,
            KeyTag::InviteCode => 0x62,
            KeyTag::InviteUse => 0x63,
            KeyTag::InviteUsedBy => 0x64,
            KeyTag::InviteByUser => 0x65,
            KeyTag::SigningKey => 0x66,
            KeyTag::SigningKeyById => 0x67,
            KeyTag::DeletionRequest => 0x68,
            KeyTag::DeletionByDid => 0x69,
            KeyTag::AccountPref => 0x6A,
            KeyTag::ServerConfig => 0x6B,
            KeyTag::Report => 0x6C,
            KeyTag::PlcToken => 0x6D,
        }
    }

    pub fn raw(self) -> (r: u8)
        ensures
            r == self.byte(),
    {
        match self {
            KeyTag::FormatVersion => 0x00,
            KeyTag::UserHash => 0x01,
            KeyTag::RepoMeta => 0x10,
            KeyTag::Handles => 0x11,
            KeyTag::Records => 0x12,
            KeyTag::RecordBlobs => 0x13,
            KeyTag::UserBlocks => 0x14,
            KeyTag::BlobMeta => 0x15,
            KeyTag::BlobByCid => 0x16,
            KeyTag::DidEvents => 0x20,
            KeyTag::RevToSeq => 0x21,
            KeyTag::SeqTombstone => 0x22,
            KeyTag::MetastoreCursor => 0x23,
            KeyTag::BacklinkByTarget => 0x30,
            KeyTag::BacklinkByUri => 0x31,
            KeyTag::DelegGrant => 0x40,
            KeyTag::DelegByController => 0x41,
            KeyTag::DelegAudit => 0x42,
            KeyTag::UserPrimary => 0x50,
            KeyTag::CommsQueue => 0x60,
            KeyTag::CommsHistory => 0x61,
            KeyTag::InviteCode => 0x62,
            KeyTag::InviteUse => 0x63,
            KeyTag::InviteUsedBy => 0x64,
            KeyTag::InviteByUser => 0x65,
            KeyTag::SigningKey => 0x66,
            KeyTag::SigningKeyById => 0x67,
            KeyTag::DeletionRequest => 0x68,
            KeyTag::DeletionByDid => 0x69,
            KeyTag::AccountPref => 0x6A,
            KeyTag::ServerConfig => 0x6B,
            KeyTag::Report => 0x6C,
            KeyTag::PlcToken => 0x6D,
        }
    }
}

/// Rows of different kinds never share a key.
pub proof fn tags_differ(a: KeyTag, b: KeyTag)
    requires
        a.byte() == b.byte(),
    ensures
        a == b,
{
}

/// The SipHash-2-4 of a byte string under the zero key.
pub uninterp spec fn siphash24(b: Seq<u8>) -> u64;

/// `siphasher::sip::SipHasher24::hash` of a hasher with both keys zero: a number that
/// depends on the bytes alone.
#[verifier::external_body]
pub(crate) fn sip_hash(b: &[u8]) -> (r: u64)
    ensures
        r == siphash24(b@),
{
    siphasher::sip::SipHasher24::new().hash(b)
}

/// The number that stands for a user in keys.
#[derive(Debug, Clone, Copy, PartialEq, Eq, Structural)]
pub struct UserHash {
    raw: u64,
}

impl View for UserHash {
    type V = u64;

    closed spec fn view(&self) -> u64 {
        self.raw
    }
}

/// The hash of a user's DID.
pub open spec fn did_hash(did: Seq<char>) -> u64 {
    siphash24(encode_utf8(did))
}

impl UserHash {
    pub fn from_did(did: &str) -> (r: UserHash)
        ensures
            r@ == did_hash(did@),
    {
        UserHash { raw: sip_hash(did.as_bytes()) }
    }

    pub fn from_raw(raw: u64) -> (r: UserHash)
        ensures
            r@ == raw,
    {
        UserHash { raw }
    }

    pub fn raw(&self) -> (r: u64)
        ensures
            r == self@,
    {
        self.raw
    }
}

} // verus!
