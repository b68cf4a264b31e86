//! The row of a repository: its root, revision, handle and status.

use vstd::prelude::*;
use vstd::utf8::encode_utf8;

use crate::codec::{framed, framed_round_trip, frame, unframe, unframed, varint, varint_at, Field, unframed_fits};
use crate::encoding::{be8, be8_injective, be8_order, escaped, escaped_injective, escaped_order};
use crate::encoding::KeyBuilder;
use crate::bytes::{lex_lt, lex_lt_common_prefix};
use crate::keys::{KeyTag, UserHash};
use crate::store::{Write, WriteView};

verus! {

/// The schema version of a repository row.
pub const SCHEMA_VERSION: u8 = 1;

#[derive(Debug, Clone, Copy, PartialEq, Eq, Structural)]
pub enum RepoStatus {
    Active,
    Takendown,
    Suspended,
    Deactivated,
    Deleted,
}

impl RepoStatus {
    /// The number of a status in stored rows.
    pub open spec fn number(self) -> u32 {
        match self {
            RepoStatus::Active => 0,
            RepoStatus::Takendown => 1,
            RepoStatus::Suspended => 2,
            RepoStatus::Deactivated => 3,
            RepoStatus::Deleted => 4,
        }
    }

    pub open spec fn numbered(n: nat) -> Option<RepoStatus> {
        if n == 0 {
            Some(RepoStatus::Active)
        } else if n == 1 {
            Some(RepoStatus::Takendown)
        } else if n == 2 {
            Some(RepoStatus::Suspended)
        } else if n == 3 {
            Some(RepoStatus::Deactivated)
        } else if n == 4 {
            Some(RepoStatus::Deleted)
        } else {
            None
        }
    }

    pub fn is_active(self) -> (r: bool)
        ensures
            r == (self == RepoStatus::Active),
    {
        matches!(self, RepoStatus::Active)
    }
}

impl DeepView for RepoStatus {
    type V = RepoStatus;

    open spec fn deep_view(&self) -> RepoStatus {
        *self
    }
}

impl Field for RepoStatus {
    open spec fn encoded(v: RepoStatus) -> Seq<u8> {
        varint(v.number() as nat)
    }

    open spec fn decoded(s: Seq<u8>) -> Option<(RepoStatus, Seq<u8>)> {
        match varint_at(s, 5, 15) {
            Some((n, rest)) => match RepoStatus::numbered(n) {
                Some(v) => Some((v, rest)),
                None => None,
            },
            None => None,
        }
    }

    open spec fn fits(v: RepoStatus) -> bool {
        true
    }

    proof fn round_trip(v: RepoStatus, rest: Seq<u8>) {
        u32::round_trip(v.number(), rest);
        crate::codec::varint_at_u32(varint(v.number() as nat) + rest);
    }

    proof fn read_fits(s: Seq<u8>) {
        crate::codec::varint_at_shorter(s, 5, 15);
    }

    fn encode(&self, out: &mut Vec<u8>) {
        let n: u32 = match self {
            RepoStatus::Active => 0,
            RepoStatus::Takendown => 1,
            RepoStatus::Suspended => 2,
            RepoStatus::Deactivated => 3,
            RepoStatus::Deleted => 4,
        };
        n.encode(out);
    }

    fn decode<'a>(s: &'a [u8]) -> (r: Option<(RepoStatus, &'a [u8])>) {
        proof {
            crate::codec::varint_at_u32(s@);
        }
        match u32::decode(s) {
            None => None,
            Some((0, rest)) => Some((RepoStatus::Active, rest)),
            Some((1, rest)) => Some((RepoStatus::Takendown, rest)),
            Some((2, rest)) => Some((RepoStatus::Suspended, rest)),
            Some((3, rest)) => Some((RepoStatus::Deactivated, rest)),
            Some((4, rest)) => Some((RepoStatus::Deleted, rest)),
            Some(_) => None,
        }
    }

    fn duplicate(&self) -> (r: RepoStatus) {
        *self
    }
}

#[derive(Debug, PartialEq, Eq)]
pub struct RepoMetaValue {
    pub repo_root_cid: Vec<u8>,
    pub repo_rev: String,
    pub handle: String,
    pub status: RepoStatus,
    pub deactivated_at_ms: Option<u64>,
    pub takedown_ref: Option<String>,
    pub did: Option<String>,
}

pub struct RepoMeta {
    pub repo_root_cid: Seq<u8>,
    pub repo_rev: Seq<char>,
    pub handle: Seq<char>,
    pub status: RepoStatus,
    pub deactivated_at_ms: Option<u64>,
    pub takedown_ref: Option<Seq<char>>,
    pub did: Option<Seq<char>>,
}

impl DeepView for RepoMetaValue {
    type V = RepoMeta;

    open spec fn deep_view(&self) -> RepoMeta {
        RepoMeta {
            repo_root_cid: self.repo_root_cid.deep_view(),
            repo_rev: self.repo_rev@,
            handle: self.handle@,
            status: self.status,
            deactivated_at_ms: self.deactivated_at_ms,
            takedown_ref: self.takedown_ref.deep_view(),
            did: self.did.deep_view(),
        }
    }
}

/// The fields of a repository row in the order in which they are stored.
pub type RepoMetaFields = (
    Vec<u8>,
    (String, (String, (RepoStatus, (Option<u64>, (Option<String>, Option<String>))))),
);

impl RepoMeta {
    pub open spec fn fields(self) -> <RepoMetaFields as DeepView>::V {
        (
            self.repo_root_cid,
            (
                self.repo_rev,
                (
                    self.handle,
                    (self.status, (self.deactivated_at_ms, (self.takedown_ref, self.did))),
                ),
            ),
        )
    }

    pub open spec fn of(f: <RepoMetaFields as DeepView>::V) -> RepoMeta {
        RepoMeta {
            repo_root_cid: f.0,
            repo_rev: (f.1).0,
            handle: ((f.1).1).0,
            status: (((f.1).1).1).0,
            deactivated_at_ms: ((((f.1).1).1).1).0,
            takedown_ref: (((((f.1).1).1).1).1).0,
            did: (((((f.1).1).1).1).1).1,
        }
    }

    /// The stored row.
    #[verifier::opaque]
    pub open spec fn stored(self) -> Seq<u8> {
        framed::<RepoMetaFields>(SCHEMA_VERSION, self.fields())
    }

    /// Reads a stored row.
    #[verifier::opaque]
    pub open spec fn read(s: Seq<u8>) -> Option<RepoMeta> {
        match unframed::<RepoMetaFields>(SCHEMA_VERSION, s) {
            Some(f) => Some(RepoMeta::of(f)),
            None => None,
        }
    }

    /// No field is longer than a machine can hold.
    pub open spec fn fits(self) -> bool {
        RepoMetaFields::fits(self.fields())
    }
}

/// A repository row is read back as it was written, with the schema version in front.
pub proof fn repo_meta_round_trip(v: RepoMeta)
    requires
        v.fits(),
    ensures
        RepoMeta::read(v.stored()) == Some(v),
        v.stored()[0] == SCHEMA_VERSION,
{
    reveal(RepoMeta::stored);
    reveal(RepoMeta::read);
    framed_round_trip::<RepoMetaFields>(SCHEMA_VERSION, v.fields());
}

/// A row that was read is no longer than a machine can hold.
pub proof fn repo_meta_read_fits(s: Seq<u8>)
    requires
        s.len() <= usize::MAX,
    ensures
        RepoMeta::read(s) matches Some(v) ==> v.fits(),
{
    reveal(RepoMeta::read);
    unframed_fits::<RepoMetaFields>(SCHEMA_VERSION, s);
}

/// Rows of another schema version, and rows without any byte, are not read.
pub proof fn repo_meta_rejects_other_versions(s: Seq<u8>)
    requires
        s.len() == 0 || s[0] != SCHEMA_VERSION,
    ensures
        RepoMeta::read(s) is None,
{
    reveal(RepoMeta::read);
}

impl RepoMetaValue {
    pub fn serialize(&self) -> (r: Vec<u8>)
        ensures
            r@ == self.deep_view().stored(),
    {
        proof {
            reveal(RepoMeta::stored);
        }
        let fields: RepoMetaFields = (
            self.repo_root_cid.duplicate(),
            (
                self.repo_rev.clone(),
                (
                    self.handle.clone(),
                    (
                        self.status,
                        (
                            self.deactivated_at_ms,
                            (self.takedown_ref.duplicate(), self.did.duplicate()),
                        ),
                    ),
                ),
            ),
        );
        assert(fields.deep_view() == self.deep_view().fields());
        frame::<RepoMetaFields>(SCHEMA_VERSION, &fields)
    }

    pub fn deserialize(bytes: &[u8]) -> (r: Option<RepoMetaValue>)
        ensures
            match RepoMeta::read(bytes@) {
                Some(v) => r is Some && r->0.deep_view() == v,
                None => r is None,
            },
    {
        proof {
            reveal(RepoMeta::read);
        }
        match unframe::<RepoMetaFields>(SCHEMA_VERSION, bytes) {
            None => None,
            Some((root, (rev, (handle, (status, (deactivated, (takedown, did))))))) => Some(
                RepoMetaValue {
                    repo_root_cid: root,
                    repo_rev: rev,
                    handle,
                    status,
                    deactivated_at_ms: deactivated,
                    takedown_ref: takedown,
                    did,
                },
            ),
        }
    }
}

pub open spec fn repo_meta_key_bytes(hash: u64) -> Seq<u8> {
    seq![KeyTag::RepoMeta.byte()] + be8(hash)
}

pub open spec fn handle_key_bytes(handle: Seq<char>) -> Seq<u8> {
    seq![KeyTag::Handles.byte()] + escaped(encode_utf8(handle))
}

/// The key of a user's repository row.
pub fn repo_meta_key(user_hash: UserHash) -> (r: Vec<u8>)
    ensures
        r@ == repo_meta_key_bytes(user_hash@),
{
    let r: Vec<u8> = KeyBuilder::new().tag(KeyTag::RepoMeta.raw()).u64(user_hash.raw()).build();
    assert(r@ =~= repo_meta_key_bytes(user_hash@));
    r
}

/// The prefix of all repository rows.
pub fn repo_meta_prefix() -> (r: Vec<u8>)
    ensures
        r@ == seq![KeyTag::RepoMeta.byte()],
{
    let r: Vec<u8> = KeyBuilder::new().tag(KeyTag::RepoMeta.raw()).build();
    assert(r@ =~= seq![KeyTag::RepoMeta.byte()]);
    r
}

/// The key of a handle's row.
pub fn handle_key(handle_lower: &str) -> (r: Vec<u8>)
    ensures
        r@ == handle_key_bytes(handle_lower@),
{
    let r: Vec<u8> = KeyBuilder::new().tag(KeyTag::Handles.raw()).string(handle_lower).build();
    assert(r@ =~= handle_key_bytes(handle_lower@));
    r
}

/// Repository rows are listed in the order of their users' hashes, and each user has one.
pub proof fn repo_meta_keys_ordered(a: u64, b: u64)
    ensures
        a < b ==> lex_lt(repo_meta_key_bytes(a), repo_meta_key_bytes(b)),
        repo_meta_key_bytes(a) == repo_meta_key_bytes(b) ==> a == b,
{
    let t = seq![KeyTag::RepoMeta.byte()];
    lex_lt_common_prefix(t, be8(a), be8(b));
    if a < b {
        be8_order(a, b, Seq::empty(), Seq::empty());
        assert(be8(a) + Seq::<u8>::empty() =~= be8(a));
        assert(be8(b) + Seq::<u8>::empty() =~= be8(b));
    }
    if repo_meta_key_bytes(a) == repo_meta_key_bytes(b) {
        assert(be8(a) =~= repo_meta_key_bytes(a).skip(1));
        assert(be8(b) =~= repo_meta_key_bytes(b).skip(1));
        be8_injective(a, b);
    }
}

/// Handle rows are listed in the byte order of the handles, and each handle has one.
pub proof fn handle_keys_ordered(a: Seq<char>, b: Seq<char>)
    ensures
        lex_lt(encode_utf8(a), encode_utf8(b)) ==> lex_lt(handle_key_bytes(a), handle_key_bytes(b)),
        handle_key_bytes(a) == handle_key_bytes(b) ==> a == b,
{
    let t = seq![KeyTag::Handles.byte()];
    let ea = encode_utf8(a);
    let eb = encode_utf8(b);
    let none = Seq::<u8>::empty();
    lex_lt_common_prefix(t, escaped(ea), escaped(eb));
    assert(escaped(ea) + none =~= escaped(ea));
    assert(escaped(eb) + none =~= escaped(eb));
    if lex_lt(ea, eb) {
        escaped_order(ea, eb, none, none);
    }
    if handle_key_bytes(a) == handle_key_bytes(b) {
        assert(escaped(ea) =~= handle_key_bytes(a).skip(1));
        assert(escaped(eb) =~= handle_key_bytes(b).skip(1));
        escaped_injective(ea, eb, none, none);
        crate::codec::text_round_trip(a);
        crate::codec::text_round_trip(b);
    }
}

/// The writes that remove a repository: its row, and its handle's row if it has a handle.
pub open spec fn repo_meta_removal(hash: u64, handle: Seq<char>) -> Seq<WriteView> {
    let meta = seq![WriteView::Remove { key: repo_meta_key_bytes(hash) }];
    if handle.len() > 0 {
        meta.push(WriteView::Remove { key: handle_key_bytes(handle) })
    } else {
        meta
    }
}

/// Stages the removal of a repository.
pub fn stage_repo_meta_removal(batch: &mut Vec<Write>, user_hash: UserHash, handle: &str)
    ensures
        final(batch).deep_view() == old(batch).deep_view() + repo_meta_removal(
            user_hash@,
            handle@,
        ),
{
    batch.push(Write::Remove { key: repo_meta_key(user_hash) });
    if handle.unicode_len() > 0 {
        batch.push(Write::Remove { key: handle_key(handle) });
    }
    assert(batch.deep_view() =~= old(batch).deep_view() + repo_meta_removal(user_hash@, handle@));
}

} // verus!
