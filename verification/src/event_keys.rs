//! The keys of the rows that index events.

use vstd::prelude::*;
use vstd::utf8::encode_utf8;

use crate::encoding::{be8, be8_injective, be_len, escaped, escaped_injective, KeyBuilder};
use crate::keys::{KeyTag, UserHash};

verus! {

/// The prefix of a user's events.
pub open spec fn did_events_prefix_bytes(hash: u64) -> Seq<u8> {
    seq![KeyTag::DidEvents.byte()] + be8(hash)
}

pub open spec fn did_events_key_bytes(hash: u64, seq: u64) -> Seq<u8> {
    did_events_prefix_bytes(hash) + be8(seq)
}

/// The prefix of a user's revisions.
pub open spec fn rev_to_seq_prefix_bytes(hash: u64) -> Seq<u8> {
    seq![KeyTag::RevToSeq.byte()] + be8(hash)
}

pub open spec fn rev_to_seq_key_bytes(hash: u64, rev: Seq<char>) -> Seq<u8> {
    rev_to_seq_prefix_bytes(hash) + escaped(encode_utf8(rev))
}

/// The key whose row says that an event is gone.
pub open spec fn seq_tombstone_key_bytes(seq: u64) -> Seq<u8> {
    seq![KeyTag::SeqTombstone.byte()] + be8(seq)
}

/// The key of the sequence number up to which events were applied.
pub open spec fn metastore_cursor_key_bytes() -> Seq<u8> {
    seq![KeyTag::MetastoreCursor.byte()]
}

pub fn did_events_prefix(user_hash: UserHash) -> (r: Vec<u8>)
    ensures
        r@ == did_events_prefix_bytes(user_hash@),
{
    let r: Vec<u8> = KeyBuilder::new().tag(KeyTag::DidEvents.raw()).u64(user_hash.raw()).build();
    assert(r@ =~= did_events_prefix_bytes(user_hash@));
    r
}

pub fn did_events_key(user_hash: UserHash, seq: u64) -> (r: Vec<u8>)
    ensures
        r@ == did_events_key_bytes(user_hash@, seq),
{
    let r: Vec<u8> = KeyBuilder::new().tag(KeyTag::DidEvents.raw()).u64(user_hash.raw()).u64(
        seq,
    ).build();
    assert(r@ =~= did_events_key_bytes(user_hash@, seq));
    r
}

pub fn rev_to_seq_user_prefix(user_hash: UserHash) -> (r: Vec<u8>)
    ensures
        r@ == rev_to_seq_prefix_bytes(user_hash@),
{
    let r: Vec<u8> = KeyBuilder::new().tag(KeyTag::RevToSeq.raw()).u64(user_hash.raw()).build();
    assert(r@ =~= rev_to_seq_prefix_bytes(user_hash@));
    r
}

pub fn rev_to_seq_key(user_hash: UserHash, rev: &str) -> (r: Vec<u8>)
    ensures
        r@ == rev_to_seq_key_bytes(user_hash@, rev@),
{
    let r: Vec<u8> = KeyBuilder::new().tag(KeyTag::RevToSeq.raw()).u64(user_hash.raw()).string(
        rev,
    ).build();
    assert(r@ =~= rev_to_seq_key_bytes(user_hash@, rev@));
    r
}

pub fn seq_tombstone_key(seq: u64) -> (r: Vec<u8>)
    ensures
        r@ == seq_tombstone_key_bytes(seq),
{
    let r: Vec<u8> = KeyBuilder::new().tag(KeyTag::SeqTombstone.raw()).u64(seq).build();
    assert(r@ =~= seq_tombstone_key_bytes(seq));
    r
}

pub fn metastore_cursor_key() -> (r: Vec<u8>)
    ensures
        r@ == metastore_cursor_key_bytes(),
{
    let r: Vec<u8> = KeyBuilder::new().tag(KeyTag::MetastoreCursor.raw()).build();
    assert(r@ =~= metastore_cursor_key_bytes());
    r
}

/// Each event of a user, and each tombstone, has a row of its own.
pub proof fn event_keys_injective(h1: u64, s1: u64, h2: u64, s2: u64)
    ensures
        did_events_key_bytes(h1, s1) == did_events_key_bytes(h2, s2) ==> h1 == h2 && s1 == s2,
        seq_tombstone_key_bytes(s1) == seq_tombstone_key_bytes(s2) ==> s1 == s2,
{
    be_len(h1 as nat, 8);
    be_len(h2 as nat, 8);
    be_len(s1 as nat, 8);
    be_len(s2 as nat, 8);
    let a = did_events_key_bytes(h1, s1);
    let b = did_events_key_bytes(h2, s2);
    if a == b {
        assert(a.subrange(1, 9) =~= be8(h1));
        assert(b.subrange(1, 9) =~= be8(h2));
        assert(a.skip(9) =~= be8(s1));
        assert(b.skip(9) =~= be8(s2));
        be8_injective(h1, h2);
        be8_injective(s1, s2);
    }
    let c = seq_tombstone_key_bytes(s1);
    let d = seq_tombstone_key_bytes(s2);
    if c == d {
        assert(c.skip(1) =~= be8(s1));
        assert(d.skip(1) =~= be8(s2));
        be8_injective(s1, s2);
    }
}

/// Each revision of a user has a row of its own.
pub proof fn rev_keys_injective(h1: u64, r1: Seq<char>, h2: u64, r2: Seq<char>)
    ensures
        rev_to_seq_key_bytes(h1, r1) == rev_to_seq_key_bytes(h2, r2) ==> h1 == h2 && r1 == r2,
{
    be_len(h1 as nat, 8);
    be_len(h2 as nat, 8);
    let a = rev_to_seq_key_bytes(h1, r1);
    let b = rev_to_seq_key_bytes(h2, r2);
    if a == b {
        let none = Seq::<u8>::empty();
        assert(a.subrange(1, 9) =~= be8(h1));
        assert(b.subrange(1, 9) =~= be8(h2));
        be8_injective(h1, h2);
        assert(a.skip(9) =~= escaped(encode_utf8(r1)) + none);
        assert(b.skip(9) =~= escaped(encode_utf8(r2)) + none);
        escaped_injective(encode_utf8(r1), encode_utf8(r2), none, none);
        crate::codec::text_round_trip(r1);
        crate::codec::text_round_trip(r2);
    }
}

} // verus!
