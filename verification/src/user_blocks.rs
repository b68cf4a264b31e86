//! The blocks of users' repositories.

use vstd::prelude::*;
use vstd::utf8::encode_utf8;

use crate::codec::Field;
use crate::encoding::{be8, escaped, KeyBuilder};
use crate::keys::{KeyTag, UserHash};
use crate::store::{Write, WriteView};

verus! {

/// The prefix of a user's blocks.
pub open spec fn user_block_prefix_bytes(hash: u64) -> Seq<u8> {
    seq![KeyTag::UserBlocks.byte()] + be8(hash)
}

pub open spec fn user_block_key_bytes(hash: u64, cid: Seq<u8>) -> Seq<u8> {
    user_block_prefix_bytes(hash) + escaped(cid)
}

pub fn user_block_user_prefix(user_hash: UserHash) -> (r: Vec<u8>)
    ensures
        r@ == user_block_prefix_bytes(user_hash@),
{
    let r: Vec<u8> = KeyBuilder::new().tag(KeyTag::UserBlocks.raw()).u64(user_hash.raw()).build();
    assert(r@ =~= user_block_prefix_bytes(user_hash@));
    r
}

pub fn user_block_key(user_hash: UserHash, cid: &[u8]) -> (r: Vec<u8>)
    ensures
        r@ == user_block_key_bytes(user_hash@, cid@),
{
    let r: Vec<u8> = KeyBuilder::new().tag(KeyTag::UserBlocks.raw()).u64(user_hash.raw()).bytes(
        cid,
    ).build();
    assert(r@ =~= user_block_key_bytes(user_hash@, cid@));
    r
}

/// The writes of some blocks: each one's revision under its content identifier.
pub open spec fn block_writes(hash: u64, cids: Seq<Seq<u8>>, rev: Seq<char>) -> Seq<WriteView> {
    cids.map_values(
        |c: Seq<u8>| WriteView::Put { key: user_block_key_bytes(hash, c), value: encode_utf8(rev) },
    )
}

/// The writes that delete some blocks.
pub open spec fn block_removals(hash: u64, cids: Seq<Seq<u8>>) -> Seq<WriteView> {
    cids.map_values(|c: Seq<u8>| WriteView::Remove { key: user_block_key_bytes(hash, c) })
}

/// Stages blocks.
pub fn insert_user_blocks(
    batch: &mut Vec<Write>,
    user_hash: UserHash,
    cids: &Vec<Vec<u8>>,
    rev: &str,
)
    ensures
        final(batch).deep_view() == old(batch).deep_view() + block_writes(
            user_hash@,
            cids.deep_view(),
            rev@,
        ),
{
    let ghost start = batch.deep_view();
    let ghost all = cids.deep_view();
    let ghost goal = block_writes(user_hash@, all, rev@);
    let mut i: usize = 0;
    assert(batch.deep_view() =~= start + goal.take(0));
    while i < cids.len()
        invariant
            i <= cids@.len(),
            all == cids.deep_view(),
            goal == block_writes(user_hash@, all, rev@),
            batch.deep_view() == start + goal.take(i as int),
        decreases cids.len() - i,
    {
        let ghost before = batch.deep_view();
        batch.push(
            Write::Put {
                key: user_block_key(user_hash, cids[i].as_slice()),
                value: crate::bytes::copy_bytes(rev.as_bytes()),
            },
        );
        proof {
            assert(all[i as int] =~= cids@[i as int]@);
            assert(batch.deep_view() =~= before.push(goal[i as int]));
            assert(goal.take(i + 1) =~= goal.take(i as int).push(goal[i as int]));
            assert(batch.deep_view() =~= start + goal.take(i + 1));
        }
        i = i + 1;
    }
    assert(goal.take(i as int) =~= goal);
}

/// Stages the deletion of blocks.
pub fn delete_user_blocks(batch: &mut Vec<Write>, user_hash: UserHash, cids: &Vec<Vec<u8>>)
    ensures
        final(batch).deep_view() == old(batch).deep_view() + block_removals(
            user_hash@,
            cids.deep_view(),
        ),
{
    let ghost start = batch.deep_view();
    let ghost all = cids.deep_view();
    let ghost goal = block_removals(user_hash@, all);
    let mut i: usize = 0;
    assert(batch.deep_view() =~= start + goal.take(0));
    while i < cids.len()
        invariant
            i <= cids@.len(),
            all == cids.deep_view(),
            goal == block_removals(user_hash@, all),
            batch.deep_view() == start + goal.take(i as int),
        decreases cids.len() - i,
    {
        let ghost before = batch.deep_view();
        batch.push(Write::Remove { key: user_block_key(user_hash, cids[i].as_slice()) });
        proof {
            assert(all[i as int] =~= cids@[i as int]@);
            assert(batch.deep_view() =~= before.push(goal[i as int]));
            assert(goal.take(i + 1) =~= goal.take(i as int).push(goal[i as int]));
            assert(batch.deep_view() =~= start + goal.take(i + 1));
        }
        i = i + 1;
    }
    assert(goal.take(i as int) =~= goal);
}

} // verus!
