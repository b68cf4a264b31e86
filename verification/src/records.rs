//! Records of repositories.

use vstd::prelude::*;
use vstd::utf8::encode_utf8;

use crate::codec::Field;
use crate::encoding::{be8, escaped, KeyBuilder};
use crate::errors::{viewed, MetastoreError};
use crate::keys::{KeyTag, UserHash};
use crate::store::{lookup, Keyspace, Rows, Write, WriteView};
use crate::types::{is_cid, CidLink, Uuid};
use crate::user_hash::{hash_of, UserHashMap, UserHashes};

verus! {

/// A record that is written.
#[derive(Debug, PartialEq, Eq)]
pub struct RecordMutationUpsert {
    pub collection: String,
    pub rkey: String,
    pub cid_bytes: Vec<u8>,
}

#[verifier::ext_equal]
pub struct RecordPut {
    pub collection: Seq<char>,
    pub rkey: Seq<char>,
    pub cid_bytes: Seq<u8>,
}

impl DeepView for RecordMutationUpsert {
    type V = RecordPut;

    open spec fn deep_view(&self) -> RecordPut {
        RecordPut {
            collection: self.collection@,
            rkey: self.rkey@,
            cid_bytes: self.cid_bytes.deep_view(),
        }
    }
}

/// The fields of a written record in the order in which they are stored.
pub type RecordPutFields = (String, (String, Vec<u8>));

impl RecordPut {
    pub open spec fn fields(self) -> <RecordPutFields as DeepView>::V {
        (self.collection, (self.rkey, self.cid_bytes))
    }

    pub open spec fn of(f: <RecordPutFields as DeepView>::V) -> RecordPut {
        RecordPut {
            collection: f.0,
            rkey: (f.1).0,
            cid_bytes: (f.1).1,
        }
    }
}

impl Field for RecordMutationUpsert {
    open spec fn encoded(v: RecordPut) -> Seq<u8> {
        RecordPutFields::encoded(v.fields())
    }

    open spec fn decoded(s: Seq<u8>) -> Option<(RecordPut, Seq<u8>)> {
        match RecordPutFields::decoded(s) {
            Some((f, rest)) => Some((RecordPut::of(f), rest)),
            None => None,
        }
    }

    open spec fn fits(v: RecordPut) -> bool {
        RecordPutFields::fits(v.fields())
    }

    proof fn round_trip(v: RecordPut, rest: Seq<u8>) {
        RecordPutFields::round_trip(v.fields(), rest);
    }

    proof fn read_fits(s: Seq<u8>) {
        RecordPutFields::read_fits(s);
    }

    fn encode(&self, out: &mut Vec<u8>) {
        let fields: RecordPutFields = (self.collection.clone(), (self.rkey.clone(), self.cid_bytes.duplicate()));
        assert(fields.deep_view() == self.deep_view().fields());
        fields.encode(out);
    }

    fn decode<'a>(s: &'a [u8]) -> (r: Option<(RecordMutationUpsert, &'a [u8])>) {
        match RecordPutFields::decode(s) {
            None => None,
            Some(((collection, (rkey, cid_bytes)), rest)) => Some((RecordMutationUpsert { collection, rkey, cid_bytes }, rest)),
        }
    }

    fn duplicate(&self) -> (r: RecordMutationUpsert) {
        RecordMutationUpsert { collection: self.collection.clone(), rkey: self.rkey.clone(), cid_bytes: self.cid_bytes.duplicate() }
    }
}

/// A record that is deleted.
#[derive(Debug, PartialEq, Eq)]
pub struct RecordMutationDelete {
    pub collection: String,
    pub rkey: String,
}

#[verifier::ext_equal]
pub struct RecordKeyView {
    pub collection: Seq<char>,
    pub rkey: Seq<char>,
}

impl DeepView for RecordMutationDelete {
    type V = RecordKeyView;

    open spec fn deep_view(&self) -> RecordKeyView {
        RecordKeyView {
            collection: self.collection@,
            rkey: self.rkey@,
        }
    }
}

/// The fields of a deleted record in the order in which they are stored.
pub type RecordKeyFields = (String, String);

impl RecordKeyView {
    pub open spec fn fields(self) -> <RecordKeyFields as DeepView>::V {
        (self.collection, self.rkey)
    }

    pub open spec fn of(f: <RecordKeyFields as DeepView>::V) -> RecordKeyView {
        RecordKeyView {
            collection: f.0,
            rkey: f.1,
        }
    }
}

impl Field for RecordMutationDelete {
    open spec fn encoded(v: RecordKeyView) -> Seq<u8> {
        RecordKeyFields::encoded(v.fields())
    }

    open spec fn decoded(s: Seq<u8>) -> Option<(RecordKeyView, Seq<u8>)> {
        match RecordKeyFields::decoded(s) {
            Some((f, rest)) => Some((RecordKeyView::of(f), rest)),
            None => None,
        }
    }

    open spec fn fits(v: RecordKeyView) -> bool {
        RecordKeyFields::fits(v.fields())
    }

    proof fn round_trip(v: RecordKeyView, rest: Seq<u8>) {
        RecordKeyFields::round_trip(v.fields(), rest);
    }

    proof fn read_fits(s: Seq<u8>) {
        RecordKeyFields::read_fits(s);
    }

    fn encode(&self, out: &mut Vec<u8>) {
        let fields: RecordKeyFields = (self.collection.clone(), self.rkey.clone());
        assert(fields.deep_view() == self.deep_view().fields());
        fields.encode(out);
    }

    fn decode<'a>(s: &'a [u8]) -> (r: Option<(RecordMutationDelete, &'a [u8])>) {
        match RecordKeyFields::decode(s) {
            None => None,
            Some(((collection, rkey), rest)) => Some((RecordMutationDelete { collection, rkey }, rest)),
        }
    }

    fn duplicate(&self) -> (r: RecordMutationDelete) {
        RecordMutationDelete { collection: self.collection.clone(), rkey: self.rkey.clone() }
    }
}

/// The key of a record.
pub open spec fn record_key_bytes(hash: u64, collection: Seq<char>, rkey: Seq<char>) -> Seq<u8> {
    seq![KeyTag::Records.byte()] + be8(hash) + escaped(encode_utf8(collection)) + escaped(
        encode_utf8(rkey),
    )
}

pub fn record_key(user_hash: UserHash, collection: &str, rkey: &str) -> (r: Vec<u8>)
    ensures
        r@ == record_key_bytes(user_hash@, collection@, rkey@),
{
    let r: Vec<u8> = KeyBuilder::new().tag(KeyTag::Records.raw()).u64(user_hash.raw()).string(
        collection,
    ).string(rkey).build();
    assert(r@ =~= record_key_bytes(user_hash@, collection@, rkey@));
    r
}

/// The writes of some records: each one's content identifier under its key.
pub open spec fn record_writes(hash: u64, records: Seq<RecordPut>) -> Seq<WriteView> {
    records.map_values(
        |p: RecordPut|
            WriteView::Put {
                key: record_key_bytes(hash, p.collection, p.rkey),
                value: p.cid_bytes,
            },
    )
}

/// The writes that delete some records.
pub open spec fn record_removals(hash: u64, records: Seq<RecordKeyView>) -> Seq<WriteView> {
    records.map_values(
        |p: RecordKeyView|
            WriteView::Remove { key: record_key_bytes(hash, p.collection, p.rkey) },
    )
}

/// Stages records.
pub fn upsert_records(
    batch: &mut Vec<Write>,
    user_hash: UserHash,
    records: &Vec<RecordMutationUpsert>,
)
    ensures
        final(batch).deep_view() == old(batch).deep_view() + record_writes(
            user_hash@,
            records.deep_view(),
        ),
{
    let ghost start = batch.deep_view();
    let ghost all = records.deep_view();
    let ghost goal = record_writes(user_hash@, all);
    let mut i: usize = 0;
    assert(batch.deep_view() =~= start + goal.take(0));
    while i < records.len()
        invariant
            i <= records@.len(),
            all == records.deep_view(),
            goal == record_writes(user_hash@, all),
            batch.deep_view() == start + goal.take(i as int),
        decreases records.len() - i,
    {
        let p: &RecordMutationUpsert = &records[i];
        let ghost before = batch.deep_view();
        let value: Vec<u8> = crate::bytes::copy_bytes(p.cid_bytes.as_slice());
        batch.push(
            Write::Put {
                key: record_key(user_hash, p.collection.as_str(), p.rkey.as_str()),
                value,
            },
        );
        proof {
            assert(all[i as int].cid_bytes =~= value@);
            assert(batch.deep_view() =~= before.push(goal[i as int]));
            assert(goal.take(i + 1) =~= goal.take(i as int).push(goal[i as int]));
            assert(batch.deep_view() =~= start + goal.take(i + 1));
        }
        i = i + 1;
    }
    assert(goal.take(i as int) =~= goal);
}

/// Stages the deletion of records.
pub fn delete_records(
    batch: &mut Vec<Write>,
    user_hash: UserHash,
    records: &Vec<RecordMutationDelete>,
)
    ensures
        final(batch).deep_view() == old(batch).deep_view() + record_removals(
            user_hash@,
            records.deep_view(),
        ),
{
    let ghost start = batch.deep_view();
    let ghost all = records.deep_view();
    let ghost goal = record_removals(user_hash@, all);
    let mut i: usize = 0;
    assert(batch.deep_view() =~= start + goal.take(0));
    while i < records.len()
        invariant
            i <= records@.len(),
            all == records.deep_view(),
            goal == record_removals(user_hash@, all),
            batch.deep_view() == start + goal.take(i as int),
        decreases records.len() - i,
    {
        let p: &RecordMutationDelete = &records[i];
        let ghost before = batch.deep_view();
        batch.push(
            Write::Remove { key: record_key(user_hash, p.collection.as_str(), p.rkey.as_str()) },
        );
        proof {
            assert(batch.deep_view() =~= before.push(goal[i as int]));
            assert(goal.take(i + 1) =~= goal.take(i as int).push(goal[i as int]));
            assert(batch.deep_view() =~= start + goal.take(i + 1));
        }
        i = i + 1;
    }
    assert(goal.take(i as int) =~= goal);
}

/// The content identifier of a record.
pub open spec fn record_at(
    rows: Rows,
    hashes: UserHashes,
    user_id: Uuid,
    collection: Seq<char>,
    rkey: Seq<char>,
) -> Result<Option<Seq<u8>>, MetastoreError> {
    match hash_of(hashes, user_id) {
        None => Err(MetastoreError::InvalidInput("unknown user_id")),
        Some(hash) => match lookup(rows, record_key_bytes(hash, collection, rkey)) {
            None => Ok(None),
            Some(b) => if is_cid(b) {
                Ok(Some(b))
            } else {
                Err(MetastoreError::CorruptData("invalid CID bytes"))
            },
        },
    }
}

/// Looks a record up.
pub fn get_record_cid(
    repo_data: &Keyspace,
    user_hashes: &UserHashMap,
    user_id: Uuid,
    collection: &str,
    rkey: &str,
) -> (r: Result<Option<CidLink>, MetastoreError>)
    ensures
        viewed(r) == record_at(repo_data@.rows, user_hashes@, user_id, collection@, rkey@),
{
    match user_hashes.get(&user_id) {
        None => Err(MetastoreError::InvalidInput("unknown user_id")),
        Some(hash) => match repo_data.get(record_key(hash, collection, rkey).as_slice()) {
            None => Ok(None),
            Some(b) => match CidLink::from_bytes(b.as_slice()) {
                Some(c) => Ok(Some(c)),
                None => Err(MetastoreError::CorruptData("invalid CID bytes")),
            },
        },
    }
}

} // verus!
