//! Recovery: the changes that a commit makes to the store, and making them again from the
//! event log.

use vstd::prelude::*;

use crate::backlinks::{add_backlinks, link_writes, remove_backlinks_by_uri, unlink_writes};
use crate::backlinks::{BacklinkMutation, Link};
use crate::codec::{framed, framed_round_trip, frame, unframe, unframed, unframed_fits, Field};
use crate::errors::MetastoreError;
use crate::keys::UserHash;
use crate::records::{delete_records, record_removals, record_writes, upsert_records};
use crate::records::{RecordKeyView, RecordMutationDelete, RecordMutationUpsert, RecordPut};
use crate::repo_meta::{repo_meta_key, repo_meta_key_bytes, RepoMeta, RepoMetaValue};
use crate::store::{Keyspace, Rows, Write, WriteView};
use crate::user_blocks::{block_removals, block_writes, delete_user_blocks, insert_user_blocks};

verus! {

/// The schema version of a mutation set.
pub const SCHEMA_VERSION: u8 = 1;

/// The changes that a commit makes.
#[derive(Debug, PartialEq, Eq)]
pub struct CommitMutationSet {
    pub new_root_cid: Vec<u8>,
    pub new_rev: String,
    pub record_upserts: Vec<RecordMutationUpsert>,
    pub record_deletes: Vec<RecordMutationDelete>,
    pub block_inserts: Vec<Vec<u8>>,
    pub block_deletes: Vec<Vec<u8>>,
    pub backlink_adds: Vec<BacklinkMutation>,
    pub backlink_remove_uris: Vec<String>,
}

#[verifier::ext_equal]
pub struct MutationSet {
    pub new_root_cid: Seq<u8>,
    pub new_rev: Seq<char>,
    pub record_upserts: Seq<RecordPut>,
    pub record_deletes: Seq<RecordKeyView>,
    pub block_inserts: Seq<Seq<u8>>,
    pub block_deletes: Seq<Seq<u8>>,
    pub backlink_adds: Seq<Link>,
    pub backlink_remove_uris: Seq<Seq<char>>,
}

impl DeepView for CommitMutationSet {
    type V = MutationSet;

    open spec fn deep_view(&self) -> MutationSet {
        MutationSet {
            new_root_cid: self.new_root_cid.deep_view(),
            new_rev: self.new_rev@,
            record_upserts: self.record_upserts.deep_view(),
            record_deletes: self.record_deletes.deep_view(),
            block_inserts: self.block_inserts.deep_view(),
            block_deletes: self.block_deletes.deep_view(),
            backlink_adds: self.backlink_adds.deep_view(),
            backlink_remove_uris: self.backlink_remove_uris.deep_view(),
        }
    }
}

/// The fields of a mutation set in the order in which they are stored.
pub type MutationSetFields = (Vec<u8>, (String, (Vec<RecordMutationUpsert>, (Vec<RecordMutationDelete>, (Vec<Vec<u8>>, (Vec<Vec<u8>>, (Vec<BacklinkMutation>, Vec<String>)))))));

impl MutationSet {
    pub open spec fn fields(self) -> <MutationSetFields as DeepView>::V {
        (self.new_root_cid, (self.new_rev, (self.record_upserts, (self.record_deletes, (self.block_inserts, (self.block_deletes, (self.backlink_adds, self.backlink_remove_uris)))))))
    }

    pub open spec fn of(f: <MutationSetFields as DeepView>::V) -> MutationSet {
        MutationSet {
            new_root_cid: f.0,
            new_rev: (f.1).0,
            record_upserts: ((f.1).1).0,
            record_deletes: (((f.1).1).1).0,
            block_inserts: ((((f.1).1).1).1).0,
            block_deletes: (((((f.1).1).1).1).1).0,
            backlink_adds: ((((((f.1).1).1).1).1).1).0,
            backlink_remove_uris: ((((((f.1).1).1).1).1).1).1,
        }
    }

    /// The stored value.
    #[verifier::opaque]
    pub open spec fn stored(self) -> Seq<u8> {
        framed::<MutationSetFields>(SCHEMA_VERSION, self.fields())
    }

    /// Reads a stored value.
    #[verifier::opaque]
    pub open spec fn read(s: Seq<u8>) -> Option<MutationSet> {
        match unframed::<MutationSetFields>(SCHEMA_VERSION, s) {
            Some(f) => Some(MutationSet::of(f)),
            None => None,
        }
    }

    /// No field is longer than a machine can hold.
    pub open spec fn fits(self) -> bool {
        MutationSetFields::fits(self.fields())
    }

    /// A value is read back as it was written.
    pub proof fn round_trip(self)
        requires
            self.fits(),
        ensures
            MutationSet::read(self.stored()) == Some(self),
    {
        reveal(MutationSet::stored);
        reveal(MutationSet::read);
        framed_round_trip::<MutationSetFields>(SCHEMA_VERSION, self.fields());
    }

    /// A value that was read from stored bytes is no longer than a machine can hold.
    pub proof fn read_fits(s: Seq<u8>)
        requires
            s.len() <= usize::MAX,
        ensures
            MutationSet::read(s) matches Some(v) ==> v.fits(),
    {
        reveal(MutationSet::stored);
        reveal(MutationSet::read);
        unframed_fits::<MutationSetFields>(SCHEMA_VERSION, s);
    }
}

impl CommitMutationSet {
    pub fn serialize(&self) -> (r: Vec<u8>)
        ensures
            r@ == self.deep_view().stored(),
    {
        proof {
            reveal(MutationSet::stored);
        }
        let fields: MutationSetFields = (self.new_root_cid.duplicate(), (self.new_rev.clone(), (self.record_upserts.duplicate(), (self.record_deletes.duplicate(), (self.block_inserts.duplicate(), (self.block_deletes.duplicate(), (self.backlink_adds.duplicate(), self.backlink_remove_uris.duplicate())))))));
        assert(fields.deep_view() == self.deep_view().fields());
        frame::<MutationSetFields>(SCHEMA_VERSION, &fields)
    }

    pub fn deserialize(bytes: &[u8]) -> (r: Option<CommitMutationSet>)
        ensures
            match MutationSet::read(bytes@) {
                Some(v) => r is Some && r->0.deep_view() == v,
                None => r is None,
            },
    {
        proof {
            reveal(MutationSet::read);
        }
        match unframe::<MutationSetFields>(SCHEMA_VERSION, bytes) {
            None => None,
            Some((new_root_cid, (new_rev, (record_upserts, (record_deletes, (block_inserts, (block_deletes, (backlink_adds, backlink_remove_uris)))))))) => Some(
                CommitMutationSet { new_root_cid, new_rev, record_upserts, record_deletes, block_inserts, block_deletes, backlink_adds, backlink_remove_uris },
            ),
        }
    }
}

/// A repository row after a commit.
pub open spec fn committed_meta(meta: RepoMeta, ms: MutationSet) -> RepoMeta {
    RepoMeta { repo_root_cid: ms.new_root_cid, repo_rev: ms.new_rev, ..meta }
}

/// The writes of a commit to the repository partition.
pub open spec fn repo_writes(hash: u64, meta: RepoMeta, ms: MutationSet) -> Seq<WriteView> {
    seq![
        WriteView::Put {
            key: repo_meta_key_bytes(hash),
            value: committed_meta(meta, ms).stored(),
        },
    ] + record_writes(hash, ms.record_upserts) + record_removals(hash, ms.record_deletes)
        + block_writes(hash, ms.block_inserts, ms.new_rev) + block_removals(hash, ms.block_deletes)
}

/// The writes of a commit to the index partition.
pub open spec fn backlink_writes(indexes: Rows, hash: u64, ms: MutationSet) -> Result<
    Seq<WriteView>,
    MetastoreError,
> {
    match unlink_writes(indexes, hash, ms.backlink_remove_uris) {
        Err(e) => Err(e),
        Ok(ws) => Ok(ws + link_writes(hash, ms.backlink_adds)),
    }
}

proof fn unlink_writes_error(indexes: Rows, hash: u64, uris: Seq<Seq<char>>, n: int)
    requires
        0 <= n <= uris.len(),
        unlink_writes(indexes, hash, uris.take(n)) is Err,
    ensures
        unlink_writes(indexes, hash, uris) == unlink_writes(indexes, hash, uris.take(n)),
    decreases uris.len() - n,
{
    if n < uris.len() {
        assert(uris.take(n + 1).drop_last() =~= uris.take(n));
        unlink_writes_error(indexes, hash, uris, n + 1);
    } else {
        assert(uris.take(n) =~= uris);
    }
}

/// Stages the changes of a commit: those to the repository partition, and those to the
/// index partition.
pub fn replay_mutation_set(
    repo_batch: &mut Vec<Write>,
    index_batch: &mut Vec<Write>,
    indexes: &Keyspace,
    user_hash: UserHash,
    meta: RepoMetaValue,
    ms: &CommitMutationSet,
) -> (r: Result<(), MetastoreError>)
    ensures
        match backlink_writes(indexes@.rows, user_hash@, ms.deep_view()) {
            Ok(ws) => r is Ok && final(index_batch).deep_view() == old(index_batch).deep_view() + ws
                && final(repo_batch).deep_view() == old(repo_batch).deep_view() + repo_writes(
                user_hash@,
                meta.deep_view(),
                ms.deep_view(),
            ),
            Err(e) => r is Err && r->Err_0 == e,
        },
{
    let ghost hash = user_hash@;
    let ghost mv = ms.deep_view();
    let ghost rows = indexes@.rows;
    let ghost repo_start = repo_batch.deep_view();
    let updated = RepoMetaValue {
        repo_root_cid: ms.new_root_cid.duplicate(),
        repo_rev: ms.new_rev.clone(),
        ..meta
    };
    assert(updated.deep_view() == committed_meta(meta.deep_view(), mv));
    repo_batch.push(Write::Put { key: repo_meta_key(user_hash), value: updated.serialize() });
    let ghost first = seq![
        WriteView::Put {
            key: repo_meta_key_bytes(hash),
            value: committed_meta(meta.deep_view(), mv).stored(),
        },
    ];
    assert(repo_batch.deep_view() =~= repo_start + first);
    upsert_records(repo_batch, user_hash, &ms.record_upserts);
    delete_records(repo_batch, user_hash, &ms.record_deletes);
    insert_user_blocks(repo_batch, user_hash, &ms.block_inserts, ms.new_rev.as_str());
    delete_user_blocks(repo_batch, user_hash, &ms.block_deletes);
    assert(repo_batch.deep_view() =~= repo_start + repo_writes(hash, meta.deep_view(), mv));

    let ghost start = index_batch.deep_view();
    let ghost uris = ms.backlink_remove_uris.deep_view();
    let mut i: usize = 0;
    assert(uris.take(0) =~= Seq::empty());
    assert(index_batch.deep_view() =~= start + Seq::<WriteView>::empty());
    while i < ms.backlink_remove_uris.len()
        invariant
            i <= ms.backlink_remove_uris@.len(),
            uris == ms.backlink_remove_uris.deep_view(),
            rows == indexes@.rows,
            hash == user_hash@,
            mv == ms.deep_view(),
            uris == mv.backlink_remove_uris,
            unlink_writes(rows, hash, uris.take(i as int)) is Ok,
            index_batch.deep_view() == start + unlink_writes(rows, hash, uris.take(i as int))->Ok_0,
        decreases ms.backlink_remove_uris.len() - i,
    {
        assert(uris.take(i + 1).drop_last() =~= uris.take(i as int));
        let ghost done = unlink_writes(rows, hash, uris.take(i as int))->Ok_0;
        match remove_backlinks_by_uri(
            index_batch,
            indexes,
            user_hash,
            ms.backlink_remove_uris[i].as_str(),
        ) {
            Err(e) => {
                proof {
                    unlink_writes_error(rows, hash, uris, i + 1);
                }
                return Err(e);
            },
            Ok(()) => {
                proof {
                    let more = crate::backlinks::unlink_uri(rows, hash, uris[i as int])->Ok_0;
                    assert(index_batch.deep_view() == (start + done) + more);
                    assert((start + done) + more =~= start + (done + more));
                }
            },
        }
        i = i + 1;
    }
    assert(uris.take(i as int) =~= uris);
    let ghost gone = unlink_writes(rows, hash, uris)->Ok_0;
    add_backlinks(index_batch, user_hash, &ms.backlink_adds);
    assert(index_batch.deep_view() =~= start + (gone + link_writes(hash, mv.backlink_adds)));
    Ok(())
}

} // verus!
