//! Commits to repositories, imports, and what is still missing of repositories.

use vstd::prelude::*;
use vstd::utf8::encode_utf8;

use crate::backlinks::{path_to_discriminant, BacklinkMutation, BacklinkPath, Link};
use crate::bytes::copy_bytes;
use crate::clock::{is_timestamp, now_millis};
use crate::codec::{framed, framed_round_trip, frame, unframe, unframed, unframed_fits, Field};
use crate::encoding::{be8, be8_round_trip, be_value, escaped, KeyBuilder, KeyReader};
use crate::errors::{viewed, MetastoreError};
use crate::event_ops::{build_commit_event, commit_event, index_writes, stage_index, EventOps};
use crate::eventlog::{appended, max_seq, EventLog};
use crate::events::{CommitEvent, CommitEventData, Entry};
use crate::events::SequencedEvent;
use crate::keys::{KeyTag, UserHash};
use crate::metastore::{Metastore, MetastoreView};
use crate::records::{record_writes, upsert_records, RecordKeyView, RecordMutationDelete};
use crate::records::{RecordMutationUpsert, RecordPut};
use crate::recovery::{backlink_writes, replay_mutation_set, repo_writes, CommitMutationSet};
use crate::recovery::MutationSet;
use crate::repo_meta::{repo_meta_key, repo_meta_key_bytes, repo_meta_prefix, RepoMeta};
use crate::repo_meta::{RepoMetaValue, RepoStatus};
use crate::repo_ops::{bytes_to_cid_link, cid_of, non_empty_rev, some_rev};
use crate::scan::{collect, collect_items, count_limit, limit_of, Contribution, Reader};
use crate::store::{lookup, prefix_keys, scan, Keyspace, Row, RowView, Rows, Write};
use crate::store::WriteView;
use crate::text::{decimal, push_decimal};
use crate::types::{is_cid, CidLink, Did, SequenceNumber, Uuid};
use crate::user_blocks::{user_block_prefix_bytes, user_block_user_prefix};
use crate::user_hash::{hash_of, uuid_of, UserHashMap, UserHashes};
use vstd::string::*;

verus! {

/// The schema version of the blobs of a record.
pub const RECORD_BLOBS_SCHEMA_VERSION: u8 = 1;

/// How many users a scan for users without blocks returns at most.
pub const MAX_USERS_WITHOUT_BLOCKS: usize = 10_000;

/// A record that a commit writes.
#[derive(Debug, PartialEq, Eq)]
pub struct RecordUpsert {
    pub collection: String,
    pub rkey: String,
    pub cid: CidLink,
}

#[verifier::ext_equal]
pub struct UpsertInput {
    pub collection: Seq<char>,
    pub rkey: Seq<char>,
    pub cid: Seq<u8>,
}

impl DeepView for RecordUpsert {
    type V = UpsertInput;

    open spec fn deep_view(&self) -> UpsertInput {
        UpsertInput {
            collection: self.collection@,
            rkey: self.rkey@,
            cid: self.cid.deep_view(),
        }
    }
}

/// A link that a commit adds.
#[derive(Debug, PartialEq, Eq)]
pub struct Backlink {
    pub uri: String,
    pub path: BacklinkPath,
    pub link_to: String,
}

#[verifier::ext_equal]
pub struct LinkInput {
    pub uri: Seq<char>,
    pub path: BacklinkPath,
    pub link_to: Seq<char>,
}

impl DeepView for Backlink {
    type V = LinkInput;

    open spec fn deep_view(&self) -> LinkInput {
        LinkInput {
            uri: self.uri@,
            path: self.path,
            link_to: self.link_to@,
        }
    }
}

/// A commit to a user's repository. Where a root is expected, the commit is refused unless the
/// repository is at it.
#[derive(Debug, PartialEq, Eq)]
pub struct ApplyCommitInput {
    pub user_id: Uuid,
    pub did: Did,
    pub expected_root_cid: Option<CidLink>,
    pub new_root_cid: CidLink,
    pub new_rev: String,
    pub new_block_cids: Vec<Vec<u8>>,
    pub obsolete_block_cids: Vec<Vec<u8>>,
    pub record_upserts: Vec<RecordUpsert>,
    pub record_deletes: Vec<RecordMutationDelete>,
    pub backlinks_to_add: Vec<Backlink>,
    pub backlinks_to_remove: Vec<String>,
    pub commit_event: CommitEventData,
}

#[verifier::ext_equal]
pub struct CommitInput {
    pub user_id: Uuid,
    pub did: Seq<char>,
    pub expected_root_cid: Option<Seq<u8>>,
    pub new_root_cid: Seq<u8>,
    pub new_rev: Seq<char>,
    pub new_block_cids: Seq<Seq<u8>>,
    pub obsolete_block_cids: Seq<Seq<u8>>,
    pub record_upserts: Seq<UpsertInput>,
    pub record_deletes: Seq<RecordKeyView>,
    pub backlinks_to_add: Seq<LinkInput>,
    pub backlinks_to_remove: Seq<Seq<char>>,
    pub commit_event: CommitEvent,
}

impl DeepView for ApplyCommitInput {
    type V = CommitInput;

    open spec fn deep_view(&self) -> CommitInput {
        CommitInput {
            user_id: self.user_id,
            did: self.did.deep_view(),
            expected_root_cid: self.expected_root_cid.deep_view(),
            new_root_cid: self.new_root_cid.deep_view(),
            new_rev: self.new_rev@,
            new_block_cids: self.new_block_cids.deep_view(),
            obsolete_block_cids: self.obsolete_block_cids.deep_view(),
            record_upserts: self.record_upserts.deep_view(),
            record_deletes: self.record_deletes.deep_view(),
            backlinks_to_add: self.backlinks_to_add.deep_view(),
            backlinks_to_remove: self.backlinks_to_remove.deep_view(),
            commit_event: self.commit_event.deep_view(),
        }
    }
}

/// A block of an imported repository.
#[derive(Debug, PartialEq, Eq)]
pub struct ImportBlock {
    pub cid_bytes: Vec<u8>,
    pub data: Vec<u8>,
}

#[verifier::ext_equal]
pub struct BlockInput {
    pub cid_bytes: Seq<u8>,
    pub data: Seq<u8>,
}

impl DeepView for ImportBlock {
    type V = BlockInput;

    open spec fn deep_view(&self) -> BlockInput {
        BlockInput {
            cid_bytes: self.cid_bytes.deep_view(),
            data: self.data.deep_view(),
        }
    }
}

/// A record of an imported repository.
#[derive(Debug, PartialEq, Eq)]
pub struct ImportRecord {
    pub collection: String,
    pub rkey: String,
    pub record_cid: CidLink,
}

#[verifier::ext_equal]
pub struct ImportedRecord {
    pub collection: Seq<char>,
    pub rkey: Seq<char>,
    pub record_cid: Seq<u8>,
}

impl DeepView for ImportRecord {
    type V = ImportedRecord;

    open spec fn deep_view(&self) -> ImportedRecord {
        ImportedRecord {
            collection: self.collection@,
            rkey: self.rkey@,
            record_cid: self.record_cid.deep_view(),
        }
    }
}

/// A user whose records' blobs are not known yet.
#[derive(Debug, PartialEq, Eq)]
pub struct UserNeedingRecordBlobsBackfill {
    pub user_id: Uuid,
    pub did: Did,
}

#[verifier::ext_equal]
pub struct BackfillUser {
    pub user_id: Uuid,
    pub did: Seq<char>,
}

impl DeepView for UserNeedingRecordBlobsBackfill {
    type V = BackfillUser;

    open spec fn deep_view(&self) -> BackfillUser {
        BackfillUser {
            user_id: self.user_id,
            did: self.did.deep_view(),
        }
    }
}

/// A user whose blocks are not known.
#[derive(Debug, PartialEq, Eq)]
pub struct UserWithoutBlocks {
    pub user_id: Uuid,
    pub repo_root_cid: CidLink,
    pub repo_rev: Option<String>,
}

#[verifier::ext_equal]
pub struct BlocklessUser {
    pub user_id: Uuid,
    pub repo_root_cid: Seq<u8>,
    pub repo_rev: Option<Seq<char>>,
}

impl DeepView for UserWithoutBlocks {
    type V = BlocklessUser;

    open spec fn deep_view(&self) -> BlocklessUser {
        BlocklessUser {
            user_id: self.user_id,
            repo_root_cid: self.repo_root_cid.deep_view(),
            repo_rev: self.repo_rev.deep_view(),
        }
    }
}

/// The blobs that a record names.
#[derive(Debug, PartialEq, Eq)]
pub struct RecordBlobsValue {
    pub blob_cid_bytes: Vec<Vec<u8>>,
}

#[verifier::ext_equal]
pub struct RecordBlobs {
    pub blob_cid_bytes: Seq<Seq<u8>>,
}

impl DeepView for RecordBlobsValue {
    type V = RecordBlobs;

    open spec fn deep_view(&self) -> RecordBlobs {
        RecordBlobs {
            blob_cid_bytes: self.blob_cid_bytes.deep_view(),
        }
    }
}

/// What is stored of a record's blobs.
pub type RecordBlobsFields = Vec<Vec<u8>>;

impl RecordBlobs {
    pub open spec fn fields(self) -> <RecordBlobsFields as DeepView>::V {
        self.blob_cid_bytes
    }

    pub open spec fn of(f: <RecordBlobsFields as DeepView>::V) -> RecordBlobs {
        RecordBlobs {
            blob_cid_bytes: f,
        }
    }

    /// The stored value.
    #[verifier::opaque]
    pub open spec fn stored(self) -> Seq<u8> {
        framed::<RecordBlobsFields>(RECORD_BLOBS_SCHEMA_VERSION, self.fields())
    }

    /// Reads a stored value.
    #[verifier::opaque]
    pub open spec fn read(s: Seq<u8>) -> Option<RecordBlobs> {
        match unframed::<RecordBlobsFields>(RECORD_BLOBS_SCHEMA_VERSION, s) {
            Some(f) => Some(RecordBlobs::of(f)),
            None => None,
        }
    }

    /// No field is longer than a machine can hold.
    pub open spec fn fits(self) -> bool {
        RecordBlobsFields::fits(self.fields())
    }

    /// A value is read back as it was written.
    pub proof fn round_trip(self)
        requires
            self.fits(),
        ensures
            RecordBlobs::read(self.stored()) == Some(self),
    {
        reveal(RecordBlobs::stored);
        reveal(RecordBlobs::read);
        framed_round_trip::<RecordBlobsFields>(RECORD_BLOBS_SCHEMA_VERSION, self.fields());
    }

    /// A value that was read from stored bytes is no longer than a machine can hold.
    pub proof fn read_fits(s: Seq<u8>)
        requires
            s.len() <= usize::MAX,
        ensures
            RecordBlobs::read(s) matches Some(v) ==> v.fits(),
    {
        reveal(RecordBlobs::stored);
        reveal(RecordBlobs::read);
        unframed_fits::<RecordBlobsFields>(RECORD_BLOBS_SCHEMA_VERSION, s);
    }
}

impl RecordBlobsValue {
    pub fn serialize(&self) -> (r: Vec<u8>)
        ensures
            r@ == self.deep_view().stored(),
    {
        proof {
            reveal(RecordBlobs::stored);
        }
        let fields: RecordBlobsFields = self.blob_cid_bytes.duplicate();
        assert(fields.deep_view() == self.deep_view().fields());
        frame::<RecordBlobsFields>(RECORD_BLOBS_SCHEMA_VERSION, &fields)
    }

    pub fn deserialize(bytes: &[u8]) -> (r: Option<RecordBlobsValue>)
        ensures
            match RecordBlobs::read(bytes@) {
                Some(v) => r is Some && r->0.deep_view() == v,
                None => r is None,
            },
    {
        proof {
            reveal(RecordBlobs::read);
        }
        match unframe::<RecordBlobsFields>(RECORD_BLOBS_SCHEMA_VERSION, bytes) {
            None => None,
            Some(blob_cid_bytes) => Some(
                RecordBlobsValue { blob_cid_bytes },
            ),
        }
    }
}

/// Why a commit was refused.
#[derive(Debug, PartialEq, Eq)]
pub enum ApplyCommitError {
    RepoNotFound,
    ConcurrentModification,
    Database(String),
}

/// Why an import was refused.
#[derive(Debug, PartialEq, Eq)]
pub enum ImportRepoError {
    RepoNotFound,
    ConcurrentModification,
    Database(String),
}

/// Why a change to a repository was refused.
pub enum Refusal {
    RepoNotFound,
    ConcurrentModification,
    Database(Seq<char>),
}

impl View for ApplyCommitError {
    type V = Refusal;

    open spec fn view(&self) -> Refusal {
        match self {
            ApplyCommitError::RepoNotFound => Refusal::RepoNotFound,
            ApplyCommitError::ConcurrentModification => Refusal::ConcurrentModification,
            ApplyCommitError::Database(m) => Refusal::Database(m@),
        }
    }
}

impl View for ImportRepoError {
    type V = Refusal;

    open spec fn view(&self) -> Refusal {
        match self {
            ImportRepoError::RepoNotFound => Refusal::RepoNotFound,
            ImportRepoError::ConcurrentModification => Refusal::ConcurrentModification,
            ImportRepoError::Database(m) => Refusal::Database(m@),
        }
    }
}

/// What a commit tells of the account.
#[derive(Debug, Clone, Copy, PartialEq, Eq, Structural)]
pub struct ApplyCommitResult {
    pub is_account_active: bool,
}

/// The store and the event log, as the keeper of repositories.
pub struct CommitOps<'a> {
    pub store: &'a mut Metastore,
    pub log: &'a mut EventLog,
}

#[verifier::ext_equal]
pub struct CommitState {
    pub store: MetastoreView,
    pub log: Seq<Entry>,
}

impl<'a> View for CommitOps<'a> {
    type V = CommitState;

    open spec fn view(&self) -> CommitState {
        CommitState { store: self.store@, log: self.log@ }
    }
}

impl Metastore {
    pub fn commit_ops<'b>(&'b mut self, log: &'b mut EventLog) -> (r: CommitOps<'b>)
        ensures
            *r.store == *old(self),
            *r.log == *old(log),
            *final(r.store) == *final(self),
            *final(r.log) == *final(log),
    {
        CommitOps { store: self, log }
    }
}

/// The changes that a commit makes.
pub open spec fn mutations_of(input: CommitInput) -> MutationSet {
    MutationSet {
        new_root_cid: input.new_root_cid,
        new_rev: input.new_rev,
        record_upserts: input.record_upserts.map_values(
            |u: UpsertInput|
                RecordPut { collection: u.collection, rkey: u.rkey, cid_bytes: u.cid },
        ),
        record_deletes: input.record_deletes,
        block_inserts: input.new_block_cids,
        block_deletes: input.obsolete_block_cids,
        backlink_adds: input.backlinks_to_add.map_values(
            |l: LinkInput| Link { uri: l.uri, path: l.path.number(), link_to: l.link_to },
        ),
        backlink_remove_uris: input.backlinks_to_remove,
    }
}

/// A user's repository row, or why a change to the repository is refused: there is none, or
/// it is not at the expected root.
pub open spec fn current_repo(s: MetastoreView, user_id: Uuid, expected: Option<Seq<u8>>) -> Result<
    (u64, RepoMeta),
    Refusal,
> {
    match hash_of(s.user_hashes, user_id) {
        None => Err(Refusal::RepoNotFound),
        Some(hash) => match lookup(s.repo_data.rows, repo_meta_key_bytes(hash)) {
            None => Err(Refusal::RepoNotFound),
            Some(b) => match RepoMeta::read(b) {
                None => Err(Refusal::RepoNotFound),
                Some(meta) => match expected {
                    None => Ok((hash, meta)),
                    Some(root) => if !is_cid(meta.repo_root_cid) {
                        Err(
                            Refusal::Database(
                                MetastoreError::CorruptData("invalid CID bytes").text(),
                            ),
                        )
                    } else if meta.repo_root_cid != root {
                        Err(Refusal::ConcurrentModification)
                    } else {
                        Ok((hash, meta))
                    },
                },
            },
        },
    }
}

/// A commit: its outcome, and the state after it. A refused commit changes nothing.
pub open spec fn commit_outcome(s: CommitState, input: CommitInput, now: i64) -> (
    Result<bool, Refusal>,
    CommitState,
) {
    match current_repo(s.store, input.user_id, input.expected_root_cid) {
        Err(e) => (Err(e), s),
        Ok((hash, meta)) => {
            let ms = mutations_of(input);
            match backlink_writes(s.store.indexes.rows, hash, ms) {
                Err(e) => (Err(Refusal::Database(e.text())), s),
                Ok(links) => if max_seq(s.log) == i64::MAX {
                    (Err(Refusal::Database("event log is full"@)), s)
                } else {
                    let seq = (max_seq(s.log) + 1) as i64;
                    let event = input.commit_event;
                    (
                        Ok(meta.status == RepoStatus::Active),
                        CommitState {
                            store: MetastoreView {
                                repo_data: s.store.repo_data.commit(
                                    repo_writes(hash, meta, ms) + index_writes(
                                        event.did,
                                        event.rev,
                                        seq as u64,
                                    ),
                                ),
                                indexes: s.store.indexes.commit(links),
                                ..s.store
                            },
                            log: appended(s.log, commit_event(event, now), Some(ms.stored())),
                        },
                    )
                },
            }
        },
    }
}

/// The records of an import, as they are written.
pub open spec fn imported(records: Seq<ImportedRecord>) -> Seq<RecordPut> {
    records.map_values(
        |r: ImportedRecord|
            RecordPut { collection: r.collection, rkey: r.rkey, cid_bytes: r.record_cid },
    )
}

/// The first block whose content identifier is not 36 bytes long.
pub open spec fn bad_block(blocks: Seq<BlockInput>) -> Option<nat>
    decreases blocks.len(),
{
    if blocks.len() == 0 {
        None
    } else if blocks[0].cid_bytes.len() != 36 {
        Some(blocks[0].cid_bytes.len())
    } else {
        bad_block(blocks.skip(1))
    }
}

pub open spec fn bad_block_text(n: nat) -> Seq<char> {
    "block CID has invalid length: "@ + decimal(n) + " (expected 36)"@
}

/// The user whose repository takes an import, or why the import is refused. Blocks are
/// looked at only where they are to be stored.
pub open spec fn import_plan(
    s: MetastoreView,
    user_id: Uuid,
    blocks: Seq<BlockInput>,
    expected: Option<Seq<u8>>,
    store_blocks: bool,
) -> Result<u64, Refusal> {
    match current_repo(s, user_id, expected) {
        Err(e) => Err(e),
        Ok((hash, meta)) => match bad_block(blocks) {
            Some(n) => if store_blocks {
                Err(Refusal::Database(bad_block_text(n)))
            } else {
                Ok(hash)
            },
            None => Ok(hash),
        },
    }
}

pub open spec fn record_blobs_prefix_bytes(hash: u64) -> Seq<u8> {
    seq![KeyTag::RecordBlobs.byte()] + be8(hash)
}

pub open spec fn record_blobs_key_bytes(hash: u64, uri: Seq<char>) -> Seq<u8> {
    record_blobs_prefix_bytes(hash) + escaped(encode_utf8(uri))
}

fn record_blobs_key(user_hash: UserHash, uri: &str) -> (r: Vec<u8>)
    ensures
        r@ == record_blobs_key_bytes(user_hash@, uri@),
{
    let r: Vec<u8> = KeyBuilder::new().tag(KeyTag::RecordBlobs.raw()).u64(user_hash.raw()).string(
        uri,
    ).build();
    assert(r@ =~= record_blobs_key_bytes(user_hash@, uri@));
    r
}

pub fn record_blobs_user_prefix(user_hash: UserHash) -> (r: Vec<u8>)
    ensures
        r@ == record_blobs_prefix_bytes(user_hash@),
{
    let r: Vec<u8> = KeyBuilder::new().tag(KeyTag::RecordBlobs.raw()).u64(user_hash.raw()).build();
    assert(r@ =~= record_blobs_prefix_bytes(user_hash@));
    r
}

/// The writes that give records the same blobs.
pub open spec fn record_blob_writes(
    hash: u64,
    uris: Seq<Seq<char>>,
    blobs: Seq<Seq<u8>>,
) -> Seq<WriteView> {
    uris.map_values(
        |uri: Seq<char>|
            WriteView::Put {
                key: record_blobs_key_bytes(hash, uri),
                value: (RecordBlobs { blob_cid_bytes: blobs }).stored(),
            },
    )
}

/// The user's hash in a repository row's key.
pub open spec fn user_hash_in_key(key: Seq<u8>) -> Option<u64> {
    if key.len() >= 9 {
        Some(be_value(key.skip(1).take(8)) as u64)
    } else {
        None
    }
}

/// Reads the user's hash from a repository row's key.
pub fn parse_user_hash_from_key(key_bytes: &[u8]) -> (r: Option<UserHash>)
    ensures
        match user_hash_in_key(key_bytes@) {
            Some(h) => r is Some && r->0@ == h,
            None => r is None,
        },
{
    let mut reader: KeyReader<'_> = KeyReader::new(key_bytes);
    match reader.tag() {
        None => None,
        Some(_) => match reader.u64() {
            None => None,
            Some(h) => Some(UserHash::from_raw(h)),
        },
    }
}

/// The hash is read back from a repository row's key.
pub proof fn user_hash_key_round_trip(hash: u64)
    ensures
        user_hash_in_key(repo_meta_key_bytes(hash)) == Some(hash),
{
    be8_round_trip(hash);
    assert(repo_meta_key_bytes(hash).skip(1).take(8) =~= be8(hash));
}

/// Whether any row's key starts with a prefix.
pub open spec fn any_with_prefix(rows: Rows, prefix: Seq<u8>) -> bool {
    scan(rows, prefix_keys(prefix)).len() > 0
}

/// The user and the repository of a row, where the user has no row with a prefix of theirs.
pub open spec fn lacking(
    row: RowView,
    rows: Rows,
    hashes: UserHashes,
    prefix_of: spec_fn(u64) -> Seq<u8>,
) -> Contribution<(Uuid, RepoMeta)> {
    match user_hash_in_key(row.key) {
        None => Err(MetastoreError::CorruptData("invalid repo_meta key")),
        Some(hash) => if any_with_prefix(rows, prefix_of(hash)) {
            Ok(None)
        } else {
            match RepoMeta::read(row.value) {
                None => Err(MetastoreError::CorruptData("invalid repo_meta value")),
                Some(meta) => match uuid_of(hashes, hash) {
                    None => Err(MetastoreError::CorruptData("user_hash has no reverse mapping")),
                    Some(id) => Ok(Some((id, meta))),
                },
            }
        },
    }
}

pub open spec fn needs_backfill(row: RowView, rows: Rows, hashes: UserHashes) -> Contribution<
    BackfillUser,
> {
    match lacking(row, rows, hashes, |h: u64| record_blobs_prefix_bytes(h)) {
        Err(e) => Err(e),
        Ok(None) => Ok(None),
        Ok(Some((user_id, meta))) => match meta.did {
            None => Err(MetastoreError::CorruptData("repo_meta missing did field")),
            Some(did) => Ok(Some(BackfillUser { user_id, did })),
        },
    }
}

pub open spec fn lacks_blocks(row: RowView, rows: Rows, hashes: UserHashes) -> Contribution<
    BlocklessUser,
> {
    match lacking(row, rows, hashes, |h: u64| user_block_prefix_bytes(h)) {
        Err(e) => Err(e),
        Ok(None) => Ok(None),
        Ok(Some((user_id, meta))) => match cid_of(meta.repo_root_cid) {
            Err(e) => Err(e),
            Ok(root) => Ok(
                Some(
                    BlocklessUser {
                        user_id,
                        repo_root_cid: root,
                        repo_rev: some_rev(meta.repo_rev),
                    },
                ),
            ),
        },
    }
}

pub open spec fn all_repo_rows(rows: Rows) -> Seq<RowView> {
    scan(rows, prefix_keys(seq![KeyTag::RepoMeta.byte()]))
}

fn read_lacking(
    row: &Row,
    repo_data: &Keyspace,
    hashes: &UserHashMap,
    user_hash: UserHash,
    prefix: Vec<u8>,
    Ghost(prefix_of): Ghost<spec_fn(u64) -> Seq<u8>>,
) -> (r: Result<Option<(Uuid, RepoMetaValue)>, MetastoreError>)
    requires
        user_hash_in_key(row.key@) == Some(user_hash@),
        prefix@ == prefix_of(user_hash@),
    ensures
        viewed(r) == lacking(row.deep_view(), repo_data@.rows, hashes@, prefix_of),
{
    let present: Vec<Row> = repo_data.prefix(prefix.as_slice());
    if present.len() > 0 {
        return Ok(None);
    }
    match RepoMetaValue::deserialize(row.value.as_slice()) {
        None => Err(MetastoreError::CorruptData("invalid repo_meta value")),
        Some(meta) => match hashes.get_uuid(&user_hash) {
            None => Err(MetastoreError::CorruptData("user_hash has no reverse mapping")),
            Some(id) => Ok(Some((id, meta))),
        },
    }
}

struct BackfillUsers<'b> {
    repo_data: &'b Keyspace,
    hashes: &'b UserHashMap,
}

impl<'b> Reader for BackfillUsers<'b> {
    type In = Row;

    type Item = UserNeedingRecordBlobsBackfill;

    closed spec fn reading(&self) -> spec_fn(RowView) -> Contribution<BackfillUser> {
        |row: RowView| needs_backfill(row, self.repo_data@.rows, self.hashes@)
    }

    fn read(&self, row: &Row) -> (r: Contribution<UserNeedingRecordBlobsBackfill>) {
        let user_hash: UserHash = match parse_user_hash_from_key(row.key.as_slice()) {
            Some(h) => h,
            None => {
                return Err(MetastoreError::CorruptData("invalid repo_meta key"));
            },
        };
        let prefix: Vec<u8> = record_blobs_user_prefix(user_hash);
        let found = read_lacking(
            row,
            self.repo_data,
            self.hashes,
            user_hash,
            prefix,
            Ghost(|h: u64| record_blobs_prefix_bytes(h)),
        );
        match found {
            Err(e) => Err(e),
            Ok(None) => Ok(None),
            Ok(Some((user_id, meta))) => match meta.did {
                None => Err(MetastoreError::CorruptData("repo_meta missing did field")),
                Some(did) => Ok(
                    Some(UserNeedingRecordBlobsBackfill { user_id, did: Did::from(did) }),
                ),
            },
        }
    }
}

struct BlocklessUsers<'b> {
    repo_data: &'b Keyspace,
    hashes: &'b UserHashMap,
}

impl<'b> Reader for BlocklessUsers<'b> {
    type In = Row;

    type Item = UserWithoutBlocks;

    closed spec fn reading(&self) -> spec_fn(RowView) -> Contribution<BlocklessUser> {
        |row: RowView| lacks_blocks(row, self.repo_data@.rows, self.hashes@)
    }

    fn read(&self, row: &Row) -> (r: Contribution<UserWithoutBlocks>) {
        let user_hash: UserHash = match parse_user_hash_from_key(row.key.as_slice()) {
            Some(h) => h,
            None => {
                return Err(MetastoreError::CorruptData("invalid repo_meta key"));
            },
        };
        let prefix: Vec<u8> = user_block_user_prefix(user_hash);
        let found = read_lacking(
            row,
            self.repo_data,
            self.hashes,
            user_hash,
            prefix,
            Ghost(|h: u64| user_block_prefix_bytes(h)),
        );
        match found {
            Err(e) => Err(e),
            Ok(None) => Ok(None),
            Ok(Some((user_id, meta))) => {
                assert(meta.repo_root_cid.deep_view() =~= meta.repo_root_cid@);
                match bytes_to_cid_link(meta.repo_root_cid.as_slice()) {
                    Err(e) => Err(e),
                    Ok(root) => Ok(
                        Some(
                            UserWithoutBlocks {
                                user_id,
                                repo_root_cid: root,
                                repo_rev: non_empty_rev(meta.repo_rev),
                            },
                        ),
                    ),
                }
            },
        }
    }
}

/// The changes of a commit, to be recorded with its event.
pub fn build_mutation_set(input: &ApplyCommitInput) -> (r: CommitMutationSet)
    ensures
        r.deep_view() == mutations_of(input.deep_view()),
{
    let ghost iv = input.deep_view();
    let mut upserts: Vec<RecordMutationUpsert> = Vec::new();
    let mut i: usize = 0;
    while i < input.record_upserts.len()
        invariant
            i <= input.record_upserts@.len(),
            iv == input.deep_view(),
            upserts@.len() == i,
            forall|k: int|
                0 <= k < i ==> (#[trigger] upserts@[k]).deep_view() == mutations_of(
                    iv,
                ).record_upserts[k],
        decreases input.record_upserts.len() - i,
    {
        let u: &RecordUpsert = &input.record_upserts[i];
        let cid_bytes: Vec<u8> = u.cid.to_bytes();
        assert(cid_bytes.deep_view() =~= u.cid@);
        let upsert = RecordMutationUpsert {
            collection: u.collection.clone(),
            rkey: u.rkey.clone(),
            cid_bytes,
        };
        assert(upsert.deep_view() == mutations_of(iv).record_upserts[i as int]);
        upserts.push(upsert);
        i = i + 1;
    }
    assert(upserts.deep_view() =~= mutations_of(iv).record_upserts);
    let mut adds: Vec<BacklinkMutation> = Vec::new();
    let mut j: usize = 0;
    while j < input.backlinks_to_add.len()
        invariant
            j <= input.backlinks_to_add@.len(),
            iv == input.deep_view(),
            adds@.len() == j,
            forall|k: int|
                0 <= k < j ==> (#[trigger] adds@[k]).deep_view() == mutations_of(iv).backlink_adds[k],
        decreases input.backlinks_to_add.len() - j,
    {
        let l: &Backlink = &input.backlinks_to_add[j];
        let add = BacklinkMutation {
            uri: l.uri.clone(),
            path: path_to_discriminant(l.path),
            link_to: l.link_to.clone(),
        };
        assert(add.deep_view() == mutations_of(iv).backlink_adds[j as int]);
        adds.push(add);
        j = j + 1;
    }
    assert(adds.deep_view() =~= mutations_of(iv).backlink_adds);
    let root: Vec<u8> = input.new_root_cid.to_bytes();
    assert(root.deep_view() =~= iv.new_root_cid);
    CommitMutationSet {
        new_root_cid: root,
        new_rev: input.new_rev.clone(),
        record_upserts: upserts,
        record_deletes: input.record_deletes.duplicate(),
        block_inserts: input.new_block_cids.duplicate(),
        block_deletes: input.obsolete_block_cids.duplicate(),
        backlink_adds: adds,
        backlink_remove_uris: input.backlinks_to_remove.duplicate(),
    }
}

/// The outcome of looking for a user's repository.
enum Found {
    Repo(UserHash, RepoMetaValue),
    NotFound,
    Moved,
    Broken(String),
}

impl Found {
    spec fn outcome(self) -> Result<(u64, RepoMeta), Refusal> {
        match self {
            Found::Repo(hash, meta) => Ok((hash@, meta.deep_view())),
            Found::NotFound => Err(Refusal::RepoNotFound),
            Found::Moved => Err(Refusal::ConcurrentModification),
            Found::Broken(m) => Err(Refusal::Database(m@)),
        }
    }
}

fn find_repo(store: &Metastore, user_id: Uuid, expected: Option<&CidLink>) -> (r: Found)
    ensures
        r.outcome() == current_repo(
            store@,
            user_id,
            match expected {
                Some(c) => Some(c@),
                None => None,
            },
        ),
{
    let hash: UserHash = match store.user_hashes.get(&user_id) {
        Some(h) => h,
        None => {
            return Found::NotFound;
        },
    };
    let meta: RepoMetaValue = match store.repo_data.get(repo_meta_key(hash).as_slice()) {
        None => {
            return Found::NotFound;
        },
        Some(raw) => match RepoMetaValue::deserialize(raw.as_slice()) {
            None => {
                return Found::NotFound;
            },
            Some(m) => m,
        },
    };
    assert(meta.repo_root_cid.deep_view() =~= meta.repo_root_cid@);
    match expected {
        None => Found::Repo(hash, meta),
        Some(root) => match bytes_to_cid_link(meta.repo_root_cid.as_slice()) {
            Err(e) => Found::Broken(e.message()),
            Ok(current) => {
                if current.same(root) {
                    Found::Repo(hash, meta)
                } else {
                    Found::Moved
                }
            },
        },
    }
}

impl<'a> EventOps<'a> {
    /// Appends the event of a commit to the log, with the changes that the commit makes, and
    /// stages its index rows.
    pub fn append_commit_event_into_batch(
        &mut self,
        batch: &mut Vec<Write>,
        data: &CommitEventData,
        mutation_set_bytes: Option<&[u8]>,
    ) -> (r: Option<SequenceNumber>)
        ensures
            exists|now: i64| #[trigger]
                is_timestamp(now as int) && (max_seq(old(self)@.log) < i64::MAX ==> final(self)@.log
                    == appended(
                    old(self)@.log,
                    commit_event(data.deep_view(), now),
                    crate::json::json_bytes(mutation_set_bytes),
                )),
            max_seq(old(self)@.log) < i64::MAX ==> r is Some && r->0@ == max_seq(old(self)@.log) + 1
                && final(batch).deep_view() == old(batch).deep_view() + index_writes(
                data.did@,
                data.rev.deep_view(),
                r->0@ as u64,
            ),
            max_seq(old(self)@.log) == i64::MAX ==> r is None && final(self)@.log == old(self)@.log
                && final(batch).deep_view() == old(batch).deep_view(),
            final(self)@.repo_data == old(self)@.repo_data,
            *final(final(self).repo_data) == *final(old(self).repo_data),
            *final(final(self).log) == *final(old(self).log),
    {
        let now: i64 = now_millis();
        assert(is_timestamp(now as int));
        let event: SequencedEvent = build_commit_event(data, now);
        append_with_index(self.log, batch, &event, data, mutation_set_bytes)
    }
}

/// Appends the event of a commit to a log and stages its index rows.
fn append_with_index(
    log: &mut EventLog,
    batch: &mut Vec<Write>,
    event: &SequencedEvent,
    data: &CommitEventData,
    mutation_set_bytes: Option<&[u8]>,
) -> (r: Option<SequenceNumber>)
    ensures
        max_seq(old(log)@) < i64::MAX ==> r is Some && r->0@ == max_seq(old(log)@) + 1 && final(log)@ == appended(
            old(log)@,
            event.deep_view(),
            crate::json::json_bytes(mutation_set_bytes),
        ) && final(batch).deep_view() == old(batch).deep_view() + index_writes(
            data.did@,
            data.rev.deep_view(),
            r->0@ as u64,
        ),
        max_seq(old(log)@) == i64::MAX ==> r is None && final(log)@ == old(log)@ && final(batch).deep_view() == old(batch).deep_view(),
{
    match log.append(event, mutation_set_bytes) {
        None => None,
        Some(seq) => {
            let rev: Option<&str> = match &data.rev {
                Some(r) => Some(r.as_str()),
                None => None,
            };
            stage_index(batch, data.did.as_str(), rev, seq.as_i64() as u64);
            Some(seq)
        },
    }
}

impl<'a> CommitOps<'a> {
    /// Applies a commit to a user's repository.
    pub fn apply_commit(&mut self, input: ApplyCommitInput) -> (r: Result<
        ApplyCommitResult,
        ApplyCommitError,
    >)
        ensures
            exists|now: i64| #[trigger]
                is_timestamp(now as int) && (outcome_of(r), final(self)@) == commit_outcome(
                    old(self)@,
                    input.deep_view(),
                    now,
                ),
            r is Ok ==> ({
                let e = final(self)@.log.last().event;
                &&& e.did == input.commit_event.did@
                &&& e.event_type == input.commit_event.event_type
                &&& e.commit_cid == input.commit_event.commit_cid.deep_view()
                &&& e.prev_cid == input.commit_event.prev_cid.deep_view()
                &&& e.prev_data_cid == input.commit_event.prev_data_cid.deep_view()
                &&& e.ops == input.commit_event.ops.deep_view()
                &&& e.blobs == input.commit_event.blobs.deep_view()
                &&& e.blocks == input.commit_event.blocks.deep_view()
                &&& e.rev == input.commit_event.rev.deep_view()
            }),
            *final(final(self).store) == *final(old(self).store),
            *final(final(self).log) == *final(old(self).log),
    {
        let now: i64 = now_millis();
        assert(is_timestamp(now as int));
        self.apply_commit_at(&input, now)
    }

    /// Applies a commit at a given time.
    pub fn apply_commit_at(&mut self, input: &ApplyCommitInput, now: i64) -> (r: Result<
        ApplyCommitResult,
        ApplyCommitError,
    >)
        ensures
            (outcome_of(r), final(self)@) == commit_outcome(old(self)@, input.deep_view(), now),
            r is Ok ==> ({
                let e = final(self)@.log.last().event;
                &&& e.did == input.commit_event.did@
                &&& e.event_type == input.commit_event.event_type
                &&& e.commit_cid == input.commit_event.commit_cid.deep_view()
                &&& e.prev_cid == input.commit_event.prev_cid.deep_view()
                &&& e.prev_data_cid == input.commit_event.prev_data_cid.deep_view()
                &&& e.ops == input.commit_event.ops.deep_view()
                &&& e.blobs == input.commit_event.blobs.deep_view()
                &&& e.blocks == input.commit_event.blocks.deep_view()
                &&& e.rev == input.commit_event.rev.deep_view()
            }),
            *final(final(self).store) == *final(old(self).store),
            *final(final(self).log) == *final(old(self).log),
    {
        let expected: Option<&CidLink> = match &input.expected_root_cid {
            Some(c) => Some(c),
            None => None,
        };
        match find_repo(&*self.store, input.user_id, expected) {
            Found::NotFound => Err(ApplyCommitError::RepoNotFound),
            Found::Moved => Err(ApplyCommitError::ConcurrentModification),
            Found::Broken(m) => Err(ApplyCommitError::Database(m)),
            Found::Repo(user_hash, meta) => {
                let ghost mv = meta.deep_view();
                let is_active: bool = meta.status.is_active();
                let ms: CommitMutationSet = build_mutation_set(input);
                let ms_bytes: Vec<u8> = ms.serialize();
                let mut repo_batch: Vec<Write> = Vec::new();
                let mut index_batch: Vec<Write> = Vec::new();
                let staged = replay_mutation_set(
                    &mut repo_batch,
                    &mut index_batch,
                    &self.store.indexes,
                    user_hash,
                    meta,
                    &ms,
                );
                match staged {
                    Err(e) => {
                        return Err(ApplyCommitError::Database(e.message()));
                    },
                    Ok(()) => {},
                }
                let ghost changes = repo_writes(user_hash@, mv, ms.deep_view());
                assert(repo_batch.deep_view() =~= changes);
                let event: SequencedEvent = build_commit_event(&input.commit_event, now);
                let seq = append_with_index(
                    self.log,
                    &mut repo_batch,
                    &event,
                    &input.commit_event,
                    Some(ms_bytes.as_slice()),
                );
                match seq {
                    None => {
                        return Err(ApplyCommitError::Database("event log is full".to_owned()));
                    },
                    Some(_) => {},
                }
                assert(index_batch.deep_view() =~= backlink_writes(
                    old(self)@.store.indexes.rows,
                    user_hash@,
                    ms.deep_view(),
                )->Ok_0);
                self.store.repo_data.commit(repo_batch);
                self.store.indexes.commit(index_batch);
                Ok(ApplyCommitResult { is_account_active: is_active })
            },
        }
    }

    /// Checks that an import can be made. Where blocks are to be stored, their content
    /// identifiers have to be 36 bytes long.
    pub fn plan_import(
        &self,
        user_id: Uuid,
        blocks: &Vec<ImportBlock>,
        expected_root_cid: Option<&CidLink>,
        store_blocks: bool,
    ) -> (r: Result<UserHash, ImportRepoError>)
        ensures
            match import_plan(
                self@.store,
                user_id,
                blocks.deep_view(),
                match expected_root_cid {
                    Some(c) => Some(c@),
                    None => None,
                },
                store_blocks,
            ) {
                Ok(hash) => r is Ok && r->Ok_0@ == hash,
                Err(e) => r is Err && r->Err_0@ == e,
            },
    {
        match find_repo(&*self.store, user_id, expected_root_cid) {
            Found::NotFound => Err(ImportRepoError::RepoNotFound),
            Found::Moved => Err(ImportRepoError::ConcurrentModification),
            Found::Broken(m) => Err(ImportRepoError::Database(m)),
            Found::Repo(user_hash, _) => match find_bad_block(blocks) {
                Some(n) => {
                    if store_blocks {
                        let mut m: String = "block CID has invalid length: ".to_owned();
                        push_decimal(&mut m, n as u64);
                        m.append(" (expected 36)");
                        Err(ImportRepoError::Database(m))
                    } else {
                        Ok(user_hash)
                    }
                },
                None => Ok(user_hash),
            },
        }
    }

    /// Writes the records of an import.
    pub fn import_records(&mut self, user_hash: UserHash, records: &Vec<ImportRecord>)
        ensures
            final(self)@ == (CommitState {
                store: MetastoreView {
                    repo_data: old(self)@.store.repo_data.commit(
                        record_writes(user_hash@, imported(records.deep_view())),
                    ),
                    ..old(self)@.store
                },
                ..old(self)@
            }),
            *final(final(self).store) == *final(old(self).store),
            *final(final(self).log) == *final(old(self).log),
    {
        let ghost goal = imported(records.deep_view());
        let mut upserts: Vec<RecordMutationUpsert> = Vec::new();
        let mut i: usize = 0;
        while i < records.len()
            invariant
                i <= records@.len(),
                goal == imported(records.deep_view()),
                upserts@.len() == i,
                forall|k: int| 0 <= k < i ==> (#[trigger] upserts@[k]).deep_view() == goal[k],
            decreases records.len() - i,
        {
            let record: &ImportRecord = &records[i];
            let cid_bytes: Vec<u8> = record.record_cid.to_bytes();
            assert(cid_bytes.deep_view() =~= record.record_cid@);
            let upsert = RecordMutationUpsert {
                collection: record.collection.clone(),
                rkey: record.rkey.clone(),
                cid_bytes,
            };
            assert(upsert.deep_view() == goal[i as int]);
            upserts.push(upsert);
            i = i + 1;
        }
        assert(upserts.deep_view() =~= goal);
        let mut batch: Vec<Write> = Vec::new();
        upsert_records(&mut batch, user_hash, &upserts);
        assert(batch.deep_view() =~= record_writes(user_hash@, goal));
        self.store.repo_data.commit(batch);
    }

    /// Imports the records of a repository.
    pub fn import_repo_data(
        &mut self,
        user_id: Uuid,
        blocks: &Vec<ImportBlock>,
        records: &Vec<ImportRecord>,
        expected_root_cid: Option<&CidLink>,
        store_blocks: bool,
    ) -> (r: Result<(), ImportRepoError>)
        ensures
            match import_plan(
                old(self)@.store,
                user_id,
                blocks.deep_view(),
                match expected_root_cid {
                    Some(c) => Some(c@),
                    None => None,
                },
                store_blocks,
            ) {
                Ok(hash) => r is Ok && final(self)@ == (CommitState {
                    store: MetastoreView {
                        repo_data: old(self)@.store.repo_data.commit(
                            record_writes(hash, imported(records.deep_view())),
                        ),
                        ..old(self)@.store
                    },
                    ..old(self)@
                }),
                Err(e) => r is Err && r->Err_0@ == e && final(self)@ == old(self)@,
            },
            *final(final(self).store) == *final(old(self).store),
            *final(final(self).log) == *final(old(self).log),
    {
        match self.plan_import(user_id, blocks, expected_root_cid, store_blocks) {
            Err(e) => Err(e),
            Ok(user_hash) => {
                self.import_records(user_hash, records);
                Ok(())
            },
        }
    }

    /// Records which blobs some of a user's records name.
    pub fn insert_record_blobs(
        &mut self,
        repo_id: Uuid,
        record_uris: &Vec<String>,
        blob_cids: &Vec<CidLink>,
    ) -> (r: Result<(), MetastoreError>)
        ensures
            match hash_of(old(self)@.store.user_hashes, repo_id) {
                None => r == Err::<(), MetastoreError>(
                    MetastoreError::InvalidInput("unknown user_id"),
                ) && final(self)@ == old(self)@,
                Some(hash) => r is Ok && final(self)@ == (CommitState {
                    store: MetastoreView {
                        repo_data: old(self)@.store.repo_data.commit(
                            record_blob_writes(
                                hash,
                                record_uris.deep_view(),
                                blob_cids.deep_view(),
                            ),
                        ),
                        ..old(self)@.store
                    },
                    ..old(self)@
                }),
            },
            *final(final(self).store) == *final(old(self).store),
            *final(final(self).log) == *final(old(self).log),
    {
        let user_hash: UserHash = match self.store.user_hashes.get(&repo_id) {
            Some(h) => h,
            None => {
                return Err(MetastoreError::InvalidInput("unknown user_id"));
            },
        };
        let ghost cids = blob_cids.deep_view();
        let mut blobs: Vec<Vec<u8>> = Vec::new();
        let mut i: usize = 0;
        while i < blob_cids.len()
            invariant
                i <= blob_cids@.len(),
                cids == blob_cids.deep_view(),
                blobs@.len() == i,
                forall|k: int| 0 <= k < i ==> (#[trigger] blobs@[k]).deep_view() == cids[k],
            decreases blob_cids.len() - i,
        {
            let b: Vec<u8> = blob_cids[i].to_bytes();
            assert(b.deep_view() =~= cids[i as int]);
            blobs.push(b);
            i = i + 1;
        }
        assert(blobs.deep_view() =~= cids);
        let value: Vec<u8> = (RecordBlobsValue { blob_cid_bytes: blobs }).serialize();
        let ghost uris = record_uris.deep_view();
        let ghost goal = record_blob_writes(user_hash@, uris, cids);
        let mut batch: Vec<Write> = Vec::new();
        let mut j: usize = 0;
        assert(batch.deep_view() =~= goal.take(0));
        while j < record_uris.len()
            invariant
                j <= record_uris@.len(),
                uris == record_uris.deep_view(),
                goal == record_blob_writes(user_hash@, uris, cids),
                value@ == (RecordBlobs { blob_cid_bytes: cids }).stored(),
                batch.deep_view() == goal.take(j as int),
            decreases record_uris.len() - j,
        {
            let ghost before = batch.deep_view();
            batch.push(
                Write::Put {
                    key: record_blobs_key(user_hash, record_uris[j].as_str()),
                    value: copy_bytes(value.as_slice()),
                },
            );
            assert(batch.deep_view() =~= before.push(goal[j as int]));
            assert(goal.take(j + 1) =~= goal.take(j as int).push(goal[j as int]));
            j = j + 1;
        }
        assert(goal.take(j as int) =~= goal);
        self.store.repo_data.commit(batch);
        Ok(())
    }

    /// Users whose records' blobs were never recorded.
    pub fn get_users_needing_record_blobs_backfill(&self, limit: i64) -> (r: Result<
        Vec<UserNeedingRecordBlobsBackfill>,
        MetastoreError,
    >)
        ensures
            viewed(r) == collect(
                all_repo_rows(self@.store.repo_data.rows),
                |row: RowView|
                    needs_backfill(row, self@.store.repo_data.rows, self@.store.user_hashes),
                count_limit(limit),
            ),
    {
        let rows: Vec<Row> = self.store.repo_data.prefix(repo_meta_prefix().as_slice());
        let reader = BackfillUsers {
            repo_data: &self.store.repo_data,
            hashes: &self.store.user_hashes,
        };
        assert(reader.reading() =~= |row: RowView|
            needs_backfill(row, self@.store.repo_data.rows, self@.store.user_hashes));
        collect_items(rows.as_slice(), &reader, limit_of(limit))
    }

    /// Users whose blocks were never recorded.
    pub fn get_users_without_blocks(&self) -> (r: Result<Vec<UserWithoutBlocks>, MetastoreError>)
        ensures
            viewed(r) == collect(
                all_repo_rows(self@.store.repo_data.rows),
                |row: RowView|
                    lacks_blocks(row, self@.store.repo_data.rows, self@.store.user_hashes),
                MAX_USERS_WITHOUT_BLOCKS as nat,
            ),
    {
        let rows: Vec<Row> = self.store.repo_data.prefix(repo_meta_prefix().as_slice());
        let reader = BlocklessUsers {
            repo_data: &self.store.repo_data,
            hashes: &self.store.user_hashes,
        };
        assert(reader.reading() =~= |row: RowView|
            lacks_blocks(row, self@.store.repo_data.rows, self@.store.user_hashes));
        collect_items(rows.as_slice(), &reader, MAX_USERS_WITHOUT_BLOCKS)
    }
}

/// What came of a commit: whether the account is active, or why it was refused.
pub open spec fn outcome_of(r: Result<ApplyCommitResult, ApplyCommitError>) -> Result<bool, Refusal> {
    match r {
        Ok(v) => Ok(v.is_account_active),
        Err(e) => Err(e@),
    }
}

fn find_bad_block(blocks: &Vec<ImportBlock>) -> (r: Option<usize>)
    ensures
        match bad_block(blocks.deep_view()) {
            Some(n) => r is Some && r->0 == n,
            None => r is None,
        },
{
    let ghost all = blocks.deep_view();
    let mut i: usize = 0;
    assert(all.skip(0) =~= all);
    while i < blocks.len()
        invariant
            i <= blocks@.len(),
            all == blocks.deep_view(),
            bad_block(all) == bad_block(all.skip(i as int)),
        decreases blocks.len() - i,
    {
        assert(all.skip(i as int)[0] == all[i as int]);
        assert(all.skip(i as int).skip(1) =~= all.skip(i + 1));
        let n: usize = blocks[i].cid_bytes.len();
        assert(all[i as int].cid_bytes.len() == n);
        if n != 36 {
            return Some(n);
        }
        i = i + 1;
    }
    None
}

} // verus!
