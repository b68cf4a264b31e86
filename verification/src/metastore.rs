//! The store: its partitions, and what is kept in memory beside them.

use vstd::prelude::*;

use crate::encoding::{be8, be8_round_trip, be_value, push_be, read_be8};
use crate::errors::MetastoreError;
use crate::keys::KeyTag;
use crate::partitions::Partition;
use crate::store::{prefix_keys, scan, Keyspace, KeyspaceView, Row, Write, WriteView};
use crate::user_hash::{hashes_in, UserHashMap, UserHashes};

verus! {

/// The version of the format that the store reads and writes.
pub const CURRENT_FORMAT_VERSION: u64 = 1;

pub struct Metastore {
    pub repo_data: Keyspace,
    pub indexes: Keyspace,
    pub users: Keyspace,
    pub infra: Keyspace,
    pub auth: Keyspace,
    pub signal: Keyspace,
    pub user_hashes: UserHashMap,
    /// Tells messages that are queued in the same millisecond apart.
    pub comms_seq: u32,
}

#[verifier::ext_equal]
pub struct MetastoreView {
    pub repo_data: KeyspaceView,
    pub indexes: KeyspaceView,
    pub users: KeyspaceView,
    pub infra: KeyspaceView,
    pub auth: KeyspaceView,
    pub signal: KeyspaceView,
    pub user_hashes: UserHashes,
    pub comms_seq: u32,
}

impl View for Metastore {
    type V = MetastoreView;

    open spec fn view(&self) -> MetastoreView {
        MetastoreView {
            repo_data: self.repo_data@,
            indexes: self.indexes@,
            users: self.users@,
            infra: self.infra@,
            auth: self.auth@,
            signal: self.signal@,
            user_hashes: self.user_hashes@,
            comms_seq: self.comms_seq,
        }
    }
}

impl MetastoreView {
    pub open spec fn partition(self, p: Partition) -> KeyspaceView {
        match p {
            Partition::RepoData => self.repo_data,
            Partition::Indexes => self.indexes,
            Partition::Users => self.users,
            Partition::Infra => self.infra,
            Partition::Auth => self.auth,
            Partition::Signal => self.signal,
        }
    }
}

pub open spec fn version_key() -> Seq<u8> {
    seq![KeyTag::FormatVersion.byte()]
}

/// Why the store cannot work with the format version that is recorded, if it cannot.
pub open spec fn version_problem(recorded: Option<Seq<u8>>) -> Option<MetastoreError> {
    match recorded {
        None => None,
        Some(v) => if v.len() != 8 {
            Some(MetastoreError::CorruptData("format version not 8 bytes"))
        } else if be_value(v) != CURRENT_FORMAT_VERSION {
            Some(
                MetastoreError::VersionMismatch {
                    expected: CURRENT_FORMAT_VERSION,
                    found: be_value(v) as u64,
                },
            )
        } else {
            None
        },
    }
}

/// The repository partition once its format version is recorded.
pub open spec fn with_version(repo_data: KeyspaceView) -> KeyspaceView {
    match repo_data.get(version_key()) {
        Some(v) => repo_data,
        None => repo_data.commit(
            seq![WriteView::Put { key: version_key(), value: be8(CURRENT_FORMAT_VERSION) }],
        ),
    }
}

/// The rows that map hashes to users.
pub open spec fn user_hash_rows(repo_data: KeyspaceView) -> Seq<crate::store::RowView> {
    scan(repo_data.rows, prefix_keys(seq![KeyTag::UserHash.byte()]))
}

/// A store that has recorded its format version can be opened again.
pub proof fn recorded_version_is_accepted(repo_data: KeyspaceView)
    requires
        version_problem(repo_data.get(version_key())) is None,
    ensures
        version_problem(with_version(repo_data).get(version_key())) is None,
        with_version(repo_data).get(version_key()) is Some,
        with_version(with_version(repo_data)) == with_version(repo_data),
{
    be8_round_trip(CURRENT_FORMAT_VERSION);
    crate::store::write_one(
        repo_data.rows,
        WriteView::Put { key: version_key(), value: be8(CURRENT_FORMAT_VERSION) },
    );
}

/// Checks the format version that a partition records, and records it where there is none.
pub fn check_or_write_version(repo_data: &mut Keyspace) -> (r: Result<(), MetastoreError>)
    ensures
        match version_problem(old(repo_data)@.get(version_key())) {
            Some(e) => r == Err::<(), MetastoreError>(e) && final(repo_data)@ == old(repo_data)@,
            None => r is Ok && final(repo_data)@ == with_version(old(repo_data)@),
        },
{
    let key: Vec<u8> = vec![KeyTag::FormatVersion.raw()];
    assert(key@ =~= version_key());
    match repo_data.get(key.as_slice()) {
        Some(existing) => {
            if existing.len() != 8 {
                return Err(MetastoreError::CorruptData("format version not 8 bytes"));
            }
            let found: u64 = read_be8(existing.as_slice());
            if found == CURRENT_FORMAT_VERSION {
                Ok(())
            } else {
                Err(MetastoreError::VersionMismatch { expected: CURRENT_FORMAT_VERSION, found })
            }
        },
        None => {
            let mut value: Vec<u8> = Vec::new();
            push_be(&mut value, CURRENT_FORMAT_VERSION, 8);
            assert(value@ =~= be8(CURRENT_FORMAT_VERSION));
            let batch: Vec<Write> = vec![Write::Put { key, value }];
            assert(batch.deep_view() =~= seq![
                WriteView::Put { key: version_key(), value: be8(CURRENT_FORMAT_VERSION) },
            ]);
            repo_data.commit(batch);
            Ok(())
        },
    }
}

impl Metastore {
    /// Opens a store on its partitions: checks the format version, and loads the hashes of
    /// its users.
    pub fn open(
        repo_data: Keyspace,
        indexes: Keyspace,
        users: Keyspace,
        infra: Keyspace,
        auth: Keyspace,
        signal: Keyspace,
    ) -> (r: Result<Metastore, MetastoreError>)
        ensures
            match version_problem(repo_data@.get(version_key())) {
                Some(e) => r is Err && r->Err_0 == e,
                None => match hashes_in(user_hash_rows(with_version(repo_data@))) {
                    Err(e) => r is Err && r->Err_0 == e,
                    Ok(hashes) => r is Ok && r->Ok_0@ == (MetastoreView {
                        repo_data: with_version(repo_data@),
                        indexes: indexes@,
                        users: users@,
                        infra: infra@,
                        auth: auth@,
                        signal: signal@,
                        user_hashes: hashes,
                        comms_seq: 0,
                    }),
                },
            },
    {
        let mut repo_data: Keyspace = repo_data;
        match check_or_write_version(&mut repo_data) {
            Err(e) => {
                return Err(e);
            },
            Ok(()) => {},
        }
        let prefix: Vec<u8> = vec![KeyTag::UserHash.raw()];
        assert(prefix@ =~= seq![KeyTag::UserHash.byte()]);
        let rows: Vec<Row> = repo_data.prefix(prefix.as_slice());
        match UserHashMap::load(&rows) {
            Err(e) => Err(e),
            Ok(user_hashes) => Ok(
                Metastore {
                    repo_data,
                    indexes,
                    users,
                    infra,
                    auth,
                    signal,
                    user_hashes,
                    comms_seq: 0,
                },
            ),
        }
    }

    /// A partition of the store.
    pub fn partition(&self, p: Partition) -> (r: &Keyspace)
        ensures
            r@ == self@.partition(p),
    {
        match p {
            Partition::RepoData => &self.repo_data,
            Partition::Indexes => &self.indexes,
            Partition::Users => &self.users,
            Partition::Infra => &self.infra,
            Partition::Auth => &self.auth,
            Partition::Signal => &self.signal,
        }
    }

    pub fn user_hashes(&self) -> (r: &UserHashMap)
        ensures
            r@ == self@.user_hashes,
    {
        &self.user_hashes
    }
}

} // verus!
