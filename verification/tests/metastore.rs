use tranquil_metastore::errors::{metastore_to_db, DbError, MetastoreError};
use tranquil_metastore::keys::{KeyTag, UserHash};
use tranquil_metastore::metastore::Metastore;
use tranquil_metastore::partitions::Partition;
use tranquil_metastore::store::{Keyspace, Write};
use tranquil_metastore::types::Uuid;

/// What the partitions hold between two openings.
struct Disk {
    partitions: Vec<Keyspace>,
}

impl Disk {
    fn new() -> Disk {
        Disk {
            partitions: (0..6).map(|_| Keyspace::new()).collect(),
        }
    }

    fn load(&self, i: usize) -> Keyspace {
        let mut out = Keyspace::new();
        out.commit(
            self.partitions[i]
                .prefix(&[])
                .into_iter()
                .map(|row| Write::Put {
                    key: row.key,
                    value: row.value,
                })
                .collect(),
        );
        out.take_journal();
        out
    }

    fn open(&self) -> Result<Metastore, MetastoreError> {
        Metastore::open(
            self.load(0),
            self.load(1),
            self.load(2),
            self.load(3),
            self.load(4),
            self.load(5),
        )
    }

    fn persist(&mut self, ms: &mut Metastore) {
        let journals = vec![
            ms.repo_data.take_journal(),
            ms.indexes.take_journal(),
            ms.users.take_journal(),
            ms.infra.take_journal(),
            ms.auth.take_journal(),
            ms.signal.take_journal(),
        ];
        for (k, journal) in self.partitions.iter_mut().zip(journals) {
            k.commit(journal);
        }
    }
}

fn new_uuid() -> Uuid {
    Uuid {
        bits: uuid::Uuid::new_v4().as_u128(),
    }
}

#[test]
fn open_fresh_directory_succeeds() {
    let ms = Disk::new().open().unwrap();
    assert_eq!(ms.user_hashes().len(), 0);
}

#[test]
fn all_partitions_accessible() {
    let ms = Disk::new().open().unwrap();
    Partition::all().iter().for_each(|&p| {
        let _ = ms.partition(p);
    });
}

#[test]
fn partitions_have_their_own_names_and_indexes() {
    let all = Partition::all();
    assert_eq!(all.len(), 6);
    let names: Vec<&str> = all.iter().map(|p| p.name()).collect();
    for (i, p) in all.iter().enumerate() {
        assert_eq!(p.index(), i);
        assert_eq!(names.iter().filter(|n| **n == p.name()).count(), 1);
    }
}

#[test]
fn reopen_preserves_partitions() {
    let mut disk = Disk::new();

    {
        let mut ms = disk.open().unwrap();
        ms.repo_data.commit(vec![Write::Put {
            key: b"test_key".to_vec(),
            value: b"test_value".to_vec(),
        }]);
        disk.persist(&mut ms);
    }

    {
        let ms = disk.open().unwrap();
        let repo_data = ms.partition(Partition::RepoData);
        let val = repo_data.get(b"test_key").unwrap();
        assert_eq!(val.as_slice(), b"test_value");
    }
}

#[test]
fn version_mismatch_returns_error() {
    let mut disk = Disk::new();

    {
        let mut ms = disk.open().unwrap();
        let version_key = [KeyTag::FormatVersion.raw()];
        ms.repo_data.commit(vec![Write::Put {
            key: version_key.to_vec(),
            value: 999u64.to_be_bytes().to_vec(),
        }]);
        disk.persist(&mut ms);
    }

    {
        let result = disk.open();
        assert!(matches!(
            result,
            Err(MetastoreError::VersionMismatch {
                expected: 1,
                found: 999
            })
        ));
    }
}

#[test]
fn broken_version_is_corrupt() {
    let mut disk = Disk::new();
    let mut ms = disk.open().unwrap();
    ms.repo_data.commit(vec![Write::Put {
        key: vec![KeyTag::FormatVersion.raw()],
        value: vec![1, 2],
    }]);
    disk.persist(&mut ms);
    assert!(matches!(disk.open(), Err(MetastoreError::CorruptData(_))));
}

#[test]
fn user_hash_mappings_survive_reopen() {
    let mut disk = Disk::new();
    let uuid = new_uuid();
    let hash = UserHash::from_did("did:plc:survivor");

    {
        let mut ms = disk.open().unwrap();
        let write = ms.user_hashes.stage_insert(uuid, hash).unwrap();
        ms.repo_data.commit(vec![write]);
        disk.persist(&mut ms);
    }

    {
        let ms = disk.open().unwrap();
        assert_eq!(ms.user_hashes().len(), 1);
        assert_eq!(ms.user_hashes().get(&uuid), Some(hash));
        assert_eq!(ms.user_hashes().get_uuid(&hash), Some(uuid));
    }
}

#[test]
fn second_user_with_the_same_hash_is_refused() {
    let mut ms = Disk::new().open().unwrap();
    let first = Uuid { bits: 1 };
    let second = Uuid { bits: 2 };
    let hash = UserHash::from_raw(77);
    ms.user_hashes.stage_insert(first, hash).unwrap();
    ms.user_hashes.stage_insert(first, hash).unwrap();
    let refused = ms.user_hashes.stage_insert(second, hash);
    assert_eq!(
        refused,
        Err(MetastoreError::UserHashCollision {
            hash: 77,
            existing_uuid: first,
            new_uuid: second
        })
    );
    assert_eq!(ms.user_hashes().get(&second), None);
}

#[test]
fn user_hash_is_the_siphash_of_the_did() {
    let did = "did:plc:testuser1234567890abcdef";
    let expected = siphasher::sip::SipHasher24::new().hash(did.as_bytes());
    assert_eq!(UserHash::from_did(did).raw(), expected);
    assert_ne!(UserHash::from_did("did:plc:other").raw(), expected);
    assert_eq!(UserHash::from_did("").raw(), 0x1e924b9d737700d7);
    assert_eq!(UserHash::from_raw(5).raw(), 5);
}

#[test]
fn errors_have_texts() {
    assert_eq!(
        MetastoreError::VersionMismatch {
            expected: 1,
            found: 999
        }
        .message(),
        "format version mismatch: expected 1, found 999"
    );
    assert_eq!(
        MetastoreError::CorruptData("x").message(),
        "corrupt data: x"
    );
    assert_eq!(
        MetastoreError::InvalidInput("x").message(),
        "invalid input: x"
    );
    assert_eq!(
        MetastoreError::Fjall("x".to_string()).message(),
        "fjall: x"
    );
    assert_eq!(MetastoreError::Lsm("x".to_string()).message(), "lsm: x");
    assert_eq!(
        MetastoreError::UniqueViolation("x").message(),
        "unique constraint violated: x"
    );
    assert_eq!(
        MetastoreError::UserHashCollision {
            hash: 0xAB,
            existing_uuid: Uuid { bits: 1 },
            new_uuid: Uuid { bits: 2 },
        }
        .message(),
        "user hash collision: hash 00000000000000ab maps to both \
         00000000-0000-0000-0000-000000000001 and 00000000-0000-0000-0000-000000000002"
    );
}

#[test]
fn clients_see_each_kind_of_error() {
    assert_eq!(
        metastore_to_db(MetastoreError::Fjall("disk".to_string())),
        DbError::Query("disk".to_string())
    );
    assert_eq!(
        metastore_to_db(MetastoreError::Lsm("tree".to_string())),
        DbError::Query("tree".to_string())
    );
    assert_eq!(
        metastore_to_db(MetastoreError::VersionMismatch {
            expected: 1,
            found: 2
        }),
        DbError::Query("format version mismatch: expected 1, found 2".to_string())
    );
    assert_eq!(
        metastore_to_db(MetastoreError::CorruptData("x")),
        DbError::CorruptData("x")
    );
    assert_eq!(
        metastore_to_db(MetastoreError::InvalidInput("x")),
        DbError::Query("x".to_string())
    );
    assert_eq!(
        metastore_to_db(MetastoreError::UserHashCollision {
            hash: 0xAB,
            existing_uuid: Uuid { bits: 1 },
            new_uuid: Uuid { bits: 2 },
        }),
        DbError::Constraint(
            "user hash collision: 00000000000000ab maps to both \
             00000000-0000-0000-0000-000000000001 and 00000000-0000-0000-0000-000000000002"
                .to_string()
        )
    );
    assert_eq!(
        metastore_to_db(MetastoreError::UniqueViolation("handle")),
        DbError::Constraint("unique constraint violated: handle".to_string())
    );
}
