use tranquil_metastore::codec::Field;
use tranquil_metastore::encoding::KeyReader;
use tranquil_metastore::keys::{KeyTag, UserHash};
use tranquil_metastore::repo_meta::{
    handle_key, repo_meta_key, repo_meta_prefix, RepoMetaValue, RepoStatus, SCHEMA_VERSION,
};

fn minimal(status: RepoStatus) -> RepoMetaValue {
    RepoMetaValue {
        repo_root_cid: vec![0x01],
        repo_rev: "r".to_string(),
        handle: "h.test".to_string(),
        status,
        deactivated_at_ms: None,
        takedown_ref: None,
        did: None,
    }
}

#[test]
fn repo_meta_value_roundtrip() {
    let value = RepoMetaValue {
        repo_root_cid: vec![0x01, 0x71, 0x12, 0x20, 0xAB],
        repo_rev: "3k2a7bcd".to_string(),
        handle: "olaren.example.com".to_string(),
        status: RepoStatus::Active,
        deactivated_at_ms: None,
        takedown_ref: None,
        did: None,
    };
    let bytes = value.serialize();
    let decoded = RepoMetaValue::deserialize(&bytes).unwrap();
    assert_eq!(decoded, value);
}

#[test]
fn repo_meta_value_with_optional_fields() {
    let value = RepoMetaValue {
        repo_root_cid: vec![0x01],
        repo_rev: "rev1".to_string(),
        handle: "teq.example.com".to_string(),
        status: RepoStatus::Deactivated,
        deactivated_at_ms: Some(1700000000000),
        takedown_ref: Some("DMCA-123".to_string()),
        did: Some("did:plc:teq".to_string()),
    };
    let bytes = value.serialize();
    let decoded = RepoMetaValue::deserialize(&bytes).unwrap();
    assert_eq!(decoded, value);
}

#[test]
fn repo_meta_key_roundtrip() {
    let hash = UserHash::from_raw(0xDEAD_BEEF_CAFE_BABE);
    let key = repo_meta_key(hash);
    let mut reader = KeyReader::new(&key);
    assert_eq!(reader.tag(), Some(KeyTag::RepoMeta.raw()));
    assert_eq!(reader.u64(), Some(0xDEAD_BEEF_CAFE_BABE));
    assert!(reader.is_empty());
}

#[test]
fn repo_meta_keys_sort_by_user_hash() {
    let k1 = repo_meta_key(UserHash::from_raw(1));
    let k2 = repo_meta_key(UserHash::from_raw(2));
    let k3 = repo_meta_key(UserHash::from_raw(u64::MAX));
    assert!(k1.as_slice() < k2.as_slice());
    assert!(k2.as_slice() < k3.as_slice());
}

#[test]
fn repo_meta_keys_have_their_prefix() {
    let key = repo_meta_key(UserHash::from_raw(7));
    assert!(key.starts_with(&repo_meta_prefix()));
    assert!(!handle_key("h.test").starts_with(&repo_meta_prefix()));
}

#[test]
fn handle_key_roundtrip() {
    let key = handle_key("olaren.example.com");
    let mut reader = KeyReader::new(&key);
    assert_eq!(reader.tag(), Some(KeyTag::Handles.raw()));
    assert_eq!(reader.string(), Some("olaren.example.com".to_string()));
    assert!(reader.is_empty());
}

#[test]
fn handle_keys_sort_lexicographically() {
    let k1 = handle_key("lyna.example.com");
    let k2 = handle_key("teq.example.com");
    assert!(k1.as_slice() < k2.as_slice());
}

#[test]
fn all_repo_statuses_roundtrip() {
    [
        RepoStatus::Active,
        RepoStatus::Takendown,
        RepoStatus::Suspended,
        RepoStatus::Deactivated,
        RepoStatus::Deleted,
    ]
    .iter()
    .for_each(|&status| {
        let value = minimal(status);
        let decoded = RepoMetaValue::deserialize(&value.serialize()).unwrap();
        assert_eq!(decoded.status, status);
    });
}

#[test]
fn repo_status_serialization_stability() {
    [
        (RepoStatus::Active, 0u8),
        (RepoStatus::Takendown, 1),
        (RepoStatus::Suspended, 2),
        (RepoStatus::Deactivated, 3),
        (RepoStatus::Deleted, 4),
    ]
    .iter()
    .for_each(|&(status, expected_byte)| {
        let mut bytes = Vec::new();
        status.encode(&mut bytes);
        assert_eq!(
            bytes,
            [expected_byte],
            "{status:?} serialized to {bytes:?}, expected [{expected_byte}]"
        );
    });
}

#[test]
fn schema_version_is_first_byte() {
    let bytes = minimal(RepoStatus::Active).serialize();
    assert_eq!(bytes[0], SCHEMA_VERSION);
    assert_eq!(bytes[0], 1, "schema version must remain 1 for this format");
}

#[test]
fn deserialize_rejects_unknown_schema_version() {
    let mut bytes = minimal(RepoStatus::Active).serialize();
    bytes[0] = 99;
    assert!(RepoMetaValue::deserialize(&bytes).is_none());
}

#[test]
fn deserialize_rejects_empty_input() {
    assert!(RepoMetaValue::deserialize(&[]).is_none());
}

#[test]
fn stored_meta_has_exact_bytes() {
    let value = RepoMetaValue {
        repo_root_cid: vec![0x01, 0x71],
        repo_rev: "ab".to_string(),
        handle: "h".to_string(),
        status: RepoStatus::Deactivated,
        deactivated_at_ms: Some(300),
        takedown_ref: None,
        did: Some("d".to_string()),
    };
    assert_eq!(
        value.serialize(),
        vec![1, 2, 0x01, 0x71, 2, b'a', b'b', 1, b'h', 3, 1, 0xAC, 0x02, 0, 1, 1, b'd']
    );
}

#[test]
fn only_an_active_repo_is_active() {
    assert!(RepoStatus::Active.is_active());
    assert!(!RepoStatus::Takendown.is_active());
    assert!(!RepoStatus::Suspended.is_active());
    assert!(!RepoStatus::Deactivated.is_active());
    assert!(!RepoStatus::Deleted.is_active());
}
