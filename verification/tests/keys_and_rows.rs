use tranquil_metastore::delegations::{audit_log_key, grant_key};
use tranquil_metastore::encoding::{
    exclusive_upper_bound, read_second_number, read_second_text, KeyBuilder, KeyReader,
};
use tranquil_metastore::event_keys::{did_events_key, metastore_cursor_key, seq_tombstone_key};
use tranquil_metastore::keys::{KeyTag, UserHash};
use tranquil_metastore::store::{Keyspace, Row, Write};
use tranquil_metastore::types::{at_uri, CidLink, DbScope, Did, Handle, Uuid};

#[test]
fn key_parts_are_read_back() {
    let key = KeyBuilder::new()
        .tag(0x42)
        .u64(7)
        .string("a\0b")
        .bytes(&[0, 1, 0xFF])
        .build();
    let mut reader = KeyReader::new(&key);
    assert_eq!(reader.tag(), Some(0x42));
    assert_eq!(reader.u64(), Some(7));
    assert_eq!(reader.string(), Some("a\0b".to_string()));
    assert_eq!(reader.bytes(), Some(vec![0, 1, 0xFF]));
    assert!(reader.is_empty());
    assert_eq!(reader.tag(), None);
    assert_eq!(reader.u64(), None);
}

#[test]
fn keys_sort_as_their_parts() {
    let key = |s: &str| KeyBuilder::new().tag(1).string(s).build();
    assert!(key("a") < key("aa"));
    assert!(key("a") < key("b"));
    assert!(key("a\0") < key("aa"));
    assert!(key("a") < key("a\0"));
    let number = |n: u64| KeyBuilder::new().tag(1).u64(n).build();
    assert!(number(255) < number(256));
    assert_eq!(number(258), vec![1, 0, 0, 0, 0, 0, 0, 1, 2]);
}

#[test]
fn upper_bound_follows_every_key_with_the_prefix() {
    assert_eq!(exclusive_upper_bound(&[1, 2]), Some(vec![1, 3]));
    assert_eq!(exclusive_upper_bound(&[1, 0xFF]), Some(vec![2]));
    assert_eq!(exclusive_upper_bound(&[0xFF, 0xFF]), None);
    assert_eq!(exclusive_upper_bound(&[]), None);
}

#[test]
fn second_part_of_a_key_is_read() {
    let hash = UserHash::from_raw(9);
    assert_eq!(read_second_number(&did_events_key(hash, 77)), Some(77));
    assert_eq!(read_second_number(&[0x20]), None);
    assert_eq!(read_second_text(&[0x20]), None);
}

#[test]
fn event_keys_are_distinct() {
    let hash = UserHash::from_raw(9);
    let keys = [
        did_events_key(hash, 1),
        did_events_key(hash, 2),
        seq_tombstone_key(1),
        metastore_cursor_key(),
        grant_key(hash, hash),
        audit_log_key(hash, 1, Uuid { bits: 3 }),
    ];
    for (i, a) in keys.iter().enumerate() {
        for b in &keys[i + 1..] {
            assert_ne!(a, b);
        }
    }
    assert_ne!(KeyTag::DidEvents.raw(), KeyTag::SeqTombstone.raw());
}

fn put(key: &[u8], value: &[u8]) -> Write {
    Write::Put {
        key: key.to_vec(),
        value: value.to_vec(),
    }
}

fn row(key: &[u8], value: &[u8]) -> Row {
    Row {
        key: key.to_vec(),
        value: value.to_vec(),
    }
}

#[test]
fn rows_are_kept_in_key_order() {
    let mut k = Keyspace::new();
    k.commit(vec![put(b"b", b"2"), put(b"a", b"1"), put(b"ba", b"3"), put(b"c", b"4")]);
    k.commit(vec![
        put(b"a", b"9"),
        Write::Remove { key: b"c".to_vec() },
        Write::Remove { key: b"zz".to_vec() },
    ]);
    assert_eq!(k.get(b"a"), Some(b"9".to_vec()));
    assert_eq!(k.get(b"c"), None);
    assert_eq!(k.prefix(b"b"), vec![row(b"b", b"2"), row(b"ba", b"3")]);
    assert_eq!(k.range(b"a", b"ba"), vec![row(b"a", b"9"), row(b"b", b"2")]);
    assert_eq!(k.prefix(&[]).len(), 3);
}

#[test]
fn journal_replays_to_the_same_rows() {
    let mut k = Keyspace::new();
    k.commit(vec![put(b"b", b"2"), put(b"a", b"1")]);
    k.commit(vec![Write::Remove { key: b"b".to_vec() }]);
    let journal = k.take_journal();
    assert_eq!(journal.len(), 3);
    assert!(k.take_journal().is_empty());
    let mut copy = Keyspace::new();
    copy.commit(journal);
    assert_eq!(copy.prefix(&[]), k.prefix(&[]));
}

#[test]
fn names_have_their_grammar() {
    assert!(Did::new("did:plc:abc".to_string()).is_some());
    assert!(Did::new("did:web:a.test%3A80".to_string()).is_some());
    assert!(Did::new("plc:abc".to_string()).is_none());
    assert!(Did::new("did:plc:".to_string()).is_none());
    assert!(Handle::new("olaren.test".to_string()).is_some());
    assert!(Handle::new("olaren".to_string()).is_none());
    assert!(Handle::new("-a.test".to_string()).is_none());
    assert!(DbScope::new("atproto repo:*").is_some());
    assert!(DbScope::new("bad\\scope").is_none());
    assert_eq!(DbScope::new_or_empty("bad\\scope").as_str(), "");
    assert!(CidLink::from_bytes(&[1, 2, 3]).is_none());
    assert_eq!(at_uri("did:plc:a", "c.d.e", "k"), "at://did:plc:a/c.d.e/k");
    assert_eq!(
        Uuid { bits: 0x0123_4567_89AB_CDEF_0123_4567_89AB_CDEF }.to_text(),
        "01234567-89ab-cdef-0123-456789abcdef"
    );
}
