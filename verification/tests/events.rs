use tranquil_metastore::errors::DbError;
use tranquil_metastore::event_keys::{did_events_key, rev_to_seq_key};
use tranquil_metastore::event_ops::EventOps;
use tranquil_metastore::eventlog::EventLog;
use tranquil_metastore::events::{
    AccountStatus, CommitEventData, LogEntry, RepoEventType, SequencedEvent,
};
use tranquil_metastore::keys::UserHash;
use tranquil_metastore::store::Keyspace;
use tranquil_metastore::types::{CidLink, Did, Handle, SequenceNumber};

struct TestHarness {
    repo_data: Keyspace,
    log: EventLog,
}

impl TestHarness {
    fn ops(&mut self) -> EventOps<'_> {
        EventOps {
            repo_data: &mut self.repo_data,
            log: &mut self.log,
        }
    }
}

fn setup() -> TestHarness {
    TestHarness {
        repo_data: Keyspace::new(),
        log: EventLog::new(),
    }
}

fn zero() -> SequenceNumber {
    SequenceNumber::from_raw(0)
}

fn test_did() -> Did {
    Did::new("did:plc:testuser1234567890abcdef".to_owned()).unwrap()
}

fn test_cid_link() -> CidLink {
    let mut bytes = vec![0x01, 0x71, 0x12, 0x20];
    bytes.extend_from_slice(&[
        0xe3, 0xb0, 0xc4, 0x42, 0x98, 0xfc, 0x1c, 0x14, 0x9a, 0xfb, 0xf4, 0xc8, 0x99, 0x6f, 0xb9,
        0x24, 0x27, 0xae, 0x41, 0xe4, 0x64, 0x9b, 0x93, 0x4c, 0xa4, 0x95, 0x99, 0x1b, 0x78, 0x52,
        0xb8, 0x55,
    ]);
    CidLink::from_bytes(&bytes).unwrap()
}

fn commit_data(cid: &CidLink, rev: &str) -> CommitEventData {
    CommitEventData {
        did: test_did(),
        event_type: RepoEventType::Commit,
        commit_cid: Some(cid.clone()),
        prev_cid: None,
        ops: None,
        blobs: None,
        blocks: None,
        prev_data_cid: None,
        rev: Some(rev.to_owned()),
    }
}

#[test]
fn insert_and_query_commit_event() {
    let mut h = setup();
    let cid = test_cid_link();
    let ops_json = br#"[{"action":"create","path":"app.bsky.feed.post/abc"}]"#.to_vec();
    let data = CommitEventData {
        did: test_did(),
        event_type: RepoEventType::Commit,
        commit_cid: Some(cid.clone()),
        prev_cid: None,
        ops: Some(ops_json.clone()),
        blobs: None,
        blocks: None,
        prev_data_cid: None,
        rev: Some("3k2abcde".to_owned()),
    };

    let seq = h.ops().insert_commit_event(&data).unwrap();
    assert!(seq.as_i64() > 0);

    let event = h.ops().get_event_by_seq(seq).unwrap().unwrap();
    assert_eq!(event.did.as_str(), test_did().as_str());
    assert_eq!(event.event_type, RepoEventType::Commit);
    assert_eq!(event.commit_cid, Some(cid));
    assert_eq!(event.rev, Some("3k2abcde".to_owned()));
    assert_eq!(event.ops, Some(ops_json));
}

#[test]
fn insert_and_query_identity_event() {
    let mut h = setup();
    let handle = Handle::new("olaren.test".to_owned()).unwrap();

    let seq = h
        .ops()
        .insert_identity_event(&test_did(), Some(&handle))
        .unwrap();
    assert!(seq.as_i64() > 0);

    let event = h.ops().get_event_by_seq(seq).unwrap().unwrap();
    assert_eq!(event.event_type, RepoEventType::Identity);
    assert_eq!(
        event.handle.as_ref().map(|h| h.as_str()),
        Some("olaren.test")
    );
}

#[test]
fn insert_and_query_account_event() {
    let mut h = setup();

    let seq = h
        .ops()
        .insert_account_event(&test_did(), AccountStatus::Deactivated)
        .unwrap();
    assert!(seq.as_i64() > 0);

    let event = h.ops().get_event_by_seq(seq).unwrap().unwrap();
    assert_eq!(event.event_type, RepoEventType::Account);
    assert_eq!(event.status, Some(AccountStatus::Deactivated));
    assert_eq!(event.active, Some(false));
}

#[test]
fn insert_and_query_sync_event() {
    let mut h = setup();
    let cid = test_cid_link();

    let seq = h
        .ops()
        .insert_sync_event(&test_did(), &cid, Some("rev1"), b"sync_commit_bytes")
        .unwrap();
    assert!(seq.as_i64() > 0);

    let event = h.ops().get_event_by_seq(seq).unwrap().unwrap();
    assert_eq!(event.event_type, RepoEventType::Sync);
    assert_eq!(event.commit_cid, Some(cid));
    assert_eq!(event.rev, Some("rev1".to_owned()));
}

#[test]
fn insert_genesis_commit_event() {
    let mut h = setup();
    let commit_cid = test_cid_link();
    let mst_cid = test_cid_link();

    let seq = h
        .ops()
        .insert_genesis_commit_event(
            &test_did(),
            &commit_cid,
            &mst_cid,
            "genesis_rev",
            b"genesis_commit_bytes",
            b"genesis_mst_bytes",
        )
        .unwrap();
    assert!(seq.as_i64() > 0);

    let event = h.ops().get_event_by_seq(seq).unwrap().unwrap();
    assert_eq!(event.event_type, RepoEventType::Commit);
    assert_eq!(event.commit_cid, Some(commit_cid));
    assert_eq!(event.prev_data_cid, Some(mst_cid));
    assert_eq!(event.rev, Some("genesis_rev".to_owned()));
}

#[test]
fn get_events_since_seq_returns_ordered() {
    let mut h = setup();
    let did = test_did();

    let seq1 = h
        .ops()
        .insert_account_event(&did, AccountStatus::Active)
        .unwrap();
    let seq2 = h.ops().insert_identity_event(&did, None).unwrap();

    let events = h.ops().get_events_since_seq(zero(), None).unwrap();
    assert_eq!(events.len(), 2);
    assert_eq!(events[0].seq, seq1);
    assert_eq!(events[1].seq, seq2);
}

#[test]
fn get_events_since_seq_with_limit() {
    let mut h = setup();
    let did = test_did();

    h.ops()
        .insert_account_event(&did, AccountStatus::Active)
        .unwrap();
    h.ops().insert_identity_event(&did, None).unwrap();

    let events = h.ops().get_events_since_seq(zero(), Some(1)).unwrap();
    assert_eq!(events.len(), 1);
}

#[test]
fn get_events_in_seq_range() {
    let mut h = setup();
    let did = test_did();

    let seq1 = h
        .ops()
        .insert_account_event(&did, AccountStatus::Active)
        .unwrap();
    let seq2 = h.ops().insert_identity_event(&did, None).unwrap();
    let _seq3 = h.ops().insert_identity_event(&did, None).unwrap();

    let events = h.ops().get_events_in_seq_range(zero(), seq2).unwrap();
    assert_eq!(events.len(), 1);
    assert_eq!(events[0].seq, seq1);
}

#[test]
fn cursor_pagination() {
    let mut h = setup();
    let did = test_did();

    let seqs: Vec<SequenceNumber> = (0..5)
        .map(|_| h.ops().insert_identity_event(&did, None).unwrap())
        .collect();

    let page1 = h.ops().get_events_since_cursor(zero(), 2).unwrap();
    assert_eq!(page1.len(), 2);
    assert_eq!(page1[0].seq, seqs[0]);
    assert_eq!(page1[1].seq, seqs[1]);

    let page2 = h.ops().get_events_since_cursor(page1[1].seq, 2).unwrap();
    assert_eq!(page2.len(), 2);
    assert_eq!(page2[0].seq, seqs[2]);
    assert_eq!(page2[1].seq, seqs[3]);

    let page3 = h.ops().get_events_since_cursor(page2[1].seq, 2).unwrap();
    assert_eq!(page3.len(), 1);
    assert_eq!(page3[0].seq, seqs[4]);
}

#[test]
fn get_max_seq() {
    let mut h = setup();
    assert_eq!(h.ops().get_max_seq(), zero());

    let seq = h.ops().insert_identity_event(&test_did(), None).unwrap();
    assert_eq!(h.ops().get_max_seq(), seq);
}

#[test]
fn delete_sequences_except_tombstones_others() {
    let mut h = setup();
    let did = test_did();
    let cid = test_cid_link();

    let seq1 = h.ops().insert_commit_event(&commit_data(&cid, "rev_a")).unwrap();
    let seq2 = h.ops().insert_commit_event(&commit_data(&cid, "rev_b")).unwrap();

    h.ops().delete_sequences_except(&did, seq2).unwrap();

    assert!(h.ops().get_event_by_seq(seq1).unwrap().is_none());
    assert!(h.ops().get_event_by_seq(seq2).unwrap().is_some());
}

#[test]
fn tombstoned_events_filtered_from_range_queries() {
    let mut h = setup();
    let did = test_did();
    let cid = test_cid_link();

    let _seq1 = h.ops().insert_commit_event(&commit_data(&cid, "rev_x")).unwrap();
    let seq2 = h.ops().insert_commit_event(&commit_data(&cid, "rev_y")).unwrap();

    h.ops().delete_sequences_except(&did, seq2).unwrap();

    let events = h.ops().get_events_since_seq(zero(), None).unwrap();
    assert_eq!(events.len(), 1);
    assert_eq!(events[0].seq, seq2);
}

#[test]
fn metastore_cursor_read_write() {
    let mut h = setup();
    assert_eq!(h.ops().read_last_applied_cursor().unwrap(), None);

    h.ops().write_last_applied_cursor_direct(42).unwrap();
    assert_eq!(h.ops().read_last_applied_cursor().unwrap(), Some(42));

    h.ops().write_last_applied_cursor_direct(100).unwrap();
    assert_eq!(h.ops().read_last_applied_cursor().unwrap(), Some(100));
}

#[test]
fn inserts_advance_cursor() {
    let mut h = setup();
    let did = test_did();
    assert_eq!(h.ops().read_last_applied_cursor().unwrap(), None);

    let seq1 = h.ops().insert_identity_event(&did, None).unwrap();
    assert_eq!(h.ops().read_last_applied_cursor().unwrap(), seq1.as_u64());

    let seq2 = h
        .ops()
        .insert_account_event(&did, AccountStatus::Active)
        .unwrap();
    assert_eq!(h.ops().read_last_applied_cursor().unwrap(), seq2.as_u64());
    assert!(seq2.as_i64() > seq1.as_i64());
}

#[test]
fn get_event_by_seq_none_for_missing() {
    let mut h = setup();
    let result = h
        .ops()
        .get_event_by_seq(SequenceNumber::from_raw(9999))
        .unwrap();
    assert!(result.is_none());
}

#[test]
fn get_event_by_seq_none_for_negative() {
    let mut h = setup();
    let result = h
        .ops()
        .get_event_by_seq(SequenceNumber::from_raw(-1))
        .unwrap();
    assert!(result.is_none());
}

#[test]
fn multiple_event_types_interleaved() {
    let mut h = setup();
    let did = test_did();
    let cid = test_cid_link();

    let s1 = h.ops().insert_commit_event(&commit_data(&cid, "r1")).unwrap();
    let s2 = h.ops().insert_identity_event(&did, None).unwrap();
    let s3 = h
        .ops()
        .insert_account_event(&did, AccountStatus::Active)
        .unwrap();
    let s4 = h
        .ops()
        .insert_sync_event(&did, &cid, Some("r2"), b"sync_commit_bytes")
        .unwrap();

    let events = h.ops().get_events_since_seq(zero(), None).unwrap();
    assert_eq!(events.len(), 4);
    assert_eq!(events[0].event_type, RepoEventType::Commit);
    assert_eq!(events[1].event_type, RepoEventType::Identity);
    assert_eq!(events[2].event_type, RepoEventType::Account);
    assert_eq!(events[3].event_type, RepoEventType::Sync);

    assert!(s1.as_i64() < s2.as_i64());
    assert!(s2.as_i64() < s3.as_i64());
    assert!(s3.as_i64() < s4.as_i64());
}

#[test]
fn delete_sequences_except_tombstones_all_event_types() {
    let mut h = setup();
    let did = test_did();
    let cid = test_cid_link();

    let _commit_seq = h
        .ops()
        .insert_commit_event(&commit_data(&cid, "rev_keep"))
        .unwrap();
    let identity_seq = h.ops().insert_identity_event(&did, None).unwrap();
    let account_seq = h
        .ops()
        .insert_account_event(&did, AccountStatus::Active)
        .unwrap();
    let keep_seq = h
        .ops()
        .insert_sync_event(&did, &cid, Some("rev_sync"), b"sync_commit_bytes")
        .unwrap();

    h.ops().delete_sequences_except(&did, keep_seq).unwrap();

    assert!(h.ops().get_event_by_seq(identity_seq).unwrap().is_none());
    assert!(h.ops().get_event_by_seq(account_seq).unwrap().is_none());
    assert!(h.ops().get_event_by_seq(keep_seq).unwrap().is_some());
}

#[test]
fn delete_sequences_except_rejects_negative_keep_seq() {
    let mut h = setup();
    let result = h
        .ops()
        .delete_sequences_except(&test_did(), SequenceNumber::from_raw(-1));
    assert!(result.is_err());
}

#[test]
fn delete_sequences_except_cleans_rev_to_seq_entries() {
    let mut h = setup();
    let did = test_did();
    let cid = test_cid_link();
    let user_hash = UserHash::from_did(did.as_str());

    let _seq1 = h
        .ops()
        .insert_commit_event(&commit_data(&cid, "rev_old"))
        .unwrap();
    let seq2 = h
        .ops()
        .insert_commit_event(&commit_data(&cid, "rev_keep"))
        .unwrap();

    let old_key = rev_to_seq_key(user_hash, "rev_old");
    assert!(h.repo_data.get(old_key.as_slice()).is_some());

    h.ops().delete_sequences_except(&did, seq2).unwrap();

    assert!(h.repo_data.get(old_key.as_slice()).is_none());

    let keep_key = rev_to_seq_key(user_hash, "rev_keep");
    assert!(h.repo_data.get(keep_key.as_slice()).is_some());
}

#[test]
fn delete_sequences_except_cleans_did_events_entries() {
    let mut h = setup();
    let did = test_did();
    let cid = test_cid_link();
    let user_hash = UserHash::from_did(did.as_str());

    let seq1 = h.ops().insert_commit_event(&commit_data(&cid, "rev_a")).unwrap();
    let seq2 = h.ops().insert_commit_event(&commit_data(&cid, "rev_b")).unwrap();

    h.ops().delete_sequences_except(&did, seq2).unwrap();

    let removed_key = did_events_key(user_hash, seq1.as_u64().unwrap());
    assert!(h.repo_data.get(removed_key.as_slice()).is_none());

    let kept_key = did_events_key(user_hash, seq2.as_u64().unwrap());
    assert!(h.repo_data.get(kept_key.as_slice()).is_some());
}

#[test]
fn recover_sidecar_indexes_no_gap() {
    let mut h = setup();

    let seq = h
        .ops()
        .insert_commit_event(&commit_data(&test_cid_link(), "rev_1"))
        .unwrap();

    h.ops()
        .write_last_applied_cursor_direct(seq.as_u64().unwrap())
        .unwrap();

    let recovered = h.ops().recover_sidecar_indexes().unwrap();
    assert_eq!(recovered, 0);
}

fn crash_event(event_type: RepoEventType, cid: Option<CidLink>, rev: Option<&str>) -> SequencedEvent {
    SequencedEvent {
        seq: zero(),
        did: test_did(),
        created_at: 1_700_000_000_000,
        event_type,
        commit_cid: cid,
        prev_cid: None,
        prev_data_cid: None,
        ops: None,
        blobs: None,
        blocks: None,
        handle: None,
        active: None,
        status: None,
        rev: rev.map(|r| r.to_owned()),
    }
}

#[test]
fn recover_sidecar_indexes_rebuilds_after_gap() {
    let mut h = setup();
    let did = test_did();
    let cid = test_cid_link();

    let seq1 = h.ops().insert_commit_event(&commit_data(&cid, "rev_1")).unwrap();

    h.ops()
        .write_last_applied_cursor_direct(seq1.as_u64().unwrap())
        .unwrap();

    h.log
        .append(
            &crash_event(RepoEventType::Commit, Some(cid.clone()), Some("rev_2")),
            None,
        )
        .unwrap();
    h.log
        .append(&crash_event(RepoEventType::Identity, None, None), None)
        .unwrap();
    h.log
        .append(
            &crash_event(RepoEventType::Commit, Some(cid.clone()), Some("rev_3")),
            None,
        )
        .unwrap();

    let user_hash = UserHash::from_did(did.as_str());
    let rev2_key = rev_to_seq_key(user_hash, "rev_2");
    assert!(h.repo_data.get(rev2_key.as_slice()).is_none());

    let recovered = h.ops().recover_sidecar_indexes().unwrap();
    assert_eq!(recovered, 3);

    assert!(h.repo_data.get(rev2_key.as_slice()).is_some());

    let cursor = h.ops().read_last_applied_cursor().unwrap();
    assert!(cursor.is_some());
    assert_eq!(cursor, Some(4));
    assert_eq!(h.ops().recover_sidecar_indexes().unwrap(), 0);
    assert_eq!(
        h.repo_data.get(rev2_key.as_slice()),
        Some(2u64.to_be_bytes().to_vec())
    );
}

#[test]
fn purge_keeps_the_latest_event() {
    let mut h = setup();
    let did = test_did();
    h.ops().purge_did_events_keeping_latest(&did).unwrap();

    let s1 = h.ops().insert_identity_event(&did, None).unwrap();
    let other = Did::new("did:plc:other".to_owned()).unwrap();
    let s2 = h.ops().insert_identity_event(&other, None).unwrap();
    let s3 = h.ops().insert_identity_event(&did, None).unwrap();
    h.ops().purge_did_events_keeping_latest(&did).unwrap();

    assert!(h.ops().get_event_by_seq(s1).unwrap().is_none());
    assert!(h.ops().get_event_by_seq(s2).unwrap().is_some());
    assert!(h.ops().get_event_by_seq(s3).unwrap().is_some());
}

#[test]
fn blobs_since_a_revision_are_listed_once() {
    let mut h = setup();
    let did = test_did();
    let cid = test_cid_link();
    let mut with_blobs = |rev: &str, blobs: &[&str]| {
        let mut data = commit_data(&cid, rev);
        data.blobs = Some(blobs.iter().map(|b| b.to_string()).collect());
        h.ops().insert_commit_event(&data).unwrap()
    };
    with_blobs("rev_1", &["a"]);
    with_blobs("rev_2", &["b", "c"]);
    with_blobs("rev_3", &["c", "d"]);

    assert_eq!(
        h.ops().get_blob_cids_since_rev(&did, "rev_1").unwrap(),
        vec!["b", "c", "d"]
    );
    assert_eq!(
        h.ops().get_blob_cids_since_rev(&did, "rev_3").unwrap(),
        Vec::<String>::new()
    );
}

#[test]
fn first_event_since_a_time_is_found() {
    let mut h = setup();
    let mut early = crash_event(RepoEventType::Identity, None, None);
    early.created_at = 1_000;
    let mut late = crash_event(RepoEventType::Identity, None, None);
    late.created_at = 2_000;
    h.log.append(&early, None).unwrap();
    h.log.append(&late, None).unwrap();

    assert_eq!(h.ops().get_min_seq_since(1_500).unwrap(), Some(SequenceNumber::from_raw(2)));
    assert_eq!(h.ops().get_min_seq_since(1_000).unwrap(), Some(SequenceNumber::from_raw(1)));
    assert_eq!(h.ops().get_min_seq_since(2_001).unwrap(), None);
}

#[test]
fn full_log_refuses_events() {
    let mut h = setup();
    let mut last = crash_event(RepoEventType::Identity, None, None);
    last.seq = SequenceNumber::from_raw(i64::MAX);
    h.log = EventLog::restore(vec![LogEntry {
        event: last,
        mutation_set: None,
    }])
    .unwrap();

    let r = h.ops().insert_identity_event(&test_did(), None);
    assert_eq!(r, Err(DbError::Query("event log is full".to_string())));
    assert!(h.repo_data.prefix(&[]).is_empty());
}

#[test]
fn log_entries_survive_storage() {
    let mut event = crash_event(RepoEventType::Sync, Some(test_cid_link()), Some("rev"));
    event.seq = SequenceNumber::from_raw(7);
    event.status = Some(AccountStatus::Takendown);
    event.active = Some(false);
    event.handle = Handle::new("olaren.test".to_owned());
    event.ops = Some(b"[]".to_vec());
    event.blobs = Some(vec!["bafy".to_string()]);
    let entry = LogEntry {
        event,
        mutation_set: Some(vec![1, 2, 3]),
    };
    let bytes = entry.serialize();
    assert_eq!(LogEntry::deserialize(&bytes), Some(entry));
    assert_eq!(LogEntry::deserialize(&bytes[1..]), None);
}

#[test]
fn log_out_of_order_is_not_restored() {
    let mut first = crash_event(RepoEventType::Identity, None, None);
    first.seq = SequenceNumber::from_raw(2);
    let mut second = crash_event(RepoEventType::Identity, None, None);
    second.seq = SequenceNumber::from_raw(2);
    assert!(EventLog::restore(vec![
        LogEntry { event: first, mutation_set: None },
        LogEntry { event: second, mutation_set: None },
    ])
    .is_none());
}

#[test]
fn deletion_leaves_other_accounts_alone() {
    let mut h = setup();
    let cid = test_cid_link();
    let other = Did::new("did:plc:otheruser".to_owned()).unwrap();
    let mine = h.ops().insert_commit_event(&commit_data(&cid, "rev1")).unwrap();
    let theirs = h
        .ops()
        .insert_commit_event(&CommitEventData {
            did: other.clone(),
            ..commit_data(&cid, "rev1")
        })
        .unwrap();
    let last = h.ops().insert_commit_event(&commit_data(&cid, "rev2")).unwrap();

    h.ops().delete_sequences_except(&test_did(), last).unwrap();
    assert!(h.ops().get_event_by_seq(mine).unwrap().is_none());
    assert!(h.ops().get_event_by_seq(last).unwrap().is_some());
    let event = h.ops().get_event_by_seq(theirs).unwrap().unwrap();
    assert_eq!(event.did.as_str(), "did:plc:otheruser");
    let hash = UserHash::from_did(other.as_str());
    let seq = theirs.as_i64() as u64;
    assert!(h.repo_data.get(&did_events_key(hash, seq)).is_some());
    assert_eq!(
        h.repo_data.get(&rev_to_seq_key(hash, "rev1")),
        Some(seq.to_be_bytes().to_vec())
    );
}
