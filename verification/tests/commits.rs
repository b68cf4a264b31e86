use tranquil_metastore::backlinks::{backlink_by_user_prefix, backlink_target_prefix, BacklinkPath};
use tranquil_metastore::commit_ops::{
    ApplyCommitError, ApplyCommitInput, Backlink, CommitOps, ImportBlock, ImportRecord,
    ImportRepoError, RecordUpsert,
};
use tranquil_metastore::errors::MetastoreError;
use tranquil_metastore::event_ops::EventOps;
use tranquil_metastore::eventlog::EventLog;
use tranquil_metastore::events::{CommitEventData, RepoEventType};
use tranquil_metastore::metastore::Metastore;
use tranquil_metastore::partitions::Partition;
use tranquil_metastore::records::{RecordMutationDelete, RecordMutationUpsert};
use tranquil_metastore::recovery::CommitMutationSet;
use tranquil_metastore::repo_meta::repo_meta_key;
use tranquil_metastore::store::{Keyspace, Write};
use tranquil_metastore::types::{at_uri, CidLink, Did, Handle, Uuid};

struct TestHarness {
    metastore: Metastore,
    log: EventLog,
}

impl TestHarness {
    fn ops(&mut self) -> CommitOps<'_> {
        self.metastore.commit_ops(&mut self.log)
    }

    fn event_ops(&mut self) -> EventOps<'_> {
        self.metastore.event_ops(&mut self.log)
    }
}

fn open_empty() -> Metastore {
    Metastore::open(
        Keyspace::new(),
        Keyspace::new(),
        Keyspace::new(),
        Keyspace::new(),
        Keyspace::new(),
        Keyspace::new(),
    )
    .unwrap()
}

fn setup() -> TestHarness {
    TestHarness {
        metastore: open_empty(),
        log: EventLog::new(),
    }
}

fn copy_of(k: &Keyspace) -> Keyspace {
    let mut out = Keyspace::new();
    out.commit(
        k.prefix(&[])
            .into_iter()
            .map(|row| Write::Put {
                key: row.key,
                value: row.value,
            })
            .collect(),
    );
    out.take_journal();
    out
}

fn reopen(ms: &Metastore) -> Metastore {
    Metastore::open(
        copy_of(&ms.repo_data),
        copy_of(&ms.indexes),
        copy_of(&ms.users),
        copy_of(&ms.infra),
        copy_of(&ms.auth),
        copy_of(&ms.signal),
    )
    .unwrap()
}

fn new_user_id() -> Uuid {
    Uuid {
        bits: uuid::Uuid::new_v4().as_u128(),
    }
}

fn test_cid_link(seed: u8) -> CidLink {
    let mut bytes = vec![0x01, 0x71, 0x12, 0x20];
    bytes.extend((0..32u8).map(|i| seed.wrapping_add(i)));
    CidLink::from_bytes(&bytes).unwrap()
}

fn test_did(name: &str) -> Did {
    Did::from(format!("did:plc:{name}"))
}

fn test_handle(name: &str) -> Handle {
    Handle::from(format!("{name}.test.invalid"))
}

fn create_test_repo(h: &mut TestHarness, name: &str, seed: u8) -> (Uuid, Did, CidLink) {
    let user_id = new_user_id();
    let did = test_did(name);
    let handle = test_handle(name);
    let cid = test_cid_link(seed);
    h.metastore
        .create_repo(user_id, &did, &handle, &cid, "rev0")
        .unwrap();
    (user_id, did, cid)
}

fn commit_event(
    did: &Did,
    commit_cid: Option<&CidLink>,
    prev_cid: Option<&CidLink>,
    rev: Option<&str>,
) -> CommitEventData {
    CommitEventData {
        did: did.clone(),
        event_type: RepoEventType::Commit,
        commit_cid: commit_cid.cloned(),
        prev_cid: prev_cid.cloned(),
        ops: None,
        blobs: None,
        blocks: None,
        prev_data_cid: None,
        rev: rev.map(|r| r.to_string()),
    }
}

fn commit(
    user_id: Uuid,
    did: &Did,
    expected: Option<&CidLink>,
    new_root: &CidLink,
    rev: &str,
    event: CommitEventData,
) -> ApplyCommitInput {
    ApplyCommitInput {
        user_id,
        did: did.clone(),
        expected_root_cid: expected.cloned(),
        new_root_cid: new_root.clone(),
        new_rev: rev.to_string(),
        new_block_cids: vec![],
        obsolete_block_cids: vec![],
        record_upserts: vec![],
        record_deletes: vec![],
        backlinks_to_add: vec![],
        backlinks_to_remove: vec![],
        commit_event: event,
    }
}

fn upsert(collection: &str, rkey: &str, cid: &CidLink) -> RecordUpsert {
    RecordUpsert {
        collection: collection.to_string(),
        rkey: rkey.to_string(),
        cid: cid.clone(),
    }
}

fn link(uri: &str, target: &str) -> Backlink {
    Backlink {
        uri: uri.to_string(),
        path: BacklinkPath::SubjectUri,
        link_to: target.to_string(),
    }
}

#[test]
fn apply_commit_updates_records_and_meta() {
    let mut h = setup();
    let (user_id, did, root_cid) = create_test_repo(&mut h, "olaren", 1);

    let new_root = test_cid_link(2);
    let record_cid = test_cid_link(3);
    let collection = "app.bsky.feed.post";
    let rkey = "3k2abc";

    let mut input = commit(
        user_id,
        &did,
        Some(&root_cid),
        &new_root,
        "rev1",
        commit_event(&did, Some(&new_root), Some(&root_cid), Some("rev1")),
    );
    input.new_block_cids = vec![vec![0x01, 0x02]];
    input.record_upserts = vec![upsert(collection, rkey, &record_cid)];

    let result = h.ops().apply_commit(input).unwrap();
    assert!(result.is_account_active);

    let repo = h.metastore.get_repo(user_id).unwrap().unwrap();
    assert_eq!(repo.repo_root_cid, new_root);
    assert_eq!(repo.repo_rev.as_deref(), Some("rev1"));

    let found_cid = h
        .metastore
        .get_record_cid(user_id, collection, rkey)
        .unwrap()
        .unwrap();
    assert_eq!(found_cid, record_cid);
}

#[test]
fn apply_commit_cas_rejects_stale_root() {
    let mut h = setup();
    let (user_id, did, root_cid) = create_test_repo(&mut h, "teq", 10);

    let stale_root = test_cid_link(99);
    let new_root = test_cid_link(11);

    let input = commit(
        user_id,
        &did,
        Some(&stale_root),
        &new_root,
        "rev1",
        commit_event(&test_did("teq"), None, None, Some("rev1")),
    );

    let result = h.ops().apply_commit(input);
    assert_eq!(
        result.unwrap_err(),
        ApplyCommitError::ConcurrentModification
    );
    let repo = h.metastore.get_repo(user_id).unwrap().unwrap();
    assert_eq!(repo.repo_root_cid, root_cid);
    assert_eq!(h.event_ops().get_max_seq().as_i64(), 0);
}

#[test]
fn apply_commit_returns_repo_not_found_for_unknown_user() {
    let mut h = setup();

    let input = commit(
        new_user_id(),
        &test_did("nonexistent"),
        None,
        &test_cid_link(1),
        "rev1",
        commit_event(&test_did("nonexistent"), None, None, None),
    );

    assert_eq!(
        h.ops().apply_commit(input).unwrap_err(),
        ApplyCommitError::RepoNotFound
    );
}

#[test]
fn apply_commit_record_deletes() {
    let mut h = setup();
    let (user_id, did, root_cid) = create_test_repo(&mut h, "nel", 20);

    let mid_root = test_cid_link(21);
    let record_cid = test_cid_link(22);
    let collection = "app.bsky.feed.post";
    let rkey = "3k2del";

    let mut insert_input = commit(
        user_id,
        &did,
        Some(&root_cid),
        &mid_root,
        "rev1",
        commit_event(&did, Some(&mid_root), None, Some("rev1")),
    );
    insert_input.record_upserts = vec![upsert(collection, rkey, &record_cid)];
    h.ops().apply_commit(insert_input).unwrap();

    assert!(h
        .metastore
        .get_record_cid(user_id, collection, rkey)
        .unwrap()
        .is_some());

    let final_root = test_cid_link(23);
    let mut delete_input = commit(
        user_id,
        &did,
        Some(&mid_root),
        &final_root,
        "rev2",
        commit_event(&did, Some(&final_root), Some(&mid_root), Some("rev2")),
    );
    delete_input.record_deletes = vec![RecordMutationDelete {
        collection: collection.to_string(),
        rkey: rkey.to_string(),
    }];
    h.ops().apply_commit(delete_input).unwrap();

    assert!(h
        .metastore
        .get_record_cid(user_id, collection, rkey)
        .unwrap()
        .is_none());
}

#[test]
fn apply_commit_event_visible_after_commit() {
    let mut h = setup();
    let (user_id, did, root_cid) = create_test_repo(&mut h, "lyna", 30);

    let new_root = test_cid_link(31);
    let input = commit(
        user_id,
        &did,
        Some(&root_cid),
        &new_root,
        "rev1",
        commit_event(&did, Some(&new_root), Some(&root_cid), Some("rev1")),
    );

    h.ops().apply_commit(input).unwrap();
    let seq = h.event_ops().get_max_seq();

    let event = h.event_ops().get_event_by_seq(seq).unwrap().unwrap();
    assert_eq!(event.did, did);
    assert_eq!(event.event_type, RepoEventType::Commit);
    assert_eq!(event.rev.as_deref(), Some("rev1"));
}

#[test]
fn import_repo_data_inserts_records() {
    let mut h = setup();
    let (user_id, _did, root_cid) = create_test_repo(&mut h, "bailey", 40);

    let collection = "app.bsky.feed.post";
    let rkey = "3k2import";
    let record_cid = test_cid_link(41);

    h.ops()
        .import_repo_data(
            user_id,
            &vec![],
            &vec![ImportRecord {
                collection: collection.to_string(),
                rkey: rkey.to_string(),
                record_cid: record_cid.clone(),
            }],
            Some(&root_cid),
            true,
        )
        .unwrap();

    let found = h
        .metastore
        .get_record_cid(user_id, collection, rkey)
        .unwrap()
        .unwrap();
    assert_eq!(found, record_cid);
}

#[test]
fn import_repo_data_cas_rejects_stale_root() {
    let mut h = setup();
    let (user_id, _did, _root_cid) = create_test_repo(&mut h, "olaren", 50);

    let stale = test_cid_link(99);
    let result = h
        .ops()
        .import_repo_data(user_id, &vec![], &vec![], Some(&stale), true);
    assert_eq!(result.unwrap_err(), ImportRepoError::ConcurrentModification);
}

#[test]
fn insert_record_blobs_and_backfill_query() {
    let mut h = setup();
    let (user_id_a, did_a, _) = create_test_repo(&mut h, "teq", 60);
    let (user_id_b, _did_b, _) = create_test_repo(&mut h, "nel", 61);

    let needing = h.ops().get_users_needing_record_blobs_backfill(100).unwrap();
    assert_eq!(needing.len(), 2);

    let uri = at_uri(did_a.as_str(), "app.bsky.feed.post", "3k2abc");
    let blob_cid = test_cid_link(62);
    h.ops()
        .insert_record_blobs(user_id_a, &vec![uri], &vec![blob_cid])
        .unwrap();

    let needing_after = h.ops().get_users_needing_record_blobs_backfill(100).unwrap();
    assert_eq!(needing_after.len(), 1);
    assert_eq!(needing_after[0].user_id, user_id_b);
}

#[test]
fn get_users_without_blocks_returns_users_with_no_blocks() {
    let mut h = setup();
    let (user_id_a, did_a, root_a) = create_test_repo(&mut h, "lyna", 70);
    let (user_id_b, _did_b, _root_b) = create_test_repo(&mut h, "bailey", 71);

    let new_root = test_cid_link(72);
    let mut input = commit(
        user_id_a,
        &did_a,
        Some(&root_a),
        &new_root,
        "rev1",
        commit_event(&did_a, Some(&new_root), None, Some("rev1")),
    );
    input.new_block_cids = vec![vec![0x01, 0x02, 0x03]];
    h.ops().apply_commit(input).unwrap();

    let without = h.ops().get_users_without_blocks().unwrap();
    assert_eq!(without.len(), 1);
    assert_eq!(without[0].user_id, user_id_b);
}

#[test]
fn apply_commit_without_expected_root_skips_cas() {
    let mut h = setup();
    let (user_id, did, _root_cid) = create_test_repo(&mut h, "kate", 80);

    let new_root = test_cid_link(81);
    let input = commit(
        user_id,
        &did,
        None,
        &new_root,
        "rev_force",
        commit_event(&did, None, None, Some("rev_force")),
    );

    h.ops().apply_commit(input).unwrap();
}

#[test]
fn apply_commit_update_preserves_new_backlinks() {
    let mut h = setup();
    let (user_id, did, root_cid) = create_test_repo(&mut h, "backlink_upd", 90);

    let collection = "app.bsky.feed.like";
    let rkey = "3k2like1";
    let record_cid = test_cid_link(91);
    let record_uri = at_uri(did.as_str(), collection, rkey);

    let mid_root = test_cid_link(92);
    let mut create_input = commit(
        user_id,
        &did,
        Some(&root_cid),
        &mid_root,
        "rev1",
        commit_event(&did, Some(&mid_root), Some(&root_cid), Some("rev1")),
    );
    create_input.record_upserts = vec![upsert(collection, rkey, &record_cid)];
    create_input.backlinks_to_add = vec![link(
        &record_uri,
        "at://did:plc:target_a/app.bsky.feed.post/p1",
    )];
    h.ops().apply_commit(create_input).unwrap();

    let target_a_prefix = backlink_target_prefix("at://did:plc:target_a/app.bsky.feed.post/p1");
    let count_a_before = h
        .metastore
        .partition(Partition::Indexes)
        .prefix(target_a_prefix.as_slice())
        .len();
    assert_eq!(count_a_before, 1);

    let final_root = test_cid_link(93);
    let new_record_cid = test_cid_link(94);
    let mut update_input = commit(
        user_id,
        &did,
        Some(&mid_root),
        &final_root,
        "rev2",
        commit_event(&did, Some(&final_root), Some(&mid_root), Some("rev2")),
    );
    update_input.record_upserts = vec![upsert(collection, rkey, &new_record_cid)];
    update_input.backlinks_to_add = vec![link(
        &record_uri,
        "at://did:plc:target_b/app.bsky.feed.post/p2",
    )];
    update_input.backlinks_to_remove = vec![record_uri];
    h.ops().apply_commit(update_input).unwrap();

    let indexes = h.metastore.partition(Partition::Indexes);
    let count_a_after = indexes.prefix(target_a_prefix.as_slice()).len();
    assert_eq!(count_a_after, 0);

    let target_b_prefix = backlink_target_prefix("at://did:plc:target_b/app.bsky.feed.post/p2");
    let count_b = indexes.prefix(target_b_prefix.as_slice()).len();
    assert_eq!(count_b, 1);
}

#[test]
fn crash_recovery_replays_mutation_set() {
    let user_id = new_user_id();
    let did = test_did("crash_alice");
    let handle = test_handle("crash_alice");
    let initial_root = test_cid_link(200);
    let new_root = test_cid_link(201);
    let record_cid = test_cid_link(202);
    let collection = "app.bsky.feed.post";
    let rkey = "3k2crash";

    let mut log = EventLog::new();
    let mut metastore = open_empty();
    metastore
        .create_repo(user_id, &did, &handle, &initial_root, "rev0")
        .unwrap();

    let mut input = commit(
        user_id,
        &did,
        Some(&initial_root),
        &new_root,
        "rev1",
        commit_event(&did, Some(&new_root), Some(&initial_root), Some("rev1")),
    );
    input.new_block_cids = vec![vec![0xAA, 0xBB]];
    input.record_upserts = vec![upsert(collection, rkey, &record_cid)];
    metastore.commit_ops(&mut log).apply_commit(input).unwrap();

    let mut metastore = reopen(&metastore);
    metastore
        .event_ops(&mut log)
        .write_last_applied_cursor_direct(0)
        .unwrap();

    let mut metastore = reopen(&metastore);
    let repo_before = metastore.get_repo(user_id).unwrap().unwrap();
    assert_eq!(repo_before.repo_root_cid, new_root);

    let mut event_ops = EventOps {
        repo_data: &mut metastore.repo_data,
        log: &mut log,
    };
    let cursor_before = event_ops.read_last_applied_cursor().unwrap();
    assert_eq!(cursor_before, Some(0));

    let recovered = event_ops
        .recover_metastore_mutations(&mut metastore.indexes)
        .unwrap();
    assert!(recovered > 0, "should replay at least one event");

    let cursor_after = event_ops.read_last_applied_cursor().unwrap();
    assert!(cursor_after.unwrap_or(0) > 0);
}

#[test]
fn crash_recovery_with_uncommitted_batch() {
    let user_id = new_user_id();
    let did = test_did("crash_bob");
    let handle = test_handle("crash_bob");
    let initial_root = test_cid_link(210);
    let new_root = test_cid_link(211);
    let record_cid = test_cid_link(212);
    let collection = "app.bsky.feed.post";
    let rkey = "3k2bob";

    let mut log = EventLog::new();
    let mut metastore = open_empty();
    metastore
        .create_repo(user_id, &did, &handle, &initial_root, "rev0")
        .unwrap();

    let mutation_set = CommitMutationSet {
        new_root_cid: new_root.to_bytes(),
        new_rev: "rev1".to_string(),
        record_upserts: vec![RecordMutationUpsert {
            collection: collection.to_owned(),
            rkey: rkey.to_owned(),
            cid_bytes: record_cid.to_bytes(),
        }],
        record_deletes: vec![],
        block_inserts: vec![vec![0xCC, 0xDD]],
        block_deletes: vec![],
        backlink_adds: vec![],
        backlink_remove_uris: vec![],
    };
    let ms_bytes = mutation_set.serialize();
    let commit_data = commit_event(&did, Some(&new_root), Some(&initial_root), Some("rev1"));

    let mut batch = Vec::new();
    let seq = metastore
        .event_ops(&mut log)
        .append_commit_event_into_batch(&mut batch, &commit_data, Some(&ms_bytes))
        .unwrap();
    assert_eq!(seq.as_i64(), 1);
    drop(batch);

    let mut metastore = reopen(&metastore);
    let repo = metastore.get_repo(user_id).unwrap().unwrap();
    assert_eq!(repo.repo_root_cid, initial_root);

    let record = metastore.get_record_cid(user_id, collection, rkey).unwrap();
    assert!(record.is_none());

    let mut event_ops = EventOps {
        repo_data: &mut metastore.repo_data,
        log: &mut log,
    };
    let recovered = event_ops
        .recover_metastore_mutations(&mut metastore.indexes)
        .unwrap();
    assert_eq!(recovered, 1);

    let repo_after = metastore.get_repo(user_id).unwrap().unwrap();
    assert_eq!(repo_after.repo_root_cid, new_root);
    assert_eq!(repo_after.repo_rev.as_deref(), Some("rev1"));

    let record_after = metastore.get_record_cid(user_id, collection, rkey).unwrap();
    assert_eq!(record_after, Some(record_cid));
}

#[test]
fn apply_commit_backlinks_isolated_by_collection() {
    let mut h = setup();
    let (user_id, did, root_cid) = create_test_repo(&mut h, "col_iso", 95);

    let col_like = "app.bsky.feed.like";
    let col_repost = "app.bsky.feed.repost";
    let rkey = "same_rkey";
    let target = "at://did:plc:someone/app.bsky.feed.post/p1";

    let mid_root = test_cid_link(96);
    let uri_like = at_uri(did.as_str(), col_like, rkey);
    let uri_repost = at_uri(did.as_str(), col_repost, rkey);

    let mut input = commit(
        user_id,
        &did,
        Some(&root_cid),
        &mid_root,
        "rev1",
        commit_event(&did, Some(&mid_root), Some(&root_cid), Some("rev1")),
    );
    input.record_upserts = vec![
        upsert(col_like, rkey, &test_cid_link(97)),
        upsert(col_repost, rkey, &test_cid_link(98)),
    ];
    input.backlinks_to_add = vec![link(&uri_like, target), link(&uri_repost, target)];
    h.ops().apply_commit(input).unwrap();

    let user_hash = h.metastore.user_hashes().get(&user_id).unwrap();
    let target_prefix = backlink_target_prefix(target);
    let user_prefix = backlink_by_user_prefix(user_hash);

    let indexes = h.metastore.partition(Partition::Indexes);
    assert_eq!(indexes.prefix(target_prefix.as_slice()).len(), 2);
    assert_eq!(indexes.prefix(user_prefix.as_slice()).len(), 2);

    let final_root = test_cid_link(99);
    let mut remove_like = commit(
        user_id,
        &did,
        Some(&mid_root),
        &final_root,
        "rev2",
        commit_event(&did, Some(&final_root), Some(&mid_root), Some("rev2")),
    );
    remove_like.backlinks_to_remove = vec![uri_like];
    h.ops().apply_commit(remove_like).unwrap();

    let indexes = h.metastore.partition(Partition::Indexes);
    assert_eq!(indexes.prefix(target_prefix.as_slice()).len(), 1);
    assert_eq!(indexes.prefix(user_prefix.as_slice()).len(), 1);
}

#[test]
fn import_checks_block_identifiers_only_where_they_are_stored() {
    let mut h = setup();
    let (user_id, _did, _root) = create_test_repo(&mut h, "bailey", 40);
    let blocks = vec![ImportBlock {
        cid_bytes: vec![1, 2, 3],
        data: vec![],
    }];

    assert_eq!(
        h.ops()
            .import_repo_data(user_id, &blocks, &vec![], None, true),
        Err(ImportRepoError::Database(
            "block CID has invalid length: 3 (expected 36)".to_string()
        ))
    );
    h.ops()
        .import_repo_data(user_id, &blocks, &vec![], None, false)
        .unwrap();
    assert_eq!(
        h.ops()
            .import_repo_data(new_user_id(), &vec![], &vec![], None, false),
        Err(ImportRepoError::RepoNotFound)
    );
}

#[test]
fn commit_to_a_broken_root_is_a_database_error() {
    let mut h = setup();
    let (user_id, did, root) = create_test_repo(&mut h, "nel", 5);
    let hash = h.metastore.user_hashes().get(&user_id).unwrap();
    let key = repo_meta_key(hash);
    let raw = h.metastore.repo_data.get(&key).unwrap();
    let mut meta = tranquil_metastore::repo_meta::RepoMetaValue::deserialize(&raw).unwrap();
    meta.repo_root_cid = vec![];
    h.metastore.repo_data.commit(vec![Write::Put {
        key,
        value: meta.serialize(),
    }]);

    let input = commit(
        user_id,
        &did,
        Some(&root),
        &test_cid_link(6),
        "rev1",
        commit_event(&did, None, None, None),
    );
    assert!(matches!(
        h.ops().apply_commit(input),
        Err(ApplyCommitError::Database(_))
    ));
}

#[test]
fn blobs_of_an_unknown_user_are_refused() {
    let mut h = setup();
    assert_eq!(
        h.ops()
            .insert_record_blobs(new_user_id(), &vec![], &vec![]),
        Err(MetastoreError::InvalidInput("unknown user_id"))
    );
}

#[test]
fn account_that_is_not_active_is_reported_after_a_commit() {
    let mut h = setup();
    let (user_id, did, root) = create_test_repo(&mut h, "kate", 7);
    let hash = h.metastore.user_hashes().get(&user_id).unwrap();
    let key = repo_meta_key(hash);
    let raw = h.metastore.repo_data.get(&key).unwrap();
    let mut meta = tranquil_metastore::repo_meta::RepoMetaValue::deserialize(&raw).unwrap();
    meta.status = tranquil_metastore::repo_meta::RepoStatus::Deactivated;
    h.metastore.repo_data.commit(vec![Write::Put {
        key,
        value: meta.serialize(),
    }]);

    let input = commit(
        user_id,
        &did,
        Some(&root),
        &test_cid_link(8),
        "rev1",
        commit_event(&did, None, None, None),
    );
    let result = h.ops().apply_commit(input).unwrap();
    assert!(!result.is_account_active);
}

#[test]
fn lost_commits_are_restored_in_order() {
    let mut h = setup();
    let (nel, nel_did, nel_root) = create_test_repo(&mut h, "nel", 20);
    let (teq, teq_did, teq_root) = create_test_repo(&mut h, "teq", 21);
    let kept = reopen(&h.metastore);
    let collection = "app.bsky.feed.like";
    let uri = at_uri(nel_did.as_str(), collection, "one");
    let target = "at://did:plc:target/app.bsky.feed.post/p1";

    let mid = test_cid_link(22);
    let mut first = commit(
        nel,
        &nel_did,
        Some(&nel_root),
        &mid,
        "rev1",
        commit_event(&nel_did, Some(&mid), Some(&nel_root), Some("rev1")),
    );
    first.record_upserts = vec![upsert(collection, "one", &test_cid_link(23))];
    first.backlinks_to_add = vec![link(&uri, target)];
    h.ops().apply_commit(first).unwrap();

    let teq_new = test_cid_link(24);
    let second = commit(
        teq,
        &teq_did,
        Some(&teq_root),
        &teq_new,
        "rev1",
        commit_event(&teq_did, Some(&teq_new), Some(&teq_root), Some("rev1")),
    );
    h.ops().apply_commit(second).unwrap();

    let last = test_cid_link(25);
    let mut third = commit(
        nel,
        &nel_did,
        Some(&mid),
        &last,
        "rev2",
        commit_event(&nel_did, Some(&last), Some(&mid), Some("rev2")),
    );
    third.record_upserts = vec![upsert(collection, "two", &test_cid_link(26))];
    third.backlinks_to_remove = vec![uri];
    h.ops().apply_commit(third).unwrap();

    let mut lost = kept;
    let mut ops = EventOps {
        repo_data: &mut lost.repo_data,
        log: &mut h.log,
    };
    assert_eq!(ops.recover_metastore_mutations(&mut lost.indexes), Ok(3));
    assert_eq!(lost.repo_data.prefix(&[]), h.metastore.repo_data.prefix(&[]));
    assert_eq!(lost.indexes.prefix(&[]), h.metastore.indexes.prefix(&[]));
    assert_eq!(lost.get_repo(nel).unwrap().unwrap().repo_root_cid, last);
    assert_eq!(lost.get_repo(teq).unwrap().unwrap().repo_root_cid, teq_new);
}

#[test]
fn links_of_other_records_stay() {
    let mut h = setup();
    let (user_id, did, root) = create_test_repo(&mut h, "nel", 30);
    let collection = "app.bsky.feed.like";
    let gone = at_uri(did.as_str(), collection, "gone");
    let kept = at_uri(did.as_str(), collection, "gone2");
    let target = "at://did:plc:target/app.bsky.feed.post/p1";
    let mid = test_cid_link(31);
    let mut add = commit(
        user_id,
        &did,
        Some(&root),
        &mid,
        "rev1",
        commit_event(&did, Some(&mid), Some(&root), Some("rev1")),
    );
    add.backlinks_to_add = vec![link(&gone, target), link(&kept, target)];
    h.ops().apply_commit(add).unwrap();
    let prefix = backlink_target_prefix(target);
    assert_eq!(h.metastore.indexes.prefix(&prefix).len(), 2);

    let last = test_cid_link(32);
    let mut remove = commit(
        user_id,
        &did,
        Some(&mid),
        &last,
        "rev2",
        commit_event(&did, Some(&last), Some(&mid), Some("rev2")),
    );
    remove.backlinks_to_remove = vec![gone];
    h.ops().apply_commit(remove).unwrap();
    let left = h.metastore.indexes.prefix(&prefix);
    assert_eq!(left.len(), 1);
    assert!(left[0].key.windows(5).any(|w| w == b"gone2"));
}
