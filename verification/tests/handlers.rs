use std::hash::{Hash, Hasher};

use tranquil_metastore::backlinks::{backlink_target_prefix, BacklinkMutation, BacklinkPath};
use tranquil_metastore::commit_ops::{ApplyCommitError, ApplyCommitInput, ImportRepoError};
use tranquil_metastore::dispatch::{
    dispatch, CommitReply, DelegationReply, EventReply, Reply, RepoReply,
};
use tranquil_metastore::dispatch_infra::InfraReply;
use tranquil_metastore::account_steps::CreateAccountError;
use tranquil_metastore::errors::{DbError, MetastoreError};
use tranquil_metastore::eventlog::EventLog;
use tranquil_metastore::invite_ops::InviteCodeError;
use tranquil_metastore::events::{AccountStatus, CommitEventData, RepoEventType};
use tranquil_metastore::metastore::Metastore;
use tranquil_metastore::purge::{list_repos, RepoListEntry};
use tranquil_metastore::replies::{fail, lost_account, lost_commit, lost_import, lost_invite};
use tranquil_metastore::pool::{
    handler_count, lost_reply_error, send_error, Roster, SendFailure, DEFAULT_CHANNEL_BOUND,
};
use tranquil_metastore::requests::{
    BacklinkRequest, BlobRequest, CommitRequest, DelegationRequest, EventRequest, InfraRequest,
    MetastoreRequest, RecordRequest, RepoRequest, UserBlockRequest, UserRequest,
};
use tranquil_metastore::retention::{forgotten_events, retention_window, RetentionWindow};
use tranquil_metastore::routing::{cid_to_routing, did_to_routing, uuid_to_routing, Routing};
use tranquil_metastore::store::Keyspace;
use tranquil_metastore::types::{CidLink, DbScope, Did, Handle, SequenceNumber, Uuid};

struct TestHarness {
    store: Metastore,
    log: EventLog,
}

impl TestHarness {
    fn send(&mut self, request: MetastoreRequest) -> Reply {
        dispatch(&mut self.store, &mut self.log, request, false)
    }
}

fn setup() -> TestHarness {
    TestHarness {
        store: Metastore::open(
            Keyspace::new(),
            Keyspace::new(),
            Keyspace::new(),
            Keyspace::new(),
            Keyspace::new(),
            Keyspace::new(),
        )
        .unwrap(),
        log: EventLog::new(),
    }
}

fn new_user_id() -> Uuid {
    Uuid {
        bits: uuid::Uuid::new_v4().as_u128(),
    }
}

fn test_cid_link(seed: u8) -> CidLink {
    let mut bytes = vec![0x01, 0x71, 0x12, 0x20];
    bytes.extend((0..32u8).map(|i| seed.wrapping_add(i)));
    CidLink::from_bytes(&bytes).unwrap()
}

fn create_repo(user_id: Uuid, did: &str, handle: &str, cid: &CidLink) -> MetastoreRequest {
    MetastoreRequest::Repo(RepoRequest::CreateRepoFull {
        user_id,
        did: Did::from(did.to_string()),
        handle: Handle::from(handle.to_string()),
        repo_root_cid: cid.clone(),
        repo_rev: "rev1".to_string(),
    })
}

#[test]
fn create_and_get_roundtrip() {
    let mut h = setup();
    let user_id = new_user_id();
    let cid = test_cid_link(1);

    let created = h.send(create_repo(
        user_id,
        "did:plc:handler_test",
        "handler.test.invalid",
        &cid,
    ));
    assert_eq!(created, Reply::Repo(RepoReply::Done(Ok(()))));

    let reply = h.send(MetastoreRequest::Repo(RepoRequest::GetRepo { user_id }));
    match reply {
        Reply::Repo(RepoReply::Repo(Ok(Some(repo)))) => {
            assert_eq!(repo.repo_root_cid, cid);
            assert_eq!(repo.repo_rev.as_deref(), Some("rev1"));
        }
        other => panic!("unexpected reply {other:?}"),
    }
}

#[test]
fn routing_determinism() {
    let user_id = Uuid { bits: 0x12345678 };
    let bits = user_id.bits as u64;
    let thread_count = 4usize;
    let expected = (bits as usize) % thread_count;
    let h = setup();
    let mut roster = Roster::new(thread_count);
    (0..100).for_each(|_| {
        let routing = uuid_to_routing(h.store.user_hashes(), &user_id);
        assert_eq!(routing, Routing::Sharded(bits));
        assert_eq!(roster.assign(routing), Ok(expected));
    });
}

#[test]
fn global_round_robin_distributes() {
    let thread_count = 4usize;
    let mut roster = Roster::new(thread_count);
    let indices: Vec<usize> = (0..8)
        .map(|_| roster.assign(Routing::Global).unwrap())
        .collect();
    assert_eq!(indices, vec![0, 1, 2, 3, 0, 1, 2, 3]);
}

#[test]
fn closed_pool_assigns_nothing() {
    let mut roster = Roster::new(2);
    roster.close();
    let refused = Err(DbError::Connection(
        "metastore handler pool shut down".to_string(),
    ));
    assert_eq!(roster.assign(Routing::Global), refused);
    assert_eq!(roster.assign(Routing::Sharded(7)), refused);
    let closed = roster;
    roster.close();
    assert_eq!(roster, closed);
    assert_eq!(roster.thread_count(), 2);
}

#[test]
fn oldest_events_are_forgotten() {
    let mut h = setup();
    for _ in 0..3 {
        h.send(MetastoreRequest::Event(EventRequest::InsertIdentityEvent {
            did: Did::new("did:plc:nel".to_owned()).unwrap(),
            handle: None,
        }));
    }
    let at = h.log.entries()[2].event.created_at * 1_000;
    let all = retention_window(at + 1, at + 1).unwrap();
    assert_eq!(forgotten_events(&h.log, &all), 2);
    let none = retention_window(0, at + 1).unwrap();
    assert_eq!(forgotten_events(&h.log, &none), 0);
    assert_eq!(forgotten_events(&EventLog::new(), &all), 0);
}

#[test]
fn failures_to_send_have_texts() {
    assert_eq!(
        send_error(SendFailure::Full),
        DbError::Query("metastore handler backpressure".to_string())
    );
    assert_eq!(
        send_error(SendFailure::Disconnected),
        DbError::Connection("metastore handler pool shut down".to_string())
    );
    assert_eq!(
        lost_reply_error(),
        DbError::Connection("metastore handler thread closed".to_string())
    );
}

#[test]
fn pool_has_at_least_one_handler() {
    assert_eq!(handler_count(Some(3), Some(16)), 3);
    assert_eq!(handler_count(Some(0), Some(16)), 1);
    assert_eq!(handler_count(None, Some(16)), 8);
    assert_eq!(handler_count(None, Some(1)), 1);
    assert_eq!(handler_count(None, None), 1);
    assert_eq!(DEFAULT_CHANNEL_BOUND, 256);
}

#[test]
fn user_and_account_go_to_one_handler() {
    let mut h = setup();
    let user_id = new_user_id();
    let did = "did:plc:handler_test";
    h.send(create_repo(user_id, did, "handler.test.invalid", &test_cid_link(1)));
    let by_user = uuid_to_routing(h.store.user_hashes(), &user_id);
    assert_eq!(by_user, did_to_routing(did));
    assert_eq!(
        MetastoreRequest::Repo(RepoRequest::GetRepo { user_id }).routing(h.store.user_hashes()),
        by_user
    );
    assert_eq!(
        MetastoreRequest::Event(EventRequest::GetMaxSeq).routing(h.store.user_hashes()),
        Routing::Global
    );
}

#[test]
fn content_is_routed_by_the_hash_of_its_text() {
    let text = "bafyreib2rxk3ryblouj3fxza5jvx6psmwewwessc4m6g6e7pqhhkwqomfi";
    let mut hasher = siphasher::sip::SipHasher24::new();
    text.hash(&mut hasher);
    assert_eq!(cid_to_routing(text), Routing::Sharded(hasher.finish()));
}

#[test]
fn retention_window_reaches_back_to_the_cutoff() {
    assert_eq!(
        retention_window(1_000, 5_000),
        Ok(RetentionWindow {
            now: 5_000,
            max_age: 4_000
        })
    );
    let window = retention_window(1_000, 5_000).unwrap();
    assert!(window.forgets(999));
    assert!(!window.forgets(1_000));
    assert!(!window.forgets(6_000));
    assert_eq!(
        retention_window(6_000, 5_000),
        Ok(RetentionWindow {
            now: 5_000,
            max_age: 0
        })
    );
    assert_eq!(
        retention_window(-1, 5_000),
        Err(DbError::Query(
            "eventlog retention: refusing pre-epoch cutoff -1 us (would prune entire log)"
                .to_string()
        ))
    );
    assert_eq!(
        retention_window(0, -7),
        Err(DbError::Query(
            "eventlog retention: current wall time -7 us out of u64 range".to_string()
        ))
    );
}

#[test]
fn events_are_answered() {
    let mut h = setup();
    let did = Did::from("did:plc:handler_test".to_string());
    let reply = h.send(MetastoreRequest::Event(EventRequest::InsertAccountEvent {
        did: did.clone(),
        status: AccountStatus::Active,
    }));
    assert_eq!(
        reply,
        Reply::Event(EventReply::Number(Ok(SequenceNumber::from_raw(1))))
    );
    h.send(MetastoreRequest::Event(EventRequest::InsertIdentityEvent {
        did: did.clone(),
        handle: None,
    }));
    assert_eq!(
        h.send(MetastoreRequest::Event(EventRequest::GetMaxSeq)),
        Reply::Event(EventReply::Number(Ok(SequenceNumber::from_raw(2))))
    );
    assert_eq!(
        h.send(MetastoreRequest::Event(
            EventRequest::PurgeDidEventsKeepingLatest { did }
        )),
        Reply::Event(EventReply::Done(Ok(())))
    );
    match h.send(MetastoreRequest::Event(EventRequest::GetEventsSinceSeq {
        since_seq: SequenceNumber::from_raw(0),
        limit: None,
    })) {
        Reply::Event(EventReply::Events(Ok(events))) => {
            assert_eq!(events.len(), 1);
            assert_eq!(events[0].event_type, RepoEventType::Identity);
        }
        other => panic!("unexpected reply {other:?}"),
    }
}

#[test]
fn records_blocks_and_links_are_answered() {
    let mut h = setup();
    let user_id = new_user_id();
    let did = "did:plc:handler_test";
    h.send(create_repo(user_id, did, "handler.test.invalid", &test_cid_link(1)));
    let done = Reply::Repo(RepoReply::Done(Ok(())));

    let cid = test_cid_link(9);
    assert_eq!(
        h.send(MetastoreRequest::Record(RecordRequest::UpsertRecords {
            repo_id: user_id,
            collections: vec!["app.bsky.feed.post".to_string()],
            rkeys: vec!["a".to_string()],
            record_cids: vec![cid.clone()],
            repo_rev: "rev2".to_string(),
        })),
        done
    );
    let get = || {
        MetastoreRequest::Record(RecordRequest::GetRecordCid {
            repo_id: user_id,
            collection: "app.bsky.feed.post".to_string(),
            rkey: "a".to_string(),
        })
    };
    assert_eq!(h.send(get()), Reply::Repo(RepoReply::Record(Ok(Some(cid)))));
    assert_eq!(
        h.send(MetastoreRequest::Record(RecordRequest::DeleteRecords {
            repo_id: user_id,
            collections: vec!["app.bsky.feed.post".to_string()],
            rkeys: vec!["a".to_string()],
        })),
        done
    );
    assert_eq!(h.send(get()), Reply::Repo(RepoReply::Record(Ok(None))));

    assert_eq!(
        h.send(MetastoreRequest::UserBlock(
            UserBlockRequest::InsertUserBlocks {
                user_id,
                block_cids: vec![vec![1, 2]],
                repo_rev: "rev2".to_string(),
            }
        )),
        done
    );
    assert_eq!(
        h.send(MetastoreRequest::Commit(CommitRequest::GetUsersWithoutBlocks)),
        Reply::Commit(CommitReply::WithoutBlocks(Ok(vec![])))
    );
    assert_eq!(
        h.send(MetastoreRequest::UserBlock(
            UserBlockRequest::DeleteUserBlocks {
                user_id,
                block_cids: vec![vec![1, 2]],
            }
        )),
        done
    );
    match h.send(MetastoreRequest::Commit(CommitRequest::GetUsersWithoutBlocks)) {
        Reply::Commit(CommitReply::WithoutBlocks(Ok(users))) => assert_eq!(users.len(), 1),
        other => panic!("unexpected reply {other:?}"),
    }

    let uri = "at://did:plc:handler_test/app.bsky.feed.like/a".to_string();
    let target = "at://did:plc:target/app.bsky.feed.post/p";
    assert_eq!(
        h.send(MetastoreRequest::Backlink(BacklinkRequest::AddBacklinks {
            repo_id: user_id,
            backlinks: vec![BacklinkMutation {
                uri: uri.clone(),
                path: BacklinkPath::Subject.to_u8(),
                link_to: target.to_string(),
            }],
        })),
        done
    );
    assert_eq!(h.store.indexes.prefix(&backlink_target_prefix(target)).len(), 1);
    assert_eq!(
        h.send(MetastoreRequest::Backlink(
            BacklinkRequest::RemoveBacklinksByUri {
                uri,
                did: Some(Did::from(did.to_string())),
            }
        )),
        done
    );
    assert_eq!(h.store.indexes.prefix(&backlink_target_prefix(target)).len(), 0);
}

#[test]
fn requests_about_unknown_users_are_refused() {
    let mut h = setup();
    assert_eq!(
        h.send(MetastoreRequest::UserBlock(
            UserBlockRequest::InsertUserBlocks {
                user_id: new_user_id(),
                block_cids: vec![],
                repo_rev: "rev".to_string(),
            }
        )),
        Reply::Repo(RepoReply::Done(Err(DbError::Query(
            "unknown user_id".to_string()
        ))))
    );
    assert_eq!(
        h.send(MetastoreRequest::Commit(CommitRequest::ImportRepoData {
            user_id: new_user_id(),
            blocks: vec![],
            records: vec![],
            expected_root_cid: None,
        })),
        Reply::Commit(CommitReply::Import(Err(ImportRepoError::RepoNotFound)))
    );
    let did = Did::from("did:plc:nobody".to_string());
    let input = ApplyCommitInput {
        user_id: new_user_id(),
        did: did.clone(),
        expected_root_cid: None,
        new_root_cid: test_cid_link(1),
        new_rev: "rev1".to_string(),
        new_block_cids: vec![],
        obsolete_block_cids: vec![],
        record_upserts: vec![],
        record_deletes: vec![],
        backlinks_to_add: vec![],
        backlinks_to_remove: vec![],
        commit_event: CommitEventData {
            did,
            event_type: RepoEventType::Commit,
            commit_cid: None,
            prev_cid: None,
            ops: None,
            blobs: None,
            blocks: None,
            prev_data_cid: None,
            rev: None,
        },
    };
    assert_eq!(
        h.send(MetastoreRequest::Commit(CommitRequest::ApplyCommit { input })),
        Reply::Commit(CommitReply::Commit(Err(ApplyCommitError::RepoNotFound)))
    );
}

#[test]
fn delegations_and_settings_are_answered() {
    let mut h = setup();
    let owner = Did::from("did:plc:nel".to_string());
    let ctrl = Did::from("did:plc:teq".to_string());
    match h.send(MetastoreRequest::Delegation(
        DelegationRequest::CreateDelegation {
            delegated_did: owner.clone(),
            controller_did: ctrl.clone(),
            granted_scopes: DbScope::new("atproto").unwrap(),
            granted_by: owner.clone(),
        },
    )) {
        Reply::Delegation(DelegationReply::Id(Ok(_))) => {}
        other => panic!("unexpected reply {other:?}"),
    }
    assert_eq!(
        h.send(MetastoreRequest::Delegation(
            DelegationRequest::CountActiveControllers {
                delegated_did: owner.clone()
            }
        )),
        Reply::Delegation(DelegationReply::Number(Ok(1)))
    );
    assert_eq!(
        h.send(MetastoreRequest::Delegation(
            DelegationRequest::RevokeDelegation {
                delegated_did: owner.clone(),
                controller_did: ctrl,
                revoked_by: owner.clone(),
            }
        )),
        Reply::Delegation(DelegationReply::Flag(Ok(true)))
    );

    assert_eq!(
        h.send(MetastoreRequest::Infra(InfraRequest::UpsertServerConfig {
            key: "k".to_string(),
            value: "v".to_string(),
        })),
        Reply::Infra(InfraReply::Done(Ok(())))
    );
    assert_eq!(
        h.send(MetastoreRequest::Infra(InfraRequest::GetServerConfig {
            key: "k".to_string()
        })),
        Reply::Infra(InfraReply::Text(Ok(Some("v".to_string()))))
    );

    h.send(MetastoreRequest::Infra(InfraRequest::CreateInviteCode {
        code: "inv".to_string(),
        use_count: 1,
        for_account: None,
    }));
    let consume = || {
        MetastoreRequest::User(UserRequest::CheckAndConsumeInviteCode {
            code: "inv".to_string(),
        })
    };
    assert_eq!(h.send(consume()), Reply::Repo(RepoReply::Flag(Ok(true))));
    assert_eq!(h.send(consume()), Reply::Repo(RepoReply::Flag(Ok(false))));

    assert_eq!(
        h.send(MetastoreRequest::Blob(BlobRequest::ListBlobsSinceRev {
            did: owner,
            since: "rev".to_string(),
        })),
        Reply::Repo(RepoReply::Blobs(Ok(vec![])))
    );
    assert_eq!(
        h.send(MetastoreRequest::User(UserRequest::CountUsers)),
        Reply::Elsewhere
    );
}

#[test]
fn purged_repo_leaves_nothing_behind() {
    let mut h = setup();
    let user_id = new_user_id();
    let did = Did::from("did:plc:handler_test".to_string());
    h.send(create_repo(user_id, did.as_str(), "handler.test.invalid", &test_cid_link(1)));
    let done = Reply::Repo(RepoReply::Done(Ok(())));
    let target = "at://did:plc:target/app.bsky.feed.post/p";
    let add = |rkey: &str| {
        MetastoreRequest::Backlink(BacklinkRequest::AddBacklinks {
            repo_id: user_id,
            backlinks: vec![BacklinkMutation {
                uri: format!("at://did:plc:handler_test/app.bsky.feed.like/{rkey}"),
                path: BacklinkPath::Subject.to_u8(),
                link_to: target.to_string(),
            }],
        })
    };
    h.send(add("a"));
    h.send(add("b"));
    h.send(MetastoreRequest::Record(RecordRequest::UpsertRecords {
        repo_id: user_id,
        collections: vec!["c".to_string()],
        rkeys: vec!["a".to_string()],
        record_cids: vec![test_cid_link(3)],
        repo_rev: "rev2".to_string(),
    }));
    assert_eq!(
        h.send(MetastoreRequest::Record(RecordRequest::DeleteAllRecords {
            repo_id: user_id
        })),
        done
    );
    assert_eq!(h.store.get_record_cid(user_id, "c", "a"), Ok(None));
    assert!(h.store.get_repo(user_id).unwrap().is_some());

    assert_eq!(
        h.send(MetastoreRequest::Backlink(
            BacklinkRequest::RemoveBacklinksByRepo { repo_id: user_id }
        )),
        done
    );
    assert!(h.store.indexes.prefix(&[]).is_empty());
    assert!(matches!(
        h.send(MetastoreRequest::Backlink(
            BacklinkRequest::RemoveBacklinksByRepo { repo_id: new_user_id() }
        )),
        Reply::Repo(RepoReply::Done(Err(DbError::Query(_))))
    ));

    h.send(add("a"));
    assert_eq!(
        h.store
            .purge_repo_side_data(Err(MetastoreError::CorruptData("blob")), &did),
        Err(MetastoreError::CorruptData("blob"))
    );
    assert_eq!(h.store.indexes.prefix(&[]).len(), 2);
    assert_eq!(h.store.purge_repo_side_data(Ok(()), &did), Ok(()));
    assert!(h.store.indexes.prefix(&[]).is_empty());
}

#[test]
fn repos_without_an_account_cannot_be_listed() {
    let entry = |did: Option<&str>| RepoListEntry {
        did: did.map(|d| d.to_string()),
        deactivated_at: Some(5),
        takedown_ref: None,
        repo_root_cid: test_cid_link(1),
        repo_rev: Some("rev".to_string()),
    };
    let listed = list_repos(vec![entry(Some("did:plc:a")), entry(Some("did:plc:b"))]).unwrap();
    assert_eq!(listed.len(), 2);
    assert_eq!(listed[1].did.as_str(), "did:plc:b");
    assert_eq!(listed[1].deactivated_at, Some(5));
    assert_eq!(
        list_repos(vec![entry(Some("did:plc:a")), entry(None)]),
        Err(DbError::CorruptData("repo_meta missing DID field"))
    );
}

#[test]
fn failed_writes_are_reported_in_kind() {
    assert_eq!(
        fail(Reply::Repo(RepoReply::Done(Ok(()))), "disk full"),
        Reply::Repo(RepoReply::Done(Err(DbError::Query("disk full".to_string()))))
    );
    assert_eq!(
        fail(Reply::Commit(CommitReply::Import(Ok(()))), "disk full"),
        Reply::Commit(CommitReply::Import(Err(ImportRepoError::Database(
            "disk full".to_string()
        ))))
    );
    assert_eq!(fail(Reply::Elsewhere, "disk full"), Reply::Elsewhere);
}

#[test]
fn lost_answers_are_reported_in_kind() {
    let text = "metastore handler thread closed".to_string();
    assert_eq!(lost_commit(), ApplyCommitError::Database(text.clone()));
    assert_eq!(lost_import(), ImportRepoError::Database(text.clone()));
    assert_eq!(lost_account(), CreateAccountError::Database(text.clone()));
    assert_eq!(
        lost_invite(),
        InviteCodeError::DatabaseError(DbError::Connection(text))
    );
}
