use tranquil_metastore::delegations::DelegationActionType;
use tranquil_metastore::errors::{DbError, MetastoreError};
use tranquil_metastore::event_ops::EventOps;
use tranquil_metastore::eventlog::EventLog;
use tranquil_metastore::events::{AccountStatus, RepoEventType};
use tranquil_metastore::infra_schema::{
    blob_meta_key, report_key, text_key, BlobMetaValue, CommsChannel, CommsType, ReportValue,
};
use tranquil_metastore::keys::{KeyTag, UserHash};
use tranquil_metastore::metastore::Metastore;
use tranquil_metastore::repo_meta::{handle_key, repo_meta_key, stage_repo_meta_removal};
use tranquil_metastore::store::{Keyspace, Write};
use tranquil_metastore::types::{DbScope, Did, SequenceNumber, Uuid};
use tranquil_metastore::users::{user_primary_key, UserValue};

fn fresh() -> Metastore {
    Metastore::open(
        Keyspace::new(),
        Keyspace::new(),
        Keyspace::new(),
        Keyspace::new(),
        Keyspace::new(),
        Keyspace::new(),
    )
    .unwrap()
}

fn did(s: &str) -> Did {
    Did::new(s.to_owned()).unwrap()
}

/// A user with a row and a hash.
fn add_user(ms: &mut Metastore, bits: u128, did: &str, handle: &str) -> Uuid {
    let id = Uuid { bits };
    let hash = UserHash::from_did(did);
    let write = ms.user_hashes.stage_insert(id, hash).unwrap();
    ms.repo_data.commit(vec![write]);
    ms.users.commit(vec![Write::Put {
        key: user_primary_key(hash),
        value: UserValue {
            id,
            did: did.to_string(),
            handle: handle.to_string(),
            email: None,
            created_at_ms: 1_700_000_000_000,
            deactivated_at_ms: None,
            invites_disabled: false,
            email_verified: true,
        }
        .serialize(),
    }]);
    id
}

#[test]
fn audit_log_starts_with_the_newest_action() {
    let mut ms = fresh();
    let mut ops = ms.delegation_ops();
    let owner = did("did:plc:nel");
    let other = did("did:plc:teq");
    for (bits, now) in [(1u128, 1_000i64), (2, 3_000), (3, 2_000)] {
        ops.log_delegation_action_at(
            &owner,
            &other,
            Some(&other),
            DelegationActionType::RepoWrite,
            Some(br#"{ "a" : 1 }"#),
            Some("127.0.0.1"),
            None,
            Uuid { bits },
            now,
        );
    }
    assert_eq!(ops.count_audit_log_entries(&owner), Ok(3));
    assert_eq!(ops.count_audit_log_entries(&other), Ok(0));
    let all = ops.get_audit_log_for_account(&owner, 10, 0).unwrap();
    let ids: Vec<u128> = all.iter().map(|e| e.id.bits).collect();
    assert_eq!(ids, vec![2, 3, 1]);
    assert_eq!(all[0].action_type, DelegationActionType::RepoWrite);
    assert_eq!(all[0].action_details, Some(br#"{"a":1}"#.to_vec()));
    assert_eq!(all[0].ip_address, Some("127.0.0.1".to_string()));
    assert_eq!(all[0].user_agent, None);
    assert_eq!(all[0].created_at, 3_000);
    let page = ops.get_audit_log_for_account(&owner, 1, 1).unwrap();
    assert_eq!(page.len(), 1);
    assert_eq!(page[0].id.bits, 3);
    assert!(ops.get_audit_log_for_account(&owner, -1, 0).unwrap().is_empty());
}

#[test]
fn grants_are_listed_from_both_sides() {
    let mut ms = fresh();
    add_user(&mut ms, 1, "did:plc:nel", "nel.test");
    add_user(&mut ms, 2, "did:plc:teq", "teq.test");
    let owner = did("did:plc:nel");
    let local = did("did:plc:teq");
    let remote = did("did:plc:olaren");
    let scope = DbScope::new("atproto").unwrap();
    let mut ops = ms.delegation_ops();
    ops.create_delegation_at(&owner, &local, &scope, &owner, Uuid { bits: 10 }, 1_000);
    ops.create_delegation_at(&owner, &remote, &scope, &owner, Uuid { bits: 11 }, 2_000);

    let mut listed = ops.get_delegations_for_account(&owner).unwrap();
    listed.sort_by_key(|c| c.granted_at);
    assert_eq!(listed.len(), 2);
    assert_eq!(listed[0].did.as_str(), "did:plc:teq");
    assert_eq!(
        listed[0].handle.as_ref().map(|h| h.as_str().to_owned()),
        Some("teq.test".to_owned())
    );
    assert!(listed[0].is_local);
    assert_eq!(listed[1].did.as_str(), "did:plc:olaren");
    assert!(!listed[1].is_local);

    let controlled = ops.get_accounts_controlled_by(&remote).unwrap();
    assert_eq!(controlled.len(), 1);
    assert_eq!(controlled[0].did.as_str(), "did:plc:nel");
    assert_eq!(controlled[0].handle.as_str(), "nel.test");

    assert_eq!(ops.revoke_delegation_at(&owner, &remote, &owner, 3_000), Ok(true));
    assert_eq!(ops.revoke_delegation_at(&owner, &remote, &owner, 4_000), Ok(false));
    assert!(ops.get_accounts_controlled_by(&remote).unwrap().is_empty());
    let revoked = ops.get_delegation(&owner, &remote).unwrap().unwrap();
    assert_eq!(revoked.revoked_at, Some(3_000));
}

#[test]
fn history_starts_with_the_newest_message() {
    let mut ms = fresh();
    let user = Uuid { bits: 5 };
    let mut ops = ms.infra_ops();
    for (bits, now) in [(1u128, 1_000i64), (2, 3_000), (3, 2_000)] {
        ops.enqueue_comms_at(
            Some(user),
            CommsChannel::Email,
            CommsType::Welcome,
            "a@b.test",
            None,
            "body",
            None,
            Uuid { bits },
            now,
        );
    }
    let rows = ops.get_notification_history(user, 2).unwrap();
    let times: Vec<i64> = rows.iter().map(|r| r.created_at).collect();
    assert_eq!(times, vec![3_000, 2_000]);
    let latest = ops.get_latest_comms_for_user(user, CommsType::Welcome, 2).unwrap();
    let times: Vec<i64> = latest.iter().map(|r| r.created_at).collect();
    assert_eq!(times, vec![3_000, 2_000]);
    assert_eq!(ops.count_comms_by_type(user, CommsType::Welcome), Ok(3));
    assert_eq!(ops.delete_comms_by_type_for_user(user, CommsType::Welcome), Ok(3));
    assert_eq!(ops.count_comms_by_type(user, CommsType::Welcome), Ok(0));
}

#[test]
fn codes_made_together_are_found_by_their_maker() {
    let mut ms = fresh();
    let maker = add_user(&mut ms, 1, "did:plc:nel", "nel.test");
    let guest = add_user(&mut ms, 2, "did:plc:teq", "teq.test");
    let account = did("did:plc:nel");
    let codes = vec!["one".to_string(), "two".to_string()];
    let mut ops = ms.infra_ops();
    ops.create_invite_codes_batch_at(&codes, 2, maker, Some(&account), 1_000);

    let made = ops.get_invite_codes_by_users(&[maker, guest]).unwrap();
    assert_eq!(made.len(), 2);
    assert_eq!(made[0].0, maker);
    assert_eq!(made[0].1.code, "one");
    assert_eq!(
        made[0].1.created_by.as_ref().map(|d| d.as_str().to_owned()),
        Some("did:plc:nel".to_owned())
    );
    assert_eq!(ops.get_invite_codes_for_account(&account).unwrap().len(), 2);
    assert!(ops
        .get_invite_codes_for_account(&did("did:plc:teq"))
        .unwrap()
        .is_empty());

    assert_eq!(ops.check_and_consume_invite_code("one"), Ok(true));
    assert_eq!(ops.check_and_consume_invite_code("one"), Ok(true));
    assert_eq!(ops.check_and_consume_invite_code("one"), Ok(false));
    assert_eq!(ops.check_and_consume_invite_code("none"), Ok(false));

    let validated = ops.validate_invite_code("two").unwrap();
    ops.record_invite_code_use_at(&validated, guest, 5_000);
    let uses = ops.get_invite_code_uses_batch(&codes).unwrap();
    assert_eq!(uses.len(), 1);
    assert_eq!(uses[0].code, "two");
    assert_eq!(uses[0].used_by_did.as_str(), "did:plc:teq");
    assert_eq!(uses[0].used_at, 5_000);
    assert_eq!(
        ops.get_invite_code_uses_by_users(&[maker, guest]),
        Ok(vec![(guest, "two".to_string())])
    );
}

#[test]
fn blob_is_found_by_its_content_until_it_is_deleted() {
    let mut ms = fresh();
    let cid = "bafkreia";
    let hash = UserHash::from_did("did:plc:nel");
    ms.repo_data.commit(vec![
        Write::Put {
            key: blob_meta_key(hash, cid),
            value: BlobMetaValue {
                storage_key: "blobs/a".to_string(),
                mime_type: "image/png".to_string(),
                size_bytes: 7,
            }
            .serialize(),
        },
        Write::Put {
            key: text_key(KeyTag::BlobByCid, cid),
            value: hash.raw().to_be_bytes().to_vec(),
        },
        Write::Put {
            key: text_key(KeyTag::BlobByCid, "bafkreib"),
            value: vec![1, 2, 3],
        },
    ]);
    let mut ops = ms.infra_ops();
    assert_eq!(
        ops.get_blob_storage_key_by_cid(cid),
        Ok(Some("blobs/a".to_string()))
    );
    assert_eq!(ops.get_blob_storage_key_by_cid("bafkreic"), Ok(None));
    assert_eq!(
        ops.get_blob_storage_key_by_cid("bafkreib"),
        Err(MetastoreError::CorruptData("blob_by_cid value not 8 bytes"))
    );
    assert_eq!(ops.delete_blob_by_cid(cid), Ok(()));
    assert_eq!(ops.get_blob_storage_key_by_cid(cid), Ok(None));
}

#[test]
fn report_is_stored_compact() {
    let mut ms = fresh();
    ms.infra_ops()
        .insert_report(
            -1,
            "spam",
            None,
            br#"{ "did" : "did:plc:teq" }"#,
            &did("did:plc:nel"),
            1_000,
        )
        .unwrap();
    let stored = ms.infra.get(&report_key(-1)).unwrap();
    let expected = ReportValue {
        id: -1,
        reason_type: "spam".to_string(),
        reason: None,
        subject_json: br#"{"did":"did:plc:teq"}"#.to_vec(),
        reported_by_did: "did:plc:nel".to_string(),
        created_at_ms: 1_000,
    };
    assert_eq!(stored, expected.serialize());
}

#[test]
fn removed_account_is_announced() {
    let mut repo_data = Keyspace::new();
    let mut log = EventLog::new();
    let gone = did("did:plc:nel");
    let mut ops = EventOps {
        repo_data: &mut repo_data,
        log: &mut log,
    };
    assert_eq!(
        ops.announce_deletion(Err(MetastoreError::InvalidInput("no such account")), &gone),
        Err(DbError::Query("no such account".to_string()))
    );
    assert_eq!(ops.announce_deletion(Ok(()), &gone), Ok(()));
    let seq = SequenceNumber::from_raw(1);
    let event = ops.get_event_by_seq(seq).unwrap().unwrap();
    assert_eq!(event.event_type, RepoEventType::Account);
    assert_eq!(event.status, Some(AccountStatus::Deleted));
    assert_eq!(event.did.as_str(), "did:plc:nel");
}

#[test]
fn removed_repo_gives_up_its_handle() {
    let hash = UserHash::from_raw(9);
    let mut batch = Vec::new();
    stage_repo_meta_removal(&mut batch, hash, "nel.test");
    stage_repo_meta_removal(&mut batch, hash, "");
    assert_eq!(
        batch,
        vec![
            Write::Remove { key: repo_meta_key(hash) },
            Write::Remove { key: handle_key("nel.test") },
            Write::Remove { key: repo_meta_key(hash) },
        ]
    );
}

#[test]
fn controlled_accounts_follow_their_grants() {
    let mut ms = fresh();
    add_user(&mut ms, 1, "did:plc:nel", "nel.test");
    let ctrl = did("did:plc:olaren");
    let first = did("did:plc:nel");
    let second = did("did:plc:teq");
    let scope = DbScope::new("atproto").unwrap();
    let wider = DbScope::new("repo:* blob:*/*").unwrap();
    let mut ops = ms.delegation_ops();
    assert_eq!(ops.controls_any_accounts(&ctrl), Ok(false));
    ops.create_delegation_at(&first, &ctrl, &scope, &first, Uuid { bits: 1 }, 1_000);
    ops.create_delegation_at(&second, &ctrl, &scope, &second, Uuid { bits: 2 }, 2_000);
    ops.create_delegation_at(&first, &ctrl, &scope, &first, Uuid { bits: 3 }, 3_000);
    assert_eq!(ops.update_delegation_scopes(&second, &ctrl, &wider), Ok(true));

    let mut listed = ops.get_accounts_controlled_by(&ctrl).unwrap();
    listed.sort_by_key(|a| a.granted_at);
    let seen: Vec<(&str, &str)> = listed
        .iter()
        .map(|a| (a.did.as_str(), a.granted_scopes.as_str()))
        .collect();
    assert_eq!(
        seen,
        vec![("did:plc:teq", "repo:* blob:*/*"), ("did:plc:nel", "atproto")]
    );
    assert_eq!(ops.remap_grant_scopes("atproto", "repo:* blob:*/*"), Ok(1));
    assert_eq!(ops.get_accounts_controlled_by(&ctrl).unwrap().len(), 2);

    assert_eq!(ops.revoke_delegation_at(&first, &ctrl, &first, 4_000), Ok(true));
    assert_eq!(ops.controls_any_accounts(&ctrl), Ok(true));
    assert_eq!(ops.revoke_delegation_at(&second, &ctrl, &second, 5_000), Ok(true));
    assert_eq!(ops.controls_any_accounts(&ctrl), Ok(false));
    assert!(ops.get_accounts_controlled_by(&ctrl).unwrap().is_empty());
}
