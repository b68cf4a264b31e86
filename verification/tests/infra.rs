use tranquil_metastore::account_steps::{
    admit_registration, email_factor_change, CreateAccountError,
};
use tranquil_metastore::clock::{time_or_epoch, time_or_none};
use tranquil_metastore::errors::{DbError, MetastoreError};
use tranquil_metastore::infra_schema::{
    id_key, text_key, BlobMetaValue, CommsChannel, CommsStatus, CommsType, InviteCodeValue,
};
use tranquil_metastore::invite_ops::{InviteCodeError, InviteCodeSortOrder, InviteCodeState};
use tranquil_metastore::keys::{KeyTag, UserHash};
use tranquil_metastore::metastore::Metastore;
use tranquil_metastore::store::{Keyspace, Write};
use tranquil_metastore::types::{Did, Uuid};
use tranquil_metastore::users::{user_primary_key, UserValue};

fn fresh() -> Metastore {
    Metastore::open(
        Keyspace::new(),
        Keyspace::new(),
        Keyspace::new(),
        Keyspace::new(),
        Keyspace::new(),
        Keyspace::new(),
    )
    .unwrap()
}

fn did(s: &str) -> Did {
    Did::new(s.to_owned()).unwrap()
}

/// A user with a row and a hash.
fn add_user(ms: &mut Metastore, bits: u128, did: &str, handle: &str) -> Uuid {
    let id = Uuid { bits };
    let hash = UserHash::from_did(did);
    let write = ms.user_hashes.stage_insert(id, hash).unwrap();
    ms.repo_data.commit(vec![write]);
    ms.users.commit(vec![Write::Put {
        key: user_primary_key(hash),
        value: UserValue {
            id,
            did: did.to_string(),
            handle: handle.to_string(),
            email: Some("a@b.test".to_string()),
            created_at_ms: 1_700_000_000_000,
            deactivated_at_ms: None,
            invites_disabled: true,
            email_verified: false,
        }
        .serialize(),
    }]);
    id
}

#[test]
fn queued_message_is_fetched_when_due() {
    let mut ms = fresh();
    let user = Uuid { bits: 1 };
    let id = Uuid { bits: 2 };
    let mut ops = ms.infra_ops();
    ops.enqueue_comms_at(
        Some(user),
        CommsChannel::Email,
        CommsType::Welcome,
        "a@b.test",
        Some("hello"),
        "body",
        Some(br#"{ "k" : 1 }"#),
        id,
        1_000,
    );
    assert!(ops.fetch_pending_comms(999, 10).unwrap().is_empty());
    assert!(ops.fetch_pending_comms(1_000, 0).unwrap().is_empty());
    let due = ops.fetch_pending_comms(1_000, 10).unwrap();
    assert_eq!(due.len(), 1);
    assert_eq!(due[0].id, id);
    assert_eq!(due[0].user_id, Some(user));
    assert_eq!(due[0].status, CommsStatus::Pending);
    assert_eq!(due[0].recipient, "a@b.test");
    assert_eq!(due[0].subject.as_deref(), Some("hello"));
    assert_eq!(due[0].attempts, 0);
    assert_eq!(due[0].max_attempts, 3);
    assert_eq!(due[0].metadata.as_deref(), Some(br#"{"k":1}"#.as_slice()));
    assert_eq!(due[0].created_at, 1_000);

    assert_eq!(ops.count_comms_by_type(user, CommsType::Welcome).unwrap(), 1);
    assert_eq!(ops.count_comms_by_type(user, CommsType::PasswordReset).unwrap(), 0);
    let history = ops.get_notification_history(user, 10).unwrap();
    assert_eq!(history.len(), 1);
    assert_eq!(history[0].body, "body");

    ops.mark_comms_sent_at(id, 2_000).unwrap();
    assert!(ops.fetch_pending_comms(1_000_000, 10).unwrap().is_empty());
    let latest = ops
        .get_latest_comms_for_user(user, CommsType::Welcome, 10)
        .unwrap();
    assert_eq!(latest.len(), 1);
    assert_eq!(latest[0].status, CommsStatus::Sent);
    assert_eq!(latest[0].processed_at, Some(2_000));

    assert_eq!(
        ops.delete_comms_by_type_for_user(user, CommsType::Welcome).unwrap(),
        1
    );
    assert_eq!(ops.count_comms_by_type(user, CommsType::Welcome).unwrap(), 0);
}

#[test]
fn failed_message_waits_and_is_given_up() {
    let mut ms = fresh();
    let id = Uuid { bits: 2 };
    let mut ops = ms.infra_ops();
    ops.enqueue_comms_at(
        None,
        CommsChannel::Signal,
        CommsType::TwoFactorCode,
        "r",
        None,
        "b",
        None,
        id,
        0,
    );
    ops.mark_comms_failed_at(id, "down", 1_000).unwrap();
    assert!(ops.fetch_pending_comms(60_999, 10).unwrap().is_empty());
    let again = ops.fetch_pending_comms(61_000, 10).unwrap();
    assert_eq!(again.len(), 1);
    assert_eq!(again[0].attempts, 1);
    assert_eq!(again[0].last_error.as_deref(), Some("down"));
    ops.mark_comms_failed_at(id, "down", 61_000).unwrap();
    assert_eq!(ops.fetch_pending_comms(181_000, 10).unwrap().len(), 1);
    ops.mark_comms_failed_at(id, "down", 181_000).unwrap();
    assert!(ops.fetch_pending_comms(i64::MAX, 10).unwrap().is_empty());

    assert_eq!(
        ops.mark_comms_failed_permanent(Uuid { bits: 77 }, "x"),
        Err(MetastoreError::InvalidInput("comms entry not found"))
    );
    ops.mark_comms_failed_permanent(id, "x").unwrap();
}

#[test]
fn times_and_identifiers_come_from_outside() {
    let mut ms = fresh();
    let user = Uuid { bits: 1 };
    let mut ops = ms.infra_ops();
    let before = chrono::Utc::now().timestamp_millis();
    let send = |ops: &mut tranquil_metastore::infra_ops::InfraOps<'_>| {
        ops.enqueue_comms(
            Some(user),
            CommsChannel::Email,
            CommsType::Welcome,
            "r",
            None,
            "b",
            None,
        )
        .unwrap()
    };
    let first = send(&mut ops);
    let second = send(&mut ops);
    let after = chrono::Utc::now().timestamp_millis();
    assert_ne!(first, second);
    assert_eq!(uuid::Uuid::from_u128(first.bits).get_version_num(), 4);
    for m in ops.fetch_pending_comms(after, 10).unwrap() {
        assert!(before <= m.created_at && m.created_at <= after);
    }
}

#[test]
fn times_out_of_range_are_replaced() {
    assert_eq!(time_or_epoch(1_700_000_000_000), 1_700_000_000_000);
    assert_eq!(time_or_epoch(i64::MAX), 0);
    assert_eq!(time_or_epoch(i64::MIN), 0);
    assert_eq!(time_or_none(Some(5)), Some(5));
    assert_eq!(time_or_none(Some(i64::MIN)), None);
    assert_eq!(time_or_none(None), None);
    let last = chrono::DateTime::<chrono::Utc>::MAX_UTC.timestamp_millis();
    assert_eq!(time_or_epoch(last), last);
    assert_eq!(time_or_epoch(last + 1), 0);
    let first = chrono::DateTime::<chrono::Utc>::MIN_UTC.timestamp_millis();
    assert_eq!(time_or_epoch(first), first);
    assert_eq!(time_or_epoch(first - 1), 0);
}

#[test]
fn invite_code_is_used_up() {
    let mut ms = fresh();
    let mut ops = ms.infra_ops();
    assert_eq!(
        ops.validate_invite_code("c").err(),
        Some(InviteCodeError::NotFound)
    );
    assert!(ops.create_invite_code_at("c", 2, None, 5));
    assert!(!ops.create_invite_code_at("c", 9, None, 5));
    assert_eq!(ops.get_invite_code_available_uses("c").unwrap(), Some(2));

    assert_eq!(ops.reserve_invite_code("c"), Ok(()));
    assert_eq!(ops.get_invite_code_available_uses("c").unwrap(), Some(1));
    assert_eq!(ops.refund_invite_code("c"), Ok(()));
    assert_eq!(ops.get_invite_code_available_uses("c").unwrap(), Some(2));
    assert_eq!(ops.reserve_invite_code("c"), Ok(()));
    assert_eq!(ops.reserve_invite_code("c"), Ok(()));
    assert_eq!(
        ops.reserve_invite_code("c"),
        Err(InviteCodeError::ExhaustedUses)
    );
    assert_eq!(
        ops.validate_invite_code("c").err(),
        Some(InviteCodeError::ExhaustedUses)
    );
    assert_eq!(ops.get_invite_code_available_uses("other").unwrap(), None);
}

#[test]
fn disabled_code_is_refused() {
    let mut ms = fresh();
    let mut ops = ms.infra_ops();
    ops.create_invite_code_at("c", 2, Some(&did("did:plc:nel")), 5);
    ops.create_invite_code_at("d", 2, Some(&did("did:plc:teq")), 5);
    ops.disable_invite_codes_by_code(&["c".to_string()]).unwrap();
    assert_eq!(
        ops.reserve_invite_code("c"),
        Err(InviteCodeError::Disabled)
    );
    assert_eq!(
        ops.get_invite_code_info("c").unwrap().unwrap().state,
        InviteCodeState::Disabled
    );
    assert!(ops.validate_invite_code("d").is_ok());
    ops.disable_invite_codes_by_account(&[did("did:plc:teq")]).unwrap();
    assert_eq!(
        ops.validate_invite_code("d").err(),
        Some(InviteCodeError::Disabled)
    );
}

#[test]
fn corrupt_code_is_a_database_error() {
    let mut ms = fresh();
    ms.infra.commit(vec![Write::Put {
        key: text_key(KeyTag::InviteCode, "c"),
        value: vec![9],
    }]);
    let ops = ms.infra_ops();
    assert_eq!(
        ops.validate_invite_code("c").err(),
        Some(InviteCodeError::DatabaseError(DbError::Query(
            "corrupt data: corrupt invite code".to_string()
        )))
    );
    assert!(ops.get_invite_code_available_uses("c").is_err());
}

#[test]
fn recorded_use_is_listed() {
    let mut ms = fresh();
    let user = add_user(&mut ms, 7, "did:plc:nel", "nel.test");
    let mut ops = ms.infra_ops();
    ops.create_invite_codes_batch_at(&["c".to_string(), "d".to_string()], 1, user, None, 5);
    let code = ops.validate_invite_code("c").unwrap();
    ops.record_invite_code_use_at(&code, user, 9);
    let uses = ops.get_invite_code_uses("c").unwrap();
    assert_eq!(uses.len(), 1);
    assert_eq!(uses[0].used_by_did, did("did:plc:nel"));
    assert_eq!(
        uses[0].used_by_handle.as_ref().map(|h| h.as_str()),
        Some("nel.test")
    );
    assert_eq!(uses[0].used_at, 9);
    assert_eq!(
        ops.get_invite_code_used_by_user(user).unwrap().as_deref(),
        Some("c")
    );
    let made = ops.get_invites_created_by_user(user).unwrap();
    assert_eq!(made.len(), 2);
    assert_eq!(made[0].created_by, Some(did("did:plc:nel")));
    assert_eq!(
        ops.get_user_dids_by_ids(&[user, Uuid { bits: 99 }]).unwrap(),
        vec![(user, did("did:plc:nel"))]
    );
    ops.delete_invite_code_uses_by_user(user).unwrap();
    assert!(ops.get_invite_code_uses("c").unwrap().is_empty());
    ops.delete_invite_codes_by_user(user).unwrap();
    assert_eq!(ops.get_invite_code_available_uses("d").unwrap(), None);
}

#[test]
fn invite_codes_are_listed_in_pages() {
    let mut ms = fresh();
    let mut ops = ms.infra_ops();
    ops.create_invite_code_at("a", 3, None, 10);
    ops.create_invite_code_at("b", 1, None, 30);
    ops.create_invite_code_at("c", 2, None, 20);
    let codes = |rows: Vec<tranquil_metastore::invite_ops::InviteCodeRow>| {
        rows.into_iter().map(|r| r.code).collect::<Vec<_>>()
    };
    assert_eq!(
        codes(ops.list_invite_codes(None, 10, InviteCodeSortOrder::Recent).unwrap()),
        vec!["b", "c", "a"]
    );
    assert_eq!(
        codes(ops.list_invite_codes(None, 10, InviteCodeSortOrder::Usage).unwrap()),
        vec!["b", "c", "a"]
    );
    let page = codes(ops.list_invite_codes(None, 2, InviteCodeSortOrder::Recent).unwrap());
    assert_eq!(page, vec!["b", "c"]);
    let rest = codes(
        ops.list_invite_codes(Some("c"), 2, InviteCodeSortOrder::Recent)
            .unwrap(),
    );
    assert_eq!(rest, vec!["a"]);
}

#[test]
fn signing_key_is_reserved_and_used_once() {
    let mut ms = fresh();
    let mut ops = ms.infra_ops();
    let id = Uuid { bits: 5 };
    ops.reserve_signing_key_at(None, "did:key:z", &[1, 2, 3], 1_000, id, 10);
    let key = ops
        .get_reserved_signing_key_at("did:key:z", 500)
        .unwrap()
        .unwrap();
    assert_eq!(key.id, id);
    assert_eq!(key.private_key_bytes, vec![1, 2, 3]);
    assert_eq!(ops.get_reserved_signing_key_at("did:key:z", 2_000).unwrap(), None);

    ops.mark_signing_key_used_at(id, 600).unwrap();
    assert_eq!(ops.get_reserved_signing_key_at("did:key:z", 500).unwrap(), None);
    let full = ops
        .get_reserved_signing_key_full("did:key:z")
        .unwrap()
        .unwrap();
    assert_eq!(full.used_at, Some(600));
    assert_eq!(full.expires_at, 1_000);
    assert_eq!(ops.mark_signing_key_used_at(Uuid { bits: 6 }, 600), Ok(()));
}

#[test]
fn account_creation_claims_a_key_once() {
    let mut ms = fresh();
    let mut ops = ms.infra_ops();
    assert_eq!(ops.claim_reserved_key(None), Ok(()));
    assert_eq!(ops.claim_reserved_key(Some(Uuid { bits: 6 })), Ok(()));
    let id = ops
        .reserve_signing_key(None, "did:key:z", &[1], 4_000_000_000_000)
        .unwrap();
    assert!(ops.get_reserved_signing_key("did:key:z").unwrap().is_some());
    assert_eq!(ops.claim_reserved_key(Some(id)), Ok(()));
    assert_eq!(ops.get_reserved_signing_key("did:key:z").unwrap(), None);

    ops.store.infra.commit(vec![Write::Remove {
        key: text_key(KeyTag::SigningKey, "did:key:z"),
    }]);
    assert_eq!(
        ops.claim_reserved_key(Some(id)),
        Err(CreateAccountError::Database(
            "corrupt data: signing key missing from primary".to_string()
        ))
    );
}

#[test]
fn deletion_request_lives_until_it_is_removed() {
    let mut ms = fresh();
    let mut ops = ms.infra_ops();
    let owner = did("did:plc:nel");
    ops.create_deletion_request_at("tok", &owner, 5_000, 10);
    let request = ops.get_deletion_request("tok").unwrap().unwrap();
    assert_eq!(request.did, owner);
    assert_eq!(request.expires_at, 5_000);
    assert!(ops.deletion_request_is_well_formed(&owner));
    let with_token = ops.get_deletion_request_by_did(&owner).unwrap().unwrap();
    assert_eq!(with_token.token, "tok");

    ops.expire_deletion_request_at("tok", 10_000_000).unwrap();
    assert_eq!(
        ops.get_deletion_request("tok").unwrap().unwrap().expires_at,
        10_000_000 - 3_600_000
    );
    ops.delete_deletion_request("tok").unwrap();
    assert_eq!(ops.get_deletion_request("tok").unwrap(), None);
    assert_eq!(ops.get_deletion_request_by_did(&owner).unwrap(), None);

    ops.create_deletion_request_at("t1", &owner, 5_000, 10);
    ops.delete_deletion_requests_by_did(&owner).unwrap();
    assert_eq!(ops.get_deletion_request("t1").unwrap(), None);
}

#[test]
fn settings_are_read_back() {
    let mut ms = fresh();
    let mut ops = ms.infra_ops();
    assert_eq!(ops.health_check(), Ok(true));
    ops.upsert_server_config("a", "1").unwrap();
    ops.upsert_server_config("a", "2").unwrap();
    ops.upsert_server_config("b", "3").unwrap();
    assert_eq!(ops.get_server_config("a").unwrap().as_deref(), Some("2"));
    assert_eq!(
        ops.get_server_configs(&["b", "zz", "a"]).unwrap(),
        vec![
            ("b".to_string(), "3".to_string()),
            ("a".to_string(), "2".to_string())
        ]
    );
    ops.delete_server_config("a").unwrap();
    assert_eq!(ops.get_server_config("a").unwrap(), None);

    ops.store.infra.commit(vec![Write::Put {
        key: text_key(KeyTag::ServerConfig, "bad"),
        value: vec![0xFF, 0xFE],
    }]);
    assert!(ops.get_server_config("bad").is_err());
}

#[test]
fn plc_tokens_expire_when_they_say() {
    let mut ms = fresh();
    let user = Uuid { bits: 3 };
    let mut ops = ms.infra_ops();
    ops.insert_plc_token(user, "t1", 100).unwrap();
    ops.insert_plc_token(user, "t2", 200).unwrap();
    assert_eq!(ops.get_plc_token_expiry(user, "t1").unwrap(), Some(100));
    assert_eq!(ops.count_plc_tokens_for_user(user).unwrap(), 2);
    let tokens = ops.get_plc_tokens_for_user(user).unwrap();
    assert_eq!(tokens[1].token, "t2");
    assert_eq!(tokens[1].expires_at, 200);
    ops.delete_plc_token(user, "t1").unwrap();
    assert_eq!(ops.get_plc_token_expiry(user, "t1").unwrap(), None);
    ops.delete_plc_tokens_for_user(user).unwrap();
    assert_eq!(ops.count_plc_tokens_for_user(user).unwrap(), 0);
    assert_eq!(ops.count_plc_tokens_of(Ok(None)), Ok(0));
    assert_eq!(ops.get_plc_tokens_of(Ok(None)), Ok(vec![]));
    assert_eq!(
        ops.count_plc_tokens_of(Err(MetastoreError::CorruptData("x"))),
        Err(DbError::CorruptData("x"))
    );
}

#[test]
fn preferences_are_kept_compact() {
    let mut ms = fresh();
    let user = Uuid { bits: 3 };
    let mut ops = ms.infra_ops();
    ops.upsert_account_preference(user, "app.x", br#"{ "a" : [ 1 , 2 ] }"#)
        .unwrap();
    ops.insert_account_preference_if_not_exists(user, "app.x", b"7")
        .unwrap();
    ops.insert_account_preference_if_not_exists(user, "app.y", b" 8 ")
        .unwrap();
    assert_eq!(
        ops.get_account_preferences(user).unwrap(),
        vec![
            ("app.x".to_string(), br#"{"a":[1,2]}"#.to_vec()),
            ("app.y".to_string(), b"8".to_vec())
        ]
    );
    assert!(ops.upsert_account_preference(user, "app.z", b"{").is_err());
}

#[test]
fn namespace_is_replaced_and_others_stay() {
    let mut ms = fresh();
    let user = Uuid { bits: 3 };
    let mut ops = ms.infra_ops();
    ops.upsert_account_preference(user, "app.bsky.old", b"1").unwrap();
    ops.upsert_account_preference(user, "com.other", b"2").unwrap();
    ops.replace_namespace_preferences(
        user,
        "app.bsky",
        vec![
            ("app.bsky.new".to_string(), b"3".to_vec()),
            ("app.bsky.new".to_string(), b"4".to_vec()),
        ],
    )
    .unwrap();
    assert_eq!(
        ops.get_account_preferences(user).unwrap(),
        vec![
            ("app.bsky.new".to_string(), b"3".to_vec()),
            ("app.bsky.new".to_string(), b"4".to_vec()),
            ("com.other".to_string(), b"2".to_vec())
        ]
    );
}

#[test]
fn email_factor_follows_its_preference() {
    assert_eq!(email_factor_change("email_auth_factor", b" true "), Some(true));
    assert_eq!(email_factor_change("email_auth_factor", b"false"), Some(false));
    assert_eq!(email_factor_change("email_auth_factor", b"\"true\""), Some(false));
    assert_eq!(email_factor_change("email_auth_factor", b"{"), Some(false));
    assert_eq!(email_factor_change("other", b"true"), None);
}

#[test]
fn admins_see_accounts() {
    let mut ms = fresh();
    let id = add_user(&mut ms, 7, "did:plc:nel", "nel.test");
    let ops = ms.infra_ops();
    let info = ops
        .get_admin_account_info_by_did(&did("did:plc:nel"))
        .unwrap()
        .unwrap();
    assert_eq!(info.id, id);
    assert_eq!(info.handle.as_str(), "nel.test");
    assert!(info.invites_disabled);
    assert_eq!(info.created_at, 1_700_000_000_000);
    assert_eq!(
        ops.get_admin_account_infos_by_dids(&[did("did:plc:teq"), did("did:plc:nel")])
            .unwrap()
            .len(),
        1
    );
}

#[test]
fn stored_numbers_have_exact_bytes() {
    let value = InviteCodeValue {
        code: "c".to_string(),
        available_uses: -1,
        disabled: true,
        for_account: None,
        created_by: None,
        created_at_ms: 64,
    };
    assert_eq!(value.serialize(), vec![1, 1, b'c', 1, 1, 0, 0, 0x80, 0x01]);
    assert_eq!(InviteCodeValue::deserialize(&value.serialize()), Some(value));
    let blob = BlobMetaValue {
        storage_key: "k".to_string(),
        mime_type: "m".to_string(),
        size_bytes: u64::MAX,
    };
    let bytes = blob.serialize();
    assert_eq!(BlobMetaValue::deserialize(&bytes), Some(blob));
    assert!(BlobMetaValue::deserialize(&bytes[..bytes.len() - 1]).is_none());
}

#[test]
fn channel_numbers_are_stable() {
    for n in 0..4u8 {
        assert_eq!(CommsChannel::from_u8(n).unwrap().to_u8(), n);
        assert_eq!(CommsStatus::from_u8(n).unwrap().to_u8(), n);
    }
    assert_eq!(CommsChannel::from_u8(4), None);
    assert_eq!(CommsStatus::from_u8(4), None);
    for n in 0..12u8 {
        assert_eq!(CommsType::from_u8(n).unwrap().to_u8(), n);
    }
    assert_eq!(CommsType::from_u8(12), None);
}

#[test]
fn corrupt_message_is_an_error() {
    let mut ms = fresh();
    let id = Uuid { bits: 2 };
    ms.infra.commit(vec![Write::Put {
        key: id_key(KeyTag::CommsQueue, id),
        value: vec![],
    }]);
    let mut ops = ms.infra_ops();
    assert!(ops.fetch_pending_comms(0, 10).is_err());
    assert!(ops.mark_comms_sent_at(id, 1).is_err());
}

#[test]
fn registration_needs_its_token() {
    assert_eq!(admit_registration(Ok(true)), Ok(()));
    assert_eq!(
        admit_registration(Ok(false)),
        Err(CreateAccountError::InvalidToken)
    );
    assert_eq!(
        admit_registration(Err(MetastoreError::CorruptData("x"))),
        Err(CreateAccountError::Database("corrupt data: x".to_string()))
    );
}

#[test]
fn controller_of_a_new_account_gets_a_grant() {
    let mut ms = fresh();
    let owner = did("did:plc:nel");
    let ctrl = did("did:plc:teq");
    let mut ops = ms.delegation_ops();
    assert!(matches!(
        ops.grant_controller(&owner, &ctrl, "bad\\scope"),
        Err(CreateAccountError::Database(_))
    ));
    ops.grant_controller(&owner, &ctrl, "atproto").unwrap();
    let grant = ops.get_delegation(&owner, &ctrl).unwrap().unwrap();
    assert_eq!(grant.granted_by, ctrl);
}

#[test]
fn account_that_was_not_made_gets_nothing() {
    let mut ms = fresh();
    let owner = did("did:plc:nel");
    let ctrl = did("did:plc:teq");
    let mut ops = ms.infra_ops();
    let id = ops
        .reserve_signing_key(None, "did:key:z", &[1], 4_000_000_000_000)
        .unwrap();
    assert_eq!(
        ops.finish_account(Err(CreateAccountError::InvalidToken), Some(id)),
        Err(CreateAccountError::InvalidToken)
    );
    assert!(ops.get_reserved_signing_key("did:key:z").unwrap().is_some());
    assert_eq!(ops.finish_account(Ok(()), Some(id)), Ok(()));
    assert_eq!(ops.get_reserved_signing_key("did:key:z").unwrap(), None);

    let mut ops = ms.delegation_ops();
    assert_eq!(
        ops.finish_delegated_account(
            Err(CreateAccountError::Database("no room".to_string())),
            &owner,
            &ctrl,
            "atproto"
        ),
        Err(CreateAccountError::Database("no room".to_string()))
    );
    assert_eq!(ops.get_delegation(&owner, &ctrl), Ok(None));
    assert_eq!(
        ops.finish_delegated_account(Ok(()), &owner, &ctrl, "atproto repo:*"),
        Ok(())
    );
    let grant = ops.get_delegation(&owner, &ctrl).unwrap().unwrap();
    assert_eq!(grant.granted_scopes.as_str(), "atproto repo:*");
}
