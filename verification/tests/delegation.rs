use tranquil_metastore::delegation_ops::DelegationOps;
use tranquil_metastore::delegations::grant_key;
use tranquil_metastore::keys::UserHash;
use tranquil_metastore::metastore::Metastore;
use tranquil_metastore::store::{Keyspace, Write};
use tranquil_metastore::types::{DbScope, Did};

const OWNER_FULL: &str = "atproto repo:* blob:*/* identity:* account:*?action=manage";

fn fresh() -> Metastore {
    Metastore::open(
        Keyspace::new(),
        Keyspace::new(),
        Keyspace::new(),
        Keyspace::new(),
        Keyspace::new(),
        Keyspace::new(),
    )
    .expect("open metastore")
}

fn did(s: &str) -> Did {
    Did::new(s.to_owned()).expect("valid did")
}

fn scope(s: &str) -> DbScope {
    DbScope::new(s).unwrap()
}

#[test]
fn remap_upgrades_only_matching_grants() {
    let mut ms = fresh();
    let mut ops = ms.delegation_ops();

    let owner = did("did:plc:nel");
    let ctrl_owner = did("did:plc:olaren");
    let ctrl_editor = did("did:plc:teq");

    ops.create_delegation(&owner, &ctrl_owner, &scope("atproto"), &owner)
        .unwrap();
    ops.create_delegation(&owner, &ctrl_editor, &scope("repo:* blob:*/*"), &owner)
        .unwrap();

    assert_eq!(ops.remap_grant_scopes("atproto", OWNER_FULL).unwrap(), 1);

    let upgraded = ops.get_delegation(&owner, &ctrl_owner).unwrap().unwrap();
    assert_eq!(upgraded.granted_scopes.as_str(), OWNER_FULL);

    let untouched = ops.get_delegation(&owner, &ctrl_editor).unwrap().unwrap();
    assert_eq!(untouched.granted_scopes.as_str(), "repo:* blob:*/*");
}

#[test]
fn remap_is_idempotent() {
    let mut ms = fresh();
    let mut ops = ms.delegation_ops();
    let owner = did("did:plc:limpet");
    let ctrl = did("did:plc:whelk");

    ops.create_delegation(&owner, &ctrl, &scope("atproto"), &owner)
        .unwrap();

    assert_eq!(ops.remap_grant_scopes("atproto", OWNER_FULL).unwrap(), 1);
    assert_eq!(ops.remap_grant_scopes("atproto", OWNER_FULL).unwrap(), 0);
}

#[test]
fn remap_skips_corrupt_grant() {
    let mut ms = fresh();
    let mut ops = ms.delegation_ops();

    let owner = did("did:plc:nautilus");
    let ctrl = did("did:plc:periwinkle");
    ops.create_delegation(&owner, &ctrl, &scope("atproto"), &owner)
        .unwrap();

    let corrupt_key = grant_key(
        UserHash::from_did("did:plc:conch"),
        UserHash::from_did("did:plc:scallop"),
    );
    ops.store.indexes.commit(vec![Write::Put {
        key: corrupt_key,
        value: b"not a grant".to_vec(),
    }]);

    assert_eq!(ops.remap_grant_scopes("atproto", OWNER_FULL).unwrap(), 1);

    let upgraded = ops.get_delegation(&owner, &ctrl).unwrap().unwrap();
    assert_eq!(upgraded.granted_scopes.as_str(), OWNER_FULL);
}

fn counts(ops: &DelegationOps<'_>, owner: &Did, ctrl: &Did) -> (bool, i64, bool) {
    (
        ops.is_delegated_account(owner).unwrap(),
        ops.count_active_controllers(owner).unwrap(),
        ops.controls_any_accounts(ctrl).unwrap(),
    )
}

#[test]
fn grant_counts_until_it_is_revoked() {
    let mut ms = fresh();
    let mut ops = ms.delegation_ops();
    let owner = did("did:plc:nel");
    let ctrl = did("did:plc:teq");
    assert_eq!(counts(&ops, &owner, &ctrl), (false, 0, false));
    assert!(ops.get_delegation(&owner, &ctrl).unwrap().is_none());

    let id = ops
        .create_delegation(&owner, &ctrl, &scope("atproto"), &owner)
        .unwrap();
    let grant = ops.get_delegation(&owner, &ctrl).unwrap().unwrap();
    assert_eq!(grant.id, id);
    assert_eq!(grant.delegated_did, owner);
    assert_eq!(grant.controller_did, ctrl);
    assert_eq!(grant.granted_by, owner);
    assert_eq!(grant.revoked_at, None);
    assert_eq!(grant.revoked_by, None);
    assert_eq!(counts(&ops, &owner, &ctrl), (true, 1, true));

    assert!(ops
        .update_delegation_scopes(&owner, &ctrl, &scope("repo:*"))
        .unwrap());
    let rescoped = ops.get_delegation(&owner, &ctrl).unwrap().unwrap();
    assert_eq!(rescoped.granted_scopes.as_str(), "repo:*");

    assert!(ops.revoke_delegation(&owner, &ctrl, &owner).unwrap());
    assert!(!ops.revoke_delegation(&owner, &ctrl, &owner).unwrap());
    let revoked = ops.get_delegation(&owner, &ctrl).unwrap().unwrap();
    assert!(revoked.revoked_at.is_some());
    assert_eq!(revoked.revoked_by, Some(owner.clone()));
    assert_eq!(counts(&ops, &owner, &ctrl), (false, 0, false));
    assert!(!ops
        .update_delegation_scopes(&owner, &ctrl, &scope("repo:*"))
        .unwrap());
}

#[test]
fn corrupt_grant_is_an_error() {
    let mut ms = fresh();
    let mut ops = ms.delegation_ops();
    let owner = did("did:plc:conch");
    let ctrl = did("did:plc:scallop");
    ops.store.indexes.commit(vec![Write::Put {
        key: grant_key(
            UserHash::from_did(owner.as_str()),
            UserHash::from_did(ctrl.as_str()),
        ),
        value: vec![9, 9],
    }]);
    assert!(ops.get_delegation(&owner, &ctrl).is_err());
    assert!(ops.revoke_delegation(&owner, &ctrl, &owner).is_err());
}
