//! What is read of grants and of the audit log, whatever was done before.

use vstd::prelude::*;
use vstd::utf8::encode_utf8;

use crate::bytes::{has_prefix, lex_lt_irreflexive};
use crate::clock::is_timestamp;
use crate::delegation_laws::{all_contribute, controlled_accounts_have_grants, grant_is_sound};
use crate::delegation_laws::{in_force, index_follows_grants, is_grant_key, key_tags, sound_grant};
use crate::delegation_ops::{active_grant, active_grants, audit_entry, audit_rows, audit_writes};
use crate::delegation_ops::{controlled_accounts, controller_of, did_text, grant_at, grant_key_of};
use crate::delegation_ops::{grant_row_at, grant_rows, grant_writes, indexed, new_audit_row};
use crate::delegation_ops::{all_grant_rows, remap_changes_matching_grants, remap_row};
use crate::delegation_ops::{remap_writes, rescoped};
use crate::delegation_ops::{rescoping, revocation, revocation_writes, revoked, skipped};
use crate::delegation_ops::{controlled_account, controller_rows, ControlledAccount};
use crate::account_steps::controller_granted;
use crate::delegation_ops::{created_grant_is_read, new_grant};
use crate::delegation_ops::{AuditEntry, Controller, Grant};
use crate::delegations::{audit_log_key_bytes, audit_log_prefix_bytes, grant_key_bytes};
use crate::delegations::{grant_keys_injective, grant_prefix_bytes, AuditRow};
use crate::delegations::{DelegationActionType, GrantRow};
use crate::encoding::{be8, be8_injective, be_len};
use crate::errors::MetastoreError;
use crate::json::compact_json;
use crate::keys::{did_hash, KeyTag};
use crate::metastore::MetastoreView;
use crate::scan::{collect, collect_all, collected, saturated, Contribution};
use crate::store::{lookup, prefix_keys, row_is_listed, scan_lists, storable, write_rows};
use crate::store::{write_rows_finite, write_rows_frame, write_rows_last, RowView, Rows, WriteView};
use crate::types::{is_handle, is_scope, Uuid};
use crate::user_hash::{uuid_of, UserHashes};
use crate::users::user_at;

verus! {

/// The controllers that are listed for an account.
pub open spec fn controllers(
    indexes: Rows,
    users: Rows,
    hashes: UserHashes,
    delegated: Seq<char>,
) -> Result<Seq<Controller>, MetastoreError> {
    collect_all(
        grant_rows(indexes, delegated),
        |row: RowView| controller_of(row, users, hashes),
    )
}

/// How many of some controllers are active.
pub open spec fn active_count(list: Seq<Controller>) -> nat
    decreases list.len(),
{
    if list.len() == 0 {
        0
    } else {
        (if list[0].is_active {
            1nat
        } else {
            0nat
        }) + active_count(list.skip(1))
    }
}

/// The row under which a controller is listed for an account, with the grant that it stands
/// for.
spec fn listed_for(
    indexes: Rows,
    users: Rows,
    hashes: UserHashes,
    delegated: u64,
    key: Seq<u8>,
    x: Controller,
) -> bool {
    let c = did_hash(x.did);
    &&& key == grant_key_bytes(delegated, c)
    &&& in_force(indexes, delegated, c) <==> x.is_active
    &&& x.is_local <==> uuid_of(hashes, c) is Some
    &&& user_at(users, c) matches Some(u) ==> x.handle == if is_handle(encode_utf8(u.handle)) {
        Some(u.handle)
    } else {
        None
    }
    &&& user_at(users, c) is None ==> x.handle is None
    &&& grant_row_at(indexes, key) matches Ok(Some(v)) && v.controller_did == x.did
        && sound_grant(v, delegated, c) && x.granted_scopes == crate::types::scope_or_empty(
        v.granted_scopes,
    ) && x.granted_at == crate::clock::timestamp_or_epoch(v.granted_at_ms)
}

proof fn grant_entry(
    indexes: Rows,
    users: Rows,
    hashes: UserHashes,
    d: u64,
    key: Seq<u8>,
)
    requires
        index_follows_grants(indexes),
        indexes.contains_key(key),
        has_prefix(key, grant_prefix_bytes(d)),
    ensures
        controller_of(RowView { key, value: indexes[key] }, users, hashes) matches Ok(Some(x))
            && listed_for(indexes, users, hashes, d, key, x),
{
    let p = grant_prefix_bytes(d);
    assert(key.take(1) =~= key.take(p.len() as int).take(1));
    assert(p.take(1) =~= seq![KeyTag::DelegGrant.byte()]);
    assert(is_grant_key(key));
    let (d2, c) = choose|d2: u64, c: u64| key == #[trigger] grant_key_bytes(d2, c);
    be_len(d as nat, 8);
    be_len(d2 as nat, 8);
    assert(p.skip(1) =~= be8(d));
    assert(key.take(p.len() as int).skip(1) =~= be8(d2));
    be8_injective(d, d2);
    assert(grant_is_sound(indexes, d, c));
}

proof fn active_are_counted(
    rows: Seq<RowView>,
    users: Rows,
    hashes: UserHashes,
    limit: nat,
    list_limit: nat,
)
    requires
        limit >= rows.len(),
        list_limit >= rows.len(),
        collect(rows, |row: RowView| controller_of(row, users, hashes), list_limit) is Ok,
    ensures
        collect(rows, |row: RowView| active_grant(row), limit) matches Ok(found) && found.len()
            == active_count(
            collect(rows, |row: RowView| controller_of(row, users, hashes), list_limit)->Ok_0,
        ),
    decreases rows.len(),
{
    if rows.len() > 0 {
        let f = |row: RowView| controller_of(row, users, hashes);
        let rest = rows.skip(1);
        let x = f(rows[0])->Ok_0->0;
        assert(f(rows[0]) matches Ok(Some(_)));
        let next = (if x.is_active {
            limit - 1
        } else {
            limit as int
        }) as nat;
        active_are_counted(rest, users, hashes, next, (list_limit - 1) as nat);
        let list = collect(rows, f, list_limit)->Ok_0;
        let tail = collect(rest, f, (list_limit - 1) as nat)->Ok_0;
        assert(list == seq![x] + tail);
        assert(list.skip(1) =~= tail);
    }
}

/// The controllers listed for an account are exactly those that a grant on it names, each once,
/// with the scopes and the time of the grant. One is listed as active exactly where its grant
/// was not revoked, and as local where its account is kept here, with the handle that its
/// account has. As many are active as are counted. And, as long as no other account shares a
/// hash with either, a controller is listed as active for an account exactly where the account
/// is listed among those that it controls.
#[verifier::spinoff_prover]
#[verifier::rlimit(60)]
pub proof fn controllers_have_grants(
    indexes: Rows,
    users: Rows,
    hashes: UserHashes,
    delegated: Seq<char>,
    controller: Seq<char>,
)
    requires
        index_follows_grants(indexes),
        indexes.dom().finite(),
    ensures
        controllers(indexes, users, hashes, delegated) matches Ok(list) && {
            let grant = grant_at(indexes, delegated, controller);
            let hash = did_hash(controller);
            &&& forall|i: int, j: int|
                0 <= i < j < list.len() ==> (#[trigger] list[i]).did != (#[trigger] list[j]).did
            &&& (exists|i: int| 0 <= i < list.len() && (#[trigger] list[i]).did == controller) <==> (
            grant matches Ok(Some(g)) && g.controller_did == controller)
            &&& forall|i: int|
                0 <= i < list.len() && (#[trigger] list[i]).did == controller ==> {
                    &&& grant matches Ok(Some(g)) && list[i].granted_scopes == g.granted_scopes
                        && list[i].granted_at == g.granted_at && (list[i].is_active <==> (
                    g.revoked_at is None))
                    &&& list[i].is_local <==> uuid_of(hashes, hash) is Some
                    &&& user_at(users, hash) matches Some(u) ==> (is_handle(encode_utf8(u.handle))
                        ==> list[i].handle == Some(u.handle))
                    &&& list[i].handle is Some ==> (user_at(users, hash) matches Some(u)
                        && list[i].handle == Some(u.handle))
                }
            &&& active_grants(grant_rows(indexes, delegated)) == Ok::<i64, MetastoreError>(
                saturated(active_count(list)),
            )
            &&& (grant matches Ok(Some(g)) ==> g.delegated_did == delegated && g.controller_did
                == controller) ==> ((exists|i: int|
                0 <= i < list.len() && (#[trigger] list[i]).did == controller && list[i].is_active)
                <==> (controlled_accounts(indexes, users, controller) matches Ok(accounts)
                && exists|j: int|
                0 <= j < accounts.len() && (#[trigger] accounts[j]).did == delegated))
        },
{
    let d = did_hash(delegated);
    let c = did_hash(controller);
    let rows = grant_rows(indexes, delegated);
    let keys = prefix_keys(grant_prefix_bytes(d));
    let f = |row: RowView| controller_of(row, users, hashes);
    scan_lists(indexes, keys);
    assert forall|i: int| 0 <= i < rows.len() implies (f(#[trigger] rows[i]) matches Ok(Some(x))
        && listed_for(indexes, users, hashes, d, rows[i].key, x)) by {
        assert(keys.contains(rows[i].key));
        grant_entry(indexes, users, hashes, d, rows[i].key);
        assert(rows[i] == RowView { key: rows[i].key, value: indexes[rows[i].key] });
    }
    all_contribute(rows, f, rows.len());
    let list = controllers(indexes, users, hashes, delegated)->Ok_0;
    assert forall|i: int| 0 <= i < list.len() implies listed_for(
        indexes,
        users,
        hashes,
        d,
        rows[i].key,
        #[trigger] list[i],
    ) by {
        assert(f(rows[i]) == Contribution::<Controller>::Ok(Some(list[i])));
    }
    assert forall|i: int, j: int| 0 <= i < j < list.len() implies (#[trigger] list[i]).did != (
    #[trigger] list[j]).did by {
        assert(listed_for(indexes, users, hashes, d, rows[i].key, list[i]));
        assert(listed_for(indexes, users, hashes, d, rows[j].key, list[j]));
        if list[i].did == list[j].did {
            lex_lt_irreflexive(rows[i].key);
        }
    }
    assert forall|i: int| 0 <= i < list.len() && (#[trigger] list[i]).did == controller implies (
    grant_at(indexes, delegated, controller) matches Ok(Some(g)) && g.controller_did == controller
        && list[i].granted_scopes == g.granted_scopes && list[i].granted_at == g.granted_at && (
    list[i].is_active <==> (g.revoked_at is None))) by {
        assert(listed_for(indexes, users, hashes, d, rows[i].key, list[i]));
        assert(grant_is_sound(indexes, d, c));
    }
    if grant_at(indexes, delegated, controller) matches Ok(Some(g)) && g.controller_did
        == controller {
        let key = grant_key_bytes(d, c);
        let p = grant_prefix_bytes(d);
        assert(key.take(p.len() as int) =~= p);
        let i = row_is_listed(indexes, keys, key);
        assert(listed_for(indexes, users, hashes, d, rows[i].key, list[i]));
        grant_keys_injective(d, did_hash(list[i].did), d, c);
        assert(list[i].did == controller);
    }
    active_are_counted(rows, users, hashes, rows.len(), rows.len());
    controlled_accounts_have_grants(indexes, users, controller, delegated);
}

/// A grant that was revoked is read as revoked at that time and by that account, and otherwise
/// as it was; and a revocation finds a grant exactly where one is read that was not revoked.
pub proof fn revoked_grant_is_read(
    s: MetastoreView,
    delegated: Seq<char>,
    controller: Seq<char>,
    by: Seq<char>,
    now: i64,
)
    requires
        index_follows_grants(s.indexes.rows),
        storable(s.indexes.rows),
        encode_utf8(by).len() <= usize::MAX,
        did_text(by),
        is_timestamp(now as int),
    ensures
        ({
            let before = grant_at(s.indexes.rows, delegated, controller);
            let (found, t) = revocation(s, delegated, controller, by, now);
            &&& found == Ok::<bool, MetastoreError>(
                before matches Ok(Some(g)) && g.revoked_at is None,
            )
            &&& found == Ok::<bool, MetastoreError>(false) ==> t == s
            &&& found == Ok::<bool, MetastoreError>(true) ==> grant_at(
                t.indexes.rows,
                delegated,
                controller,
            ) == Ok::<Option<Grant>, MetastoreError>(
                Some(Grant { revoked_at: Some(now), revoked_by: Some(by), ..before->Ok_0->0 }),
            )
        }),
{
    let d = did_hash(delegated);
    let c = did_hash(controller);
    let key = grant_key_of(delegated, controller);
    let rows = s.indexes.rows;
    assert(grant_is_sound(rows, d, c));
    if revocation(s, delegated, controller, by, now).0 == Ok::<bool, MetastoreError>(true) {
        let v = grant_row_at(rows, key)->Ok_0->0;
        GrantRow::read_fits(rows[key]);
        let ws = revocation_writes(delegated, controller, revoked(v, by, now));
        grant_keys_injective(d, c, d, c);
        write_rows_last(rows, ws, 0);
        revoked(v, by, now).round_trip();
    }
}

/// A change of scopes finds a grant exactly where one is read that was not revoked, and changes
/// nothing where it finds none.
pub proof fn rescoping_finds_grants(
    s: MetastoreView,
    delegated: Seq<char>,
    controller: Seq<char>,
    scopes: Seq<char>,
)
    requires
        index_follows_grants(s.indexes.rows),
    ensures
        ({
            let (found, t) = rescoping(s, delegated, controller, scopes);
            &&& found == Ok::<bool, MetastoreError>(
                grant_at(s.indexes.rows, delegated, controller) matches Ok(Some(g))
                    && g.revoked_at is None,
            )
            &&& found == Ok::<bool, MetastoreError>(false) ==> t == s
        }),
{
    assert(grant_is_sound(s.indexes.rows, did_hash(delegated), did_hash(controller)));
}

/// Granting, revoking and changing the scopes of one grant leave every other grant as it is
/// read.
pub proof fn other_grants_are_kept(
    s: MetastoreView,
    v: GrantRow,
    by: Seq<char>,
    now: i64,
    scopes: Seq<char>,
    delegated: Seq<char>,
    controller: Seq<char>,
)
    requires
        did_hash(delegated) != did_hash(v.delegated_did) || did_hash(controller) != did_hash(
            v.controller_did,
        ),
    ensures
        ({
            let before = grant_at(s.indexes.rows, delegated, controller);
            let (d, c) = (v.delegated_did, v.controller_did);
            &&& grant_at(indexed(s, grant_writes(v)).indexes.rows, delegated, controller) == before
            &&& grant_at(revocation(s, d, c, by, now).1.indexes.rows, delegated, controller)
                == before
            &&& grant_at(rescoping(s, d, c, scopes).1.indexes.rows, delegated, controller)
                == before
        }),
{
    let rows = s.indexes.rows;
    let key = grant_key_of(delegated, controller);
    let (d, c) = (v.delegated_did, v.controller_did);
    grant_keys_injective(did_hash(d), did_hash(c), did_hash(delegated), did_hash(controller));
    grant_keys_injective(did_hash(delegated), did_hash(controller), did_hash(d), did_hash(c));
    write_rows_frame(rows, grant_writes(v), key);
    if let Ok(Some(w)) = grant_row_at(rows, grant_key_of(d, c)) {
        write_rows_frame(rows, revocation_writes(d, c, revoked(w, by, now)), key);
        write_rows_frame(
            rows,
            seq![WriteView::Put { key: grant_key_of(d, c), value: rescoped(w, scopes).stored() }],
            key,
        );
    }
}

/// After every grant was moved from one scope to another, a grant that was read with the first
/// is read with the second, and is otherwise as it was; all others are as they were.
pub proof fn moved_grant_is_read(
    indexes: Rows,
    from: Seq<char>,
    to: Seq<char>,
    delegated: Seq<char>,
    controller: Seq<char>,
)
    requires
        storable(indexes),
        encode_utf8(to).len() <= usize::MAX,
        from.len() > 0,
        is_scope(encode_utf8(from)),
        is_scope(encode_utf8(to)),
    ensures
        ({
            let after = write_rows(indexes, remap_writes(indexes, from, to));
            grant_at(after, delegated, controller) == match grant_at(
                indexes,
                delegated,
                controller,
            ) {
                Ok(Some(g)) => Ok(
                    Some(
                        Grant {
                            granted_scopes: if g.granted_scopes == from {
                                to
                            } else {
                                g.granted_scopes
                            },
                            ..g
                        },
                    ),
                ),
                r => r,
            }
        }),
{
    let key = grant_key_of(delegated, controller);
    key_tags(did_hash(delegated), did_hash(controller));
    remap_changes_matching_grants(indexes, from, to, key);
    if indexes.contains_key(key) {
        GrantRow::read_fits(indexes[key]);
        if let Some(v) = GrantRow::read(indexes[key]) {
            if v.granted_scopes == from {
                rescoped(v, to).round_trip();
            }
        }
    }
}

/// How many of some rows hold a grant with given scopes.
pub open spec fn count_with_scopes(rows: Seq<RowView>, scopes: Seq<char>) -> nat
    decreases rows.len(),
{
    if rows.len() == 0 {
        0
    } else {
        (if GrantRow::read(rows[0].value) matches Some(v) && v.granted_scopes == scopes {
            1nat
        } else {
            0nat
        }) + count_with_scopes(rows.skip(1), scopes)
    }
}

proof fn moved_are_counted(rows: Seq<RowView>, from: Seq<char>, to: Seq<char>, limit: nat)
    requires
        rows.len() <= limit,
    ensures
        collect(rows, |row: RowView| remap_row(row, from, to), limit) matches Ok(ws) && ws.len()
            == count_with_scopes(rows, from),
    decreases rows.len(),
{
    if rows.len() > 0 {
        moved_are_counted(rows.skip(1), from, to, limit);
        moved_are_counted(rows.skip(1), from, to, (limit - 1) as nat);
    }
}

/// Moving every grant from one scope to another counts the grants that have the first, each once,
/// and no others.
pub proof fn moved_grants_are_counted(indexes: Rows, from: Seq<char>, to: Seq<char>)
    ensures
        remap_writes(indexes, from, to).len() == count_with_scopes(all_grant_rows(indexes), from),
{
    let rows = all_grant_rows(indexes);
    moved_are_counted(rows, from, to, rows.len());
}

/// An action that was logged is read in the audit log of its account with the accounts, the
/// action, the details, the address, the agent and the time that it was logged with.
#[verifier::spinoff_prover]
#[verifier::rlimit(40)]
pub proof fn logged_action_is_shown(
    s: MetastoreView,
    delegated: Seq<char>,
    actor: Seq<char>,
    controller: Option<Seq<char>>,
    action_type: DelegationActionType,
    details: Option<Seq<u8>>,
    ip_address: Option<Seq<char>>,
    user_agent: Option<Seq<char>>,
    id: Uuid,
    now: i64,
)
    requires
        s.indexes.rows.dom().finite(),
        is_timestamp(now as int),
        did_text(delegated),
        did_text(actor),
        controller matches Some(c) ==> did_text(c),
        new_audit_row(
            delegated,
            actor,
            controller,
            action_type,
            details,
            ip_address,
            user_agent,
            id,
            now,
        ).fits(),
    ensures
        ({
            let v = new_audit_row(
                delegated,
                actor,
                controller,
                action_type,
                details,
                ip_address,
                user_agent,
                id,
                now,
            );
            let log = audit_rows(indexed(s, audit_writes(v)).indexes.rows, delegated);
            exists|i: int|
                0 <= i < log.len() && (audit_entry(#[trigger] log[i]) matches Ok(Some(e)) && {
                    &&& e.id == id
                    &&& e.delegated_did == delegated
                    &&& e.actor_did == actor
                    &&& e.controller_did == controller
                    &&& e.action_type == action_type
                    &&& e.ip_address == ip_address
                    &&& e.user_agent == user_agent
                    &&& e.created_at == now
                    &&& details is None ==> e.action_details is None
                    &&& details matches Some(b) ==> (compact_json(b) is Some ==> e.action_details
                        == compact_json(compact_json(b)->0))
                })
        }),
{
    let v = new_audit_row(
        delegated,
        actor,
        controller,
        action_type,
        details,
        ip_address,
        user_agent,
        id,
        now,
    );
    let ws = audit_writes(v);
    let after = indexed(s, ws).indexes.rows;
    let prefix = audit_log_prefix_bytes(did_hash(delegated));
    let key = audit_log_key_bytes(did_hash(delegated), now, id);
    write_rows_last(s.indexes.rows, ws, 0);
    write_rows_finite(s.indexes.rows, ws);
    assert(key.take(prefix.len() as int) =~= prefix);
    let i = row_is_listed(after, prefix_keys(prefix), key);
    v.round_trip();
    let log = audit_rows(after, delegated);
    assert(AuditRow::read(log[i].value) == Some(v));
    assert(audit_entry(log[i]) matches Ok(Some(_)));
}

/// Logging an action leaves the audit log of every other account as it was.
pub proof fn other_logs_are_kept(s: MetastoreView, v: AuditRow, hash: u64, ms: i64, id: Uuid)
    requires
        hash != did_hash(v.delegated_did),
    ensures
        lookup(indexed(s, audit_writes(v)).indexes.rows, audit_log_key_bytes(hash, ms, id))
            == lookup(s.indexes.rows, audit_log_key_bytes(hash, ms, id)),
{
    let key = audit_log_key_bytes(hash, ms, id);
    let own = audit_log_key_bytes(did_hash(v.delegated_did), v.created_at_ms, v.id);
    be_len(hash as nat, 8);
    be_len(did_hash(v.delegated_did) as nat, 8);
    assert(key.subrange(1, 9) =~= be8(hash));
    assert(own.subrange(1, 9) =~= be8(did_hash(v.delegated_did)));
    if key == own {
        be8_injective(hash, did_hash(v.delegated_did));
    }
    write_rows_frame(s.indexes.rows, audit_writes(v), key);
}

/// A page of the audit log holds the entries that come after as many as were passed over, in
/// the order of the log, and no more than were asked for.
pub proof fn audit_page_follows_log(
    indexes: Rows,
    delegated: Seq<char>,
    offset: nat,
    limit: nat,
)
    requires
        collect_all(audit_rows(indexes, delegated), |row: RowView| audit_entry(row)) is Ok,
    ensures
        ({
            let f = |row: RowView| audit_entry(row);
            let rows = audit_rows(indexes, delegated);
            let all = collect_all(rows, f)->Ok_0;
            collect(skipped(rows, offset), f, limit) matches Ok(page) && {
                &&& all.len() == rows.len()
                &&& page.len() == if offset >= all.len() {
                    0
                } else if all.len() - offset <= limit {
                    (all.len() - offset) as nat
                } else {
                    limit
                }
                &&& forall|i: int| 0 <= i < page.len() ==> #[trigger] page[i] == all[offset + i]
            }
        }),
{
    let f = |row: RowView| audit_entry(row);
    let rows = audit_rows(indexes, delegated);
    every_row_counts(rows, f, rows.len());
    let all = collect_all(rows, f)->Ok_0;
    let rest = skipped(rows, offset);
    assert forall|i: int| 0 <= i < rest.len() implies f(#[trigger] rest[i])
        == Contribution::<AuditEntry>::Ok(Some(all[offset + i])) by {
        assert(rest[i] == rows[offset + i]);
        assert(f(rows[offset + i]) == Contribution::<AuditEntry>::Ok(Some(all[offset + i])));
    }
    page_of(rest, f, limit, all, offset as int);
}

proof fn every_row_counts(
    rows: Seq<RowView>,
    f: spec_fn(RowView) -> Contribution<AuditEntry>,
    limit: nat,
)
    requires
        limit >= rows.len(),
        f == (|row: RowView| audit_entry(row)),
        collect(rows, f, limit) is Ok,
    ensures
        collect(rows, f, limit)->Ok_0.len() == rows.len(),
        forall|i: int|
            0 <= i < rows.len() ==> f(#[trigger] rows[i]) == Contribution::<AuditEntry>::Ok(
                Some(collect(rows, f, limit)->Ok_0[i]),
            ),
    decreases rows.len(),
{
    if rows.len() > 0 {
        let rest = rows.skip(1);
        assert(f(rows[0]) matches Ok(Some(_)));
        every_row_counts(rest, f, (limit - 1) as nat);
        let all = collect(rows, f, limit)->Ok_0;
        let tail = collect(rest, f, (limit - 1) as nat)->Ok_0;
        assert forall|i: int| 0 <= i < rows.len() implies f(#[trigger] rows[i])
            == Contribution::<AuditEntry>::Ok(Some(all[i])) by {
            if i > 0 {
                assert(rest[i - 1] == rows[i]);
                assert(all[i] == tail[i - 1]);
            }
        }
    }
}

proof fn page_of<T>(
    rows: Seq<RowView>,
    f: spec_fn(RowView) -> Contribution<T>,
    limit: nat,
    all: Seq<T>,
    from: int,
)
    requires
        forall|i: int|
            0 <= i < rows.len() ==> f(#[trigger] rows[i]) == Contribution::<T>::Ok(
                Some(all[from + i]),
            ),
    ensures
        collect(rows, f, limit) matches Ok(page) && page.len() == (if rows.len() <= limit {
            rows.len()
        } else {
            limit
        }) && forall|i: int| 0 <= i < page.len() ==> #[trigger] page[i] == all[from + i],
    decreases rows.len(),
{
    if rows.len() > 0 && limit > 0 {
        let rest = rows.skip(1);
        assert forall|i: int| 0 <= i < rest.len() implies f(#[trigger] rest[i])
            == Contribution::<T>::Ok(Some(all[from + 1 + i])) by {
            assert(rest[i] == rows[i + 1]);
        }
        assert(f(rows[0]) == Contribution::<T>::Ok(Some(all[from])));
        page_of(rest, f, (limit - 1) as nat, all, from + 1);
        let page = collect(rows, f, limit)->Ok_0;
        let tail = collect(rest, f, (limit - 1) as nat)->Ok_0;
        assert(page == seq![all[from]] + tail);
        assert forall|i: int| 0 <= i < page.len() implies #[trigger] page[i] == all[from + i] by {
            if i > 0 {
                assert(page[i] == tail[i - 1]);
            }
        }
    }
}

/// An account that is listed for a controller has the handle of its user row, where that is well
/// formed, and otherwise the one that stands for an unknown handle.
pub proof fn controlled_accounts_are_named(
    indexes: Rows,
    users: Rows,
    controller: Seq<char>,
    a: ControlledAccount,
)
    requires
        controlled_accounts(indexes, users, controller) matches Ok(list) && list.contains(a),
    ensures
        user_at(users, did_hash(a.did)) matches Some(u) ==> (is_handle(encode_utf8(u.handle))
            ==> a.handle == u.handle),
        user_at(users, did_hash(a.did)) is None ==> a.handle == "unknown.invalid"@,
        user_at(users, did_hash(a.did)) matches Some(u) ==> (!is_handle(encode_utf8(u.handle))
            ==> a.handle == "unknown.invalid"@),
{
    let rows = controller_rows(indexes, controller);
    let f = |row: RowView| controlled_account(row, did_hash(controller), indexes, users);
    collected(rows, f, rows.len(), a);
    let k = choose|k: int|
        0 <= k < rows.len() && f(#[trigger] rows[k]) == Contribution::<ControlledAccount>::Ok(
            Some(a),
        );
    assert(f(rows[k]) == Contribution::<ControlledAccount>::Ok(Some(a)));
}

/// The controller of a new account has a grant on it, in force, with the scopes that were asked
/// for, and given by the controller itself.
pub proof fn new_account_is_controlled(
    s: MetastoreView,
    did: Seq<char>,
    controller: Seq<char>,
    scopes: Seq<char>,
    t: MetastoreView,
)
    requires
        controller_granted(s, did, controller, scopes, t),
        did_text(did),
        did_text(controller),
        is_scope(encode_utf8(scopes)),
        encode_utf8(did).len() <= usize::MAX,
        encode_utf8(controller).len() <= usize::MAX,
        encode_utf8(scopes).len() <= usize::MAX,
    ensures
        grant_at(t.indexes.rows, did, controller) matches Ok(Some(g)) && {
            &&& g.delegated_did == did
            &&& g.controller_did == controller
            &&& g.granted_scopes == scopes
            &&& g.granted_by == controller
            &&& g.revoked_at is None
            &&& g.revoked_by is None
        },
{
    let (id, now) = choose|id: Uuid, now: i64|
        id.is_random() && #[trigger] is_timestamp(now as int) && t == indexed(
            s,
            #[trigger] grant_writes(new_grant(did, controller, scopes, controller, id, now)),
        );
    created_grant_is_read(s, did, controller, scopes, controller, id, now);
}

} // verus!
