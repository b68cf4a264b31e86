//! What holds of grants and of the index by controller, whatever was done before.

use vstd::prelude::*;
use vstd::utf8::encode_utf8;

use crate::bytes::{has_prefix, lex_lt_irreflexive};
use crate::clock::{is_timestamp, timestamp_or_epoch};
use crate::delegation_ops::{controlled_account, controlled_accounts, controller_rows, did_text};
use crate::delegation_ops::{grant_at, grant_key_of, grant_row_at, grant_writes, new_grant};
use crate::delegation_ops::{remap_changes_matching_grants, remap_writes, rescoped, rescoping};
use crate::delegation_ops::{revocation, revocation_writes, revoked};
use crate::delegation_ops::{active_grant, active_grants, delegated_account, ControlledAccount};
use crate::delegation_ops::Grant;
use crate::delegations::{by_controller_key_bytes, by_controller_prefix_bytes, grant_key_bytes};
use crate::delegations::{grant_keys_injective, GrantRow};
use crate::encoding::{be8, be8_injective, be_len, second_number_round_trip};
use crate::errors::MetastoreError;
use crate::keys::{did_hash, KeyTag};
use crate::metastore::MetastoreView;
use crate::scan::{collect, Contribution};
use crate::store::{lookup, prefix_keys, scan_lists, storable, write_rows, write_rows_frame};
use crate::store::{write_rows_last, writes_key, RowView, Rows, WriteView};
use crate::types::{is_scope, scope_or_empty, Uuid};

verus! {

/// A grant that stands under the hashes of its accounts, names well-formed DIDs, and was
/// revoked at a time that there is, if it was.
pub open spec fn sound_grant(v: GrantRow, delegated: u64, controller: u64) -> bool {
    &&& did_text(v.delegated_did)
    &&& did_text(v.controller_did)
    &&& did_text(v.granted_by)
    &&& did_hash(v.delegated_did) == delegated
    &&& did_hash(v.controller_did) == controller
    &&& v.revoked_at_ms matches Some(t) ==> is_timestamp(t as int)
}

/// The grant under two hashes can be read, and is sound; or there is none.
pub open spec fn grant_is_sound(indexes: Rows, delegated: u64, controller: u64) -> bool {
    match grant_row_at(indexes, grant_key_bytes(delegated, controller)) {
        Ok(Some(v)) => sound_grant(v, delegated, controller),
        Ok(None) => true,
        Err(_) => false,
    }
}

/// The grant under two hashes is in force.
pub open spec fn in_force(indexes: Rows, delegated: u64, controller: u64) -> bool {
    grant_row_at(indexes, grant_key_bytes(delegated, controller)) matches Ok(Some(v))
        && v.revoked_at_ms is None
}

/// A row of the index by controller.
pub open spec fn is_controller_key(key: Seq<u8>) -> bool {
    has_prefix(key, seq![KeyTag::DelegByController.byte()])
}

/// A row of a grant.
pub open spec fn is_grant_key(key: Seq<u8>) -> bool {
    has_prefix(key, seq![KeyTag::DelegGrant.byte()])
}

/// All grants are sound and stand under the hashes of two accounts, and the index by controller
/// names exactly those that are in force.
pub open spec fn index_follows_grants(indexes: Rows) -> bool {
    &&& forall|d: u64, c: u64| #[trigger] grant_is_sound(indexes, d, c)
    &&& forall|d: u64, c: u64|
        indexes.contains_key(by_controller_key_bytes(c, d)) <==> #[trigger] in_force(indexes, d, c)
    &&& forall|k: Seq<u8>|
        indexes.contains_key(k) && #[trigger] is_controller_key(k) ==> exists|d: u64, c: u64|
            k == #[trigger] by_controller_key_bytes(c, d)
    &&& forall|k: Seq<u8>|
        indexes.contains_key(k) && #[trigger] is_grant_key(k) ==> exists|d: u64, c: u64|
            k == #[trigger] grant_key_bytes(d, c)
}

/// Before the first grant the index by controller follows the grants.
pub proof fn index_follows_no_grants(indexes: Rows)
    requires
        forall|k: Seq<u8>| #[trigger]
            indexes.contains_key(k) ==> !has_prefix(k, seq![KeyTag::DelegGrant.byte()])
                && !is_controller_key(k),
    ensures
        index_follows_grants(indexes),
{
    assert forall|d: u64, c: u64| #[trigger]
        grant_is_sound(indexes, d, c) && !in_force(indexes, d, c) && !indexes.contains_key(
            by_controller_key_bytes(c, d),
        ) by {
        key_tags(d, c);
    }
    assert forall|d: u64, c: u64|
        indexes.contains_key(by_controller_key_bytes(c, d)) <==> #[trigger] in_force(
            indexes,
            d,
            c,
        ) by {
        assert(grant_is_sound(indexes, d, c));
    }
}

pub(crate) proof fn key_tags(d: u64, c: u64)
    ensures
        has_prefix(grant_key_bytes(d, c), seq![KeyTag::DelegGrant.byte()]),
        is_controller_key(by_controller_key_bytes(c, d)),
        has_prefix(by_controller_key_bytes(c, d), by_controller_prefix_bytes(c)),
        !is_controller_key(grant_key_bytes(d, c)),
        !is_grant_key(by_controller_key_bytes(c, d)),
{
    let g = grant_key_bytes(d, c);
    let b = by_controller_key_bytes(c, d);
    assert(g.take(1) =~= seq![KeyTag::DelegGrant.byte()]);
    assert(b.take(1) =~= seq![KeyTag::DelegByController.byte()]);
    let p = by_controller_prefix_bytes(c);
    assert(b.take(p.len() as int) =~= p);
    assert(g.take(1)[0] == KeyTag::DelegGrant.byte());
    assert(seq![KeyTag::DelegByController.byte()][0] == KeyTag::DelegByController.byte());
    assert(b.take(1)[0] == KeyTag::DelegByController.byte());
    assert(seq![KeyTag::DelegGrant.byte()][0] == KeyTag::DelegGrant.byte());
}

/// A batch that leaves one grant changed, with its entry in the index as the grant says, and
/// no other row of either kind.
proof fn one_grant_changed(before: Rows, after: Rows, d: u64, c: u64)
    requires
        index_follows_grants(before),
        forall|k: Seq<u8>|
            k != grant_key_bytes(d, c) && k != by_controller_key_bytes(c, d) ==> lookup(after, k)
                == #[trigger] lookup(before, k),
        grant_is_sound(after, d, c),
        after.contains_key(by_controller_key_bytes(c, d)) <==> in_force(after, d, c),
    ensures
        index_follows_grants(after),
{
    assert forall|d2: u64, c2: u64| #[trigger] grant_is_sound(after, d2, c2) by {
        assert(grant_is_sound(before, d2, c2));
        grant_keys_injective(d2, c2, d, c);
        let k = grant_key_bytes(d2, c2);
        assert(lookup(before, k) == lookup(before, k));
    }
    assert forall|d2: u64, c2: u64|
        after.contains_key(by_controller_key_bytes(c2, d2)) <==> #[trigger] in_force(
            after,
            d2,
            c2,
        ) by {
        assert(in_force(before, d2, c2) <==> before.contains_key(by_controller_key_bytes(c2, d2)));
        grant_keys_injective(d2, c2, d, c);
        grant_keys_injective(d, c, d2, c2);
        let k = grant_key_bytes(d2, c2);
        let r = by_controller_key_bytes(c2, d2);
        assert(lookup(before, k) == lookup(before, k));
        assert(lookup(before, r) == lookup(before, r));
    }
    assert forall|k: Seq<u8>|
        after.contains_key(k) && #[trigger] is_controller_key(k) implies exists|d: u64, c: u64|
        k == #[trigger] by_controller_key_bytes(c, d) by {
        key_tags(d, c);
        if k != by_controller_key_bytes(c, d) {
            assert(lookup(before, k) == lookup(before, k));
            assert(before.contains_key(k));
        }
    }
    assert forall|k: Seq<u8>|
        after.contains_key(k) && #[trigger] is_grant_key(k) implies exists|d: u64, c: u64|
        k == #[trigger] grant_key_bytes(d, c) by {
        key_tags(d, c);
        if k != grant_key_bytes(d, c) {
            assert(lookup(before, k) == lookup(before, k));
            assert(before.contains_key(k));
        }
    }
}

/// A new grant keeps the index in step with the grants.
#[verifier::spinoff_prover]
#[verifier::rlimit(40)]
pub proof fn creation_keeps_index(
    s: MetastoreView,
    delegated: Seq<char>,
    controller: Seq<char>,
    scopes: Seq<char>,
    by: Seq<char>,
    id: Uuid,
    now: i64,
)
    requires
        index_follows_grants(s.indexes.rows),
        new_grant(delegated, controller, scopes, by, id, now).fits(),
        did_text(delegated),
        did_text(controller),
        did_text(by),
    ensures
        index_follows_grants(
            s.indexes.commit(
                grant_writes(new_grant(delegated, controller, scopes, by, id, now)),
            ).rows,
        ),
{
    let v = new_grant(delegated, controller, scopes, by, id, now);
    let ws = grant_writes(v);
    let d = did_hash(delegated);
    let c = did_hash(controller);
    let rows = s.indexes.rows;
    let after = write_rows(rows, ws);
    grant_keys_injective(d, c, d, c);
    write_rows_last(rows, ws, 0);
    write_rows_last(rows, ws, 1);
    v.round_trip();
    assert forall|k: Seq<u8>|
        k != grant_key_bytes(d, c) && k != by_controller_key_bytes(c, d) implies lookup(after, k)
        == #[trigger] lookup(rows, k) by {
        write_rows_frame(rows, ws, k);
    }
    one_grant_changed(rows, after, d, c);
}

/// A revocation, whatever it finds, keeps the index in step with the grants.
#[verifier::spinoff_prover]
#[verifier::rlimit(40)]
pub proof fn revocation_keeps_index(
    s: MetastoreView,
    delegated: Seq<char>,
    controller: Seq<char>,
    by: Seq<char>,
    now: i64,
)
    requires
        index_follows_grants(s.indexes.rows),
        storable(s.indexes.rows),
        encode_utf8(by).len() <= usize::MAX,
        is_timestamp(now as int),
    ensures
        index_follows_grants(revocation(s, delegated, controller, by, now).1.indexes.rows),
{
    let d = did_hash(delegated);
    let c = did_hash(controller);
    let rows = s.indexes.rows;
    let key = grant_key_of(delegated, controller);
    assert(grant_is_sound(rows, d, c));
    if revocation(s, delegated, controller, by, now).0 == Ok::<bool, MetastoreError>(true) {
        let v = grant_row_at(rows, key)->Ok_0->0;
        GrantRow::read_fits(rows[key]);
        let ws = revocation_writes(delegated, controller, revoked(v, by, now));
        let after = write_rows(rows, ws);
        grant_keys_injective(d, c, d, c);
        write_rows_last(rows, ws, 0);
        write_rows_last(rows, ws, 1);
        revoked(v, by, now).round_trip();
        assert forall|k: Seq<u8>|
            k != grant_key_bytes(d, c) && k != by_controller_key_bytes(c, d) implies lookup(
            after,
            k,
        ) == #[trigger] lookup(rows, k) by {
            write_rows_frame(rows, ws, k);
        }
        one_grant_changed(rows, after, d, c);
    }
}

/// A change of a grant's scopes, whatever it finds, keeps the index in step with the grants.
#[verifier::spinoff_prover]
#[verifier::rlimit(40)]
pub proof fn rescoping_keeps_index(
    s: MetastoreView,
    delegated: Seq<char>,
    controller: Seq<char>,
    scopes: Seq<char>,
)
    requires
        index_follows_grants(s.indexes.rows),
        storable(s.indexes.rows),
        encode_utf8(scopes).len() <= usize::MAX,
    ensures
        index_follows_grants(rescoping(s, delegated, controller, scopes).1.indexes.rows),
{
    let d = did_hash(delegated);
    let c = did_hash(controller);
    let rows = s.indexes.rows;
    let key = grant_key_of(delegated, controller);
    assert(grant_is_sound(rows, d, c));
    if rescoping(s, delegated, controller, scopes).0 == Ok::<bool, MetastoreError>(true) {
        let v = grant_row_at(rows, key)->Ok_0->0;
        GrantRow::read_fits(rows[key]);
        let ws = seq![WriteView::Put { key, value: rescoped(v, scopes).stored() }];
        let after = write_rows(rows, ws);
        grant_keys_injective(d, c, d, c);
        write_rows_last(rows, ws, 0);
        rescoped(v, scopes).round_trip();
        assert forall|k: Seq<u8>|
            k != grant_key_bytes(d, c) && k != by_controller_key_bytes(c, d) implies lookup(
            after,
            k,
        ) == #[trigger] lookup(rows, k) by {
            write_rows_frame(rows, ws, k);
        }
        assert(in_force(rows, d, c) <==> rows.contains_key(by_controller_key_bytes(c, d)));
        write_rows_frame(rows, ws, by_controller_key_bytes(c, d));
        one_grant_changed(rows, after, d, c);
    }
}

/// Moving every grant from one scope to another keeps the index in step with the grants.
pub proof fn remap_keeps_index(indexes: Rows, from: Seq<char>, to: Seq<char>)
    requires
        index_follows_grants(indexes),
        storable(indexes),
        encode_utf8(to).len() <= usize::MAX,
    ensures
        index_follows_grants(write_rows(indexes, remap_writes(indexes, from, to))),
{
    let after = write_rows(indexes, remap_writes(indexes, from, to));
    assert forall|d: u64, c: u64|
        grant_is_sound(after, d, c) && (#[trigger] in_force(after, d, c) <==> in_force(
            indexes,
            d,
            c,
        )) by {
        let k = grant_key_bytes(d, c);
        remap_changes_matching_grants(indexes, from, to, k);
        assert(grant_is_sound(indexes, d, c));
        if indexes.contains_key(k) {
            GrantRow::read_fits(indexes[k]);
            let v = GrantRow::read(indexes[k])->0;
            if v.granted_scopes == from && has_prefix(k, seq![KeyTag::DelegGrant.byte()]) {
                rescoped(v, to).round_trip();
            }
        }
    }
    assert forall|d: u64, c: u64| #[trigger] grant_is_sound(after, d, c) by {
        assert(in_force(after, d, c) <==> in_force(indexes, d, c));
    }
    assert forall|d: u64, c: u64|
        after.contains_key(by_controller_key_bytes(c, d)) <==> #[trigger] in_force(after, d, c) by {
        assert(in_force(indexes, d, c) <==> indexes.contains_key(by_controller_key_bytes(c, d)));
        remap_changes_matching_grants(indexes, from, to, by_controller_key_bytes(c, d));
    }
    assert forall|k: Seq<u8>|
        after.contains_key(k) && #[trigger] is_controller_key(k) implies exists|d: u64, c: u64|
        k == #[trigger] by_controller_key_bytes(c, d) by {
        remap_changes_matching_grants(indexes, from, to, k);
        assert(indexes.contains_key(k));
    }
    assert forall|k: Seq<u8>|
        after.contains_key(k) && #[trigger] is_grant_key(k) implies exists|d: u64, c: u64|
        k == #[trigger] grant_key_bytes(d, c) by {
        remap_changes_matching_grants(indexes, from, to, k);
        assert(indexes.contains_key(k));
    }
}

/// Writes to rows of other kinds keep the index in step with the grants.
pub proof fn other_rows_keep_index(indexes: Rows, ws: Seq<WriteView>)
    requires
        index_follows_grants(indexes),
        forall|i: int|
            0 <= i < ws.len() ==> !has_prefix(
                writes_key(#[trigger] ws[i]),
                seq![KeyTag::DelegGrant.byte()],
            ) && !is_controller_key(writes_key(ws[i])),
    ensures
        index_follows_grants(write_rows(indexes, ws)),
{
    let after = write_rows(indexes, ws);
    assert forall|d: u64, c: u64| #[trigger]
        grant_is_sound(after, d, c) && (in_force(after, d, c) <==> in_force(indexes, d, c)) by {
        key_tags(d, c);
        write_rows_frame(indexes, ws, grant_key_bytes(d, c));
        assert(grant_is_sound(indexes, d, c));
    }
    assert forall|d: u64, c: u64|
        after.contains_key(by_controller_key_bytes(c, d)) <==> #[trigger] in_force(after, d, c) by {
        key_tags(d, c);
        write_rows_frame(indexes, ws, by_controller_key_bytes(c, d));
        assert(grant_is_sound(after, d, c));
        assert(in_force(indexes, d, c) <==> indexes.contains_key(by_controller_key_bytes(c, d)));
    }
    assert forall|k: Seq<u8>|
        after.contains_key(k) && #[trigger] is_controller_key(k) implies exists|d: u64, c: u64|
        k == #[trigger] by_controller_key_bytes(c, d) by {
        write_rows_frame(indexes, ws, k);
        assert(indexes.contains_key(k));
    }
    assert forall|k: Seq<u8>|
        after.contains_key(k) && #[trigger] is_grant_key(k) implies exists|d: u64, c: u64|
        k == #[trigger] grant_key_bytes(d, c) by {
        write_rows_frame(indexes, ws, k);
        assert(indexes.contains_key(k));
    }
}

/// An account counts as delegated just where it has a controller whose grant is in force, as
/// long as its grants can be read.
pub proof fn delegated_account_has_controllers(rows: Seq<RowView>)
    requires
        active_grants(rows) is Ok,
    ensures
        delegated_account(rows) == Ok::<bool, MetastoreError>(active_grants(rows)->Ok_0 > 0),
{
    first_is_enough(rows, |row: RowView| active_grant(row), rows.len());
}

proof fn first_is_enough<A, T>(rows: Seq<A>, f: spec_fn(A) -> Contribution<T>, limit: nat)
    requires
        limit >= rows.len(),
        collect(rows, f, limit) is Ok,
    ensures
        collect(rows, f, 1) matches Ok(xs) && (xs.len() > 0 <==> collect(rows, f, limit)->Ok_0.len()
            > 0),
    decreases rows.len(),
{
    if rows.len() > 0 {
        if f(rows[0]) == Contribution::<T>::Ok(None) {
            first_is_enough(rows.skip(1), f, limit);
        } else {
            assert(collect(rows.skip(1), f, 0) == Ok::<Seq<T>, MetastoreError>(Seq::empty()));
        }
    }
}

/// A grant whose scopes were changed is read with the new scopes, and otherwise as it was.
pub proof fn rescoped_grant_is_read(
    s: MetastoreView,
    delegated: Seq<char>,
    controller: Seq<char>,
    scopes: Seq<char>,
)
    requires
        storable(s.indexes.rows),
        encode_utf8(scopes).len() <= usize::MAX,
        is_scope(encode_utf8(scopes)),
        rescoping(s, delegated, controller, scopes).0 == Ok::<bool, MetastoreError>(true),
        grant_at(s.indexes.rows, delegated, controller) is Ok,
    ensures
        ({
            let before = grant_at(s.indexes.rows, delegated, controller)->Ok_0->0;
            grant_at(
                rescoping(s, delegated, controller, scopes).1.indexes.rows,
                delegated,
                controller,
            ) == Ok::<Option<Grant>, MetastoreError>(
                Some(Grant { granted_scopes: scopes, ..before }),
            )
        }),
{
    let key = grant_key_of(delegated, controller);
    let rows = s.indexes.rows;
    let v = grant_row_at(rows, key)->Ok_0->0;
    GrantRow::read_fits(rows[key]);
    let ws = seq![WriteView::Put { key, value: rescoped(v, scopes).stored() }];
    write_rows_last(rows, ws, 0);
    rescoped(v, scopes).round_trip();
}

pub(crate) proof fn all_contribute<A, T>(rows: Seq<A>, f: spec_fn(A) -> Contribution<T>, limit: nat)
    requires
        limit >= rows.len(),
        forall|i: int| 0 <= i < rows.len() ==> f(#[trigger] rows[i]) matches Ok(Some(_)),
    ensures
        collect(rows, f, limit) matches Ok(xs) && xs.len() == rows.len() && forall|i: int|
            0 <= i < xs.len() ==> f(rows[i]) == Contribution::<T>::Ok(Some(#[trigger] xs[i])),
    decreases rows.len(),
{
    if rows.len() > 0 {
        let rest = rows.skip(1);
        assert forall|i: int| 0 <= i < rest.len() implies f(#[trigger] rest[i]) matches Ok(
            Some(_),
        ) by {
            assert(rest[i] == rows[i + 1]);
        }
        assert(f(rows[0]) matches Ok(Some(_)));
        all_contribute(rest, f, (limit - 1) as nat);
        let xs = collect(rows, f, limit)->Ok_0;
        let ys = collect(rest, f, (limit - 1) as nat)->Ok_0;
        assert forall|i: int| 0 <= i < xs.len() implies f(rows[i]) == Contribution::<T>::Ok(
            Some(#[trigger] xs[i]),
        ) by {
            if i > 0 {
                assert(xs[i] == ys[i - 1]);
                assert(rest[i - 1] == rows[i]);
            }
        }
    }
}

/// The row under which an account is listed for a controller, with the grant that it stands
/// for.
spec fn listed_under(indexes: Rows, controller: u64, key: Seq<u8>, a: ControlledAccount) -> bool {
    let d = did_hash(a.did);
    &&& key == by_controller_key_bytes(controller, d)
    &&& grant_row_at(indexes, grant_key_bytes(d, controller)) matches Ok(Some(v))
        && v.delegated_did == a.did && v.revoked_at_ms is None && sound_grant(v, d, controller)
        && a.granted_scopes == scope_or_empty(v.granted_scopes) && a.granted_at
        == timestamp_or_epoch(v.granted_at_ms)
}

proof fn index_entry(indexes: Rows, users: Rows, c: u64, key: Seq<u8>)
    requires
        index_follows_grants(indexes),
        indexes.contains_key(key),
        has_prefix(key, by_controller_prefix_bytes(c)),
    ensures
        controlled_account(RowView { key, value: indexes[key] }, c, indexes, users) matches Ok(
            Some(a),
        ) && listed_under(indexes, c, key, a),
{
    let p = by_controller_prefix_bytes(c);
    assert(key.take(1) =~= key.take(p.len() as int).take(1));
    assert(p.take(1) =~= seq![KeyTag::DelegByController.byte()]);
    assert(is_controller_key(key));
    let (d, c2) = choose|d: u64, c2: u64| key == #[trigger] by_controller_key_bytes(c2, d);
    be_len(c as nat, 8);
    be_len(c2 as nat, 8);
    assert(p.skip(1) =~= be8(c));
    assert(key.take(p.len() as int).skip(1) =~= be8(c2));
    be8_injective(c, c2);
    assert(in_force(indexes, d, c));
    assert(grant_is_sound(indexes, d, c));
    second_number_round_trip(KeyTag::DelegByController.byte(), c, d);
}

proof fn list_entries(indexes: Rows, users: Rows, controller: Seq<char>)
    requires
        index_follows_grants(indexes),
        indexes.dom().finite(),
    ensures
        controlled_accounts(indexes, users, controller) matches Ok(list) && list.len()
            == controller_rows(indexes, controller).len() && forall|i: int|
            0 <= i < list.len() ==> listed_under(
                indexes,
                did_hash(controller),
                controller_rows(indexes, controller)[i].key,
                #[trigger] list[i],
            ),
{
    let c = did_hash(controller);
    let rows = controller_rows(indexes, controller);
    let keys = prefix_keys(by_controller_prefix_bytes(c));
    let f = |row: RowView| controlled_account(row, c, indexes, users);
    scan_lists(indexes, keys);
    assert forall|i: int| 0 <= i < rows.len() implies (f(#[trigger] rows[i]) matches Ok(Some(a))
        && listed_under(indexes, c, rows[i].key, a)) by {
        assert(keys.contains(rows[i].key));
        index_entry(indexes, users, c, rows[i].key);
        assert(rows[i] == RowView { key: rows[i].key, value: indexes[rows[i].key] });
    }
    all_contribute(rows, f, rows.len());
    let list = controlled_accounts(indexes, users, controller)->Ok_0;
    assert forall|i: int| 0 <= i < list.len() implies listed_under(
        indexes,
        c,
        rows[i].key,
        #[trigger] list[i],
    ) by {
        assert(f(rows[i]) == Contribution::<ControlledAccount>::Ok(Some(list[i])));
    }
}

/// The accounts that are listed for a controller are exactly those with a grant to it that
/// is in force, each once, with the scopes and the time of the grant; and a controller
/// controls any account just where the list is not empty. Where another account with the
/// same hash has taken an account's place in the grants, it is the other that is listed.
pub proof fn controlled_accounts_have_grants(
    indexes: Rows,
    users: Rows,
    controller: Seq<char>,
    delegated: Seq<char>,
)
    requires
        index_follows_grants(indexes),
        indexes.dom().finite(),
    ensures
        controlled_accounts(indexes, users, controller) matches Ok(list) && {
            &&& forall|i: int, j: int|
                0 <= i < j < list.len() ==> (#[trigger] list[i]).did != (#[trigger] list[j]).did
            &&& controller_rows(indexes, controller).len() > 0 <==> list.len() > 0
            &&& (exists|i: int| 0 <= i < list.len() && (#[trigger] list[i]).did == delegated) <==> (
            grant_at(indexes, delegated, controller) matches Ok(Some(g)) && g.revoked_at is None
                && g.delegated_did == delegated)
            &&& forall|i: int|
                0 <= i < list.len() && (#[trigger] list[i]).did == delegated ==> (grant_at(
                    indexes,
                    delegated,
                    controller,
                ) matches Ok(Some(g)) && list[i].granted_scopes == g.granted_scopes
                    && list[i].granted_at == g.granted_at)
        },
{
    let c = did_hash(controller);
    let d = did_hash(delegated);
    let rows = controller_rows(indexes, controller);
    let keys = prefix_keys(by_controller_prefix_bytes(c));
    scan_lists(indexes, keys);
    list_entries(indexes, users, controller);
    let list = controlled_accounts(indexes, users, controller)->Ok_0;
    assert forall|i: int, j: int| 0 <= i < j < list.len() implies (#[trigger] list[i]).did != (
    #[trigger] list[j]).did by {
        assert(listed_under(indexes, c, rows[i].key, list[i]));
        assert(listed_under(indexes, c, rows[j].key, list[j]));
        if list[i].did == list[j].did {
            lex_lt_irreflexive(rows[i].key);
        }
    }
    assert forall|i: int| 0 <= i < list.len() && (#[trigger] list[i]).did == delegated implies (
    grant_at(indexes, delegated, controller) matches Ok(Some(g)) && g.revoked_at is None
        && g.delegated_did == delegated && list[i].granted_scopes == g.granted_scopes
        && list[i].granted_at == g.granted_at) by {
        assert(listed_under(indexes, c, rows[i].key, list[i]));
    }
    if grant_at(indexes, delegated, controller) matches Ok(Some(g)) && g.revoked_at is None
        && g.delegated_did == delegated {
        assert(grant_is_sound(indexes, d, c));
        assert(in_force(indexes, d, c));
        let key = by_controller_key_bytes(c, d);
        key_tags(d, c);
        assert(indexes.contains_key(key) && keys.contains(key));
        let i = choose|i: int| 0 <= i < rows.len() && (#[trigger] rows[i]).key == key;
        assert(listed_under(indexes, c, rows[i].key, list[i]));
        grant_keys_injective(did_hash(list[i].did), c, d, c);
    }
}

/// Where no two accounts with grants share a hash, the accounts listed for a controller are
/// exactly those whose grant to it is read as in force.
pub proof fn controlled_accounts_are_exact(
    indexes: Rows,
    users: Rows,
    controller: Seq<char>,
    delegated: Seq<char>,
)
    requires
        index_follows_grants(indexes),
        indexes.dom().finite(),
        forall|c: u64|
            grant_row_at(indexes, #[trigger] grant_key_bytes(did_hash(delegated), c)) matches Ok(
                Some(v),
            ) ==> v.delegated_did == delegated,
    ensures
        controlled_accounts(indexes, users, controller) matches Ok(list) && ((exists|i: int|
            0 <= i < list.len() && (#[trigger] list[i]).did == delegated) <==> (grant_at(
            indexes,
            delegated,
            controller,
        ) matches Ok(Some(g)) && g.revoked_at is None)),
{
    controlled_accounts_have_grants(indexes, users, controller, delegated);
    assert(grant_key_of(delegated, controller) == grant_key_bytes(
        did_hash(delegated),
        did_hash(controller),
    ));
}

} // verus!
