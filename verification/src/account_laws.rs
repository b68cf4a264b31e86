//! What is read of reserved keys, requests, tokens, blobs and accounts, whatever was done before.

use vstd::prelude::*;
use vstd::utf8::encode_utf8;

use crate::account_ops::{admin_account_of, blob_cid_key, blob_owner, blob_storage, config_value};
use crate::account_ops::{deletion_did_key, deletion_expired, deletion_key, deletion_removals};
use crate::account_ops::{deletion_token, deletion_with, deletion_writes, expiry_round_trip, full_key};
use crate::account_ops::{key_used, latest_deletion, named_config, new_report, new_signing_key};
use crate::account_ops::{plc_expiry, plc_key, plc_rows, plc_token, signed_bits, signing_key_key};
use crate::account_ops::{signing_key_writes, small_count, usable_key, AdminAccount, PlcToken};
use crate::account_ops::{ReservedKey, ReservedKeyFull};
use crate::account_steps::{consumed, registration, token_count_of, tokens_of, CreateErrorView};
use crate::bytes::has_prefix;
use crate::clock::is_timestamp;
use crate::codec::text_round_trip;
use crate::account_ops::{Deletion, DeletionWithToken};
use crate::delegation_ops::did_text;
use crate::dispatch_infra::{deletion_forgotten, deletion_of, id_with_did};
use crate::encoding::{be8, be8_round_trip, escaped, escaped_injective, second_text_round_trip};
use crate::errors::MetastoreError;
use crate::infra_ops::infra_committed;
use crate::infra_schema::{blob_at, blob_meta_key_bytes, id_key_bytes, infra_keys_injective};
use crate::infra_schema::{invite_at, owner_prefix_bytes, report_key_bytes, signing_key_at};
use crate::infra_schema::{DeletionRow, InviteRow, ReportRow, SigningKeyRow};
use crate::invite_ops::{invite_key, invite_refusal};
use crate::json::compact_json;
use crate::keys::{did_hash, KeyTag};
use crate::metastore::MetastoreView;
use crate::scan::{collect, collect_all, collected, Contribution};
use crate::store::{lookup, prefix_keys, row_is_listed, scan_lists, storable, write_one, write_rows};
use crate::store::{write_rows_frame, write_rows_last, RowView, Rows};
use crate::store::WriteView;
use crate::types::{is_handle, uuid_bytes, Uuid};
use crate::users::user_at;

verus! {

/// The key that was reserved under a public key, in full.
pub open spec fn full_key_at(infra: Rows, public_key: Seq<char>) -> Option<ReservedKeyFull> {
    match signing_key_at(infra, signing_key_key(public_key)) {
        Ok(Some(v)) => Some(full_key(v)),
        _ => None,
    }
}

/// A key that was reserved is read with the account, both its halves and the expiry that it was
/// reserved with, as not used; once it was used, with the time of that and otherwise as it was.
/// No other reserved key changes.
#[verifier::spinoff_prover]
#[verifier::rlimit(40)]
pub proof fn reserved_key_is_read(
    s: MetastoreView,
    id: Uuid,
    did: Option<Seq<char>>,
    public_key: Seq<char>,
    private_key: Seq<u8>,
    expires_at: i64,
    now: i64,
    used_at: i64,
    other: Seq<char>,
)
    requires
        new_signing_key(id, did, public_key, private_key, expires_at, now).fits(),
        did matches Some(d) ==> did_text(d),
        is_timestamp(expires_at as int),
        is_timestamp(used_at as int),
    ensures
        ({
            let v = new_signing_key(id, did, public_key, private_key, expires_at, now);
            let t = infra_committed(s, signing_key_writes(v));
            let (r, u) = key_used(t, id, used_at);
            let full = full_key_at(t.infra.rows, public_key);
            &&& full matches Some(k) && k.id == id && k.did == did && k.public_key_did_key
                == public_key && k.private_key_bytes == private_key && k.expires_at == expires_at
                && k.used_at is None
            &&& usable_key(t.infra.rows, public_key, now) matches Ok(usable) && (expires_at > now
                ==> (usable matches Some(k) && k.id == id && k.private_key_bytes == private_key))
                && (expires_at <= now ==> usable is None)
            &&& r is Ok
            &&& full_key_at(u.infra.rows, public_key) == Some(
                ReservedKeyFull { used_at: Some(used_at), ..full->0 },
            )
            &&& usable_key(u.infra.rows, public_key, now) == Ok::<
                Option<ReservedKey>,
                MetastoreError,
            >(None)
            &&& other != public_key ==> {
                &&& full_key_at(t.infra.rows, other) == full_key_at(s.infra.rows, other)
                &&& full_key_at(u.infra.rows, other) == full_key_at(s.infra.rows, other)
            }
        }),
{
    let v = new_signing_key(id, did, public_key, private_key, expires_at, now);
    let ws = signing_key_writes(v);
    let primary = signing_key_key(public_key);
    let index = id_key_bytes(KeyTag::SigningKeyById, id);
    assert(primary[0] != index[0]);
    write_rows_last(s.infra.rows, ws, 0);
    write_rows_last(s.infra.rows, ws, 1);
    v.round_trip();
    text_round_trip(public_key);
    let t = infra_committed(s, ws);
    assert(lookup(t.infra.rows, primary) == Some(v.stored()));
    assert(lookup(t.infra.rows, index) == Some(encode_utf8(public_key)));
    let w = SigningKeyRow { used: true, used_at_ms: Some(used_at), ..v };
    assert(w.fits());
    w.round_trip();
    write_one(t.infra.rows, WriteView::Put { key: primary, value: w.stored() });
    if other != public_key {
        let key = signing_key_key(other);
        assert(key[0] != index[0]);
        infra_keys_injective(KeyTag::SigningKey, other, public_key, id, id);
        write_rows_frame(s.infra.rows, ws, key);
        write_rows_frame(
            t.infra.rows,
            seq![WriteView::Put { key: primary, value: w.stored() }],
            key,
        );
    }
}

/// A request to delete an account is read by its token with the account and the expiry, and by
/// the account with the token as well. Once it was made to expire, it is read as expired an hour
/// ago, and otherwise as it was.
#[verifier::spinoff_prover]
#[verifier::rlimit(40)]
pub proof fn deletion_request_is_read(
    s: MetastoreView,
    token: Seq<char>,
    did: Seq<char>,
    expires_at: i64,
    created_at: i64,
    now: i64,
)
    requires
        (DeletionRow {
            token,
            did,
            created_at_ms: created_at,
            expires_at_ms: expires_at,
        }).fits(),
        did_text(did),
        is_timestamp(expires_at as int),
        is_timestamp(now as int),
        is_timestamp(now - 3_600_000),
    ensures
        ({
            let v = DeletionRow {
                token,
                did,
                created_at_ms: created_at,
                expires_at_ms: expires_at,
            };
            let t = infra_committed(s, deletion_writes(v));
            let (r, u) = deletion_expired(t, token, now);
            &&& deletion_with(t.infra.rows, token) matches Ok(Some(d)) && d.did == did
                && d.expires_at == expires_at
            &&& latest_deletion(t.infra.rows, did) matches Ok(Some((found, row))) && found == token
                && row.did == did && row.token == token && row.expires_at_ms == expires_at
                && row.created_at_ms == created_at
            &&& r is Ok
            &&& deletion_with(u.infra.rows, token) matches Ok(Some(d)) && d.did == did
                && d.expires_at == now - 3_600_000
            &&& latest_deletion(u.infra.rows, did) matches Ok(Some((found, row))) && found == token
                && row.did == did && row.expires_at_ms == now - 3_600_000
        }),
{
    let v = DeletionRow { token, did, created_at_ms: created_at, expires_at_ms: expires_at };
    let ws = deletion_writes(v);
    let primary = deletion_key(token);
    let index = deletion_did_key(did);
    assert(primary[0] != index[0]);
    write_rows_last(s.infra.rows, ws, 0);
    write_rows_last(s.infra.rows, ws, 1);
    v.round_trip();
    text_round_trip(token);
    let t = infra_committed(s, ws);
    assert(lookup(t.infra.rows, primary) == Some(v.stored()));
    assert(lookup(t.infra.rows, index) == Some(encode_utf8(token)));
    let w = DeletionRow { expires_at_ms: (now - 3_600_000) as i64, ..v };
    assert(w.fits());
    w.round_trip();
    let put = WriteView::Put { key: primary, value: w.stored() };
    write_one(t.infra.rows, put);
    write_rows_frame(t.infra.rows, seq![put], index);
}

/// A deletion request is left as it was by the removal of another account's.
pub proof fn other_requests_are_kept(
    s: MetastoreView,
    token: Seq<char>,
    other: Seq<char>,
    v: DeletionRow,
)
    requires
        deletion_removals(s.infra.rows, token) is Ok,
        other != token,
        crate::infra_schema::deletion_at(s.infra.rows, deletion_key(token)) matches Ok(Some(w))
            ==> w.did != v.did,
        deletion_token(s.infra.rows, v.did) == Ok::<Option<Seq<char>>, MetastoreError>(Some(other)),
    ensures
        ({
            let u = infra_committed(s, deletion_removals(s.infra.rows, token)->Ok_0);
            &&& deletion_with(u.infra.rows, other) == deletion_with(s.infra.rows, other)
            &&& deletion_token(u.infra.rows, v.did) == deletion_token(s.infra.rows, v.did)
        }),
{
    let ws = deletion_removals(s.infra.rows, token)->Ok_0;
    let none = Uuid { bits: 0 };
    let key = deletion_key(other);
    let index = deletion_did_key(v.did);
    assert(key[0] != index[0]);
    infra_keys_injective(KeyTag::DeletionRequest, other, token, none, none);
    if let Ok(Some(w)) = crate::infra_schema::deletion_at(s.infra.rows, deletion_key(token)) {
        infra_keys_injective(KeyTag::DeletionByDid, v.did, w.did, none, none);
        assert(deletion_did_key(w.did)[0] == index[0]);
    }
    assert(deletion_key(token)[0] == key[0]);
    write_rows_frame(s.infra.rows, ws, key);
    write_rows_frame(s.infra.rows, ws, index);
}

/// Of some settings, exactly those are given that are set, each with its value.
pub proof fn settings_are_given(infra: Rows, names: Seq<Seq<char>>, x: (Seq<char>, Seq<char>))
    ensures
        collect_all(names, |name: Seq<char>| named_config(infra, name)) matches Ok(list) && (
        list.contains(x) <==> names.contains(x.0) && config_value(infra, x.0) == Ok::<
            Option<Seq<char>>,
            MetastoreError,
        >(Some(x.1))),
{
    let f = |name: Seq<char>| named_config(infra, name);
    never_fails(names, f, names.len());
    collected(names, f, names.len(), x);
    if names.contains(x.0) {
        let i = choose|i: int| 0 <= i < names.len() && names[i] == x.0;
        if config_value(infra, x.0) == Ok::<Option<Seq<char>>, MetastoreError>(Some(x.1)) {
            assert(f(names[i]) == Contribution::<(Seq<char>, Seq<char>)>::Ok(Some(x)));
        }
    }
}

pub(crate) proof fn never_fails<A, T>(
    items: Seq<A>,
    f: spec_fn(A) -> Contribution<T>,
    limit: nat,
)
    requires
        forall|i: int| 0 <= i < items.len() ==> f(#[trigger] items[i]) is Ok,
    ensures
        collect(items, f, limit) is Ok,
    decreases items.len(),
{
    if items.len() > 0 && limit > 0 {
        let t = items.skip(1);
        assert(f(items[0]) is Ok);
        assert forall|i: int| 0 <= i < t.len() implies f(#[trigger] t[i]) is Ok by {
            assert(t[i] == items[i + 1]);
        }
        never_fails(t, f, limit);
        never_fails(t, f, (limit - 1) as nat);
    }
}

/// A report is stored with all that was reported, under its number alone.
pub proof fn report_is_stored(
    s: MetastoreView,
    id: i64,
    reason_type: Seq<char>,
    reason: Option<Seq<char>>,
    subject: Seq<u8>,
    reported_by: Seq<char>,
    created_at: i64,
)
    requires
        new_report(id, reason_type, reason, subject, reported_by, created_at).fits(),
    ensures
        ({
            let v = new_report(id, reason_type, reason, subject, reported_by, created_at);
            let t = infra_committed(
                s,
                seq![WriteView::Put { key: report_key_bytes(id), value: v.stored() }],
            );
            let row = lookup(t.infra.rows, report_key_bytes(id));
            row matches Some(b) && (ReportRow::read(b) matches Some(r) && {
                &&& r.id == id
                &&& r.reason_type == reason_type
                &&& r.reason == reason
                &&& compact_json(subject) matches Some(text) ==> r.subject_json == text
                &&& r.reported_by_did == reported_by
                &&& r.created_at_ms == created_at
            })
        }),
{
    let v = new_report(id, reason_type, reason, subject, reported_by, created_at);
    v.round_trip();
    write_one(s.infra.rows, WriteView::Put { key: report_key_bytes(id), value: v.stored() });
}

/// A token row of a user.
pub open spec fn is_token_key(user: Uuid, key: Seq<u8>) -> bool {
    has_prefix(key, owner_prefix_bytes(KeyTag::PlcToken, user))
}

/// Every token of a user stands under its own text.
pub open spec fn tokens_stand_under_texts(infra: Rows, user: Uuid) -> bool {
    forall|k: Seq<u8>|
        infra.contains_key(k) && #[trigger] is_token_key(user, k) ==> exists|t: Seq<char>|
            k == #[trigger] plc_key(user, t)
}

/// The tokens that are listed for a user are exactly those whose expiry is read, each with that
/// expiry; and as many are counted as are listed.
#[verifier::spinoff_prover]
pub proof fn listed_tokens_have_expiries(infra: Rows, user: Uuid, token: Seq<char>)
    requires
        infra.dom().finite(),
        tokens_stand_under_texts(infra, user),
        collect_all(plc_rows(infra, user), |row: RowView| plc_token(row)) is Ok,
    ensures
        ({
            let list = collect_all(plc_rows(infra, user), |row: RowView| plc_token(row))->Ok_0;
            let expiry = plc_expiry(infra, user, token);
            &&& (exists|x: PlcToken| #[trigger] list.contains(x) && x.token == token) <==> lookup(
                infra,
                plc_key(user, token),
            ) is Some
            &&& forall|x: PlcToken| #[trigger]
                list.contains(x) && x.token == token && (expiry matches Ok(Some(_)))
                    ==> x.expires_at == expiry->Ok_0->0
            &&& list.len() == plc_rows(infra, user).len()
            &&& tokens_of(infra, Ok(Some(user))) == Ok::<Seq<PlcToken>, MetastoreError>(list)
            &&& token_count_of(infra, Ok(Some(user))) == Ok::<i64, MetastoreError>(
                small_count(list.len()),
            )
        }),
{
    let rows = plc_rows(infra, user);
    let keys = prefix_keys(owner_prefix_bytes(KeyTag::PlcToken, user));
    let f = |row: RowView| plc_token(row);
    let list = collect_all(rows, f)->Ok_0;
    let key = plc_key(user, token);
    scan_lists(infra, keys);
    every_token_counts(rows, rows.len());
    second_text_round_trip(KeyTag::PlcToken.byte(), uuid_bytes(user), token);
    assert forall|x: PlcToken| #[trigger] list.contains(x) && x.token == token implies (lookup(
        infra,
        key,
    ) is Some && f(RowView { key, value: infra[key] }) == Contribution::<PlcToken>::Ok(
        Some(x),
    )) by {
        collected(rows, f, rows.len(), x);
        let k = choose|k: int|
            0 <= k < rows.len() && f(#[trigger] rows[k]) == Contribution::<PlcToken>::Ok(Some(x));
        assert(keys.contains(rows[k].key) && infra.contains_key(rows[k].key));
        assert(is_token_key(user, rows[k].key));
        let t = choose|t: Seq<char>| rows[k].key == #[trigger] plc_key(user, t);
        second_text_round_trip(KeyTag::PlcToken.byte(), uuid_bytes(user), t);
        assert(rows[k] == RowView { key, value: infra[key] });
    }
    if infra.contains_key(key) {
        let p = owner_prefix_bytes(KeyTag::PlcToken, user);
        assert(key.take(p.len() as int) =~= p);
        let k = row_is_listed(infra, keys, key);
        crate::comms_laws::all_readable(rows, f, rows.len());
        assert(f(rows[k]) is Ok);
        let x = f(rows[k])->Ok_0->0;
        assert(f(rows[k]) == Contribution::<PlcToken>::Ok(Some(x)));
        collected(rows, f, rows.len(), x);
        assert(list.contains(x) && x.token == token);
    }
}

proof fn every_token_counts(rows: Seq<RowView>, limit: nat)
    requires
        limit >= rows.len(),
        collect(rows, |row: RowView| plc_token(row), limit) is Ok,
    ensures
        collect(rows, |row: RowView| plc_token(row), limit)->Ok_0.len() == rows.len(),
    decreases rows.len(),
{
    if rows.len() > 0 {
        let f = |row: RowView| plc_token(row);
        assert(f(rows[0]) matches Ok(Some(_)));
        every_token_counts(rows.skip(1), (limit - 1) as nat);
    }
}

/// A token that was stored is read with its expiry until it is removed, and no other token, of
/// its own user or of another, changes.
pub proof fn stored_token_is_read(
    s: MetastoreView,
    user: Uuid,
    token: Seq<char>,
    expires_at: i64,
    other_user: Uuid,
    other: Seq<char>,
)
    requires
        is_timestamp(expires_at as int),
    ensures
        ({
            let key = plc_key(user, token);
            let t = infra_committed(
                s,
                seq![WriteView::Put { key, value: be8(signed_bits(expires_at)) }],
            ).infra.rows;
            let u = infra_committed(s, seq![WriteView::Remove { key }]).infra.rows;
            &&& plc_expiry(t, user, token) == Ok::<Option<i64>, MetastoreError>(Some(expires_at))
            &&& plc_expiry(u, user, token) == Ok::<Option<i64>, MetastoreError>(None)
            &&& other_user != user || other != token ==> {
                &&& plc_expiry(t, other_user, other) == plc_expiry(s.infra.rows, other_user, other)
                &&& plc_expiry(u, other_user, other) == plc_expiry(s.infra.rows, other_user, other)
            }
        }),
{
    let key = plc_key(user, token);
    let put = WriteView::Put { key, value: be8(signed_bits(expires_at)) };
    let remove = WriteView::Remove { key };
    write_one(s.infra.rows, put);
    write_one(s.infra.rows, remove);
    expiry_round_trip(expires_at);
    infra_keys_injective(KeyTag::PlcToken, token, other, user, other_user);
    if other_user != user || other != token {
        write_rows_frame(s.infra.rows, seq![put], plc_key(other_user, other));
        write_rows_frame(s.infra.rows, seq![remove], plc_key(other_user, other));
    }
}

/// A blob's storage key is that of the row that stands under its owner and its identifier. Once
/// the blob was removed, it has none, and every other blob keeps its own.
pub proof fn blob_is_found_until_removed(
    repo_data: Rows,
    owner: u64,
    cid: Seq<char>,
    v: crate::infra_schema::BlobRow,
    other: Seq<char>,
)
    requires
        lookup(repo_data, blob_cid_key(cid)) == Some(be8(owner)),
        blob_at(repo_data, blob_meta_key_bytes(owner, cid)) == Ok::<
            Option<crate::infra_schema::BlobRow>,
            MetastoreError,
        >(Some(v)),
    ensures
        ({
            let after = write_rows(
                repo_data,
                seq![
                    WriteView::Remove { key: blob_meta_key_bytes(owner, cid) },
                    WriteView::Remove { key: blob_cid_key(cid) },
                ],
            );
            &&& blob_owner(repo_data, cid) == Ok::<Option<u64>, MetastoreError>(Some(owner))
            &&& blob_storage(repo_data, cid) == Ok::<Option<Seq<char>>, MetastoreError>(
                Some(v.storage_key),
            )
            &&& blob_storage(after, cid) == Ok::<Option<Seq<char>>, MetastoreError>(None)
            &&& other != cid ==> blob_storage(after, other) == blob_storage(repo_data, other)
        }),
{
    be8_round_trip(owner);
    let ws = seq![
        WriteView::Remove { key: blob_meta_key_bytes(owner, cid) },
        WriteView::Remove { key: blob_cid_key(cid) },
    ];
    let none = Uuid { bits: 0 };
    assert(blob_meta_key_bytes(owner, cid)[0] != blob_cid_key(cid)[0]);
    write_rows_last(repo_data, ws, 1);
    if other != cid {
        infra_keys_injective(KeyTag::BlobByCid, other, cid, none, none);
        assert(blob_meta_key_bytes(owner, cid)[0] != blob_cid_key(other)[0]);
        write_rows_frame(repo_data, ws, blob_cid_key(other));
        if let Ok(Some(h)) = blob_owner(repo_data, other) {
            let key = blob_meta_key_bytes(h, other);
            assert(key[0] != blob_cid_key(cid)[0]);
            blob_keys_injective(h, other, owner, cid);
            write_rows_frame(repo_data, ws, key);
        }
    }
}

proof fn blob_keys_injective(h1: u64, c1: Seq<char>, h2: u64, c2: Seq<char>)
    ensures
        blob_meta_key_bytes(h1, c1) == blob_meta_key_bytes(h2, c2) ==> c1 == c2,
{
    let a = blob_meta_key_bytes(h1, c1);
    let b = blob_meta_key_bytes(h2, c2);
    let none = Seq::<u8>::empty();
    crate::encoding::be_len(h1 as nat, 8);
    crate::encoding::be_len(h2 as nat, 8);
    if a == b {
        assert(a.skip(9) =~= escaped(encode_utf8(c1)) + none);
        assert(b.skip(9) =~= escaped(encode_utf8(c2)) + none);
        escaped_injective(encode_utf8(c1), encode_utf8(c2), none, none);
        text_round_trip(c1);
        text_round_trip(c2);
    }
}

/// Administrators see of an account what its user row says, field by field; of a DID without an
/// account they see nothing.
pub proof fn account_is_shown(users: Rows, did: Seq<char>)
    ensures
        user_at(users, did_hash(did)) is None ==> admin_account_of(users, did) == Contribution::<
            AdminAccount,
        >::Ok(None),
        user_at(users, did_hash(did)) matches Some(u) ==> (did_text(u.did) && is_handle(
            encode_utf8(u.handle),
        ) ==> (admin_account_of(users, did) matches Ok(Some(a)) && {
            &&& a.id == u.id
            &&& a.did == u.did
            &&& a.handle == u.handle
            &&& a.email == u.email
            &&& a.invites_disabled == u.invites_disabled
            &&& a.email_verified == u.email_verified
            &&& is_timestamp(u.created_at_ms as int) ==> a.created_at == u.created_at_ms
            &&& u.deactivated_at_ms is None ==> a.deactivated_at is None
            &&& u.deactivated_at_ms matches Some(t) ==> (is_timestamp(t as int)
                ==> a.deactivated_at == Some(t))
        })),
        user_at(users, did_hash(did)) matches Some(u) ==> (!did_text(u.did) || !is_handle(
            encode_utf8(u.handle),
        ) ==> admin_account_of(users, did) is Err),
{
}

/// Of several DIDs, administrators see exactly the accounts that they see of each.
pub proof fn accounts_are_shown(users: Rows, dids: Seq<Seq<char>>, a: AdminAccount)
    requires
        collect_all(dids, |did: Seq<char>| admin_account_of(users, did)) is Ok,
    ensures
        collect_all(dids, |did: Seq<char>| admin_account_of(users, did))->Ok_0.contains(a)
            <==> exists|i: int|
            0 <= i < dids.len() && admin_account_of(users, #[trigger] dids[i]) == Contribution::<
                AdminAccount,
            >::Ok(Some(a)),
{
    let f = |did: Seq<char>| admin_account_of(users, did);
    collected(dids, f, dids.len(), a);
    if exists|i: int|
        0 <= i < dids.len() && admin_account_of(users, #[trigger] dids[i]) == Contribution::<
            AdminAccount,
        >::Ok(Some(a)) {
        let i = choose|i: int|
            0 <= i < dids.len() && admin_account_of(users, #[trigger] dids[i]) == Contribution::<
                AdminAccount,
            >::Ok(Some(a));
        assert(f(dids[i]) == Contribution::<AdminAccount>::Ok(Some(a)));
    }
    if exists|i: int|
        0 <= i < dids.len() && f(#[trigger] dids[i]) == Contribution::<AdminAccount>::Ok(Some(a)) {
        let i = choose|i: int|
            0 <= i < dids.len() && f(#[trigger] dids[i]) == Contribution::<AdminAccount>::Ok(
                Some(a),
            );
        assert(admin_account_of(users, dids[i]) == Contribution::<AdminAccount>::Ok(Some(a)));
    }
}

/// A registration with an invite code is admitted exactly where the code is not refused, and
/// takes one use of it then; where it is refused, nothing changes and the token is invalid.
pub proof fn registration_takes_a_use(s: MetastoreView, code: Seq<char>)
    requires
        storable(s.infra.rows),
    ensures
        ({
            let (admitted, t) = consumed(s, code);
            let refused = invite_refusal(s.infra.rows, code) is Some;
            &&& admitted <==> !refused
            &&& refused ==> t == s && registration(Ok(admitted)) == Err::<(), CreateErrorView>(
                CreateErrorView::InvalidToken,
            )
            &&& !refused ==> registration(Ok(admitted)) is Ok && (invite_at(
                s.infra.rows,
                invite_key(code),
            ) matches Ok(Some(v)) && (invite_at(t.infra.rows, invite_key(code)) matches Ok(Some(w))
                && w.available_uses == v.available_uses - 1 && w.disabled == v.disabled && w.code
                == v.code && w.for_account == v.for_account && w.created_by == v.created_by
                && w.created_at_ms == v.created_at_ms))
        }),
{
    if invite_refusal(s.infra.rows, code) is None {
        let key = invite_key(code);
        let v = invite_at(s.infra.rows, key)->Ok_0->0;
        InviteRow::read_fits(s.infra.rows[key]);
        let w = InviteRow { available_uses: (v.available_uses - 1) as i32, ..v };
        assert(w.fits());
        w.round_trip();
        write_one(s.infra.rows, WriteView::Put { key, value: w.stored() });
    }
}

/// What an account's deletion request is read as, and what is left once the account's requests
/// were forgotten.
pub proof fn forgotten_request_is_gone(s: MetastoreView, did: Seq<char>, token: Seq<char>)
    requires
        deletion_token(s.infra.rows, did) == Ok::<Option<Seq<char>>, MetastoreError>(Some(token)),
    ensures
        crate::infra_schema::deletion_at(s.infra.rows, deletion_key(token)) matches Ok(Some(v)) ==> (
        deletion_of(s.infra.rows, did) matches Ok(Some(d)) && d.token == token && d.did == v.did && (
        is_timestamp(v.expires_at_ms as int) ==> d.expires_at == v.expires_at_ms)),
        ({
            let (r, t) = deletion_forgotten(s, did);
            &&& r is Ok
            &&& deletion_of(t.infra.rows, did) == Ok::<Option<DeletionWithToken>, MetastoreError>(
                None,
            )
            &&& deletion_with(t.infra.rows, token) == Ok::<Option<Deletion>, MetastoreError>(None)
        }),
{
    let primary = deletion_key(token);
    let index = deletion_did_key(did);
    assert(primary[0] != index[0]);
    let ws = seq![WriteView::Remove { key: primary }, WriteView::Remove { key: index }];
    write_rows_last(s.infra.rows, ws, 0);
    write_rows_last(s.infra.rows, ws, 1);
}

/// A user is found by the DID of the user row under the DID's hash.
pub proof fn user_is_found_by_did(users: Rows, did: Seq<char>)
    ensures
        user_at(users, did_hash(did)) matches Some(u) ==> id_with_did(users, did) == Some(u.id),
        user_at(users, did_hash(did)) is None ==> id_with_did(users, did) is None,
{
}

/// An account that is not known has no tokens, and none are counted; where the account cannot be
/// looked up, that is what is told.
pub proof fn unknown_account_has_no_tokens(infra: Rows, e: MetastoreError)
    ensures
        tokens_of(infra, Ok(None)) == Ok::<Seq<PlcToken>, MetastoreError>(Seq::empty()),
        token_count_of(infra, Ok(None)) == Ok::<i64, MetastoreError>(0),
        tokens_of(infra, Err(e)) == Err::<Seq<PlcToken>, MetastoreError>(e),
        token_count_of(infra, Err(e)) == Err::<i64, MetastoreError>(e),
{
}

/// A registration whose invite code could not be looked up is refused with the store's words.
pub proof fn failed_lookup_is_told(e: MetastoreError)
    ensures
        registration(Err(e)) == Err::<(), CreateErrorView>(CreateErrorView::Database(e.text())),
{
}

} // verus!
