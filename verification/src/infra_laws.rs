//! What holds of account infrastructure from one call to the next.

use vstd::prelude::*;
use vstd::utf8::encode_utf8;

use crate::account_ops::{config_key, config_value, deletion_did_key};
use crate::account_ops::{deletion_key, deletion_removals, deletion_token, deletion_with};
use crate::account_ops::{deletion_writes, expiry_round_trip, key_used, plc_expiry, plc_key, plc_rows};
use crate::account_ops::{signed_bits, signing_key_key, signing_key_writes, usable_key};
use crate::account_ops::{Deletion, ReservedKey};
use crate::clock::{is_timestamp, timestamp_or_epoch};
use crate::codec::text_round_trip;
use crate::comms_ops::{abandoned, attempted, due_message, enqueued, sent};
use crate::comms_ops::{message_of, message_writes};
use crate::delegation_ops::did_text;
use crate::encoding::be8;
use crate::errors::MetastoreError;
use crate::infra_ops::infra_committed;
use crate::infra_schema::{comms_at, comms_history_key_bytes, id_key_bytes, infra_keys_injective};
use crate::infra_schema::{invite_at, owner_prefix_bytes, CommsRow, CommsStatus};
use crate::infra_schema::{DeletionRow, InviteRow, SigningKeyRow};
use crate::invite_ops::{code_used_by, disable_write, invite_created, invite_key, invite_refusal};
use crate::invite_ops::{invite_write, refunded, reserved, use_writes};
use crate::invite_ops::InviteErrorView;
use crate::keys::KeyTag;
use crate::metastore::MetastoreView;
use crate::scan::{collect, collect_all, Contribution};
use crate::store::{lists, listing_is_scan, lookup, prefix_keys, removing_rows, row_removals};
use crate::store::{scan_lists, write_one};
use crate::store::{write_row, write_rows, write_rows_concat};
use crate::store::{write_rows_last, writes_key, RowView, Rows, WriteView};
use crate::types::Uuid;

verus! {

/// The store after a code was reserved a number of times.
pub open spec fn reserved_times(s: MetastoreView, code: Seq<char>, n: nat) -> MetastoreView
    decreases n,
{
    if n == 0 {
        s
    } else {
        reserved(reserved_times(s, code, (n - 1) as nat), code).1
    }
}

/// A reservation takes one use of a code, and nothing else.
pub proof fn reservation_takes_one_use(s: MetastoreView, code: Seq<char>, v: InviteRow)
    requires
        invite_at(s.infra.rows, invite_key(code)) == Ok::<Option<InviteRow>, MetastoreError>(Some(v)),
        invite_refusal(s.infra.rows, code) is None,
        v.fits(),
    ensures
        reserved(s, code).0 is None,
        invite_at(reserved(s, code).1.infra.rows, invite_key(code)) == Ok::<
            Option<InviteRow>,
            MetastoreError,
        >(Some(InviteRow { available_uses: (v.available_uses - 1) as i32, ..v })),
        forall|k: Seq<u8>|
            k != invite_key(code) ==> #[trigger] lookup(reserved(s, code).1.infra.rows, k) == lookup(
                s.infra.rows,
                k,
            ),
{
    let w = InviteRow { available_uses: (v.available_uses - 1) as i32, ..v };
    assert(w.fits());
    w.round_trip();
    write_one(s.infra.rows, WriteView::Put { key: invite_key(code), value: w.stored() });
}

/// A refund undoes a reservation.
pub proof fn refund_undoes_reservation(s: MetastoreView, code: Seq<char>, v: InviteRow)
    requires
        invite_at(s.infra.rows, invite_key(code)) == Ok::<Option<InviteRow>, MetastoreError>(Some(v)),
        invite_refusal(s.infra.rows, code) is None,
        v.fits(),
    ensures
        refunded(reserved(s, code).1, code).0 is None,
        invite_at(refunded(reserved(s, code).1, code).1.infra.rows, invite_key(code)) == Ok::<
            Option<InviteRow>,
            MetastoreError,
        >(Some(v)),
{
    reservation_takes_one_use(s, code, v);
    v.round_trip();
    let t = reserved(s, code).1;
    write_one(t.infra.rows, WriteView::Put { key: invite_key(code), value: v.stored() });
}

proof fn reservations(s: MetastoreView, code: Seq<char>, v: InviteRow, n: nat)
    requires
        invite_at(s.infra.rows, invite_key(code)) == Ok::<Option<InviteRow>, MetastoreError>(Some(v)),
        !v.disabled,
        v.fits(),
        n <= v.available_uses,
    ensures
        invite_at(reserved_times(s, code, n).infra.rows, invite_key(code)) == Ok::<
            Option<InviteRow>,
            MetastoreError,
        >(Some(InviteRow { available_uses: (v.available_uses - n) as i32, ..v })),
    decreases n,
{
    if n > 0 {
        reservations(s, code, v, (n - 1) as nat);
        let t = reserved_times(s, code, (n - 1) as nat);
        let u = InviteRow { available_uses: (v.available_uses - (n - 1)) as i32, ..v };
        assert(u.fits());
        reservation_takes_one_use(t, code, u);
    } else {
        assert(InviteRow { available_uses: (v.available_uses - 0) as i32, ..v } == v);
    }
}

/// A code can be reserved exactly as often as it has uses.
pub proof fn code_is_reserved_as_often_as_it_has_uses(
    s: MetastoreView,
    code: Seq<char>,
    v: InviteRow,
    n: nat,
)
    requires
        invite_at(s.infra.rows, invite_key(code)) == Ok::<Option<InviteRow>, MetastoreError>(Some(v)),
        !v.disabled,
        v.fits(),
        n <= v.available_uses,
    ensures
        n < v.available_uses ==> reserved(reserved_times(s, code, n), code).0 is None,
        n == v.available_uses ==> reserved(reserved_times(s, code, n), code).0 == Some(
            InviteErrorView::ExhaustedUses,
        ),
{
    reservations(s, code, v, n);
}

/// A new code is usable if it has uses, and its name is taken from then on.
pub proof fn created_code_is_usable(s: MetastoreView, v: InviteRow, other: InviteRow)
    requires
        s.infra.get(invite_key(v.code)) is None,
        v.fits(),
        !v.disabled,
        other.code == v.code,
    ensures
        invite_created(s, v).0,
        invite_refusal(invite_created(s, v).1.infra.rows, v.code) == (if v.available_uses > 0 {
            None
        } else {
            Some(InviteErrorView::ExhaustedUses)
        }),
        !invite_created(invite_created(s, v).1, other).0,
{
    v.round_trip();
    write_one(s.infra.rows, invite_write(v));
}

/// What some disabling writes leave at the key of a code.
pub(crate) proof fn disabling(
    m: Rows,
    infra: Rows,
    codes: Seq<Seq<char>>,
    limit: nat,
    code: Seq<char>,
    v: InviteRow,
)
    requires
        limit >= codes.len(),
        invite_at(infra, invite_key(code)) == Ok::<Option<InviteRow>, MetastoreError>(Some(v)),
        collect(codes, |c: Seq<char>| disable_write(infra, c), limit) is Ok,
    ensures
        lookup(
            write_rows(m, collect(codes, |c: Seq<char>| disable_write(infra, c), limit)->Ok_0),
            invite_key(code),
        ) == (if codes.contains(code) {
            Some(InviteRow { disabled: true, ..v }.stored())
        } else {
            lookup(m, invite_key(code))
        }),
    decreases codes.len(),
{
    let f = |c: Seq<char>| disable_write(infra, c);
    if codes.len() > 0 {
        let c = codes[0];
        let t = codes.skip(1);
        infra_keys_injective(KeyTag::InviteCode, c, code, Uuid { bits: 0 }, Uuid { bits: 0 });
        assert(codes.contains(code) == (c == code || t.contains(code))) by {
            if codes.contains(code) && c != code {
                let i = choose|i: int| 0 <= i < codes.len() && codes[i] == code;
                assert(t[i - 1] == code);
            }
            if t.contains(code) {
                let i = choose|i: int| 0 <= i < t.len() && t[i] == code;
                assert(codes[i + 1] == code);
            }
        }
        match f(c) {
            Ok(Some(w)) => {
                let ws = collect(t, f, (limit - 1) as nat)->Ok_0;
                disabling(write_row(m, w), infra, t, (limit - 1) as nat, code, v);
                write_one(m, w);
                write_rows_concat(m, seq![w], ws);
            },
            Ok(None) => {
                disabling(m, infra, t, limit, code, v);
            },
            Err(_) => {},
        }
    }
}

/// A code that was disabled is refused.
pub proof fn disabled_code_is_refused(
    s: MetastoreView,
    codes: Seq<Seq<char>>,
    code: Seq<char>,
    v: InviteRow,
)
    requires
        codes.contains(code),
        invite_at(s.infra.rows, invite_key(code)) == Ok::<Option<InviteRow>, MetastoreError>(Some(v)),
        v.fits(),
        collect_all(codes, |c: Seq<char>| disable_write(s.infra.rows, c)) is Ok,
    ensures
        invite_refusal(
            infra_committed(
                s,
                collect_all(codes, |c: Seq<char>| disable_write(s.infra.rows, c))->Ok_0,
            ).infra.rows,
            code,
        ) == Some(InviteErrorView::Disabled),
{
    disabling(s.infra.rows, s.infra.rows, codes, codes.len(), code, v);
    let w = InviteRow { disabled: true, ..v };
    assert(w.fits());
    w.round_trip();
}

/// Who used a code is read back.
pub proof fn recorded_use_is_read(s: MetastoreView, code: Seq<char>, user: Uuid, now: i64)
    ensures
        code_used_by(
            infra_committed(s, use_writes(code, user, now)).infra.rows,
            user,
        ) == Ok::<Option<Seq<char>>, MetastoreError>(Some(code)),
{
    let ws = use_writes(code, user, now);
    write_rows_last(s.infra.rows, ws, 1);
    text_round_trip(code);
}

/// A reserved key can be used until it expires or was used, and not afterwards.
pub proof fn reserved_key_is_used_once(s: MetastoreView, v: SigningKeyRow, now: i64, used_at: i64)
    requires
        v.fits(),
        !v.used,
    ensures
        ({
            let t = infra_committed(s, signing_key_writes(v));
            let (r, u) = key_used(t, v.id, used_at);
            &&& usable_key(t.infra.rows, v.public_key_did_key, now) == Ok::<
                Option<ReservedKey>,
                MetastoreError,
            >(
                if v.expires_at_ms > now {
                    Some(ReservedKey { id: v.id, private_key_bytes: v.private_key_bytes })
                } else {
                    None
                },
            )
            &&& r is Ok
            &&& usable_key(u.infra.rows, v.public_key_did_key, now) == Ok::<
                Option<ReservedKey>,
                MetastoreError,
            >(None)
        }),
{
    let ws = signing_key_writes(v);
    let primary = signing_key_key(v.public_key_did_key);
    let index = id_key_bytes(KeyTag::SigningKeyById, v.id);
    assert(primary[0] != index[0]);
    write_rows_last(s.infra.rows, ws, 0);
    write_rows_last(s.infra.rows, ws, 1);
    v.round_trip();
    text_round_trip(v.public_key_did_key);
    let t = infra_committed(s, ws);
    assert(lookup(t.infra.rows, primary) == Some(v.stored()));
    assert(lookup(t.infra.rows, index) == Some(encode_utf8(v.public_key_did_key)));
    let w = SigningKeyRow { used: true, used_at_ms: Some(used_at), ..v };
    assert(w.fits());
    w.round_trip();
    write_one(t.infra.rows, WriteView::Put { key: primary, value: w.stored() });
}

/// A request to delete an account is read back, by its token and by the account, until it
/// is removed.
pub proof fn deletion_request_is_read_until_removed(s: MetastoreView, v: DeletionRow)
    requires
        v.fits(),
        did_text(v.did),
    ensures
        ({
            let t = infra_committed(s, deletion_writes(v));
            let removals = deletion_removals(t.infra.rows, v.token);
            let u = infra_committed(t, removals->Ok_0);
            &&& deletion_with(t.infra.rows, v.token) == Ok::<Option<Deletion>, MetastoreError>(
                Some(Deletion { did: v.did, expires_at: timestamp_or_epoch(v.expires_at_ms) }),
            )
            &&& deletion_token(t.infra.rows, v.did) == Ok::<Option<Seq<char>>, MetastoreError>(
                Some(v.token),
            )
            &&& removals is Ok
            &&& deletion_with(u.infra.rows, v.token) == Ok::<Option<Deletion>, MetastoreError>(None)
            &&& deletion_token(u.infra.rows, v.did) == Ok::<Option<Seq<char>>, MetastoreError>(None)
        }),
{
    let ws = deletion_writes(v);
    let primary = deletion_key(v.token);
    let index = deletion_did_key(v.did);
    assert(primary[0] != index[0]);
    write_rows_last(s.infra.rows, ws, 0);
    write_rows_last(s.infra.rows, ws, 1);
    v.round_trip();
    text_round_trip(v.token);
    let t = infra_committed(s, ws);
    assert(lookup(t.infra.rows, primary) == Some(v.stored()));
    let rs = deletion_removals(t.infra.rows, v.token)->Ok_0;
    write_rows_last(t.infra.rows, rs, 0);
    write_rows_last(t.infra.rows, rs, 1);
}

/// A setting is read back as it was last written, and no other setting changes.
pub proof fn setting_is_read(s: MetastoreView, name: Seq<char>, value: Seq<char>, other: Seq<char>)
    ensures
        ({
            let t = infra_committed(
                s,
                seq![WriteView::Put { key: config_key(name), value: encode_utf8(value) }],
            );
            let u = infra_committed(s, seq![WriteView::Remove { key: config_key(name) }]);
            &&& config_value(t.infra.rows, name) == Ok::<Option<Seq<char>>, MetastoreError>(
                Some(value),
            )
            &&& config_value(u.infra.rows, name) == Ok::<Option<Seq<char>>, MetastoreError>(None)
            &&& other != name ==> config_value(t.infra.rows, other) == config_value(
                s.infra.rows,
                other,
            ) && config_value(u.infra.rows, other) == config_value(s.infra.rows, other)
        }),
{
    write_one(
        s.infra.rows,
        WriteView::Put { key: config_key(name), value: encode_utf8(value) },
    );
    write_one(s.infra.rows, WriteView::Remove { key: config_key(name) });
    text_round_trip(value);
    infra_keys_injective(
        KeyTag::ServerConfig,
        name,
        other,
        Uuid { bits: 0 },
        Uuid { bits: 0 },
    );
}

/// A token's expiry is read back as it was written.
pub proof fn token_expiry_is_read(s: MetastoreView, user: Uuid, token: Seq<char>, expires_at: i64)
    requires
        is_timestamp(expires_at as int),
    ensures
        plc_expiry(
            infra_committed(
                s,
                seq![
                    WriteView::Put {
                        key: plc_key(user, token),
                        value: be8(signed_bits(expires_at)),
                    },
                ],
            ).infra.rows,
            user,
            token,
        ) == Ok::<Option<i64>, MetastoreError>(Some(expires_at)),
{
    write_one(
        s.infra.rows,
        WriteView::Put { key: plc_key(user, token), value: be8(signed_bits(expires_at)) },
    );
    expiry_round_trip(expires_at);
}

/// After a user's tokens were removed, the user has none.
pub proof fn removed_tokens_are_gone(s: MetastoreView, user: Uuid)
    requires
        s.infra.rows.dom().finite(),
    ensures
        plc_rows(
            infra_committed(s, row_removals(plc_rows(s.infra.rows, user))).infra.rows,
            user,
        ).len() == 0,
{
    let m = s.infra.rows;
    let keys = prefix_keys(owner_prefix_bytes(KeyTag::PlcToken, user));
    let rows = plc_rows(m, user);
    scan_lists(m, keys);
    let after = write_rows(m, row_removals(rows));
    assert forall|k: Seq<u8>| #[trigger] after.contains_key(k) && keys.contains(k) implies false by {
        removing_rows(m, rows, k);
        assert(lookup(after, k) is Some);
        if exists|i: int| 0 <= i < rows.len() && (#[trigger] rows[i]).key == k {
            assert(false);
        } else {
            assert(lookup(m, k) is Some);
            assert(m.contains_key(k) && keys.contains(k));
            assert(false);
        }
    }
    assert(lists(after, keys, Seq::empty()));
    listing_is_scan(after, keys, Seq::empty());
}

proof fn message_is_queued(m: Rows, v: CommsRow, seq: u32)
    ensures
        lookup(
            write_rows(m, message_writes(v, seq)),
            id_key_bytes(KeyTag::CommsQueue, v.id),
        ) == Some(v.stored()),
{
    let ws = message_writes(v, seq);
    let queue = id_key_bytes(KeyTag::CommsQueue, v.id);
    assert(queue[0] == KeyTag::CommsQueue.byte());
    if let Some(u) = v.user_id {
        let history = comms_history_key_bytes(u, v.created_at_ms, seq, v.id);
        assert(history[0] == KeyTag::CommsHistory.byte());
        assert(writes_key(ws[1]) == history);
    }
    write_rows_last(m, ws, 0);
}

/// A message that was queued is in the queue as it was queued, and due at once.
pub proof fn queued_message_is_due(s: MetastoreView, v: CommsRow, now: i64)
    requires
        v.fits(),
        message_of(v) is Ok,
        v.status == CommsStatus::Pending.number(),
        v.scheduled_for_ms <= now,
    ensures
        comms_at(enqueued(s, v).infra.rows, id_key_bytes(KeyTag::CommsQueue, v.id)) == Ok::<
            Option<CommsRow>,
            MetastoreError,
        >(Some(v)),
        due_message(
            RowView { key: id_key_bytes(KeyTag::CommsQueue, v.id), value: v.stored() },
            now,
        ) == Contribution::<crate::comms_ops::QueuedMessage>::Ok(Some(message_of(v)->Ok_0)),
{
    v.round_trip();
    message_is_queued(s.infra.rows, v, s.comms_seq);
}

/// A message that went out, or is not tried again, is never due.
pub proof fn finished_message_is_not_due(
    v: CommsRow,
    key: Seq<u8>,
    error: Seq<char>,
    at: i64,
    now: i64,
)
    requires
        sent(v, at).fits(),
        abandoned(v, error).fits(),
    ensures
        due_message(RowView { key, value: sent(v, at).stored() }, now) == Contribution::<
            crate::comms_ops::QueuedMessage,
        >::Ok(None),
        due_message(RowView { key, value: abandoned(v, error).stored() }, now) == Contribution::<
            crate::comms_ops::QueuedMessage,
        >::Ok(None),
{
    sent(v, at).round_trip();
    abandoned(v, error).round_trip();
}

/// A message that was tried as often as it may be is not due again; before that it is due
/// a minute later for each attempt so far, and not earlier.
pub proof fn failed_message_waits(
    v: CommsRow,
    key: Seq<u8>,
    error: Seq<char>,
    at: i64,
    now: i64,
)
    requires
        attempted(v, error, at).fits(),
        message_of(v) is Ok,
        0 <= v.attempts < v.max_attempts,
        is_timestamp(at as int),
    ensures
        due_message(RowView { key, value: attempted(v, error, at).stored() }, now) == (if v.attempts
            + 1 < v.max_attempts && at + (v.attempts + 1) * 60_000 <= now {
            Contribution::<crate::comms_ops::QueuedMessage>::Ok(
                Some(message_of(attempted(v, error, at))->Ok_0),
            )
        } else {
            Contribution::<crate::comms_ops::QueuedMessage>::Ok(None)
        }),
{
    attempted(v, error, at).round_trip();
}

} // verus!
