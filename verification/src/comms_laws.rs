//! What becomes of a message from its queueing on.

use vstd::prelude::*;

use crate::bytes::{has_prefix, lex_lt};
use crate::clock::is_timestamp;
use crate::comms_ops::{abandoned, attempted, comms_changed, comms_rows, due_message, enqueued};
use crate::comms_ops::{first_items, history_entry, history_rows, latest_messages, message_of};
use crate::comms_ops::{message_to, message_writes, new_message, removal_of, removals, sent};
use crate::comms_ops::{history_of, history_owner, history_write, status_write, HistoryEntry};
use crate::comms_ops::QueuedMessage;
use crate::errors::MetastoreError;
use crate::infra_schema::{comms_at, comms_history_key_bytes, id_key_bytes, infra_keys_injective};
use crate::infra_schema::{owner_prefix_bytes, CommsChannel, CommsRow, CommsStatus, CommsType};
use crate::infra_schema::{history_is_newest_first, HistoryRow};
use crate::json::compact_json;
use crate::keys::KeyTag;
use crate::metastore::MetastoreView;
use crate::scan::{collect, collect_all, collected, Contribution};
use crate::sort::{sorted_in_order, stable_sorted};
use crate::store::{lookup, prefix_keys, row_is_listed, scan_lists, storable, write_rows};
use crate::store::{write_rows_concat, write_rows_finite, write_rows_frame, write_rows_last};
use crate::store::{writes_key, write_one, RowView, Rows, WriteView};
use crate::types::Uuid;

verus! {

proof fn queue_key_tag(id: Uuid)
    ensures
        has_prefix(id_key_bytes(KeyTag::CommsQueue, id), seq![KeyTag::CommsQueue.byte()]),
        id_key_bytes(KeyTag::CommsQueue, id)[0] == KeyTag::CommsQueue.byte(),
{
    assert(id_key_bytes(KeyTag::CommsQueue, id).take(1) =~= seq![KeyTag::CommsQueue.byte()]);
}

/// The rows of a message that was queued.
#[verifier::spinoff_prover]
#[verifier::rlimit(100)]
proof fn queued_rows(s: MetastoreView, v: CommsRow)
    requires
        s.infra.rows.dom().finite(),
        v.fits(),
        history_of(v).fits(),
    ensures
        ({
            let t = enqueued(s, v).infra.rows;
            &&& t.dom().finite()
            &&& lookup(t, id_key_bytes(KeyTag::CommsQueue, v.id)) == Some(v.stored())
            &&& CommsRow::read(v.stored()) == Some(v)
            &&& v.user_id matches Some(u) ==> {
                &&& lookup(t, comms_history_key_bytes(u, v.created_at_ms, s.comms_seq, v.id)) == Some(
                    history_of(v).stored(),
                )
                &&& HistoryRow::read(history_of(v).stored()) == Some(history_of(v))
            }
        }),
{
    let ws = message_writes(v, s.comms_seq);
    let queue = id_key_bytes(KeyTag::CommsQueue, v.id);
    v.round_trip();
    write_rows_finite(s.infra.rows, ws);
    queue_key_tag(v.id);
    if let Some(u) = v.user_id {
        let history = comms_history_key_bytes(u, v.created_at_ms, s.comms_seq, v.id);
        assert(history[0] == KeyTag::CommsHistory.byte());
        assert(writes_key(ws[1]) == history);
        write_rows_last(s.infra.rows, ws, 1);
        history_of(v).round_trip();
    }
    write_rows_last(s.infra.rows, ws, 0);
}

/// What is read of the metadata that a message was queued with: the JSON that they hold, in
/// its compact form.
pub open spec fn metadata_read(metadata: Option<Seq<u8>>, read: Option<Seq<u8>>) -> bool {
    match metadata {
        None => read is None,
        Some(b) => compact_json(b) matches Some(t) ==> read == compact_json(t),
    }
}

/// A message that was queued is fetched once it is due, with all that it was queued with: to
/// whom and how it goes, what it says, and that it was not tried yet.
#[verifier::spinoff_prover]
#[verifier::rlimit(100)]
pub proof fn queued_message_is_fetched(
    s: MetastoreView,
    id: Uuid,
    user_id: Option<Uuid>,
    channel: CommsChannel,
    comms_type: CommsType,
    recipient: Seq<char>,
    subject: Option<Seq<char>>,
    body: Seq<char>,
    metadata: Option<Seq<u8>>,
    now: i64,
    at: i64,
    limit: nat,
)
    requires
        s.infra.rows.dom().finite(),
        is_timestamp(now as int),
        new_message(
            id,
            user_id,
            channel,
            comms_type,
            recipient,
            subject,
            body,
            metadata,
            now,
        ).fits(),
        now <= at,
    ensures
        ({
            let v = new_message(
                id,
                user_id,
                channel,
                comms_type,
                recipient,
                subject,
                body,
                metadata,
                now,
            );
            let rows = comms_rows(enqueued(s, v).infra.rows);
            let fetched = collect(rows, |row: RowView| due_message(row, at), limit);
            limit >= rows.len() && fetched is Ok ==> exists|m: QueuedMessage| #[trigger]
                fetched->Ok_0.contains(m) && m.id == id && m.user_id == user_id && m.channel
                    == channel && m.comms_type == comms_type && m.status == CommsStatus::Pending
                    && m.recipient == recipient && m.subject == subject && m.body == body
                    && metadata_read(metadata, m.metadata) && m.attempts == 0 && m.max_attempts == 3
                    && m.last_error is None && m.created_at == now && m.updated_at == now
                    && m.scheduled_for == now && m.processed_at is None
        }),
{
    let v = new_message(id, user_id, channel, comms_type, recipient, subject, body, metadata, now);
    let t = enqueued(s, v).infra.rows;
    let key = id_key_bytes(KeyTag::CommsQueue, id);
    assert(history_of(v).fits());
    queued_rows(s, v);
    queue_key_tag(id);
    let keys = prefix_keys(seq![KeyTag::CommsQueue.byte()]);
    let i = row_is_listed(t, keys, key);
    let rows = comms_rows(t);
    let f = |row: RowView| due_message(row, at);
    let m = message_of(v)->Ok_0;
    assert(f(rows[i]) == Contribution::<QueuedMessage>::Ok(Some(m)));
    if limit >= rows.len() && collect(rows, f, limit) is Ok {
        collected(rows, f, limit, m);
    }
}

/// A message to a user is listed among the user's messages of its type, with all that it was
/// queued with.
#[verifier::spinoff_prover]
#[verifier::rlimit(100)]
pub proof fn queued_message_is_listed(
    s: MetastoreView,
    id: Uuid,
    user: Uuid,
    channel: CommsChannel,
    comms_type: CommsType,
    recipient: Seq<char>,
    subject: Option<Seq<char>>,
    body: Seq<char>,
    metadata: Option<Seq<u8>>,
    now: i64,
)
    requires
        s.infra.rows.dom().finite(),
        is_timestamp(now as int),
        new_message(
            id,
            Some(user),
            channel,
            comms_type,
            recipient,
            subject,
            body,
            metadata,
            now,
        ).fits(),
    ensures
        ({
            let v = new_message(
                id,
                Some(user),
                channel,
                comms_type,
                recipient,
                subject,
                body,
                metadata,
                now,
            );
            let latest = latest_messages(enqueued(s, v).infra.rows, user, comms_type);
            latest is Ok ==> exists|m: QueuedMessage| #[trigger]
                latest->Ok_0.contains(m) && m.id == id && m.user_id == Some(user) && m.channel
                    == channel && m.comms_type == comms_type && m.status == CommsStatus::Pending
                    && m.recipient == recipient && m.subject == subject && m.body == body
                    && metadata_read(metadata, m.metadata) && m.created_at == now
        }),
{
    let v = new_message(
        id,
        Some(user),
        channel,
        comms_type,
        recipient,
        subject,
        body,
        metadata,
        now,
    );
    let t = enqueued(s, v).infra.rows;
    let key = id_key_bytes(KeyTag::CommsQueue, id);
    assert(history_of(v).fits());
    queued_rows(s, v);
    queue_key_tag(id);
    let i = row_is_listed(t, prefix_keys(seq![KeyTag::CommsQueue.byte()]), key);
    let rows = comms_rows(t);
    let f = |row: RowView| message_to(row, user, comms_type);
    let m = message_of(v)->Ok_0;
    assert(f(rows[i]) == Contribution::<QueuedMessage>::Ok(Some(m)));
    if latest_messages(t, user, comms_type) is Ok {
        collected(rows, f, rows.len(), m);
        let ms = collect_all(rows, f)->Ok_0;
        let num = |m: QueuedMessage| -(m.created_at as int);
        crate::sort::sorting_keeps(ms, num, m);
        let latest = latest_messages(t, user, comms_type);
        assert(latest->Ok_0 == stable_sorted(ms, num));
        assert(latest->Ok_0.contains(m));
        assert(m.user_id == Some(user));
        assert(m.recipient == recipient && m.subject == subject && m.body == body);
        assert(metadata_read(metadata, m.metadata));
    }
}

/// A user's history has an entry for a message that was queued, with how it goes and what it
/// says.
#[verifier::spinoff_prover]
#[verifier::rlimit(100)]
pub proof fn queued_message_is_in_history(
    s: MetastoreView,
    id: Uuid,
    user: Uuid,
    channel: CommsChannel,
    comms_type: CommsType,
    recipient: Seq<char>,
    subject: Option<Seq<char>>,
    body: Seq<char>,
    metadata: Option<Seq<u8>>,
    now: i64,
    limit: nat,
)
    requires
        s.infra.rows.dom().finite(),
        is_timestamp(now as int),
        new_message(
            id,
            Some(user),
            channel,
            comms_type,
            recipient,
            subject,
            body,
            metadata,
            now,
        ).fits(),
    ensures
        ({
            let v = new_message(
                id,
                Some(user),
                channel,
                comms_type,
                recipient,
                subject,
                body,
                metadata,
                now,
            );
            let rows = history_rows(enqueued(s, v).infra.rows, user);
            let history = collect(rows, |row: RowView| history_entry(row), limit);
            limit >= rows.len() && history is Ok ==> exists|e: HistoryEntry| #[trigger]
                history->Ok_0.contains(e) && e.created_at == now && e.channel == channel
                    && e.comms_type == comms_type && e.status == CommsStatus::Pending && e.subject
                    == subject && e.body == body
        }),
{
    let v = new_message(
        id,
        Some(user),
        channel,
        comms_type,
        recipient,
        subject,
        body,
        metadata,
        now,
    );
    let t = enqueued(s, v).infra.rows;
    let key = comms_history_key_bytes(user, now, s.comms_seq, id);
    let prefix = owner_prefix_bytes(KeyTag::CommsHistory, user);
    assert(history_of(v).fits());
    queued_rows(s, v);
    assert(key.take(prefix.len() as int) =~= prefix);
    let i = row_is_listed(t, prefix_keys(prefix), key);
    let rows = history_rows(t, user);
    let f = |row: RowView| history_entry(row);
    let e = HistoryEntry {
        created_at: now,
        channel,
        comms_type,
        status: CommsStatus::Pending,
        subject,
        body,
    };
    assert(f(rows[i]) == Contribution::<HistoryEntry>::Ok(Some(e)));
    if limit >= rows.len() && collect(rows, f, limit) is Ok {
        collected(rows, f, limit, e);
    }
}

/// Messages that are fetched wait to be sent, and their time has come.
pub proof fn fetched_messages_are_due(infra: Rows, at: i64, m: QueuedMessage)
    requires
        collect_all(comms_rows(infra), |row: RowView| due_message(row, at)) is Ok,
        collect_all(comms_rows(infra), |row: RowView| due_message(row, at))->Ok_0.contains(m),
        is_timestamp(m.scheduled_for as int),
        m.scheduled_for != 0,
    ensures
        m.status == CommsStatus::Pending,
        m.scheduled_for <= at,
{
    let rows = comms_rows(infra);
    collected(rows, |row: RowView| due_message(row, at), rows.len(), m);
}

/// The latest messages come first, and all are of the user and of the type that were asked
/// for.
pub proof fn latest_messages_in_order(infra: Rows, user: Uuid, comms_type: CommsType)
    requires
        latest_messages(infra, user, comms_type) is Ok,
    ensures
        ({
            let ms = latest_messages(infra, user, comms_type)->Ok_0;
            &&& forall|i: int, j: int|
                0 <= i < j < ms.len() ==> (#[trigger] ms[i]).created_at >= (
                #[trigger] ms[j]).created_at
            &&& forall|i: int|
                0 <= i < ms.len() ==> (#[trigger] ms[i]).user_id == Some(user) && ms[i].comms_type
                    == comms_type
        }),
{
    let rows = comms_rows(infra);
    let f = |row: RowView| message_to(row, user, comms_type);
    let num = |m: QueuedMessage| -(m.created_at as int);
    let found = collect_all(rows, f)->Ok_0;
    let ms = stable_sorted(found, num);
    sorted_in_order(found, num);
    assert forall|i: int, j: int| 0 <= i < j < ms.len() implies (#[trigger] ms[i]).created_at >= (
    #[trigger] ms[j]).created_at by {
        assert(num(ms[i]) <= num(ms[j]));
    }
    assert forall|i: int| 0 <= i < ms.len() implies (#[trigger] ms[i]).user_id == Some(user)
        && ms[i].comms_type == comms_type by {
        assert(ms.contains(ms[i]));
        crate::sort::sorting_keeps(found, num, ms[i]);
        collected(rows, f, rows.len(), ms[i]);
        let k = choose|k: int|
            0 <= k < rows.len() && f(#[trigger] rows[k]) == Contribution::<QueuedMessage>::Ok(
                Some(ms[i]),
            );
        assert(f(rows[k]) == Contribution::<QueuedMessage>::Ok(Some(ms[i])));
    }
}

/// As many messages are counted and removed as are listed.
pub proof fn messages_are_counted(infra: Rows, user: Uuid, comms_type: CommsType)
    requires
        latest_messages(infra, user, comms_type) is Ok,
    ensures
        removals(infra, user, comms_type) matches Ok(ws) && ws.len() == latest_messages(
            infra,
            user,
            comms_type,
        )->Ok_0.len(),
{
    let rows = comms_rows(infra);
    same_count(rows, user, comms_type, rows.len());
    sorted_in_order(
        collect_all(rows, |row: RowView| message_to(row, user, comms_type))->Ok_0,
        |m: QueuedMessage| -(m.created_at as int),
    );
}

proof fn same_count(rows: Seq<RowView>, user: Uuid, comms_type: CommsType, limit: nat)
    requires
        limit >= rows.len(),
        collect(rows, |row: RowView| message_to(row, user, comms_type), limit) is Ok,
    ensures
        collect(rows, |row: RowView| removal_of(row, user, comms_type), limit) matches Ok(ws)
            && ws.len() == collect(
            rows,
            |row: RowView| message_to(row, user, comms_type),
            limit,
        )->Ok_0.len(),
    decreases rows.len(),
{
    if rows.len() > 0 {
        if message_to(rows[0], user, comms_type) is Ok {
            if message_to(rows[0], user, comms_type)->Ok_0 is Some {
                same_count(rows.skip(1), user, comms_type, (limit - 1) as nat);
            } else {
                same_count(rows.skip(1), user, comms_type, limit);
            }
        }
    }
}

/// The message under an identifier, as a reader sees it.
pub open spec fn queued_as(infra: Rows, id: Uuid) -> Option<QueuedMessage> {
    match comms_at(infra, id_key_bytes(KeyTag::CommsQueue, id)) {
        Ok(Some(v)) => match message_of(v) {
            Ok(m) => Some(m),
            Err(_) => None,
        },
        _ => None,
    }
}

/// What a change leaves of a message and of its entry in the history.
#[verifier::spinoff_prover]
#[verifier::rlimit(100)]
proof fn message_changed(
    s: MetastoreView,
    id: Uuid,
    change: spec_fn(CommsRow) -> CommsRow,
    v: CommsRow,
    other: Uuid,
    j: int,
    h: HistoryRow,
)
    requires
        storable(s.infra.rows),
        comms_changed(s, id, change).0 is Ok,
        comms_at(s.infra.rows, id_key_bytes(KeyTag::CommsQueue, id)) == Ok::<
            Option<CommsRow>,
            MetastoreError,
        >(Some(v)),
        change(v).fits(),
        change(v).id == v.id,
        change(v).user_id == v.user_id,
        0 <= j < history_rows(s.infra.rows, history_owner(v)).len() ==> {
            &&& HistoryRow::read(history_rows(s.infra.rows, history_owner(v))[j].value) == Some(h)
            &&& h.id == v.id
            &&& forall|i: int|
                0 <= i < j ==> (HistoryRow::read(
                    (#[trigger] history_rows(s.infra.rows, history_owner(v))[i]).value,
                ) matches Some(w) && w.id != v.id)
        },
    ensures
        ({
            let t = comms_changed(s, id, change).1.infra.rows;
            let rows = history_rows(s.infra.rows, history_owner(v));
            &&& comms_at(t, id_key_bytes(KeyTag::CommsQueue, id)) == Ok::<
                Option<CommsRow>,
                MetastoreError,
            >(Some(change(v)))
            &&& other != id ==> lookup(t, id_key_bytes(KeyTag::CommsQueue, other)) == lookup(
                s.infra.rows,
                id_key_bytes(KeyTag::CommsQueue, other),
            )
            &&& 0 <= j < rows.len() ==> lookup(t, rows[j].key) == Some(
                HistoryRow { status: change(v).status, ..h }.stored(),
            ) && HistoryRow::read(HistoryRow { status: change(v).status, ..h }.stored()) == Some(
                HistoryRow { status: change(v).status, ..h },
            )
        }),
{
    let key = id_key_bytes(KeyTag::CommsQueue, id);
    let w = change(v);
    let m = s.infra.rows;
    let rows = history_rows(m, history_owner(v));
    let f = |row: RowView| status_write(row, w.id, w.status);
    let ws = history_write(m, w)->Ok_0;
    let prefix = owner_prefix_bytes(KeyTag::CommsHistory, history_owner(v));
    scan_lists(m, prefix_keys(prefix));
    let first = seq![WriteView::Put { key, value: w.stored() }];
    write_rows_concat(m, first, ws);
    write_one(m, first[0]);
    w.round_trip();
    queue_key_tag(id);
    queue_key_tag(other);
    infra_keys_injective(KeyTag::CommsQueue, Seq::empty(), Seq::empty(), id, other);
    let one = write_rows(m, first);
    at_most_one(rows, f);
    assert forall|i: int| 0 <= i < ws.len() implies writes_key(#[trigger] ws[i])[0]
        == KeyTag::CommsHistory.byte() by {
        let k = choose|k: int|
            0 <= k < rows.len() && f(#[trigger] rows[k]) == Contribution::<WriteView>::Ok(Some(ws[i]));
        assert(prefix_keys(prefix).contains(rows[k].key));
        assert(rows[k].key.take(prefix.len() as int)[0] == prefix[0]);
    }
    write_rows_frame(one, ws, key);
    write_rows_frame(one, ws, id_key_bytes(KeyTag::CommsQueue, other));
    if 0 <= j < rows.len() {
        assert forall|i: int| 0 <= i < j implies f(#[trigger] rows[i]) == Contribution::<
            WriteView,
        >::Ok(None) by {
            assert(HistoryRow::read(rows[i].value) matches Some(x) && x.id != v.id);
        }
        let changed = HistoryRow { status: w.status, ..h };
        let put = WriteView::Put { key: rows[j].key, value: changed.stored() };
        assert(f(rows[j]) == Contribution::<WriteView>::Ok(Some(put)));
        first_found(rows, f, j, put);
        assert(ws =~= seq![put]);
        write_one(one, put);
        assert(m.contains_key(rows[j].key) && m[rows[j].key] == rows[j].value);
        HistoryRow::read_fits(rows[j].value);
        assert(changed.fits());
        changed.round_trip();
    }
}

proof fn at_most_one<T>(rows: Seq<RowView>, f: spec_fn(RowView) -> Contribution<T>)
    ensures
        collect(rows, f, 1) matches Ok(xs) ==> xs.len() <= 1 && forall|i: int|
            0 <= i < xs.len() ==> exists|k: int|
                0 <= k < rows.len() && f(#[trigger] rows[k]) == Contribution::<T>::Ok(
                    Some(#[trigger] xs[i]),
                ),
    decreases rows.len(),
{
    if rows.len() > 0 {
        let t = rows.skip(1);
        match f(rows[0]) {
            Ok(None) => {
                at_most_one(t, f);
                if let Ok(xs) = collect(t, f, 1) {
                    assert forall|i: int| 0 <= i < xs.len() implies exists|k: int|
                        0 <= k < rows.len() && f(#[trigger] rows[k]) == Contribution::<T>::Ok(
                            Some(#[trigger] xs[i]),
                        ) by {
                        let k = choose|k: int|
                            0 <= k < t.len() && f(#[trigger] t[k]) == Contribution::<T>::Ok(
                                Some(xs[i]),
                            );
                        assert(t[k] == rows[k + 1]);
                    }
                }
            },
            Ok(Some(x)) => {
                assert(collect(t, f, 0) == Ok::<Seq<T>, MetastoreError>(Seq::empty()));
                let xs = collect(rows, f, 1)->Ok_0;
                assert(xs =~= seq![x]);
                assert(f(rows[0]) == Contribution::<T>::Ok(Some(xs[0])));
            },
            Err(_) => {},
        }
    }
}

proof fn first_found<T>(rows: Seq<RowView>, f: spec_fn(RowView) -> Contribution<T>, j: int, x: T)
    requires
        0 <= j < rows.len(),
        forall|i: int| 0 <= i < j ==> f(#[trigger] rows[i]) == Contribution::<T>::Ok(None),
        f(rows[j]) == Contribution::<T>::Ok(Some(x)),
    ensures
        collect(rows, f, 1) == Ok::<Seq<T>, MetastoreError>(seq![x]),
    decreases rows.len(),
{
    let t = rows.skip(1);
    if j == 0 {
        assert(collect(t, f, 0) == Ok::<Seq<T>, MetastoreError>(Seq::empty()));
        assert(collect(rows, f, 1)->Ok_0 =~= seq![x]);
    } else {
        assert(f(rows[0]) == Contribution::<T>::Ok(None));
        assert forall|i: int| 0 <= i < j - 1 implies f(#[trigger] t[i]) == Contribution::<T>::Ok(
            None,
        ) by {
            assert(t[i] == rows[i + 1]);
        }
        assert(t[j - 1] == rows[j]);
        first_found(t, f, j - 1, x);
    }
}

/// The entry of a message in its user's history: the first with its identifier.
pub open spec fn entry_of(infra: Rows, user: Uuid, id: Uuid, j: int, h: HistoryRow) -> bool {
    let rows = history_rows(infra, user);
    &&& 0 <= j < rows.len()
    &&& HistoryRow::read(rows[j].value) == Some(h)
    &&& h.id == id
    &&& forall|i: int|
        0 <= i < j ==> (HistoryRow::read((#[trigger] rows[i]).value) matches Some(w) && w.id != id)
}

/// A message that went out is read as sent, at the time at which it was, in the queue and in
/// its user's history; the rest of it, and every other message, is as it was.
#[verifier::spinoff_prover]
#[verifier::rlimit(100)]
pub proof fn sent_message_is_read(
    s: MetastoreView,
    id: Uuid,
    now: i64,
    m: QueuedMessage,
    other: Uuid,
    j: int,
    h: HistoryRow,
)
    requires
        storable(s.infra.rows),
        is_timestamp(now as int),
        queued_as(s.infra.rows, id) == Some(m),
        m.id == id,
        comms_changed(s, id, |v: CommsRow| sent(v, now)).0 is Ok,
    ensures
        ({
            let t = comms_changed(s, id, |v: CommsRow| sent(v, now)).1.infra.rows;
            &&& queued_as(t, id) == Some(
                QueuedMessage {
                    status: CommsStatus::Sent,
                    updated_at: now,
                    processed_at: Some(now),
                    ..m
                },
            )
            &&& other != id ==> queued_as(t, other) == queued_as(s.infra.rows, other)
            &&& m.user_id matches Some(u) ==> entry_of(s.infra.rows, u, id, j, h) ==> {
                let row = history_rows(s.infra.rows, u)[j];
                history_entry(row) matches Ok(Some(e)) ==> history_entry(
                    RowView { key: row.key, value: lookup(t, row.key)->0 },
                ) == Contribution::<HistoryEntry>::Ok(
                    Some(HistoryEntry { status: CommsStatus::Sent, ..e }),
                )
            }
        }),
{
    let key = id_key_bytes(KeyTag::CommsQueue, id);
    let v = comms_at(s.infra.rows, key)->Ok_0->0;
    CommsRow::read_fits(s.infra.rows[key]);
    let change = |v: CommsRow| sent(v, now);
    assert(change(v).fits());
    let at = if m.user_id is Some && entry_of(s.infra.rows, m.user_id->0, id, j, h) {
        j
    } else {
        -1
    };
    message_changed(s, id, change, v, other, at, h);
}

/// A message that could not be delivered is read with the error and with one attempt more. It
/// is due again after a minute for each attempt so far, until it was tried as often as it may
/// be: then it has failed. The rest of it, and every other message, is as it was.
#[verifier::spinoff_prover]
#[verifier::rlimit(100)]
pub proof fn failed_message_is_read(
    s: MetastoreView,
    id: Uuid,
    error: Seq<char>,
    now: i64,
    m: QueuedMessage,
    other: Uuid,
    j: int,
    h: HistoryRow,
)
    requires
        storable(s.infra.rows),
        0 <= now,
        is_timestamp(now as int),
        is_timestamp(now + (m.attempts + 1) * 60_000),
        0 <= m.attempts < i32::MAX,
        vstd::utf8::encode_utf8(error).len() <= usize::MAX,
        queued_as(s.infra.rows, id) == Some(m),
        m.id == id,
        comms_changed(s, id, |v: CommsRow| attempted(v, error, now)).0 is Ok,
    ensures
        ({
            let t = comms_changed(s, id, |v: CommsRow| attempted(v, error, now)).1.infra.rows;
            let status = if m.attempts + 1 >= m.max_attempts {
                CommsStatus::Failed
            } else {
                CommsStatus::Pending
            };
            &&& queued_as(t, id) == Some(
                QueuedMessage {
                    status,
                    last_error: Some(error),
                    attempts: (m.attempts + 1) as i32,
                    scheduled_for: (now + (m.attempts + 1) * 60_000) as i64,
                    ..m
                },
            )
            &&& other != id ==> queued_as(t, other) == queued_as(s.infra.rows, other)
            &&& m.user_id matches Some(u) ==> entry_of(s.infra.rows, u, id, j, h) ==> {
                let row = history_rows(s.infra.rows, u)[j];
                history_entry(row) matches Ok(Some(e)) ==> history_entry(
                    RowView { key: row.key, value: lookup(t, row.key)->0 },
                ) == Contribution::<HistoryEntry>::Ok(
                    Some(HistoryEntry { status: status, ..e }),
                )
            }
        }),
{
    let key = id_key_bytes(KeyTag::CommsQueue, id);
    let v = comms_at(s.infra.rows, key)->Ok_0->0;
    CommsRow::read_fits(s.infra.rows[key]);
    let change = |v: CommsRow| attempted(v, error, now);
    assert(change(v).fits());
    let at = if m.user_id is Some && entry_of(s.infra.rows, m.user_id->0, id, j, h) {
        j
    } else {
        -1
    };
    message_changed(s, id, change, v, other, at, h);
}

/// A message that is given up is read as failed, with the error and all attempts used up; the
/// rest of it, and every other message, is as it was.
#[verifier::spinoff_prover]
#[verifier::rlimit(100)]
pub proof fn abandoned_message_is_read(
    s: MetastoreView,
    id: Uuid,
    error: Seq<char>,
    m: QueuedMessage,
    other: Uuid,
    j: int,
    h: HistoryRow,
)
    requires
        storable(s.infra.rows),
        vstd::utf8::encode_utf8(error).len() <= usize::MAX,
        queued_as(s.infra.rows, id) == Some(m),
        m.id == id,
        comms_changed(s, id, |v: CommsRow| abandoned(v, error)).0 is Ok,
    ensures
        ({
            let t = comms_changed(s, id, |v: CommsRow| abandoned(v, error)).1.infra.rows;
            &&& queued_as(t, id) == Some(
                QueuedMessage {
                    status: CommsStatus::Failed,
                    last_error: Some(error),
                    attempts: m.max_attempts,
                    ..m
                },
            )
            &&& other != id ==> queued_as(t, other) == queued_as(s.infra.rows, other)
            &&& m.user_id matches Some(u) ==> entry_of(s.infra.rows, u, id, j, h) ==> {
                let row = history_rows(s.infra.rows, u)[j];
                history_entry(row) matches Ok(Some(e)) ==> history_entry(
                    RowView { key: row.key, value: lookup(t, row.key)->0 },
                ) == Contribution::<HistoryEntry>::Ok(
                    Some(HistoryEntry { status: CommsStatus::Failed, ..e }),
                )
            }
        }),
{
    let key = id_key_bytes(KeyTag::CommsQueue, id);
    let v = comms_at(s.infra.rows, key)->Ok_0->0;
    CommsRow::read_fits(s.infra.rows[key]);
    let change = |v: CommsRow| abandoned(v, error);
    assert(change(v).fits());
    let at = if m.user_id is Some && entry_of(s.infra.rows, m.user_id->0, id, j, h) {
        j
    } else {
        -1
    };
    message_changed(s, id, change, v, other, at, h);
}

/// The messages to a user, of a type, are removed and no other row is.
pub proof fn removed_messages_are_gone(
    infra: Rows,
    user: Uuid,
    comms_type: CommsType,
    key: Seq<u8>,
)
    requires
        infra.dom().finite(),
        removals(infra, user, comms_type) is Ok,
    ensures
        ({
            let t = write_rows(infra, removals(infra, user, comms_type)->Ok_0);
            let queued = infra.contains_key(key) && has_prefix(key, seq![KeyTag::CommsQueue.byte()]);
            let own = CommsRow::read(infra[key]) matches Some(v) && v.user_id == Some(user)
                && CommsType::numbered(v.comms_type) == Some(comms_type);
            lookup(t, key) == (if queued && own {
                None
            } else {
                lookup(infra, key)
            })
        }),
{
    let rows = comms_rows(infra);
    let keys = prefix_keys(seq![KeyTag::CommsQueue.byte()]);
    let f = |row: RowView| removal_of(row, user, comms_type);
    scan_lists(infra, keys);
    all_readable(rows, f, rows.len());
    crate::scan::rewriting_rows(infra, rows, f, rows.len(), key);
    if infra.contains_key(key) && keys.contains(key) {
        let i = row_is_listed(infra, keys, key);
        assert(rows[i].key == key);
        assert(f(rows[i]) is Ok);
    } else {
        assert forall|i: int| 0 <= i < rows.len() implies (#[trigger] rows[i]).key != key by {
            assert(keys.contains(rows[i].key) && infra.contains_key(rows[i].key));
        }
    }
}

pub(crate) proof fn all_readable<T>(rows: Seq<RowView>, f: spec_fn(RowView) -> Contribution<T>, limit: nat)
    requires
        limit >= rows.len(),
        collect(rows, f, limit) is Ok,
    ensures
        forall|i: int| 0 <= i < rows.len() ==> f(#[trigger] rows[i]) is Ok,
    decreases rows.len(),
{
    if rows.len() > 0 {
        let t = rows.skip(1);
        if f(rows[0]) == Contribution::<T>::Ok(None) {
            all_readable(t, f, limit);
        } else {
            all_readable(t, f, (limit - 1) as nat);
        }
        assert forall|i: int| 0 <= i < rows.len() implies f(#[trigger] rows[i]) is Ok by {
            if i > 0 {
                assert(t[i - 1] == rows[i]);
            }
        }
    }
}

/// A list that is cut off keeps its first items, as many as the limit allows.
pub proof fn first_items_are_first<T>(s: Seq<T>, limit: nat, i: int)
    ensures
        first_items(s, limit).len() == (if limit <= s.len() {
            limit
        } else {
            s.len()
        }),
        0 <= i < first_items(s, limit).len() ==> first_items(s, limit)[i] == s[i],
{
}

/// Of two messages to a user that were queued in one millisecond, one after the other, the later
/// stands first in the user's history; a message to nobody leaves the count as it was.
pub proof fn later_message_comes_first(
    s: MetastoreView,
    first: CommsRow,
    second: CommsRow,
    user: Uuid,
)
    requires
        first.user_id == Some(user),
        second.user_id == Some(user),
        first.created_at_ms == second.created_at_ms,
        first.id != second.id,
        s.comms_seq < u32::MAX,
        first.fits(),
        second.fits(),
        history_of(first).fits(),
        history_of(second).fits(),
    ensures
        ({
            let t = enqueued(s, first);
            let u = enqueued(t, second);
            let early = comms_history_key_bytes(user, first.created_at_ms, s.comms_seq, first.id);
            let late = comms_history_key_bytes(user, second.created_at_ms, t.comms_seq, second.id);
            &&& lex_lt(late, early)
            &&& lookup(u.infra.rows, early) == Some(history_of(first).stored())
            &&& lookup(u.infra.rows, late) == Some(history_of(second).stored())
        }),
        enqueued(s, CommsRow { user_id: None, ..first }).comms_seq == s.comms_seq,
{
    let t = enqueued(s, first);
    let ms = first.created_at_ms;
    let early = comms_history_key_bytes(user, ms, s.comms_seq, first.id);
    let late = comms_history_key_bytes(user, ms, t.comms_seq, second.id);
    history_is_newest_first(user, ms, ms, t.comms_seq, s.comms_seq, second.id, first.id);
    let ws = message_writes(first, s.comms_seq);
    let vs = message_writes(second, t.comms_seq);
    queue_key_tag(first.id);
    queue_key_tag(second.id);
    assert(early[0] == KeyTag::CommsHistory.byte());
    assert(late[0] == KeyTag::CommsHistory.byte());
    assert(writes_key(ws[0])[0] == KeyTag::CommsQueue.byte());
    assert(writes_key(vs[0])[0] == KeyTag::CommsQueue.byte());
    write_rows_last(s.infra.rows, ws, 1);
    write_rows_last(t.infra.rows, vs, 1);
    crate::bytes::lex_lt_irreflexive(early);
    assert(late != early);
    write_rows_frame(t.infra.rows, vs, early);
}

} // verus!
