//! Messages to users: the queue of what goes out, and each user's history.

use vstd::prelude::*;

use crate::bytes::copy_bytes;
use crate::clock::{is_timestamp, now_millis, random_uuid, time_or_epoch, time_or_none};
use crate::clock::{timestamp_or_epoch, timestamp_or_none};
use crate::errors::{viewed, MetastoreError};
use crate::infra_ops::{infra_committed, InfraOps};
use crate::infra_schema::{comms_at, comms_history_key, comms_history_key_bytes, find_comms, id_key};
use crate::infra_schema::{id_key_bytes, owner_prefix, owner_prefix_bytes, CommsChannel, CommsRow};
use crate::infra_schema::{CommsStatus, CommsType, HistoryRow, NotificationHistoryValue};
use crate::infra_schema::QueuedCommsValue;
use crate::json::{json_bytes, optional_json_read, optional_json_to_store, read_optional_json};
use crate::json::stored_optional_json;
use crate::keys::KeyTag;
use crate::metastore::MetastoreView;
use crate::scan::{collect, collect_all, collect_all_items, collect_items, count_limit, limit_of};
use crate::scan::{saturate, saturated, Contribution, Reader};
use crate::sort::{sort_items, stable_sorted, SortNumber};
use crate::store::{prefix_keys, scan, Row, RowView, Rows, Write, WriteView};
use crate::types::{optional_text, owned_text, Uuid};

verus! {

/// A message as its sender sees it. Metadata are JSON text.
#[derive(Debug, PartialEq, Eq)]
pub struct QueuedComms {
    pub id: Uuid,
    pub user_id: Option<Uuid>,
    pub channel: CommsChannel,
    pub comms_type: CommsType,
    pub status: CommsStatus,
    pub recipient: String,
    pub subject: Option<String>,
    pub body: String,
    pub metadata: Option<Vec<u8>>,
    pub attempts: i32,
    pub max_attempts: i32,
    pub last_error: Option<String>,
    pub created_at: i64,
    pub updated_at: i64,
    pub scheduled_for: i64,
    pub processed_at: Option<i64>,
}

#[verifier::ext_equal]
pub struct QueuedMessage {
    pub id: Uuid,
    pub user_id: Option<Uuid>,
    pub channel: CommsChannel,
    pub comms_type: CommsType,
    pub status: CommsStatus,
    pub recipient: Seq<char>,
    pub subject: Option<Seq<char>>,
    pub body: Seq<char>,
    pub metadata: Option<Seq<u8>>,
    pub attempts: i32,
    pub max_attempts: i32,
    pub last_error: Option<Seq<char>>,
    pub created_at: i64,
    pub updated_at: i64,
    pub scheduled_for: i64,
    pub processed_at: Option<i64>,
}

impl DeepView for QueuedComms {
    type V = QueuedMessage;

    open spec fn deep_view(&self) -> QueuedMessage {
        QueuedMessage {
            id: self.id,
            user_id: self.user_id,
            channel: self.channel,
            comms_type: self.comms_type,
            status: self.status,
            recipient: self.recipient@,
            subject: self.subject.deep_view(),
            body: self.body@,
            metadata: self.metadata.deep_view(),
            attempts: self.attempts,
            max_attempts: self.max_attempts,
            last_error: self.last_error.deep_view(),
            created_at: self.created_at,
            updated_at: self.updated_at,
            scheduled_for: self.scheduled_for,
            processed_at: self.processed_at,
        }
    }
}

/// A message in the history that a user sees.
#[derive(Debug, PartialEq, Eq)]
pub struct NotificationHistoryRow {
    pub created_at: i64,
    pub channel: CommsChannel,
    pub comms_type: CommsType,
    pub status: CommsStatus,
    pub subject: Option<String>,
    pub body: String,
}

#[verifier::ext_equal]
pub struct HistoryEntry {
    pub created_at: i64,
    pub channel: CommsChannel,
    pub comms_type: CommsType,
    pub status: CommsStatus,
    pub subject: Option<Seq<char>>,
    pub body: Seq<char>,
}

impl DeepView for NotificationHistoryRow {
    type V = HistoryEntry;

    open spec fn deep_view(&self) -> HistoryEntry {
        HistoryEntry {
            created_at: self.created_at,
            channel: self.channel,
            comms_type: self.comms_type,
            status: self.status,
            subject: self.subject.deep_view(),
            body: self.body@,
        }
    }
}

/// How often a message is tried before it counts as failed.
pub const MAX_ATTEMPTS: i32 = 3;

/// How long after a failed attempt the next one is due, for each attempt so far.
pub const BACKOFF_MS: i64 = 60_000;

/// The message that a row holds.
pub open spec fn message_of(v: CommsRow) -> Result<QueuedMessage, MetastoreError> {
    match (
        CommsChannel::numbered(v.channel),
        CommsType::numbered(v.comms_type),
        CommsStatus::numbered(v.status),
    ) {
        (None, _, _) => Err(MetastoreError::CorruptData("invalid comms channel")),
        (_, None, _) => Err(MetastoreError::CorruptData("invalid comms type")),
        (_, _, None) => Err(MetastoreError::CorruptData("invalid comms status")),
        (Some(channel), Some(comms_type), Some(status)) => Ok(
            QueuedMessage {
                id: v.id,
                user_id: v.user_id,
                channel,
                comms_type,
                status,
                recipient: v.recipient,
                subject: v.subject,
                body: v.body,
                metadata: read_optional_json(v.metadata),
                attempts: v.attempts,
                max_attempts: v.max_attempts,
                last_error: v.error_message,
                created_at: timestamp_or_epoch(v.created_at_ms),
                updated_at: timestamp_or_epoch(
                    match v.sent_at_ms {
                        Some(t) => t,
                        None => v.created_at_ms,
                    },
                ),
                scheduled_for: timestamp_or_epoch(v.scheduled_for_ms),
                processed_at: timestamp_or_none(v.sent_at_ms),
            },
        ),
    }
}

fn value_to_queued_comms(v: QueuedCommsValue) -> (r: Result<QueuedComms, MetastoreError>)
    ensures
        viewed(r) == message_of(v.deep_view()),
{
    let channel: CommsChannel = match CommsChannel::from_u8(v.channel) {
        Some(c) => c,
        None => {
            return Err(MetastoreError::CorruptData("invalid comms channel"));
        },
    };
    let comms_type: CommsType = match CommsType::from_u8(v.comms_type) {
        Some(t) => t,
        None => {
            return Err(MetastoreError::CorruptData("invalid comms type"));
        },
    };
    let status: CommsStatus = match CommsStatus::from_u8(v.status) {
        Some(s) => s,
        None => {
            return Err(MetastoreError::CorruptData("invalid comms status"));
        },
    };
    let updated_at: i64 = match v.sent_at_ms {
        Some(t) => time_or_epoch(t),
        None => time_or_epoch(v.created_at_ms),
    };
    Ok(
        QueuedComms {
            id: v.id,
            user_id: v.user_id,
            channel,
            comms_type,
            status,
            recipient: v.recipient,
            subject: v.subject,
            body: v.body,
            metadata: optional_json_read(&v.metadata),
            attempts: v.attempts,
            max_attempts: v.max_attempts,
            last_error: v.error_message,
            created_at: time_or_epoch(v.created_at_ms),
            updated_at,
            scheduled_for: time_or_epoch(v.scheduled_for_ms),
            processed_at: time_or_none(v.sent_at_ms),
        },
    )
}

/// A queue row, if the bytes hold one.
pub open spec fn comms_row(b: Seq<u8>) -> Result<CommsRow, MetastoreError> {
    match CommsRow::read(b) {
        Some(v) => Ok(v),
        None => Err(MetastoreError::CorruptData("corrupt comms queue entry")),
    }
}

/// The rows of the queue.
pub open spec fn comms_rows(infra: Rows) -> Seq<RowView> {
    scan(infra, prefix_keys(seq![KeyTag::CommsQueue.byte()]))
}

/// A message that is due.
pub open spec fn due_message(row: RowView, now: i64) -> Contribution<QueuedMessage> {
    match comms_row(row.value) {
        Err(e) => Err(e),
        Ok(v) => if v.status == CommsStatus::Pending.number() && v.scheduled_for_ms <= now {
            match message_of(v) {
                Ok(m) => Ok(Some(m)),
                Err(e) => Err(e),
            }
        } else {
            Ok(None)
        },
    }
}

struct DueMessages {
    now: i64,
}

impl Reader for DueMessages {
    type In = Row;

    type Item = QueuedComms;

    closed spec fn reading(&self) -> spec_fn(RowView) -> Contribution<QueuedMessage> {
        |row: RowView| due_message(row, self.now)
    }

    fn read(&self, row: &Row) -> (r: Contribution<QueuedComms>) {
        match QueuedCommsValue::deserialize(row.value.as_slice()) {
            None => Err(MetastoreError::CorruptData("corrupt comms queue entry")),
            Some(v) => {
                if v.status == CommsStatus::Pending.to_u8() && v.scheduled_for_ms <= self.now {
                    match value_to_queued_comms(v) {
                        Ok(m) => Ok(Some(m)),
                        Err(e) => Err(e),
                    }
                } else {
                    Ok(None)
                }
            },
        }
    }
}

/// A queue row that is addressed to a user and of a type.
pub open spec fn addressed(v: CommsRow, user: Uuid, comms_type: CommsType) -> bool {
    v.user_id == Some(user) && v.comms_type == comms_type.number()
}

fn is_addressed(v: &QueuedCommsValue, user: Uuid, comms_type: CommsType) -> (r: bool)
    ensures
        r == addressed(v.deep_view(), user, comms_type),
{
    match v.user_id {
        Some(u) => u == user && v.comms_type == comms_type.to_u8(),
        None => false,
    }
}

/// A message to a user, of a type.
pub open spec fn message_to(
    row: RowView,
    user: Uuid,
    comms_type: CommsType,
) -> Contribution<QueuedMessage> {
    match comms_row(row.value) {
        Err(e) => Err(e),
        Ok(v) => if addressed(v, user, comms_type) {
            match message_of(v) {
                Ok(m) => Ok(Some(m)),
                Err(e) => Err(e),
            }
        } else {
            Ok(None)
        },
    }
}

struct MessagesTo {
    user: Uuid,
    comms_type: CommsType,
}

impl Reader for MessagesTo {
    type In = Row;

    type Item = QueuedComms;

    closed spec fn reading(&self) -> spec_fn(RowView) -> Contribution<QueuedMessage> {
        |row: RowView| message_to(row, self.user, self.comms_type)
    }

    fn read(&self, row: &Row) -> (r: Contribution<QueuedComms>) {
        match QueuedCommsValue::deserialize(row.value.as_slice()) {
            None => Err(MetastoreError::CorruptData("corrupt comms queue entry")),
            Some(v) => {
                if is_addressed(&v, self.user, self.comms_type) {
                    match value_to_queued_comms(v) {
                        Ok(m) => Ok(Some(m)),
                        Err(e) => Err(e),
                    }
                } else {
                    Ok(None)
                }
            },
        }
    }
}

/// The removal of a row that is addressed to a user and of a type.
pub open spec fn removal_of(row: RowView, user: Uuid, comms_type: CommsType) -> Contribution<
    WriteView,
> {
    match comms_row(row.value) {
        Err(e) => Err(e),
        Ok(v) => if addressed(v, user, comms_type) {
            Ok(Some(WriteView::Remove { key: row.key }))
        } else {
            Ok(None)
        },
    }
}

struct RemovalsOf {
    user: Uuid,
    comms_type: CommsType,
}

impl Reader for RemovalsOf {
    type In = Row;

    type Item = Write;

    closed spec fn reading(&self) -> spec_fn(RowView) -> Contribution<WriteView> {
        |row: RowView| removal_of(row, self.user, self.comms_type)
    }

    fn read(&self, row: &Row) -> (r: Contribution<Write>) {
        match QueuedCommsValue::deserialize(row.value.as_slice()) {
            None => Err(MetastoreError::CorruptData("corrupt comms queue entry")),
            Some(v) => {
                if is_addressed(&v, self.user, self.comms_type) {
                    Ok(Some(Write::Remove { key: copy_bytes(row.key.as_slice()) }))
                } else {
                    Ok(None)
                }
            },
        }
    }
}

/// A user's history, latest messages first.
pub open spec fn history_rows(infra: Rows, user: Uuid) -> Seq<RowView> {
    scan(infra, prefix_keys(owner_prefix_bytes(KeyTag::CommsHistory, user)))
}

/// What a user sees of a message in the history.
pub open spec fn history_entry(row: RowView) -> Contribution<HistoryEntry> {
    match HistoryRow::read(row.value) {
        None => Err(MetastoreError::CorruptData("corrupt notification history")),
        Some(v) => match (
            CommsChannel::numbered(v.channel),
            CommsType::numbered(v.comms_type),
            CommsStatus::numbered(v.status),
        ) {
            (None, _, _) => Err(MetastoreError::CorruptData("invalid history channel")),
            (_, None, _) => Err(MetastoreError::CorruptData("invalid history comms type")),
            (_, _, None) => Err(MetastoreError::CorruptData("invalid history status")),
            (Some(channel), Some(comms_type), Some(status)) => Ok(
                Some(
                    HistoryEntry {
                        created_at: timestamp_or_epoch(v.created_at_ms),
                        channel,
                        comms_type,
                        status,
                        subject: v.subject,
                        body: v.body,
                    },
                ),
            ),
        },
    }
}

struct HistoryEntries {}

impl Reader for HistoryEntries {
    type In = Row;

    type Item = NotificationHistoryRow;

    closed spec fn reading(&self) -> spec_fn(RowView) -> Contribution<HistoryEntry> {
        |row: RowView| history_entry(row)
    }

    fn read(&self, row: &Row) -> (r: Contribution<NotificationHistoryRow>) {
        let v: NotificationHistoryValue = match NotificationHistoryValue::deserialize(
            row.value.as_slice(),
        ) {
            Some(v) => v,
            None => {
                return Err(MetastoreError::CorruptData("corrupt notification history"));
            },
        };
        let channel: CommsChannel = match CommsChannel::from_u8(v.channel) {
            Some(c) => c,
            None => {
                return Err(MetastoreError::CorruptData("invalid history channel"));
            },
        };
        let comms_type: CommsType = match CommsType::from_u8(v.comms_type) {
            Some(t) => t,
            None => {
                return Err(MetastoreError::CorruptData("invalid history comms type"));
            },
        };
        let status: CommsStatus = match CommsStatus::from_u8(v.status) {
            Some(s) => s,
            None => {
                return Err(MetastoreError::CorruptData("invalid history status"));
            },
        };
        Ok(
            Some(
                NotificationHistoryRow {
                    created_at: time_or_epoch(v.created_at_ms),
                    channel,
                    comms_type,
                    status,
                    subject: v.subject,
                    body: v.body,
                },
            ),
        )
    }
}

/// The write that records a message's status in its row of a history.
pub open spec fn status_write(row: RowView, id: Uuid, status: u8) -> Contribution<WriteView> {
    match HistoryRow::read(row.value) {
        None => Err(MetastoreError::CorruptData("corrupt notification history")),
        Some(v) => if v.id == id {
            Ok(
                Some(
                    WriteView::Put { key: row.key, value: HistoryRow { status, ..v }.stored() },
                ),
            )
        } else {
            Ok(None)
        },
    }
}

struct StatusWrites {
    id: Uuid,
    status: u8,
}

impl Reader for StatusWrites {
    type In = Row;

    type Item = Write;

    closed spec fn reading(&self) -> spec_fn(RowView) -> Contribution<WriteView> {
        |row: RowView| status_write(row, self.id, self.status)
    }

    fn read(&self, row: &Row) -> (r: Contribution<Write>) {
        match NotificationHistoryValue::deserialize(row.value.as_slice()) {
            None => Err(MetastoreError::CorruptData("corrupt notification history")),
            Some(v) => {
                if v.id == self.id {
                    let ghost before = v.deep_view();
                    let mut v: NotificationHistoryValue = v;
                    v.status = self.status;
                    assert(v.deep_view() == HistoryRow { status: self.status, ..before });
                    Ok(
                        Some(
                            Write::Put {
                                key: copy_bytes(row.key.as_slice()),
                                value: v.serialize(),
                            },
                        ),
                    )
                } else {
                    Ok(None)
                }
            },
        }
    }
}

/// The user whose history a message stands in; one for nobody stands in no user's.
pub open spec fn history_owner(v: CommsRow) -> Uuid {
    match v.user_id {
        Some(u) => u,
        None => Uuid { bits: 0 },
    }
}

/// The write to the first row of the history that the message has, if it has one.
pub open spec fn history_write(infra: Rows, v: CommsRow) -> Result<Seq<WriteView>, MetastoreError> {
    collect(
        history_rows(infra, history_owner(v)),
        |row: RowView| status_write(row, v.id, v.status),
        1,
    )
}

/// Replaces a message in the queue, and its status in the history.
pub open spec fn comms_replaced(s: MetastoreView, key: Seq<u8>, v: CommsRow) -> (
    Result<(), MetastoreError>,
    MetastoreView,
) {
    match history_write(s.infra.rows, v) {
        Err(e) => (Err(e), s),
        Ok(ws) => (
            Ok(()),
            infra_committed(s, seq![WriteView::Put { key, value: v.stored() }] + ws),
        ),
    }
}

/// Changes a message in the queue.
pub open spec fn comms_changed(
    s: MetastoreView,
    id: Uuid,
    change: spec_fn(CommsRow) -> CommsRow,
) -> (Result<(), MetastoreError>, MetastoreView) {
    let key = id_key_bytes(KeyTag::CommsQueue, id);
    match comms_at(s.infra.rows, key) {
        Err(e) => (Err(e), s),
        Ok(None) => (Err(MetastoreError::InvalidInput("comms entry not found")), s),
        Ok(Some(v)) => comms_replaced(s, key, change(v)),
    }
}

/// A message that went out.
pub open spec fn sent(v: CommsRow, now: i64) -> CommsRow {
    CommsRow { status: CommsStatus::Sent.number(), sent_at_ms: Some(now), ..v }
}

pub open spec fn next_attempt(attempts: i32) -> i32 {
    if attempts == i32::MAX {
        attempts
    } else {
        (attempts + 1) as i32
    }
}

/// A sum that stops at the limits of its type.
pub open spec fn clipped(t: int) -> i64 {
    if t > i64::MAX {
        i64::MAX
    } else if t < i64::MIN {
        i64::MIN
    } else {
        t as i64
    }
}

fn clip(t: i128) -> (r: i64)
    ensures
        r == clipped(t as int),
{
    if t > i64::MAX as i128 {
        i64::MAX
    } else if t < i64::MIN as i128 {
        i64::MIN
    } else {
        t as i64
    }
}

/// A message that could not be delivered: it is due again later, longer after each attempt,
/// until it has been tried as often as it may be.
pub open spec fn attempted(v: CommsRow, error: Seq<char>, now: i64) -> CommsRow {
    let attempts = next_attempt(v.attempts);
    CommsRow {
        status: if attempts >= v.max_attempts {
            CommsStatus::Failed.number()
        } else {
            CommsStatus::Pending.number()
        },
        error_message: Some(error),
        attempts,
        scheduled_for_ms: clipped(now + attempts * BACKOFF_MS),
        ..v
    }
}

/// A message that is not tried again.
pub open spec fn abandoned(v: CommsRow, error: Seq<char>) -> CommsRow {
    CommsRow {
        status: CommsStatus::Failed.number(),
        error_message: Some(error),
        attempts: v.max_attempts,
        ..v
    }
}

/// A new message.
pub open spec fn new_message(
    id: Uuid,
    user_id: Option<Uuid>,
    channel: CommsChannel,
    comms_type: CommsType,
    recipient: Seq<char>,
    subject: Option<Seq<char>>,
    body: Seq<char>,
    metadata: Option<Seq<u8>>,
    now: i64,
) -> CommsRow {
    CommsRow {
        id,
        user_id,
        channel: channel.number(),
        comms_type: comms_type.number(),
        recipient,
        subject,
        body,
        metadata: stored_optional_json(metadata),
        status: CommsStatus::Pending.number(),
        error_message: None,
        attempts: 0,
        max_attempts: MAX_ATTEMPTS,
        created_at_ms: now,
        scheduled_for_ms: now,
        sent_at_ms: None,
    }
}

/// What a history keeps of a message.
pub open spec fn history_of(v: CommsRow) -> HistoryRow {
    HistoryRow {
        id: v.id,
        channel: v.channel,
        comms_type: v.comms_type,
        recipient: v.recipient,
        subject: v.subject,
        body: v.body,
        status: v.status,
        created_at_ms: v.created_at_ms,
    }
}

/// The writes of a new message: its row in the queue, and for a user one in the history.
pub open spec fn message_writes(v: CommsRow, seq: u32) -> Seq<WriteView> {
    let queue = WriteView::Put {
        key: id_key_bytes(KeyTag::CommsQueue, v.id),
        value: v.stored(),
    };
    match v.user_id {
        Some(u) => seq![
            queue,
            WriteView::Put {
                key: comms_history_key_bytes(u, v.created_at_ms, seq, v.id),
                value: history_of(v).stored(),
            },
        ],
        None => seq![queue],
    }
}

/// The store with a new message.
pub open spec fn enqueued(s: MetastoreView, v: CommsRow) -> MetastoreView {
    MetastoreView {
        infra: s.infra.commit(message_writes(v, s.comms_seq)),
        comms_seq: if v.user_id is None {
            s.comms_seq
        } else if s.comms_seq == u32::MAX {
            0
        } else {
            (s.comms_seq + 1) as u32
        },
        ..s
    }
}

/// The latest messages to a user, of a type.
pub open spec fn latest_messages(infra: Rows, user: Uuid, comms_type: CommsType) -> Result<
    Seq<QueuedMessage>,
    MetastoreError,
> {
    match collect_all(comms_rows(infra), |row: RowView| message_to(row, user, comms_type)) {
        Ok(ms) => Ok(stable_sorted(ms, |m: QueuedMessage| -(m.created_at as int))),
        Err(e) => Err(e),
    }
}

/// The first items of a sequence, at most as many as a limit says.
pub open spec fn first_items<T>(s: Seq<T>, limit: nat) -> Seq<T> {
    if limit <= s.len() {
        s.take(limit as int)
    } else {
        s
    }
}

/// The removals of all messages to a user, of a type.
pub open spec fn removals(infra: Rows, user: Uuid, comms_type: CommsType) -> Result<
    Seq<WriteView>,
    MetastoreError,
> {
    collect_all(comms_rows(infra), |row: RowView| removal_of(row, user, comms_type))
}

struct LatestFirst {}

impl SortNumber for LatestFirst {
    type Item = QueuedComms;

    closed spec fn numbering(&self) -> spec_fn(QueuedMessage) -> int {
        |m: QueuedMessage| -(m.created_at as int)
    }

    fn number(&self, x: &QueuedComms) -> (r: i128) {
        -(x.created_at as i128)
    }
}

/// Keeps the first items of a list, at most as many as a limit says.
pub(crate) fn keep_first<T: DeepView>(items: Vec<T>, limit: usize) -> (r: Vec<T>)
    ensures
        r.deep_view() == first_items(items.deep_view(), limit as nat),
{
    let ghost all = items.deep_view();
    let mut items: Vec<T> = items;
    if limit < items.len() {
        items.truncate(limit);
        assert(items.deep_view() =~= all.take(limit as int));
    } else {
        assert(all.take(all.len() as int) =~= all);
    }
    items
}

impl<'a> InfraOps<'a> {
    /// Queues a message, and enters it in the user's history.
    pub fn enqueue_comms(
        &mut self,
        user_id: Option<Uuid>,
        channel: CommsChannel,
        comms_type: CommsType,
        recipient: &str,
        subject: Option<&str>,
        body: &str,
        metadata: Option<&[u8]>,
    ) -> (r: Result<Uuid, MetastoreError>)
        ensures
            r is Ok,
            r->Ok_0.is_random(),
            exists|now: i64| #[trigger]
                is_timestamp(now as int) && final(self)@ == enqueued(
                    old(self)@,
                    new_message(
                        r->Ok_0,
                        user_id,
                        channel,
                        comms_type,
                        recipient@,
                        optional_text(subject),
                        body@,
                        json_bytes(metadata),
                        now,
                    ),
                ),
            *final(final(self).store) == *final(old(self).store),
    {
        let id: Uuid = random_uuid();
        let now: i64 = now_millis();
        self.enqueue_comms_at(
            user_id,
            channel,
            comms_type,
            recipient,
            subject,
            body,
            metadata,
            id,
            now,
        );
        assert(is_timestamp(now as int));
        Ok(id)
    }

    /// Queues a message with a given identifier and time.
    pub fn enqueue_comms_at(
        &mut self,
        user_id: Option<Uuid>,
        channel: CommsChannel,
        comms_type: CommsType,
        recipient: &str,
        subject: Option<&str>,
        body: &str,
        metadata: Option<&[u8]>,
        id: Uuid,
        now: i64,
    )
        ensures
            final(self)@ == enqueued(
                old(self)@,
                new_message(
                    id,
                    user_id,
                    channel,
                    comms_type,
                    recipient@,
                    optional_text(subject),
                    body@,
                    json_bytes(metadata),
                    now,
                ),
            ),
            *final(final(self).store) == *final(old(self).store),
    {
        let value = QueuedCommsValue {
            id,
            user_id,
            channel: channel.to_u8(),
            comms_type: comms_type.to_u8(),
            recipient: recipient.to_owned(),
            subject: owned_text(subject),
            body: body.to_owned(),
            metadata: optional_json_to_store(metadata),
            status: CommsStatus::Pending.to_u8(),
            error_message: None,
            attempts: 0,
            max_attempts: MAX_ATTEMPTS,
            created_at_ms: now,
            scheduled_for_ms: now,
            sent_at_ms: None,
        };
        let ghost v = new_message(
            id,
            user_id,
            channel,
            comms_type,
            recipient@,
            optional_text(subject),
            body@,
            json_bytes(metadata),
            now,
        );
        assert(value.deep_view() == v);
        let queue_key: Vec<u8> = id_key(KeyTag::CommsQueue, id);
        let mut batch: Vec<Write> = vec![Write::Put { key: queue_key, value: value.serialize() }];
        if let Some(user) = user_id {
            let history_value = NotificationHistoryValue {
                id,
                channel: channel.to_u8(),
                comms_type: comms_type.to_u8(),
                recipient: recipient.to_owned(),
                subject: owned_text(subject),
                body: body.to_owned(),
                status: CommsStatus::Pending.to_u8(),
                created_at_ms: now,
            };
            assert(history_value.deep_view() == history_of(v));
            let seq: u32 = self.store.comms_seq;
            self.store.comms_seq = seq.wrapping_add(1);
            let history_key: Vec<u8> = comms_history_key(user, now, seq, id);
            batch.push(Write::Put { key: history_key, value: history_value.serialize() });
        }
        assert(batch.deep_view() =~= message_writes(v, old(self)@.comms_seq));
        self.store.infra.commit(batch);
    }

    /// Messages that are due, at most as many as asked for.
    pub fn fetch_pending_comms(&self, now: i64, batch_size: i64) -> (r: Result<
        Vec<QueuedComms>,
        MetastoreError,
    >)
        ensures
            viewed(r) == collect(
                comms_rows(self@.infra.rows),
                |row: RowView| due_message(row, now),
                count_limit(batch_size),
            ),
    {
        let prefix: Vec<u8> = vec![KeyTag::CommsQueue.raw()];
        assert(prefix@ =~= seq![KeyTag::CommsQueue.byte()]);
        let rows: Vec<Row> = self.store.infra.prefix(prefix.as_slice());
        let reader = DueMessages { now };
        assert(reader.reading() =~= |row: RowView| due_message(row, now));
        collect_items(rows.as_slice(), &reader, limit_of(batch_size))
    }

    /// Replaces a message in the queue, and its status in the history.
    fn replace_comms(&mut self, key: Vec<u8>, val: QueuedCommsValue) -> (r: Result<
        (),
        MetastoreError,
    >)
        ensures
            (r, final(self)@) == comms_replaced(old(self)@, key@, val.deep_view()),
            *final(final(self).store) == *final(old(self).store),
    {
        let ghost v = val.deep_view();
        let owner: Uuid = match val.user_id {
            Some(u) => u,
            None => Uuid::nil(),
        };
        assert(owner == history_owner(v));
        let prefix: Vec<u8> = owner_prefix(KeyTag::CommsHistory, owner);
        let rows: Vec<Row> = self.store.infra.prefix(prefix.as_slice());
        let reader = StatusWrites { id: val.id, status: val.status };
        assert(reader.reading() =~= |row: RowView| status_write(row, v.id, v.status));
        match collect_items(rows.as_slice(), &reader, 1) {
            Err(e) => Err(e),
            Ok(found) => {
                let mut found: Vec<Write> = found;
                let ghost ws = found.deep_view();
                let mut batch: Vec<Write> = vec![Write::Put { key, value: val.serialize() }];
                let ghost first = batch.deep_view();
                batch.append(&mut found);
                assert(first =~= seq![WriteView::Put { key: key@, value: v.stored() }]);
                assert(batch.deep_view() =~= first + ws);
                self.store.infra.commit(batch);
                Ok(())
            },
        }
    }

    /// Records that a message went out.
    pub fn mark_comms_sent(&mut self, id: Uuid) -> (r: Result<(), MetastoreError>)
        ensures
            exists|now: i64| #[trigger]
                is_timestamp(now as int) && (r, final(self)@) == comms_changed(
                    old(self)@,
                    id,
                    |v: CommsRow| sent(v, now),
                ),
            *final(final(self).store) == *final(old(self).store),
    {
        let now: i64 = now_millis();
        assert(is_timestamp(now as int));
        self.mark_comms_sent_at(id, now)
    }

    /// Records that a message went out at a given time.
    pub fn mark_comms_sent_at(&mut self, id: Uuid, now: i64) -> (r: Result<(), MetastoreError>)
        ensures
            (r, final(self)@) == comms_changed(old(self)@, id, |v: CommsRow| sent(v, now)),
            *final(final(self).store) == *final(old(self).store),
    {
        let key: Vec<u8> = id_key(KeyTag::CommsQueue, id);
        match find_comms(&self.store.infra, key.as_slice()) {
            Err(e) => Err(e),
            Ok(None) => Err(MetastoreError::InvalidInput("comms entry not found")),
            Ok(Some(v)) => {
                let ghost before = v.deep_view();
                let mut v: QueuedCommsValue = v;
                v.status = CommsStatus::Sent.to_u8();
                v.sent_at_ms = Some(now);
                assert(v.deep_view() == sent(before, now));
                self.replace_comms(key, v)
            },
        }
    }

    /// Records that a message could not be delivered.
    pub fn mark_comms_failed(&mut self, id: Uuid, error: &str) -> (r: Result<(), MetastoreError>)
        ensures
            exists|now: i64| #[trigger]
                is_timestamp(now as int) && (r, final(self)@) == comms_changed(
                    old(self)@,
                    id,
                    |v: CommsRow| attempted(v, error@, now),
                ),
            *final(final(self).store) == *final(old(self).store),
    {
        let now: i64 = now_millis();
        assert(is_timestamp(now as int));
        self.mark_comms_failed_at(id, error, now)
    }

    /// Records that a message could not be delivered at a given time.
    pub fn mark_comms_failed_at(&mut self, id: Uuid, error: &str, now: i64) -> (r: Result<
        (),
        MetastoreError,
    >)
        ensures
            (r, final(self)@) == comms_changed(
                old(self)@,
                id,
                |v: CommsRow| attempted(v, error@, now),
            ),
            *final(final(self).store) == *final(old(self).store),
    {
        let key: Vec<u8> = id_key(KeyTag::CommsQueue, id);
        match find_comms(&self.store.infra, key.as_slice()) {
            Err(e) => Err(e),
            Ok(None) => Err(MetastoreError::InvalidInput("comms entry not found")),
            Ok(Some(v)) => {
                let ghost before = v.deep_view();
                let mut v: QueuedCommsValue = v;
                let attempts: i32 = if v.attempts == i32::MAX {
                    v.attempts
                } else {
                    v.attempts + 1
                };
                let exhausted: bool = attempts >= v.max_attempts;
                v.status = if exhausted {
                    CommsStatus::Failed.to_u8()
                } else {
                    CommsStatus::Pending.to_u8()
                };
                v.error_message = Some(error.to_owned());
                v.attempts = attempts;
                v.scheduled_for_ms = clip(now as i128 + attempts as i128 * BACKOFF_MS as i128);
                assert(v.deep_view() == attempted(before, error@, now));
                self.replace_comms(key, v)
            },
        }
    }

    /// Records that a message is not tried again.
    pub fn mark_comms_failed_permanent(&mut self, id: Uuid, error: &str) -> (r: Result<
        (),
        MetastoreError,
    >)
        ensures
            (r, final(self)@) == comms_changed(old(self)@, id, |v: CommsRow| abandoned(v, error@)),
            *final(final(self).store) == *final(old(self).store),
    {
        let key: Vec<u8> = id_key(KeyTag::CommsQueue, id);
        match find_comms(&self.store.infra, key.as_slice()) {
            Err(e) => Err(e),
            Ok(None) => Err(MetastoreError::InvalidInput("comms entry not found")),
            Ok(Some(v)) => {
                let ghost before = v.deep_view();
                let mut v: QueuedCommsValue = v;
                v.status = CommsStatus::Failed.to_u8();
                v.error_message = Some(error.to_owned());
                v.attempts = v.max_attempts;
                assert(v.deep_view() == abandoned(before, error@));
                self.replace_comms(key, v)
            },
        }
    }

    /// A user's latest messages. Rows past the limit are not read.
    pub fn get_notification_history(&self, user_id: Uuid, limit: i64) -> (r: Result<
        Vec<NotificationHistoryRow>,
        MetastoreError,
    >)
        ensures
            viewed(r) == collect(
                history_rows(self@.infra.rows, user_id),
                |row: RowView| history_entry(row),
                count_limit(limit),
            ),
    {
        let prefix: Vec<u8> = owner_prefix(KeyTag::CommsHistory, user_id);
        let rows: Vec<Row> = self.store.infra.prefix(prefix.as_slice());
        let reader = HistoryEntries {  };
        assert(reader.reading() =~= |row: RowView| history_entry(row));
        collect_items(rows.as_slice(), &reader, limit_of(limit))
    }

    /// The latest messages to a user, of a type.
    pub fn get_latest_comms_for_user(
        &self,
        user_id: Uuid,
        comms_type: CommsType,
        limit: i64,
    ) -> (r: Result<Vec<QueuedComms>, MetastoreError>)
        ensures
            viewed(r) == (match latest_messages(self@.infra.rows, user_id, comms_type) {
                Ok(ms) => Ok(first_items(ms, count_limit(limit))),
                Err(e) => Err(e),
            }),
    {
        let prefix: Vec<u8> = vec![KeyTag::CommsQueue.raw()];
        assert(prefix@ =~= seq![KeyTag::CommsQueue.byte()]);
        let rows: Vec<Row> = self.store.infra.prefix(prefix.as_slice());
        let reader = MessagesTo { user: user_id, comms_type };
        assert(reader.reading() =~= |row: RowView| message_to(row, user_id, comms_type));
        match collect_all_items(rows.as_slice(), &reader) {
            Err(e) => Err(e),
            Ok(found) => {
                let by = LatestFirst {  };
                assert(by.numbering() =~= |m: QueuedMessage| -(m.created_at as int));
                let sorted: Vec<QueuedComms> = sort_items(found, &by);
                Ok(keep_first(sorted, limit_of(limit)))
            },
        }
    }

    /// How many messages to a user, of a type, the queue holds.
    pub fn count_comms_by_type(&self, user_id: Uuid, comms_type: CommsType) -> (r: Result<
        i64,
        MetastoreError,
    >)
        ensures
            r == (match removals(self@.infra.rows, user_id, comms_type) {
                Ok(ws) => Ok::<i64, MetastoreError>(saturated(ws.len())),
                Err(e) => Err(e),
            }),
    {
        let prefix: Vec<u8> = vec![KeyTag::CommsQueue.raw()];
        assert(prefix@ =~= seq![KeyTag::CommsQueue.byte()]);
        let rows: Vec<Row> = self.store.infra.prefix(prefix.as_slice());
        let reader = RemovalsOf { user: user_id, comms_type };
        assert(reader.reading() =~= |row: RowView| removal_of(row, user_id, comms_type));
        match collect_all_items(rows.as_slice(), &reader) {
            Err(e) => Err(e),
            Ok(found) => Ok(saturate(found.len())),
        }
    }

    /// Removes the messages to a user, of a type, and says how many there were.
    pub fn delete_comms_by_type_for_user(
        &mut self,
        user_id: Uuid,
        comms_type: CommsType,
    ) -> (r: Result<u64, MetastoreError>)
        ensures
            match removals(old(self)@.infra.rows, user_id, comms_type) {
                Ok(ws) => r == Ok::<u64, MetastoreError>(ws.len() as u64) && ws.len() <= u64::MAX
                    && final(self)@ == infra_committed(old(self)@, ws),
                Err(e) => r == Err::<u64, MetastoreError>(e) && final(self)@ == old(self)@,
            },
            *final(final(self).store) == *final(old(self).store),
    {
        let prefix: Vec<u8> = vec![KeyTag::CommsQueue.raw()];
        assert(prefix@ =~= seq![KeyTag::CommsQueue.byte()]);
        let rows: Vec<Row> = self.store.infra.prefix(prefix.as_slice());
        let reader = RemovalsOf { user: user_id, comms_type };
        assert(reader.reading() =~= |row: RowView| removal_of(row, user_id, comms_type));
        match collect_all_items(rows.as_slice(), &reader) {
            Err(e) => Err(e),
            Ok(found) => {
                let count: u64 = found.len() as u64;
                self.store.infra.commit(found);
                Ok(count)
            },
        }
    }
}

} // verus!
