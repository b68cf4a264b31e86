//! The rows of account infrastructure: messages, invite codes, keys, requests, preferences.

use vstd::prelude::*;
use vstd::utf8::encode_utf8;

use crate::bytes::{lex_lt, lex_lt_common_prefix};
use crate::codec::{framed, framed_round_trip, frame, unframe, unframed, unframed_fits, Field};
use crate::delegations::newest_first;
use crate::encoding::{be8, be8_order, escaped, escaped_injective, KeyBuilder};
use crate::errors::{viewed, MetastoreError};
use crate::keys::{KeyTag, UserHash};
use crate::store::{lookup, Keyspace, Rows};
use crate::types::{push_uuid, uuid_bytes, uuid_bytes_round_trip, Uuid};

verus! {

/// The schema version of infrastructure rows.
pub const SCHEMA_VERSION: u8 = 1;

/// The way a message goes out.
#[derive(Debug, Clone, Copy, PartialEq, Eq, Structural)]
pub enum CommsChannel {
    Email,
    Discord,
    Telegram,
    Signal,
}

impl CommsChannel {
    /// The number of a channel in stored rows.
    pub open spec fn number(self) -> u8 {
        match self {
            CommsChannel::Email => 0,
            CommsChannel::Discord => 1,
            CommsChannel::Telegram => 2,
            CommsChannel::Signal => 3,
        }
    }

    pub open spec fn numbered(n: u8) -> Option<CommsChannel> {
        if n == 0 {
            Some(CommsChannel::Email)
        } else if n == 1 {
            Some(CommsChannel::Discord)
        } else if n == 2 {
            Some(CommsChannel::Telegram)
        } else if n == 3 {
            Some(CommsChannel::Signal)
        } else {
            None
        }
    }

    pub fn to_u8(self) -> (r: u8)
        ensures
            r == self.number(),
    {
        match self {
            CommsChannel::Email => 0,
            CommsChannel::Discord => 1,
            CommsChannel::Telegram => 2,
            CommsChannel::Signal => 3,
        }
    }

    pub fn from_u8(n: u8) -> (r: Option<CommsChannel>)
        ensures
            r == CommsChannel::numbered(n),
    {
        match n {
            0 => Some(CommsChannel::Email),
            1 => Some(CommsChannel::Discord),
            2 => Some(CommsChannel::Telegram),
            3 => Some(CommsChannel::Signal),
            _ => None,
        }
    }
}

impl DeepView for CommsChannel {
    type V = CommsChannel;

    open spec fn deep_view(&self) -> CommsChannel {
        *self
    }
}

/// What a message is about.
#[derive(Debug, Clone, Copy, PartialEq, Eq, Structural)]
pub enum CommsType {
    Welcome,
    EmailVerification,
    PasswordReset,
    EmailUpdate,
    AccountDeletion,
    AdminEmail,
    PlcOperation,
    TwoFactorCode,
    PasskeyRecovery,
    LegacyLoginAlert,
    MigrationVerification,
    ChannelVerification,
}

impl CommsType {
    /// The number of a message type in stored rows.
    pub open spec fn number(self) -> u8 {
        match self {
            CommsType::Welcome => 0,
            CommsType::EmailVerification => 1,
            CommsType::PasswordReset => 2,
            CommsType::EmailUpdate => 3,
            CommsType::AccountDeletion => 4,
            CommsType::AdminEmail => 5,
            CommsType::PlcOperation => 6,
            CommsType::TwoFactorCode => 7,
            CommsType::PasskeyRecovery => 8,
            CommsType::LegacyLoginAlert => 9,
            CommsType::MigrationVerification => 10,
            CommsType::ChannelVerification => 11,
        }
    }

    pub open spec fn numbered(n: u8) -> Option<CommsType> {
        if n == 0 {
            Some(CommsType::Welcome)
        } else if n == 1 {
            Some(CommsType::EmailVerification)
        } else if n == 2 {
            Some(CommsType::PasswordReset)
        } else if n == 3 {
            Some(CommsType::EmailUpdate)
        } else if n == 4 {
            Some(CommsType::AccountDeletion)
        } else if n == 5 {
            Some(CommsType::AdminEmail)
        } else if n == 6 {
            Some(CommsType::PlcOperation)
        } else if n == 7 {
            Some(CommsType::TwoFactorCode)
        } else if n == 8 {
            Some(CommsType::PasskeyRecovery)
        } else if n == 9 {
            Some(CommsType::LegacyLoginAlert)
        } else if n == 10 {
            Some(CommsType::MigrationVerification)
        } else if n == 11 {
            Some(CommsType::ChannelVerification)
        } else {
            None
        }
    }

    pub fn to_u8(self) -> (r: u8)
        ensures
            r == self.number(),
    {
        match self {
            CommsType::Welcome => 0,
            CommsType::EmailVerification => 1,
            CommsType::PasswordReset => 2,
            CommsType::EmailUpdate => 3,
            CommsType::AccountDeletion => 4,
            CommsType::AdminEmail => 5,
            CommsType::PlcOperation => 6,
            CommsType::TwoFactorCode => 7,
            CommsType::PasskeyRecovery => 8,
            CommsType::LegacyLoginAlert => 9,
            CommsType::MigrationVerification => 10,
            CommsType::ChannelVerification => 11,
        }
    }

    pub fn from_u8(n: u8) -> (r: Option<CommsType>)
        ensures
            r == CommsType::numbered(n),
    {
        match n {
            0 => Some(CommsType::Welcome),
            1 => Some(CommsType::EmailVerification),
            2 => Some(CommsType::PasswordReset),
            3 => Some(CommsType::EmailUpdate),
            4 => Some(CommsType::AccountDeletion),
            5 => Some(CommsType::AdminEmail),
            6 => Some(CommsType::PlcOperation),
            7 => Some(CommsType::TwoFactorCode),
            8 => Some(CommsType::PasskeyRecovery),
            9 => Some(CommsType::LegacyLoginAlert),
            10 => Some(CommsType::MigrationVerification),
            11 => Some(CommsType::ChannelVerification),
            _ => None,
        }
    }
}

impl DeepView for CommsType {
    type V = CommsType;

    open spec fn deep_view(&self) -> CommsType {
        *self
    }
}

/// How far a message got.
#[derive(Debug, Clone, Copy, PartialEq, Eq, Structural)]
pub enum CommsStatus {
    Pending,
    Processing,
    Sent,
    Failed,
}

impl CommsStatus {
    /// The number of a status in stored rows.
    pub open spec fn number(self) -> u8 {
        match self {
            CommsStatus::Pending => 0,
            CommsStatus::Processing => 1,
            CommsStatus::Sent => 2,
            CommsStatus::Failed => 3,
        }
    }

    pub open spec fn numbered(n: u8) -> Option<CommsStatus> {
        if n == 0 {
            Some(CommsStatus::Pending)
        } else if n == 1 {
            Some(CommsStatus::Processing)
        } else if n == 2 {
            Some(CommsStatus::Sent)
        } else if n == 3 {
            Some(CommsStatus::Failed)
        } else {
            None
        }
    }

    pub fn to_u8(self) -> (r: u8)
        ensures
            r == self.number(),
    {
        match self {
            CommsStatus::Pending => 0,
            CommsStatus::Processing => 1,
            CommsStatus::Sent => 2,
            CommsStatus::Failed => 3,
        }
    }

    pub fn from_u8(n: u8) -> (r: Option<CommsStatus>)
        ensures
            r == CommsStatus::numbered(n),
    {
        match n {
            0 => Some(CommsStatus::Pending),
            1 => Some(CommsStatus::Processing),
            2 => Some(CommsStatus::Sent),
            3 => Some(CommsStatus::Failed),
            _ => None,
        }
    }
}

impl DeepView for CommsStatus {
    type V = CommsStatus;

    open spec fn deep_view(&self) -> CommsStatus {
        *self
    }
}

/// A queued message.
#[derive(Debug, PartialEq, Eq)]
pub struct QueuedCommsValue {
    pub id: Uuid,
    pub user_id: Option<Uuid>,
    pub channel: u8,
    pub comms_type: u8,
    pub recipient: String,
    pub subject: Option<String>,
    pub body: String,
    pub metadata: Option<Vec<u8>>,
    pub status: u8,
    pub error_message: Option<String>,
    pub attempts: i32,
    pub max_attempts: i32,
    pub created_at_ms: i64,
    pub scheduled_for_ms: i64,
    pub sent_at_ms: Option<i64>,
}

#[verifier::ext_equal]
pub struct CommsRow {
    pub id: Uuid,
    pub user_id: Option<Uuid>,
    pub channel: u8,
    pub comms_type: u8,
    pub recipient: Seq<char>,
    pub subject: Option<Seq<char>>,
    pub body: Seq<char>,
    pub metadata: Option<Seq<u8>>,
    pub status: u8,
    pub error_message: Option<Seq<char>>,
    pub attempts: i32,
    pub max_attempts: i32,
    pub created_at_ms: i64,
    pub scheduled_for_ms: i64,
    pub sent_at_ms: Option<i64>,
}

impl DeepView for QueuedCommsValue {
    type V = CommsRow;

    open spec fn deep_view(&self) -> CommsRow {
        CommsRow {
            id: self.id,
            user_id: self.user_id,
            channel: self.channel,
            comms_type: self.comms_type,
            recipient: self.recipient@,
            subject: self.subject.deep_view(),
            body: self.body@,
            metadata: self.metadata.deep_view(),
            status: self.status,
            error_message: self.error_message.deep_view(),
            attempts: self.attempts,
            max_attempts: self.max_attempts,
            created_at_ms: self.created_at_ms,
            scheduled_for_ms: self.scheduled_for_ms,
            sent_at_ms: self.sent_at_ms,
        }
    }
}

/// The fields of a queued message in the order in which they are stored.
pub type CommsFields = (Uuid, (Option<Uuid>, (u8, (u8, (String, (Option<String>, (String, (Option<Vec<u8>>, (u8, (Option<String>, (i32, (i32, (i64, (i64, Option<i64>))))))))))))));

impl CommsRow {
    pub open spec fn fields(self) -> <CommsFields as DeepView>::V {
        (self.id, (self.user_id, (self.channel, (self.comms_type, (self.recipient, (self.subject, (self.body, (self.metadata, (self.status, (self.error_message, (self.attempts, (self.max_attempts, (self.created_at_ms, (self.scheduled_for_ms, self.sent_at_ms))))))))))))))
    }

    pub open spec fn of(f: <CommsFields as DeepView>::V) -> CommsRow {
        CommsRow {
            id: f.0,
            user_id: (f.1).0,
            channel: ((f.1).1).0,
            comms_type: (((f.1).1).1).0,
            recipient: ((((f.1).1).1).1).0,
            subject: (((((f.1).1).1).1).1).0,
            body: ((((((f.1).1).1).1).1).1).0,
            metadata: (((((((f.1).1).1).1).1).1).1).0,
            status: ((((((((f.1).1).1).1).1).1).1).1).0,
            error_message: (((((((((f.1).1).1).1).1).1).1).1).1).0,
            attempts: ((((((((((f.1).1).1).1).1).1).1).1).1).1).0,
            max_attempts: (((((((((((f.1).1).1).1).1).1).1).1).1).1).1).0,
            created_at_ms: ((((((((((((f.1).1).1).1).1).1).1).1).1).1).1).1).0,
            scheduled_for_ms: (((((((((((((f.1).1).1).1).1).1).1).1).1).1).1).1).1).0,
            sent_at_ms: (((((((((((((f.1).1).1).1).1).1).1).1).1).1).1).1).1).1,
        }
    }

    /// The stored value.
    #[verifier::opaque]
    pub open spec fn stored(self) -> Seq<u8> {
        framed::<CommsFields>(SCHEMA_VERSION, self.fields())
    }

    /// Reads a stored value.
    #[verifier::opaque]
    pub open spec fn read(s: Seq<u8>) -> Option<CommsRow> {
        match unframed::<CommsFields>(SCHEMA_VERSION, s) {
            Some(f) => Some(CommsRow::of(f)),
            None => None,
        }
    }

    /// No field is longer than a machine can hold.
    pub open spec fn fits(self) -> bool {
        CommsFields::fits(self.fields())
    }

    /// A value is read back as it was written.
    pub proof fn round_trip(self)
        requires
            self.fits(),
        ensures
            CommsRow::read(self.stored()) == Some(self),
    {
        reveal(CommsRow::stored);
        reveal(CommsRow::read);
        framed_round_trip::<CommsFields>(SCHEMA_VERSION, self.fields());
    }

    /// A value that was read from stored bytes is no longer than a machine can hold.
    pub proof fn read_fits(s: Seq<u8>)
        requires
            s.len() <= usize::MAX,
        ensures
            CommsRow::read(s) matches Some(v) ==> v.fits(),
    {
        reveal(CommsRow::stored);
        reveal(CommsRow::read);
        unframed_fits::<CommsFields>(SCHEMA_VERSION, s);
    }
}

impl QueuedCommsValue {
    pub fn serialize(&self) -> (r: Vec<u8>)
        ensures
            r@ == self.deep_view().stored(),
    {
        proof {
            reveal(CommsRow::stored);
        }
        let fields: CommsFields = (self.id, (self.user_id, (self.channel, (self.comms_type, (self.recipient.clone(), (self.subject.duplicate(), (self.body.clone(), (self.metadata.duplicate(), (self.status, (self.error_message.duplicate(), (self.attempts, (self.max_attempts, (self.created_at_ms, (self.scheduled_for_ms, self.sent_at_ms))))))))))))));
        assert(fields.deep_view() == self.deep_view().fields());
        frame::<CommsFields>(SCHEMA_VERSION, &fields)
    }

    pub fn deserialize(bytes: &[u8]) -> (r: Option<QueuedCommsValue>)
        ensures
            match CommsRow::read(bytes@) {
                Some(v) => r is Some && r->0.deep_view() == v,
                None => r is None,
            },
    {
        proof {
            reveal(CommsRow::read);
        }
        match unframe::<CommsFields>(SCHEMA_VERSION, bytes) {
            None => None,
            Some((id, (user_id, (channel, (comms_type, (recipient, (subject, (body, (metadata, (status, (error_message, (attempts, (max_attempts, (created_at_ms, (scheduled_for_ms, sent_at_ms))))))))))))))) => Some(
                QueuedCommsValue { id, user_id, channel, comms_type, recipient, subject, body, metadata, status, error_message, attempts, max_attempts, created_at_ms, scheduled_for_ms, sent_at_ms },
            ),
        }
    }
}

/// A queued message at a key.
pub open spec fn comms_at(rows: Rows, key: Seq<u8>) -> Result<Option<CommsRow>, MetastoreError> {
    match lookup(rows, key) {
        None => Ok(None),
        Some(b) => match CommsRow::read(b) {
            Some(v) => Ok(Some(v)),
            None => Err(MetastoreError::CorruptData("corrupt comms queue entry")),
        },
    }
}

pub fn find_comms(ks: &Keyspace, key: &[u8]) -> (r: Result<Option<QueuedCommsValue>, MetastoreError>)
    ensures
        viewed(r) == comms_at(ks@.rows, key@),
{
    match ks.get(key) {
        None => Ok(None),
        Some(raw) => match QueuedCommsValue::deserialize(raw.as_slice()) {
            Some(v) => Ok(Some(v)),
            None => Err(MetastoreError::CorruptData("corrupt comms queue entry")),
        },
    }
}

/// A message in a user's history.
#[derive(Debug, PartialEq, Eq)]
pub struct NotificationHistoryValue {
    pub id: Uuid,
    pub channel: u8,
    pub comms_type: u8,
    pub recipient: String,
    pub subject: Option<String>,
    pub body: String,
    pub status: u8,
    pub created_at_ms: i64,
}

#[verifier::ext_equal]
pub struct HistoryRow {
    pub id: Uuid,
    pub channel: u8,
    pub comms_type: u8,
    pub recipient: Seq<char>,
    pub subject: Option<Seq<char>>,
    pub body: Seq<char>,
    pub status: u8,
    pub created_at_ms: i64,
}

impl DeepView for NotificationHistoryValue {
    type V = HistoryRow;

    open spec fn deep_view(&self) -> HistoryRow {
        HistoryRow {
            id: self.id,
            channel: self.channel,
            comms_type: self.comms_type,
            recipient: self.recipient@,
            subject: self.subject.deep_view(),
            body: self.body@,
            status: self.status,
            created_at_ms: self.created_at_ms,
        }
    }
}

/// The fields of a message in a history in the order in which they are stored.
pub type HistoryFields = (Uuid, (u8, (u8, (String, (Option<String>, (String, (u8, i64)))))));

impl HistoryRow {
    pub open spec fn fields(self) -> <HistoryFields as DeepView>::V {
        (self.id, (self.channel, (self.comms_type, (self.recipient, (self.subject, (self.body, (self.status, self.created_at_ms)))))))
    }

    pub open spec fn of(f: <HistoryFields as DeepView>::V) -> HistoryRow {
        HistoryRow {
            id: f.0,
            channel: (f.1).0,
            comms_type: ((f.1).1).0,
            recipient: (((f.1).1).1).0,
            subject: ((((f.1).1).1).1).0,
            body: (((((f.1).1).1).1).1).0,
            status: ((((((f.1).1).1).1).1).1).0,
            created_at_ms: ((((((f.1).1).1).1).1).1).1,
        }
    }

    /// The stored value.
    #[verifier::opaque]
    pub open spec fn stored(self) -> Seq<u8> {
        framed::<HistoryFields>(SCHEMA_VERSION, self.fields())
    }

    /// Reads a stored value.
    #[verifier::opaque]
    pub open spec fn read(s: Seq<u8>) -> Option<HistoryRow> {
        match unframed::<HistoryFields>(SCHEMA_VERSION, s) {
            Some(f) => Some(HistoryRow::of(f)),
            None => None,
        }
    }

    /// No field is longer than a machine can hold.
    pub open spec fn fits(self) -> bool {
        HistoryFields::fits(self.fields())
    }

    /// A value is read back as it was written.
    pub proof fn round_trip(self)
        requires
            self.fits(),
        ensures
            HistoryRow::read(self.stored()) == Some(self),
    {
        reveal(HistoryRow::stored);
        reveal(HistoryRow::read);
        framed_round_trip::<HistoryFields>(SCHEMA_VERSION, self.fields());
    }

    /// A value that was read from stored bytes is no longer than a machine can hold.
    pub proof fn read_fits(s: Seq<u8>)
        requires
            s.len() <= usize::MAX,
        ensures
            HistoryRow::read(s) matches Some(v) ==> v.fits(),
    {
        reveal(HistoryRow::stored);
        reveal(HistoryRow::read);
        unframed_fits::<HistoryFields>(SCHEMA_VERSION, s);
    }
}

impl NotificationHistoryValue {
    pub fn serialize(&self) -> (r: Vec<u8>)
        ensures
            r@ == self.deep_view().stored(),
    {
        proof {
            reveal(HistoryRow::stored);
        }
        let fields: HistoryFields = (self.id, (self.channel, (self.comms_type, (self.recipient.clone(), (self.subject.duplicate(), (self.body.clone(), (self.status, self.created_at_ms)))))));
        assert(fields.deep_view() == self.deep_view().fields());
        frame::<HistoryFields>(SCHEMA_VERSION, &fields)
    }

    pub fn deserialize(bytes: &[u8]) -> (r: Option<NotificationHistoryValue>)
        ensures
            match HistoryRow::read(bytes@) {
                Some(v) => r is Some && r->0.deep_view() == v,
                None => r is None,
            },
    {
        proof {
            reveal(HistoryRow::read);
        }
        match unframe::<HistoryFields>(SCHEMA_VERSION, bytes) {
            None => None,
            Some((id, (channel, (comms_type, (recipient, (subject, (body, (status, created_at_ms)))))))) => Some(
                NotificationHistoryValue { id, channel, comms_type, recipient, subject, body, status, created_at_ms },
            ),
        }
    }
}

/// An invite code.
#[derive(Debug, PartialEq, Eq)]
pub struct InviteCodeValue {
    pub code: String,
    pub available_uses: i32,
    pub disabled: bool,
    pub for_account: Option<String>,
    pub created_by: Option<Uuid>,
    pub created_at_ms: i64,
}

#[verifier::ext_equal]
pub struct InviteRow {
    pub code: Seq<char>,
    pub available_uses: i32,
    pub disabled: bool,
    pub for_account: Option<Seq<char>>,
    pub created_by: Option<Uuid>,
    pub created_at_ms: i64,
}

impl DeepView for InviteCodeValue {
    type V = InviteRow;

    open spec fn deep_view(&self) -> InviteRow {
        InviteRow {
            code: self.code@,
            available_uses: self.available_uses,
            disabled: self.disabled,
            for_account: self.for_account.deep_view(),
            created_by: self.created_by,
            created_at_ms: self.created_at_ms,
        }
    }
}

/// The fields of an invite code in the order in which they are stored.
pub type InviteFields = (String, (i32, (bool, (Option<String>, (Option<Uuid>, i64)))));

impl InviteRow {
    pub open spec fn fields(self) -> <InviteFields as DeepView>::V {
        (self.code, (self.available_uses, (self.disabled, (self.for_account, (self.created_by, self.created_at_ms)))))
    }

    pub open spec fn of(f: <InviteFields as DeepView>::V) -> InviteRow {
        InviteRow {
            code: f.0,
            available_uses: (f.1).0,
            disabled: ((f.1).1).0,
            for_account: (((f.1).1).1).0,
            created_by: ((((f.1).1).1).1).0,
            created_at_ms: ((((f.1).1).1).1).1,
        }
    }

    /// The stored value.
    #[verifier::opaque]
    pub open spec fn stored(self) -> Seq<u8> {
        framed::<InviteFields>(SCHEMA_VERSION, self.fields())
    }

    /// Reads a stored value.
    #[verifier::opaque]
    pub open spec fn read(s: Seq<u8>) -> Option<InviteRow> {
        match unframed::<InviteFields>(SCHEMA_VERSION, s) {
            Some(f) => Some(InviteRow::of(f)),
            None => None,
        }
    }

    /// No field is longer than a machine can hold.
    pub open spec fn fits(self) -> bool {
        InviteFields::fits(self.fields())
    }

    /// A value is read back as it was written.
    pub proof fn round_trip(self)
        requires
            self.fits(),
        ensures
            InviteRow::read(self.stored()) == Some(self),
    {
        reveal(InviteRow::stored);
        reveal(InviteRow::read);
        framed_round_trip::<InviteFields>(SCHEMA_VERSION, self.fields());
    }

    /// A value that was read from stored bytes is no longer than a machine can hold.
    pub proof fn read_fits(s: Seq<u8>)
        requires
            s.len() <= usize::MAX,
        ensures
            InviteRow::read(s) matches Some(v) ==> v.fits(),
    {
        reveal(InviteRow::stored);
        reveal(InviteRow::read);
        unframed_fits::<InviteFields>(SCHEMA_VERSION, s);
    }
}

impl InviteCodeValue {
    pub fn serialize(&self) -> (r: Vec<u8>)
        ensures
            r@ == self.deep_view().stored(),
    {
        proof {
            reveal(InviteRow::stored);
        }
        let fields: InviteFields = (self.code.clone(), (self.available_uses, (self.disabled, (self.for_account.duplicate(), (self.created_by, self.created_at_ms)))));
        assert(fields.deep_view() == self.deep_view().fields());
        frame::<InviteFields>(SCHEMA_VERSION, &fields)
    }

    pub fn deserialize(bytes: &[u8]) -> (r: Option<InviteCodeValue>)
        ensures
            match InviteRow::read(bytes@) {
                Some(v) => r is Some && r->0.deep_view() == v,
                None => r is None,
            },
    {
        proof {
            reveal(InviteRow::read);
        }
        match unframe::<InviteFields>(SCHEMA_VERSION, bytes) {
            None => None,
            Some((code, (available_uses, (disabled, (for_account, (created_by, created_at_ms)))))) => Some(
                InviteCodeValue { code, available_uses, disabled, for_account, created_by, created_at_ms },
            ),
        }
    }
}

/// An invite code at a key.
pub open spec fn invite_at(rows: Rows, key: Seq<u8>) -> Result<Option<InviteRow>, MetastoreError> {
    match lookup(rows, key) {
        None => Ok(None),
        Some(b) => match InviteRow::read(b) {
            Some(v) => Ok(Some(v)),
            None => Err(MetastoreError::CorruptData("corrupt invite code")),
        },
    }
}

pub fn find_invite(ks: &Keyspace, key: &[u8]) -> (r: Result<Option<InviteCodeValue>, MetastoreError>)
    ensures
        viewed(r) == invite_at(ks@.rows, key@),
{
    match ks.get(key) {
        None => Ok(None),
        Some(raw) => match InviteCodeValue::deserialize(raw.as_slice()) {
            Some(v) => Ok(Some(v)),
            None => Err(MetastoreError::CorruptData("corrupt invite code")),
        },
    }
}

/// A use of an invite code.
#[derive(Debug, PartialEq, Eq)]
pub struct InviteCodeUseValue {
    pub used_by: Uuid,
    pub used_at_ms: i64,
}

#[verifier::ext_equal]
pub struct InviteUseRow {
    pub used_by: Uuid,
    pub used_at_ms: i64,
}

impl DeepView for InviteCodeUseValue {
    type V = InviteUseRow;

    open spec fn deep_view(&self) -> InviteUseRow {
        InviteUseRow {
            used_by: self.used_by,
            used_at_ms: self.used_at_ms,
        }
    }
}

/// The fields of a use of an invite code in the order in which they are stored.
pub type InviteUseFields = (Uuid, i64);

impl InviteUseRow {
    pub open spec fn fields(self) -> <InviteUseFields as DeepView>::V {
        (self.used_by, self.used_at_ms)
    }

    pub open spec fn of(f: <InviteUseFields as DeepView>::V) -> InviteUseRow {
        InviteUseRow {
            used_by: f.0,
            used_at_ms: f.1,
        }
    }

    /// The stored value.
    #[verifier::opaque]
    pub open spec fn stored(self) -> Seq<u8> {
        framed::<InviteUseFields>(SCHEMA_VERSION, self.fields())
    }

    /// Reads a stored value.
    #[verifier::opaque]
    pub open spec fn read(s: Seq<u8>) -> Option<InviteUseRow> {
        match unframed::<InviteUseFields>(SCHEMA_VERSION, s) {
            Some(f) => Some(InviteUseRow::of(f)),
            None => None,
        }
    }

    /// No field is longer than a machine can hold.
    pub open spec fn fits(self) -> bool {
        InviteUseFields::fits(self.fields())
    }

    /// A value is read back as it was written.
    pub proof fn round_trip(self)
        requires
            self.fits(),
        ensures
            InviteUseRow::read(self.stored()) == Some(self),
    {
        reveal(InviteUseRow::stored);
        reveal(InviteUseRow::read);
        framed_round_trip::<InviteUseFields>(SCHEMA_VERSION, self.fields());
    }

    /// A value that was read from stored bytes is no longer than a machine can hold.
    pub proof fn read_fits(s: Seq<u8>)
        requires
            s.len() <= usize::MAX,
        ensures
            InviteUseRow::read(s) matches Some(v) ==> v.fits(),
    {
        reveal(InviteUseRow::stored);
        reveal(InviteUseRow::read);
        unframed_fits::<InviteUseFields>(SCHEMA_VERSION, s);
    }
}

impl InviteCodeUseValue {
    pub fn serialize(&self) -> (r: Vec<u8>)
        ensures
            r@ == self.deep_view().stored(),
    {
        proof {
            reveal(InviteUseRow::stored);
        }
        let fields: InviteUseFields = (self.used_by, self.used_at_ms);
        assert(fields.deep_view() == self.deep_view().fields());
        frame::<InviteUseFields>(SCHEMA_VERSION, &fields)
    }

    pub fn deserialize(bytes: &[u8]) -> (r: Option<InviteCodeUseValue>)
        ensures
            match InviteUseRow::read(bytes@) {
                Some(v) => r is Some && r->0.deep_view() == v,
                None => r is None,
            },
    {
        proof {
            reveal(InviteUseRow::read);
        }
        match unframe::<InviteUseFields>(SCHEMA_VERSION, bytes) {
            None => None,
            Some((used_by, used_at_ms)) => Some(
                InviteCodeUseValue { used_by, used_at_ms },
            ),
        }
    }
}

/// A reserved signing key.
#[derive(Debug, PartialEq, Eq)]
pub struct SigningKeyValue {
    pub id: Uuid,
    pub did: Option<String>,
    pub public_key_did_key: String,
    pub private_key_bytes: Vec<u8>,
    pub used: bool,
    pub created_at_ms: i64,
    pub expires_at_ms: i64,
    pub used_at_ms: Option<i64>,
}

#[verifier::ext_equal]
pub struct SigningKeyRow {
    pub id: Uuid,
    pub did: Option<Seq<char>>,
    pub public_key_did_key: Seq<char>,
    pub private_key_bytes: Seq<u8>,
    pub used: bool,
    pub created_at_ms: i64,
    pub expires_at_ms: i64,
    pub used_at_ms: Option<i64>,
}

impl DeepView for SigningKeyValue {
    type V = SigningKeyRow;

    open spec fn deep_view(&self) -> SigningKeyRow {
        SigningKeyRow {
            id: self.id,
            did: self.did.deep_view(),
            public_key_did_key: self.public_key_did_key@,
            private_key_bytes: self.private_key_bytes.deep_view(),
            used: self.used,
            created_at_ms: self.created_at_ms,
            expires_at_ms: self.expires_at_ms,
            used_at_ms: self.used_at_ms,
        }
    }
}

/// The fields of a signing key in the order in which they are stored.
pub type SigningKeyFields = (Uuid, (Option<String>, (String, (Vec<u8>, (bool, (i64, (i64, Option<i64>)))))));

impl SigningKeyRow {
    pub open spec fn fields(self) -> <SigningKeyFields as DeepView>::V {
        (self.id, (self.did, (self.public_key_did_key, (self.private_key_bytes, (self.used, (self.created_at_ms, (self.expires_at_ms, self.used_at_ms)))))))
    }

    pub open spec fn of(f: <SigningKeyFields as DeepView>::V) -> SigningKeyRow {
        SigningKeyRow {
            id: f.0,
            did: (f.1).0,
            public_key_did_key: ((f.1).1).0,
            private_key_bytes: (((f.1).1).1).0,
            used: ((((f.1).1).1).1).0,
            created_at_ms: (((((f.1).1).1).1).1).0,
            expires_at_ms: ((((((f.1).1).1).1).1).1).0,
            used_at_ms: ((((((f.1).1).1).1).1).1).1,
        }
    }

    /// The stored value.
    #[verifier::opaque]
    pub open spec fn stored(self) -> Seq<u8> {
        framed::<SigningKeyFields>(SCHEMA_VERSION, self.fields())
    }

    /// Reads a stored value.
    #[verifier::opaque]
    pub open spec fn read(s: Seq<u8>) -> Option<SigningKeyRow> {
        match unframed::<SigningKeyFields>(SCHEMA_VERSION, s) {
            Some(f) => Some(SigningKeyRow::of(f)),
            None => None,
        }
    }

    /// No field is longer than a machine can hold.
    pub open spec fn fits(self) -> bool {
        SigningKeyFields::fits(self.fields())
    }

    /// A value is read back as it was written.
    pub proof fn round_trip(self)
        requires
            self.fits(),
        ensures
            SigningKeyRow::read(self.stored()) == Some(self),
    {
        reveal(SigningKeyRow::stored);
        reveal(SigningKeyRow::read);
        framed_round_trip::<SigningKeyFields>(SCHEMA_VERSION, self.fields());
    }

    /// A value that was read from stored bytes is no longer than a machine can hold.
    pub proof fn read_fits(s: Seq<u8>)
        requires
            s.len() <= usize::MAX,
        ensures
            SigningKeyRow::read(s) matches Some(v) ==> v.fits(),
    {
        reveal(SigningKeyRow::stored);
        reveal(SigningKeyRow::read);
        unframed_fits::<SigningKeyFields>(SCHEMA_VERSION, s);
    }
}

impl SigningKeyValue {
    pub fn serialize(&self) -> (r: Vec<u8>)
        ensures
            r@ == self.deep_view().stored(),
    {
        proof {
            reveal(SigningKeyRow::stored);
        }
        let fields: SigningKeyFields = (self.id, (self.did.duplicate(), (self.public_key_did_key.clone(), (self.private_key_bytes.duplicate(), (self.used, (self.created_at_ms, (self.expires_at_ms, self.used_at_ms)))))));
        assert(fields.deep_view() == self.deep_view().fields());
        frame::<SigningKeyFields>(SCHEMA_VERSION, &fields)
    }

    pub fn deserialize(bytes: &[u8]) -> (r: Option<SigningKeyValue>)
        ensures
            match SigningKeyRow::read(bytes@) {
                Some(v) => r is Some && r->0.deep_view() == v,
                None => r is None,
            },
    {
        proof {
            reveal(SigningKeyRow::read);
        }
        match unframe::<SigningKeyFields>(SCHEMA_VERSION, bytes) {
            None => None,
            Some((id, (did, (public_key_did_key, (private_key_bytes, (used, (created_at_ms, (expires_at_ms, used_at_ms)))))))) => Some(
                SigningKeyValue { id, did, public_key_did_key, private_key_bytes, used, created_at_ms, expires_at_ms, used_at_ms },
            ),
        }
    }
}

/// A signing key at a key.
pub open spec fn signing_key_at(rows: Rows, key: Seq<u8>) -> Result<Option<SigningKeyRow>, MetastoreError> {
    match lookup(rows, key) {
        None => Ok(None),
        Some(b) => match SigningKeyRow::read(b) {
            Some(v) => Ok(Some(v)),
            None => Err(MetastoreError::CorruptData("corrupt signing key")),
        },
    }
}

pub fn find_signing_key(ks: &Keyspace, key: &[u8]) -> (r: Result<Option<SigningKeyValue>, MetastoreError>)
    ensures
        viewed(r) == signing_key_at(ks@.rows, key@),
{
    match ks.get(key) {
        None => Ok(None),
        Some(raw) => match SigningKeyValue::deserialize(raw.as_slice()) {
            Some(v) => Ok(Some(v)),
            None => Err(MetastoreError::CorruptData("corrupt signing key")),
        },
    }
}

/// A request to delete an account.
#[derive(Debug, PartialEq, Eq)]
pub struct DeletionRequestValue {
    pub token: String,
    pub did: String,
    pub created_at_ms: i64,
    pub expires_at_ms: i64,
}

#[verifier::ext_equal]
pub struct DeletionRow {
    pub token: Seq<char>,
    pub did: Seq<char>,
    pub created_at_ms: i64,
    pub expires_at_ms: i64,
}

impl DeepView for DeletionRequestValue {
    type V = DeletionRow;

    open spec fn deep_view(&self) -> DeletionRow {
        DeletionRow {
            token: self.token@,
            did: self.did@,
            created_at_ms: self.created_at_ms,
            expires_at_ms: self.expires_at_ms,
        }
    }
}

/// The fields of a deletion request in the order in which they are stored.
pub type DeletionFields = (String, (String, (i64, i64)));

impl DeletionRow {
    pub open spec fn fields(self) -> <DeletionFields as DeepView>::V {
        (self.token, (self.did, (self.created_at_ms, self.expires_at_ms)))
    }

    pub open spec fn of(f: <DeletionFields as DeepView>::V) -> DeletionRow {
        DeletionRow {
            token: f.0,
            did: (f.1).0,
            created_at_ms: ((f.1).1).0,
            expires_at_ms: ((f.1).1).1,
        }
    }

    /// The stored value.
    #[verifier::opaque]
    pub open spec fn stored(self) -> Seq<u8> {
        framed::<DeletionFields>(SCHEMA_VERSION, self.fields())
    }

    /// Reads a stored value.
    #[verifier::opaque]
    pub open spec fn read(s: Seq<u8>) -> Option<DeletionRow> {
        match unframed::<DeletionFields>(SCHEMA_VERSION, s) {
            Some(f) => Some(DeletionRow::of(f)),
            None => None,
        }
    }

    /// No field is longer than a machine can hold.
    pub open spec fn fits(self) -> bool {
        DeletionFields::fits(self.fields())
    }

    /// A value is read back as it was written.
    pub proof fn round_trip(self)
        requires
            self.fits(),
        ensures
            DeletionRow::read(self.stored()) == Some(self),
    {
        reveal(DeletionRow::stored);
        reveal(DeletionRow::read);
        framed_round_trip::<DeletionFields>(SCHEMA_VERSION, self.fields());
    }

    /// A value that was read from stored bytes is no longer than a machine can hold.
    pub proof fn read_fits(s: Seq<u8>)
        requires
            s.len() <= usize::MAX,
        ensures
            DeletionRow::read(s) matches Some(v) ==> v.fits(),
    {
        reveal(DeletionRow::stored);
        reveal(DeletionRow::read);
        unframed_fits::<DeletionFields>(SCHEMA_VERSION, s);
    }
}

impl DeletionRequestValue {
    pub fn serialize(&self) -> (r: Vec<u8>)
        ensures
            r@ == self.deep_view().stored(),
    {
        proof {
            reveal(DeletionRow::stored);
        }
        let fields: DeletionFields = (self.token.clone(), (self.did.clone(), (self.created_at_ms, self.expires_at_ms)));
        assert(fields.deep_view() == self.deep_view().fields());
        frame::<DeletionFields>(SCHEMA_VERSION, &fields)
    }

    pub fn deserialize(bytes: &[u8]) -> (r: Option<DeletionRequestValue>)
        ensures
            match DeletionRow::read(bytes@) {
                Some(v) => r is Some && r->0.deep_view() == v,
                None => r is None,
            },
    {
        proof {
            reveal(DeletionRow::read);
        }
        match unframe::<DeletionFields>(SCHEMA_VERSION, bytes) {
            None => None,
            Some((token, (did, (created_at_ms, expires_at_ms)))) => Some(
                DeletionRequestValue { token, did, created_at_ms, expires_at_ms },
            ),
        }
    }
}

/// A deletion request at a key.
pub open spec fn deletion_at(rows: Rows, key: Seq<u8>) -> Result<Option<DeletionRow>, MetastoreError> {
    match lookup(rows, key) {
        None => Ok(None),
        Some(b) => match DeletionRow::read(b) {
            Some(v) => Ok(Some(v)),
            None => Err(MetastoreError::CorruptData("corrupt deletion request")),
        },
    }
}

pub fn find_deletion(ks: &Keyspace, key: &[u8]) -> (r: Result<Option<DeletionRequestValue>, MetastoreError>)
    ensures
        viewed(r) == deletion_at(ks@.rows, key@),
{
    match ks.get(key) {
        None => Ok(None),
        Some(raw) => match DeletionRequestValue::deserialize(raw.as_slice()) {
            Some(v) => Ok(Some(v)),
            None => Err(MetastoreError::CorruptData("corrupt deletion request")),
        },
    }
}

/// A moderation report.
#[derive(Debug, PartialEq, Eq)]
pub struct ReportValue {
    pub id: i64,
    pub reason_type: String,
    pub reason: Option<String>,
    pub subject_json: Vec<u8>,
    pub reported_by_did: String,
    pub created_at_ms: i64,
}

#[verifier::ext_equal]
pub struct ReportRow {
    pub id: i64,
    pub reason_type: Seq<char>,
    pub reason: Option<Seq<char>>,
    pub subject_json: Seq<u8>,
    pub reported_by_did: Seq<char>,
    pub created_at_ms: i64,
}

impl DeepView for ReportValue {
    type V = ReportRow;

    open spec fn deep_view(&self) -> ReportRow {
        ReportRow {
            id: self.id,
            reason_type: self.reason_type@,
            reason: self.reason.deep_view(),
            subject_json: self.subject_json.deep_view(),
            reported_by_did: self.reported_by_did@,
            created_at_ms: self.created_at_ms,
        }
    }
}

/// The fields of a report in the order in which they are stored.
pub type ReportFields = (i64, (String, (Option<String>, (Vec<u8>, (String, i64)))));

impl ReportRow {
    pub open spec fn fields(self) -> <ReportFields as DeepView>::V {
        (self.id, (self.reason_type, (self.reason, (self.subject_json, (self.reported_by_did, self.created_at_ms)))))
    }

    pub open spec fn of(f: <ReportFields as DeepView>::V) -> ReportRow {
        ReportRow {
            id: f.0,
            reason_type: (f.1).0,
            reason: ((f.1).1).0,
            subject_json: (((f.1).1).1).0,
            reported_by_did: ((((f.1).1).1).1).0,
            created_at_ms: ((((f.1).1).1).1).1,
        }
    }

    /// The stored value.
    #[verifier::opaque]
    pub open spec fn stored(self) -> Seq<u8> {
        framed::<ReportFields>(SCHEMA_VERSION, self.fields())
    }

    /// Reads a stored value.
    #[verifier::opaque]
    pub open spec fn read(s: Seq<u8>) -> Option<ReportRow> {
        match unframed::<ReportFields>(SCHEMA_VERSION, s) {
            Some(f) => Some(ReportRow::of(f)),
            None => None,
        }
    }

    /// No field is longer than a machine can hold.
    pub open spec fn fits(self) -> bool {
        ReportFields::fits(self.fields())
    }

    /// A value is read back as it was written.
    pub proof fn round_trip(self)
        requires
            self.fits(),
        ensures
            ReportRow::read(self.stored()) == Some(self),
    {
        reveal(ReportRow::stored);
        reveal(ReportRow::read);
        framed_round_trip::<ReportFields>(SCHEMA_VERSION, self.fields());
    }

    /// A value that was read from stored bytes is no longer than a machine can hold.
    pub proof fn read_fits(s: Seq<u8>)
        requires
            s.len() <= usize::MAX,
        ensures
            ReportRow::read(s) matches Some(v) ==> v.fits(),
    {
        reveal(ReportRow::stored);
        reveal(ReportRow::read);
        unframed_fits::<ReportFields>(SCHEMA_VERSION, s);
    }
}

impl ReportValue {
    pub fn serialize(&self) -> (r: Vec<u8>)
        ensures
            r@ == self.deep_view().stored(),
    {
        proof {
            reveal(ReportRow::stored);
        }
        let fields: ReportFields = (self.id, (self.reason_type.clone(), (self.reason.duplicate(), (self.subject_json.duplicate(), (self.reported_by_did.clone(), self.created_at_ms)))));
        assert(fields.deep_view() == self.deep_view().fields());
        frame::<ReportFields>(SCHEMA_VERSION, &fields)
    }

    pub fn deserialize(bytes: &[u8]) -> (r: Option<ReportValue>)
        ensures
            match ReportRow::read(bytes@) {
                Some(v) => r is Some && r->0.deep_view() == v,
                None => r is None,
            },
    {
        proof {
            reveal(ReportRow::read);
        }
        match unframe::<ReportFields>(SCHEMA_VERSION, bytes) {
            None => None,
            Some((id, (reason_type, (reason, (subject_json, (reported_by_did, created_at_ms)))))) => Some(
                ReportValue { id, reason_type, reason, subject_json, reported_by_did, created_at_ms },
            ),
        }
    }
}

/// What is known of a stored blob.
#[derive(Debug, PartialEq, Eq)]
pub struct BlobMetaValue {
    pub storage_key: String,
    pub mime_type: String,
    pub size_bytes: u64,
}

#[verifier::ext_equal]
pub struct BlobRow {
    pub storage_key: Seq<char>,
    pub mime_type: Seq<char>,
    pub size_bytes: u64,
}

impl DeepView for BlobMetaValue {
    type V = BlobRow;

    open spec fn deep_view(&self) -> BlobRow {
        BlobRow {
            storage_key: self.storage_key@,
            mime_type: self.mime_type@,
            size_bytes: self.size_bytes,
        }
    }
}

/// The fields of a blob in the order in which they are stored.
pub type BlobFields = (String, (String, u64));

impl BlobRow {
    pub open spec fn fields(self) -> <BlobFields as DeepView>::V {
        (self.storage_key, (self.mime_type, self.size_bytes))
    }

    pub open spec fn of(f: <BlobFields as DeepView>::V) -> BlobRow {
        BlobRow {
            storage_key: f.0,
            mime_type: (f.1).0,
            size_bytes: (f.1).1,
        }
    }

    /// The stored value.
    #[verifier::opaque]
    pub open spec fn stored(self) -> Seq<u8> {
        framed::<BlobFields>(SCHEMA_VERSION, self.fields())
    }

    /// Reads a stored value.
    #[verifier::opaque]
    pub open spec fn read(s: Seq<u8>) -> Option<BlobRow> {
        match unframed::<BlobFields>(SCHEMA_VERSION, s) {
            Some(f) => Some(BlobRow::of(f)),
            None => None,
        }
    }

    /// No field is longer than a machine can hold.
    pub open spec fn fits(self) -> bool {
        BlobFields::fits(self.fields())
    }

    /// A value is read back as it was written.
    pub proof fn round_trip(self)
        requires
            self.fits(),
        ensures
            BlobRow::read(self.stored()) == Some(self),
    {
        reveal(BlobRow::stored);
        reveal(BlobRow::read);
        framed_round_trip::<BlobFields>(SCHEMA_VERSION, self.fields());
    }

    /// A value that was read from stored bytes is no longer than a machine can hold.
    pub proof fn read_fits(s: Seq<u8>)
        requires
            s.len() <= usize::MAX,
        ensures
            BlobRow::read(s) matches Some(v) ==> v.fits(),
    {
        reveal(BlobRow::stored);
        reveal(BlobRow::read);
        unframed_fits::<BlobFields>(SCHEMA_VERSION, s);
    }
}

impl BlobMetaValue {
    pub fn serialize(&self) -> (r: Vec<u8>)
        ensures
            r@ == self.deep_view().stored(),
    {
        proof {
            reveal(BlobRow::stored);
        }
        let fields: BlobFields = (self.storage_key.clone(), (self.mime_type.clone(), self.size_bytes));
        assert(fields.deep_view() == self.deep_view().fields());
        frame::<BlobFields>(SCHEMA_VERSION, &fields)
    }

    pub fn deserialize(bytes: &[u8]) -> (r: Option<BlobMetaValue>)
        ensures
            match BlobRow::read(bytes@) {
                Some(v) => r is Some && r->0.deep_view() == v,
                None => r is None,
            },
    {
        proof {
            reveal(BlobRow::read);
        }
        match unframe::<BlobFields>(SCHEMA_VERSION, bytes) {
            None => None,
            Some((storage_key, (mime_type, size_bytes))) => Some(
                BlobMetaValue { storage_key, mime_type, size_bytes },
            ),
        }
    }
}

/// A blob at a key.
pub open spec fn blob_at(rows: Rows, key: Seq<u8>) -> Result<Option<BlobRow>, MetastoreError> {
    match lookup(rows, key) {
        None => Ok(None),
        Some(b) => match BlobRow::read(b) {
            Some(v) => Ok(Some(v)),
            None => Err(MetastoreError::CorruptData("corrupt blob_meta value")),
        },
    }
}

pub fn find_blob(ks: &Keyspace, key: &[u8]) -> (r: Result<Option<BlobMetaValue>, MetastoreError>)
    ensures
        viewed(r) == blob_at(ks@.rows, key@),
{
    match ks.get(key) {
        None => Ok(None),
        Some(raw) => match BlobMetaValue::deserialize(raw.as_slice()) {
            Some(v) => Ok(Some(v)),
            None => Err(MetastoreError::CorruptData("corrupt blob_meta value")),
        },
    }
}

/// The key of a row that a text names.
pub open spec fn text_key_bytes(tag: KeyTag, text: Seq<char>) -> Seq<u8> {
    seq![tag.byte()] + escaped(encode_utf8(text))
}

/// The key of a row that an identifier names.
pub open spec fn id_key_bytes(tag: KeyTag, id: Uuid) -> Seq<u8> {
    seq![tag.byte()] + uuid_bytes(id)
}

/// The prefix of a user's rows of one kind.
pub open spec fn owner_prefix_bytes(tag: KeyTag, owner: Uuid) -> Seq<u8> {
    seq![tag.byte()] + escaped(uuid_bytes(owner))
}

/// The key of a user's row that a text names.
pub open spec fn owner_key_bytes(tag: KeyTag, owner: Uuid, text: Seq<char>) -> Seq<u8> {
    owner_prefix_bytes(tag, owner) + escaped(encode_utf8(text))
}

/// The key of a use of an invite code.
pub open spec fn invite_use_key_bytes(code: Seq<char>, user: Uuid) -> Seq<u8> {
    text_key_bytes(KeyTag::InviteUse, code) + uuid_bytes(user)
}

/// The key of a message in a user's history: later ones first, and among those of one
/// millisecond the one that was queued last.
pub open spec fn comms_history_key_bytes(owner: Uuid, ms: i64, seq: u32, id: Uuid) -> Seq<u8> {
    owner_prefix_bytes(KeyTag::CommsHistory, owner) + be8(newest_first(ms)) + be8(
        (u32::MAX - seq) as u64,
    ) + uuid_bytes(id)
}

/// The key of a report.
pub open spec fn report_key_bytes(id: i64) -> Seq<u8> {
    seq![KeyTag::Report.byte()] + be8((id - i64::MIN) as u64)
}

/// The key of a user's blob.
pub open spec fn blob_meta_key_bytes(hash: u64, cid: Seq<char>) -> Seq<u8> {
    seq![KeyTag::BlobMeta.byte()] + be8(hash) + escaped(encode_utf8(cid))
}

pub fn text_key(tag: KeyTag, text: &str) -> (r: Vec<u8>)
    ensures
        r@ == text_key_bytes(tag, text@),
{
    let r: Vec<u8> = KeyBuilder::new().tag(tag.raw()).string(text).build();
    assert(r@ =~= text_key_bytes(tag, text@));
    r
}

pub fn id_key(tag: KeyTag, id: Uuid) -> (r: Vec<u8>)
    ensures
        r@ == id_key_bytes(tag, id),
{
    let mut r: Vec<u8> = KeyBuilder::new().tag(tag.raw()).build();
    push_uuid(&mut r, id);
    assert(r@ =~= id_key_bytes(tag, id));
    r
}

fn owner_bytes(owner: Uuid) -> (r: Vec<u8>)
    ensures
        r@ == uuid_bytes(owner),
{
    let mut r: Vec<u8> = Vec::new();
    push_uuid(&mut r, owner);
    assert(r@ =~= uuid_bytes(owner));
    r
}

pub fn owner_prefix(tag: KeyTag, owner: Uuid) -> (r: Vec<u8>)
    ensures
        r@ == owner_prefix_bytes(tag, owner),
{
    let r: Vec<u8> = KeyBuilder::new().tag(tag.raw()).bytes(owner_bytes(owner).as_slice()).build();
    assert(r@ =~= owner_prefix_bytes(tag, owner));
    r
}

pub fn owner_key(tag: KeyTag, owner: Uuid, text: &str) -> (r: Vec<u8>)
    ensures
        r@ == owner_key_bytes(tag, owner, text@),
{
    let r: Vec<u8> = KeyBuilder::new().tag(tag.raw()).bytes(owner_bytes(owner).as_slice()).string(
        text,
    ).build();
    assert(r@ =~= owner_key_bytes(tag, owner, text@));
    r
}

pub fn invite_use_key(code: &str, user: Uuid) -> (r: Vec<u8>)
    ensures
        r@ == invite_use_key_bytes(code@, user),
{
    let mut r: Vec<u8> = text_key(KeyTag::InviteUse, code);
    push_uuid(&mut r, user);
    r
}

pub fn comms_history_key(owner: Uuid, ms: i64, seq: u32, id: Uuid) -> (r: Vec<u8>)
    ensures
        r@ == comms_history_key_bytes(owner, ms, seq, id),
{
    let down: u64 = (i64::MAX as i128 - ms as i128) as u64;
    let mut r: Vec<u8> = KeyBuilder::new().tag(KeyTag::CommsHistory.raw()).bytes(
        owner_bytes(owner).as_slice(),
    ).u64(down).u64((u32::MAX - seq) as u64).build();
    assert(r@ =~= owner_prefix_bytes(KeyTag::CommsHistory, owner) + be8(newest_first(ms)) + be8(
        (u32::MAX - seq) as u64,
    ));
    push_uuid(&mut r, id);
    r
}

pub fn report_key(id: i64) -> (r: Vec<u8>)
    ensures
        r@ == report_key_bytes(id),
{
    let up: u64 = (id as i128 - i64::MIN as i128) as u64;
    let r: Vec<u8> = KeyBuilder::new().tag(KeyTag::Report.raw()).u64(up).build();
    assert(r@ =~= report_key_bytes(id));
    r
}

pub fn blob_meta_key(user_hash: UserHash, cid: &str) -> (r: Vec<u8>)
    ensures
        r@ == blob_meta_key_bytes(user_hash@, cid@),
{
    let r: Vec<u8> = KeyBuilder::new().tag(KeyTag::BlobMeta.raw()).u64(user_hash.raw()).string(
        cid,
    ).build();
    assert(r@ =~= blob_meta_key_bytes(user_hash@, cid@));
    r
}

/// Texts name different rows whenever they differ, and so do users' texts.
pub proof fn infra_keys_injective(
    tag: KeyTag,
    a: Seq<char>,
    b: Seq<char>,
    u: Uuid,
    v: Uuid,
)
    ensures
        text_key_bytes(tag, a) == text_key_bytes(tag, b) ==> a == b,
        id_key_bytes(tag, u) == id_key_bytes(tag, v) ==> u == v,
        owner_key_bytes(tag, u, a) == owner_key_bytes(tag, v, b) ==> u == v && a == b,
{
    let none = Seq::<u8>::empty();
    let ea = encode_utf8(a);
    let eb = encode_utf8(b);
    crate::codec::text_round_trip(a);
    crate::codec::text_round_trip(b);
    uuid_bytes_round_trip(u);
    uuid_bytes_round_trip(v);
    if text_key_bytes(tag, a) == text_key_bytes(tag, b) {
        assert(text_key_bytes(tag, a).skip(1) =~= escaped(ea) + none);
        assert(text_key_bytes(tag, b).skip(1) =~= escaped(eb) + none);
        escaped_injective(ea, eb, none, none);
    }
    if id_key_bytes(tag, u) == id_key_bytes(tag, v) {
        assert(id_key_bytes(tag, u).skip(1) =~= uuid_bytes(u));
        assert(id_key_bytes(tag, v).skip(1) =~= uuid_bytes(v));
    }
    if owner_key_bytes(tag, u, a) == owner_key_bytes(tag, v, b) {
        assert(owner_key_bytes(tag, u, a).skip(1) =~= escaped(uuid_bytes(u)) + (escaped(ea) + none));
        assert(owner_key_bytes(tag, v, b).skip(1) =~= escaped(uuid_bytes(v)) + (escaped(eb) + none));
        escaped_injective(uuid_bytes(u), uuid_bytes(v), escaped(ea) + none, escaped(eb) + none);
        escaped_injective(ea, eb, none, none);
    }
}

/// In a user's history, what was queued later comes first.
pub proof fn history_is_newest_first(
    owner: Uuid,
    later: i64,
    earlier: i64,
    seq: u32,
    other_seq: u32,
    id: Uuid,
    other: Uuid,
)
    requires
        later > earlier || (later == earlier && seq > other_seq),
    ensures
        lex_lt(
            comms_history_key_bytes(owner, later, seq, id),
            comms_history_key_bytes(owner, earlier, other_seq, other),
        ),
{
    let p = owner_prefix_bytes(KeyTag::CommsHistory, owner);
    let x = be8((u32::MAX - seq) as u64) + uuid_bytes(id);
    let y = be8((u32::MAX - other_seq) as u64) + uuid_bytes(other);
    let a = be8(newest_first(later));
    let b = be8(newest_first(earlier));
    if later > earlier {
        be8_order(newest_first(later), newest_first(earlier), x, y);
    } else {
        be8_order(
            (u32::MAX - seq) as u64,
            (u32::MAX - other_seq) as u64,
            uuid_bytes(id),
            uuid_bytes(other),
        );
        lex_lt_common_prefix(a, x, y);
    }
    lex_lt_common_prefix(p, a + x, b + y);
    assert(comms_history_key_bytes(owner, later, seq, id) =~= p + (a + x));
    assert(comms_history_key_bytes(owner, earlier, other_seq, other) =~= p + (b + y));
}

} // verus!
