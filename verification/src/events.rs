//! Events: what happened to accounts and repositories, in the order of the event log.

use vstd::prelude::*;

use crate::codec::{framed, framed_round_trip, frame, unframe, unframed, unframed_fits, Field};
use crate::types::{CidLink, Did, Handle, SequenceNumber};

verus! {

/// The schema version of a stored event.
pub const SCHEMA_VERSION: u8 = 1;

/// What an event is about.
#[derive(Debug, Clone, Copy, PartialEq, Eq, Structural)]
pub enum RepoEventType {
    Commit,
    Identity,
    Account,
    Sync,
}

impl RepoEventType {
    /// The number of an event type in stored rows.
    pub open spec fn number(self) -> u8 {
        match self {
            RepoEventType::Commit => 0,
            RepoEventType::Identity => 1,
            RepoEventType::Account => 2,
            RepoEventType::Sync => 3,
        }
    }

    pub open spec fn numbered(n: u8) -> Option<RepoEventType> {
        if n == 0 {
            Some(RepoEventType::Commit)
        } else if n == 1 {
            Some(RepoEventType::Identity)
        } else if n == 2 {
            Some(RepoEventType::Account)
        } else if n == 3 {
            Some(RepoEventType::Sync)
        } else {
            None
        }
    }

    pub fn to_u8(self) -> (r: u8)
        ensures
            r == self.number(),
    {
        match self {
            RepoEventType::Commit => 0,
            RepoEventType::Identity => 1,
            RepoEventType::Account => 2,
            RepoEventType::Sync => 3,
        }
    }

    pub fn from_u8(n: u8) -> (r: Option<RepoEventType>)
        ensures
            r == RepoEventType::numbered(n),
    {
        match n {
            0 => Some(RepoEventType::Commit),
            1 => Some(RepoEventType::Identity),
            2 => Some(RepoEventType::Account),
            3 => Some(RepoEventType::Sync),
            _ => None,
        }
    }
}

impl DeepView for RepoEventType {
    type V = RepoEventType;

    open spec fn deep_view(&self) -> RepoEventType {
        *self
    }
}

impl Field for RepoEventType {
    open spec fn encoded(v: RepoEventType) -> Seq<u8> {
        seq![v.number()]
    }

    open spec fn decoded(s: Seq<u8>) -> Option<(RepoEventType, Seq<u8>)> {
        if s.len() == 0 {
            None
        } else {
            match RepoEventType::numbered(s[0]) {
                Some(v) => Some((v, s.skip(1))),
                None => None,
            }
        }
    }

    open spec fn fits(v: RepoEventType) -> bool {
        true
    }

    proof fn round_trip(v: RepoEventType, rest: Seq<u8>) {
        u8::round_trip(v.number(), rest);
    }

    proof fn read_fits(s: Seq<u8>) {
    }

    fn encode(&self, out: &mut Vec<u8>) {
        self.to_u8().encode(out);
    }

    fn decode<'a>(s: &'a [u8]) -> (r: Option<(RepoEventType, &'a [u8])>) {
        match u8::decode(s) {
            None => None,
            Some((n, rest)) => match RepoEventType::from_u8(n) {
                Some(v) => Some((v, rest)),
                None => None,
            },
        }
    }

    fn duplicate(&self) -> (r: RepoEventType) {
        *self
    }
}

/// The status of an account.
#[derive(Debug, Clone, Copy, PartialEq, Eq, Structural)]
pub enum AccountStatus {
    Active,
    Takendown,
    Suspended,
    Deleted,
    Deactivated,
}

impl AccountStatus {
    /// The number of a status in stored rows.
    pub open spec fn number(self) -> u8 {
        match self {
            AccountStatus::Active => 0,
            AccountStatus::Takendown => 1,
            AccountStatus::Suspended => 2,
            AccountStatus::Deleted => 3,
            AccountStatus::Deactivated => 4,
        }
    }

    pub open spec fn numbered(n: u8) -> Option<AccountStatus> {
        if n == 0 {
            Some(AccountStatus::Active)
        } else if n == 1 {
            Some(AccountStatus::Takendown)
        } else if n == 2 {
            Some(AccountStatus::Suspended)
        } else if n == 3 {
            Some(AccountStatus::Deleted)
        } else if n == 4 {
            Some(AccountStatus::Deactivated)
        } else {
            None
        }
    }

    pub fn to_u8(self) -> (r: u8)
        ensures
            r == self.number(),
    {
        match self {
            AccountStatus::Active => 0,
            AccountStatus::Takendown => 1,
            AccountStatus::Suspended => 2,
            AccountStatus::Deleted => 3,
            AccountStatus::Deactivated => 4,
        }
    }

    pub fn from_u8(n: u8) -> (r: Option<AccountStatus>)
        ensures
            r == AccountStatus::numbered(n),
    {
        match n {
            0 => Some(AccountStatus::Active),
            1 => Some(AccountStatus::Takendown),
            2 => Some(AccountStatus::Suspended),
            3 => Some(AccountStatus::Deleted),
            4 => Some(AccountStatus::Deactivated),
            _ => None,
        }
    }
}

impl DeepView for AccountStatus {
    type V = AccountStatus;

    open spec fn deep_view(&self) -> AccountStatus {
        *self
    }
}

impl Field for AccountStatus {
    open spec fn encoded(v: AccountStatus) -> Seq<u8> {
        seq![v.number()]
    }

    open spec fn decoded(s: Seq<u8>) -> Option<(AccountStatus, Seq<u8>)> {
        if s.len() == 0 {
            None
        } else {
            match AccountStatus::numbered(s[0]) {
                Some(v) => Some((v, s.skip(1))),
                None => None,
            }
        }
    }

    open spec fn fits(v: AccountStatus) -> bool {
        true
    }

    proof fn round_trip(v: AccountStatus, rest: Seq<u8>) {
        u8::round_trip(v.number(), rest);
    }

    proof fn read_fits(s: Seq<u8>) {
    }

    fn encode(&self, out: &mut Vec<u8>) {
        self.to_u8().encode(out);
    }

    fn decode<'a>(s: &'a [u8]) -> (r: Option<(AccountStatus, &'a [u8])>) {
        match u8::decode(s) {
            None => None,
            Some((n, rest)) => match AccountStatus::from_u8(n) {
                Some(v) => Some((v, rest)),
                None => None,
            },
        }
    }

    fn duplicate(&self) -> (r: AccountStatus) {
        *self
    }
}

impl AccountStatus {
    pub fn is_active(self) -> (r: bool)
        ensures
            r == (self == AccountStatus::Active),
    {
        matches!(self, AccountStatus::Active)
    }
}

/// A block that an event carries.
#[derive(Debug, PartialEq, Eq)]
pub struct EventBlockInline {
    pub cid_bytes: Vec<u8>,
    pub data: Vec<u8>,
}

#[verifier::ext_equal]
pub struct EventBlock {
    pub cid_bytes: Seq<u8>,
    pub data: Seq<u8>,
}

impl DeepView for EventBlockInline {
    type V = EventBlock;

    open spec fn deep_view(&self) -> EventBlock {
        EventBlock {
            cid_bytes: self.cid_bytes.deep_view(),
            data: self.data.deep_view(),
        }
    }
}

/// The fields of a block in the order in which they are stored.
pub type EventBlockFields = (Vec<u8>, Vec<u8>);

impl EventBlock {
    pub open spec fn fields(self) -> <EventBlockFields as DeepView>::V {
        (self.cid_bytes, self.data)
    }

    pub open spec fn of(f: <EventBlockFields as DeepView>::V) -> EventBlock {
        EventBlock {
            cid_bytes: f.0,
            data: f.1,
        }
    }
}

impl Field for EventBlockInline {
    open spec fn encoded(v: EventBlock) -> Seq<u8> {
        EventBlockFields::encoded(v.fields())
    }

    open spec fn decoded(s: Seq<u8>) -> Option<(EventBlock, Seq<u8>)> {
        match EventBlockFields::decoded(s) {
            Some((f, rest)) => Some((EventBlock::of(f), rest)),
            None => None,
        }
    }

    open spec fn fits(v: EventBlock) -> bool {
        EventBlockFields::fits(v.fields())
    }

    proof fn round_trip(v: EventBlock, rest: Seq<u8>) {
        EventBlockFields::round_trip(v.fields(), rest);
    }

    proof fn read_fits(s: Seq<u8>) {
        EventBlockFields::read_fits(s);
    }

    fn encode(&self, out: &mut Vec<u8>) {
        let fields: EventBlockFields = (self.cid_bytes.duplicate(), self.data.duplicate());
        assert(fields.deep_view() == self.deep_view().fields());
        fields.encode(out);
    }

    fn decode<'a>(s: &'a [u8]) -> (r: Option<(EventBlockInline, &'a [u8])>) {
        match EventBlockFields::decode(s) {
            None => None,
            Some(((cid_bytes, data), rest)) => Some((EventBlockInline { cid_bytes, data }, rest)),
        }
    }

    fn duplicate(&self) -> (r: EventBlockInline) {
        EventBlockInline { cid_bytes: self.cid_bytes.duplicate(), data: self.data.duplicate() }
    }
}

/// An event. Operations are JSON text, and blobs are content identifiers as text.
#[derive(Debug, PartialEq, Eq)]
pub struct SequencedEvent {
    pub seq: SequenceNumber,
    pub did: Did,
    pub created_at: i64,
    pub event_type: RepoEventType,
    pub commit_cid: Option<CidLink>,
    pub prev_cid: Option<CidLink>,
    pub prev_data_cid: Option<CidLink>,
    pub ops: Option<Vec<u8>>,
    pub blobs: Option<Vec<String>>,
    pub blocks: Option<Vec<EventBlockInline>>,
    pub handle: Option<Handle>,
    pub active: Option<bool>,
    pub status: Option<AccountStatus>,
    pub rev: Option<String>,
}

#[verifier::ext_equal]
pub struct Event {
    pub seq: i64,
    pub did: Seq<char>,
    pub created_at: i64,
    pub event_type: RepoEventType,
    pub commit_cid: Option<Seq<u8>>,
    pub prev_cid: Option<Seq<u8>>,
    pub prev_data_cid: Option<Seq<u8>>,
    pub ops: Option<Seq<u8>>,
    pub blobs: Option<Seq<Seq<char>>>,
    pub blocks: Option<Seq<EventBlock>>,
    pub handle: Option<Seq<char>>,
    pub active: Option<bool>,
    pub status: Option<AccountStatus>,
    pub rev: Option<Seq<char>>,
}

impl DeepView for SequencedEvent {
    type V = Event;

    open spec fn deep_view(&self) -> Event {
        Event {
            seq: self.seq.deep_view(),
            did: self.did.deep_view(),
            created_at: self.created_at,
            event_type: self.event_type,
            commit_cid: self.commit_cid.deep_view(),
            prev_cid: self.prev_cid.deep_view(),
            prev_data_cid: self.prev_data_cid.deep_view(),
            ops: self.ops.deep_view(),
            blobs: self.blobs.deep_view(),
            blocks: self.blocks.deep_view(),
            handle: self.handle.deep_view(),
            active: self.active,
            status: self.status,
            rev: self.rev.deep_view(),
        }
    }
}

/// The fields of an event in the order in which they are stored.
pub type EventFields = (SequenceNumber, (Did, (i64, (RepoEventType, (Option<CidLink>, (Option<CidLink>, (Option<CidLink>, (Option<Vec<u8>>, (Option<Vec<String>>, (Option<Vec<EventBlockInline>>, (Option<Handle>, (Option<bool>, (Option<AccountStatus>, Option<String>)))))))))))));

impl Event {
    pub open spec fn fields(self) -> <EventFields as DeepView>::V {
        (self.seq, (self.did, (self.created_at, (self.event_type, (self.commit_cid, (self.prev_cid, (self.prev_data_cid, (self.ops, (self.blobs, (self.blocks, (self.handle, (self.active, (self.status, self.rev)))))))))))))
    }

    pub open spec fn of(f: <EventFields as DeepView>::V) -> Event {
        Event {
            seq: f.0,
            did: (f.1).0,
            created_at: ((f.1).1).0,
            event_type: (((f.1).1).1).0,
            commit_cid: ((((f.1).1).1).1).0,
            prev_cid: (((((f.1).1).1).1).1).0,
            prev_data_cid: ((((((f.1).1).1).1).1).1).0,
            ops: (((((((f.1).1).1).1).1).1).1).0,
            blobs: ((((((((f.1).1).1).1).1).1).1).1).0,
            blocks: (((((((((f.1).1).1).1).1).1).1).1).1).0,
            handle: ((((((((((f.1).1).1).1).1).1).1).1).1).1).0,
            active: (((((((((((f.1).1).1).1).1).1).1).1).1).1).1).0,
            status: ((((((((((((f.1).1).1).1).1).1).1).1).1).1).1).1).0,
            rev: ((((((((((((f.1).1).1).1).1).1).1).1).1).1).1).1).1,
        }
    }
}

impl Field for SequencedEvent {
    open spec fn encoded(v: Event) -> Seq<u8> {
        EventFields::encoded(v.fields())
    }

    open spec fn decoded(s: Seq<u8>) -> Option<(Event, Seq<u8>)> {
        match EventFields::decoded(s) {
            Some((f, rest)) => Some((Event::of(f), rest)),
            None => None,
        }
    }

    open spec fn fits(v: Event) -> bool {
        EventFields::fits(v.fields())
    }

    proof fn round_trip(v: Event, rest: Seq<u8>) {
        EventFields::round_trip(v.fields(), rest);
    }

    proof fn read_fits(s: Seq<u8>) {
        EventFields::read_fits(s);
    }

    fn encode(&self, out: &mut Vec<u8>) {
        let fields: EventFields = (self.seq, (self.did.duplicate(), (self.created_at, (self.event_type, (self.commit_cid.duplicate(), (self.prev_cid.duplicate(), (self.prev_data_cid.duplicate(), (self.ops.duplicate(), (self.blobs.duplicate(), (self.blocks.duplicate(), (self.handle.duplicate(), (self.active, (self.status, self.rev.duplicate())))))))))))));
        assert(fields.deep_view() == self.deep_view().fields());
        fields.encode(out);
    }

    fn decode<'a>(s: &'a [u8]) -> (r: Option<(SequencedEvent, &'a [u8])>) {
        match EventFields::decode(s) {
            None => None,
            Some(((seq, (did, (created_at, (event_type, (commit_cid, (prev_cid, (prev_data_cid, (ops, (blobs, (blocks, (handle, (active, (status, rev))))))))))))), rest)) => Some((SequencedEvent { seq, did, created_at, event_type, commit_cid, prev_cid, prev_data_cid, ops, blobs, blocks, handle, active, status, rev }, rest)),
        }
    }

    fn duplicate(&self) -> (r: SequencedEvent) {
        SequencedEvent { seq: self.seq, did: self.did.duplicate(), created_at: self.created_at, event_type: self.event_type, commit_cid: self.commit_cid.duplicate(), prev_cid: self.prev_cid.duplicate(), prev_data_cid: self.prev_data_cid.duplicate(), ops: self.ops.duplicate(), blobs: self.blobs.duplicate(), blocks: self.blocks.duplicate(), handle: self.handle.duplicate(), active: self.active, status: self.status, rev: self.rev.duplicate() }
    }
}

/// What a commit says of itself.
#[derive(Debug, PartialEq, Eq)]
pub struct CommitEventData {
    pub did: Did,
    pub event_type: RepoEventType,
    pub commit_cid: Option<CidLink>,
    pub prev_cid: Option<CidLink>,
    pub ops: Option<Vec<u8>>,
    pub blobs: Option<Vec<String>>,
    pub blocks: Option<Vec<EventBlockInline>>,
    pub prev_data_cid: Option<CidLink>,
    pub rev: Option<String>,
}

#[verifier::ext_equal]
pub struct CommitEvent {
    pub did: Seq<char>,
    pub event_type: RepoEventType,
    pub commit_cid: Option<Seq<u8>>,
    pub prev_cid: Option<Seq<u8>>,
    pub ops: Option<Seq<u8>>,
    pub blobs: Option<Seq<Seq<char>>>,
    pub blocks: Option<Seq<EventBlock>>,
    pub prev_data_cid: Option<Seq<u8>>,
    pub rev: Option<Seq<char>>,
}

impl DeepView for CommitEventData {
    type V = CommitEvent;

    open spec fn deep_view(&self) -> CommitEvent {
        CommitEvent {
            did: self.did.deep_view(),
            event_type: self.event_type,
            commit_cid: self.commit_cid.deep_view(),
            prev_cid: self.prev_cid.deep_view(),
            ops: self.ops.deep_view(),
            blobs: self.blobs.deep_view(),
            blocks: self.blocks.deep_view(),
            prev_data_cid: self.prev_data_cid.deep_view(),
            rev: self.rev.deep_view(),
        }
    }
}

/// An entry of the event log: an event, and the changes to the store that it stands for.
#[derive(Debug, PartialEq, Eq)]
pub struct LogEntry {
    pub event: SequencedEvent,
    pub mutation_set: Option<Vec<u8>>,
}

#[verifier::ext_equal]
pub struct Entry {
    pub event: Event,
    pub mutation_set: Option<Seq<u8>>,
}

impl DeepView for LogEntry {
    type V = Entry;

    open spec fn deep_view(&self) -> Entry {
        Entry {
            event: self.event.deep_view(),
            mutation_set: self.mutation_set.deep_view(),
        }
    }
}

/// The fields of a log entry in the order in which they are stored.
pub type EntryFields = (SequencedEvent, Option<Vec<u8>>);

impl Entry {
    pub open spec fn fields(self) -> <EntryFields as DeepView>::V {
        (self.event, self.mutation_set)
    }

    pub open spec fn of(f: <EntryFields as DeepView>::V) -> Entry {
        Entry {
            event: f.0,
            mutation_set: f.1,
        }
    }

    /// The stored value.
    #[verifier::opaque]
    pub open spec fn stored(self) -> Seq<u8> {
        framed::<EntryFields>(SCHEMA_VERSION, self.fields())
    }

    /// Reads a stored value.
    #[verifier::opaque]
    pub open spec fn read(s: Seq<u8>) -> Option<Entry> {
        match unframed::<EntryFields>(SCHEMA_VERSION, s) {
            Some(f) => Some(Entry::of(f)),
            None => None,
        }
    }

    /// No field is longer than a machine can hold.
    pub open spec fn fits(self) -> bool {
        EntryFields::fits(self.fields())
    }

    /// A value is read back as it was written.
    pub proof fn round_trip(self)
        requires
            self.fits(),
        ensures
            Entry::read(self.stored()) == Some(self),
    {
        reveal(Entry::stored);
        reveal(Entry::read);
        framed_round_trip::<EntryFields>(SCHEMA_VERSION, self.fields());
    }

    /// A value that was read from stored bytes is no longer than a machine can hold.
    pub proof fn read_fits(s: Seq<u8>)
        requires
            s.len() <= usize::MAX,
        ensures
            Entry::read(s) matches Some(v) ==> v.fits(),
    {
        reveal(Entry::stored);
        reveal(Entry::read);
        unframed_fits::<EntryFields>(SCHEMA_VERSION, s);
    }
}

impl LogEntry {
    pub fn serialize(&self) -> (r: Vec<u8>)
        ensures
            r@ == self.deep_view().stored(),
    {
        proof {
            reveal(Entry::stored);
        }
        let fields: EntryFields = (self.event.duplicate(), self.mutation_set.duplicate());
        assert(fields.deep_view() == self.deep_view().fields());
        frame::<EntryFields>(SCHEMA_VERSION, &fields)
    }

    pub fn deserialize(bytes: &[u8]) -> (r: Option<LogEntry>)
        ensures
            match Entry::read(bytes@) {
                Some(v) => r is Some && r->0.deep_view() == v,
                None => r is None,
            },
    {
        proof {
            reveal(Entry::read);
        }
        match unframe::<EntryFields>(SCHEMA_VERSION, bytes) {
            None => None,
            Some((event, mutation_set)) => Some(
                LogEntry { event, mutation_set },
            ),
        }
    }

    pub fn duplicate(&self) -> (r: LogEntry)
        ensures
            r.deep_view() == self.deep_view(),
    {
        LogEntry { event: self.event.duplicate(), mutation_set: self.mutation_set.duplicate() }
    }
}

} // verus!
