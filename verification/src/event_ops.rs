//! Events of accounts: appended to the event log, indexed in the repository partition, and
//! hidden once they are deleted.

use vstd::prelude::*;

use crate::clock::{is_timestamp, now_millis};
use crate::codec::{same_text, Field};
use crate::encoding::{be8, be_value, exclusive_upper_bound, push_be, read_be8};
use crate::encoding::{read_second_number, second_number, upper_bound};
use crate::errors::{db_error, db_result, db_viewed, metastore_to_db, to_db, viewed, DbError};
use crate::errors::{DbErrorView, MetastoreError};
use crate::event_keys::{did_events_key, did_events_key_bytes, did_events_prefix};
use crate::event_keys::{did_events_prefix_bytes, metastore_cursor_key};
use crate::event_keys::{metastore_cursor_key_bytes, rev_to_seq_key, rev_to_seq_key_bytes};
use crate::event_keys::{rev_to_seq_prefix_bytes, rev_to_seq_user_prefix, seq_tombstone_key};
use crate::event_keys::seq_tombstone_key_bytes;
use crate::eventlog::{after, after_from, after_is_exact, appended, between, entry_at, events_of, first_since};
use crate::eventlog::{in_sequence, limited, max_seq, EventLog};
use crate::events::{AccountStatus, CommitEvent, CommitEventData, Entry, Event, EventBlock};
use crate::events::{EventBlockInline, LogEntry, RepoEventType, SequencedEvent};
use crate::keys::{did_hash, UserHash};
use crate::metastore::Metastore;
use crate::scan::{collect_all, collect_all_items, count_limit, Contribution, Reader};
use crate::store::{lookup, prefix_keys, range_keys, scan, Keyspace, KeyspaceView, Row, RowView};
use crate::store::{Rows, Write, WriteView};
use crate::types::{optional_text, owned_text, CidLink, Did, Handle, SequenceNumber};

verus! {

/// The repository partition and the event log, as the events' keeper.
pub struct EventOps<'a> {
    pub repo_data: &'a mut Keyspace,
    pub log: &'a mut EventLog,
}

#[verifier::ext_equal]
pub struct EventState {
    pub repo_data: KeyspaceView,
    pub log: Seq<Entry>,
}

impl<'a> View for EventOps<'a> {
    type V = EventState;

    open spec fn view(&self) -> EventState {
        EventState { repo_data: self.repo_data@, log: self.log@ }
    }
}

impl Metastore {
    pub fn event_ops<'b>(&'b mut self, log: &'b mut EventLog) -> (r: EventOps<'b>)
        ensures
            *r.repo_data == old(self).repo_data,
            *r.log == *old(log),
            *final(self) == (Metastore { repo_data: *final(r.repo_data), ..*old(self) }),
            *final(log) == *final(r.log),
    {
        EventOps { repo_data: &mut self.repo_data, log }
    }
}

/// The writes that index an event: by its account, by its revision if it has one, and as
/// the last event that was applied.
pub open spec fn index_writes(did: Seq<char>, rev: Option<Seq<char>>, seq: u64) -> Seq<WriteView> {
    let by_did = seq![
        WriteView::Put { key: did_events_key_bytes(did_hash(did), seq), value: Seq::empty() },
    ];
    let by_rev = match rev {
        Some(r) => seq![
            WriteView::Put { key: rev_to_seq_key_bytes(did_hash(did), r), value: be8(seq) },
        ],
        None => Seq::empty(),
    };
    by_did + by_rev + seq![cursor_write(seq)]
}

pub open spec fn cursor_write(seq: u64) -> WriteView {
    WriteView::Put { key: metastore_cursor_key_bytes(), value: be8(seq) }
}

/// The index of an event without the cursor.
pub open spec fn sidecar_writes(did: Seq<char>, rev: Option<Seq<char>>, seq: u64) -> Seq<WriteView> {
    index_writes(did, rev, seq).drop_last()
}

pub open spec fn log_full() -> DbErrorView {
    DbErrorView::Query("event log is full"@)
}

/// An event appended and indexed: its sequence number, and the state after it.
pub open spec fn recorded(
    s: EventState,
    e: Event,
    did: Seq<char>,
    rev: Option<Seq<char>>,
) -> (Result<i64, DbErrorView>, EventState) {
    if max_seq(s.log) == i64::MAX {
        (Err(log_full()), s)
    } else {
        let seq = (max_seq(s.log) + 1) as i64;
        (
            Ok(seq),
            EventState {
                repo_data: s.repo_data.commit(index_writes(did, rev, seq as u64)),
                log: appended(s.log, e, None),
            },
        )
    }
}

/// An event about nothing in particular, before it has a place in the log.
pub open spec fn bare_event(did: Seq<char>, event_type: RepoEventType, now: i64) -> Event {
    Event {
        seq: 0,
        did,
        created_at: now,
        event_type,
        commit_cid: None,
        prev_cid: None,
        prev_data_cid: None,
        ops: None,
        blobs: None,
        blocks: None,
        handle: None,
        active: None,
        status: None,
        rev: None,
    }
}

pub open spec fn commit_event(data: CommitEvent, now: i64) -> Event {
    Event {
        commit_cid: data.commit_cid,
        prev_cid: data.prev_cid,
        prev_data_cid: data.prev_data_cid,
        ops: data.ops,
        blobs: data.blobs,
        blocks: data.blocks,
        rev: data.rev,
        ..bare_event(data.did, data.event_type, now)
    }
}

pub open spec fn identity_event(did: Seq<char>, handle: Option<Seq<char>>, now: i64) -> Event {
    Event { handle, ..bare_event(did, RepoEventType::Identity, now) }
}

pub open spec fn account_event(did: Seq<char>, status: AccountStatus, now: i64) -> Event {
    Event {
        active: Some(status == AccountStatus::Active),
        status: Some(status),
        ..bare_event(did, RepoEventType::Account, now)
    }
}

pub open spec fn sync_event(
    did: Seq<char>,
    commit_cid: Seq<u8>,
    rev: Option<Seq<char>>,
    commit_bytes: Seq<u8>,
    now: i64,
) -> Event {
    Event {
        commit_cid: Some(commit_cid),
        blocks: Some(seq![EventBlock { cid_bytes: commit_cid, data: commit_bytes }]),
        rev,
        ..bare_event(did, RepoEventType::Sync, now)
    }
}

pub open spec fn genesis_event(
    did: Seq<char>,
    commit_cid: Seq<u8>,
    mst_root_cid: Seq<u8>,
    rev: Seq<char>,
    commit_bytes: Seq<u8>,
    mst_root_bytes: Seq<u8>,
    now: i64,
) -> Event {
    Event {
        commit_cid: Some(commit_cid),
        prev_data_cid: Some(mst_root_cid),
        blocks: Some(
            seq![
                EventBlock { cid_bytes: commit_cid, data: commit_bytes },
                EventBlock { cid_bytes: mst_root_cid, data: mst_root_bytes },
            ],
        ),
        rev: Some(rev),
        ..bare_event(did, RepoEventType::Commit, now)
    }
}

fn build_bare_event(did: &Did, event_type: RepoEventType, now: i64) -> (r: SequencedEvent)
    ensures
        r.deep_view() == bare_event(did@, event_type, now),
{
    SequencedEvent {
        seq: SequenceNumber::from_raw(0),
        did: did.duplicate(),
        created_at: now,
        event_type,
        commit_cid: None,
        prev_cid: None,
        prev_data_cid: None,
        ops: None,
        blobs: None,
        blocks: None,
        handle: None,
        active: None,
        status: None,
        rev: None,
    }
}

/// The event of a commit.
pub fn build_commit_event(data: &CommitEventData, now: i64) -> (r: SequencedEvent)
    ensures
        r.deep_view() == commit_event(data.deep_view(), now),
{
    SequencedEvent {
        commit_cid: data.commit_cid.duplicate(),
        prev_cid: data.prev_cid.duplicate(),
        prev_data_cid: data.prev_data_cid.duplicate(),
        ops: data.ops.duplicate(),
        blobs: data.blobs.duplicate(),
        blocks: data.blocks.duplicate(),
        rev: data.rev.duplicate(),
        ..build_bare_event(&data.did, data.event_type, now)
    }
}

/// The event of a change of an account's identity.
pub fn build_identity_event(did: &Did, handle: Option<&Handle>, now: i64) -> (r: SequencedEvent)
    ensures
        r.deep_view() == identity_event(
            did@,
            match handle {
                Some(h) => Some(h@),
                None => None,
            },
            now,
        ),
{
    let handle: Option<Handle> = match handle {
        Some(h) => Some(h.duplicate()),
        None => None,
    };
    SequencedEvent { handle, ..build_bare_event(did, RepoEventType::Identity, now) }
}

/// The event of a change of an account's status.
pub fn build_account_event(did: &Did, status: AccountStatus, now: i64) -> (r: SequencedEvent)
    ensures
        r.deep_view() == account_event(did@, status, now),
{
    SequencedEvent {
        active: Some(status.is_active()),
        status: Some(status),
        ..build_bare_event(did, RepoEventType::Account, now)
    }
}

fn inline_block(cid: &CidLink, data: &[u8]) -> (r: EventBlockInline)
    ensures
        r.deep_view() == (EventBlock { cid_bytes: cid@, data: data@ }),
{
    let r = EventBlockInline { cid_bytes: cid.to_bytes(), data: crate::bytes::copy_bytes(data) };
    assert(r.cid_bytes.deep_view() =~= cid@);
    assert(r.data.deep_view() =~= data@);
    r
}

/// The event that tells readers to start over from a commit.
pub fn build_sync_event(
    did: &Did,
    commit_cid: &CidLink,
    rev: Option<&str>,
    commit_bytes: &[u8],
    now: i64,
) -> (r: SequencedEvent)
    ensures
        r.deep_view() == sync_event(
            did@,
            commit_cid@,
            optional_text(rev),
            commit_bytes@,
            now,
        ),
{
    let blocks: Vec<EventBlockInline> = vec![inline_block(commit_cid, commit_bytes)];
    assert(blocks.deep_view() =~= seq![
        EventBlock { cid_bytes: commit_cid@, data: commit_bytes@ },
    ]);
    SequencedEvent {
        commit_cid: Some(commit_cid.duplicate()),
        blocks: Some(blocks),
        rev: owned_text(rev),
        ..build_bare_event(did, RepoEventType::Sync, now)
    }
}

/// The event of a repository's first commit.
pub fn build_genesis_commit_event(
    did: &Did,
    commit_cid: &CidLink,
    mst_root_cid: &CidLink,
    rev: &str,
    commit_bytes: &[u8],
    mst_root_bytes: &[u8],
    now: i64,
) -> (r: SequencedEvent)
    ensures
        r.deep_view() == genesis_event(
            did@,
            commit_cid@,
            mst_root_cid@,
            rev@,
            commit_bytes@,
            mst_root_bytes@,
            now,
        ),
{
    let blocks: Vec<EventBlockInline> = vec![
        inline_block(commit_cid, commit_bytes),
        inline_block(mst_root_cid, mst_root_bytes),
    ];
    assert(blocks.deep_view() =~= seq![
        EventBlock { cid_bytes: commit_cid@, data: commit_bytes@ },
        EventBlock { cid_bytes: mst_root_cid@, data: mst_root_bytes@ },
    ]);
    SequencedEvent {
        commit_cid: Some(commit_cid.duplicate()),
        prev_data_cid: Some(mst_root_cid.duplicate()),
        blocks: Some(blocks),
        rev: Some(rev.to_owned()),
        ..build_bare_event(did, RepoEventType::Commit, now)
    }
}

/// Whether an event is hidden.
pub open spec fn tombstoned(rows: Rows, seq: i64) -> bool {
    seq >= 0 && rows.contains_key(seq_tombstone_key_bytes(seq as u64))
}

/// The events that are not hidden.
pub open spec fn alive(rows: Rows, events: Seq<Event>) -> Seq<Event>
    decreases events.len(),
{
    if events.len() == 0 {
        Seq::empty()
    } else if tombstoned(rows, events.last().seq) {
        alive(rows, events.drop_last())
    } else {
        alive(rows, events.drop_last()).push(events.last())
    }
}

/// The event with a sequence number, unless it is hidden.
pub open spec fn visible_event(s: EventState, seq: i64) -> Option<Event> {
    if seq < 0 || tombstoned(s.repo_data.rows, seq) {
        None
    } else {
        match entry_at(s.log, seq) {
            Some(e) => Some(e.event),
            None => None,
        }
    }
}

/// The sequence number that an index row names.
pub open spec fn indexed_seq(row: RowView) -> Contribution<u64> {
    match second_number(row.key) {
        Some(seq) => Ok(Some(seq)),
        None => Err(MetastoreError::InvalidInput("corrupt did_events key: missing seq field")),
    }
}

/// The sequence number that an index row names, unless it is the one to keep.
pub open spec fn other_seq(row: RowView, keep: u64) -> Contribution<u64> {
    match indexed_seq(row) {
        Ok(Some(seq)) => Ok(if seq == keep { None } else { Some(seq) }),
        c => c,
    }
}

struct IndexedSeqs {
    keep: Option<u64>,
}

impl Reader for IndexedSeqs {
    type In = Row;

    type Item = u64;

    closed spec fn reading(&self) -> spec_fn(RowView) -> Contribution<u64> {
        |row: RowView|
            match self.keep {
                Some(keep) => other_seq(row, keep),
                None => indexed_seq(row),
            }
    }

    fn read(&self, row: &Row) -> (r: Contribution<u64>) {
        match read_second_number(row.key.as_slice()) {
            None => Err(
                MetastoreError::InvalidInput("corrupt did_events key: missing seq field"),
            ),
            Some(seq) => match self.keep {
                Some(keep) => Ok(
                    if seq == keep {
                        None
                    } else {
                        Some(seq)
                    },
                ),
                None => Ok(Some(seq)),
            },
        }
    }
}

/// The rows that index a user's events.
pub open spec fn did_event_rows(rows: Rows, hash: u64) -> Seq<RowView> {
    scan(rows, prefix_keys(did_events_prefix_bytes(hash)))
}

/// The rows that index a user's events from a sequence number on.
pub open spec fn did_event_rows_from(rows: Rows, hash: u64, start: u64) -> Seq<RowView> {
    scan(
        rows,
        range_keys(
            did_events_key_bytes(hash, start),
            upper_bound(did_events_prefix_bytes(hash))->0,
        ),
    )
}

/// A revision's row, if it belongs to an event that is to go.
pub open spec fn stale_rev_key(row: RowView, gone: Seq<u64>) -> Contribution<Seq<u8>> {
    if row.value.len() != 8 {
        Err(MetastoreError::InvalidInput("corrupt rev_to_seq value"))
    } else if gone.contains(be_value(row.value) as u64) {
        Ok(Some(row.key))
    } else {
        Ok(None)
    }
}

struct StaleRevKeys<'b> {
    gone: &'b Vec<u64>,
}

impl<'b> Reader for StaleRevKeys<'b> {
    type In = Row;

    type Item = Vec<u8>;

    closed spec fn reading(&self) -> spec_fn(RowView) -> Contribution<Seq<u8>> {
        |row: RowView| stale_rev_key(row, self.gone@)
    }

    fn read(&self, row: &Row) -> (r: Contribution<Vec<u8>>) {
        if row.value.len() != 8 {
            return Err(MetastoreError::InvalidInput("corrupt rev_to_seq value"));
        }
        let seq: u64 = read_be8(row.value.as_slice());
        let mut i: usize = 0;
        while i < self.gone.len()
            invariant
                i <= self.gone@.len(),
                row.value@.len() == 8,
                seq == be_value(row.value@),
                forall|k: int| 0 <= k < i ==> self.gone@[k] != seq,
            decreases self.gone.len() - i,
        {
            if self.gone[i] == seq {
                let key: Vec<u8> = crate::bytes::copy_bytes(row.key.as_slice());
                assert(key.deep_view() =~= row.key@);
                assert(self.gone@[i as int] == seq);
                return Ok(Some(key));
            }
            i = i + 1;
        }
        Ok(None)
    }
}

/// The writes that hide events: a tombstone for each, and its index row's removal.
pub open spec fn tombstone_writes(hash: u64, seqs: Seq<u64>) -> Seq<WriteView>
    decreases seqs.len(),
{
    if seqs.len() == 0 {
        Seq::empty()
    } else {
        tombstone_writes(hash, seqs.drop_last()) + seq![
            WriteView::Put { key: seq_tombstone_key_bytes(seqs.last()), value: Seq::empty() },
            WriteView::Remove { key: did_events_key_bytes(hash, seqs.last()) },
        ]
    }
}

pub open spec fn removals(keys: Seq<Seq<u8>>) -> Seq<WriteView> {
    keys.map_values(|k: Seq<u8>| WriteView::Remove { key: k })
}

/// The writes that hide all of a user's events but one, or why it cannot be done.
pub open spec fn deletion_writes(rows: Rows, hash: u64, keep: i64) -> Result<
    Seq<WriteView>,
    MetastoreError,
> {
    if keep < 0 {
        Err(MetastoreError::InvalidInput("invalid keep_seq: negative sequence number"))
    } else {
        match collect_all(
            did_event_rows(rows, hash),
            |row: RowView| other_seq(row, keep as u64),
        ) {
            Err(e) => Err(e),
            Ok(seqs) => match collect_all(
                scan(rows, prefix_keys(rev_to_seq_prefix_bytes(hash))),
                |row: RowView| stale_rev_key(row, seqs),
            ) {
                Err(e) => Err(e),
                Ok(keys) => Ok(tombstone_writes(hash, seqs) + removals(keys)),
            },
        }
    }
}

/// All of a user's events but one hidden: the outcome, and the state after it.
pub open spec fn deletion(s: EventState, did: Seq<char>, keep: i64) -> (
    Result<(), DbErrorView>,
    EventState,
) {
    match deletion_writes(s.repo_data.rows, did_hash(did), keep) {
        Err(e) => (Err(db_error(e)), s),
        Ok(ws) => (Ok(()), EventState { repo_data: s.repo_data.commit(ws), ..s }),
    }
}

/// The largest of some numbers.
pub open spec fn largest(seqs: Seq<u64>) -> Option<u64>
    decreases seqs.len(),
{
    if seqs.len() == 0 {
        None
    } else {
        match largest(seqs.drop_last()) {
            Some(m) => Some(if m > seqs.last() { m } else { seqs.last() }),
            None => Some(seqs.last()),
        }
    }
}

/// All of a user's events but the latest hidden.
pub open spec fn purge(s: EventState, did: Seq<char>) -> (Result<(), DbErrorView>, EventState) {
    match collect_all(
        did_event_rows(s.repo_data.rows, did_hash(did)),
        |row: RowView| indexed_seq(row),
    ) {
        Err(e) => (Err(db_error(e)), s),
        Ok(seqs) => match largest(seqs) {
            None => (Ok(()), s),
            Some(latest) => if latest > i64::MAX {
                (Err(DbErrorView::Query("sequence number out of range"@)), s)
            } else {
                deletion(s, did, latest as i64)
            },
        },
    }
}

/// The sequence number up to which events were applied.
pub open spec fn applied_cursor(rows: Rows) -> Result<Option<u64>, MetastoreError> {
    match lookup(rows, metastore_cursor_key_bytes()) {
        None => Ok(None),
        Some(b) => if b.len() != 8 {
            Err(MetastoreError::InvalidInput("corrupt metastore cursor"))
        } else {
            Ok(Some(be_value(b) as u64))
        },
    }
}

/// The blobs of an event that were not seen before.
pub open spec fn unseen(acc: Seq<Seq<char>>, blobs: Seq<Seq<char>>) -> Seq<Seq<char>>
    decreases blobs.len(),
{
    if blobs.len() == 0 {
        acc
    } else {
        let before = unseen(acc, blobs.drop_last());
        if before.contains(blobs.last()) {
            before
        } else {
            before.push(blobs.last())
        }
    }
}

/// The blobs of some of a user's events, each once, in the order of the events.
pub open spec fn blobs_of(s: EventState, seqs: Seq<u64>) -> Result<Seq<Seq<char>>, MetastoreError>
    decreases seqs.len(),
{
    if seqs.len() == 0 {
        Ok(Seq::empty())
    } else {
        match blobs_of(s, seqs.drop_last()) {
            Err(e) => Err(e),
            Ok(acc) => {
                let seq = seqs.last();
                if s.repo_data.rows.contains_key(seq_tombstone_key_bytes(seq)) {
                    Ok(acc)
                } else if seq > i64::MAX {
                    Err(MetastoreError::InvalidInput("seq exceeds i64::MAX"))
                } else {
                    match entry_at(s.log, seq as i64) {
                        Some(e) => if e.event.rev is Some && e.event.blobs is Some {
                            Ok(unseen(acc, e.event.blobs->0))
                        } else {
                            Ok(acc)
                        },
                        None => Ok(acc),
                    }
                }
            },
        }
    }
}

/// The blobs that a user's events name after a revision.
pub open spec fn blobs_since(s: EventState, did: Seq<char>, rev: Seq<char>) -> Result<
    Seq<Seq<char>>,
    MetastoreError,
> {
    let hash = did_hash(did);
    match lookup(s.repo_data.rows, rev_to_seq_key_bytes(hash, rev)) {
        None => Ok(Seq::empty()),
        Some(b) => if b.len() != 8 {
            Err(MetastoreError::InvalidInput("corrupt rev_to_seq value"))
        } else if be_value(b) == u64::MAX {
            Ok(Seq::empty())
        } else {
            match collect_all(
                did_event_rows_from(s.repo_data.rows, hash, (be_value(b) + 1) as u64),
                |row: RowView| indexed_seq(row),
            ) {
                Err(e) => Err(e),
                Ok(seqs) => blobs_of(s, seqs),
            }
        },
    }
}

/// How many events one recovery batch takes.
pub const RECOVERY_BATCH_SIZE: usize = 4096;

/// The indexes of some events.
pub open spec fn page_writes(page: Seq<Entry>) -> Seq<WriteView>
    decreases page.len(),
{
    if page.len() == 0 {
        Seq::empty()
    } else {
        page_writes(page.drop_last()) + sidecar_writes(
            page.last().event.did,
            page.last().event.rev,
            page.last().event.seq as u64,
        )
    }
}

/// The partition once the indexes of pending events are rebuilt, batch by batch, each batch
/// with the cursor moved to its last event.
pub open spec fn rebuilt(ks: KeyspaceView, pending: Seq<Entry>) -> KeyspaceView
    decreases pending.len(),
{
    if pending.len() == 0 {
        ks
    } else {
        let page = limited(pending, RECOVERY_BATCH_SIZE as nat);
        let after_page = ks.commit(
            page_writes(page).push(cursor_write(page.last().event.seq as u64)),
        );
        rebuilt(after_page, pending.skip(page.len() as int))
    }
}

/// The events that were not applied yet.
pub open spec fn pending_events(s: EventState) -> Result<Seq<Entry>, MetastoreError> {
    match applied_cursor(s.repo_data.rows) {
        Err(e) => Err(e),
        Ok(c) => {
            let cursor = match c {
                Some(n) => n,
                None => 0,
            };
            if max_seq(s.log) <= cursor {
                Ok(Seq::empty())
            } else {
                Ok(after(s.log, cursor as i64))
            }
        },
    }
}

/// The indexes of all pending events rebuilt: how many there were, and the state after it.
pub open spec fn sidecar_recovery(s: EventState) -> (Result<u64, DbErrorView>, EventState) {
    match pending_events(s) {
        Err(e) => (Err(db_error(e)), s),
        Ok(pending) => (
            Ok(pending.len() as u64),
            EventState { repo_data: rebuilt(s.repo_data, pending), ..s },
        ),
    }
}

pub(crate) fn stage_did_event(batch: &mut Vec<Write>, user_hash: UserHash, seq: u64)
    ensures
        final(batch).deep_view() == old(batch).deep_view().push(
            WriteView::Put { key: did_events_key_bytes(user_hash@, seq), value: Seq::empty() },
        ),
{
    batch.push(Write::Put { key: did_events_key(user_hash, seq), value: Vec::new() });
    assert(batch.deep_view() =~= old(batch).deep_view().push(
        WriteView::Put { key: did_events_key_bytes(user_hash@, seq), value: Seq::empty() },
    ));
}

fn number_bytes(seq: u64) -> (r: Vec<u8>)
    ensures
        r@ == be8(seq),
{
    let mut value: Vec<u8> = Vec::new();
    push_be(&mut value, seq, 8);
    assert(value@ =~= be8(seq));
    value
}

pub(crate) fn stage_rev_to_seq(batch: &mut Vec<Write>, user_hash: UserHash, rev: &str, seq: u64)
    ensures
        final(batch).deep_view() == old(batch).deep_view().push(
            WriteView::Put { key: rev_to_seq_key_bytes(user_hash@, rev@), value: be8(seq) },
        ),
{
    batch.push(Write::Put { key: rev_to_seq_key(user_hash, rev), value: number_bytes(seq) });
    assert(batch.deep_view() =~= old(batch).deep_view().push(
        WriteView::Put { key: rev_to_seq_key_bytes(user_hash@, rev@), value: be8(seq) },
    ));
}

/// Stages the index rows of an event, without the cursor.
pub(crate) fn stage_sidecar(batch: &mut Vec<Write>, did: &str, rev: Option<&str>, seq: u64)
    ensures
        final(batch).deep_view() == old(batch).deep_view() + sidecar_writes(
            did@,
            optional_text(rev),
            seq,
        ),
{
    let user_hash: UserHash = UserHash::from_did(did);
    stage_did_event(batch, user_hash, seq);
    if let Some(rev) = rev {
        stage_rev_to_seq(batch, user_hash, rev, seq);
    }
    assert(batch.deep_view() =~= old(batch).deep_view() + sidecar_writes(
        did@,
        optional_text(rev),
        seq,
    ));
}

/// Stages the sequence number up to which events were applied.
pub fn write_last_applied_cursor(batch: &mut Vec<Write>, seq: u64)
    ensures
        final(batch).deep_view() == old(batch).deep_view().push(cursor_write(seq)),
{
    batch.push(Write::Put { key: metastore_cursor_key(), value: number_bytes(seq) });
    assert(batch.deep_view() =~= old(batch).deep_view().push(cursor_write(seq)));
}

/// Stages the index rows of an event and the cursor.
pub(crate) fn stage_index(batch: &mut Vec<Write>, did: &str, rev: Option<&str>, seq: u64)
    ensures
        final(batch).deep_view() == old(batch).deep_view() + index_writes(
            did@,
            optional_text(rev),
            seq,
        ),
{
    stage_sidecar(batch, did, rev, seq);
    write_last_applied_cursor(batch, seq);
    assert(batch.deep_view() =~= old(batch).deep_view() + index_writes(
        did@,
        optional_text(rev),
        seq,
    ));
}

impl<'a> EventOps<'a> {
    /// Appends an event to the log and stages its index rows.
    pub fn append_and_stage_indexes(
        &mut self,
        batch: &mut Vec<Write>,
        event: &SequencedEvent,
        did: &Did,
        rev: Option<&str>,
    ) -> (r: Result<SequenceNumber, DbError>)
        ensures
            db_viewed(r) == recorded(
                old(self)@,
                event.deep_view(),
                did@,
                optional_text(rev),
            ).0,
            final(self)@ == (EventState {
                log: recorded(
                    old(self)@,
                    event.deep_view(),
                    did@,
                    optional_text(rev),
                ).1.log,
                ..old(self)@
            }),
            final(batch).deep_view() == (match r {
                Ok(seq) => old(batch).deep_view() + index_writes(
                    did@,
                    optional_text(rev),
                    seq@ as u64,
                ),
                Err(e) => old(batch).deep_view(),
            }),
            *final(final(self).repo_data) == *final(old(self).repo_data),
            *final(final(self).log) == *final(old(self).log),
    {
        match self.log.append(event, None) {
            None => Err(DbError::Query("event log is full".to_owned())),
            Some(seq) => {
                let n: u64 = seq.as_i64() as u64;
                stage_index(batch, did.as_str(), rev, n);
                Ok(seq)
            },
        }
    }

    /// Appends an event to the log and indexes it.
    pub fn append_and_index(&mut self, event: &SequencedEvent, did: &Did, rev: Option<&str>) -> (r:
        Result<SequenceNumber, DbError>)
        ensures
            (db_viewed(r), final(self)@) == recorded(
                old(self)@,
                event.deep_view(),
                did@,
                optional_text(rev),
            ),
            *final(final(self).repo_data) == *final(old(self).repo_data),
            *final(final(self).log) == *final(old(self).log),
    {
        let mut batch: Vec<Write> = Vec::new();
        assert(batch.deep_view() =~= Seq::empty());
        match self.append_and_stage_indexes(&mut batch, event, did, rev) {
            Err(e) => Err(e),
            Ok(seq) => {
                assert(batch.deep_view() =~= index_writes(
                    did@,
                    optional_text(rev),
                    seq@ as u64,
                ));
                self.repo_data.commit(batch);
                Ok(seq)
            },
        }
    }

    /// Records a commit.
    pub fn insert_commit_event(&mut self, data: &CommitEventData) -> (r: Result<
        SequenceNumber,
        DbError,
    >)
        ensures
            exists|now: i64| #[trigger]
                is_timestamp(now as int) && (db_viewed(r), final(self)@) == recorded(
                    old(self)@,
                    commit_event(data.deep_view(), now),
                    data.did@,
                    data.rev.deep_view(),
                ),
            r matches Ok(seq) ==> ({
                let e = final(self)@.log.last().event;
                &&& e.seq == seq@
                &&& e.did == data.did@
                &&& e.event_type == data.event_type
                &&& e.commit_cid == data.commit_cid.deep_view()
                &&& e.prev_cid == data.prev_cid.deep_view()
                &&& e.prev_data_cid == data.prev_data_cid.deep_view()
                &&& e.ops == data.ops.deep_view()
                &&& e.blobs == data.blobs.deep_view()
                &&& e.blocks == data.blocks.deep_view()
                &&& e.rev == data.rev.deep_view()
            }),
            *final(final(self).repo_data) == *final(old(self).repo_data),
            *final(final(self).log) == *final(old(self).log),
    {
        let now: i64 = now_millis();
        assert(is_timestamp(now as int));
        let event: SequencedEvent = build_commit_event(data, now);
        let rev: Option<&str> = match &data.rev {
            Some(r) => Some(r.as_str()),
            None => None,
        };
        self.append_and_index(&event, &data.did, rev)
    }

    /// Records a change of an account's identity.
    pub fn insert_identity_event(&mut self, did: &Did, handle: Option<&Handle>) -> (r: Result<
        SequenceNumber,
        DbError,
    >)
        ensures
            exists|now: i64| #[trigger]
                is_timestamp(now as int) && (db_viewed(r), final(self)@) == recorded(
                    old(self)@,
                    identity_event(
                        did@,
                        match handle {
                            Some(h) => Some(h@),
                            None => None,
                        },
                        now,
                    ),
                    did@,
                    None,
                ),
            r matches Ok(seq) ==> ({
                let e = final(self)@.log.last().event;
                &&& e.seq == seq@
                &&& e.did == did@
                &&& e.event_type is Identity
                &&& handle matches Some(h) ==> e.handle == Some(h@)
                &&& handle is None ==> e.handle is None
            }),
            *final(final(self).repo_data) == *final(old(self).repo_data),
            *final(final(self).log) == *final(old(self).log),
    {
        let now: i64 = now_millis();
        assert(is_timestamp(now as int));
        let event: SequencedEvent = build_identity_event(did, handle, now);
        self.append_and_index(&event, did, None)
    }

    /// Records a change of an account's status.
    pub fn insert_account_event(&mut self, did: &Did, status: AccountStatus) -> (r: Result<
        SequenceNumber,
        DbError,
    >)
        ensures
            exists|now: i64| #[trigger]
                is_timestamp(now as int) && (db_viewed(r), final(self)@) == recorded(
                    old(self)@,
                    account_event(did@, status, now),
                    did@,
                    None,
                ),
            r matches Ok(seq) ==> ({
                let e = final(self)@.log.last().event;
                &&& e.seq == seq@
                &&& e.did == did@
                &&& e.event_type is Account
                &&& e.status == Some(status)
                &&& e.active == Some(status is Active)
            }),
            *final(final(self).repo_data) == *final(old(self).repo_data),
            *final(final(self).log) == *final(old(self).log),
    {
        let now: i64 = now_millis();
        assert(is_timestamp(now as int));
        let event: SequencedEvent = build_account_event(did, status, now);
        self.append_and_index(&event, did, None)
    }

    /// Records that readers should start over from a commit.
    pub fn insert_sync_event(
        &mut self,
        did: &Did,
        commit_cid: &CidLink,
        rev: Option<&str>,
        commit_bytes: &[u8],
    ) -> (r: Result<SequenceNumber, DbError>)
        ensures
            exists|now: i64| #[trigger]
                is_timestamp(now as int) && (db_viewed(r), final(self)@) == recorded(
                    old(self)@,
                    sync_event(
                        did@,
                        commit_cid@,
                        optional_text(rev),
                        commit_bytes@,
                        now,
                    ),
                    did@,
                    optional_text(rev),
                ),
            r matches Ok(seq) ==> ({
                let e = final(self)@.log.last().event;
                &&& e.seq == seq@
                &&& e.did == did@
                &&& e.event_type is Sync
                &&& e.commit_cid == Some(commit_cid@)
                &&& rev matches Some(r) ==> e.rev == Some(r@)
                &&& rev is None ==> e.rev is None
                &&& e.blocks matches Some(bs) && bs.len() == 1 && bs[0].cid_bytes == commit_cid@
                    && bs[0].data == commit_bytes@
            }),
            *final(final(self).repo_data) == *final(old(self).repo_data),
            *final(final(self).log) == *final(old(self).log),
    {
        let now: i64 = now_millis();
        assert(is_timestamp(now as int));
        let event: SequencedEvent = build_sync_event(did, commit_cid, rev, commit_bytes, now);
        self.append_and_index(&event, did, rev)
    }

    /// Records a repository's first commit.
    pub fn insert_genesis_commit_event(
        &mut self,
        did: &Did,
        commit_cid: &CidLink,
        mst_root_cid: &CidLink,
        rev: &str,
        commit_bytes: &[u8],
        mst_root_bytes: &[u8],
    ) -> (r: Result<SequenceNumber, DbError>)
        ensures
            exists|now: i64| #[trigger]
                is_timestamp(now as int) && (db_viewed(r), final(self)@) == recorded(
                    old(self)@,
                    genesis_event(
                        did@,
                        commit_cid@,
                        mst_root_cid@,
                        rev@,
                        commit_bytes@,
                        mst_root_bytes@,
                        now,
                    ),
                    did@,
                    Some(rev@),
                ),
            r matches Ok(seq) ==> ({
                let e = final(self)@.log.last().event;
                &&& e.seq == seq@
                &&& e.did == did@
                &&& e.event_type is Commit
                &&& e.commit_cid == Some(commit_cid@)
                &&& e.prev_data_cid == Some(mst_root_cid@)
                &&& e.rev == Some(rev@)
                &&& e.blocks matches Some(bs) && bs.len() == 2 && bs[0].cid_bytes == commit_cid@
                    && bs[0].data == commit_bytes@ && bs[1].cid_bytes == mst_root_cid@ && bs[1].data
                    == mst_root_bytes@
            }),
            *final(final(self).repo_data) == *final(old(self).repo_data),
            *final(final(self).log) == *final(old(self).log),
    {
        let now: i64 = now_millis();
        assert(is_timestamp(now as int));
        let event: SequencedEvent = build_genesis_commit_event(
            did,
            commit_cid,
            mst_root_cid,
            rev,
            commit_bytes,
            mst_root_bytes,
            now,
        );
        self.append_and_index(&event, did, Some(rev))
    }

    fn is_tombstoned(&self, seq: u64) -> (r: bool)
        ensures
            r == self@.repo_data.rows.contains_key(seq_tombstone_key_bytes(seq)),
    {
        self.repo_data.get(seq_tombstone_key(seq).as_slice()).is_some()
    }

    fn filter_tombstoned(&self, events: Vec<SequencedEvent>) -> (r: Vec<SequencedEvent>)
        ensures
            r.deep_view() == alive(self@.repo_data.rows, events.deep_view()),
    {
        let ghost all = events.deep_view();
        let ghost rows = self@.repo_data.rows;
        let mut out: Vec<SequencedEvent> = Vec::new();
        let mut i: usize = 0;
        assert(all.take(0) =~= Seq::empty());
        assert(out.deep_view() =~= Seq::empty());
        while i < events.len()
            invariant
                i <= events@.len(),
                all == events.deep_view(),
                rows == self@.repo_data.rows,
                out.deep_view() == alive(rows, all.take(i as int)),
            decreases events.len() - i,
        {
            assert(all.take(i + 1).drop_last() =~= all.take(i as int));
            let hidden: bool = match events[i].seq.as_u64() {
                Some(seq) => self.is_tombstoned(seq),
                None => false,
            };
            if !hidden {
                let ghost before = out.deep_view();
                out.push(events[i].duplicate());
                assert(out.deep_view() =~= before.push(all[i as int]));
            }
            i = i + 1;
        }
        assert(all.take(i as int) =~= all);
        out
    }

    /// The visible events after a sequence number; a limit counts hidden ones too.
    pub fn get_events_since_seq(&self, since: SequenceNumber, limit: Option<i64>) -> (r: Result<
        Vec<SequencedEvent>,
        DbError,
    >)
        ensures
            db_viewed(r) == Ok::<Seq<Event>, DbErrorView>(
                alive(
                    self@.repo_data.rows,
                    events_of(
                        match limit {
                            Some(n) => limited(after(self@.log, since@), count_limit(n)),
                            None => after(self@.log, since@),
                        },
                    ),
                ),
            ),
    {
        Ok(self.filter_tombstoned(self.log.get_events_since_seq(since, limit)))
    }

    /// The visible events between two sequence numbers, both excluded.
    pub fn get_events_in_seq_range(&self, start: SequenceNumber, end: SequenceNumber) -> (r: Result<
        Vec<SequencedEvent>,
        DbError,
    >)
        ensures
            db_viewed(r) == Ok::<Seq<Event>, DbErrorView>(
                alive(self@.repo_data.rows, events_of(between(self@.log, start@, end@))),
            ),
    {
        Ok(self.filter_tombstoned(self.log.get_events_in_seq_range(start, end)))
    }

    /// The event with a sequence number, unless it is hidden.
    pub fn get_event_by_seq(&self, seq: SequenceNumber) -> (r: Result<
        Option<SequencedEvent>,
        DbError,
    >)
        ensures
            db_viewed(r) == Ok::<Option<Event>, DbErrorView>(visible_event(self@, seq@)),
    {
        match seq.as_u64() {
            None => Ok(None),
            Some(n) => {
                if self.is_tombstoned(n) {
                    Ok(None)
                } else {
                    Ok(self.log.get_event_by_seq(seq))
                }
            },
        }
    }

    /// The visible events after a cursor; the limit counts hidden ones too.
    pub fn get_events_since_cursor(&self, cursor: SequenceNumber, limit: i64) -> (r: Result<
        Vec<SequencedEvent>,
        DbError,
    >)
        ensures
            db_viewed(r) == Ok::<Seq<Event>, DbErrorView>(
                alive(
                    self@.repo_data.rows,
                    events_of(limited(after(self@.log, cursor@), count_limit(limit))),
                ),
            ),
    {
        Ok(self.filter_tombstoned(self.log.get_events_since_cursor(cursor, limit)))
    }

    /// The last sequence number.
    pub fn get_max_seq(&self) -> (r: SequenceNumber)
        ensures
            r@ == max_seq(self@.log),
    {
        self.log.get_max_seq()
    }

    /// The sequence number of the first event at or after a time.
    pub fn get_min_seq_since(&self, since_ms: i64) -> (r: Result<Option<SequenceNumber>, DbError>)
        ensures
            db_viewed(r) == Ok::<Option<i64>, DbErrorView>(first_since(self@.log, since_ms)),
    {
        Ok(self.log.get_min_seq_since(since_ms))
    }

    fn scan_did_events(&self, user_hash: UserHash, start: u64) -> (r: Result<
        Vec<u64>,
        MetastoreError,
    >)
        ensures
            viewed(r) == collect_all(
                did_event_rows_from(self@.repo_data.rows, user_hash@, start),
                |row: RowView| indexed_seq(row),
            ),
    {
        let lo: Vec<u8> = did_events_key(user_hash, start);
        let prefix: Vec<u8> = did_events_prefix(user_hash);
        proof {
            crate::encoding::upper_bound_exists(prefix@);
        }
        let hi: Vec<u8> = match exclusive_upper_bound(prefix.as_slice()) {
            Some(u) => u,
            None => Vec::new(),
        };
        let rows: Vec<Row> = self.repo_data.range(lo.as_slice(), hi.as_slice());
        let reader = IndexedSeqs { keep: None };
        assert(reader.reading() =~= |row: RowView| indexed_seq(row));
        collect_all_items(rows.as_slice(), &reader)
    }

    /// The blobs that a user's visible events name after a revision, each once.
    pub fn get_blob_cids_since_rev(&self, did: &Did, since_rev: &str) -> (r: Result<
        Vec<String>,
        DbError,
    >)
        ensures
            db_viewed(r) == db_result(blobs_since(self@, did@, since_rev@)),
    {
        let user_hash: UserHash = UserHash::from_did(did.as_str());
        let key: Vec<u8> = rev_to_seq_key(user_hash, since_rev);
        let none: Vec<String> = Vec::new();
        assert(none.deep_view() =~= Seq::empty());
        let since: u64 = match self.repo_data.get(key.as_slice()) {
            None => {
                return Ok(none);
            },
            Some(b) => {
                if b.len() != 8 {
                    return Err(
                        metastore_to_db(MetastoreError::InvalidInput("corrupt rev_to_seq value")),
                    );
                }
                read_be8(b.as_slice())
            },
        };
        if since == u64::MAX {
            return Ok(none);
        }
        let seqs: Vec<u64> = match self.scan_did_events(user_hash, since + 1) {
            Ok(seqs) => seqs,
            Err(e) => {
                return Err(metastore_to_db(e));
            },
        };
        assert(seqs.deep_view() =~= seqs@);
        to_db(self.collect_blobs(&seqs))
    }

    fn collect_blobs(&self, seqs: &Vec<u64>) -> (r: Result<Vec<String>, MetastoreError>)
        ensures
            viewed(r) == blobs_of(self@, seqs@),
    {
        let mut acc: Vec<String> = Vec::new();
        let ghost s = self@;
        let mut i: usize = 0;
        assert(acc.deep_view() =~= Seq::empty());
        assert(seqs@.take(0) =~= Seq::empty());
        while i < seqs.len()
            invariant
                i <= seqs@.len(),
                s == self@,
                blobs_of(s, seqs@.take(i as int)) == Ok::<Seq<Seq<char>>, MetastoreError>(
                    acc.deep_view(),
                ),
            decreases seqs.len() - i,
        {
            assert(seqs@.take(i + 1).drop_last() =~= seqs@.take(i as int));
            let seq: u64 = seqs[i];
            if !self.is_tombstoned(seq) {
                if seq > i64::MAX as u64 {
                    proof {
                        blobs_of_error(s, seqs@, i + 1);
                    }
                    return Err(MetastoreError::InvalidInput("seq exceeds i64::MAX"));
                }
                match self.log.get_event_by_seq(SequenceNumber::from_raw(seq as i64)) {
                    Some(event) => {
                        if event.rev.is_some() {
                            if let Some(blobs) = event.blobs {
                                add_unseen(&mut acc, blobs);
                            }
                        }
                    },
                    None => {},
                }
            }
            i = i + 1;
        }
        assert(seqs@.take(i as int) =~= seqs@);
        Ok(acc)
    }

    /// Hides all of an account's events but one.
    pub fn delete_sequences_except(&mut self, did: &Did, keep_seq: SequenceNumber) -> (r: Result<
        (),
        DbError,
    >)
        ensures
            (db_viewed(r), final(self)@) == deletion(old(self)@, did@, keep_seq@),
            *final(final(self).repo_data) == *final(old(self).repo_data),
            *final(final(self).log) == *final(old(self).log),
    {
        let keep: u64 = match keep_seq.as_u64() {
            Some(k) => k,
            None => {
                return Err(
                    metastore_to_db(
                        MetastoreError::InvalidInput("invalid keep_seq: negative sequence number"),
                    ),
                );
            },
        };
        let user_hash: UserHash = UserHash::from_did(did.as_str());
        let rows: Vec<Row> = self.repo_data.prefix(did_events_prefix(user_hash).as_slice());
        let reader = IndexedSeqs { keep: Some(keep) };
        assert(reader.reading() =~= |row: RowView| other_seq(row, keep));
        let seqs: Vec<u64> = match collect_all_items(rows.as_slice(), &reader) {
            Ok(seqs) => seqs,
            Err(e) => {
                return Err(metastore_to_db(e));
            },
        };
        assert(seqs.deep_view() =~= seqs@);
        let rev_rows: Vec<Row> = self.repo_data.prefix(
            rev_to_seq_user_prefix(user_hash).as_slice(),
        );
        let stale = StaleRevKeys { gone: &seqs };
        let keys: Vec<Vec<u8>> = match collect_all_items(rev_rows.as_slice(), &stale) {
            Ok(keys) => keys,
            Err(e) => {
                return Err(metastore_to_db(e));
            },
        };
        let mut batch: Vec<Write> = Vec::new();
        stage_tombstones(&mut batch, user_hash, &seqs);
        stage_removals(&mut batch, &keys);
        assert(batch.deep_view() =~= tombstone_writes(user_hash@, seqs@) + removals(
            keys.deep_view(),
        ));
        self.repo_data.commit(batch);
        Ok(())
    }

    /// Hides all of an account's events but the latest.
    pub fn purge_did_events_keeping_latest(&mut self, did: &Did) -> (r: Result<(), DbError>)
        ensures
            (db_viewed(r), final(self)@) == purge(old(self)@, did@),
            *final(final(self).repo_data) == *final(old(self).repo_data),
            *final(final(self).log) == *final(old(self).log),
    {
        let user_hash: UserHash = UserHash::from_did(did.as_str());
        let rows: Vec<Row> = self.repo_data.prefix(did_events_prefix(user_hash).as_slice());
        let reader = IndexedSeqs { keep: None };
        assert(reader.reading() =~= |row: RowView| indexed_seq(row));
        let seqs: Vec<u64> = match collect_all_items(rows.as_slice(), &reader) {
            Ok(seqs) => seqs,
            Err(e) => {
                return Err(metastore_to_db(e));
            },
        };
        assert(seqs.deep_view() =~= seqs@);
        match find_largest(&seqs) {
            None => Ok(()),
            Some(latest) => {
                if latest > i64::MAX as u64 {
                    Err(DbError::Query("sequence number out of range".to_owned()))
                } else {
                    self.delete_sequences_except(did, SequenceNumber::from_raw(latest as i64))
                }
            },
        }
    }

    /// The sequence number up to which events were applied.
    pub fn read_last_applied_cursor(&self) -> (r: Result<Option<u64>, DbError>)
        ensures
            db_viewed(r) == db_result(applied_cursor(self@.repo_data.rows)),
    {
        match self.repo_data.get(metastore_cursor_key().as_slice()) {
            None => Ok(None),
            Some(b) => {
                if b.len() != 8 {
                    return Err(
                        metastore_to_db(MetastoreError::InvalidInput("corrupt metastore cursor")),
                    );
                }
                Ok(Some(read_be8(b.as_slice())))
            },
        }
    }

    /// Moves the cursor.
    pub fn write_last_applied_cursor_direct(&mut self, seq: u64) -> (r: Result<(), DbError>)
        ensures
            r is Ok,
            final(self)@ == (EventState {
                repo_data: old(self)@.repo_data.commit(seq![cursor_write(seq)]),
                ..old(self)@
            }),
            *final(final(self).repo_data) == *final(old(self).repo_data),
            *final(final(self).log) == *final(old(self).log),
    {
        let mut batch: Vec<Write> = Vec::new();
        write_last_applied_cursor(&mut batch, seq);
        assert(batch.deep_view() =~= seq![cursor_write(seq)]);
        self.repo_data.commit(batch);
        Ok(())
    }

    /// Rebuilds the indexes of the events after the cursor, and says how many there were.
    pub fn recover_sidecar_indexes(&mut self) -> (r: Result<u64, DbError>)
        ensures
            (db_viewed(r), final(self)@) == sidecar_recovery(old(self)@),
            *final(final(self).repo_data) == *final(old(self).repo_data),
            *final(final(self).log) == *final(old(self).log),
    {
        let cursor: u64 = match self.read_last_applied_cursor() {
            Err(e) => {
                return Err(e);
            },
            Ok(Some(n)) => n,
            Ok(None) => 0,
        };
        let last: i64 = self.log.get_max_seq().as_i64();
        if last as u64 <= cursor {
            return Ok(0);
        }
        let bound: usize = self.log.entries().len();
        let ghost s = self@;
        let ghost pending = after(s.log, cursor as i64);
        let mut cursor: i64 = cursor as i64;
        let mut total: u64 = 0;
        let ghost mut left = pending;
        proof {
            after_is_exact(s.log, cursor);
        }
        loop
            invariant
                in_sequence(s.log),
                self@.log == s.log,
                left == after(s.log, cursor),
                rebuilt(s.repo_data, pending) == rebuilt(self@.repo_data, left),
                total + left.len() == pending.len(),
                pending.len() <= s.log.len(),
                s.log.len() == bound,
                *final(self.repo_data) == *final(old(self).repo_data),
                *final(self.log) == *final(old(self).log),
                old(self)@ == s,
                pending_events(s) == Ok::<Seq<Entry>, MetastoreError>(pending),
            decreases left.len(),
        {
            let page: Vec<LogEntry> = self.log.entries_after(
                SequenceNumber::from_raw(cursor),
                RECOVERY_BATCH_SIZE,
            );
            let n: usize = page.len();
            if n == 0 {
                return Ok(total);
            }
            let ghost pv = page.deep_view();
            let mut batch: Vec<Write> = Vec::new();
            stage_page(&mut batch, &page);
            let high: i64 = page[n - 1].event.seq.as_i64();
            proof {
                after_is_exact(s.log, cursor);
                assert(pv == limited(left, RECOVERY_BATCH_SIZE as nat));
                assert(left[n - 1] == pv[n - 1]);
                assert(high == left[n - 1].event.seq && high > 0);
            }
            write_last_applied_cursor(&mut batch, high as u64);
            assert(batch.deep_view() =~= page_writes(pv).push(cursor_write(high as u64)));
            self.repo_data.commit(batch);
            proof {
                rest_after_page(s.log, cursor, n as int);
                left = after(s.log, high);
            }
            total = total + n as u64;
            cursor = high;
            if n < RECOVERY_BATCH_SIZE {
                assert(left.len() == 0);
                assert(rebuilt(s.repo_data, pending) == rebuilt(self@.repo_data, left));
                assert(rebuilt(self@.repo_data, left) == self@.repo_data);
                return Ok(total);
            }
        }
    }
}

/// What comes after the last event of a page is what the page left over.
pub proof fn rest_after_page(log: Seq<Entry>, cursor: i64, n: int)
    requires
        in_sequence(log),
        0 < n <= after(log, cursor).len(),
    ensures
        after(log, after(log, cursor)[n - 1].event.seq) == after(log, cursor).skip(n),
{
    after_is_exact(log, cursor);
    let left = after(log, cursor);
    let p = log.len() - left.len();
    let high = left[n - 1].event.seq;
    let q = p + n;
    assert(left[n - 1] == log[q - 1]);
    assert forall|i: int| 0 <= i < q implies (#[trigger] log[i]).event.seq <= high by {
        if i < q - 1 {
            assert(log[i].event.seq < log[q - 1].event.seq);
        }
    }
    assert forall|i: int| q <= i < log.len() implies (#[trigger] log[i]).event.seq > high by {
        assert(log[q - 1].event.seq < log[i].event.seq);
    }
    after_from(log, high, q);
    assert(log.skip(p).skip(n) =~= log.skip(q));
}

fn stage_page(batch: &mut Vec<Write>, page: &Vec<LogEntry>)
    ensures
        final(batch).deep_view() == old(batch).deep_view() + page_writes(page.deep_view()),
{
    let ghost all = page.deep_view();
    let ghost start = batch.deep_view();
    let mut i: usize = 0;
    assert(all.take(0) =~= Seq::empty());
    assert(batch.deep_view() =~= start + page_writes(all.take(0)));
    while i < page.len()
        invariant
            i <= page@.len(),
            all == page.deep_view(),
            batch.deep_view() == start + page_writes(all.take(i as int)),
        decreases page.len() - i,
    {
        let entry: &LogEntry = &page[i];
        assert(all.take(i + 1).drop_last() =~= all.take(i as int));
        let rev: Option<&str> = match &entry.event.rev {
            Some(r) => Some(r.as_str()),
            None => None,
        };
        let ghost before = batch.deep_view();
        stage_sidecar(batch, entry.event.did.as_str(), rev, entry.event.seq.as_i64() as u64);
        proof {
            let e = all[i as int].event;
            let w = sidecar_writes(e.did, e.rev, e.seq as u64);
            assert(batch.deep_view() == before + w);
            assert(before + w =~= start + (page_writes(all.take(i as int)) + w));
        }
        i = i + 1;
    }
    assert(all.take(i as int) =~= all);
}

fn stage_tombstones(batch: &mut Vec<Write>, user_hash: UserHash, seqs: &Vec<u64>)
    ensures
        final(batch).deep_view() == old(batch).deep_view() + tombstone_writes(user_hash@, seqs@),
{
    let ghost start = batch.deep_view();
    let mut i: usize = 0;
    assert(seqs@.take(0) =~= Seq::empty());
    assert(batch.deep_view() =~= start + tombstone_writes(user_hash@, seqs@.take(0)));
    while i < seqs.len()
        invariant
            i <= seqs@.len(),
            batch.deep_view() == start + tombstone_writes(user_hash@, seqs@.take(i as int)),
        decreases seqs.len() - i,
    {
        assert(seqs@.take(i + 1).drop_last() =~= seqs@.take(i as int));
        let ghost before = batch.deep_view();
        batch.push(Write::Put { key: seq_tombstone_key(seqs[i]), value: Vec::new() });
        batch.push(Write::Remove { key: did_events_key(user_hash, seqs[i]) });
        proof {
            let ws = seq![
                WriteView::Put { key: seq_tombstone_key_bytes(seqs@[i as int]), value: Seq::empty() },
                WriteView::Remove { key: did_events_key_bytes(user_hash@, seqs@[i as int]) },
            ];
            assert(batch.deep_view() =~= before + ws);
            assert(before + ws =~= start + (tombstone_writes(user_hash@, seqs@.take(i as int)) + ws));
        }
        i = i + 1;
    }
    assert(seqs@.take(i as int) =~= seqs@);
}

/// Stages the removal of rows.
pub(crate) fn stage_removals(batch: &mut Vec<Write>, keys: &Vec<Vec<u8>>)
    ensures
        final(batch).deep_view() == old(batch).deep_view() + removals(keys.deep_view()),
{
    let ghost start = batch.deep_view();
    let ghost all = keys.deep_view();
    let mut i: usize = 0;
    assert(batch.deep_view() =~= start + removals(all.take(0)));
    while i < keys.len()
        invariant
            i <= keys@.len(),
            all == keys.deep_view(),
            batch.deep_view() == start + removals(all.take(i as int)),
        decreases keys.len() - i,
    {
        let key: Vec<u8> = crate::bytes::copy_bytes(keys[i].as_slice());
        assert(all[i as int] =~= keys@[i as int]@);
        let ghost before = batch.deep_view();
        batch.push(Write::Remove { key });
        assert(batch.deep_view() =~= before.push(WriteView::Remove { key: all[i as int] }));
        assert(removals(all.take(i + 1)) =~= removals(all.take(i as int)).push(
            WriteView::Remove { key: all[i as int] },
        ));
        assert(batch.deep_view() =~= start + removals(all.take(i + 1)));
        i = i + 1;
    }
    assert(all.take(i as int) =~= all);
}

fn find_largest(seqs: &Vec<u64>) -> (r: Option<u64>)
    ensures
        r == largest(seqs@),
{
    let mut best: Option<u64> = None;
    let mut i: usize = 0;
    while i < seqs.len()
        invariant
            i <= seqs@.len(),
            best == largest(seqs@.take(i as int)),
        decreases seqs.len() - i,
    {
        assert(seqs@.take(i + 1).drop_last() =~= seqs@.take(i as int));
        best = match best {
            Some(m) => Some(
                if m > seqs[i] {
                    m
                } else {
                    seqs[i]
                },
            ),
            None => Some(seqs[i]),
        };
        i = i + 1;
    }
    assert(seqs@.take(i as int) =~= seqs@);
    best
}

fn add_unseen(acc: &mut Vec<String>, blobs: Vec<String>)
    ensures
        final(acc).deep_view() == unseen(old(acc).deep_view(), blobs.deep_view()),
{
    let ghost all = blobs.deep_view();
    let ghost start = acc.deep_view();
    let mut i: usize = 0;
    assert(all.take(0) =~= Seq::empty());
    while i < blobs.len()
        invariant
            i <= blobs@.len(),
            all == blobs.deep_view(),
            acc.deep_view() == unseen(start, all.take(i as int)),
        decreases blobs.len() - i,
    {
        assert(all.take(i + 1).drop_last() =~= all.take(i as int));
        let mut seen: bool = false;
        let mut j: usize = 0;
        while j < acc.len() && !seen
            invariant
                j <= acc@.len(),
                i < blobs@.len(),
                seen ==> acc.deep_view().contains(blobs@[i as int]@),
                !seen ==> forall|k: int| 0 <= k < j ==> (#[trigger] acc@[k])@ != blobs@[i as int]@,
            decreases acc.len() - j,
        {
            if same_text(acc[j].as_str(), blobs[i].as_str()) {
                assert(acc.deep_view()[j as int] == blobs@[i as int]@);
                seen = true;
            }
            j = j + 1;
        }
        if !seen {
            proof {
                if acc.deep_view().contains(blobs@[i as int]@) {
                    let k = choose|k: int|
                        0 <= k < acc.deep_view().len() && acc.deep_view()[k] == blobs@[i as int]@;
                    assert(acc@[k]@ != blobs@[i as int]@);
                }
            }
            let ghost before = acc.deep_view();
            acc.push(blobs[i].clone());
            assert(acc.deep_view() =~= before.push(all[i as int]));
        }
        i = i + 1;
    }
    assert(all.take(i as int) =~= all);
}

proof fn blobs_of_error(s: EventState, seqs: Seq<u64>, n: int)
    requires
        0 <= n <= seqs.len(),
        blobs_of(s, seqs.take(n)) is Err,
    ensures
        blobs_of(s, seqs) == blobs_of(s, seqs.take(n)),
    decreases seqs.len() - n,
{
    if n < seqs.len() {
        assert(seqs.take(n + 1).drop_last() =~= seqs.take(n));
        blobs_of_error(s, seqs, n + 1);
    } else {
        assert(seqs.take(n) =~= seqs);
    }
}

} // verus!
