//! Bringing the store up to date with the event log after a crash.

use vstd::prelude::*;
use vstd::string::*;

use crate::codec::Field;
use crate::errors::{db_error, db_viewed, DbError, DbErrorView, MetastoreError};
use crate::event_ops::{cursor_write, pending_events, rest_after_page, sidecar_writes, stage_sidecar};
use crate::event_ops::{write_last_applied_cursor, EventOps, EventState, RECOVERY_BATCH_SIZE};
use crate::eventlog::{after, after_is_exact, in_sequence, limited};
use crate::events::{Entry, LogEntry};
use crate::keys::{did_hash, UserHash};
use crate::recovery::{backlink_writes, replay_mutation_set, repo_writes, CommitMutationSet};
use crate::recovery::MutationSet;
use crate::repo_meta::{repo_meta_key, repo_meta_key_bytes, RepoMeta, RepoMetaValue, RepoStatus};
use crate::store::{lookup, Keyspace, KeyspaceView, Rows, Write};
use crate::text::{decimal, push_decimal};
use crate::types::SequenceNumber;

verus! {

/// What recovery works on: the partitions that commits change.
#[verifier::ext_equal]
pub struct ReplayState {
    pub repo_data: KeyspaceView,
    pub indexes: KeyspaceView,
}

/// The repository row that a replay starts from: the one that is there, or a bare one.
pub open spec fn base_meta(rows: Rows, did: Seq<char>) -> RepoMeta {
    let bare = RepoMeta {
        repo_root_cid: Seq::empty(),
        repo_rev: Seq::empty(),
        handle: Seq::empty(),
        status: RepoStatus::Active,
        deactivated_at_ms: None,
        takedown_ref: None,
        did: Some(did),
    };
    match lookup(rows, repo_meta_key_bytes(did_hash(did))) {
        None => bare,
        Some(b) => match RepoMeta::read(b) {
            Some(meta) => meta,
            None => bare,
        },
    }
}

pub open spec fn corrupt_set_text(seq: i64) -> Seq<char> {
    "corrupt CommitMutationSet at seq "@ + decimal(seq as nat)
}

/// One event replayed: its index rows, the changes of its commit, and the cursor.
#[verifier::opaque]
pub open spec fn replayed(s: ReplayState, e: Entry) -> Result<ReplayState, DbErrorView> {
    let seq = e.event.seq as u64;
    let index = sidecar_writes(e.event.did, e.event.rev, seq);
    match e.mutation_set {
        None => Ok(
            ReplayState { repo_data: s.repo_data.commit(index.push(cursor_write(seq))), ..s },
        ),
        Some(b) => match MutationSet::read(b) {
            None => Err(DbErrorView::Query(corrupt_set_text(e.event.seq))),
            Some(ms) => {
                let hash = did_hash(e.event.did);
                match backlink_writes(s.indexes.rows, hash, ms) {
                    Err(e) => Err(DbErrorView::Query(e.text())),
                    Ok(links) => Ok(
                        ReplayState {
                            repo_data: s.repo_data.commit(
                                (index + repo_writes(
                                    hash,
                                    base_meta(s.repo_data.rows, e.event.did),
                                    ms,
                                )).push(cursor_write(seq)),
                            ),
                            indexes: s.indexes.commit(links),
                        },
                    ),
                }
            },
        },
    }
}

/// Events replayed one after another, each for itself. The first that cannot be replayed
/// ends the recovery; those before it stay.
pub open spec fn replay_all(s: ReplayState, pending: Seq<Entry>) -> (
    Result<(), DbErrorView>,
    ReplayState,
)
    decreases pending.len(),
{
    if pending.len() == 0 {
        (Ok(()), s)
    } else {
        match replayed(s, pending[0]) {
            Err(e) => (Err(e), s),
            Ok(t) => replay_all(t, pending.skip(1)),
        }
    }
}

/// The recovery of all events after the cursor: how many there were, and the partitions
/// after it.
pub open spec fn mutation_recovery(s: EventState, indexes: KeyspaceView) -> (
    Result<u64, DbErrorView>,
    ReplayState,
) {
    let start = ReplayState { repo_data: s.repo_data, indexes };
    match pending_events(s) {
        Err(e) => (Err(db_error(e)), start),
        Ok(pending) => {
            let (outcome, end) = replay_all(start, pending);
            match outcome {
                Ok(_) => (Ok(pending.len() as u64), end),
                Err(e) => (Err(e), end),
            }
        },
    }
}

/// Replaying events is replaying the first of them and then the others.
pub(crate) proof fn replay_all_concat(s: ReplayState, a: Seq<Entry>, b: Seq<Entry>)
    ensures
        replay_all(s, a + b) == (match replay_all(s, a).0 {
            Ok(_) => replay_all(replay_all(s, a).1, b),
            Err(e) => replay_all(s, a),
        }),
    decreases a.len(),
{
    if a.len() == 0 {
        assert(a + b =~= b);
    } else {
        assert((a + b).skip(1) =~= a.skip(1) + b);
        if let Ok(t) = replayed(s, a[0]) {
            replay_all_concat(t, a.skip(1), b);
        }
    }
}

fn replay_event(repo_data: &mut Keyspace, indexes: &mut Keyspace, entry: &LogEntry) -> (r: Result<
    (),
    DbError,
>)
    requires
        entry.event.seq@ >= 0,
    ensures
        match replayed(
            ReplayState { repo_data: old(repo_data)@, indexes: old(indexes)@ },
            entry.deep_view(),
        ) {
            Ok(t) => r is Ok && final(repo_data)@ == t.repo_data && final(indexes)@ == t.indexes,
            Err(e) => r is Err && r->Err_0@ == e && final(repo_data)@ == old(repo_data)@ && final(
                indexes)@ == old(indexes)@,
        },
{
    let ghost s = ReplayState { repo_data: repo_data@, indexes: indexes@ };
    let ghost ev = entry.deep_view();
    proof {
        reveal(replayed);
    }
    let seq: u64 = entry.event.seq.as_i64() as u64;
    let rev: Option<&str> = match &entry.event.rev {
        Some(r) => Some(r.as_str()),
        None => None,
    };
    let mut batch: Vec<Write> = Vec::new();
    stage_sidecar(&mut batch, entry.event.did.as_str(), rev, seq);
    let ghost index = sidecar_writes(ev.event.did, ev.event.rev, seq);
    assert(batch.deep_view() =~= index);
    match &entry.mutation_set {
        None => {
            write_last_applied_cursor(&mut batch, seq);
            repo_data.commit(batch);
            Ok(())
        },
        Some(b) => {
            assert(b.deep_view() =~= b@);
            let ms: CommitMutationSet = match CommitMutationSet::deserialize(b.as_slice()) {
                Some(ms) => ms,
                None => {
                    let mut m: String = "corrupt CommitMutationSet at seq ".to_owned();
                    push_decimal(&mut m, seq);
                    return Err(DbError::Query(m));
                },
            };
            let user_hash: UserHash = UserHash::from_did(entry.event.did.as_str());
            let stored: Option<RepoMetaValue> = match repo_data.get(
                repo_meta_key(user_hash).as_slice(),
            ) {
                Some(raw) => RepoMetaValue::deserialize(raw.as_slice()),
                None => None,
            };
            let meta: RepoMetaValue = match stored {
                Some(meta) => meta,
                None => {
                    let bare = RepoMetaValue {
                        repo_root_cid: Vec::new(),
                        repo_rev: String::new(),
                        handle: String::new(),
                        status: RepoStatus::Active,
                        deactivated_at_ms: None,
                        takedown_ref: None,
                        did: Some(entry.event.did.as_str().to_owned()),
                    };
                    assert(bare.repo_root_cid.deep_view() =~= Seq::empty());
                    assert(bare.repo_rev@ =~= Seq::<char>::empty());
                    assert(bare.handle@ =~= Seq::<char>::empty());
                    bare
                },
            };
            assert(meta.deep_view() == base_meta(s.repo_data.rows, ev.event.did));
            let mut links: Vec<Write> = Vec::new();
            let staged = replay_mutation_set(&mut batch, &mut links, &*indexes, user_hash, meta, &ms);
            match staged {
                Err(e) => {
                    return Err(DbError::Query(e.message()));
                },
                Ok(()) => {},
            }
            assert(links.deep_view() =~= backlink_writes(
                s.indexes.rows,
                user_hash@,
                ms.deep_view(),
            )->Ok_0);
            write_last_applied_cursor(&mut batch, seq);
            repo_data.commit(batch);
            indexes.commit(links);
            Ok(())
        },
    }
}

fn replay_page(repo_data: &mut Keyspace, indexes: &mut Keyspace, page: &Vec<LogEntry>) -> (r: Result<
    (),
    DbError,
>)
    requires
        in_sequence(page.deep_view()),
    ensures
        ({
            let (outcome, end) = replay_all(
                ReplayState { repo_data: old(repo_data)@, indexes: old(indexes)@ },
                page.deep_view(),
            );
            &&& final(repo_data)@ == end.repo_data
            &&& final(indexes)@ == end.indexes
            &&& db_viewed(r) == outcome
        }),
{
    let ghost all = page.deep_view();
    let ghost start = ReplayState { repo_data: repo_data@, indexes: indexes@ };
    let mut i: usize = 0;
    assert(all.skip(0) =~= all);
    while i < page.len()
        invariant
            i <= page@.len(),
            all == page.deep_view(),
            in_sequence(all),
            start == (ReplayState { repo_data: old(repo_data)@, indexes: old(indexes)@ }),
            replay_all(start, all) == replay_all(
                ReplayState { repo_data: repo_data@, indexes: indexes@ },
                all.skip(i as int),
            ),
        decreases page.len() - i,
    {
        let ghost left = all.skip(i as int);
        assert(left[0] == all[i as int]);
        assert(left.skip(1) =~= all.skip(i + 1));
        assert(all[i as int].event.seq > 0);
        match replay_event(repo_data, indexes, &page[i]) {
            Err(e) => {
                return Err(e);
            },
            Ok(()) => {},
        }
        i = i + 1;
    }
    Ok(())
}

impl<'a> EventOps<'a> {
    /// Replays the events after the cursor, with the changes that their commits made, and
    /// says how many there were.
    pub fn recover_metastore_mutations(&mut self, indexes: &mut Keyspace) -> (r: Result<u64, DbError>)
        ensures
            ({
                let (outcome, end) = mutation_recovery(old(self)@, old(indexes)@);
                &&& db_viewed(r) == outcome
                &&& final(self)@ == (EventState { repo_data: end.repo_data, ..old(self)@ })
                &&& final(indexes)@ == end.indexes
            }),
            *final(final(self).repo_data) == *final(old(self).repo_data),
            *final(final(self).log) == *final(old(self).log),
    {
        let cursor: u64 = match self.read_last_applied_cursor() {
            Err(e) => {
                return Err(e);
            },
            Ok(Some(n)) => n,
            Ok(None) => 0,
        };
        let last: i64 = self.log.get_max_seq().as_i64();
        if last as u64 <= cursor {
            assert(pending_events(self@) == Ok::<Seq<Entry>, MetastoreError>(Seq::empty()));
            return Ok(0);
        }
        let bound: usize = self.log.entries().len();
        let ghost s = self@;
        let ghost start = ReplayState { repo_data: s.repo_data, indexes: indexes@ };
        let ghost pending = after(s.log, cursor as i64);
        let mut cursor: i64 = cursor as i64;
        let mut total: u64 = 0;
        let ghost mut left = pending;
        proof {
            after_is_exact(s.log, cursor);
        }
        loop
            invariant
                in_sequence(s.log),
                self@.log == s.log,
                left == after(s.log, cursor),
                replay_all(start, pending) == replay_all(
                    ReplayState { repo_data: self@.repo_data, indexes: indexes@ },
                    left,
                ),
                total + left.len() == pending.len(),
                pending.len() <= s.log.len(),
                s.log.len() == bound,
                *final(self.repo_data) == *final(old(self).repo_data),
                *final(self.log) == *final(old(self).log),
                old(self)@ == s,
                start == (ReplayState { repo_data: s.repo_data, indexes: old(indexes)@ }),
                pending_events(s) == Ok::<Seq<Entry>, MetastoreError>(pending),
            decreases left.len(),
        {
            let page: Vec<LogEntry> = self.log.entries_after(
                SequenceNumber::from_raw(cursor),
                RECOVERY_BATCH_SIZE,
            );
            let n: usize = page.len();
            if n == 0 {
                return Ok(total);
            }
            let ghost pv = page.deep_view();
            let ghost rest = left.skip(n as int);
            let ghost before = ReplayState { repo_data: self@.repo_data, indexes: indexes@ };
            proof {
                after_is_exact(s.log, cursor);
                assert(pv == limited(left, RECOVERY_BATCH_SIZE as nat));
                assert(left =~= pv + rest);
                page_in_sequence(left, n as int);
                assert(pv =~= left.take(n as int));
                replay_all_concat(before, pv, rest);
                assert(left[n - 1] == pv[n - 1]);
            }
            let high: i64 = page[n - 1].event.seq.as_i64();
            match replay_page(self.repo_data, indexes, &page) {
                Err(e) => {
                    return Err(e);
                },
                Ok(()) => {},
            }
            proof {
                rest_after_page(s.log, cursor, n as int);
                left = after(s.log, high);
                assert(left == rest);
            }
            total = total + n as u64;
            cursor = high;
            if n < RECOVERY_BATCH_SIZE {
                assert(left.len() == 0);
                return Ok(total);
            }
        }
    }
}

proof fn page_in_sequence(log: Seq<Entry>, n: int)
    requires
        in_sequence(log),
        0 <= n <= log.len(),
    ensures
        in_sequence(log.take(n)),
{
    let t = log.take(n);
    assert forall|i: int| 0 <= i < t.len() implies (#[trigger] t[i]).event.seq > 0 by {
        assert(t[i] == log[i]);
    }
    assert forall|i: int, j: int| 0 <= i < j < t.len() implies (#[trigger] t[i]).event.seq < (
    #[trigger] t[j]).event.seq by {
        assert(t[i] == log[i] && t[j] == log[j]);
    }
}

} // verus!
