//! What readers of the event log get, whatever was done before.

use vstd::prelude::*;

use crate::bytes::lex_lt_common_prefix;
use crate::encoding::{be8, be8_order, second_number_round_trip, upper_bound};
use crate::encoding::{upper_bound_delimits_prefix, upper_bound_exists};
use crate::errors::MetastoreError;
use crate::event_keys::{did_events_key_bytes, did_events_prefix_bytes, rev_to_seq_key_bytes};
use crate::event_keys::seq_tombstone_key_bytes;
use crate::event_laws::{alive_in_order, alive_is_exact};
use crate::event_ops::{alive, blobs_of, blobs_since, did_event_rows_from, indexed_seq, unseen};
use crate::event_ops::{tombstoned, visible_event, EventState};
use crate::eventlog::{after, after_is_exact, between, entry_at, events_of, first_since};
use crate::eventlog::{in_sequence, limited};
use crate::events::{Entry, Event};
use crate::keys::{did_hash, KeyTag};
use crate::scan::{collect_all, collected, Contribution};
use crate::store::{lookup, range_keys, row_is_listed, RowView};

verus! {

proof fn entry_is_at(log: Seq<Entry>, i: int)
    requires
        in_sequence(log),
        0 <= i < log.len(),
    ensures
        entry_at(log, log[i].event.seq) == Some(log[i]),
{
    let seq = log[i].event.seq;
    assert(0 <= i < log.len() && log[i].event.seq == seq);
    let k = choose|k: int| 0 <= k < log.len() && (#[trigger] log[k]).event.seq == seq;
    if k < i {
        assert(log[k].event.seq < log[i].event.seq);
    } else if i < k {
        assert(log[i].event.seq < log[k].event.seq);
    }
}

/// An event is visible exactly where the log has it under a number that was not hidden.
pub proof fn visible_events_are_logged(s: EventState, seq: i64)
    requires
        in_sequence(s.log),
    ensures
        visible_event(s, seq) matches Some(e) ==> e.seq == seq && !tombstoned(s.repo_data.rows, seq)
            && events_of(s.log).contains(e),
        forall|e: Event|
            #![trigger events_of(s.log).contains(e)]
            events_of(s.log).contains(e) && !tombstoned(s.repo_data.rows, e.seq) ==> visible_event(
                s,
                e.seq,
            ) == Some(e),
{
    if let Some(e) = visible_event(s, seq) {
        let i = choose|i: int| 0 <= i < s.log.len() && (#[trigger] s.log[i]).event.seq == seq;
        assert(events_of(s.log)[i] == e);
    }
    assert forall|e: Event|
        #![trigger events_of(s.log).contains(e)]
        events_of(s.log).contains(e) && !tombstoned(s.repo_data.rows, e.seq) implies visible_event(
        s,
        e.seq,
    ) == Some(e) by {
        let i = choose|i: int| 0 <= i < events_of(s.log).len() && events_of(s.log)[i] == e;
        assert(s.log[i].event == e);
        entry_is_at(s.log, i);
    }
}

/// The events after a number are exactly the visible ones that exceed it, in order; with a
/// limit, the first of them: as many entries of the log are looked at as the limit allows, and
/// none is passed over.
pub proof fn events_since_are_exact(s: EventState, since: i64, limit: nat, e: Event)
    requires
        in_sequence(s.log),
    ensures
        ({
            let all = alive(s.repo_data.rows, events_of(after(s.log, since)));
            let some = alive(s.repo_data.rows, events_of(limited(after(s.log, since), limit)));
            &&& all.contains(e) <==> e.seq > since && visible_event(s, e.seq) == Some(e)
            &&& some.contains(e) ==> all.contains(e)
            &&& some.len() <= limit
            &&& limit >= s.log.len() ==> some == all
            &&& forall|i: int, j: int|
                0 <= i < j < some.len() ==> (#[trigger] some[i]).seq < (#[trigger] some[j]).seq
            &&& all.contains(e) && !some.contains(e) ==> limited(after(s.log, since), limit).len()
                == limit && forall|i: int|
                0 <= i < some.len() ==> (#[trigger] some[i]).seq < e.seq
        }),
{
    let rows = s.repo_data.rows;
    let a = after(s.log, since);
    let l = limited(a, limit);
    after_is_exact(s.log, since);
    since_is_exact(s, since, e);
    limited_is_first(rows, a, limit, e);
    if limit >= s.log.len() {
        assert(l =~= a);
    }
}

proof fn since_is_exact(s: EventState, since: i64, e: Event)
    requires
        in_sequence(s.log),
    ensures
        alive(s.repo_data.rows, events_of(after(s.log, since))).contains(e) <==> e.seq > since
            && visible_event(s, e.seq) == Some(e),
{
    let log = s.log;
    let a = after(log, since);
    after_is_exact(log, since);
    let n = log.len() - a.len();
    alive_is_exact(s.repo_data.rows, events_of(a), e);
    visible_events_are_logged(s, e.seq);
    if events_of(a).contains(e) {
        let i = choose|i: int| 0 <= i < events_of(a).len() && events_of(a)[i] == e;
        assert(a[i] == log[n + i]);
        assert(events_of(log)[n + i] == e);
    }
    if visible_event(s, e.seq) == Some(e) && e.seq > since {
        let i = choose|i: int| 0 <= i < events_of(log).len() && events_of(log)[i] == e;
        assert(log[i].event == e);
        assert(a[i - n] == log[i]);
        assert(events_of(a)[i - n] == e);
    }
}

proof fn limited_is_first(rows: crate::store::Rows, a: Seq<Entry>, limit: nat, e: Event)
    requires
        in_sequence(a),
    ensures
        ({
            let all = alive(rows, events_of(a));
            let some = alive(rows, events_of(limited(a, limit)));
            &&& some.contains(e) ==> all.contains(e)
            &&& some.len() <= limit
            &&& forall|i: int, j: int|
                0 <= i < j < some.len() ==> (#[trigger] some[i]).seq < (#[trigger] some[j]).seq
            &&& all.contains(e) && !some.contains(e) ==> limited(a, limit).len() == limit
                && forall|i: int| 0 <= i < some.len() ==> (#[trigger] some[i]).seq < e.seq
        }),
{
    let l = limited(a, limit);
    let all = alive(rows, events_of(a));
    let some = alive(rows, events_of(l));
    alive_is_exact(rows, events_of(a), e);
    alive_is_exact(rows, events_of(l), e);
    if events_of(l).contains(e) {
        let i = choose|i: int| 0 <= i < events_of(l).len() && events_of(l)[i] == e;
        assert(events_of(a)[i] == e);
    }
    assert forall|i: int, j: int| 0 <= i < j < events_of(l).len() implies (
    #[trigger] events_of(l)[i]).seq < (#[trigger] events_of(l)[j]).seq by {
        assert(l[i] == a[i] && l[j] == a[j]);
        assert(a[i].event.seq < a[j].event.seq);
    }
    alive_in_order(rows, events_of(l));
    alive_is_shorter(rows, events_of(l));
    if all.contains(e) && !some.contains(e) {
        let k = choose|k: int| 0 <= k < events_of(a).len() && events_of(a)[k] == e;
        assert(a[k].event == e);
        if k < l.len() {
            assert(events_of(l)[k] == e);
        }
        assert forall|i: int| 0 <= i < some.len() implies (#[trigger] some[i]).seq < e.seq by {
            assert(some.contains(some[i]));
            alive_is_exact(rows, events_of(l), some[i]);
            let m = choose|m: int| 0 <= m < events_of(l).len() && events_of(l)[m] == some[i];
            assert(l[m] == a[m]);
            assert(a[m].event.seq < a[k].event.seq);
        }
    }
}

proof fn alive_is_shorter(rows: crate::store::Rows, events: Seq<Event>)
    ensures
        alive(rows, events).len() <= events.len(),
    decreases events.len(),
{
    if events.len() > 0 {
        alive_is_shorter(rows, events.drop_last());
    }
}

/// The events between two numbers are exactly the visible ones that lie strictly between them.
pub proof fn events_between_are_exact(s: EventState, start: i64, end: i64, e: Event)
    requires
        in_sequence(s.log),
    ensures
        alive(s.repo_data.rows, events_of(between(s.log, start, end))).contains(e) <==> start < e.seq
            < end && visible_event(s, e.seq) == Some(e),
{
    let b = between(s.log, start, end);
    alive_is_exact(s.repo_data.rows, events_of(b), e);
    between_is_exact(s.log, start, end, e);
    visible_events_are_logged(s, e.seq);
}

proof fn between_is_exact(log: Seq<Entry>, start: i64, end: i64, e: Event)
    ensures
        events_of(between(log, start, end)).contains(e) <==> start < e.seq < end && events_of(
            log,
        ).contains(e),
    decreases log.len(),
{
    if log.len() > 0 {
        let t = log.drop_last();
        between_is_exact(t, start, end, e);
        let last = log.last();
        let all = events_of(log);
        let before = events_of(t);
        let b = between(log, start, end);
        let c = between(t, start, end);
        assert(all =~= before.push(last.event));
        pushed(before, last.event, e);
        if last.event.seq > start && last.event.seq < end {
            assert(events_of(b) =~= events_of(c).push(last.event));
            pushed(events_of(c), last.event, e);
        }
    }
}

proof fn pushed<T>(s: Seq<T>, x: T, y: T)
    ensures
        s.push(x).contains(y) <==> s.contains(y) || x == y,
{
    let t = s.push(x);
    if s.contains(y) {
        let i = choose|i: int| 0 <= i < s.len() && s[i] == y;
        assert(t[i] == y);
    }
    if x == y {
        assert(t[s.len() as int] == y);
    }
    if t.contains(y) {
        let i = choose|i: int| 0 <= i < t.len() && t[i] == y;
        if i < s.len() {
            assert(s[i] == y);
        }
    }
}

/// The first number since a time is that of the first event of the log that is not older; where
/// there is none, all events are older.
pub proof fn first_since_is_first(log: Seq<Entry>, ms: i64)
    ensures
        first_since(log, ms) matches Some(q) ==> exists|i: int|
            0 <= i < log.len() && (#[trigger] log[i]).event.seq == q && log[i].event.created_at >= ms
                && forall|j: int| 0 <= j < i ==> (#[trigger] log[j]).event.created_at < ms,
        first_since(log, ms) is None ==> forall|i: int|
            0 <= i < log.len() ==> (#[trigger] log[i]).event.created_at < ms,
    decreases log.len(),
{
    if log.len() > 0 {
        if log[0].event.created_at >= ms {
            assert(log[0].event.seq == first_since(log, ms)->0);
        } else {
            let t = log.skip(1);
            first_since_is_first(t, ms);
            if first_since(log, ms) is Some {
                let q = first_since(log, ms)->0;
                let i = choose|i: int|
                    0 <= i < t.len() && (#[trigger] t[i]).event.seq == q && t[i].event.created_at
                        >= ms && forall|j: int| 0 <= j < i ==> (#[trigger] t[j]).event.created_at
                        < ms;
                assert(log[i + 1] == t[i]);
                assert forall|j: int| 0 <= j < i + 1 implies (#[trigger] log[j]).event.created_at
                    < ms by {
                    if j > 0 {
                        assert(t[j - 1] == log[j]);
                    }
                }
            } else {
                assert forall|j: int| 0 <= j < log.len() implies (
                #[trigger] log[j]).event.created_at < ms by {
                    if j > 0 {
                        assert(t[j - 1] == log[j]);
                    }
                }
            }
        }
    }
}

proof fn unseen_holds(acc: Seq<Seq<char>>, blobs: Seq<Seq<char>>, b: Seq<char>)
    ensures
        unseen(acc, blobs).contains(b) <==> acc.contains(b) || blobs.contains(b),
    decreases blobs.len(),
{
    if blobs.len() > 0 {
        let t = blobs.drop_last();
        unseen_holds(acc, t, b);
        assert(blobs =~= t.push(blobs.last()));
        pushed(t, blobs.last(), b);
        pushed(unseen(acc, t), blobs.last(), b);
    }
}

/// What an event of a number says of a blob: it names the blob, has a revision, and is visible.
pub open spec fn names_blob(s: EventState, seq: u64, b: Seq<char>) -> bool {
    &&& seq <= i64::MAX
    &&& visible_event(s, seq as i64) matches Some(e) && e.rev is Some && e.blobs is Some
        && e.blobs->0.contains(b)
}

proof fn blobs_of_holds(s: EventState, seqs: Seq<u64>, b: Seq<char>)
    requires
        blobs_of(s, seqs) is Ok,
    ensures
        blobs_of(s, seqs)->Ok_0.contains(b) <==> exists|i: int|
            0 <= i < seqs.len() && names_blob(s, #[trigger] seqs[i], b),
    decreases seqs.len(),
{
    if seqs.len() > 0 {
        let t = seqs.drop_last();
        let last = seqs.last();
        blobs_of_holds(s, t, b);
        let acc = blobs_of(s, t)->Ok_0;
        if last <= i64::MAX {
            assert(tombstoned(s.repo_data.rows, last as i64) == s.repo_data.rows.contains_key(
                seq_tombstone_key_bytes(last),
            ));
            if let Some(e) = entry_at(s.log, last as i64) {
                if e.event.blobs is Some {
                    unseen_holds(acc, e.event.blobs->0, b);
                }
            }
        }
        if exists|i: int| 0 <= i < t.len() && names_blob(s, #[trigger] t[i], b) {
            let i = choose|i: int| 0 <= i < t.len() && names_blob(s, #[trigger] t[i], b);
            assert(names_blob(s, seqs[i], b));
        }
        if names_blob(s, last, b) {
            assert(names_blob(s, seqs[seqs.len() - 1], b));
        }
        if exists|i: int| 0 <= i < seqs.len() && names_blob(s, #[trigger] seqs[i], b) {
            let i = choose|i: int| 0 <= i < seqs.len() && names_blob(s, #[trigger] seqs[i], b);
            if i < t.len() {
                assert(names_blob(s, t[i], b));
            }
        }
    }
}

/// The blobs since a revision hold every blob that an event of the account names which was
/// recorded after the revision's and is visible, and no blob that no visible event names. Since
/// an unknown revision there are none.
pub proof fn blobs_since_are_named(s: EventState, did: Seq<char>, rev: Seq<char>, n: u64, b: Seq<char>, q: u64)
    requires
        s.repo_data.rows.dom().finite(),
    ensures
        lookup(s.repo_data.rows, rev_to_seq_key_bytes(did_hash(did), rev)) is None ==> blobs_since(
            s,
            did,
            rev,
        ) == Ok::<Seq<Seq<char>>, MetastoreError>(Seq::empty()),
        lookup(s.repo_data.rows, rev_to_seq_key_bytes(did_hash(did), rev)) == Some(be8(n))
            && blobs_since(s, did, rev) is Ok ==> {
            let list = blobs_since(s, did, rev)->Ok_0;
            &&& q > n && s.repo_data.rows.contains_key(did_events_key_bytes(did_hash(did), q))
                && names_blob(s, q, b) ==> list.contains(b)
            &&& list.contains(b) ==> exists|m: u64| #[trigger] names_blob(s, m, b)
        },
{
    let hash = did_hash(did);
    let all = s.repo_data.rows;
    if lookup(all, rev_to_seq_key_bytes(hash, rev)) == Some(be8(n)) && blobs_since(s, did, rev) is Ok {
        crate::encoding::be8_round_trip(n);
        crate::encoding::be_len(n as nat, 8);
        let list = blobs_since(s, did, rev)->Ok_0;
        if n < u64::MAX {
            let start = (n + 1) as u64;
            let rows = did_event_rows_from(all, hash, start);
            let f = |row: RowView| indexed_seq(row);
            let seqs = collect_all(rows, f)->Ok_0;
            blobs_of_holds(s, seqs, b);
            if list.contains(b) {
                let i = choose|i: int| 0 <= i < seqs.len() && names_blob(s, #[trigger] seqs[i], b);
                assert(names_blob(s, seqs[i], b));
            }
            let key = did_events_key_bytes(hash, q);
            if q > n && all.contains_key(key) && names_blob(s, q, b) {
                let p = did_events_prefix_bytes(hash);
                let lo = did_events_key_bytes(hash, start);
                let none = Seq::<u8>::empty();
                assert(p[0] == KeyTag::DidEvents.byte());
                upper_bound_exists(p);
                assert(key.take(p.len() as int) =~= p);
                upper_bound_delimits_prefix(p, key);
                if start < q {
                    be8_order(start, q, none, none);
                    lex_lt_common_prefix(p, be8(start) + none, be8(q) + none);
                    assert(p + (be8(start) + none) =~= lo);
                    assert(p + (be8(q) + none) =~= key);
                }
                let keys = range_keys(lo, upper_bound(p)->0);
                let k = row_is_listed(all, keys, key);
                second_number_round_trip(KeyTag::DidEvents.byte(), hash, q);
                assert(f(rows[k]) == Contribution::<u64>::Ok(Some(q)));
                collected(rows, f, rows.len(), q);
                let i = choose|i: int| 0 <= i < seqs.len() && seqs[i] == q;
                assert(names_blob(s, seqs[i], b));
            }
        }
    }
}

} // verus!
