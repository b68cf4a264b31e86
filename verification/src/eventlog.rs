//! The event log: events in the order of their sequence numbers.

use vstd::prelude::*;

use crate::codec::Field;
use crate::events::{Entry, Event, LogEntry, SequencedEvent};
use crate::scan::{count_limit, limit_of};
use crate::types::SequenceNumber;

verus! {

/// Sequence numbers are positive and rise.
pub open spec fn in_sequence(log: Seq<Entry>) -> bool {
    &&& forall|i: int| 0 <= i < log.len() ==> (#[trigger] log[i]).event.seq > 0
    &&& forall|i: int, j: int|
        0 <= i < j < log.len() ==> (#[trigger] log[i]).event.seq < (#[trigger] log[j]).event.seq
}

/// The last sequence number, zero before the first event.
pub open spec fn max_seq(log: Seq<Entry>) -> i64 {
    if log.len() == 0 {
        0
    } else {
        log.last().event.seq
    }
}

/// An event at its place in the log.
pub open spec fn numbered(e: Event, seq: i64) -> Event {
    Event { seq, ..e }
}

/// The log after an event.
pub open spec fn appended(log: Seq<Entry>, e: Event, mutation_set: Option<Seq<u8>>) -> Seq<Entry> {
    log.push(Entry { event: numbered(e, (max_seq(log) + 1) as i64), mutation_set })
}

/// The entries from the first one on whose sequence number exceeds `since`.
pub open spec fn after(log: Seq<Entry>, since: i64) -> Seq<Entry>
    decreases log.len(),
{
    if log.len() == 0 || log[0].event.seq > since {
        log
    } else {
        after(log.skip(1), since)
    }
}

/// In a log in sequence, the entries after a number are those that exceed it.
pub proof fn after_is_exact(log: Seq<Entry>, since: i64)
    requires
        in_sequence(log),
    ensures
        in_sequence(after(log, since)),
        after(log, since).len() <= log.len(),
        after(log, since) == log.skip(log.len() - after(log, since).len()),
        forall|i: int|
            0 <= i < log.len() - after(log, since).len() ==> (#[trigger] log[i]).event.seq <= since,
        forall|i: int|
            log.len() - after(log, since).len() <= i < log.len() ==> (#[trigger] log[i]).event.seq
                > since,
    decreases log.len(),
{
    if log.len() == 0 || log[0].event.seq > since {
        assert(log.skip(0) =~= log);
        assert forall|i: int| 0 <= i < log.len() implies (#[trigger] log[i]).event.seq > since by {
            if i > 0 {
                assert(log[0].event.seq < log[i].event.seq);
            }
        }
    } else {
        let t = log.skip(1);
        assert(in_sequence(t)) by {
            assert forall|i: int| 0 <= i < t.len() implies (#[trigger] t[i]).event.seq > 0 by {
                assert(t[i] == log[i + 1]);
            }
            assert forall|i: int, j: int| 0 <= i < j < t.len() implies (#[trigger] t[i]).event.seq
                < (#[trigger] t[j]).event.seq by {
                assert(t[i] == log[i + 1] && t[j] == log[j + 1]);
            }
        }
        after_is_exact(t, since);
        let a = after(t, since);
        assert(log.skip(log.len() - a.len()) =~= t.skip(t.len() - a.len()));
        assert forall|i: int| 0 <= i < log.len() - a.len() implies (#[trigger] log[i]).event.seq
            <= since by {
            if i > 0 {
                assert(t[i - 1] == log[i]);
            }
        }
        assert forall|i: int| log.len() - a.len() <= i < log.len() implies (#[trigger] log[i]).event.seq
            > since by {
            assert(t[i - 1] == log[i]);
        }
    }
}

/// Where the numbers pass `since`, the entries after it begin.
pub proof fn after_from(log: Seq<Entry>, since: i64, q: int)
    requires
        0 <= q <= log.len(),
        forall|i: int| 0 <= i < q ==> (#[trigger] log[i]).event.seq <= since,
        forall|i: int| q <= i < log.len() ==> (#[trigger] log[i]).event.seq > since,
    ensures
        after(log, since) == log.skip(q),
    decreases log.len(),
{
    if q == 0 {
        assert(log.skip(0) =~= log);
        if log.len() > 0 {
            assert(log[0].event.seq > since);
        }
    } else {
        let t = log.skip(1);
        assert(log[0].event.seq <= since);
        assert forall|i: int| 0 <= i < q - 1 implies (#[trigger] t[i]).event.seq <= since by {
            assert(t[i] == log[i + 1]);
        }
        assert forall|i: int| q - 1 <= i < t.len() implies (#[trigger] t[i]).event.seq > since by {
            assert(t[i] == log[i + 1]);
        }
        after_from(t, since, q - 1);
        assert(t.skip(q - 1) =~= log.skip(q));
    }
}

/// An appended event is the last of the log, and the log stays in sequence.
pub proof fn appended_in_sequence(log: Seq<Entry>, e: Event, mutation_set: Option<Seq<u8>>)
    requires
        in_sequence(log),
        max_seq(log) < i64::MAX,
    ensures
        in_sequence(appended(log, e, mutation_set)),
        max_seq(appended(log, e, mutation_set)) == max_seq(log) + 1,
{
    let t = appended(log, e, mutation_set);
    assert forall|i: int, j: int| 0 <= i < j < t.len() implies (#[trigger] t[i]).event.seq < (
    #[trigger] t[j]).event.seq by {
        if j == log.len() {
            if i < log.len() - 1 {
                assert(log[i].event.seq < log[log.len() - 1].event.seq);
            }
        } else {
            assert(t[i] == log[i] && t[j] == log[j]);
        }
    }
}

/// At most `limit` entries from the front.
pub open spec fn limited(entries: Seq<Entry>, limit: nat) -> Seq<Entry> {
    if limit <= entries.len() {
        entries.take(limit as int)
    } else {
        entries
    }
}

pub open spec fn events_of(entries: Seq<Entry>) -> Seq<Event> {
    entries.map_values(|e: Entry| e.event)
}

/// The entry with a sequence number.
pub open spec fn entry_at(log: Seq<Entry>, seq: i64) -> Option<Entry> {
    if exists|i: int| 0 <= i < log.len() && (#[trigger] log[i]).event.seq == seq {
        Some(log[choose|i: int| 0 <= i < log.len() && (#[trigger] log[i]).event.seq == seq])
    } else {
        None
    }
}

/// The entries between two sequence numbers, both excluded.
pub open spec fn between(log: Seq<Entry>, start: i64, end: i64) -> Seq<Entry>
    decreases log.len(),
{
    if log.len() == 0 {
        Seq::empty()
    } else if log.last().event.seq > start && log.last().event.seq < end {
        between(log.drop_last(), start, end).push(log.last())
    } else {
        between(log.drop_last(), start, end)
    }
}

/// The sequence number of the first event at or after a time.
pub open spec fn first_since(log: Seq<Entry>, ms: i64) -> Option<i64>
    decreases log.len(),
{
    if log.len() == 0 {
        None
    } else if log[0].event.created_at >= ms {
        Some(log[0].event.seq)
    } else {
        first_since(log.skip(1), ms)
    }
}

pub struct EventLog {
    entries: Vec<LogEntry>,
}

impl View for EventLog {
    type V = Seq<Entry>;

    closed spec fn view(&self) -> Seq<Entry> {
        self.entries.deep_view()
    }
}

impl EventLog {
    #[verifier::type_invariant]
    spec fn well_formed(self) -> bool {
        in_sequence(self.entries.deep_view())
    }

    pub fn new() -> (r: EventLog)
        ensures
            r@ == Seq::<Entry>::empty(),
    {
        let r = EventLog { entries: Vec::new() };
        assert(r.entries.deep_view() =~= Seq::empty());
        r
    }

    /// A log with the given entries, if they are in sequence.
    pub fn restore(entries: Vec<LogEntry>) -> (r: Option<EventLog>)
        ensures
            r is Some <==> in_sequence(entries.deep_view()),
            r is Some ==> r->0@ == entries.deep_view(),
    {
        let ghost all = entries.deep_view();
        let mut i: usize = 0;
        let mut last: i64 = 0;
        while i < entries.len()
            invariant
                i <= entries@.len(),
                all == entries.deep_view(),
                i == 0 ==> last == 0,
                i > 0 ==> last == all[i - 1].event.seq,
                in_sequence(all.take(i as int)),
            decreases entries.len() - i,
        {
            let seq: i64 = entries[i].event.seq.as_i64();
            assert(seq == all[i as int].event.seq);
            if seq <= last {
                proof {
                    if in_sequence(all) && i > 0 {
                        assert(all[i - 1].event.seq < all[i as int].event.seq);
                    }
                }
                return None;
            }
            proof {
                let t = all.take(i + 1);
                let p = all.take(i as int);
                assert forall|a: int| 0 <= a < t.len() implies (#[trigger] t[a]).event.seq > 0 by {
                    if a < i {
                        assert(t[a] == p[a]);
                    } else if i > 0 {
                        assert(p[i - 1].event.seq > 0);
                    }
                }
                assert forall|a: int, b: int| 0 <= a < b < t.len() implies (#[trigger] t[a]).event.seq
                    < (#[trigger] t[b]).event.seq by {
                    assert(t[a] == p[a]);
                    if b < i {
                        assert(t[b] == p[b]);
                    } else if a < i - 1 {
                        assert(p[a].event.seq < p[i - 1].event.seq);
                    }
                }
            }
            last = seq;
            i = i + 1;
        }
        assert(all.take(i as int) =~= all);
        Some(EventLog { entries })
    }

    /// The entries of the log, oldest first.
    pub fn entries(&self) -> (r: &Vec<LogEntry>)
        ensures
            r.deep_view() == self@,
            in_sequence(self@),
    {
        proof {
            use_type_invariant(self);
        }
        &self.entries
    }

    /// Appends an event and gives it the next sequence number; fails when there is none
    /// left.
    pub fn append(&mut self, event: &SequencedEvent, mutation_set: Option<&[u8]>) -> (r: Option<
        SequenceNumber,
    >)
        ensures
            in_sequence(old(self)@),
            in_sequence(final(self)@),
            max_seq(old(self)@) == i64::MAX ==> r is None && final(self)@ == old(self)@,
            max_seq(old(self)@) < i64::MAX ==> r is Some && r->0@ == max_seq(old(self)@) + 1
                && final(self)@ == appended(
                old(self)@,
                event.deep_view(),
                crate::json::json_bytes(mutation_set),
            ),
    {
        proof {
            use_type_invariant(&*self);
        }
        let last: i64 = self.get_max_seq().as_i64();
        if last == i64::MAX {
            return None;
        }
        let seq: SequenceNumber = SequenceNumber::from_raw(last + 1);
        let mut event: SequencedEvent = event.duplicate();
        event.seq = seq;
        let ms: Option<Vec<u8>> = match mutation_set {
            Some(b) => Some(crate::bytes::copy_bytes(b)),
            None => None,
        };
        proof {
            if let Some(b) = &ms {
                assert(b.deep_view() =~= b@);
            }
            appended_in_sequence(self@, event.deep_view(), ms.deep_view());
        }
        let ghost before = self.entries.deep_view();
        let mut entries: Vec<LogEntry> = Vec::new();
        std::mem::swap(&mut entries, &mut self.entries);
        entries.push(LogEntry { event, mutation_set: ms });
        assert(entries.deep_view() =~= appended(before, event.deep_view(), ms.deep_view()));
        self.entries = entries;
        Some(seq)
    }

    /// The last sequence number, zero before the first event.
    pub fn get_max_seq(&self) -> (r: SequenceNumber)
        ensures
            r@ == max_seq(self@),
            in_sequence(self@),
            r@ >= 0,
    {
        proof {
            use_type_invariant(self);
        }
        let n: usize = self.entries.len();
        if n == 0 {
            SequenceNumber::from_raw(0)
        } else {
            assert(self@[n - 1].event.seq > 0);
            self.entries[n - 1].event.seq
        }
    }

    /// The event with a sequence number.
    pub fn get_event_by_seq(&self, seq: SequenceNumber) -> (r: Option<SequencedEvent>)
        ensures
            r.deep_view() == (match entry_at(self@, seq@) {
                Some(e) => Some(e.event),
                None => None,
            }),
    {
        proof {
            use_type_invariant(self);
        }
        let mut i: usize = 0;
        while i < self.entries.len()
            invariant
                i <= self.entries@.len(),
                in_sequence(self@),
                self@ == self.entries.deep_view(),
                forall|k: int| 0 <= k < i ==> (#[trigger] self@[k]).event.seq != seq@,
            decreases self.entries.len() - i,
        {
            if self.entries[i].event.seq.as_i64() == seq.as_i64() {
                proof {
                    assert(self@[i as int].event.seq == seq@);
                    let k = choose|k: int| 0 <= k < self@.len() && (#[trigger] self@[k]).event.seq
                        == seq@;
                    if k < i {
                        assert(self@[k].event.seq < self@[i as int].event.seq);
                    } else if i < k {
                        assert(self@[i as int].event.seq < self@[k].event.seq);
                    }
                }
                return Some(self.entries[i].event.duplicate());
            }
            assert(self@[i as int].event.seq != seq@);
            i = i + 1;
        }
        None
    }

    /// At most `limit` entries after a sequence number.
    pub fn entries_after(&self, since: SequenceNumber, limit: usize) -> (r: Vec<LogEntry>)
        ensures
            r.deep_view() == limited(after(self@, since@), limit as nat),
            in_sequence(self@),
    {
        proof {
            use_type_invariant(self);
            after_is_exact(self@, since@);
        }
        let ghost log = self@;
        let mut i: usize = 0;
        while i < self.entries.len() && self.entries[i].event.seq.as_i64() <= since.as_i64()
            invariant
                i <= self.entries@.len(),
                log == self.entries.deep_view(),
                forall|k: int| 0 <= k < i ==> (#[trigger] log[k]).event.seq <= since@,
            decreases self.entries.len() - i,
        {
            assert(log[i as int].event.seq <= since@);
            i = i + 1;
        }
        let ghost from = i as int;
        proof {
            let p = log.len() - after(log, since@).len();
            if p < from {
                assert(log[p].event.seq > since@);
            }
            if from < p {
                assert(log[from].event.seq <= since@);
            }
        }
        let mut out: Vec<LogEntry> = Vec::new();
        assert(out.deep_view() =~= log.subrange(from, i as int));
        while i < self.entries.len() && out.len() < limit
            invariant
                0 <= from <= i <= self.entries@.len(),
                log == self.entries.deep_view(),
                out@.len() == i - from,
                out.len() <= limit,
                out.deep_view() == log.subrange(from, i as int),
            decreases self.entries.len() - i,
        {
            let ghost before = out.deep_view();
            out.push(self.entries[i].duplicate());
            assert(out.deep_view() =~= before.push(log[i as int]));
            assert(log.subrange(from, i + 1) =~= log.subrange(from, i as int).push(log[i as int]));
            i = i + 1;
        }
        assert(out.deep_view() =~= limited(log.skip(from), limit as nat));
        out
    }

    /// The events after a sequence number, up to a limit where one is given.
    pub fn get_events_since_seq(&self, since: SequenceNumber, limit: Option<i64>) -> (r: Vec<
        SequencedEvent,
    >)
        ensures
            r.deep_view() == events_of(
                match limit {
                    Some(n) => limited(after(self@, since@), count_limit(n)),
                    None => after(self@, since@),
                },
            ),
            in_sequence(self@),
    {
        let n: usize = match limit {
            Some(n) => limit_of(n),
            None => self.entries.len(),
        };
        let entries: Vec<LogEntry> = self.entries_after(since, n);
        proof {
            after_is_exact(self@, since@);
        }
        take_events(entries)
    }

    /// The events after a cursor, up to a limit.
    pub fn get_events_since_cursor(&self, cursor: SequenceNumber, limit: i64) -> (r: Vec<
        SequencedEvent,
    >)
        ensures
            r.deep_view() == events_of(limited(after(self@, cursor@), count_limit(limit))),
            in_sequence(self@),
    {
        take_events(self.entries_after(cursor, limit_of(limit)))
    }

    /// The events between two sequence numbers, both excluded.
    pub fn get_events_in_seq_range(&self, start: SequenceNumber, end: SequenceNumber) -> (r: Vec<
        SequencedEvent,
    >)
        ensures
            r.deep_view() == events_of(between(self@, start@, end@)),
            in_sequence(self@),
    {
        proof {
            use_type_invariant(self);
        }
        let ghost log = self@;
        let mut out: Vec<SequencedEvent> = Vec::new();
        let mut i: usize = 0;
        assert(log.take(0) =~= Seq::empty());
        assert(out.deep_view() =~= events_of(between(log.take(0), start@, end@)));
        while i < self.entries.len()
            invariant
                i <= self.entries@.len(),
                log == self.entries.deep_view(),
                out.deep_view() == events_of(between(log.take(i as int), start@, end@)),
            decreases self.entries.len() - i,
        {
            let seq: i64 = self.entries[i].event.seq.as_i64();
            let ghost before = out.deep_view();
            assert(log.take(i + 1).drop_last() =~= log.take(i as int));
            if seq > start.as_i64() && seq < end.as_i64() {
                out.push(self.entries[i].event.duplicate());
                assert(out.deep_view() =~= before.push(log[i as int].event));
                assert(events_of(between(log.take(i + 1), start@, end@)) =~= before.push(
                    log[i as int].event,
                ));
            }
            i = i + 1;
        }
        assert(log.take(i as int) =~= log);
        out
    }

    /// The sequence number of the first event at or after a time.
    pub fn get_min_seq_since(&self, since_ms: i64) -> (r: Option<SequenceNumber>)
        ensures
            r.deep_view() == first_since(self@, since_ms),
    {
        let ghost log = self@;
        let mut i: usize = 0;
        assert(log.skip(0) =~= log);
        while i < self.entries.len()
            invariant
                i <= self.entries@.len(),
                log == self.entries.deep_view(),
                first_since(log, since_ms) == first_since(log.skip(i as int), since_ms),
            decreases self.entries.len() - i,
        {
            assert(log.skip(i as int)[0] == log[i as int]);
            assert(log.skip(i as int).skip(1) =~= log.skip(i + 1));
            if self.entries[i].event.created_at >= since_ms {
                return Some(self.entries[i].event.seq);
            }
            i = i + 1;
        }
        None
    }
}

fn take_events(entries: Vec<LogEntry>) -> (r: Vec<SequencedEvent>)
    ensures
        r.deep_view() == events_of(entries.deep_view()),
{
    let ghost all = entries.deep_view();
    let mut out: Vec<SequencedEvent> = Vec::new();
    let mut i: usize = 0;
    while i < entries.len()
        invariant
            i <= entries@.len(),
            all == entries.deep_view(),
            out@.len() == i,
            forall|k: int| 0 <= k < i ==> (#[trigger] out@[k]).deep_view() == all[k].event,
        decreases entries.len() - i,
    {
        out.push(entries[i].event.duplicate());
        i = i + 1;
    }
    assert(out.deep_view() =~= events_of(all));
    out
}

} // verus!
