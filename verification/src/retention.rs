//! How much of the event log is kept.

use vstd::prelude::*;
use vstd::string::*;

use crate::errors::{DbError, DbErrorView};
use crate::eventlog::EventLog;
use crate::events::{Entry, LogEntry};
use crate::text::{push_signed_decimal, signed_decimal};

verus! {

/// What a log needs to know to forget old events. Times are in microseconds.
#[derive(Debug, Clone, Copy, PartialEq, Eq, Structural)]
pub struct RetentionWindow {
    pub now: u64,
    pub max_age: u64,
}

/// The window that keeps what happened since a cutoff.
pub open spec fn window_since(cutoff: i64, now: i64) -> Result<RetentionWindow, DbErrorView> {
    if cutoff < 0 {
        Err(
            DbErrorView::Query(
                "eventlog retention: refusing pre-epoch cutoff "@ + signed_decimal(cutoff as int)
                    + " us (would prune entire log)"@,
            ),
        )
    } else if now < 0 {
        Err(
            DbErrorView::Query(
                "eventlog retention: current wall time "@ + signed_decimal(now as int)
                    + " us out of u64 range"@,
            ),
        )
    } else {
        Ok(
            RetentionWindow {
                now: now as u64,
                max_age: if now >= cutoff {
                    (now - cutoff) as u64
                } else {
                    0
                },
            },
        )
    }
}

/// Finds the window that keeps what happened since a cutoff.
pub fn retention_window(cutoff_micros: i64, now_micros: i64) -> (r: Result<RetentionWindow, DbError>)
    ensures
        match window_since(cutoff_micros, now_micros) {
            Ok(w) => r == Ok::<RetentionWindow, DbError>(w),
            Err(e) => r is Err && r->Err_0@ == e,
        },
{
    if cutoff_micros < 0 {
        let mut m: String = "eventlog retention: refusing pre-epoch cutoff ".to_owned();
        push_signed_decimal(&mut m, cutoff_micros);
        m.append(" us (would prune entire log)");
        return Err(DbError::Query(m));
    }
    if now_micros < 0 {
        let mut m: String = "eventlog retention: current wall time ".to_owned();
        push_signed_decimal(&mut m, now_micros);
        m.append(" us out of u64 range");
        return Err(DbError::Query(m));
    }
    let max_age: u64 = if now_micros >= cutoff_micros {
        (now_micros - cutoff_micros) as u64
    } else {
        0
    };
    Ok(RetentionWindow { now: now_micros as u64, max_age })
}

impl RetentionWindow {
    /// Whether what happened at a time is older than the window allows.
    pub open spec fn too_old(self, at: u64) -> bool {
        self.now - at > self.max_age
    }

    pub fn forgets(&self, at: u64) -> (r: bool)
        ensures
            r == self.too_old(at),
    {
        at <= self.now && self.now - at > self.max_age
    }
}

/// A time of an event, given in milliseconds, in microseconds.
pub open spec fn micros(ms: i64) -> u64 {
    if ms <= 0 {
        0
    } else if ms * 1000 > u64::MAX {
        u64::MAX
    } else {
        (ms * 1000) as u64
    }
}

fn to_micros(ms: i64) -> (r: u64)
    ensures
        r == micros(ms),
{
    if ms <= 0 {
        0
    } else if ms as u128 * 1000 > u64::MAX as u128 {
        u64::MAX
    } else {
        ms as u64 * 1000
    }
}

/// How many of the oldest events are forgotten: those at the start of the log that are older
/// than a window allows. The last event stays: the sequence numbers go on from it.
pub open spec fn forgotten(log: Seq<Entry>, window: RetentionWindow) -> nat
    decreases log.len(),
{
    if log.len() <= 1 || !window.too_old(micros(log[0].event.created_at)) {
        0
    } else {
        1 + forgotten(log.skip(1), window)
    }
}

/// Counts the events that are forgotten.
pub fn forgotten_events(log: &EventLog, window: &RetentionWindow) -> (r: usize)
    ensures
        r == forgotten(log@, *window),
        log@.len() > 0 ==> r < log@.len(),
{
    let entries: &Vec<LogEntry> = log.entries();
    let mut n: usize = 0;
    assert(log@.skip(0) =~= log@);
    while n < entries.len() && entries.len() - n > 1 && window.forgets(to_micros(entries[n].event.created_at))
        invariant
            n <= entries@.len(),
            n > 0 ==> n < entries@.len(),
            entries.deep_view() == log@,
            n + forgotten(log@.skip(n as int), *window) == forgotten(log@, *window),
        decreases entries.len() - n,
    {
        assert(log@.skip(n as int)[0] == entries@[n as int].deep_view());
        assert(log@.skip(n as int).skip(1) =~= log@.skip(n + 1));
        n = n + 1;
    }
    assert(n < log@.len() ==> log@.skip(n as int)[0] == entries@[n as int].deep_view());
    n
}

/// What is forgotten is too old, and what stays begins with an event that is not, unless it
/// is the last.
pub proof fn forgotten_is_too_old(log: Seq<Entry>, window: RetentionWindow)
    ensures
        forgotten(log, window) <= log.len(),
        forall|i: int|
            0 <= i < forgotten(log, window) ==> window.too_old(
                micros((#[trigger] log[i]).event.created_at),
            ),
        forgotten(log, window) + 1 < log.len() ==> !window.too_old(
            micros(log[forgotten(log, window) as int].event.created_at),
        ),
    decreases log.len(),
{
    if log.len() > 1 && window.too_old(micros(log[0].event.created_at)) {
        let rest = log.skip(1);
        forgotten_is_too_old(rest, window);
        assert forall|i: int| 0 <= i < forgotten(log, window) implies window.too_old(
            micros((#[trigger] log[i]).event.created_at),
        ) by {
            if i > 0 {
                assert(rest[i - 1] == log[i]);
            }
        }
    }
}

/// What is older than the window allows is what happened before the cutoff, as long as the
/// cutoff is not in the future.
pub proof fn window_keeps_since_cutoff(cutoff: i64, now: i64, at: u64)
    requires
        0 <= cutoff <= now,
    ensures
        window_since(cutoff, now) is Ok,
        window_since(cutoff, now)->Ok_0.too_old(at) <==> at < cutoff,
{
}

} // verus!
