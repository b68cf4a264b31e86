//! The pool of handlers: how many there are, which one takes a request, and what a client
//! is told when none does.

use vstd::arithmetic::div_mod::lemma_fundamental_div_mod;
use vstd::prelude::*;

use crate::errors::{DbError, DbErrorView};
use crate::routing::Routing;

verus! {

/// How many requests may wait for a handler.
pub const DEFAULT_CHANNEL_BOUND: usize = 256;

/// How many handlers a pool has: as many as asked for, or half of what the machine can run
/// at once, and at least one.
pub open spec fn pool_size(requested: Option<usize>, parallelism: Option<usize>) -> usize {
    let n = match requested {
        Some(n) => n,
        None => match parallelism {
            Some(p) => if p >= 2 {
                p / 2
            } else {
                1
            },
            None => 1,
        },
    };
    if n == 0 {
        1
    } else {
        n
    }
}

pub fn handler_count(requested: Option<usize>, parallelism: Option<usize>) -> (r: usize)
    ensures
        r == pool_size(requested, parallelism),
        r >= 1,
{
    let n: usize = match requested {
        Some(n) => n,
        None => match parallelism {
            Some(p) => {
                if p >= 2 {
                    p / 2
                } else {
                    1
                }
            },
            None => 1,
        },
    };
    if n == 0 {
        1
    } else {
        n
    }
}

/// Who is next among a number of handlers.
#[derive(Debug, Clone, Copy, PartialEq, Eq, Structural)]
pub struct Roster {
    threads: usize,
    handlers: usize,
    turn: usize,
}

pub struct RosterView {
    /// How many handlers the pool was made with.
    pub threads: usize,
    /// How many of them take requests: all, or none once the pool is closed.
    pub handlers: usize,
    /// How many requests that anybody may take were given out.
    pub turn: usize,
}

impl View for Roster {
    type V = RosterView;

    closed spec fn view(&self) -> RosterView {
        RosterView { threads: self.threads, handlers: self.handlers, turn: self.turn }
    }
}

/// Why a request could not be handed over.
#[derive(Debug, Clone, Copy, PartialEq, Eq, Structural)]
pub enum SendFailure {
    /// Too many requests wait already.
    Full,
    /// The handler is gone.
    Disconnected,
}

pub open spec fn pool_closed() -> DbErrorView {
    DbErrorView::Connection("metastore handler pool shut down"@)
}

fn closed_error() -> (r: DbError)
    ensures
        r@ == pool_closed(),
{
    DbError::Connection("metastore handler pool shut down".to_owned())
}

/// What a client is told of a request that could not be handed over.
pub fn send_error(failure: SendFailure) -> (r: DbError)
    ensures
        r@ == (match failure {
            SendFailure::Full => DbErrorView::Query("metastore handler backpressure"@),
            SendFailure::Disconnected => pool_closed(),
        }),
{
    match failure {
        SendFailure::Full => DbError::Query("metastore handler backpressure".to_owned()),
        SendFailure::Disconnected => closed_error(),
    }
}

pub open spec fn reply_lost() -> DbErrorView {
    DbErrorView::Connection("metastore handler thread closed"@)
}

/// What a client is told whose request was taken and never answered.
pub fn lost_reply_error() -> (r: DbError)
    ensures
        r@ == reply_lost(),
{
    DbError::Connection("metastore handler thread closed".to_owned())
}

/// The handler of a request, among some handlers.
pub open spec fn assigned(roster: RosterView, routing: Routing) -> int {
    match routing {
        Routing::Sharded(bits) => (bits as usize) as int % roster.handlers as int,
        Routing::Global => roster.turn as int % roster.handlers as int,
    }
}

/// The roster after a request that anybody may take.
pub open spec fn next_turn(roster: RosterView) -> RosterView {
    RosterView {
        turn: if roster.turn == usize::MAX {
            0
        } else {
            (roster.turn + 1) as usize
        },
        ..roster
    }
}

/// The handler that a request is given to, if any is left, and the roster afterwards.
pub open spec fn assignment(roster: RosterView, routing: Routing) -> (
    Result<int, DbErrorView>,
    RosterView,
) {
    if roster.handlers == 0 {
        (Err(pool_closed()), roster)
    } else {
        (
            Ok(assigned(roster, routing)),
            match routing {
                Routing::Sharded(_) => roster,
                Routing::Global => next_turn(roster),
            },
        )
    }
}

/// The roster of a pool that was closed.
pub open spec fn closed(roster: RosterView) -> RosterView {
    RosterView { handlers: 0, ..roster }
}

impl Roster {
    pub fn new(handlers: usize) -> (r: Roster)
        ensures
            r@ == (RosterView { threads: handlers, handlers, turn: 0 }),
    {
        Roster { threads: handlers, handlers, turn: 0 }
    }

    /// Assigns a request to a handler. Requests that anybody may take go around.
    pub fn assign(&mut self, routing: Routing) -> (r: Result<usize, DbError>)
        ensures
            match assignment(old(self)@, routing).0 {
                Ok(n) => r is Ok && r->Ok_0 == n && n < old(self)@.handlers,
                Err(e) => r is Err && r->Err_0@ == e,
            },
            final(self)@ == assignment(old(self)@, routing).1,
    {
        if self.handlers == 0 {
            return Err(closed_error());
        }
        match routing {
            Routing::Sharded(bits) => Ok((bits as usize) % self.handlers),
            Routing::Global => {
                let turn: usize = self.turn;
                self.turn = turn.wrapping_add(1);
                Ok(turn % self.handlers)
            },
        }
    }

    /// No request is assigned any more.
    pub fn close(&mut self)
        ensures
            final(self)@ == closed(old(self)@),
    {
        self.handlers = 0;
    }

    /// How many handlers the pool was made with.
    pub fn thread_count(&self) -> (r: usize)
        ensures
            r == self@.threads,
    {
        self.threads
    }
}

/// Once a pool is closed every request is refused and nothing changes any more, a second
/// closing included; the number of its handlers stays what it was.
pub proof fn closed_pool_stays_closed(roster: RosterView, routing: Routing)
    ensures
        assignment(closed(roster), routing) == (
            Err::<int, DbErrorView>(pool_closed()),
            closed(roster),
        ),
        closed(closed(roster)) == closed(roster),
        closed(roster).threads == roster.threads,
        assignment(roster, routing).1.threads == roster.threads,
{
}

/// Requests that are about one subject go to one handler, whatever came between them.
pub proof fn sharded_requests_stay_together(a: RosterView, b: RosterView, bits: u64)
    requires
        a.handlers == b.handlers,
    ensures
        assigned(a, Routing::Sharded(bits)) == assigned(b, Routing::Sharded(bits)),
{
}

/// Requests that anybody may take reach all handlers in turn: as many of them as there are
/// handlers go to different ones.
pub proof fn global_requests_go_around(handlers: usize, turn: usize, i: usize, j: usize)
    requires
        handlers > 0,
        i < j < turn + handlers,
        turn <= i,
        turn + handlers <= usize::MAX,
    ensures
        assigned(RosterView { threads: handlers, handlers, turn: i }, Routing::Global) != assigned(
            RosterView { threads: handlers, handlers, turn: j },
            Routing::Global,
        ),
{
    let n = handlers as int;
    lemma_fundamental_div_mod(i as int, n);
    lemma_fundamental_div_mod(j as int, n);
    let a = i as int / n;
    let b = j as int / n;
    if i as int % n == j as int % n {
        assert(n * b - n * a == j - i);
        assert(n * (b - a) == n * b - n * a) by (nonlinear_arith);
        if b <= a {
            assert(n * (b - a) <= 0) by (nonlinear_arith)
                requires
                    n > 0,
                    b <= a,
            ;
        } else {
            assert(n * (b - a) >= n) by (nonlinear_arith)
                requires
                    n > 0,
                    b > a,
            ;
        }
        assert(false);
    }
}

} // verus!
