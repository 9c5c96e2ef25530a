//! Bookkeeping of one bidirectional relay: two copy directions, one
//! termination decision.
//!
//! The relay ends the moment either direction finishes, by end-of-stream
//! or by failure; it never waits for the other direction, and it orders
//! both transports closed exactly once. The byte copying itself is socket
//! work and happens outside; the caller reports each direction's end here.

use vstd::prelude::*;

verus! {

/// One of the two copy directions.
#[derive(Clone, Copy, PartialEq, Eq, Structural, Debug)]
pub enum RelayDir {
    /// Client to backend.
    Upstream,
    /// Backend to client.
    Downstream,
}

/// How a copy direction ended.
#[derive(Clone, Copy, PartialEq, Eq, Structural, Debug)]
pub enum CopyEnd {
    /// The source reported end-of-stream.
    Eof,
    /// A read or write failed; never retried.
    Failed,
}

/// What the relay reports to its caller: which direction ended first and
/// how.
#[derive(Clone, Copy, PartialEq, Eq, Structural, Debug)]
pub struct RelayOutcome {
    pub dir: RelayDir,
    pub end: CopyEnd,
}

/// One relay session: pairs one inbound and one outbound transport for
/// exactly the duration of the connection.
pub struct RelaySession {
    /// Set once the first direction ended and termination was decided.
    pub finished: bool,
    /// Set in the same moment: both transports have been ordered closed.
    pub closed: bool,
    /// How the relay ended, once it did.
    pub outcome: Option<RelayOutcome>,
}

impl RelaySession {
    /// Termination and closing always go together, and exactly then is
    /// there an outcome.
    pub open spec fn wf(self) -> bool {
        &&& self.closed == self.finished
        &&& self.outcome is Some <==> self.finished
    }

    /// A fresh relay: nothing ended yet, nothing closed.
    pub fn new() -> (r: RelaySession)
        ensures
            r.wf(),
            !r.finished,
            !r.closed,
            r.outcome is None,
    {
        RelaySession { finished: false, closed: false, outcome: None }
    }

    /// A copy direction ended. The first such report terminates the relay
    /// and orders both transports closed — the result says so; any later
    /// report changes nothing and orders nothing, so the transports are
    /// closed exactly once.
    pub fn on_direction_done(&mut self, dir: RelayDir, end: CopyEnd) -> (close_both: bool)
        requires
            old(self).wf(),
        ensures
            final(self).wf(),
            !old(self).finished ==> {
                &&& close_both
                &&& final(self).finished
                &&& final(self).closed
                &&& final(self).outcome == Some(RelayOutcome { dir, end })
            },
            old(self).finished ==> !close_both && *final(self) == *old(self),
    {
        if self.finished {
            return false;
        }
        self.finished = true;
        self.closed = true;
        self.outcome = Some(RelayOutcome { dir, end });
        true
    }

    /// How the relay ended, for reporting to the caller.
    pub fn outcome(&self) -> (r: Option<RelayOutcome>)
        ensures
            r == self.outcome,
    {
        self.outcome
    }
}

} // verus!
