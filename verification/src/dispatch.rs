//! The per-connection HTTP dispatch state machine.
//!
//! One `Session` lives for one accepted connection: it buffers inbound
//! bytes, decodes pipelined requests in arrival order, queues response
//! bytes, and drives the lifecycle `Reading` to `ShuttingDown` to `Closed`.
//! At most one timer is armed at any instant, and which one is a function
//! of the session's state: the slow-request guard before the first request
//! completes, the keep-alive guard afterwards, and the shutdown grace while
//! closing. The caller runs sockets and clocks and reports their events;
//! every decision lives here.

use vstd::prelude::*;

use crate::http_codec::{
    decode, decode_spec, find_terminator, lower_byte, lower_bytes, DecodeOutcome, DecodeShape,
    ReqShape, RequestHead,
};
use crate::http_render::{
    append_response, bad_request_reason, bad_request_reason_bytes, request_timeout_reason,
    request_timeout_reason_bytes, response_bytes,
};

verus! {

/// The read buffer refuses to grow beyond this many bytes without a
/// complete request being drained.
pub const HIGH_WATER_MARK: usize = 32768;

/// The three mutually exclusive per-connection timers.
#[derive(Clone, Copy, PartialEq, Eq, Structural, Debug)]
pub enum TimerKind {
    /// Guards against a client that connects but never finishes a request.
    SlowRequest,
    /// Bounds how long an idle kept-alive connection is held open.
    KeepAlive,
    /// Bounds how long a closing connection may wait before forced abort.
    ShutdownGrace,
}

/// How long each timer runs, in milliseconds.
pub const SLOW_REQUEST_MILLIS: u64 = 5000;

pub const KEEP_ALIVE_MILLIS: u64 = 5000;

pub const SHUTDOWN_GRACE_MILLIS: u64 = 5000;

/// The session lifecycle.
#[derive(Clone, Copy, PartialEq, Eq, Structural, Debug)]
pub enum SessionState {
    /// Accepting and decoding inbound bytes.
    Reading,
    /// Flushing what is buffered, then half-closing the write side.
    ShuttingDown,
    /// Terminal; nothing more happens.
    Closed,
}

/// The timer that must be armed in a given situation: the slow-request
/// guard until the first request completes, then the keep-alive guard where
/// keep-alive applies, the shutdown grace while closing, none when closed
/// or upgraded to a raw relay.
pub open spec fn timer_for(
    state: SessionState,
    started: bool,
    keepalive_enabled: bool,
    upgrade: bool,
) -> Option<TimerKind> {
    match state {
        SessionState::Reading => if upgrade {
            None
        } else if !started {
            Some(TimerKind::SlowRequest)
        } else if keepalive_enabled {
            Some(TimerKind::KeepAlive)
        } else {
            None
        },
        SessionState::ShuttingDown => Some(TimerKind::ShutdownGrace),
        SessionState::Closed => None,
    }
}

/// Per-connection dispatcher state.
pub struct Session {
    /// Where the lifecycle stands.
    pub state: SessionState,
    /// Bytes received and not yet decoded.
    pub read_buf: Vec<u8>,
    /// Bytes queued to be written to the peer.
    pub write_buf: Vec<u8>,
    /// Whether at least one request has been decoded.
    pub started: bool,
    /// Whether this connection may carry further requests after a response.
    pub keepalive_enabled: bool,
    /// Whether the peer half-closed its sending side.
    pub read_closed: bool,
    /// Whether this side half-closed its sending side.
    pub write_closed: bool,
    /// Whether an upgrade request moved the connection to a raw relay; no
    /// further HTTP framing is applied afterwards.
    pub upgrade: bool,
    /// The single armed timer, if any. Holding the timers in one `Option`
    /// makes arming two at once unrepresentable.
    pub timer: Option<TimerKind>,
}

impl Session {
    /// The armed timer is exactly the one the state calls for.
    pub open spec fn wf(self) -> bool {
        self.timer == timer_for(self.state, self.started, self.keepalive_enabled, self.upgrade)
    }

    /// A fresh session for a just-accepted connection: reading, nothing
    /// buffered, the slow-request guard armed.
    pub fn new(keepalive_enabled: bool) -> (r: Session)
        ensures
            r.wf(),
            r.state is Reading,
            r.read_buf@.len() == 0,
            r.write_buf@.len() == 0,
            !r.started,
            r.keepalive_enabled == keepalive_enabled,
            !r.read_closed,
            !r.write_closed,
            !r.upgrade,
            r.timer == Some(TimerKind::SlowRequest),
    {
        Session {
            state: SessionState::Reading,
            read_buf: Vec::new(),
            write_buf: Vec::new(),
            started: false,
            keepalive_enabled,
            read_closed: false,
            write_closed: false,
            upgrade: false,
            timer: Some(TimerKind::SlowRequest),
        }
    }
}

// ---------------------------------------------------------------------------
// Draining a buffer: the requests it yields, in order
// ---------------------------------------------------------------------------

/// The header name `upgrade`.
pub open spec fn upgrade_bytes() -> Seq<u8> {
    seq![117u8, 112u8, 103u8, 114u8, 97u8, 100u8, 101u8]
}

/// Whether a request asks for a protocol upgrade: it carries a header
/// named `Upgrade` in any casing.
pub open spec fn has_upgrade(req: ReqShape) -> bool {
    exists|i: int|
        0 <= i < req.headers.len() && lower_bytes(#[trigger] req.headers[i].0) == upgrade_bytes()
}

/// A complete head consumes at least its empty line and at most the buffer.
pub proof fn lemma_decode_complete_bounds(b: Seq<u8>)
    requires
        decode_spec(b) is Complete,
    ensures
        4 <= decode_spec(b)->Complete_used <= b.len(),
{
    lemma_find_terminator_bounds(b, 0);
}

proof fn lemma_find_terminator_bounds(s: Seq<u8>, i: int)
    requires
        0 <= i,
        find_terminator(s, i) is Some,
    ensures
        i <= find_terminator(s, i).unwrap(),
        find_terminator(s, i).unwrap() + 4 <= s.len(),
    decreases s.len() - i,
{
    if !(i + 4 > s.len()) && !(s[i] == 13 && s[i + 1] == 10 && s[i + 2] == 13 && s[i + 3]
        == 10) {
        lemma_find_terminator_bounds(s, i + 1);
    }
}

/// All requests the buffer yields, in order, stopping at an upgrade.
pub open spec fn drain_reqs(b: Seq<u8>) -> Seq<ReqShape>
    decreases b.len(),
    via drain_reqs_dec
{
    match decode_spec(b) {
        DecodeShape::Complete { used, req } => if has_upgrade(req) {
            seq![req]
        } else {
            seq![req] + drain_reqs(b.skip(used))
        },
        _ => Seq::empty(),
    }
}

#[via_fn]
proof fn drain_reqs_dec(b: Seq<u8>) {
    match decode_spec(b) {
        DecodeShape::Complete { used, req } => {
            lemma_decode_complete_bounds(b);
        },
        _ => {},
    }
}

/// What stays in the buffer once every complete request is drained.
pub open spec fn drain_rest(b: Seq<u8>) -> Seq<u8>
    decreases b.len(),
    via drain_rest_dec
{
    match decode_spec(b) {
        DecodeShape::Complete { used, req } => if has_upgrade(req) {
            b.skip(used)
        } else {
            drain_rest(b.skip(used))
        },
        _ => b,
    }
}

#[via_fn]
proof fn drain_rest_dec(b: Seq<u8>) {
    match decode_spec(b) {
        DecodeShape::Complete { used, req } => {
            lemma_decode_complete_bounds(b);
        },
        _ => {},
    }
}

/// Whether draining ends in an upgrade request.
pub open spec fn drain_upgraded(b: Seq<u8>) -> bool
    decreases b.len(),
    via drain_upgraded_dec
{
    match decode_spec(b) {
        DecodeShape::Complete { used, req } => if has_upgrade(req) {
            true
        } else {
            drain_upgraded(b.skip(used))
        },
        _ => false,
    }
}

#[via_fn]
proof fn drain_upgraded_dec(b: Seq<u8>) {
    match decode_spec(b) {
        DecodeShape::Complete { used, req } => {
            lemma_decode_complete_bounds(b);
        },
        _ => {},
    }
}

/// Whether a decoded head asks for an upgrade.
fn req_has_upgrade(req: &RequestHead) -> (r: bool)
    ensures
        r == has_upgrade(req.shape()),
{
    let ghost hs = req.shape().headers;
    let mut i: usize = 0;
    while i < req.headers.len()
        invariant
            i <= req.headers@.len(),
            hs == req.shape().headers,
            hs.len() == req.headers@.len(),
            forall|j: int| 0 <= j < i ==> lower_bytes(#[trigger] hs[j].0) != upgrade_bytes(),
        decreases req.headers@.len() - i,
    {
        proof {
            assert(hs[i as int] == (req.headers@[i as int].name@, req.headers@[i as int].value@));
        }
        if name_is_upgrade(&req.headers[i].name) {
            proof {
                assert(lower_bytes(hs[i as int].0) == upgrade_bytes());
            }
            return true;
        }
        i = i + 1;
    }
    false
}

/// Whether a header name is `Upgrade` in any casing.
fn name_is_upgrade(name: &Vec<u8>) -> (r: bool)
    ensures
        r == (lower_bytes(name@) == upgrade_bytes()),
{
    if name.len() != 7 {
        proof {
            assert(lower_bytes(name@).len() == name@.len());
        }
        return false;
    }
    let mut i: usize = 0;
    while i < 7
        invariant
            i <= 7,
            name@.len() == 7,
            forall|j: int| 0 <= j < i ==> lower_bytes(name@)[j] == upgrade_bytes()[j],
        decreases 7 - i,
    {
        let c = name[i];
        let lc: u8 = if 65 <= c && c <= 90 {
            c + 32
        } else {
            c
        };
        let want: u8 = if i == 0 {
            117
        } else if i == 1 {
            112
        } else if i == 2 {
            103
        } else if i == 3 {
            114
        } else if i == 4 {
            97
        } else if i == 5 {
            100
        } else {
            101
        };
        proof {
            assert(lower_bytes(name@)[i as int] == lower_byte(name@[i as int]));
            assert(upgrade_bytes()[i as int] == want);
        }
        if lc != want {
            assert(lower_bytes(name@)[i as int] != upgrade_bytes()[i as int]);
            return false;
        }
        proof {
            assert(lower_bytes(name@)[i as int] == upgrade_bytes()[i as int]);
        }
        i = i + 1;
    }
    proof {
        assert(lower_bytes(name@) =~= upgrade_bytes());
    }
    true
}

} // verus!

verus! {

// ---------------------------------------------------------------------------
// Feeding bytes
// ---------------------------------------------------------------------------

/// The shapes of a run of decoded heads.
pub open spec fn req_shapes(out: Seq<RequestHead>) -> Seq<ReqShape> {
    out.map_values(|r: RequestHead| r.shape())
}

/// Draining stops before a complete head unless it stops at an upgrade.
proof fn lemma_drain_rest_not_complete(b: Seq<u8>)
    requires
        !drain_upgraded(b),
    ensures
        !(decode_spec(drain_rest(b)) is Complete),
    decreases b.len(),
{
    match decode_spec(b) {
        DecodeShape::Complete { used, req } => {
            lemma_decode_complete_bounds(b);
            lemma_drain_rest_not_complete(b.skip(used));
        },
        _ => {},
    }
}

/// Everything `on_data` promises, relating the session before and after
/// one feeding of `bytes`, the decoded heads `outs`, and the `date` header
/// value used for any error response.
pub open spec fn on_data_post(
    pre: Session,
    post: Session,
    outs: Seq<ReqShape>,
    bytes: Seq<u8>,
    date: Seq<u8>,
) -> bool {
    let input = pre.read_buf@ + bytes;
    &&& post.keepalive_enabled == pre.keepalive_enabled
    &&& post.read_closed == pre.read_closed
    &&& post.write_closed == pre.write_closed
    &&& if input.len() > HIGH_WATER_MARK as int {
        // the buffer would outgrow its bound: refuse, answer 400, shut down
        &&& outs == Seq::<ReqShape>::empty()
        &&& post.state is ShuttingDown
        &&& post.started == pre.started
        &&& post.upgrade == pre.upgrade
        &&& post.read_buf@ == pre.read_buf@
        &&& post.write_buf@ == pre.write_buf@ + response_bytes(
            400,
            bad_request_reason_bytes(),
            date,
            Seq::<u8>::empty(),
        )
    } else {
        &&& outs == drain_reqs(input)
        &&& post.read_buf@ == drain_rest(input)
        &&& post.started == (pre.started || outs.len() > 0)
        &&& if drain_upgraded(input) {
            // raw relay from here on: no framing, no timers
            &&& post.upgrade
            &&& post.state is Reading
            &&& post.write_buf@ == pre.write_buf@
        } else if decode_spec(drain_rest(input)) is Partial {
            // wait for more bytes
            &&& !post.upgrade
            &&& post.state is Reading
            &&& post.write_buf@ == pre.write_buf@
        } else {
            // a malformed or wrongly versioned head: answer 400, shut down
            &&& !post.upgrade
            &&& post.state is ShuttingDown
            &&& post.write_buf@ == pre.write_buf@ + response_bytes(
                400,
                bad_request_reason_bytes(),
                date,
                Seq::<u8>::empty(),
            )
        }
    }
}

impl Session {
    /// Feed freshly read bytes: decode every complete request in arrival
    /// order, stop at an upgrade, keep what is incomplete, and on a
    /// protocol error queue one `400 Bad Request` and begin shutting down.
    /// Every decoded request re-arms the keep-alive guard where keep-alive
    /// applies.
    pub fn on_data(&mut self, bytes: &[u8], date: &[u8]) -> (out: Vec<RequestHead>)
        requires
            old(self).wf(),
            old(self).state is Reading,
            !old(self).upgrade,
        ensures
            final(self).wf(),
            on_data_post(*old(self), *final(self), req_shapes(out@), bytes@, date@),
    {
        let ghost pre = *self;
        let ghost input = self.read_buf@ + bytes@;
        let mut out: Vec<RequestHead> = Vec::new();
        proof {
            assert(req_shapes(out@) =~= Seq::<ReqShape>::empty());
        }
        if bytes.len() > HIGH_WATER_MARK || self.read_buf.len() > HIGH_WATER_MARK
            - bytes.len() {
            let reason = bad_request_reason();
            let empty_body: Vec<u8> = Vec::new();
            append_response(
                &mut self.write_buf,
                400,
                reason.as_slice(),
                date,
                empty_body.as_slice(),
            );
            self.state = SessionState::ShuttingDown;
            self.timer = Some(TimerKind::ShutdownGrace);
            return out;
        }
        self.read_buf.extend_from_slice(bytes);
        proof {
            assert(self.read_buf@ == input);
        }
        #[verifier::loop_isolation(false)]
        loop
            invariant
                self.state is Reading,
                !self.upgrade,
                self.keepalive_enabled == pre.keepalive_enabled,
                self.started == pre.started,
                self.read_closed == pre.read_closed,
                self.write_closed == pre.write_closed,
                self.write_buf@ == pre.write_buf@,
                self.timer == pre.timer,
                drain_reqs(input) == req_shapes(out@) + drain_reqs(self.read_buf@),
                drain_rest(input) == drain_rest(self.read_buf@),
                drain_upgraded(input) == drain_upgraded(self.read_buf@),
                input.len() <= HIGH_WATER_MARK as int,
            decreases self.read_buf@.len(),
        {
            let ghost buf_now = self.read_buf@;
            let outcome = decode(self.read_buf.as_slice());
            match outcome {
                DecodeOutcome::Partial => {
                    proof {
                        assert(drain_reqs(buf_now) =~= Seq::<ReqShape>::empty());
                        assert(drain_rest(buf_now) == buf_now);
                        assert(req_shapes(out@) + Seq::<ReqShape>::empty() =~= req_shapes(
                            out@,
                        ));
                    }
                    if out.len() > 0 {
                        self.started = true;
                    }
                    if self.started {
                        if self.keepalive_enabled {
                            self.timer = Some(TimerKind::KeepAlive);
                        } else {
                            self.timer = None;
                        }
                    }
                    return out;
                },
                DecodeOutcome::Complete { used, req } => {
                    proof {
                        lemma_decode_complete_bounds(buf_now);
                    }
                    let up = req_has_upgrade(&req);
                    let ghost shape = req.shape();
                    let ghost outs_before = req_shapes(out@);
                    out.push(req);
                    proof {
                        assert(req_shapes(out@) =~= outs_before.push(shape));
                        assert(outs_before.push(shape) =~= outs_before + seq![shape]);
                    }
                    let tail = self.read_buf.split_off(used);
                    self.read_buf = tail;
                    proof {
                        assert(self.read_buf@ == buf_now.skip(used as int));
                    }
                    if up {
                        self.upgrade = true;
                        self.started = true;
                        self.timer = None;
                        proof {
                            assert(drain_reqs(buf_now) =~= seq![shape]);
                            assert(outs_before + seq![shape] =~= req_shapes(out@));
                            assert(drain_rest(buf_now) == buf_now.skip(used as int));
                            assert(drain_upgraded(buf_now));
                        }
                        return out;
                    }
                    proof {
                        assert(drain_reqs(buf_now) == seq![shape] + drain_reqs(
                            self.read_buf@,
                        ));
                        assert(req_shapes(out@) + drain_reqs(self.read_buf@) =~= outs_before + (
                        seq![shape] + drain_reqs(self.read_buf@)));
                    }
                },
                DecodeOutcome::BadVersion => {
                    let reason = bad_request_reason();
                    let empty_body: Vec<u8> = Vec::new();
                    append_response(
                        &mut self.write_buf,
                        400,
                        reason.as_slice(),
                        date,
                        empty_body.as_slice(),
                    );
                    self.state = SessionState::ShuttingDown;
                    self.timer = Some(TimerKind::ShutdownGrace);
                    if out.len() > 0 {
                        self.started = true;
                    }
                    proof {
                        assert(drain_reqs(buf_now) =~= Seq::<ReqShape>::empty());
                        assert(drain_rest(buf_now) == buf_now);
                        assert(req_shapes(out@) + Seq::<ReqShape>::empty() =~= req_shapes(
                            out@,
                        ));
                    }
                    return out;
                },
                DecodeOutcome::Malformed => {
                    let reason = bad_request_reason();
                    let empty_body: Vec<u8> = Vec::new();
                    append_response(
                        &mut self.write_buf,
                        400,
                        reason.as_slice(),
                        date,
                        empty_body.as_slice(),
                    );
                    self.state = SessionState::ShuttingDown;
                    self.timer = Some(TimerKind::ShutdownGrace);
                    if out.len() > 0 {
                        self.started = true;
                    }
                    proof {
                        assert(drain_reqs(buf_now) =~= Seq::<ReqShape>::empty());
                        assert(drain_rest(buf_now) == buf_now);
                        assert(req_shapes(out@) + Seq::<ReqShape>::empty() =~= req_shapes(
                            out@,
                        ));
                    }
                    return out;
                },
            }
        }
    }
}

} // verus!

verus! {

/// What the caller must do after a timer fired.
#[derive(Clone, Copy, PartialEq, Eq, Structural, Debug)]
pub enum TimerAction {
    /// Flush the write buffer, then half-close: an orderly shutdown began.
    BeginShutdown,
    /// Tear the connection down at once, without flushing anything.
    Abort,
}

impl Session {
    /// The armed timer fired. A slow request answers `408 Request Timeout`
    /// and begins the shutdown; an expired keep-alive begins the shutdown
    /// silently; an expired shutdown grace is fatal: the session is closed
    /// at once, never retried.
    pub fn on_timer(&mut self, date: &[u8]) -> (r: TimerAction)
        requires
            old(self).wf(),
            old(self).timer is Some,
        ensures
            final(self).wf(),
            final(self).read_buf == old(self).read_buf,
            final(self).started == old(self).started,
            final(self).keepalive_enabled == old(self).keepalive_enabled,
            final(self).read_closed == old(self).read_closed,
            final(self).write_closed == old(self).write_closed,
            final(self).upgrade == old(self).upgrade,
            match old(self).timer.unwrap() {
                TimerKind::SlowRequest => {
                    &&& final(self).state is ShuttingDown
                    &&& final(self).write_buf@ == old(self).write_buf@ + response_bytes(
                        408,
                        request_timeout_reason_bytes(),
                        date@,
                        Seq::<u8>::empty(),
                    )
                    &&& r == TimerAction::BeginShutdown
                },
                TimerKind::KeepAlive => {
                    &&& final(self).state is ShuttingDown
                    &&& final(self).write_buf == old(self).write_buf
                    &&& r == TimerAction::BeginShutdown
                },
                TimerKind::ShutdownGrace => {
                    &&& final(self).state is Closed
                    &&& final(self).write_buf == old(self).write_buf
                    &&& r == TimerAction::Abort
                },
            },
    {
        let timer = self.timer.unwrap();
        match timer {
            TimerKind::SlowRequest => {
                let reason = request_timeout_reason();
                let empty_body: Vec<u8> = Vec::new();
                append_response(
                    &mut self.write_buf,
                    408,
                    reason.as_slice(),
                    date,
                    empty_body.as_slice(),
                );
                self.state = SessionState::ShuttingDown;
                self.timer = Some(TimerKind::ShutdownGrace);
                TimerAction::BeginShutdown
            },
            TimerKind::KeepAlive => {
                self.state = SessionState::ShuttingDown;
                self.timer = Some(TimerKind::ShutdownGrace);
                TimerAction::BeginShutdown
            },
            TimerKind::ShutdownGrace => {
                self.state = SessionState::Closed;
                self.timer = None;
                TimerAction::Abort
            },
        }
    }

    /// The peer half-closed its sending side: note it and, unless the
    /// session is already closed, begin the orderly shutdown.
    pub fn on_read_eof(&mut self)
        requires
            old(self).wf(),
        ensures
            final(self).wf(),
            final(self).read_closed,
            final(self).read_buf == old(self).read_buf,
            final(self).write_buf == old(self).write_buf,
            final(self).started == old(self).started,
            final(self).keepalive_enabled == old(self).keepalive_enabled,
            final(self).write_closed == old(self).write_closed,
            final(self).upgrade == old(self).upgrade,
            old(self).state is Closed ==> final(self).state is Closed,
            !(old(self).state is Closed) ==> final(self).state is ShuttingDown,
    {
        self.read_closed = true;
        match self.state {
            SessionState::Closed => {},
            _ => {
                self.state = SessionState::ShuttingDown;
                self.timer = Some(TimerKind::ShutdownGrace);
            },
        }
    }

    /// Hand out the queued response bytes for writing; the queue empties.
    pub fn take_write_buf(&mut self) -> (r: Vec<u8>)
        requires
            old(self).wf(),
        ensures
            final(self).wf(),
            r == old(self).write_buf,
            final(self).write_buf@.len() == 0,
            final(self).state == old(self).state,
            final(self).read_buf == old(self).read_buf,
            final(self).started == old(self).started,
            final(self).keepalive_enabled == old(self).keepalive_enabled,
            final(self).read_closed == old(self).read_closed,
            final(self).write_closed == old(self).write_closed,
            final(self).upgrade == old(self).upgrade,
            final(self).timer == old(self).timer,
    {
        let mut taken: Vec<u8> = Vec::new();
        core::mem::swap(&mut taken, &mut self.write_buf);
        taken
    }

    /// Everything queued has reached the socket. While shutting down this
    /// is the moment to half-close the write side; the result says whether
    /// to do so.
    pub fn on_flushed(&mut self) -> (half_close: bool)
        requires
            old(self).wf(),
        ensures
            final(self).wf(),
            *final(self) == *old(self),
            half_close == (old(self).state is ShuttingDown && !old(self).write_closed),
    {
        match self.state {
            SessionState::ShuttingDown => !self.write_closed,
            _ => false,
        }
    }

    /// The half-close of the write side completed: the session is done.
    pub fn on_shutdown_ack(&mut self)
        requires
            old(self).wf(),
            old(self).state is ShuttingDown,
        ensures
            final(self).wf(),
            final(self).state is Closed,
            final(self).write_closed,
            final(self).timer is None,
            final(self).read_buf == old(self).read_buf,
            final(self).write_buf == old(self).write_buf,
            final(self).started == old(self).started,
            final(self).keepalive_enabled == old(self).keepalive_enabled,
            final(self).read_closed == old(self).read_closed,
            final(self).upgrade == old(self).upgrade,
    {
        self.write_closed = true;
        self.state = SessionState::Closed;
        self.timer = None;
    }

    /// A read or write failed. Failures are not retried: the session is
    /// closed at once.
    pub fn on_io_error(&mut self)
        requires
            old(self).wf(),
        ensures
            final(self).wf(),
            final(self).state is Closed,
            final(self).timer is None,
            final(self).read_buf == old(self).read_buf,
            final(self).write_buf == old(self).write_buf,
            final(self).started == old(self).started,
            final(self).keepalive_enabled == old(self).keepalive_enabled,
            final(self).read_closed == old(self).read_closed,
            final(self).write_closed == old(self).write_closed,
            final(self).upgrade == old(self).upgrade,
    {
        self.state = SessionState::Closed;
        self.timer = None;
    }
}

// ---------------------------------------------------------------------------
// Laws of draining
// ---------------------------------------------------------------------------

/// A buffer holding exactly one complete, non-upgrading request drains to
/// exactly that one request and an empty remainder.
pub proof fn lemma_single_request_drain(b: Seq<u8>)
    requires
        decode_spec(b) is Complete,
        decode_spec(b)->Complete_used == b.len(),
        !has_upgrade(decode_spec(b)->Complete_req),
    ensures
        drain_reqs(b) == seq![decode_spec(b)->Complete_req],
        drain_rest(b) == Seq::<u8>::empty(),
        decode_spec(drain_rest(b)) is Partial,
    decreases b.len(),
{
    let used = decode_spec(b)->Complete_used;
    let req = decode_spec(b)->Complete_req;
    assert(b.skip(used) =~= Seq::<u8>::empty());
    assert(decode_spec(Seq::<u8>::empty()) is Partial);
    assert(drain_reqs(Seq::<u8>::empty()) =~= Seq::<ReqShape>::empty());
    assert(drain_rest(Seq::<u8>::empty()) == Seq::<u8>::empty());
    assert(drain_rest(b) == drain_rest(b.skip(used)));
    assert(drain_reqs(b) =~= seq![req] + Seq::<ReqShape>::empty());
    assert(seq![req] + Seq::<ReqShape>::empty() =~= seq![req]);
}

/// A buffer with no complete head yet drains to no requests and stays as
/// it is.
pub proof fn lemma_partial_drain(b: Seq<u8>)
    requires
        decode_spec(b) is Partial,
    ensures
        drain_reqs(b) == Seq::<ReqShape>::empty(),
        drain_rest(b) == b,
        !drain_upgraded(b),
{
}

} // verus!
