use vstd::prelude::*;

use vstd::utf8::encode_utf8;

use crate::codec::{i32_bytes, ustring_bytes};
use crate::error::Error;
use crate::request::{watcher_type, Request};
use crate::pipeline::{after_reply, answers_head, following_xid, reserved, tickets, Pipeline, Route};
use crate::session::{SessionInput, SessionState};
use crate::watch::{
    broken, ids, reaches_on_session, stays_on_session, Removal, Watch, WatchKind, WatchRegistry,
};

verus! {

/// What the session task is to do after a change of connection or session.
#[derive(Debug)]
pub struct Transition {
    /// The session state now.
    pub state: SessionState,
    /// Whether the state changed: then the state watchers are told.
    pub changed: bool,
    /// The watches to hand a session event of `state` to.
    pub notified: Vec<u64>,
    /// The reply slots of requests to fail with `error`.
    pub failed: Vec<u64>,
    pub error: Error,
}

/// How the removal of a watcher goes on.
#[derive(Debug)]
pub enum RemoveStep {
    /// No request is needed: other subscribers keep the server's watch, or
    /// the watcher was not registered. The removal has succeeded.
    Done,
    /// The removal request went out with transaction id `xid`, in the bytes
    /// `bytes`; its reply completes the removal.
    Sent { xid: i32, bytes: Vec<u8> },
    /// Not connected: the request waits for the session to reconnect.
    Held { request: Request },
}

/// Some watch of `ws` has the kind and path of `w`.
pub open spec fn shared_with(ws: Seq<Watch>, w: Watch) -> bool {
    exists|m: int| 0 <= m < ws.len() && #[trigger] ws[m].kind == w.kind && ws[m].path@ == w.path@
}

/// The bytes of the request that removes the server's watch of `kind` on `path`.
pub open spec fn remove_watches_bytes(xid: i32, kind: WatchKind, path: Seq<char>) -> Seq<u8> {
    i32_bytes(xid) + i32_bytes(18) + ustring_bytes(path) + i32_bytes(watcher_type(kind))
}

/// What removing the watch `id`, whose reply slot is `ticket`, does to the
/// session core (`c0` to `c1`) and to the watches (`w0` to `w1`), and what it returns.
pub open spec fn removal_done(
    c0: SessionCore,
    c1: SessionCore,
    w0: Seq<Watch>,
    w1: Seq<Watch>,
    id: u64,
    ticket: u64,
    r: Result<RemoveStep, Error>,
) -> bool {
    let unchanged = c1.in_flight() == c0.in_flight() && c1.next_xid() == c0.next_xid();
    &&& w1 == w0.filter(|w: Watch| w.id != id)
    &&& c1.current() == c0.current()
    &&& c0.current().terminal() ==> r == Err::<RemoveStep, Error>(c0.current().end_error())
        && unchanged
    &&& !c0.current().terminal() && !ids(w0).contains(id) ==> r is Ok && r->Ok_0 is Done
        && unchanged
    &&& forall|k: int|
        0 <= k < w0.len() && #[trigger] w0[k].id == id && !c0.current().terminal() ==> {
            let kind = w0[k].kind;
            let path = w0[k].path@;
            &&& shared_with(w1, w0[k]) ==> r is Ok && r->Ok_0 is Done && unchanged
            &&& !shared_with(w1, w0[k]) && SessionCore::sending(c0.current()) && encode_utf8(
                path,
            ).len() < 0x80000000 ==> {
                &&& r matches Ok(RemoveStep::Sent { xid, bytes })
                &&& xid == c0.next_xid()
                &&& bytes@ == remove_watches_bytes(xid, kind, path)
                &&& c1.in_flight() == c0.in_flight().push((xid, ticket))
                &&& c1.next_xid() == following_xid(xid)
            }
            &&& !shared_with(w1, w0[k]) && SessionCore::sending(c0.current()) && encode_utf8(
                path,
            ).len() >= 0x80000000 ==> r == Err::<RemoveStep, Error>(Error::BadArguments)
                && unchanged
            &&& !shared_with(w1, w0[k]) && !SessionCore::sending(c0.current()) ==> {
                &&& r matches Ok(RemoveStep::Held { request })
                &&& request matches Request::RemoveWatches { path: p, kind: q }
                &&& p@ == path && q == kind
                &&& unchanged
            }
        }
}

/// The decisions of the session task: the session state and the requests in flight.
pub struct SessionCore {
    state: SessionState,
    pipeline: Pipeline,
}

impl SessionCore {
    /// The session state.
    pub closed spec fn current(&self) -> SessionState {
        self.state
    }

    /// The requests in flight, oldest first: transaction id and reply slot.
    pub closed spec fn in_flight(&self) -> Seq<(i32, u64)> {
        self.pipeline@
    }

    /// The transaction id that the next request goes out with.
    pub closed spec fn next_xid(&self) -> i32 {
        self.pipeline.next()
    }

    /// The pipeline is well formed.
    pub closed spec fn wf(&self) -> bool {
        self.pipeline.wf()
    }

    /// A session not connected yet, with nothing in flight.
    pub fn new() -> (r: SessionCore)
        ensures
            r.wf(),
            r.current() == SessionState::Disconnected,
            r.in_flight() == Seq::<(i32, u64)>::empty(),
            r.next_xid() == 1,
    {
        SessionCore { state: SessionState::Disconnected, pipeline: Pipeline::new() }
    }

    /// The session state.
    pub fn state(&self) -> (r: SessionState)
        ensures
            r == self.current(),
    {
        self.state
    }

    /// Whether requests can go out now.
    pub open spec fn sending(state: SessionState) -> bool {
        state is SyncConnected || state is ReadOnlyConnected
    }

    /// Sends the request with reply slot `ticket`, if connected: returns its
    /// transaction id. Otherwise the request waits, and `None` comes back.
    pub fn submit(&mut self, ticket: u64) -> (r: Option<i32>)
        requires
            old(self).wf(),
        ensures
            final(self).wf(),
            final(self).current() == old(self).current(),
            Self::sending(old(self).current()) ==> (r matches Some(xid) && xid > 0 && xid
                == old(self).next_xid() && final(self).next_xid() == following_xid(xid)
                && final(self).in_flight() == old(self).in_flight().push((xid, ticket))),
            !Self::sending(old(self).current()) ==> r is None && final(self).in_flight()
                == old(self).in_flight() && final(self).next_xid() == old(self).next_xid(),
    {
        match self.state {
            SessionState::SyncConnected | SessionState::ReadOnlyConnected => {
                Some(self.pipeline.send(ticket))
            },
            _ => None,
        }
    }

    /// Removes the watch `id` on its subscriber's request, with reply slot
    /// `ticket`. The watch leaves the registry; other subscribers of its kind
    /// and path stay. The last one's removal goes to the server behind the
    /// requests already sent, or waits while disconnected. Once the session
    /// is over the removal fails with the error of its end state.
    pub fn remove_watch(&mut self, watches: &mut WatchRegistry, id: u64, ticket: u64) -> (r: Result<
        RemoveStep,
        Error,
    >)
        requires
            old(self).wf(),
            old(watches).wf(),
        ensures
            final(self).wf(),
            final(watches).wf(),
            removal_done(*old(self), *final(self), old(watches)@, final(watches)@, id, ticket, r),
    {
        let removal = watches.remove(id);
        if self.state.is_terminal() {
            return Err(self.state.to_error());
        }
        let r = match removal {
            Removal::Unknown => Ok(RemoveStep::Done),
            Removal::Shared => Ok(RemoveStep::Done),
            Removal::Last { kind, path } => {
                proof {
                    let q = choose|q: int|
                        0 <= q < ids(old(watches)@).len() && ids(old(watches)@)[q] == id;
                    assert(old(watches)@[q].id == id);
                    assert(forall|k: int|
                        0 <= k < old(watches)@.len() && #[trigger] old(watches)@[k].id == id
                            ==> old(watches)@[k].kind == kind && old(watches)@[k].path@ == path@);
                }
                let ghost path_view = path@;
                let request = Request::RemoveWatches { path, kind };
                match self.state {
                    SessionState::SyncConnected | SessionState::ReadOnlyConnected => {
                        let xid = self.pipeline.next_xid();
                        match request.encode(xid) {
                            Ok(bytes) => {
                                assert(bytes@ =~= remove_watches_bytes(xid, kind, path_view));
                                let sent = self.pipeline.send(ticket);
                                Ok(RemoveStep::Sent { xid: sent, bytes })
                            },
                            Err(e) => Err(e),
                        }
                    },
                    _ => Ok(RemoveStep::Held { request }),
                }
            },
        };
        proof {
            let w0 = old(watches)@;
            assert forall|k: int| 0 <= k < w0.len() && #[trigger] w0[k].id == id implies ids(
                w0,
            ).contains(id) by {
                assert(ids(w0)[k] == w0[k].id);
            }
        }
        r
    }

    /// Routes an incoming reply by its transaction id.
    pub fn on_reply(&mut self, xid: i32) -> (r: Result<Route, Error>)
        requires
            old(self).wf(),
        ensures
            final(self).wf(),
            final(self).current() == old(self).current(),
            final(self).next_xid() == old(self).next_xid(),
            answers_or_fails(old(self).in_flight(), final(self).in_flight(), xid, r),
    {
        self.pipeline.route(xid)
    }

    /// Takes in what the connection went through. On a change of state every
    /// watch that the session event reaches is notified; when the connection
    /// is gone the requests in flight fail, with connection loss or, once
    /// the session is over, with the error of its end state.
    pub fn apply(&mut self, input: SessionInput, watches: &mut WatchRegistry) -> (r: Transition)
        requires
            old(self).wf(),
            old(watches).wf(),
        ensures
            final(self).wf(),
            final(watches).wf(),
            r.state == old(self).current().next(input),
            final(self).current() == r.state,
            final(self).next_xid() == old(self).next_xid(),
            old(self).current().terminal() ==> r.state == old(self).current(),
            r.changed == (r.state != old(self).current()),
            r.error == r.state.end_error(),
            !r.changed ==> {
                &&& r.notified@.len() == 0
                &&& r.failed@.len() == 0
                &&& final(watches)@ == old(watches)@
                &&& final(self).in_flight() == old(self).in_flight()
            },
            r.changed ==> {
                &&& r.notified@ == ids(old(watches)@.filter(|w: Watch| reaches_on_session(w, r.state)))
                &&& final(watches)@ == old(watches)@.filter(|w: Watch| stays_on_session(w, r.state))
            },
            r.changed && broken(r.state) ==> r.failed@ == tickets(old(self).in_flight())
                && final(self).in_flight().len() == 0,
            r.changed && !broken(r.state) ==> r.failed@.len() == 0 && final(self).in_flight()
                == old(self).in_flight(),
    {
        let next = self.state.advance(input);
        let error = next.to_error();
        if next == self.state {
            return Transition {
                state: next,
                changed: false,
                notified: Vec::new(),
                failed: Vec::new(),
                error,
            };
        }
        self.state = next;
        let notified = watches.broadcast(next);
        let failed = if next == SessionState::Disconnected || next.is_terminal() {
            self.pipeline.drain()
        } else {
            Vec::new()
        };
        Transition { state: next, changed: true, notified, failed, error }
    }
}

/// Whether dropping the last client handle closes the session: it does,
/// with a close request, unless the client was built to detach, in which
/// case the session is left to the server until it times out.
pub fn closes_on_drop(detach: bool, state: SessionState) -> (r: bool)
    ensures
        r == (!detach && !state.terminal()),
{
    !detach && !state.is_terminal()
}

/// What the session task does when its timer fires.
#[derive(Clone, Copy, Debug, PartialEq, Eq, Structural)]
pub enum TimerAction {
    /// Nothing is due.
    Idle,
    /// The connection has been idle too long: send a ping.
    Ping,
    /// A ping went unanswered too long: drop the connection.
    Disconnect,
    /// No live session was had within the session timeout: the session expired.
    Expire,
}

/// The time from `since` to `now`, or zero if `now` is earlier.
pub open spec fn elapsed(now: u64, since: u64) -> int {
    if now >= since {
        now - since
    } else {
        0
    }
}

/// What is due at time `now`, in milliseconds, in `state`, for a session
/// timeout of `timeout` milliseconds, given when a frame was last sent, when
/// one was last received, and when the unanswered ping, if any, went out.
pub open spec fn timer_due(
    state: SessionState,
    timeout: u64,
    now: u64,
    last_sent: u64,
    last_received: u64,
    ping_sent: Option<u64>,
) -> TimerAction {
    if state.terminal() {
        TimerAction::Idle
    } else if state is Disconnected {
        if elapsed(now, last_received) >= timeout {
            TimerAction::Expire
        } else {
            TimerAction::Idle
        }
    } else {
        match ping_sent {
            Some(p) => if elapsed(now, p) > timeout / 3 {
                TimerAction::Disconnect
            } else {
                TimerAction::Idle
            },
            None => if elapsed(now, last_sent) > timeout / 3 {
                TimerAction::Ping
            } else {
                TimerAction::Idle
            },
        }
    }
}

/// The time from `since` to `now`, or zero if `now` is earlier.
fn elapsed_since(now: u64, since: u64) -> (r: u64)
    ensures
        r == elapsed(now, since),
{
    if now >= since {
        now - since
    } else {
        0
    }
}

/// Decides what is due when the timer fires: a ping after a third of the
/// timeout without sending, a disconnect when a ping went unanswered for a
/// third of the timeout, expiry after a whole timeout without a live session.
pub fn timer_action(
    state: SessionState,
    timeout: u64,
    now: u64,
    last_sent: u64,
    last_received: u64,
    ping_sent: Option<u64>,
) -> (r: TimerAction)
    ensures
        r == timer_due(state, timeout, now, last_sent, last_received, ping_sent),
{
    if state.is_terminal() {
        TimerAction::Idle
    } else if state == SessionState::Disconnected {
        if elapsed_since(now, last_received) >= timeout {
            TimerAction::Expire
        } else {
            TimerAction::Idle
        }
    } else {
        match ping_sent {
            Some(p) => if elapsed_since(now, p) > timeout / 3 {
                TimerAction::Disconnect
            } else {
                TimerAction::Idle
            },
            None => if elapsed_since(now, last_sent) > timeout / 3 {
                TimerAction::Ping
            } else {
                TimerAction::Idle
            },
        }
    }
}

/// The input to the session state machine that a timer action stands for, if any.
pub fn timer_input(action: TimerAction) -> (r: Option<SessionInput>)
    ensures
        action is Disconnect ==> r == Some(SessionInput::ConnectionLost),
        action is Expire ==> r == Some(SessionInput::TimedOut),
        action is Idle || action is Ping ==> r is None,
{
    match action {
        TimerAction::Disconnect => Some(SessionInput::ConnectionLost),
        TimerAction::Expire => Some(SessionInput::TimedOut),
        _ => None,
    }
}

/// A reply either is not one to a request, and leaves the requests in flight
/// as they are, or answers the oldest of them, which leaves, or breaks the protocol.
pub open spec fn answers_or_fails(
    before: Seq<(i32, u64)>,
    after: Seq<(i32, u64)>,
    xid: i32,
    r: Result<Route, Error>,
) -> bool {
    &&& after == after_reply(before, xid)
    &&& answers_head(before, xid) ==> r == Ok::<Route, Error>(
        Route::Response { ticket: before[0].1 },
    )
    &&& !reserved(xid) && !answers_head(before, xid) ==> r
        == Err::<Route, Error>(Error::ProtocolError)
    &&& reserved(xid) ==> r is Ok && !(r->Ok_0 is Response)
}

} // verus!
