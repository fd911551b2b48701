use vstd::prelude::*;

use crate::chroot::{strip_path, stripped};
use crate::codec::{connect_request_bytes, encode_connect_request, ConnectResponse};
use crate::error::Error;

verus! {

/// The state of a client session.
#[derive(Clone, Copy, Debug, PartialEq, Eq, Structural)]
pub enum SessionState {
    Disconnected,
    SyncConnected,
    ReadOnlyConnected,
    AuthFailed,
    Expired,
    Closed,
}

/// What the session engine observes about its connection.
#[derive(Clone, Copy, Debug, PartialEq, Eq, Structural)]
pub enum SessionInput {
    /// The server answered a connect request; a session id of zero means
    /// that the session it was asked to resume has expired.
    Connected { session_id: i64, read_only: bool },
    /// The socket broke or no ping reply came in time.
    ConnectionLost,
    /// No live session was had within the session timeout.
    TimedOut,
    /// The server refused the configured credentials.
    AuthRejected,
    /// The reply to a close request came in, or the client was dropped.
    CloseCompleted,
}

impl SessionState {
    /// Expired, AuthFailed and Closed end a session for good.
    pub open spec fn terminal(self) -> bool {
        self is AuthFailed || self is Expired || self is Closed
    }

    /// Whether this state ends the session for good.
    pub fn is_terminal(&self) -> (r: bool)
        ensures
            r == self.terminal(),
    {
        match self {
            SessionState::AuthFailed | SessionState::Expired | SessionState::Closed => true,
            _ => false,
        }
    }

    /// The state that follows `self` on `input`.
    pub open spec fn next(self, input: SessionInput) -> SessionState {
        if self.terminal() {
            self
        } else {
            match input {
                SessionInput::Connected { session_id, read_only } => {
                    if session_id == 0 {
                        SessionState::Expired
                    } else if read_only {
                        SessionState::ReadOnlyConnected
                    } else {
                        SessionState::SyncConnected
                    }
                },
                SessionInput::ConnectionLost => SessionState::Disconnected,
                SessionInput::TimedOut => SessionState::Expired,
                SessionInput::AuthRejected => SessionState::AuthFailed,
                SessionInput::CloseCompleted => SessionState::Closed,
            }
        }
    }

    /// Advances the session state machine on `input`.
    pub fn advance(self, input: SessionInput) -> (r: SessionState)
        ensures
            r == self.next(input),
            self.terminal() ==> r == self,
    {
        if self.is_terminal() {
            return self;
        }
        match input {
            SessionInput::Connected { session_id, read_only } => {
                if session_id == 0 {
                    SessionState::Expired
                } else if read_only {
                    SessionState::ReadOnlyConnected
                } else {
                    SessionState::SyncConnected
                }
            },
            SessionInput::ConnectionLost => SessionState::Disconnected,
            SessionInput::TimedOut => SessionState::Expired,
            SessionInput::AuthRejected => SessionState::AuthFailed,
            SessionInput::CloseCompleted => SessionState::Closed,
        }
    }

    /// The error with which pending requests complete once the session is in `self`.
    pub open spec fn end_error(self) -> Error {
        match self {
            SessionState::AuthFailed => Error::AuthFailed,
            SessionState::Closed => Error::SessionClosed,
            SessionState::Expired => Error::SessionExpired,
            _ => Error::ConnectionLoss,
        }
    }

    /// The error for requests that cannot complete in this state.
    pub fn to_error(&self) -> (r: Error)
        ensures
            r == self.end_error(),
    {
        match self {
            SessionState::AuthFailed => Error::AuthFailed,
            SessionState::Closed => Error::SessionClosed,
            SessionState::Expired => Error::SessionExpired,
            _ => Error::ConnectionLoss,
        }
    }
}

/// The state reached from `s` by the inputs `inputs`, in order.
pub open spec fn run(s: SessionState, inputs: Seq<SessionInput>) -> SessionState
    decreases inputs.len(),
{
    if inputs.len() == 0 {
        s
    } else {
        run(s.next(inputs[0]), inputs.drop_first())
    }
}

/// Once terminal, the session state stays as it is, whatever comes after.
pub proof fn lemma_terminal_is_final(s: SessionState, inputs: Seq<SessionInput>)
    requires
        s.terminal(),
    ensures
        run(s, inputs) == s,
    decreases inputs.len(),
{
    if inputs.len() > 0 {
        lemma_terminal_is_final(s.next(inputs[0]), inputs.drop_first());
    }
}

/// Kinds of watched events.
#[derive(Clone, Copy, Debug, PartialEq, Eq, Structural)]
pub enum EventType {
    Session,
    NodeCreated,
    NodeDeleted,
    NodeDataChanged,
    NodeChildrenChanged,
    PersistentWatchRemoved,
}

/// An event delivered to a watcher.
#[derive(Clone, Debug, PartialEq, Eq)]
pub struct WatchedEvent {
    pub event_type: EventType,
    pub session_state: SessionState,
    pub path: String,
}

impl WatchedEvent {
    /// A session event, which carries no path.
    pub fn session(state: SessionState) -> (r: WatchedEvent)
        ensures
            r.event_type == EventType::Session,
            r.session_state == state,
            r.path@ == Seq::<char>::empty(),
    {
        WatchedEvent { event_type: EventType::Session, session_state: state, path: String::new() }
    }

    /// An exact copy of this event.
    pub fn duplicate(&self) -> (r: WatchedEvent)
        ensures
            r.event_type == self.event_type,
            r.session_state == self.session_state,
            r.path@ == self.path@,
    {
        WatchedEvent {
            event_type: self.event_type,
            session_state: self.session_state,
            path: self.path.clone(),
        }
    }

    /// Removes the chroot `root` from the event's path.
    pub fn drain_root_path(&mut self, root: &str)
        ensures
            final(self).path@ == stripped(root@, old(self).path@),
            final(self).event_type == old(self).event_type,
            final(self).session_state == old(self).session_state,
    {
        let p = strip_path(root, self.path.as_str());
        self.path = p;
    }
}

/// Integer division rounding toward zero, for `d > 0`.
pub open spec fn truncated_div(n: int, d: int) -> int {
    if n >= 0 {
        n / d
    } else {
        -((-n) / d)
    }
}

/// What identifies a session to the server, and what the client last saw of it.
#[derive(Clone, Debug, PartialEq, Eq)]
pub struct Session {
    /// The session id; zero before the server has handed one out.
    pub id: i64,
    pub password: Vec<u8>,
    /// The session timeout in milliseconds.
    pub timeout: i32,
    /// The largest transaction id seen.
    pub last_zxid: i64,
}

impl Session {
    /// A session yet to be created, proposing `timeout` milliseconds.
    pub fn new(timeout: i32) -> (r: Session)
        ensures
            r.id == 0,
            r.password@ == Seq::<u8>::empty(),
            r.timeout == timeout,
            r.last_zxid == 0,
    {
        Session { id: 0, password: Vec::new(), timeout, last_zxid: 0 }
    }

    /// An existing session, known by its id and password, to be resumed.
    pub fn resume(id: i64, password: Vec<u8>, timeout: i32) -> (r: Session)
        ensures
            r.id == id,
            r.password@ == password@,
            r.timeout == timeout,
            r.last_zxid == 0,
    {
        Session { id, password, timeout, last_zxid: 0 }
    }

    /// The payload of the connect request that creates or resumes this session.
    pub fn connect_request(&self, read_only: bool) -> (r: Result<Vec<u8>, Error>)
        ensures
            r is Ok <==> self.password@.len() < 0x80000000,
            r matches Ok(b) ==> b@ == connect_request_bytes(
                self.last_zxid,
                self.timeout,
                self.id,
                self.password@,
                read_only,
            ),
            r is Err ==> r == Err::<Vec<u8>, Error>(Error::BadArguments),
    {
        encode_connect_request(self.last_zxid, self.timeout, self.id, self.password.as_slice(), read_only)
    }

    /// Takes in the server's answer to a connect request. A session id of
    /// zero means the session expired, and leaves this record as it was;
    /// otherwise the server's id, password and timeout are kept.
    pub fn on_connected(&mut self, response: ConnectResponse) -> (r: SessionInput)
        ensures
            r == (SessionInput::Connected {
                session_id: response.session_id,
                read_only: response.read_only,
            }),
            response.session_id == 0 ==> *final(self) == *old(self),
            response.session_id != 0 ==> {
                &&& final(self).id == response.session_id
                &&& final(self).password@ == response.password@
                &&& final(self).timeout == response.timeout
                &&& final(self).last_zxid == old(self).last_zxid
            },
    {
        let r = SessionInput::Connected {
            session_id: response.session_id,
            read_only: response.read_only,
        };
        if response.session_id != 0 {
            self.id = response.session_id;
            self.password = response.password;
            self.timeout = response.timeout;
        }
        r
    }

    /// Records a transaction id seen in a reply; the last seen one never goes back.
    pub fn observe_zxid(&mut self, zxid: i64)
        ensures
            final(self).last_zxid == if zxid > old(self).last_zxid {
                zxid
            } else {
                old(self).last_zxid
            },
            final(self).id == old(self).id,
            final(self).password == old(self).password,
            final(self).timeout == old(self).timeout,
    {
        if zxid > self.last_zxid {
            self.last_zxid = zxid;
        }
    }

    /// The idle time after which a ping is due: a third of the timeout.
    pub fn ping_interval(&self) -> (r: i32)
        ensures
            r == truncated_div(self.timeout as int, 3),
    {
        self.timeout / 3
    }

    /// The time allowed to one connection attempt: the timeout shared out
    /// among the `endpoints` servers.
    pub fn connect_timeout(&self, endpoints: usize) -> (r: i32)
        requires
            endpoints > 0,
        ensures
            r == truncated_div(self.timeout as int, endpoints as int),
    {
        let q = self.timeout as i128 / endpoints as i128;
        assert(-0x80000000 <= q <= 0x7fffffff) by (nonlinear_arith)
            requires
                q == truncated_div(self.timeout as int, endpoints as int),
                -0x80000000 <= self.timeout <= 0x7fffffff,
                endpoints >= 1,
        ;
        q as i32
    }
}

} // verus!
