use vstd::prelude::*;

use tokio::sync::watch;

use crate::chroot::{stripped, OwnedChroot};
use crate::engine::{removal_done, RemoveStep, SessionCore};
use crate::error::Error;
use crate::session::{EventType, SessionState, WatchedEvent};
use crate::watch::{WatchKind, WatchRegistry};

verus! {

/// Declares tokio's `watch::Receiver`, the receiving end of the channel on
/// which the session task publishes its state; its contents stay opaque.
#[verifier::external_type_specification]
#[verifier::external_body]
#[verifier::reject_recursive_types(T)]
pub struct ExWatchReceiver<T>(watch::Receiver<T>);

/// Relies on tokio's `watch::Receiver::borrow_and_update`: reads the value
/// last sent and marks it seen. The value is whatever the session task sent.
#[verifier::external_body]
fn take_latest(receiver: &mut watch::Receiver<SessionState>) -> SessionState {
    *receiver.borrow_and_update()
}

/// Relies on tokio's `watch::Receiver::borrow`: reads the value last sent,
/// leaving it unseen. The value is whatever the session task sent.
#[verifier::external_body]
fn peek_latest(receiver: &watch::Receiver<SessionState>) -> SessionState {
    *receiver.borrow()
}

/// StateWatcher tracks session state updates. Once it has handed out a
/// terminal state it keeps reporting that state.
#[derive(Debug)]
pub struct StateWatcher {
    receiver: watch::Receiver<SessionState>,
    last: SessionState,
}

impl StateWatcher {
    /// The state most recently handed out by [`StateWatcher::state`].
    pub closed spec fn last_seen(&self) -> SessionState {
        self.last
    }

    /// A watcher over the states that the session task publishes.
    pub fn new(receiver: watch::Receiver<SessionState>) -> (r: StateWatcher)
        ensures
            !r.last_seen().terminal(),
    {
        StateWatcher { receiver, last: SessionState::Disconnected }
    }

    /// Returns and consumes the most recent state.
    pub fn state(&mut self) -> (r: SessionState)
        ensures
            final(self).last_seen() == r,
            old(self).last_seen().terminal() ==> r == old(self).last_seen(),
    {
        if self.last.is_terminal() {
            return self.last;
        }
        let state = take_latest(&mut self.receiver);
        self.last = state;
        state
    }

    /// Returns but does not consume the most recent state.
    pub fn peek_state(&self) -> (r: SessionState)
        ensures
            self.last_seen().terminal() ==> r == self.last_seen(),
    {
        if self.last.is_terminal() {
            return self.last;
        }
        peek_latest(&self.receiver)
    }

    /// The channel this watcher reads, to wait on for a change.
    pub fn receiver_mut(&mut self) -> (r: &mut watch::Receiver<SessionState>)
        ensures
            final(self).last_seen() == old(self).last_seen(),
    {
        &mut self.receiver
    }

    /// A second watcher over the same states, in the same position.
    pub fn duplicate(&self) -> (r: StateWatcher)
        ensures
            r.last_seen() == self.last_seen(),
    {
        StateWatcher { receiver: clone_receiver(&self.receiver), last: self.last }
    }
}

/// Relies on tokio's `watch::Receiver::clone`: a receiver of the same channel.
#[verifier::external_body]
fn clone_receiver(receiver: &watch::Receiver<SessionState>) -> watch::Receiver<SessionState> {
    receiver.clone()
}

/// The receiving end of a one-shot watch: the id of its registration.
#[derive(Debug)]
pub struct OneshotReceiver {
    pub id: u64,
}

/// The receiving end of a persistent watch: the id of its registration, and
/// whether a terminal session event has already come through.
#[derive(Debug)]
pub struct PersistentReceiver {
    pub id: u64,
    pub ended: bool,
}

/// The receiving end that a request hands out, if it registered a watch.
#[derive(Debug)]
pub enum WatchReceiver {
    Unwatched,
    Oneshot(OneshotReceiver),
    Persistent(PersistentReceiver),
}

impl WatchReceiver {
    /// The receiving end for the watch `id` of `kind`.
    pub fn for_watch(id: u64, kind: WatchKind) -> (r: WatchReceiver)
        ensures
            kind.one_shot() ==> r == WatchReceiver::Oneshot(OneshotReceiver { id }),
            !kind.one_shot() ==> r == WatchReceiver::Persistent(
                PersistentReceiver { id, ended: false },
            ),
    {
        if kind.is_oneshot() {
            WatchReceiver::Oneshot(OneshotReceiver { id })
        } else {
            WatchReceiver::Persistent(PersistentReceiver { id, ended: false })
        }
    }

    /// The one-shot watcher for this receiving end, under `chroot`.
    pub fn into_oneshot(self, chroot: &OwnedChroot) -> (r: OneshotWatcher)
        requires
            self is Oneshot,
        ensures
            r.root() == chroot.view(),
            r.id() == self->Oneshot_0.id,
    {
        match self {
            WatchReceiver::Oneshot(receiver) => OneshotWatcher::new(chroot.duplicate(), receiver),
            _ => unreached(),
        }
    }

    /// The persistent watcher for this receiving end, under `chroot`.
    pub fn into_persistent(self, chroot: &OwnedChroot) -> (r: PersistentWatcher)
        requires
            self is Persistent,
        ensures
            r.root() == chroot.view(),
            r.id() == self->Persistent_0.id,
            r.ended() == self->Persistent_0.ended,
    {
        match self {
            WatchReceiver::Persistent(receiver) => PersistentWatcher::new(
                chroot.duplicate(),
                receiver,
            ),
            _ => unreached(),
        }
    }
}

/// Watcher for stat, data and child event.
#[derive(Debug)]
pub struct OneshotWatcher {
    chroot: OwnedChroot,
    receiver: OneshotReceiver,
}

impl OneshotWatcher {
    /// The root under which this watcher sees paths.
    pub closed spec fn root(&self) -> Seq<char> {
        self.chroot.view()
    }

    /// The id of the watch registration.
    pub closed spec fn id(&self) -> u64 {
        self.receiver.id
    }

    fn new(chroot: OwnedChroot, receiver: OneshotReceiver) -> (r: Self)
        ensures
            r.root() == chroot.view(),
            r.id() == receiver.id,
    {
        OneshotWatcher { chroot, receiver }
    }

    /// The id of the watch registration.
    pub fn watch_id(&self) -> (r: u64)
        ensures
            r == self.id(),
    {
        self.receiver.id
    }

    /// Takes the one event that this watch receives, a node event or a
    /// session event, and hands it on with the chroot removed from its path.
    /// The watcher is used up.
    pub fn changed(self, event: WatchedEvent) -> (r: WatchedEvent)
        ensures
            r.event_type == event.event_type,
            r.session_state == event.session_state,
            r.path@ == stripped(self.root(), event.path@),
    {
        let mut event = event;
        event.drain_root_path(self.chroot.root());
        event
    }

    /// Removes this watcher: its registration leaves `watches`, other
    /// subscribers of the same kind and path stay, and the removal of the
    /// last one goes to the server with reply slot `ticket`, behind the
    /// requests already sent. Fails with the end error of a finished session.
    pub fn remove(self, core: &mut SessionCore, watches: &mut WatchRegistry, ticket: u64) -> (r: Result<
        RemoveStep,
        Error,
    >)
        requires
            old(core).wf(),
            old(watches).wf(),
        ensures
            final(core).wf(),
            final(watches).wf(),
            removal_done(
                *old(core),
                *final(core),
                old(watches)@,
                final(watches)@,
                self.id(),
                ticket,
                r,
            ),
    {
        core.remove_watch(watches, self.receiver.id, ticket)
    }
}

/// Watcher for persistent and recursive watch.
#[derive(Debug)]
pub struct PersistentWatcher {
    chroot: OwnedChroot,
    receiver: PersistentReceiver,
}

impl PersistentWatcher {
    /// The root under which this watcher sees paths.
    pub closed spec fn root(&self) -> Seq<char> {
        self.chroot.view()
    }

    /// The id of the watch registration.
    pub closed spec fn id(&self) -> u64 {
        self.receiver.id
    }

    /// Whether a terminal session event has come through.
    pub closed spec fn ended(&self) -> bool {
        self.receiver.ended
    }

    fn new(chroot: OwnedChroot, receiver: PersistentReceiver) -> (r: Self)
        ensures
            r.root() == chroot.view(),
            r.id() == receiver.id,
            r.ended() == receiver.ended,
    {
        PersistentWatcher { chroot, receiver }
    }

    /// The id of the watch registration.
    pub fn watch_id(&self) -> (r: u64)
        ensures
            r == self.id(),
    {
        self.receiver.id
    }

    /// Whether a terminal session event has come through.
    pub fn is_ended(&self) -> (r: bool)
        ensures
            r == self.ended(),
    {
        self.receiver.ended
    }

    /// Takes the next event of this watch, a node event or a session event,
    /// and hands it on with the chroot removed from its path. No event comes
    /// after a terminal session event.
    pub fn changed(&mut self, event: WatchedEvent) -> (r: WatchedEvent)
        requires
            !old(self).ended(),
        ensures
            r.event_type == event.event_type,
            r.session_state == event.session_state,
            r.path@ == stripped(old(self).root(), event.path@),
            final(self).root() == old(self).root(),
            final(self).id() == old(self).id(),
            final(self).ended() == (event.event_type == EventType::Session
                && event.session_state.terminal()),
    {
        let mut event = event;
        if event.event_type == EventType::Session && event.session_state.is_terminal() {
            self.receiver.ended = true;
        }
        event.drain_root_path(self.chroot.root());
        event
    }

    /// Removes this watcher: its registration leaves `watches`, other
    /// subscribers of the same kind and path stay, and the removal of the
    /// last one goes to the server with reply slot `ticket`, behind the
    /// requests already sent. Fails with the end error of a finished session.
    pub fn remove(self, core: &mut SessionCore, watches: &mut WatchRegistry, ticket: u64) -> (r: Result<
        RemoveStep,
        Error,
    >)
        requires
            old(core).wf(),
            old(watches).wf(),
        ensures
            final(core).wf(),
            final(watches).wf(),
            removal_done(
                *old(core),
                *final(core),
                old(watches)@,
                final(watches)@,
                self.id(),
                ticket,
                r,
            ),
    {
        core.remove_watch(watches, self.receiver.id, ticket)
    }
}

} // verus!
