use tokio::sync::watch;
use zookeeper_client::chroot::OwnedChroot;
use zookeeper_client::engine::{RemoveStep, SessionCore};
use zookeeper_client::error::Error;
use zookeeper_client::pipeline::Route;
use zookeeper_client::request::Request;
use zookeeper_client::session::{EventType, SessionInput, SessionState, WatchedEvent};
use zookeeper_client::watch::{WatchKind, WatchRegistry};
use zookeeper_client::watcher::{OneshotReceiver, PersistentReceiver, StateWatcher, WatchReceiver};

fn event(event_type: EventType, path: &str) -> WatchedEvent {
    WatchedEvent { event_type, session_state: SessionState::SyncConnected, path: path.to_string() }
}

#[test]
fn receivers_follow_the_watch_kind() {
    assert!(matches!(WatchReceiver::for_watch(3, WatchKind::Exist), WatchReceiver::Oneshot(OneshotReceiver { id: 3 })));
    assert!(matches!(
        WatchReceiver::for_watch(4, WatchKind::PersistentRecursive),
        WatchReceiver::Persistent(PersistentReceiver { id: 4, ended: false })
    ));
}

#[test]
fn oneshot_watcher_strips_the_chroot() {
    let chroot = OwnedChroot::new("/abc").unwrap();
    let watcher = WatchReceiver::Oneshot(OneshotReceiver { id: 5 }).into_oneshot(&chroot);
    assert_eq!(watcher.watch_id(), 5);
    let got = watcher.changed(event(EventType::NodeCreated, "/abc/efg/123"));
    assert_eq!(got.path, "/efg/123");
    assert_eq!(got.event_type, EventType::NodeCreated);
}

fn connected_core() -> (SessionCore, WatchRegistry) {
    let mut core = SessionCore::new();
    let mut watches = WatchRegistry::new();
    core.apply(SessionInput::Connected { session_id: 1, read_only: false }, &mut watches);
    (core, watches)
}

#[test]
fn removing_one_of_several_subscribers_sends_nothing() {
    let (mut core, mut watches) = connected_core();
    let a = watches.add(WatchKind::Child, "/abc").unwrap();
    let b = watches.add(WatchKind::Child, "/abc").unwrap();
    watches.install(a);
    watches.install(b);
    let watcher = WatchReceiver::for_watch(a, WatchKind::Child).into_oneshot(&OwnedChroot::top());
    assert!(matches!(watcher.remove(&mut core, &mut watches, 1), Ok(RemoveStep::Done)));
    assert!(!watches.contains(a));
    assert!(watches.contains(b));
    let created = WatchedEvent {
        event_type: EventType::NodeChildrenChanged,
        session_state: SessionState::SyncConnected,
        path: "/abc".to_string(),
    };
    assert_eq!(watches.dispatch(&created), vec![b]);
}

#[test]
fn removing_the_last_subscriber_sends_remove_watches() {
    let (mut core, mut watches) = connected_core();
    let first = core.submit(100).unwrap();
    let id = watches.add(WatchKind::Data, "/a").unwrap();
    watches.install(id);
    let watcher = WatchReceiver::for_watch(id, WatchKind::Data).into_oneshot(&OwnedChroot::top());
    match watcher.remove(&mut core, &mut watches, 7) {
        Ok(RemoveStep::Sent { xid, bytes }) => {
            assert_eq!(xid, first + 1);
            assert_eq!(bytes, vec![0, 0, 0, 2, 0, 0, 0, 18, 0, 0, 0, 2, b'/', b'a', 0, 0, 0, 2]);
            assert_eq!(core.on_reply(first), Ok(Route::Response { ticket: 100 }));
            assert_eq!(core.on_reply(xid), Ok(Route::Response { ticket: 7 }));
        },
        other => panic!("expected a sent removal, got {:?}", other),
    }
    assert_eq!(watches.len(), 0);
}

#[test]
fn removal_waits_while_disconnected() {
    let (mut core, mut watches) = connected_core();
    let id = watches.add(WatchKind::Persistent, "/p").unwrap();
    watches.install(id);
    core.apply(SessionInput::ConnectionLost, &mut watches);
    let watcher = WatchReceiver::for_watch(id, WatchKind::Persistent).into_persistent(&OwnedChroot::top());
    match watcher.remove(&mut core, &mut watches, 3) {
        Ok(RemoveStep::Held { request: Request::RemoveWatches { path, kind } }) => {
            assert_eq!(path, "/p");
            assert_eq!(kind, WatchKind::Persistent);
        },
        other => panic!("expected a held removal, got {:?}", other),
    }
    assert_eq!(watches.len(), 0);
}

#[test]
fn removal_after_expiry_fails() {
    let (mut core, mut watches) = connected_core();
    let id = watches.add(WatchKind::Persistent, "/p").unwrap();
    watches.install(id);
    core.apply(SessionInput::TimedOut, &mut watches);
    let watcher = WatchReceiver::for_watch(id, WatchKind::Persistent).into_persistent(&OwnedChroot::top());
    assert!(matches!(watcher.remove(&mut core, &mut watches, 3), Err(Error::SessionExpired)));
    let (mut core, mut watches) = connected_core();
    core.apply(SessionInput::CloseCompleted, &mut watches);
    let watcher = WatchReceiver::for_watch(9, WatchKind::Exist).into_oneshot(&OwnedChroot::top());
    assert!(matches!(watcher.remove(&mut core, &mut watches, 4), Err(Error::SessionClosed)));
}

#[test]
fn persistent_watcher_stops_after_terminal_event() {
    let chroot = OwnedChroot::new("/abc").unwrap();
    let mut watcher =
        WatchReceiver::Persistent(PersistentReceiver { id: 6, ended: false }).into_persistent(&chroot);
    let got = watcher.changed(event(EventType::NodeDataChanged, "/abc/x"));
    assert_eq!(got.path, "/x");
    assert!(!watcher.is_ended());
    let got = watcher.changed(WatchedEvent::session(SessionState::Disconnected));
    assert_eq!(got.session_state, SessionState::Disconnected);
    assert!(!watcher.is_ended());
    let got = watcher.changed(WatchedEvent::session(SessionState::Expired));
    assert_eq!(got.event_type, EventType::Session);
    assert_eq!(got.session_state, SessionState::Expired);
    assert!(watcher.is_ended());
    assert_eq!(watcher.watch_id(), 6);
}

#[test]
fn state_watcher_reads_the_channel() {
    let (sender, receiver) = watch::channel(SessionState::Disconnected);
    let mut watcher = StateWatcher::new(receiver);
    assert_eq!(watcher.peek_state(), SessionState::Disconnected);
    sender.send(SessionState::SyncConnected).unwrap();
    assert_eq!(watcher.peek_state(), SessionState::SyncConnected);
    assert_eq!(watcher.state(), SessionState::SyncConnected);
    let copy = watcher.duplicate();
    assert_eq!(copy.peek_state(), SessionState::SyncConnected);
}

#[test]
fn state_watcher_keeps_a_terminal_state() {
    let (sender, receiver) = watch::channel(SessionState::SyncConnected);
    let mut watcher = StateWatcher::new(receiver);
    sender.send(SessionState::Expired).unwrap();
    assert_eq!(watcher.state(), SessionState::Expired);
    sender.send(SessionState::SyncConnected).unwrap();
    assert_eq!(watcher.state(), SessionState::Expired);
    assert_eq!(watcher.peek_state(), SessionState::Expired);
}
