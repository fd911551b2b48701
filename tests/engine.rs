use zookeeper_client::error::Error;
use zookeeper_client::engine::{closes_on_drop, timer_action, timer_input, SessionCore, TimerAction};
use zookeeper_client::pipeline::Route;
use zookeeper_client::session::{EventType, SessionInput, SessionState, WatchedEvent};
use zookeeper_client::watch::{WatchKind, WatchRegistry};

fn connected() -> SessionInput {
    SessionInput::Connected { session_id: 1, read_only: false }
}

#[test]
fn requests_wait_until_connected() {
    let mut core = SessionCore::new();
    let mut watches = WatchRegistry::new();
    assert_eq!(core.submit(1), None);
    let t = core.apply(connected(), &mut watches);
    assert!(t.changed);
    assert_eq!(t.state, SessionState::SyncConnected);
    assert!(core.submit(1).is_some());
}

#[test]
fn reordering_resistance() {
    let mut core = SessionCore::new();
    let mut watches = WatchRegistry::new();
    core.apply(connected(), &mut watches);
    // create("/abc"), get_and_watch_children("/abc"), create("/abc/efg")
    let x1 = core.submit(1).unwrap();
    let child = watches.add(WatchKind::Child, "/abc").unwrap();
    let x2 = core.submit(2).unwrap();
    let x3 = core.submit(3).unwrap();
    assert_eq!(core.on_reply(x1), Ok(Route::Response { ticket: 1 }));
    assert_eq!(core.on_reply(x2), Ok(Route::Response { ticket: 2 }));
    watches.install(child);
    assert_eq!(core.on_reply(x3), Ok(Route::Response { ticket: 3 }));
    let event = WatchedEvent {
        event_type: EventType::NodeChildrenChanged,
        session_state: SessionState::SyncConnected,
        path: "/abc".to_string(),
    };
    assert_eq!(core.on_reply(-1), Ok(Route::Notification));
    assert_eq!(watches.dispatch(&event), vec![child]);
}

#[test]
fn disconnect_fails_requests_in_flight() {
    let mut core = SessionCore::new();
    let mut watches = WatchRegistry::new();
    core.apply(connected(), &mut watches);
    core.submit(1);
    core.submit(2);
    let t = core.apply(SessionInput::ConnectionLost, &mut watches);
    assert_eq!(t.state, SessionState::Disconnected);
    assert_eq!(t.failed, vec![1, 2]);
    assert_eq!(t.error, Error::ConnectionLoss);
}

#[test]
fn expiration_reaches_every_watch() {
    let mut core = SessionCore::new();
    let mut watches = WatchRegistry::new();
    core.apply(connected(), &mut watches);
    let one = watches.add(WatchKind::Exist, "/a").unwrap();
    let persistent = watches.add(WatchKind::Persistent, "/b").unwrap();
    watches.install(one);
    watches.install(persistent);
    core.submit(9);
    let t = core.apply(SessionInput::TimedOut, &mut watches);
    assert_eq!(t.state, SessionState::Expired);
    assert_eq!(t.notified, vec![one, persistent]);
    assert_eq!(t.failed, vec![9]);
    assert_eq!(t.error, Error::SessionExpired);
    assert_eq!(watches.len(), 0);
    let after = core.apply(connected(), &mut watches);
    assert!(!after.changed);
    assert_eq!(core.state(), SessionState::Expired);
}

#[test]
fn unchanged_state_does_nothing() {
    let mut core = SessionCore::new();
    let mut watches = WatchRegistry::new();
    let t = core.apply(SessionInput::ConnectionLost, &mut watches);
    assert!(!t.changed);
    assert!(t.notified.is_empty());
    assert!(t.failed.is_empty());
}

#[test]
fn ping_after_a_third_of_the_timeout() {
    let s = SessionState::SyncConnected;
    assert_eq!(timer_action(s, 3000, 1000, 0, 0, None), TimerAction::Idle);
    assert_eq!(timer_action(s, 3000, 1001, 0, 0, None), TimerAction::Ping);
}

#[test]
fn unanswered_ping_drops_the_connection() {
    let s = SessionState::SyncConnected;
    assert_eq!(timer_action(s, 3000, 2000, 1000, 0, Some(1000)), TimerAction::Idle);
    assert_eq!(timer_action(s, 3000, 2001, 1000, 0, Some(1000)), TimerAction::Disconnect);
    assert_eq!(timer_input(TimerAction::Disconnect), Some(SessionInput::ConnectionLost));
}

#[test]
fn disconnected_session_expires_after_the_timeout() {
    let s = SessionState::Disconnected;
    assert_eq!(timer_action(s, 3000, 2999, 0, 0, None), TimerAction::Idle);
    assert_eq!(timer_action(s, 3000, 3000, 0, 0, None), TimerAction::Expire);
    assert_eq!(timer_input(TimerAction::Expire), Some(SessionInput::TimedOut));
    assert_eq!(timer_input(TimerAction::Ping), None);
}

#[test]
fn terminal_session_has_no_timers() {
    assert_eq!(timer_action(SessionState::Closed, 3000, 100000, 0, 0, Some(0)), TimerAction::Idle);
}

#[test]
fn detached_client_leaves_the_session_open() {
    assert!(closes_on_drop(false, SessionState::SyncConnected));
    assert!(!closes_on_drop(true, SessionState::SyncConnected));
    assert!(!closes_on_drop(false, SessionState::Expired));
}

#[test]
fn expiration_after_disconnect_reaches_oneshot_watches() {
    let mut core = SessionCore::new();
    let mut watches = WatchRegistry::new();
    core.apply(connected(), &mut watches);
    let one = watches.add(WatchKind::Exist, "/").unwrap();
    let persistent = watches.add(WatchKind::PersistentRecursive, "/").unwrap();
    watches.install(one);
    watches.install(persistent);
    let lost = core.apply(SessionInput::ConnectionLost, &mut watches);
    assert_eq!(lost.notified, vec![persistent]);
    let expired = core.apply(SessionInput::TimedOut, &mut watches);
    assert_eq!(expired.state, SessionState::Expired);
    assert_eq!(expired.notified, vec![one, persistent]);
}
