use zookeeper_client::codec::ConnectResponse;
use zookeeper_client::error::Error;
use zookeeper_client::session::{EventType, Session, SessionInput, SessionState, WatchedEvent};

const ALL_INPUTS: [SessionInput; 6] = [
    SessionInput::Connected { session_id: 7, read_only: false },
    SessionInput::Connected { session_id: 7, read_only: true },
    SessionInput::Connected { session_id: 0, read_only: false },
    SessionInput::ConnectionLost,
    SessionInput::TimedOut,
    SessionInput::AuthRejected,
];

#[test]
fn state_machine_transitions() {
    let s = SessionState::Disconnected;
    let s = s.advance(SessionInput::Connected { session_id: 7, read_only: false });
    assert_eq!(s, SessionState::SyncConnected);
    let s = s.advance(SessionInput::ConnectionLost);
    assert_eq!(s, SessionState::Disconnected);
    let s = s.advance(SessionInput::Connected { session_id: 7, read_only: true });
    assert_eq!(s, SessionState::ReadOnlyConnected);
    assert_eq!(s.advance(SessionInput::CloseCompleted), SessionState::Closed);
    assert_eq!(s.advance(SessionInput::AuthRejected), SessionState::AuthFailed);
    assert_eq!(s.advance(SessionInput::TimedOut), SessionState::Expired);
}

#[test]
fn zero_session_id_means_expired() {
    let s = SessionState::Disconnected;
    assert_eq!(s.advance(SessionInput::Connected { session_id: 0, read_only: false }), SessionState::Expired);
}

#[test]
fn terminal_states_never_change() {
    for terminal in [SessionState::Expired, SessionState::AuthFailed, SessionState::Closed] {
        assert!(terminal.is_terminal());
        for input in ALL_INPUTS {
            assert_eq!(terminal.advance(input), terminal);
        }
        assert_eq!(terminal.advance(SessionInput::CloseCompleted), terminal);
    }
    assert!(!SessionState::Disconnected.is_terminal());
    assert!(!SessionState::SyncConnected.is_terminal());
    assert!(!SessionState::ReadOnlyConnected.is_terminal());
}

#[test]
fn end_errors() {
    assert_eq!(SessionState::Expired.to_error(), Error::SessionExpired);
    assert_eq!(SessionState::Closed.to_error(), Error::SessionClosed);
    assert_eq!(SessionState::AuthFailed.to_error(), Error::AuthFailed);
    assert_eq!(SessionState::Disconnected.to_error(), Error::ConnectionLoss);
}

#[test]
fn drain_root_path_strips_the_chroot() {
    let mut event = WatchedEvent {
        event_type: EventType::NodeCreated,
        session_state: SessionState::SyncConnected,
        path: "/abc/efg/123".to_string(),
    };
    event.drain_root_path("/abc");
    assert_eq!(event.path, "/efg/123");
    assert_eq!(event.event_type, EventType::NodeCreated);
    let mut session = WatchedEvent::session(SessionState::Expired);
    session.drain_root_path("/abc");
    assert_eq!(session.path, "");
    assert_eq!(session.event_type, EventType::Session);
}

#[test]
fn resumed_session_connects_with_its_id_and_password() {
    let session = Session::resume(0x0102030405060708, vec![9, 8, 7], 5000);
    let bytes = session.connect_request(false).unwrap();
    let expected: Vec<u8> = vec![
        0, 0, 0, 0, // protocol version
        0, 0, 0, 0, 0, 0, 0, 0, // last zxid
        0, 0, 0x13, 0x88, // timeout 5000
        1, 2, 3, 4, 5, 6, 7, 8, // session id
        0, 0, 0, 3, 9, 8, 7, // password
        0, // read-only
    ];
    assert_eq!(bytes, expected);
}

#[test]
fn new_session_asks_for_a_fresh_id() {
    let session = Session::new(4000);
    let bytes = session.connect_request(true).unwrap();
    assert_eq!(&bytes[16..24], &[0u8; 8]);
    assert_eq!(*bytes.last().unwrap(), 1);
}

#[test]
fn connected_reply_updates_the_session() {
    let mut session = Session::new(30000);
    let input = session.on_connected(ConnectResponse {
        timeout: 12000,
        session_id: 99,
        password: vec![1, 2],
        read_only: false,
    });
    assert_eq!(input, SessionInput::Connected { session_id: 99, read_only: false });
    assert_eq!(session.id, 99);
    assert_eq!(session.password, vec![1, 2]);
    assert_eq!(session.timeout, 12000);
    let before = session.clone();
    let expired = session.on_connected(ConnectResponse {
        timeout: 0,
        session_id: 0,
        password: vec![],
        read_only: false,
    });
    assert_eq!(SessionState::Disconnected.advance(expired), SessionState::Expired);
    assert_eq!(session, before);
}

#[test]
fn last_zxid_never_goes_back() {
    let mut session = Session::new(30000);
    session.observe_zxid(10);
    session.observe_zxid(5);
    assert_eq!(session.last_zxid, 10);
    session.observe_zxid(11);
    assert_eq!(session.last_zxid, 11);
}

#[test]
fn timers_follow_the_timeout() {
    let session = Session::new(30000);
    assert_eq!(session.ping_interval(), 10000);
    assert_eq!(session.connect_timeout(3), 10000);
    assert_eq!(session.connect_timeout(4), 7500);
}
