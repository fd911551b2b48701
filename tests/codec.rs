use zookeeper_client::codec::{
    decode_connect_response, decode_reply_header, decode_watcher_event, encode_frame, get_i32, get_i64,
    next_frame, put_buffer, put_i32, put_i64, ReplyHeader,
};
use zookeeper_client::error::Error;
use zookeeper_client::session::{EventType, SessionState};

#[test]
fn integers_are_big_endian() {
    let mut buf = Vec::new();
    put_i32(&mut buf, -2);
    put_i64(&mut buf, 0x0102030405060708);
    assert_eq!(buf, vec![0xff, 0xff, 0xff, 0xfe, 1, 2, 3, 4, 5, 6, 7, 8]);
    assert_eq!(get_i32(&buf, 0), -2);
    assert_eq!(get_i64(&buf, 4), 0x0102030405060708);
    let mut neg = Vec::new();
    put_i64(&mut neg, -1);
    assert_eq!(neg, vec![0xff; 8]);
    assert_eq!(get_i64(&neg, 0), -1);
}

#[test]
fn frames_carry_their_length() {
    let frame = encode_frame(&[1, 2, 3]).unwrap();
    assert_eq!(frame, vec![0, 0, 0, 3, 1, 2, 3]);
    assert_eq!(next_frame(&frame), Ok(Some(7)));
    assert_eq!(next_frame(&frame[..5]), Ok(None));
    assert_eq!(next_frame(&frame[..2]), Ok(None));
    assert_eq!(next_frame(&[0xff, 0, 0, 0, 1]), Err(Error::ProtocolError));
    assert_eq!(encode_frame(&[]).unwrap(), vec![0, 0, 0, 0]);
}

#[test]
fn buffers_are_length_prefixed() {
    let mut buf = vec![9];
    put_buffer(&mut buf, &[5, 6]).unwrap();
    assert_eq!(buf, vec![9, 0, 0, 0, 2, 5, 6]);
}

#[test]
fn reply_header_decoding() {
    let mut payload = Vec::new();
    put_i32(&mut payload, 5);
    put_i64(&mut payload, 77);
    put_i32(&mut payload, -101);
    assert_eq!(decode_reply_header(&payload), Ok(ReplyHeader { xid: 5, zxid: 77, err: -101 }));
    assert_eq!(decode_reply_header(&payload[..15]), Err(Error::ProtocolError));
}

fn event_body(event_type: i32, state: i32, path: &[u8]) -> Vec<u8> {
    let mut body = Vec::new();
    put_i32(&mut body, event_type);
    put_i32(&mut body, state);
    put_buffer(&mut body, path).unwrap();
    body
}

#[test]
fn watcher_event_decoding() {
    let event = decode_watcher_event(&event_body(1, 3, "/abc/ü".as_bytes())).unwrap();
    assert_eq!(event.event_type, EventType::NodeCreated);
    assert_eq!(event.session_state, SessionState::SyncConnected);
    assert_eq!(event.path, "/abc/ü");
    let event = decode_watcher_event(&event_body(4, 3, b"/x")).unwrap();
    assert_eq!(event.event_type, EventType::NodeChildrenChanged);
    assert_eq!(event.path, "/x");
    let event = decode_watcher_event(&event_body(7, 3, b"/p")).unwrap();
    assert_eq!(event.event_type, EventType::PersistentWatchRemoved);
}

#[test]
fn session_event_decoding() {
    let mut body = Vec::new();
    put_i32(&mut body, -1);
    put_i32(&mut body, -112);
    put_i32(&mut body, -1);
    let event = decode_watcher_event(&body).unwrap();
    assert_eq!(event.event_type, EventType::Session);
    assert_eq!(event.session_state, SessionState::Expired);
    assert_eq!(event.path, "");
}

#[test]
fn malformed_watcher_events_are_rejected() {
    assert_eq!(decode_watcher_event(&event_body(99, 3, b"/x")).unwrap_err(), Error::ProtocolError);
    assert_eq!(decode_watcher_event(&event_body(1, 42, b"/x")).unwrap_err(), Error::ProtocolError);
    assert_eq!(decode_watcher_event(&event_body(1, 3, &[0xff, 0xfe])).unwrap_err(), Error::ProtocolError);
    let body = event_body(1, 3, b"/abc");
    assert_eq!(decode_watcher_event(&body[..body.len() - 1]).unwrap_err(), Error::ProtocolError);
    assert_eq!(decode_watcher_event(&body[..8]).unwrap_err(), Error::ProtocolError);
}

#[test]
fn connect_response_decoding() {
    let mut payload = Vec::new();
    put_i32(&mut payload, 0);
    put_i32(&mut payload, 6000);
    put_i64(&mut payload, 42);
    put_buffer(&mut payload, &[1, 2, 3]).unwrap();
    let without_flag = decode_connect_response(&payload).unwrap();
    assert_eq!(without_flag.timeout, 6000);
    assert_eq!(without_flag.session_id, 42);
    assert_eq!(without_flag.password, vec![1, 2, 3]);
    assert!(!without_flag.read_only);
    payload.push(1);
    assert!(decode_connect_response(&payload).unwrap().read_only);
    assert_eq!(decode_connect_response(&payload[..22]).unwrap_err(), Error::ProtocolError);
}
