use zookeeper_client::request::{Acl, Request};
use zookeeper_client::watch::WatchKind;

#[test]
fn get_data_with_watch() {
    let r = Request::GetData { path: "/abc".to_string(), watch: true };
    assert_eq!(r.opcode(), 4);
    assert_eq!(r.encode(3).unwrap(), vec![0, 0, 0, 3, 0, 0, 0, 4, 0, 0, 0, 4, b'/', b'a', b'b', b'c', 1]);
}

#[test]
fn delete_with_version() {
    let r = Request::Delete { path: "/a".to_string(), version: -1 };
    assert_eq!(r.encode(1).unwrap(), vec![0, 0, 0, 1, 0, 0, 0, 2, 0, 0, 0, 2, b'/', b'a', 0xff, 0xff, 0xff, 0xff]);
}

#[test]
fn set_data_carries_the_data() {
    let r = Request::SetData { path: "/a".to_string(), data: vec![7, 8], version: 5 };
    assert_eq!(
        r.encode(2).unwrap(),
        vec![0, 0, 0, 2, 0, 0, 0, 5, 0, 0, 0, 2, b'/', b'a', 0, 0, 0, 2, 7, 8, 0, 0, 0, 5]
    );
}

#[test]
fn create_carries_acls_and_flags() {
    let acl = Acl { perms: 31, scheme: "world".to_string(), id: "anyone".to_string() };
    let r = Request::Create { path: "/a".to_string(), data: vec![1], acls: vec![acl], flags: 3 };
    let mut expected = vec![0, 0, 0, 9, 0, 0, 0, 15, 0, 0, 0, 2, b'/', b'a', 0, 0, 0, 1, 1, 0, 0, 0, 1, 0, 0, 0, 31];
    expected.extend_from_slice(&[0, 0, 0, 5]);
    expected.extend_from_slice(b"world");
    expected.extend_from_slice(&[0, 0, 0, 6]);
    expected.extend_from_slice(b"anyone");
    expected.extend_from_slice(&[0, 0, 0, 3]);
    assert_eq!(r.encode(9).unwrap(), expected);
}

#[test]
fn watch_management_requests() {
    let add = Request::AddWatch { path: "/p".to_string(), recursive: true };
    assert_eq!(add.encode(4).unwrap(), vec![0, 0, 0, 4, 0, 0, 0, 106, 0, 0, 0, 2, b'/', b'p', 0, 0, 0, 1]);
    let remove = Request::RemoveWatches { path: "/p".to_string(), kind: WatchKind::Child };
    assert_eq!(remove.encode(5).unwrap(), vec![0, 0, 0, 5, 0, 0, 0, 18, 0, 0, 0, 2, b'/', b'p', 0, 0, 0, 1]);
}

#[test]
fn header_only_requests() {
    assert_eq!(Request::Ping.encode(-2).unwrap(), vec![0xff, 0xff, 0xff, 0xfe, 0, 0, 0, 11]);
    assert_eq!(Request::CloseSession.encode(7).unwrap(), vec![0, 0, 0, 7, 0xff, 0xff, 0xff, 0xf5]);
}
