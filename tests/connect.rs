use zookeeper_client::connect::{parse_connect_string, parse_endpoint, Endpoint};
use zookeeper_client::error::Error;

fn endpoint(host: &str, port: u16) -> Endpoint {
    Endpoint { host: host.to_string(), port }
}

#[test]
fn servers_and_chroot() {
    let (servers, chroot) = parse_connect_string("127.0.0.1:2181,zk2:2182/abc/efg").unwrap();
    assert_eq!(servers, vec![endpoint("127.0.0.1", 2181), endpoint("zk2", 2182)]);
    assert_eq!(chroot.root(), "/abc/efg");
}

#[test]
fn default_port_and_no_chroot() {
    let (servers, chroot) = parse_connect_string("localhost").unwrap();
    assert_eq!(servers, vec![endpoint("localhost", 2181)]);
    assert_eq!(chroot.root(), "/");
    let (_, chroot) = parse_connect_string("localhost:1/").unwrap();
    assert_eq!(chroot.root(), "/");
}

#[test]
fn malformed_connection_strings() {
    for s in ["", "/abc", "host:", "host:0", "host:65536", "host:12a", ":2181", "a,,b", "a,", "host/abc/", "host//abc"] {
        assert_eq!(parse_connect_string(s).unwrap_err(), Error::BadArguments, "{}", s);
    }
}

#[test]
fn endpoint_entries() {
    assert_eq!(parse_endpoint("zk:65535"), Some(endpoint("zk", 65535)));
    assert_eq!(parse_endpoint("zk:1"), Some(endpoint("zk", 1)));
    assert_eq!(parse_endpoint("zk:99999999999"), None);
    assert_eq!(parse_endpoint("zk"), Some(endpoint("zk", 2181)));
}
