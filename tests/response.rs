use zookeeper_client::codec::{put_buffer, put_i32, put_i64};
use zookeeper_client::error::Error;
use zookeeper_client::response::{
    decode_children_response, decode_create_response, decode_data_response, decode_stat_response, Stat,
};

fn sample_stat() -> Stat {
    Stat {
        czxid: 1,
        mzxid: 2,
        ctime: 3,
        mtime: 4,
        version: 5,
        cversion: 6,
        aversion: 7,
        ephemeral_owner: -8,
        data_length: 9,
        num_children: 10,
        pzxid: 11,
    }
}

fn stat_bytes(s: &Stat) -> Vec<u8> {
    let mut b = Vec::new();
    put_i64(&mut b, s.czxid);
    put_i64(&mut b, s.mzxid);
    put_i64(&mut b, s.ctime);
    put_i64(&mut b, s.mtime);
    put_i32(&mut b, s.version);
    put_i32(&mut b, s.cversion);
    put_i32(&mut b, s.aversion);
    put_i64(&mut b, s.ephemeral_owner);
    put_i32(&mut b, s.data_length);
    put_i32(&mut b, s.num_children);
    put_i64(&mut b, s.pzxid);
    b
}

#[test]
fn stat_round_trip() {
    let bytes = stat_bytes(&sample_stat());
    assert_eq!(bytes.len(), 68);
    assert_eq!(decode_stat_response(&bytes), Ok(sample_stat()));
    assert_eq!(decode_stat_response(&bytes[..67]), Err(Error::ProtocolError));
}

#[test]
fn data_reply() {
    let mut body = Vec::new();
    put_buffer(&mut body, b"path_data").unwrap();
    body.extend(stat_bytes(&sample_stat()));
    assert_eq!(decode_data_response(&body), Ok((b"path_data".to_vec(), sample_stat())));
    let mut empty = Vec::new();
    put_i32(&mut empty, -1);
    empty.extend(stat_bytes(&sample_stat()));
    assert_eq!(decode_data_response(&empty), Ok((vec![], sample_stat())));
    assert_eq!(decode_data_response(&body[..body.len() - 1]), Err(Error::ProtocolError));
}

#[test]
fn create_reply_names_the_node() {
    let mut body = Vec::new();
    put_buffer(&mut body, b"/a/b0000000003").unwrap();
    body.extend(stat_bytes(&sample_stat()));
    assert_eq!(decode_create_response(&body), Ok(("/a/b0000000003".to_string(), sample_stat())));
    let mut bad = Vec::new();
    put_buffer(&mut bad, &[0xc3]).unwrap();
    bad.extend(stat_bytes(&sample_stat()));
    assert_eq!(decode_create_response(&bad), Err(Error::ProtocolError));
}

#[test]
fn children_reply() {
    let mut body = Vec::new();
    put_i32(&mut body, 2);
    put_buffer(&mut body, b"efg").unwrap();
    put_buffer(&mut body, "ü".as_bytes()).unwrap();
    body.extend(stat_bytes(&sample_stat()));
    assert_eq!(
        decode_children_response(&body),
        Ok((vec!["efg".to_string(), "ü".to_string()], sample_stat()))
    );
    let mut none = Vec::new();
    put_i32(&mut none, 0);
    none.extend(stat_bytes(&sample_stat()));
    assert_eq!(decode_children_response(&none), Ok((vec![], sample_stat())));
    assert_eq!(decode_children_response(&body[..body.len() - 1]), Err(Error::ProtocolError));
    let mut negative = Vec::new();
    put_i32(&mut negative, -1);
    negative.extend(stat_bytes(&sample_stat()));
    assert_eq!(decode_children_response(&negative), Err(Error::ProtocolError));
}
