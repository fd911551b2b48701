use vstd::prelude::*;

use vstd::utf8::{decode_utf8, valid_utf8};

use crate::codec::{get_i32, get_i64, read_i32, read_i64, utf8_text};
use crate::error::Error;

verus! {

/// The number of bytes of a stat record.
pub const STAT_LEN: usize = 68;

/// The metadata of a node, as the server reports it.
#[derive(Clone, Copy, Debug, PartialEq, Eq, Structural)]
pub struct Stat {
    pub czxid: i64,
    pub mzxid: i64,
    pub ctime: i64,
    pub mtime: i64,
    pub version: i32,
    pub cversion: i32,
    pub aversion: i32,
    pub ephemeral_owner: i64,
    pub data_length: i32,
    pub num_children: i32,
    pub pzxid: i64,
}

/// The stat record in `b` at `at`.
pub open spec fn stat_at(b: Seq<u8>, at: int) -> Stat {
    Stat {
        czxid: read_i64(b, at) as i64,
        mzxid: read_i64(b, at + 8) as i64,
        ctime: read_i64(b, at + 16) as i64,
        mtime: read_i64(b, at + 24) as i64,
        version: read_i32(b, at + 32) as i32,
        cversion: read_i32(b, at + 36) as i32,
        aversion: read_i32(b, at + 40) as i32,
        ephemeral_owner: read_i64(b, at + 44) as i64,
        data_length: read_i32(b, at + 52) as i32,
        num_children: read_i32(b, at + 56) as i32,
        pzxid: read_i64(b, at + 60) as i64,
    }
}

/// Reads the stat record at `at`.
pub fn decode_stat(b: &[u8], at: usize) -> (r: Stat)
    requires
        at + STAT_LEN <= b@.len(),
    ensures
        r == stat_at(b@, at as int),
{
    let n = b.len();
    assert(at + STAT_LEN <= n);
    Stat {
        czxid: get_i64(b, at),
        mzxid: get_i64(b, at + 8),
        ctime: get_i64(b, at + 16),
        mtime: get_i64(b, at + 24),
        version: get_i32(b, at + 32),
        cversion: get_i32(b, at + 36),
        aversion: get_i32(b, at + 40),
        ephemeral_owner: get_i64(b, at + 44),
        data_length: get_i32(b, at + 52),
        num_children: get_i32(b, at + 56),
        pzxid: get_i64(b, at + 60),
    }
}

/// Decodes the body of a reply that holds a stat record alone.
pub fn decode_stat_response(body: &[u8]) -> (r: Result<Stat, Error>)
    ensures
        r is Ok <==> body@.len() >= STAT_LEN,
        r matches Ok(s) ==> s == stat_at(body@, 0),
        r is Err ==> r == Err::<Stat, Error>(Error::ProtocolError),
{
    if body.len() < STAT_LEN {
        return Err(Error::ProtocolError);
    }
    Ok(decode_stat(body, 0))
}

/// The length of the byte buffer at the start of `b`: -1 stands for none.
pub open spec fn data_len(b: Seq<u8>) -> int {
    if read_i32(b, 0) == -1 {
        0
    } else {
        read_i32(b, 0)
    }
}

/// A reply body of node data: a byte buffer, then a stat record.
pub open spec fn data_response_well_formed(b: Seq<u8>) -> bool {
    &&& b.len() >= 4
    &&& read_i32(b, 0) >= -1
    &&& 4 + data_len(b) + STAT_LEN <= b.len()
}

/// Decodes the body of a reply to a data read: the data, then its stat record.
pub fn decode_data_response(body: &[u8]) -> (r: Result<(Vec<u8>, Stat), Error>)
    ensures
        r is Ok <==> data_response_well_formed(body@),
        r matches Ok((data, stat)) ==> {
            &&& data@ == body@.subrange(4, 4 + data_len(body@))
            &&& stat == stat_at(body@, 4 + data_len(body@))
        },
        r is Err ==> r == Err::<(Vec<u8>, Stat), Error>(Error::ProtocolError),
{
    if body.len() < 4 {
        return Err(Error::ProtocolError);
    }
    let n = get_i32(body, 0);
    if n < -1 {
        return Err(Error::ProtocolError);
    }
    let len: usize = if n == -1 {
        0
    } else {
        n as usize
    };
    if len > body.len() - 4 || body.len() - 4 - len < STAT_LEN {
        return Err(Error::ProtocolError);
    }
    let data = vstd::slice::slice_to_vec(vstd::slice::slice_subrange(body, 4, 4 + len));
    let stat = decode_stat(body, 4 + len);
    Ok((data, stat))
}

/// A reply body of a created node: its path as UTF-8, then a stat record.
pub open spec fn create_response_well_formed(b: Seq<u8>) -> bool {
    &&& b.len() >= 4
    &&& read_i32(b, 0) >= 0
    &&& 4 + read_i32(b, 0) + STAT_LEN <= b.len()
    &&& valid_utf8(b.subrange(4, 4 + read_i32(b, 0)))
}

/// Decodes the body of a reply to a create: the path of the node made, which
/// carries the sequence number of a sequential node, then its stat record.
pub fn decode_create_response(body: &[u8]) -> (r: Result<(String, Stat), Error>)
    ensures
        r is Ok <==> create_response_well_formed(body@),
        r matches Ok((path, stat)) ==> {
            &&& path@ == decode_utf8(body@.subrange(4, 4 + read_i32(body@, 0)))
            &&& stat == stat_at(body@, 4 + read_i32(body@, 0))
        },
        r is Err ==> r == Err::<(String, Stat), Error>(Error::ProtocolError),
{
    if body.len() < 4 {
        return Err(Error::ProtocolError);
    }
    let n = get_i32(body, 0);
    if n < 0 {
        return Err(Error::ProtocolError);
    }
    let len = n as usize;
    if len > body.len() - 4 || body.len() - 4 - len < STAT_LEN {
        return Err(Error::ProtocolError);
    }
    match utf8_text(vstd::slice::slice_subrange(body, 4, 4 + len)) {
        Some(path) => Ok((path, decode_stat(body, 4 + len))),
        None => Err(Error::ProtocolError),
    }
}

/// The `count` length-prefixed UTF-8 strings in `b` from `at` on, and where
/// they end; `None` when they do not fit or are not valid UTF-8.
pub open spec fn strings_at(b: Seq<u8>, at: int, count: nat) -> Option<(Seq<Seq<char>>, int)>
    decreases count,
{
    if count == 0 {
        Some((Seq::empty(), at))
    } else if at < 0 || at + 4 > b.len() {
        None
    } else {
        let n = read_i32(b, at);
        if n < 0 || at + 4 + n > b.len() || !valid_utf8(b.subrange(at + 4, at + 4 + n)) {
            None
        } else {
            match strings_at(b, at + 4 + n, (count - 1) as nat) {
                Some((rest, end)) => Some((
                    seq![decode_utf8(b.subrange(at + 4, at + 4 + n))] + rest,
                    end,
                )),
                None => None,
            }
        }
    }
}

/// A reply body of child names: a vector of strings, then a stat record.
pub open spec fn children_response_well_formed(b: Seq<u8>) -> bool {
    &&& b.len() >= 4
    &&& read_i32(b, 0) >= 0
    &&& match strings_at(b, 4, read_i32(b, 0) as nat) {
        Some((_, end)) => end + STAT_LEN <= b.len(),
        None => false,
    }
}

/// Decodes the body of a reply to a child listing: the names of the
/// children, then the stat record of the parent.
pub fn decode_children_response(body: &[u8]) -> (r: Result<(Vec<String>, Stat), Error>)
    ensures
        r is Ok <==> children_response_well_formed(body@),
        r matches Ok((names, stat)) ==> strings_at(body@, 4, read_i32(body@, 0) as nat) matches Some(
            (ns, end),
        ) && names@.map_values(|s: String| s@) == ns && stat == stat_at(body@, end),
        r is Err ==> r == Err::<(Vec<String>, Stat), Error>(Error::ProtocolError),
{
    if body.len() < 4 {
        return Err(Error::ProtocolError);
    }
    let count = get_i32(body, 0);
    if count < 0 {
        return Err(Error::ProtocolError);
    }
    let ghost total = count as nat;
    let mut names: Vec<String> = Vec::new();
    let mut at: usize = 4;
    let mut k: i32 = 0;
    while k < count
        invariant
            0 <= k <= count,
            count as int == read_i32(body@, 0),
            total == count as nat,
            4 <= at <= body@.len(),
            strings_at(body@, 4, total) == match strings_at(body@, at as int, (count - k) as nat) {
                Some((rest, end)) => Some((names@.map_values(|s: String| s@) + rest, end)),
                None => None::<(Seq<Seq<char>>, int)>,
            },
        decreases count - k,
    {
        let ghost before = names@.map_values(|s: String| s@);
        if body.len() - at < 4 {
            return Err(Error::ProtocolError);
        }
        let n = get_i32(body, at);
        if n < 0 || n as usize > body.len() - at - 4 {
            return Err(Error::ProtocolError);
        }
        let end = at + 4 + n as usize;
        let name = match utf8_text(vstd::slice::slice_subrange(body, at + 4, end)) {
            Some(s) => s,
            None => return Err(Error::ProtocolError),
        };
        let ghost s = name@;
        names.push(name);
        proof {
            assert(names@.map_values(|s: String| s@) =~= before.push(s));
            match strings_at(body@, end as int, (count - k - 1) as nat) {
                Some((rest, e)) => {
                    assert(before.push(s) + rest =~= before + (seq![s] + rest));
                },
                None => {},
            }
        }
        at = end;
        k = k + 1;
    }
    if body.len() - at < STAT_LEN {
        return Err(Error::ProtocolError);
    }
    assert(names@.map_values(|s: String| s@) + Seq::<Seq<char>>::empty() =~= names@.map_values(
        |s: String| s@,
    ));
    Ok((names, decode_stat(body, at)))
}

} // verus!
