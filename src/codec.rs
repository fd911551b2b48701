use vstd::prelude::*;

use vstd::arithmetic::div_mod::{lemma_div_denominator, lemma_fundamental_div_mod};
use vstd::utf8::{decode_utf8, encode_utf8, valid_utf8};

use crate::error::Error;
use crate::session::{EventType, SessionState, WatchedEvent};

verus! {

/// The four big-endian bytes of `x`, for `0 <= x < 2^32`.
pub open spec fn u32_bytes(x: int) -> Seq<u8> {
    seq![
        (x / 0x1000000) as u8,
        (x / 0x10000 % 0x100) as u8,
        (x / 0x100 % 0x100) as u8,
        (x % 0x100) as u8,
    ]
}

/// The unsigned big-endian number in `s[at..at + 4]`.
pub open spec fn read_u32(s: Seq<u8>, at: int) -> int {
    s[at] * 0x1000000 + s[at + 1] * 0x10000 + s[at + 2] * 0x100 + s[at + 3]
}

/// The 32-bit two's complement reading of `u`.
pub open spec fn signed32(u: int) -> int {
    if u >= 0x80000000 {
        u - 0x100000000
    } else {
        u
    }
}

/// The 64-bit two's complement reading of `u`.
pub open spec fn signed64(u: int) -> int {
    if u >= 0x8000000000000000 {
        u - 0x10000000000000000
    } else {
        u
    }
}

/// The signed big-endian 32-bit number in `s[at..at + 4]`.
pub open spec fn read_i32(s: Seq<u8>, at: int) -> int {
    signed32(read_u32(s, at))
}

/// The signed big-endian 64-bit number in `s[at..at + 8]`.
pub open spec fn read_i64(s: Seq<u8>, at: int) -> int {
    signed64(read_u32(s, at) * 0x100000000 + read_u32(s, at + 4))
}

/// The big-endian two's complement bytes of `v`.
pub open spec fn i32_bytes(v: i32) -> Seq<u8> {
    u32_bytes(
        if v < 0 {
            v + 0x100000000
        } else {
            v as int
        },
    )
}

/// The big-endian two's complement bytes of `v`.
pub open spec fn i64_bytes(v: i64) -> Seq<u8> {
    let u = if v < 0 {
        v + 0x10000000000000000
    } else {
        v as int
    };
    u32_bytes(u / 0x100000000) + u32_bytes(u % 0x100000000)
}

/// Appends the big-endian bytes of `x`.
fn put_u32(buf: &mut Vec<u8>, x: u32)
    ensures
        final(buf)@ == old(buf)@ + u32_bytes(x as int),
{
    buf.push((x / 0x1000000) as u8);
    buf.push((x / 0x10000 % 0x100) as u8);
    buf.push((x / 0x100 % 0x100) as u8);
    buf.push((x % 0x100) as u8);
    assert(buf@ =~= old(buf)@ + u32_bytes(x as int));
}

/// Appends the big-endian two's complement bytes of `v`.
pub fn put_i32(buf: &mut Vec<u8>, v: i32)
    ensures
        final(buf)@ == old(buf)@ + i32_bytes(v),
{
    let u: u32 = if v < 0 {
        (v as i64 + 0x100000000) as u32
    } else {
        v as u32
    };
    put_u32(buf, u);
}

/// Appends the big-endian two's complement bytes of `v`.
pub fn put_i64(buf: &mut Vec<u8>, v: i64)
    ensures
        final(buf)@ == old(buf)@ + i64_bytes(v),
{
    let u: u64 = if v < 0 {
        (v as i128 + 0x10000000000000000) as u64
    } else {
        v as u64
    };
    put_u32(buf, (u / 0x100000000) as u32);
    put_u32(buf, (u % 0x100000000) as u32);
    assert(buf@ =~= old(buf)@ + i64_bytes(v));
}

/// Appends a length-prefixed byte buffer.
pub fn put_buffer(buf: &mut Vec<u8>, data: &[u8]) -> (r: Result<(), Error>)
    ensures
        r is Ok <==> data@.len() < 0x80000000,
        r is Ok ==> final(buf)@ == old(buf)@ + i32_bytes(data@.len() as i32) + data@,
        r is Err ==> final(buf)@ == old(buf)@ && r == Err::<(), Error>(Error::BadArguments),
{
    if data.len() >= 0x80000000 {
        return Err(Error::BadArguments);
    }
    put_i32(buf, data.len() as i32);
    let ghost mid = buf@;
    let mut k: usize = 0;
    while k < data.len()
        invariant
            k <= data@.len(),
            buf@ == mid + data@.subrange(0, k as int),
        decreases data@.len() - k,
    {
        buf.push(data[k]);
        assert(buf@ =~= mid + data@.subrange(0, k + 1));
        k = k + 1;
    }
    assert(data@.subrange(0, data@.len() as int) =~= data@);
    Ok(())
}

/// The bytes of a length-prefixed UTF-8 string.
pub open spec fn ustring_bytes(s: Seq<char>) -> Seq<u8> {
    i32_bytes(encode_utf8(s).len() as i32) + encode_utf8(s)
}

/// The bytes of the strings `ss`, one after the other.
pub open spec fn ustrings_bytes(ss: Seq<Seq<char>>) -> Seq<u8>
    decreases ss.len(),
{
    if ss.len() == 0 {
        Seq::empty()
    } else {
        ustrings_bytes(ss.drop_last()) + ustring_bytes(ss.last())
    }
}

/// The bytes of a vector of strings: its length, then its strings.
pub open spec fn string_vector_bytes(ss: Seq<Seq<char>>) -> Seq<u8> {
    i32_bytes(ss.len() as i32) + ustrings_bytes(ss)
}

/// Each of the strings `ss` fits a length prefix.
pub open spec fn strings_fit(ss: Seq<Seq<char>>) -> bool {
    &&& ss.len() < 0x80000000
    &&& forall|i: int| 0 <= i < ss.len() ==> #[trigger] encode_utf8(ss[i]).len() < 0x80000000
}

/// Appends a vector of strings: its length, then each string length-prefixed.
pub fn put_strings(buf: &mut Vec<u8>, strings: &Vec<String>) -> (r: Result<(), Error>)
    ensures
        r is Ok <==> strings_fit(strings@.map_values(|s: String| s@)),
        r is Ok ==> final(buf)@ == old(buf)@ + string_vector_bytes(
            strings@.map_values(|s: String| s@),
        ),
        r is Err ==> r == Err::<(), Error>(Error::BadArguments),
{
    let ghost ss = strings@.map_values(|s: String| s@);
    if strings.len() >= 0x80000000 {
        return Err(Error::BadArguments);
    }
    let mut k: usize = 0;
    while k < strings.len()
        invariant
            ss == strings@.map_values(|s: String| s@),
            k <= strings@.len(),
            forall|i: int| 0 <= i < k ==> #[trigger] encode_utf8(ss[i]).len() < 0x80000000,
        decreases strings@.len() - k,
    {
        let bytes = strings[k].as_str().as_bytes_vec();
        assert(ss[k as int] == strings@[k as int]@);
        if bytes.len() >= 0x80000000 {
            return Err(Error::BadArguments);
        }
        k = k + 1;
    }
    put_i32(buf, strings.len() as i32);
    let ghost start = buf@;
    let mut k: usize = 0;
    proof {
        assert(ss.subrange(0, 0) =~= Seq::<Seq<char>>::empty());
        assert(buf@ =~= start + ustrings_bytes(ss.subrange(0, 0)));
    }
    while k < strings.len()
        invariant
            ss == strings@.map_values(|s: String| s@),
            strings_fit(ss),
            k <= strings@.len(),
            buf@ == start + ustrings_bytes(ss.subrange(0, k as int)),
        decreases strings@.len() - k,
    {
        let bytes = strings[k].as_str().as_bytes_vec();
        assert(ss[k as int] == strings@[k as int]@);
        assert(encode_utf8(ss[k as int]).len() < 0x80000000);
        let r = put_buffer(buf, bytes.as_slice());
        assert(r is Ok);
        proof {
            assert(ss.subrange(0, k + 1).drop_last() =~= ss.subrange(0, k as int));
            assert(buf@ =~= start + ustrings_bytes(ss.subrange(0, k + 1)));
        }
        k = k + 1;
    }
    assert(ss.subrange(0, ss.len() as int) =~= ss);
    assert(buf@ =~= old(buf)@ + string_vector_bytes(ss));
    Ok(())
}

/// Appends a string, length-prefixed, as UTF-8.
pub fn put_ustring(buf: &mut Vec<u8>, s: &str) -> (r: Result<(), Error>)
    ensures
        r is Ok <==> encode_utf8(s@).len() < 0x80000000,
        r is Ok ==> final(buf)@ == old(buf)@ + ustring_bytes(s@),
        r is Err ==> final(buf)@ == old(buf)@ && r == Err::<(), Error>(Error::BadArguments),
{
    let bytes = s.as_bytes_vec();
    put_buffer(buf, bytes.as_slice())
}

/// Reads the unsigned big-endian number at `at`.
fn get_u32(buf: &[u8], at: usize) -> (r: u32)
    requires
        at + 4 <= buf@.len(),
    ensures
        r as int == read_u32(buf@, at as int),
{
    let b0 = buf[at] as u32;
    let b1 = buf[at + 1] as u32;
    let b2 = buf[at + 2] as u32;
    let b3 = buf[at + 3] as u32;
    assert(b0 * 0x1000000 + b1 * 0x10000 + b2 * 0x100 + b3 <= 0xffffffff) by (nonlinear_arith)
        requires
            b0 < 256,
            b1 < 256,
            b2 < 256,
            b3 < 256,
    ;
    b0 * 0x1000000 + b1 * 0x10000 + b2 * 0x100 + b3
}

/// Reads the signed big-endian 32-bit number at `at`.
pub fn get_i32(buf: &[u8], at: usize) -> (r: i32)
    requires
        at + 4 <= buf@.len(),
    ensures
        r as int == read_i32(buf@, at as int),
{
    let u = get_u32(buf, at) as i64;
    if u >= 0x80000000 {
        (u - 0x100000000) as i32
    } else {
        u as i32
    }
}

/// Reads the signed big-endian 64-bit number at `at`.
pub fn get_i64(buf: &[u8], at: usize) -> (r: i64)
    requires
        at + 8 <= buf@.len(),
    ensures
        r as int == read_i64(buf@, at as int),
{
    let n = buf.len();
    assert(at + 8 <= n);
    let hi = get_u32(buf, at) as i128;
    let lo = get_u32(buf, at + 4) as i128;
    let u = hi * 0x100000000 + lo;
    if u >= 0x8000000000000000 {
        (u - 0x10000000000000000) as i64
    } else {
        u as i64
    }
}

/// Frames `payload` for the wire: its length, big-endian, then the payload.
pub fn encode_frame(payload: &[u8]) -> (r: Result<Vec<u8>, Error>)
    ensures
        r is Ok <==> payload@.len() < 0x80000000,
        r matches Ok(f) ==> f@ == i32_bytes(payload@.len() as i32) + payload@,
        r is Err ==> r == Err::<Vec<u8>, Error>(Error::BadArguments),
{
    let mut out: Vec<u8> = Vec::new();
    match put_buffer(&mut out, payload) {
        Ok(()) => {
            assert(out@ =~= i32_bytes(payload@.len() as i32) + payload@);
            Ok(out)
        },
        Err(e) => Err(e),
    }
}

/// Finds the first complete frame at the start of `buf`: the end of its
/// payload, which begins at byte 4. `None` while more bytes are needed.
/// A negative length is malformed.
pub fn next_frame(buf: &[u8]) -> (r: Result<Option<usize>, Error>)
    ensures
        buf@.len() < 4 ==> r == Ok::<Option<usize>, Error>(None),
        buf@.len() >= 4 && read_i32(buf@, 0) < 0 ==> r == Err::<Option<usize>, Error>(
            Error::ProtocolError,
        ),
        buf@.len() >= 4 && read_i32(buf@, 0) >= 0 ==> {
            &&& (4 + read_i32(buf@, 0) <= buf@.len() ==> r == Ok::<Option<usize>, Error>(
                Some((4 + read_i32(buf@, 0)) as usize),
            ))
            &&& (4 + read_i32(buf@, 0) > buf@.len() ==> r == Ok::<Option<usize>, Error>(None))
        },
{
    if buf.len() < 4 {
        return Ok(None);
    }
    let n = get_i32(buf, 0);
    if n < 0 {
        return Err(Error::ProtocolError);
    }
    let n = n as usize;
    if buf.len() - 4 >= n {
        Ok(Some(n + 4))
    } else {
        Ok(None)
    }
}

/// The header of every reply frame.
#[derive(Clone, Copy, Debug, PartialEq, Eq, Structural)]
pub struct ReplyHeader {
    pub xid: i32,
    pub zxid: i64,
    pub err: i32,
}

/// Reads the reply header at the start of a frame's payload.
pub fn decode_reply_header(payload: &[u8]) -> (r: Result<ReplyHeader, Error>)
    ensures
        r is Ok <==> payload@.len() >= 16,
        r matches Ok(h) ==> {
            &&& h.xid == read_i32(payload@, 0)
            &&& h.zxid == read_i64(payload@, 4)
            &&& h.err == read_i32(payload@, 12)
        },
        r is Err ==> r == Err::<ReplyHeader, Error>(Error::ProtocolError),
{
    if payload.len() < 16 {
        return Err(Error::ProtocolError);
    }
    Ok(ReplyHeader { xid: get_i32(payload, 0), zxid: get_i64(payload, 4), err: get_i32(payload, 12) })
}

/// The event type that `code` stands for on the wire.
pub open spec fn event_type_code(code: int) -> Option<EventType> {
    if code == -1 {
        Some(EventType::Session)
    } else if code == 1 {
        Some(EventType::NodeCreated)
    } else if code == 2 {
        Some(EventType::NodeDeleted)
    } else if code == 3 {
        Some(EventType::NodeDataChanged)
    } else if code == 4 {
        Some(EventType::NodeChildrenChanged)
    } else if code == 7 {
        Some(EventType::PersistentWatchRemoved)
    } else {
        None
    }
}

/// The session state that `code` stands for on the wire.
pub open spec fn session_state_code(code: int) -> Option<SessionState> {
    if code == 0 {
        Some(SessionState::Disconnected)
    } else if code == 3 {
        Some(SessionState::SyncConnected)
    } else if code == 4 {
        Some(SessionState::AuthFailed)
    } else if code == 5 {
        Some(SessionState::ReadOnlyConnected)
    } else if code == -112 {
        Some(SessionState::Expired)
    } else if code == 7 {
        Some(SessionState::Closed)
    } else {
        None
    }
}

fn event_type_from(code: i32) -> (r: Option<EventType>)
    ensures
        r == event_type_code(code as int),
{
    if code == -1 {
        Some(EventType::Session)
    } else if code == 1 {
        Some(EventType::NodeCreated)
    } else if code == 2 {
        Some(EventType::NodeDeleted)
    } else if code == 3 {
        Some(EventType::NodeDataChanged)
    } else if code == 4 {
        Some(EventType::NodeChildrenChanged)
    } else if code == 7 {
        Some(EventType::PersistentWatchRemoved)
    } else {
        None
    }
}

fn session_state_from(code: i32) -> (r: Option<SessionState>)
    ensures
        r == session_state_code(code as int),
{
    if code == 0 {
        Some(SessionState::Disconnected)
    } else if code == 3 {
        Some(SessionState::SyncConnected)
    } else if code == 4 {
        Some(SessionState::AuthFailed)
    } else if code == 5 {
        Some(SessionState::ReadOnlyConnected)
    } else if code == -112 {
        Some(SessionState::Expired)
    } else if code == 7 {
        Some(SessionState::Closed)
    } else {
        None
    }
}

/// Relies on `std::str::from_utf8`: the text that `bytes` encode, when they
/// are valid UTF-8.
#[verifier::external_body]
pub(crate) fn utf8_text(bytes: &[u8]) -> (r: Option<String>)
    ensures
        r is Some <==> valid_utf8(bytes@),
        r matches Some(s) ==> s@ == decode_utf8(bytes@),
{
    match std::str::from_utf8(bytes) {
        Ok(s) => Some(s.to_string()),
        Err(_) => None,
    }
}

/// The body of a notification is well formed: event type, session state and
/// a path of valid UTF-8 (a length of -1 stands for no path).
pub open spec fn event_well_formed(b: Seq<u8>) -> bool {
    &&& b.len() >= 12
    &&& event_type_code(read_i32(b, 0)) is Some
    &&& session_state_code(read_i32(b, 4)) is Some
    &&& (read_i32(b, 8) == -1 || (0 <= read_i32(b, 8) && 12 + read_i32(b, 8) <= b.len()
        && valid_utf8(b.subrange(12, 12 + read_i32(b, 8)))))
}

/// The path that a well-formed notification body carries.
pub open spec fn event_path(b: Seq<u8>) -> Seq<char> {
    if read_i32(b, 8) == -1 {
        Seq::empty()
    } else {
        decode_utf8(b.subrange(12, 12 + read_i32(b, 8)))
    }
}

/// Decodes the body of a watch notification, after its reply header.
pub fn decode_watcher_event(body: &[u8]) -> (r: Result<WatchedEvent, Error>)
    ensures
        r is Ok <==> event_well_formed(body@),
        r matches Ok(e) ==> {
            &&& Some(e.event_type) == event_type_code(read_i32(body@, 0))
            &&& Some(e.session_state) == session_state_code(read_i32(body@, 4))
            &&& e.path@ == event_path(body@)
        },
        r is Err ==> r == Err::<WatchedEvent, Error>(Error::ProtocolError),
{
    if body.len() < 12 {
        return Err(Error::ProtocolError);
    }
    let event_type = match event_type_from(get_i32(body, 0)) {
        Some(t) => t,
        None => return Err(Error::ProtocolError),
    };
    let session_state = match session_state_from(get_i32(body, 4)) {
        Some(s) => s,
        None => return Err(Error::ProtocolError),
    };
    let n = get_i32(body, 8);
    if n == -1 {
        return Ok(WatchedEvent { event_type, session_state, path: String::new() });
    }
    if n < 0 || n as usize > body.len() - 12 {
        return Err(Error::ProtocolError);
    }
    let bytes = vstd::slice::slice_subrange(body, 12, 12 + n as usize);
    match utf8_text(bytes) {
        Some(path) => Ok(WatchedEvent { event_type, session_state, path }),
        None => Err(Error::ProtocolError),
    }
}

/// The bytes of a connect request's payload.
pub open spec fn connect_request_bytes(
    last_zxid: i64,
    timeout: i32,
    session_id: i64,
    password: Seq<u8>,
    read_only: bool,
) -> Seq<u8> {
    i32_bytes(0) + i64_bytes(last_zxid) + i32_bytes(timeout) + i64_bytes(session_id) + i32_bytes(
        password.len() as i32,
    ) + password + seq![if read_only { 1u8 } else { 0u8 }]
}

/// Encodes the payload of a connect request: protocol version 0, the last
/// transaction id seen, the proposed timeout, the session to resume (0 for a
/// new one), its password and whether a read-only server will do.
pub fn encode_connect_request(
    last_zxid: i64,
    timeout: i32,
    session_id: i64,
    password: &[u8],
    read_only: bool,
) -> (r: Result<Vec<u8>, Error>)
    ensures
        r is Ok <==> password@.len() < 0x80000000,
        r matches Ok(b) ==> b@ == connect_request_bytes(
            last_zxid,
            timeout,
            session_id,
            password@,
            read_only,
        ),
        r is Err ==> r == Err::<Vec<u8>, Error>(Error::BadArguments),
{
    let mut out: Vec<u8> = Vec::new();
    put_i32(&mut out, 0);
    put_i64(&mut out, last_zxid);
    put_i32(&mut out, timeout);
    put_i64(&mut out, session_id);
    match put_buffer(&mut out, password) {
        Ok(()) => {},
        Err(e) => return Err(e),
    }
    out.push(if read_only { 1u8 } else { 0u8 });
    assert(out@ =~= connect_request_bytes(last_zxid, timeout, session_id, password@, read_only));
    Ok(out)
}

/// The server's answer to a connect request.
#[derive(Clone, Debug, PartialEq, Eq)]
pub struct ConnectResponse {
    pub timeout: i32,
    pub session_id: i64,
    pub password: Vec<u8>,
    pub read_only: bool,
}

/// A connect response is well formed: protocol version, timeout, session id
/// and a password of non-negative length, then optionally the read-only flag.
pub open spec fn connect_response_well_formed(b: Seq<u8>) -> bool {
    &&& b.len() >= 20
    &&& 0 <= read_i32(b, 16)
    &&& 20 + read_i32(b, 16) <= b.len()
}

/// Decodes the payload of a connect response.
pub fn decode_connect_response(payload: &[u8]) -> (r: Result<ConnectResponse, Error>)
    ensures
        r is Ok <==> connect_response_well_formed(payload@),
        r matches Ok(c) ==> {
            let n = read_i32(payload@, 16);
            &&& c.timeout == read_i32(payload@, 4)
            &&& c.session_id == read_i64(payload@, 8)
            &&& c.password@ == payload@.subrange(20, 20 + n)
            &&& c.read_only == (20 + n < payload@.len() && payload@[20 + n] != 0)
        },
        r is Err ==> r == Err::<ConnectResponse, Error>(Error::ProtocolError),
{
    if payload.len() < 20 {
        return Err(Error::ProtocolError);
    }
    let timeout = get_i32(payload, 4);
    let session_id = get_i64(payload, 8);
    let n = get_i32(payload, 16);
    if n < 0 || n as usize > payload.len() - 20 {
        return Err(Error::ProtocolError);
    }
    let end = 20 + n as usize;
    let password = vstd::slice::slice_to_vec(vstd::slice::slice_subrange(payload, 20, end));
    let read_only = end < payload.len() && payload[end] != 0;
    Ok(ConnectResponse { timeout, session_id, password, read_only })
}


/// Reading back the bytes written for a 32-bit number gives the number.
pub proof fn lemma_u32_round_trip(x: int)
    requires
        0 <= x < 0x100000000,
    ensures
        read_u32(u32_bytes(x), 0) == x,
{
    let b = u32_bytes(x);
    let q1 = x / 0x100;
    let q2 = q1 / 0x100;
    let q3 = q2 / 0x100;
    lemma_fundamental_div_mod(x, 0x100);
    lemma_fundamental_div_mod(q1, 0x100);
    lemma_fundamental_div_mod(q2, 0x100);
    lemma_div_denominator(x, 0x100, 0x100);
    lemma_div_denominator(x, 0x10000, 0x100);
    lemma_fundamental_div_mod(x, 0x1000000);
    let a0 = q3;
    let a1 = q2 % 0x100;
    let a2 = q1 % 0x100;
    let a3 = x % 0x100;
    assert(b[0] == a0);
    assert(b[1] == a1);
    assert(b[2] == a2);
    assert(b[3] == a3);
}


/// Reading back the bytes written for a signed 32-bit number gives the number.
pub proof fn lemma_i32_round_trip(v: i32)
    ensures
        read_i32(i32_bytes(v), 0) == v,
{
    let u = if v < 0 {
        v + 0x100000000
    } else {
        v as int
    };
    lemma_u32_round_trip(u);
}

/// Reading back the bytes written for a signed 64-bit number gives the number.
pub proof fn lemma_i64_round_trip(v: i64)
    ensures
        read_i64(i64_bytes(v), 0) == v,
{
    let u = if v < 0 {
        v + 0x10000000000000000
    } else {
        v as int
    };
    let hi = u / 0x100000000;
    let lo = u % 0x100000000;
    lemma_fundamental_div_mod(u, 0x100000000);
    lemma_u32_round_trip(hi);
    lemma_u32_round_trip(lo);
    let s = i64_bytes(v);
    assert(s.subrange(4, 8) == u32_bytes(lo));
    assert(read_u32(s, 4) == read_u32(u32_bytes(lo), 0)) by {
        assert(s[4] == u32_bytes(lo)[0]);
        assert(s[5] == u32_bytes(lo)[1]);
        assert(s[6] == u32_bytes(lo)[2]);
        assert(s[7] == u32_bytes(lo)[3]);
    }
    assert(read_u32(s, 0) == read_u32(u32_bytes(hi), 0));
}

/// The frame of a payload announces the payload's length: finding the
/// frame again ends it right after the payload.
pub proof fn lemma_frame_round_trip(payload: Seq<u8>)
    requires
        payload.len() < 0x80000000,
    ensures
        read_i32(i32_bytes(payload.len() as i32) + payload, 0) == payload.len(),
{
    let f = i32_bytes(payload.len() as i32) + payload;
    lemma_i32_round_trip(payload.len() as i32);
    assert(read_u32(f, 0) == read_u32(i32_bytes(payload.len() as i32), 0));
}

} // verus!
