use vstd::prelude::*;

use crate::chroot::{valid_path, OwnedChroot};
use crate::error::Error;

verus! {

/// The port a server listens on when the connection string names none.
pub const DEFAULT_PORT: u16 = 2181;

/// The first position at or after `k` where `s` holds `c`, or the length of `s`.
pub open spec fn next_index(s: Seq<char>, c: char, k: int) -> int
    decreases s.len() - k,
{
    if k >= s.len() {
        s.len() as int
    } else if s[k] == c {
        k
    } else {
        next_index(s, c, k + 1)
    }
}

/// The pieces of `s[k..]` between the occurrences of `c`.
pub open spec fn split_from(s: Seq<char>, c: char, k: int) -> Seq<Seq<char>>
    decreases s.len() - k,
{
    let i = next_index(s, c, k);
    if k < 0 || k > s.len() || i < k {
        Seq::empty()
    } else if i >= s.len() {
        seq![s.subrange(k, s.len() as int)]
    } else {
        seq![s.subrange(k, i)] + split_from(s, c, i + 1)
    }
}

/// The number that the decimal digits `ds` spell.
pub open spec fn decimal(ds: Seq<char>) -> int
    decreases ds.len(),
{
    if ds.len() == 0 {
        0
    } else {
        decimal(ds.drop_last()) * 10 + (ds.last() as int - '0' as int)
    }
}

/// Whether `c` is a decimal digit.
pub open spec fn is_digit(c: char) -> bool {
    '0' <= c <= '9'
}

/// The port that `ds` spells: decimal digits, from 1 to 65535.
pub open spec fn port_of(ds: Seq<char>) -> Option<u16> {
    if ds.len() > 0 && (forall|i: int| 0 <= i < ds.len() ==> is_digit(#[trigger] ds[i]))
        && 1 <= decimal(ds) <= 65535 {
        Some(decimal(ds) as u16)
    } else {
        None
    }
}

/// The server that `seg`, of the form `host` or `host:port`, names.
pub open spec fn endpoint_of(seg: Seq<char>) -> Option<(Seq<char>, u16)> {
    let i = next_index(seg, ':', 0);
    let host = seg.subrange(0, i);
    if host.len() == 0 {
        None
    } else if i >= seg.len() {
        Some((host, DEFAULT_PORT))
    } else {
        match port_of(seg.subrange(i + 1, seg.len() as int)) {
            Some(p) => Some((host, p)),
            None => None,
        }
    }
}

/// The server list of a connection string: what comes before the first `/`.
pub open spec fn servers_part(s: Seq<char>) -> Seq<char> {
    s.subrange(0, next_index(s, '/', 0))
}

/// The chroot of a connection string: what comes from the first `/` on, or `/`.
pub open spec fn chroot_part(s: Seq<char>) -> Seq<char> {
    if next_index(s, '/', 0) >= s.len() {
        seq!['/']
    } else {
        s.subrange(next_index(s, '/', 0), s.len() as int)
    }
}

/// The comma-separated server entries of a connection string.
pub open spec fn server_entries(s: Seq<char>) -> Seq<Seq<char>> {
    split_from(servers_part(s), ',', 0)
}

/// A server to connect to.
#[derive(Clone, Debug, PartialEq, Eq)]
pub struct Endpoint {
    pub host: String,
    pub port: u16,
}

proof fn lemma_next_index_bounds(s: Seq<char>, c: char, k: int)
    requires
        0 <= k,
    ensures
        k <= s.len() ==> k <= next_index(s, c, k) <= s.len(),
        k > s.len() ==> next_index(s, c, k) == s.len(),
        next_index(s, c, k) < s.len() ==> s[next_index(s, c, k)] == c,
    decreases s.len() - k,
{
    if k < s.len() && s[k] != c {
        lemma_next_index_bounds(s, c, k + 1);
    }
}

/// The first position at or after `from` where `s` holds `c`, or its length.
fn find_char(s: &str, c: char, from: usize) -> (r: usize)
    requires
        from <= s@.len(),
    ensures
        r as int == next_index(s@, c, from as int),
        from <= r <= s@.len(),
{
    let n = s.unicode_len();
    let mut k = from;
    while k < n
        invariant
            n == s@.len(),
            from <= k <= n,
            next_index(s@, c, from as int) == next_index(s@, c, k as int),
        decreases n - k,
    {
        if s.get_char(k) == c {
            return k;
        }
        k = k + 1;
    }
    k
}

/// Reads a port: decimal digits from 1 to 65535.
fn parse_port(ds: &str) -> (r: Option<u16>)
    ensures
        r == port_of(ds@),
{
    let n = ds.unicode_len();
    if n == 0 {
        return None;
    }
    let mut v: u32 = 0;
    let mut k: usize = 0;
    while k < n
        invariant
            n == ds@.len(),
            k <= n,
            v as int == decimal(ds@.subrange(0, k as int)),
            v <= 65535,
            forall|i: int| 0 <= i < k ==> is_digit(#[trigger] ds@[i]),
        decreases n - k,
    {
        let c = ds.get_char(k);
        if c < '0' || c > '9' {
            assert(!is_digit(ds@[k as int]));
            return None;
        }
        assert(ds@.subrange(0, k + 1).drop_last() =~= ds@.subrange(0, k as int));
        let d = (c as u32) - ('0' as u32);
        v = v * 10 + d;
        if v > 65535 {
            proof {
                if forall|i: int| 0 <= i < ds@.len() ==> is_digit(#[trigger] ds@[i]) {
                    lemma_decimal_grows(ds@, k as int + 1);
                }
            }
            return None;
        }
        k = k + 1;
    }
    assert(ds@.subrange(0, n as int) =~= ds@);
    if v == 0 {
        return None;
    }
    Some(v as u16)
}

/// A decimal number never shrinks as digits are added.
proof fn lemma_decimal_grows(ds: Seq<char>, k: int)
    requires
        0 <= k <= ds.len(),
        forall|i: int| 0 <= i < ds.len() ==> is_digit(#[trigger] ds[i]),
    ensures
        decimal(ds.subrange(0, k)) <= decimal(ds),
    decreases ds.len() - k,
{
    if k < ds.len() {
        lemma_decimal_grows(ds, k + 1);
        assert(ds.subrange(0, k + 1).drop_last() =~= ds.subrange(0, k));
        lemma_decimal_nonneg(ds.subrange(0, k));
    } else {
        assert(ds.subrange(0, k) =~= ds);
    }
}

/// Decimal digits spell a non-negative number.
proof fn lemma_decimal_nonneg(ds: Seq<char>)
    requires
        forall|i: int| 0 <= i < ds.len() ==> is_digit(#[trigger] ds[i]),
    ensures
        decimal(ds) >= 0,
    decreases ds.len(),
{
    if ds.len() > 0 {
        assert(is_digit(ds[ds.len() - 1]));
        lemma_decimal_nonneg(ds.drop_last());
    }
}

/// Reads one server entry: `host` or `host:port`.
pub fn parse_endpoint(seg: &str) -> (r: Option<Endpoint>)
    ensures
        r is None <==> endpoint_of(seg@) is None,
        r matches Some(e) ==> endpoint_of(seg@) == Some((e.host@, e.port)),
{
    let n = seg.unicode_len();
    let i = find_char(seg, ':', 0);
    if i == 0 {
        assert(seg@.subrange(0, 0).len() == 0);
        return None;
    }
    let host = String::from_str(seg.substring_char(0, i));
    if i == n {
        return Some(Endpoint { host, port: DEFAULT_PORT });
    }
    match parse_port(seg.substring_char(i + 1, n)) {
        Some(port) => Some(Endpoint { host, port }),
        None => None,
    }
}

/// All server entries of `entries` are well formed.
pub open spec fn entries_valid(entries: Seq<Seq<char>>) -> bool {
    forall|i: int| 0 <= i < entries.len() ==> (#[trigger] endpoint_of(entries[i])) is Some
}

/// Reads a connection string `host1:port1,host2:port2,.../chroot`: the
/// servers, each with port 2181 when it names none, and the chroot, `/`
/// when there is none.
pub fn parse_connect_string(s: &str) -> (r: Result<(Vec<Endpoint>, OwnedChroot), Error>)
    ensures
        r is Ok <==> entries_valid(server_entries(s@)) && valid_path(chroot_part(s@)),
        r matches Ok((eps, chroot)) ==> {
            &&& eps@.len() == server_entries(s@).len()
            &&& forall|i: int|
                0 <= i < eps@.len() ==> endpoint_of(#[trigger] server_entries(s@)[i]) == Some(
                    (eps@[i].host@, eps@[i].port),
                )
            &&& chroot.view() == chroot_part(s@)
        },
        r is Err ==> r == Err::<(Vec<Endpoint>, OwnedChroot), Error>(Error::BadArguments),
{
    let n = s.unicode_len();
    let slash = find_char(s, '/', 0);
    let servers = s.substring_char(0, slash);
    let ghost sv = servers@;
    let m = servers.unicode_len();
    let mut eps: Vec<Endpoint> = Vec::new();
    let ghost mut done: Seq<Seq<char>> = Seq::empty();
    let mut start: usize = 0;
    let mut finished = false;
    let ghost mut pos: int = 0;
    while !finished
        invariant
            sv == servers@,
            sv == servers_part(s@),
            m == sv.len(),
            start <= m,
            !finished ==> pos == start,
            finished ==> pos == m + 1,
            done + split_from(sv, ',', pos) == split_from(sv, ',', 0),
            eps@.len() == done.len(),
            forall|i: int|
                0 <= i < done.len() ==> endpoint_of(#[trigger] done[i]) == Some(
                    (eps@[i].host@, eps@[i].port),
                ),
        decreases m + 1 - pos,
    {
        let j = find_char(servers, ',', start);
        proof {
            lemma_next_index_bounds(sv, ',', start as int);
        }
        let seg = servers.substring_char(start, j);
        let ghost rest = split_from(sv, ',', start as int);
        assert(rest[0] == seg@);
        match parse_endpoint(seg) {
            Some(e) => {
                eps.push(e);
            },
            None => {
                assert(split_from(sv, ',', 0)[done.len() as int] == seg@);
                assert(!entries_valid(server_entries(s@)));
                return Err(Error::BadArguments);
            },
        }
        proof {
            let next = if j >= m {
                m + 1
            } else {
                j + 1
            };
            assert(rest =~= seq![seg@] + split_from(sv, ',', next as int));
            assert(done.push(seg@) + split_from(sv, ',', next as int) =~= done + rest);
            done = done.push(seg@);
            pos = next as int;
        }
        if j == m {
            finished = true;
        } else {
            start = j + 1;
        }
    }
    assert(split_from(sv, ',', pos) =~= Seq::<Seq<char>>::empty());
    assert(done =~= server_entries(s@));
    let chroot = if slash == n {
        OwnedChroot::top()
    } else {
        match OwnedChroot::new(s.substring_char(slash, n)) {
            Ok(c) => c,
            Err(e) => return Err(e),
        }
    };
    Ok((eps, chroot))
}

} // verus!
