use vstd::prelude::*;

use vstd::utf8::encode_utf8;

use crate::codec::{i32_bytes, put_buffer, put_i32, put_ustring, ustring_bytes};
use crate::error::Error;
use crate::watch::WatchKind;

verus! {

/// An access control entry: permissions granted to an identity of a scheme.
#[derive(Clone, Debug, PartialEq, Eq)]
pub struct Acl {
    pub perms: i32,
    pub scheme: String,
    pub id: String,
}

/// A request record as it goes on the wire, with paths already translated.
#[derive(Debug)]
pub enum Request {
    Create { path: String, data: Vec<u8>, acls: Vec<Acl>, flags: i32 },
    Delete { path: String, version: i32 },
    Exists { path: String, watch: bool },
    GetData { path: String, watch: bool },
    SetData { path: String, data: Vec<u8>, version: i32 },
    GetChildren { path: String, watch: bool },
    Sync { path: String },
    AddWatch { path: String, recursive: bool },
    RemoveWatches { path: String, kind: WatchKind },
    Ping,
    CloseSession,
}

/// The opcode of `r` on the wire.
pub open spec fn opcode(r: Request) -> i32 {
    match r {
        Request::Create { .. } => 15,
        Request::Delete { .. } => 2,
        Request::Exists { .. } => 3,
        Request::GetData { .. } => 4,
        Request::SetData { .. } => 5,
        Request::GetChildren { .. } => 12,
        Request::Sync { .. } => 9,
        Request::AddWatch { .. } => 106,
        Request::RemoveWatches { .. } => 18,
        Request::Ping => 11,
        Request::CloseSession => -11i32,
    }
}

/// The code by which a removal names the kind of watch to remove.
pub open spec fn watcher_type(kind: WatchKind) -> i32 {
    match kind {
        WatchKind::Child => 1,
        WatchKind::Data | WatchKind::Exist => 2,
        WatchKind::Persistent => 4,
        WatchKind::PersistentRecursive => 5,
    }
}

/// The byte of a boolean.
pub open spec fn bool_bytes(b: bool) -> Seq<u8> {
    seq![if b { 1u8 } else { 0u8 }]
}

/// The bytes of a length-prefixed byte buffer.
pub open spec fn buffer_bytes(data: Seq<u8>) -> Seq<u8> {
    i32_bytes(data.len() as i32) + data
}

/// The bytes of one access control entry.
pub open spec fn acl_bytes(a: Acl) -> Seq<u8> {
    i32_bytes(a.perms) + ustring_bytes(a.scheme@) + ustring_bytes(a.id@)
}

/// The bytes of the entries `acls`, one after the other.
pub open spec fn acls_bytes(acls: Seq<Acl>) -> Seq<u8>
    decreases acls.len(),
{
    if acls.len() == 0 {
        Seq::empty()
    } else {
        acls_bytes(acls.drop_last()) + acl_bytes(acls.last())
    }
}

/// Every string and buffer of `r` fits its length prefix.
pub open spec fn fits(r: Request) -> bool {
    let path_fits = |p: String| encode_utf8(p@).len() < 0x80000000;
    match r {
        Request::Create { path, data, acls, flags } => {
            &&& path_fits(path)
            &&& data@.len() < 0x80000000
            &&& acls@.len() < 0x80000000
            &&& forall|i: int|
                0 <= i < acls@.len() ==> path_fits(#[trigger] acls@[i].scheme) && path_fits(
                    acls@[i].id,
                )
        },
        Request::SetData { path, data, version } => path_fits(path) && data@.len() < 0x80000000,
        Request::Delete { path, .. } => path_fits(path),
        Request::Exists { path, .. } => path_fits(path),
        Request::GetData { path, .. } => path_fits(path),
        Request::GetChildren { path, .. } => path_fits(path),
        Request::Sync { path } => path_fits(path),
        Request::AddWatch { path, .. } => path_fits(path),
        Request::RemoveWatches { path, .. } => path_fits(path),
        Request::Ping | Request::CloseSession => true,
    }
}

/// The bytes of `r` after its header.
pub open spec fn body_bytes(r: Request) -> Seq<u8> {
    match r {
        Request::Create { path, data, acls, flags } => ustring_bytes(path@) + buffer_bytes(data@)
            + i32_bytes(acls@.len() as i32) + acls_bytes(acls@) + i32_bytes(flags),
        Request::Delete { path, version } => ustring_bytes(path@) + i32_bytes(version),
        Request::Exists { path, watch } => ustring_bytes(path@) + bool_bytes(watch),
        Request::GetData { path, watch } => ustring_bytes(path@) + bool_bytes(watch),
        Request::SetData { path, data, version } => ustring_bytes(path@) + buffer_bytes(data@)
            + i32_bytes(version),
        Request::GetChildren { path, watch } => ustring_bytes(path@) + bool_bytes(watch),
        Request::Sync { path } => ustring_bytes(path@),
        Request::AddWatch { path, recursive } => ustring_bytes(path@) + i32_bytes(
            if recursive {
                1
            } else {
                0
            },
        ),
        Request::RemoveWatches { path, kind } => ustring_bytes(path@) + i32_bytes(
            watcher_type(kind),
        ),
        Request::Ping | Request::CloseSession => Seq::empty(),
    }
}

/// Appends a path with a trailing flag byte.
fn put_path_flag(buf: &mut Vec<u8>, path: &String, flag: bool) -> (r: Result<(), Error>)
    ensures
        r is Ok <==> encode_utf8(path@).len() < 0x80000000,
        r is Ok ==> final(buf)@ == old(buf)@ + ustring_bytes(path@) + bool_bytes(flag),
        r is Err ==> r == Err::<(), Error>(Error::BadArguments),
{
    match put_ustring(buf, path.as_str()) {
        Ok(()) => {},
        Err(e) => return Err(e),
    }
    buf.push(if flag { 1u8 } else { 0u8 });
    Ok(())
}

/// Appends a path followed by a 32-bit number.
fn put_path_int(buf: &mut Vec<u8>, path: &String, v: i32) -> (r: Result<(), Error>)
    ensures
        r is Ok <==> encode_utf8(path@).len() < 0x80000000,
        r is Ok ==> final(buf)@ == old(buf)@ + ustring_bytes(path@) + i32_bytes(v),
        r is Err ==> r == Err::<(), Error>(Error::BadArguments),
{
    match put_ustring(buf, path.as_str()) {
        Ok(()) => {},
        Err(e) => return Err(e),
    }
    put_i32(buf, v);
    Ok(())
}

/// Appends the access control entries `acls`, preceded by their number.
fn put_acls(buf: &mut Vec<u8>, acls: &Vec<Acl>) -> (r: Result<(), Error>)
    ensures
        r is Ok <==> (acls@.len() < 0x80000000 && forall|i: int|
            0 <= i < acls@.len() ==> encode_utf8((#[trigger] acls@[i]).scheme@).len() < 0x80000000
                && encode_utf8(acls@[i].id@).len() < 0x80000000),
        r is Ok ==> final(buf)@ == old(buf)@ + i32_bytes(acls@.len() as i32) + acls_bytes(acls@),
        r is Err ==> r == Err::<(), Error>(Error::BadArguments),
{
    if acls.len() >= 0x80000000 {
        return Err(Error::BadArguments);
    }
    put_i32(buf, acls.len() as i32);
    let ghost start = buf@;
    let mut k: usize = 0;
    proof {
        assert(acls@.subrange(0, 0) =~= Seq::<Acl>::empty());
        assert(buf@ =~= start + acls_bytes(acls@.subrange(0, 0)));
    }
    while k < acls.len()
        invariant
            k <= acls@.len(),
            acls@.len() < 0x80000000,
            start == old(buf)@ + i32_bytes(acls@.len() as i32),
            buf@ == start + acls_bytes(acls@.subrange(0, k as int)),
            forall|i: int|
                0 <= i < k ==> encode_utf8((#[trigger] acls@[i]).scheme@).len() < 0x80000000
                    && encode_utf8(acls@[i].id@).len() < 0x80000000,
        decreases acls@.len() - k,
    {
        let a = &acls[k];
        put_i32(buf, a.perms);
        match put_ustring(buf, a.scheme.as_str()) {
            Ok(()) => {},
            Err(e) => return Err(e),
        }
        match put_ustring(buf, a.id.as_str()) {
            Ok(()) => {},
            Err(e) => return Err(e),
        }
        proof {
            assert(acls@.subrange(0, k + 1).drop_last() =~= acls@.subrange(0, k as int));
            assert(buf@ =~= start + acls_bytes(acls@.subrange(0, k + 1)));
        }
        k = k + 1;
    }
    assert(acls@.subrange(0, acls@.len() as int) =~= acls@);
    Ok(())
}

impl Request {
    /// The opcode of this request on the wire.
    pub fn opcode(&self) -> (r: i32)
        ensures
            r == opcode(*self),
    {
        match self {
            Request::Create { .. } => 15,
            Request::Delete { .. } => 2,
            Request::Exists { .. } => 3,
            Request::GetData { .. } => 4,
            Request::SetData { .. } => 5,
            Request::GetChildren { .. } => 12,
            Request::Sync { .. } => 9,
            Request::AddWatch { .. } => 106,
            Request::RemoveWatches { .. } => 18,
            Request::Ping => 11,
            Request::CloseSession => -11,
        }
    }

    /// Serializes this request with transaction id `xid`: the header, then the body.
    pub fn encode(&self, xid: i32) -> (r: Result<Vec<u8>, Error>)
        ensures
            r is Ok <==> fits(*self),
            r matches Ok(b) ==> b@ == i32_bytes(xid) + i32_bytes(opcode(*self)) + body_bytes(
                *self,
            ),
            r is Err ==> r == Err::<Vec<u8>, Error>(Error::BadArguments),
    {
        let mut out: Vec<u8> = Vec::new();
        put_i32(&mut out, xid);
        put_i32(&mut out, self.opcode());
        let ghost head = out@;
        let done = match self {
            Request::Create { path, data, acls, flags } => {
                match put_ustring(&mut out, path.as_str()) {
                    Ok(()) => {},
                    Err(e) => return Err(e),
                }
                match put_buffer(&mut out, data.as_slice()) {
                    Ok(()) => {},
                    Err(e) => return Err(e),
                }
                match put_acls(&mut out, acls) {
                    Ok(()) => {},
                    Err(e) => return Err(e),
                }
                put_i32(&mut out, *flags);
                Ok(())
            },
            Request::Delete { path, version } => put_path_int(&mut out, path, *version),
            Request::Exists { path, watch } => put_path_flag(&mut out, path, *watch),
            Request::GetData { path, watch } => put_path_flag(&mut out, path, *watch),
            Request::SetData { path, data, version } => {
                match put_ustring(&mut out, path.as_str()) {
                    Ok(()) => {},
                    Err(e) => return Err(e),
                }
                match put_buffer(&mut out, data.as_slice()) {
                    Ok(()) => {},
                    Err(e) => return Err(e),
                }
                put_i32(&mut out, *version);
                Ok(())
            },
            Request::GetChildren { path, watch } => put_path_flag(&mut out, path, *watch),
            Request::Sync { path } => put_ustring(&mut out, path.as_str()),
            Request::AddWatch { path, recursive } => {
                let mode: i32 = if *recursive {
                    1
                } else {
                    0
                };
                put_path_int(&mut out, path, mode)
            },
            Request::RemoveWatches { path, kind } => {
                let t: i32 = match kind {
                    WatchKind::Child => 1,
                    WatchKind::Data | WatchKind::Exist => 2,
                    WatchKind::Persistent => 4,
                    WatchKind::PersistentRecursive => 5,
                };
                put_path_int(&mut out, path, t)
            },
            Request::Ping | Request::CloseSession => Ok(()),
        };
        match done {
            Ok(()) => {
                assert(out@ =~= i32_bytes(xid) + i32_bytes(opcode(*self)) + body_bytes(*self));
                Ok(out)
            },
            Err(e) => Err(e),
        }
    }
}

} // verus!
