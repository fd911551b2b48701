use vstd::prelude::*;

use crate::error::Error;

verus! {

/// A well-formed absolute node path: it starts with `/`, has no empty
/// segment, no NUL character and no trailing `/` unless it is the root.
pub open spec fn valid_path(p: Seq<char>) -> bool {
    &&& p.len() >= 1
    &&& p[0] == '/'
    &&& forall|i: int| 0 <= i < p.len() ==> #[trigger] p[i] != '\u{0}'
    &&& forall|i: int| 0 <= i < p.len() - 1 && #[trigger] p[i] == '/' ==> p[i + 1] != '/'
    &&& p.len() > 1 ==> p[p.len() - 1] != '/'
}

/// Checks that `path` is a well-formed absolute node path.
pub fn validate_path(path: &str) -> (r: Result<(), Error>)
    ensures
        r is Ok <==> valid_path(path@),
        r is Err ==> r == Err::<(), Error>(Error::BadArguments),
{
    let n = path.unicode_len();
    if n == 0 || path.get_char(0) != '/' {
        return Err(Error::BadArguments);
    }
    let mut i: usize = 0;
    while i < n
        invariant
            n == path@.len(),
            path@[0] == '/',
            i <= n,
            forall|j: int| 0 <= j < i ==> #[trigger] path@[j] != '\u{0}',
            forall|j: int| 0 <= j < i && j < n - 1 && #[trigger] path@[j] == '/' ==> path@[j + 1] != '/',
        decreases n - i,
    {
        let c = path.get_char(i);
        if c == '\u{0}' {
            return Err(Error::BadArguments);
        }
        if c == '/' && i + 1 < n && path.get_char(i + 1) == '/' {
            return Err(Error::BadArguments);
        }
        i = i + 1;
    }
    if n > 1 && path.get_char(n - 1) == '/' {
        return Err(Error::BadArguments);
    }
    Ok(())
}

/// `path` as the server sees it, for a client rooted at `root`.
pub open spec fn joined(root: Seq<char>, path: Seq<char>) -> Seq<char> {
    if root == seq!['/'] {
        path
    } else if path == seq!['/'] {
        root
    } else {
        root + path
    }
}

/// `path` lies at or under `root`.
pub open spec fn within(root: Seq<char>, path: Seq<char>) -> bool {
    ||| root == seq!['/']
    ||| path == root
    ||| (root.len() < path.len() && path.subrange(0, root.len() as int) == root && path[root.len() as int] == '/')
}

/// The path that a client rooted at `root` sees for the server path `path`:
/// the root prefix removed, or `path` unchanged when it lies outside the root.
pub open spec fn stripped(root: Seq<char>, path: Seq<char>) -> Seq<char> {
    if root == seq!['/'] {
        path
    } else if path == root {
        seq!['/']
    } else if within(root, path) {
        path.subrange(root.len() as int, path.len() as int)
    } else {
        path
    }
}

/// Whether `s` starts with `prefix`.
fn has_prefix(s: &str, prefix: &str) -> (r: bool)
    ensures
        r == (prefix@.len() <= s@.len() && s@.subrange(0, prefix@.len() as int) == prefix@),
{
    let n = prefix.unicode_len();
    let m = s.unicode_len();
    if n > m {
        return false;
    }
    let mut i: usize = 0;
    while i < n
        invariant
            n == prefix@.len(),
            m == s@.len(),
            n <= m,
            i <= n,
            forall|j: int| 0 <= j < i ==> s@[j] == prefix@[j],
        decreases n - i,
    {
        if s.get_char(i) != prefix.get_char(i) {
            assert(s@.subrange(0, n as int)[i as int] != prefix@[i as int]);
            return false;
        }
        i = i + 1;
    }
    assert(s@.subrange(0, n as int) =~= prefix@);
    true
}

/// Whether `s` is the root path `/`.
fn is_root(s: &str) -> (r: bool)
    ensures
        r == (s@ == seq!['/']),
{
    let n = s.unicode_len();
    if n != 1 {
        return false;
    }
    let c = s.get_char(0);
    if c == '/' {
        assert(s@ =~= seq!['/']);
    }
    c == '/'
}

/// A fresh `String` holding `/`.
fn root_string() -> (r: String)
    ensures
        r@ == seq!['/'],
{
    proof {
        reveal_strlit("/");
    }
    String::from_str("/")
}

/// Whether `path` lies at or under `root`.
pub fn is_within(root: &str, path: &str) -> (r: bool)
    ensures
        r == within(root@, path@),
{
    if is_root(root) {
        return true;
    }
    let n = root.unicode_len();
    let m = path.unicode_len();
    if !has_prefix(path, root) {
        assert(path@ != root@) by {
            if path@ == root@ {
                assert(path@.subrange(0, n as int) =~= path@);
            }
        }
        return false;
    }
    if n == m {
        assert(path@ =~= root@);
        return true;
    }
    path.get_char(n) == '/'
}

/// Prefixes `path` with `root`.
pub fn join_path(root: &str, path: &str) -> (r: String)
    ensures
        r@ == joined(root@, path@),
{
    if is_root(root) {
        String::from_str(path)
    } else if is_root(path) {
        String::from_str(root)
    } else {
        String::from_str(root).concat(path)
    }
}

/// Removes the prefix `root` from `path`; a path outside `root` is left as it is.
pub fn strip_path(root: &str, path: &str) -> (r: String)
    ensures
        r@ == stripped(root@, path@),
{
    if is_root(root) || !is_within(root, path) {
        return String::from_str(path);
    }
    let n = root.unicode_len();
    let m = path.unicode_len();
    if n == m {
        return root_string();
    }
    String::from_str(path.substring_char(n, m))
}

/// A validated absolute root path that a client sees as `/`.
#[derive(Debug)]
pub struct OwnedChroot {
    root: String,
}

impl OwnedChroot {
    #[verifier::type_invariant]
    spec fn inv(&self) -> bool {
        valid_path(self.root@)
    }

    /// The root path.
    pub closed spec fn view(&self) -> Seq<char> {
        self.root@
    }

    /// The chroot that leaves paths as they are.
    pub fn top() -> (r: OwnedChroot)
        ensures
            r.view() == seq!['/'],
    {
        OwnedChroot { root: root_string() }
    }

    /// Builds a chroot at `root`, which must be a valid path.
    pub fn new(root: &str) -> (r: Result<OwnedChroot, Error>)
        ensures
            r is Ok <==> valid_path(root@),
            r matches Ok(c) ==> c.view() == root@,
            r is Err ==> r == Err::<OwnedChroot, Error>(Error::BadArguments),
    {
        match validate_path(root) {
            Ok(()) => Ok(OwnedChroot { root: String::from_str(root) }),
            Err(e) => Err(e),
        }
    }

    /// The root path.
    pub fn root(&self) -> (r: &str)
        ensures
            r@ == self.view(),
            valid_path(r@),
    {
        proof {
            use_type_invariant(self);
        }
        self.root.as_str()
    }

    /// A copy of this chroot.
    pub fn duplicate(&self) -> (r: OwnedChroot)
        ensures
            r.view() == self.view(),
    {
        proof {
            use_type_invariant(self);
        }
        OwnedChroot { root: self.root.clone() }
    }

    /// Translates the client path `path` to the server path.
    pub fn translate(&self, path: &str) -> (r: Result<String, Error>)
        ensures
            r is Ok <==> valid_path(path@),
            r matches Ok(p) ==> p@ == joined(self.view(), path@) && valid_path(p@),
            r is Err ==> r == Err::<String, Error>(Error::BadArguments),
    {
        proof {
            use_type_invariant(self);
        }
        match validate_path(path) {
            Ok(()) => {
                proof {
                    lemma_joined_valid(self.root@, path@);
                }
                Ok(join_path(self.root.as_str(), path))
            },
            Err(e) => Err(e),
        }
    }

    /// The path that this client sees for the server path `path`.
    pub fn strip(&self, path: &str) -> (r: String)
        ensures
            r@ == stripped(self.view(), path@),
    {
        strip_path(self.root.as_str(), path)
    }

    /// The chroot at `sub` under this one.
    pub fn chroot(&self, sub: &str) -> (r: Result<OwnedChroot, Error>)
        ensures
            r is Ok <==> valid_path(sub@),
            r matches Ok(c) ==> c.view() == joined(self.view(), sub@),
            r is Err ==> r == Err::<OwnedChroot, Error>(Error::BadArguments),
    {
        match self.translate(sub) {
            Ok(root) => Ok(OwnedChroot { root }),
            Err(e) => Err(e),
        }
    }
}

/// Joining two valid paths gives a valid path.
pub proof fn lemma_joined_valid(root: Seq<char>, path: Seq<char>)
    requires
        valid_path(root),
        valid_path(path),
    ensures
        valid_path(joined(root, path)),
{
    if root != seq!['/'] && path != seq!['/'] {
        let j = root + path;
        let n = root.len() as int;
        assert(root.len() > 1) by {
            if root.len() == 1 {
                assert(root =~= seq!['/']);
            }
        }
        assert(path.len() > 1) by {
            if path.len() == 1 {
                assert(path =~= seq!['/']);
            }
        }
        assert forall|i: int| 0 <= i < j.len() implies #[trigger] j[i] != '\u{0}' by {
            if i < n {
                assert(j[i] == root[i]);
            } else {
                assert(j[i] == path[i - n]);
            }
        }
        assert forall|i: int| 0 <= i < j.len() - 1 && #[trigger] j[i] == '/' implies j[i + 1] != '/' by {
            if i < n - 1 {
                assert(root[i] == '/');
            } else if i == n - 1 {
                assert(root[n - 1] != '/');
            } else {
                assert(path[i - n] == '/');
                assert(j[i + 1] == path[i + 1 - n]);
            }
        }
        assert(j[j.len() - 1] == path[path.len() - 1]);
    }
}

/// Translating a valid client path to the server and stripping it again
/// gives back the client path.
pub proof fn lemma_chroot_round_trip(root: Seq<char>, path: Seq<char>)
    requires
        valid_path(root),
        valid_path(path),
    ensures
        stripped(root, joined(root, path)) == path,
{
    if root != seq!['/'] {
        if path == seq!['/'] {
        } else {
            let j = root + path;
            assert(j.subrange(0, root.len() as int) =~= root);
            assert(j[root.len() as int] == path[0]);
            assert(j.subrange(root.len() as int, j.len() as int) =~= path);
            assert(j != root) by {
                assert(j.len() > root.len());
            }
        }
    }
}

/// A server path at or under the root is delivered with the root prefix
/// removed: putting the prefix back gives the server path again.
pub proof fn lemma_strip_removes_root(root: Seq<char>, path: Seq<char>)
    requires
        valid_path(root),
        valid_path(path),
        within(root, path),
    ensures
        joined(root, stripped(root, path)) == path,
        root != seq!['/'] && path != root ==> root + stripped(root, path) == path,
        valid_path(stripped(root, path)),
{
    if root != seq!['/'] && path != root {
        let n = root.len() as int;
        let s = path.subrange(n, path.len() as int);
        assert(root + s =~= path);
        assert(s != seq!['/']) by {
            if s == seq!['/'] {
                assert(path[path.len() - 1] == s[0]);
            }
        }
        assert forall|i: int| 0 <= i < s.len() - 1 && #[trigger] s[i] == '/' implies s[i + 1] != '/' by {
            assert(path[i + n] == s[i]);
            assert(path[i + n + 1] == s[i + 1]);
        }
        assert forall|i: int| 0 <= i < s.len() implies #[trigger] s[i] != '\u{0}' by {
            assert(path[i + n] == s[i]);
        }
    } else if root != seq!['/'] {
        assert(seq!['/'] =~= seq!['/']);
    }
}

} // verus!
