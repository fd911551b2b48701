use vstd::prelude::*;

use crate::chroot::{is_within, within};
use crate::codec::{i32_bytes, i64_bytes, put_i32, put_i64, put_strings, string_vector_bytes, strings_fit};
use crate::error::Error;
use crate::pipeline::SET_WATCHES_XID;
use crate::session::{EventType, SessionState, WatchedEvent};

verus! {

broadcast use vstd::seq_lib::group_seq_properties, vstd::seq_lib::group_filter_ensures;

/// Kinds of watches.
#[derive(Clone, Copy, Debug, PartialEq, Eq, Structural)]
pub enum WatchKind {
    Data,
    Exist,
    Child,
    Persistent,
    PersistentRecursive,
}

impl WatchKind {
    /// A one-shot watch fires once and is gone.
    pub open spec fn one_shot(self) -> bool {
        self is Data || self is Exist || self is Child
    }

    /// Whether watches of this kind fire once only.
    pub fn is_oneshot(&self) -> (r: bool)
        ensures
            r == self.one_shot(),
    {
        match self {
            WatchKind::Data | WatchKind::Exist | WatchKind::Child => true,
            _ => false,
        }
    }
}

/// Whether a node event of type `ev` at `epath` reaches a watch of `kind` at `wpath`.
pub open spec fn triggers(kind: WatchKind, wpath: Seq<char>, ev: EventType, epath: Seq<char>) -> bool {
    match kind {
        WatchKind::Data | WatchKind::Exist => epath == wpath && (ev is NodeCreated
            || ev is NodeDataChanged || ev is NodeDeleted),
        WatchKind::Child => epath == wpath && (ev is NodeChildrenChanged || ev is NodeDeleted),
        WatchKind::Persistent => epath == wpath && (ev is NodeCreated || ev is NodeDataChanged
            || ev is NodeDeleted || ev is NodeChildrenChanged || ev is PersistentWatchRemoved),
        WatchKind::PersistentRecursive => (within(wpath, epath) && (ev is NodeCreated
            || ev is NodeDataChanged || ev is NodeDeleted)) || (epath == wpath
            && ev is PersistentWatchRemoved),
    }
}

/// A watch descriptor: pending until the server confirms it, then installed.
#[derive(Debug)]
pub struct Watch {
    pub id: u64,
    pub kind: WatchKind,
    pub path: String,
    pub installed: bool,
}

/// An installed watch that the event `(ev, epath)` reaches.
pub open spec fn hit(w: Watch, ev: EventType, epath: Seq<char>) -> bool {
    w.installed && triggers(w.kind, w.path@, ev, epath)
}

/// A watch that stays registered after the event `(ev, epath)`.
pub open spec fn stays(w: Watch, ev: EventType, epath: Seq<char>) -> bool {
    !(hit(w, ev, epath) && (w.kind.one_shot() || ev is PersistentWatchRemoved))
}

/// The watches of `ws` that the event `(ev, epath)` reaches, in order.
pub open spec fn reached(ws: Seq<Watch>, ev: EventType, epath: Seq<char>) -> Seq<Watch> {
    ws.filter(|w: Watch| hit(w, ev, epath))
}

/// The watches of `ws` that stay registered after the event `(ev, epath)`.
pub open spec fn after_event(ws: Seq<Watch>, ev: EventType, epath: Seq<char>) -> Seq<Watch> {
    ws.filter(|w: Watch| stays(w, ev, epath))
}

/// The ids of the watches `ws`, in order.
pub open spec fn ids(ws: Seq<Watch>) -> Seq<u64> {
    ws.map_values(|w: Watch| w.id)
}

/// A sweep over the registry: which watches an occurrence reaches, and which stay.
enum Sweep {
    /// A node event.
    Node(EventType),
    /// A session event: persistent watches learn of every state, one-shot
    /// watches only of a terminal one, which ends every watch.
    Session(SessionState),
    /// The explicit removal of one watch.
    Drop(u64),
}

/// Whether the sweep `s`, with event path `epath`, delivers to `w`.
spec fn swept_hit(s: Sweep, epath: Seq<char>, w: Watch) -> bool {
    match s {
        Sweep::Node(ev) => hit(w, ev, epath),
        Sweep::Session(state) => reaches_on_session(w, state),
        Sweep::Drop(_) => false,
    }
}

/// Whether `w` stays registered after the sweep `s`.
spec fn swept_stays(s: Sweep, epath: Seq<char>, w: Watch) -> bool {
    match s {
        Sweep::Node(ev) => stays(w, ev, epath),
        Sweep::Session(state) => stays_on_session(w, state),
        Sweep::Drop(id) => w.id != id,
    }
}

/// The connection is gone in `state`, for the time being or for good.
pub open spec fn broken(state: SessionState) -> bool {
    state is Disconnected || state.terminal()
}

/// Whether a session event of `state` reaches `w`: every installed
/// persistent watch learns of each state; a one-shot watch only of the end
/// of the session, which is its last event.
pub open spec fn reaches_on_session(w: Watch, state: SessionState) -> bool {
    w.installed && (!w.kind.one_shot() || state.terminal())
}

/// Whether `w` stays registered after a session event of `state`: every
/// watch does, unless the session has ended.
pub open spec fn stays_on_session(w: Watch, state: SessionState) -> bool {
    !state.terminal()
}

/// The watch `w`, installed if its id is `id`.
pub open spec fn installed_if(w: Watch, id: u64) -> Watch {
    if w.id == id {
        Watch { id: w.id, kind: w.kind, path: w.path, installed: true }
    } else {
        w
    }
}

/// What removing a watch leaves to do.
#[derive(Debug)]
pub enum Removal {
    /// No watch had that id.
    Unknown,
    /// Other watches of the same kind and path remain: the server keeps its watch.
    Shared,
    /// That was the last watch of its kind on its path: the server's watch is to be removed.
    Last { kind: WatchKind, path: String },
}

/// The paths of the watches `ws`, in order.
pub open spec fn paths(ws: Seq<Watch>) -> Seq<Seq<char>> {
    ws.map_values(|w: Watch| w.path@)
}

/// The opcode of a watch re-registration that includes persistent watches.
pub const SET_WATCHES2_OPCODE: i32 = 105;

/// The installed watches of `ws` of `kind`, in order.
pub open spec fn installed_of(ws: Seq<Watch>, kind: WatchKind) -> Seq<Watch> {
    ws.filter(|w: Watch| w.installed && w.kind == kind)
}

/// The paths of every kind of installed watch fit the wire format.
pub open spec fn rebind_fits(ws: Seq<Watch>) -> bool {
    &&& strings_fit(paths(installed_of(ws, WatchKind::Data)))
    &&& strings_fit(paths(installed_of(ws, WatchKind::Exist)))
    &&& strings_fit(paths(installed_of(ws, WatchKind::Child)))
    &&& strings_fit(paths(installed_of(ws, WatchKind::Persistent)))
    &&& strings_fit(paths(installed_of(ws, WatchKind::PersistentRecursive)))
}

/// The bytes of the request that re-registers the installed watches of `ws`
/// after a reconnect: header, last transaction id seen, then the paths of
/// each kind of watch.
pub open spec fn rebind_bytes(ws: Seq<Watch>, last_zxid: i64) -> Seq<u8> {
    i32_bytes(SET_WATCHES_XID) + i32_bytes(SET_WATCHES2_OPCODE) + i64_bytes(last_zxid)
        + string_vector_bytes(paths(installed_of(ws, WatchKind::Data))) + string_vector_bytes(
        paths(installed_of(ws, WatchKind::Exist)),
    ) + string_vector_bytes(paths(installed_of(ws, WatchKind::Child))) + string_vector_bytes(
        paths(installed_of(ws, WatchKind::Persistent)),
    ) + string_vector_bytes(paths(installed_of(ws, WatchKind::PersistentRecursive)))
}

/// How handing an event to a persistent watcher's bounded queue went.
#[derive(Clone, Copy, Debug, PartialEq, Eq, Structural)]
pub enum QueueSend {
    Sent,
    /// The queue is full: its subscriber does not keep up.
    Full,
    /// The subscriber is gone.
    Closed,
}

/// What the session task does after handing an event to a persistent watcher.
#[derive(Clone, Copy, Debug, PartialEq, Eq, Structural)]
pub enum QueueVerdict {
    /// Carry on.
    Keep,
    /// Forget the watcher, whose subscriber is gone.
    Forget,
    /// End the session: events are never dropped silently.
    EndSession { error: Error },
}

/// Decides what follows an attempt to queue an event for a persistent
/// watcher: a full queue ends the session with an internal error, a closed
/// one lets the watcher go.
pub fn queue_verdict(outcome: QueueSend) -> (r: QueueVerdict)
    ensures
        outcome is Sent ==> r == QueueVerdict::Keep,
        outcome is Closed ==> r == QueueVerdict::Forget,
        outcome is Full ==> r == (QueueVerdict::EndSession { error: Error::ClientInternalError }),
{
    match outcome {
        QueueSend::Sent => QueueVerdict::Keep,
        QueueSend::Full => QueueVerdict::EndSession { error: Error::ClientInternalError },
        QueueSend::Closed => QueueVerdict::Forget,
    }
}

/// All watches of the client session, keyed by a unique id.
pub struct WatchRegistry {
    watches: Vec<Watch>,
    next_id: u64,
}

impl WatchRegistry {
    /// Ids are distinct and below the next one to be handed out.
    pub closed spec fn wf(&self) -> bool {
        &&& forall|i: int, j: int|
            0 <= i < j < self.watches@.len() ==> #[trigger] self.watches@[i].id
                != #[trigger] self.watches@[j].id
        &&& forall|i: int| 0 <= i < self.watches@.len() ==> #[trigger] self.watches@[i].id < self.next_id
    }

    /// The registered watches, in order of registration.
    pub closed spec fn view(&self) -> Seq<Watch> {
        self.watches@
    }

    /// Whether all ids are taken.
    pub closed spec fn exhausted(&self) -> bool {
        self.next_id == u64::MAX
    }

    /// An empty registry.
    pub fn new() -> (r: WatchRegistry)
        ensures
            r.wf(),
            r@ == Seq::<Watch>::empty(),
            !r.exhausted(),
    {
        WatchRegistry { watches: Vec::new(), next_id: 1 }
    }

    /// Registers a pending watch of `kind` on the server path `path`.
    pub fn add(&mut self, kind: WatchKind, path: &str) -> (r: Result<u64, Error>)
        requires
            old(self).wf(),
        ensures
            final(self).wf(),
            r is Ok <==> !old(self).exhausted(),
            r matches Ok(id) ==> {
                &&& !ids(old(self)@).contains(id)
                &&& final(self)@.len() == old(self)@.len() + 1
                &&& final(self)@.drop_last() == old(self)@
                &&& final(self)@.last().id == id
                &&& final(self)@.last().kind == kind
                &&& final(self)@.last().path@ == path@
                &&& !final(self)@.last().installed
            },
            r is Err ==> final(self)@ == old(self)@ && r == Err::<u64, Error>(
                Error::ClientInternalError,
            ),
    {
        if self.next_id == u64::MAX {
            return Err(Error::ClientInternalError);
        }
        let id = self.next_id;
        assert(!ids(self.watches@).contains(id)) by {
            if ids(self.watches@).contains(id) {
                let k = choose|k: int| 0 <= k < ids(self.watches@).len() && ids(self.watches@)[k] == id;
                assert(self.watches@[k].id < self.next_id);
            }
        }
        self.watches.push(Watch { id, kind, path: String::from_str(path), installed: false });
        self.next_id = id + 1;
        assert(self.watches@.drop_last() =~= old(self)@);
        Ok(id)
    }

    /// Delivers the node event `event`: returns the ids of all installed
    /// watches that it reaches, in order, and unregisters those of them that
    /// fire once (all of them, for a removal of a persistent watch).
    pub fn dispatch(&mut self, event: &WatchedEvent) -> (r: Vec<u64>)
        requires
            old(self).wf(),
        ensures
            final(self).wf(),
            !final(self).exhausted() <==> !old(self).exhausted(),
            r@ == ids(reached(old(self)@, event.event_type, event.path@)),
            final(self)@ == after_event(old(self)@, event.event_type, event.path@),
    {
        let s = Sweep::Node(event.event_type);
        let r = self.sweep(&s, &event.path);
        proof {
            let ev = event.event_type;
            let ep = event.path@;
            assert((|w: Watch| swept_hit(s, ep, w)) =~= (|w: Watch| hit(w, ev, ep)));
            assert((|w: Watch| swept_stays(s, ep, w)) =~= (|w: Watch| stays(w, ev, ep)));
        }
        r
    }

    /// Delivers a session event of state `state`: returns the ids of the
    /// installed watches it reaches, in order: the persistent ones, and with
    /// a terminal state the one-shot ones too. A terminal state unregisters
    /// every watch; any other leaves them all, to be registered again with
    /// the server on reconnect.
    pub fn broadcast(&mut self, state: SessionState) -> (r: Vec<u64>)
        requires
            old(self).wf(),
        ensures
            final(self).wf(),
            !final(self).exhausted() <==> !old(self).exhausted(),
            r@ == ids(old(self)@.filter(|w: Watch| reaches_on_session(w, state))),
            final(self)@ == old(self)@.filter(|w: Watch| stays_on_session(w, state)),
    {
        let s = Sweep::Session(state);
        let empty = String::new();
        let r = self.sweep(&s, &empty);
        proof {
            let ep = empty@;
            assert((|w: Watch| swept_hit(s, ep, w)) =~= (|w: Watch| reaches_on_session(w, state)));
            assert((|w: Watch| swept_stays(s, ep, w)) =~= (|w: Watch| stays_on_session(w, state)));
        }
        r
    }

    /// Unregisters the watch `id`, as when its request failed.
    pub fn discard(&mut self, id: u64)
        requires
            old(self).wf(),
        ensures
            final(self).wf(),
            !final(self).exhausted() <==> !old(self).exhausted(),
            final(self)@ == old(self)@.filter(|w: Watch| w.id != id),
    {
        let s = Sweep::Drop(id);
        let empty = String::new();
        let _ = self.sweep(&s, &empty);
        proof {
            let ep = empty@;
            assert((|w: Watch| swept_stays(s, ep, w)) =~= (|w: Watch| w.id != id));
        }
    }

    /// The position of the watch `id`, if it is registered.
    fn position(&self, id: u64) -> (r: Option<usize>)
        requires
            self.wf(),
        ensures
            r is None <==> !ids(self@).contains(id),
            r matches Some(k) ==> k < self@.len() && self@[k as int].id == id,
    {
        let mut k: usize = 0;
        while k < self.watches.len()
            invariant
                k <= self.watches@.len(),
                forall|m: int| 0 <= m < k ==> #[trigger] self.watches@[m].id != id,
            decreases self.watches@.len() - k,
        {
            if self.watches[k].id == id {
                assert(ids(self@)[k as int] == id);
                return Some(k);
            }
            k = k + 1;
        }
        assert(!ids(self@).contains(id)) by {
            if ids(self@).contains(id) {
                let m = choose|m: int| 0 <= m < ids(self@).len() && ids(self@)[m] == id;
                assert(self.watches@[m].id == id);
            }
        }
        None
    }

    /// The number of registered watches.
    pub fn len(&self) -> (r: usize)
        ensures
            r == self@.len(),
    {
        self.watches.len()
    }

    /// Whether the watch `id` is registered.
    pub fn contains(&self, id: u64) -> (r: bool)
        requires
            self.wf(),
        ensures
            r == ids(self@).contains(id),
    {
        self.position(id).is_some()
    }

    /// Marks the watch `id` installed, once the server has confirmed it.
    pub fn install(&mut self, id: u64)
        requires
            old(self).wf(),
        ensures
            final(self).wf(),
            !final(self).exhausted() <==> !old(self).exhausted(),
            final(self)@ == old(self)@.map_values(|w: Watch| installed_if(w, id)),
    {
        match self.position(id) {
            None => {
                assert forall|m: int| 0 <= m < self@.len() implies self@[m].id != id by {
                    assert(ids(self@)[m] == self@[m].id);
                }
                assert(self@ =~= old(self)@.map_values(|w: Watch| installed_if(w, id)));
            },
            Some(k) => {
                let ghost before = self.watches@;
                let mut w = self.watches.remove(k);
                w.installed = true;
                self.watches.insert(k, w);
                assert(self.watches@ =~= before.map_values(|w: Watch| installed_if(w, id))) by {
                    assert forall|m: int| 0 <= m < before.len() implies #[trigger] self.watches@[m]
                        == installed_if(before[m], id) by {
                        if m != k {
                            assert(before[m].id != before[k as int].id);
                        }
                    }
                }
            },
        }
    }

    /// Unregisters the watch `id`, on its subscriber's request, and tells
    /// whether the server's watch is to be removed too.
    pub fn remove(&mut self, id: u64) -> (r: Removal)
        requires
            old(self).wf(),
        ensures
            final(self).wf(),
            !final(self).exhausted() <==> !old(self).exhausted(),
            final(self)@ == old(self)@.filter(|w: Watch| w.id != id),
            r is Unknown <==> !ids(old(self)@).contains(id),
            forall|k: int|
                0 <= k < old(self)@.len() && old(self)@[k].id == id ==> {
                    &&& (r is Shared <==> exists|m: int|
                        0 <= m < final(self)@.len() && #[trigger] final(self)@[m].kind
                            == old(self)@[k].kind && final(self)@[m].path@ == old(self)@[k].path@)
                    &&& (r matches Removal::Last { kind, path } ==> kind == old(self)@[k].kind
                        && path@ == old(self)@[k].path@)
                },
    {
        let pos = self.position(id);
        match pos {
            None => {
                assert forall|q: int| 0 <= q < old(self)@.len() implies old(self)@[q].id != id by {
                    assert(ids(old(self)@)[q] == old(self)@[q].id);
                }
                self.discard(id);
                Removal::Unknown
            },
            Some(k) => {
                let kind = self.watches[k].kind;
                let path = self.watches[k].path.clone();
                assert(forall|q: int|
                    0 <= q < old(self)@.len() && old(self)@[q].id == id ==> q == k);
                self.discard(id);
                let mut m: usize = 0;
                while m < self.watches.len()
                    invariant
                        self.wf(),
                        !self.exhausted() <==> !old(self).exhausted(),
                        self@ == old(self)@.filter(|w: Watch| w.id != id),
                        old(self)@[k as int].kind == kind,
                        old(self)@[k as int].path@ == path@,
                        k < old(self)@.len(),
                        ids(old(self)@).contains(id),
                        forall|q: int|
                            0 <= q < old(self)@.len() && old(self)@[q].id == id ==> q == k,
                        m <= self.watches@.len(),
                        forall|q: int|
                            0 <= q < m ==> !(#[trigger] self.watches@[q].kind == kind
                                && self.watches@[q].path@ == path@),
                    decreases self.watches@.len() - m,
                {
                    if self.watches[m].kind == kind && self.watches[m].path == path {
                        return Removal::Shared;
                    }
                    m = m + 1;
                }
                Removal::Last { kind, path }
            },
        }
    }

    /// The server paths of the installed watches of `kind`, in order, as
    /// re-registered with the server when the session reconnects.
    pub fn installed_paths(&self, kind: WatchKind) -> (r: Vec<String>)
        ensures
            r@.map_values(|p: String| p@) == paths(
                self@.filter(|w: Watch| w.installed && w.kind == kind),
            ),
    {
        let ghost f = |w: Watch| w.installed && w.kind == kind;
        let mut out: Vec<String> = Vec::new();
        let mut k: usize = 0;
        proof {
            reveal(Seq::filter);
            assert(self@.subrange(0, 0).filter(f) =~= Seq::<Watch>::empty());
            assert(out@.map_values(|p: String| p@) =~= paths(Seq::<Watch>::empty()));
        }
        while k < self.watches.len()
            invariant
                k <= self@.len(),
                f == (|w: Watch| w.installed && w.kind == kind),
                out@.map_values(|p: String| p@) == paths(self@.subrange(0, k as int).filter(f)),
            decreases self@.len() - k,
        {
            let w = &self.watches[k];
            let ghost pre = self@.subrange(0, k as int);
            proof {
                assert(self@.subrange(0, k + 1) =~= pre.push(self@[k as int]));
                pre.lemma_filter_push(self@[k as int], f);
            }
            if w.installed && w.kind == kind {
                out.push(w.path.clone());
                proof {
                    assert(out@.map_values(|p: String| p@) =~= paths(pre.filter(f)).push(
                        self@[k as int].path@,
                    ));
                    assert(paths(pre.filter(f).push(self@[k as int])) =~= paths(pre.filter(f)).push(
                        self@[k as int].path@,
                    ));
                }
            }
            k = k + 1;
        }
        proof {
            assert(self@.subrange(0, self@.len() as int) =~= self@);
        }
        out
    }

    /// The request that re-registers all installed watches with the server
    /// once the session has reconnected, grouped by kind.
    pub fn rebind_request(&self, last_zxid: i64) -> (r: Result<Vec<u8>, Error>)
        ensures
            r is Ok <==> rebind_fits(self@),
            r matches Ok(b) ==> b@ == rebind_bytes(self@, last_zxid),
            r is Err ==> r == Err::<Vec<u8>, Error>(Error::BadArguments),
    {
        let mut out: Vec<u8> = Vec::new();
        put_i32(&mut out, SET_WATCHES_XID);
        put_i32(&mut out, SET_WATCHES2_OPCODE);
        put_i64(&mut out, last_zxid);
        let data = self.installed_paths(WatchKind::Data);
        if put_strings(&mut out, &data).is_err() {
            return Err(Error::BadArguments);
        }
        let exist = self.installed_paths(WatchKind::Exist);
        if put_strings(&mut out, &exist).is_err() {
            return Err(Error::BadArguments);
        }
        let child = self.installed_paths(WatchKind::Child);
        if put_strings(&mut out, &child).is_err() {
            return Err(Error::BadArguments);
        }
        let persistent = self.installed_paths(WatchKind::Persistent);
        if put_strings(&mut out, &persistent).is_err() {
            return Err(Error::BadArguments);
        }
        let recursive = self.installed_paths(WatchKind::PersistentRecursive);
        if put_strings(&mut out, &recursive).is_err() {
            return Err(Error::BadArguments);
        }
        assert(out@ =~= rebind_bytes(self@, last_zxid));
        Ok(out)
    }

    /// Whether the sweep `s`, with event path `epath`, delivers to `w`.
    fn sweep_hits(s: &Sweep, epath: &String, w: &Watch) -> (r: bool)
        ensures
            r == swept_hit(*s, epath@, *w),
    {
        match s {
            Sweep::Node(ev) => {
                if !w.installed {
                    return false;
                }
                match w.kind {
                    WatchKind::Data | WatchKind::Exist => *epath == w.path && (*ev
                        == EventType::NodeCreated || *ev == EventType::NodeDataChanged || *ev
                        == EventType::NodeDeleted),
                    WatchKind::Child => *epath == w.path && (*ev == EventType::NodeChildrenChanged
                        || *ev == EventType::NodeDeleted),
                    WatchKind::Persistent => *epath == w.path && *ev != EventType::Session,
                    WatchKind::PersistentRecursive => {
                        if *ev == EventType::PersistentWatchRemoved {
                            *epath == w.path
                        } else {
                            (*ev == EventType::NodeCreated || *ev == EventType::NodeDataChanged
                                || *ev == EventType::NodeDeleted) && is_within(
                                w.path.as_str(),
                                epath.as_str(),
                            )
                        }
                    },
                }
            },
            Sweep::Session(state) => w.installed && (!w.kind.is_oneshot() || state.is_terminal()),
            Sweep::Drop(_) => false,
        }
    }

    /// Whether `w` stays registered after the sweep `s`.
    fn sweep_keeps(s: &Sweep, epath: &String, w: &Watch) -> (r: bool)
        ensures
            r == swept_stays(*s, epath@, *w),
    {
        match s {
            Sweep::Node(ev) => {
                let h = Self::sweep_hits(s, epath, w);
                !(h && (w.kind.is_oneshot() || *ev == EventType::PersistentWatchRemoved))
            },
            Sweep::Session(state) => !state.is_terminal(),
            Sweep::Drop(id) => w.id != *id,
        }
    }

    /// Runs the sweep `s` over all watches: removes those that do not stay,
    /// and returns the ids of those it delivers to, in order.
    fn sweep(&mut self, s: &Sweep, epath: &String) -> (r: Vec<u64>)
        requires
            old(self).wf(),
        ensures
            final(self).wf(),
            final(self).next_id == old(self).next_id,
            r@ == ids(old(self)@.filter(|w: Watch| swept_hit(*s, epath@, w))),
            final(self)@ == old(self)@.filter(|w: Watch| swept_stays(*s, epath@, w)),
    {
        let ghost orig = self.watches@;
        let ghost hitf = |w: Watch| swept_hit(*s, epath@, w);
        let ghost stayf = |w: Watch| swept_stays(*s, epath@, w);
        let n = self.watches.len();
        let mut out: Vec<u64> = Vec::new();
        let mut i: usize = 0;
        let mut j: usize = 0;
        proof {
            reveal(Seq::filter);
            assert(orig.subrange(0, 0).filter(stayf) =~= Seq::<Watch>::empty());
            assert(orig.subrange(0, 0).filter(hitf) =~= Seq::<Watch>::empty());
            assert(ids(Seq::<Watch>::empty()) =~= Seq::<u64>::empty());
            assert(self.watches@ =~= orig.subrange(0, 0).filter(stayf) + orig.subrange(0, n as int));
        }
        while j < n
            invariant
                n == orig.len(),
                j <= n,
                self.next_id == old(self).next_id,
                orig == old(self)@,
                old(self).wf(),
                hitf == (|w: Watch| swept_hit(*s, epath@, w)),
                stayf == (|w: Watch| swept_stays(*s, epath@, w)),
                self.watches@ == orig.subrange(0, j as int).filter(stayf) + orig.subrange(
                    j as int,
                    n as int,
                ),
                i == orig.subrange(0, j as int).filter(stayf).len(),
                out@ == ids(orig.subrange(0, j as int).filter(hitf)),
                forall|a: int, b: int|
                    0 <= a < b < self.watches@.len() ==> #[trigger] self.watches@[a].id
                        != #[trigger] self.watches@[b].id,
                forall|a: int|
                    0 <= a < self.watches@.len() ==> #[trigger] self.watches@[a].id
                        < self.next_id,
            decreases n - j,
        {
            let ghost before = self.watches@;
            assert(self.watches@[i as int] == orig[j as int]);
            let h = Self::sweep_hits(s, epath, &self.watches[i]);
            let keep = Self::sweep_keeps(s, epath, &self.watches[i]);
            if h {
                out.push(self.watches[i].id);
            }
            proof {
                let pre = orig.subrange(0, j as int);
                assert(stayf(orig[j as int]) == keep);
                assert(hitf(orig[j as int]) == h);
                assert(orig.subrange(j as int, n as int) =~= seq![orig[j as int]] + orig.subrange(
                    j + 1,
                    n as int,
                ));
                assert(orig.subrange(0, j + 1) =~= pre.push(orig[j as int]));
                pre.lemma_filter_push(orig[j as int], stayf);
                pre.lemma_filter_push(orig[j as int], hitf);
                assert(ids(pre.filter(hitf).push(orig[j as int])) =~= ids(pre.filter(hitf)).push(
                    orig[j as int].id,
                ));
            }
            if keep {
                i = i + 1;
                proof {
                    assert(self.watches@ =~= orig.subrange(0, j + 1).filter(stayf)
                        + orig.subrange(j + 1, n as int));
                }
            } else {
                self.watches.remove(i);
                proof {
                    assert(self.watches@ =~= orig.subrange(0, j + 1).filter(stayf)
                        + orig.subrange(j + 1, n as int));
                    assert forall|a: int, b: int|
                        0 <= a < b < self.watches@.len() implies #[trigger] self.watches@[a].id
                        != #[trigger] self.watches@[b].id by {
                        let a1 = if a < i { a } else { a + 1 };
                        let b1 = if b < i { b } else { b + 1 };
                        assert(self.watches@[a] == before[a1]);
                        assert(self.watches@[b] == before[b1]);
                    }
                    assert forall|a: int| 0 <= a < self.watches@.len() implies #[trigger] self.watches@[a].id
                        < self.next_id by {
                        let a1 = if a < i { a } else { a + 1 };
                        assert(self.watches@[a] == before[a1]);
                    }
                }
            }
            j = j + 1;
        }
        proof {
            assert(orig.subrange(0, n as int) =~= orig);
            assert(self.watches@ =~= orig.filter(stayf));
        }
        out
    }
}

/// With distinct ids, the id of `ws[i]` is among the ids of `ws.filter(f)`
/// exactly when `ws[i]` satisfies `f`.
proof fn lemma_ids_filter(ws: Seq<Watch>, f: spec_fn(Watch) -> bool, i: int)
    requires
        0 <= i < ws.len(),
        forall|a: int, b: int| 0 <= a < b < ws.len() ==> #[trigger] ws[a].id != #[trigger] ws[b].id,
    ensures
        ids(ws.filter(f)).contains(ws[i].id) <==> f(ws[i]),
{
    let fs = ws.filter(f);
    if f(ws[i]) {
        assert(ws.contains(ws[i]));
        assert(fs.contains(ws[i]));
        let q = choose|q: int| 0 <= q < fs.len() && fs[q] == ws[i];
        assert(ids(fs)[q] == ws[i].id);
    }
    if ids(fs).contains(ws[i].id) {
        let q = choose|q: int| 0 <= q < ids(fs).len() && ids(fs)[q] == ws[i].id;
        assert(fs.contains(fs[q]));
        ws.lemma_filter_contains_rev(f, fs[q]);
        let p = choose|p: int| 0 <= p < ws.len() && ws[p] == fs[q];
        assert(p == i);
    }
}

/// A one-shot watch fires at most once: once an event has reached it, it is
/// no longer registered, so no later event or session event reaches it.
pub proof fn lemma_oneshot_fires_once(reg: WatchRegistry, ev: EventType, epath: Seq<char>, i: int)
    requires
        reg.wf(),
        0 <= i < reg@.len(),
        reg@[i].kind.one_shot(),
        hit(reg@[i], ev, epath),
    ensures
        ids(reached(reg@, ev, epath)).contains(reg@[i].id),
        !ids(after_event(reg@, ev, epath)).contains(reg@[i].id),
        forall|f: spec_fn(Watch) -> bool|
            !#[trigger] ids(after_event(reg@, ev, epath).filter(f)).contains(reg@[i].id),
{
    let ws = reg@;
    let sf = |w: Watch| stays(w, ev, epath);
    lemma_ids_filter(ws, |w: Watch| hit(w, ev, epath), i);
    lemma_ids_filter(ws, sf, i);
    let after = ws.filter(sf);
    assert forall|f: spec_fn(Watch) -> bool| !#[trigger] ids(after.filter(f)).contains(ws[i].id) by {
        if ids(after.filter(f)).contains(ws[i].id) {
            let af = after.filter(f);
            let q = choose|q: int| 0 <= q < ids(af).len() && ids(af)[q] == ws[i].id;
            assert(af.contains(af[q]));
            after.lemma_filter_contains_rev(f, af[q]);
            let p = choose|p: int| 0 <= p < after.len() && after[p] == af[q];
            assert(ids(after)[p] == ws[i].id);
        }
    }
}

/// Every installed watch of the same kind on the same path as another one
/// that an event reaches is reached by that same event.
pub proof fn lemma_fan_out(reg: WatchRegistry, ev: EventType, epath: Seq<char>, i: int, j: int)
    requires
        reg.wf(),
        0 <= i < reg@.len(),
        0 <= j < reg@.len(),
        reg@[i].installed,
        reg@[j].installed,
        reg@[i].kind == reg@[j].kind,
        reg@[i].path@ == reg@[j].path@,
        ids(reached(reg@, ev, epath)).contains(reg@[i].id),
    ensures
        ids(reached(reg@, ev, epath)).contains(reg@[j].id),
{
    lemma_ids_filter(reg@, |w: Watch| hit(w, ev, epath), i);
    lemma_ids_filter(reg@, |w: Watch| hit(w, ev, epath), j);
}

/// A session event that does not end the session never reaches a one-shot
/// watch, and leaves it registered: its one event is still to come.
pub proof fn lemma_oneshot_survives_reconnect(reg: WatchRegistry, state: SessionState, i: int)
    requires
        reg.wf(),
        !state.terminal(),
        0 <= i < reg@.len(),
        reg@[i].kind.one_shot(),
    ensures
        !ids(reg@.filter(|w: Watch| reaches_on_session(w, state))).contains(reg@[i].id),
        ids(reg@.filter(|w: Watch| stays_on_session(w, state))).contains(reg@[i].id),
{
    lemma_ids_filter(reg@, |w: Watch| reaches_on_session(w, state), i);
    lemma_ids_filter(reg@, |w: Watch| stays_on_session(w, state), i);
}

/// A terminal session event reaches every installed watch, one-shot or
/// persistent, and leaves the registry empty.
pub proof fn lemma_terminal_broadcast(reg: WatchRegistry, state: SessionState, i: int)
    requires
        reg.wf(),
        state.terminal(),
        0 <= i < reg@.len(),
        reg@[i].installed,
    ensures
        ids(reg@.filter(|w: Watch| reaches_on_session(w, state))).contains(reg@[i].id),
        reg@.filter(|w: Watch| stays_on_session(w, state)).len() == 0,
{
    lemma_ids_filter(reg@, |w: Watch| reaches_on_session(w, state), i);
    let f = |w: Watch| stays_on_session(w, state);
    if reg@.filter(f).len() > 0 {
        assert(f(reg@.filter(f)[0]));
    }
}

} // verus!
