use vstd::prelude::*;

use crate::error::Error;

verus! {

/// Transaction id of a watch notification.
pub const NOTIFICATION_XID: i32 = -1;

/// Transaction id of a ping.
pub const PING_XID: i32 = -2;

/// Transaction id of an authentication packet.
pub const AUTH_XID: i32 = -4;

/// Transaction id of a watch re-registration.
pub const SET_WATCHES_XID: i32 = -8;

/// Where an incoming reply goes.
#[derive(Clone, Copy, Debug, PartialEq, Eq, Structural)]
pub enum Route {
    /// A watch event, for the watch registry.
    Notification,
    /// The answer to a ping.
    Ping,
    /// The answer to an authentication packet.
    Auth,
    /// The answer to a watch re-registration.
    SetWatches,
    /// The answer to the request with reply slot `ticket`.
    Response { ticket: u64 },
}

/// The tickets of the queue `q`, in order.
pub open spec fn tickets(q: Seq<(i32, u64)>) -> Seq<u64> {
    q.map_values(|e: (i32, u64)| e.1)
}

/// Whether `xid` is one of the reserved transaction ids.
pub open spec fn reserved(xid: i32) -> bool {
    xid == NOTIFICATION_XID || xid == PING_XID || xid == AUTH_XID || xid == SET_WATCHES_XID
}

/// Whether a reply with transaction id `xid` answers the head of the queue `q`.
pub open spec fn answers_head(q: Seq<(i32, u64)>, xid: i32) -> bool {
    !reserved(xid) && q.len() > 0 && q[0].0 == xid
}

/// The queue of requests awaiting a reply, after a reply with transaction id `xid`.
pub open spec fn after_reply(q: Seq<(i32, u64)>, xid: i32) -> Seq<(i32, u64)> {
    if answers_head(q, xid) {
        q.drop_first()
    } else {
        q
    }
}

/// The tickets that the replies `xids`, in order, complete, starting from the queue `q`.
pub open spec fn completions(q: Seq<(i32, u64)>, xids: Seq<i32>) -> Seq<u64>
    decreases xids.len(),
{
    if xids.len() == 0 {
        Seq::empty()
    } else {
        let head = if answers_head(q, xids[0]) {
            seq![q[0].1]
        } else {
            Seq::empty()
        };
        head + completions(after_reply(q, xids[0]), xids.drop_first())
    }
}

/// The transaction id that follows `xid`: the next one up, back to 1 after the largest.
pub open spec fn following_xid(xid: i32) -> i32 {
    if xid == i32::MAX {
        1
    } else {
        (xid + 1) as i32
    }
}

/// Numbers outgoing requests and pairs incoming replies with them, in order.
pub struct Pipeline {
    next_xid: i32,
    pending: Vec<(i32, u64)>,
}

impl Pipeline {
    /// The requests sent and not answered yet, oldest first: transaction id and ticket.
    pub closed spec fn view(&self) -> Seq<(i32, u64)> {
        self.pending@
    }

    /// The transaction id that the next request goes out with.
    pub closed spec fn next(&self) -> i32 {
        self.next_xid
    }

    /// The next transaction id is positive.
    pub closed spec fn wf(&self) -> bool {
        self.next_xid > 0
    }

    /// A pipeline with nothing in flight.
    pub fn new() -> (r: Pipeline)
        ensures
            r.wf(),
            r@ == Seq::<(i32, u64)>::empty(),
            r.next() == 1,
    {
        Pipeline { next_xid: 1, pending: Vec::new() }
    }

    /// The transaction id that the next request goes out with.
    pub fn next_xid(&self) -> (r: i32)
        ensures
            r == self.next(),
    {
        self.next_xid
    }

    /// Takes the request with reply slot `ticket` for sending: returns the
    /// transaction id it goes out with, which is none of the reserved ones,
    /// and queues it behind those already in flight.
    pub fn send(&mut self, ticket: u64) -> (r: i32)
        requires
            old(self).wf(),
        ensures
            final(self).wf(),
            r > 0,
            !reserved(r),
            r == old(self).next(),
            final(self).next() == following_xid(r),
            final(self)@ == old(self)@.push((r, ticket)),
    {
        let xid = self.next_xid;
        if xid == i32::MAX {
            self.next_xid = 1;
        } else {
            self.next_xid = xid + 1;
        }
        self.pending.push((xid, ticket));
        xid
    }

    /// Routes an incoming reply by its transaction id. A reply to a request
    /// must answer the oldest one in flight; anything else breaks the protocol.
    pub fn route(&mut self, xid: i32) -> (r: Result<Route, Error>)
        requires
            old(self).wf(),
        ensures
            final(self).wf(),
            final(self).next() == old(self).next(),
            final(self)@ == after_reply(old(self)@, xid),
            xid == NOTIFICATION_XID ==> r == Ok::<Route, Error>(Route::Notification),
            xid == PING_XID ==> r == Ok::<Route, Error>(Route::Ping),
            xid == AUTH_XID ==> r == Ok::<Route, Error>(Route::Auth),
            xid == SET_WATCHES_XID ==> r == Ok::<Route, Error>(Route::SetWatches),
            answers_head(old(self)@, xid) ==> r == Ok::<Route, Error>(
                Route::Response { ticket: old(self)@[0].1 },
            ),
            !reserved(xid) && !answers_head(old(self)@, xid) ==> r == Err::<Route, Error>(
                Error::ProtocolError,
            ),
    {
        if xid == NOTIFICATION_XID {
            Ok(Route::Notification)
        } else if xid == PING_XID {
            Ok(Route::Ping)
        } else if xid == AUTH_XID {
            Ok(Route::Auth)
        } else if xid == SET_WATCHES_XID {
            Ok(Route::SetWatches)
        } else if self.pending.len() > 0 && self.pending[0].0 == xid {
            let head = self.pending.remove(0);
            assert(self.pending@ =~= old(self)@.drop_first());
            Ok(Route::Response { ticket: head.1 })
        } else {
            Err(Error::ProtocolError)
        }
    }

    /// Empties the queue, as when the connection or the session ends: returns
    /// the tickets of all requests in flight, oldest first.
    pub fn drain(&mut self) -> (r: Vec<u64>)
        requires
            old(self).wf(),
        ensures
            final(self).wf(),
            final(self).next() == old(self).next(),
            final(self)@ == Seq::<(i32, u64)>::empty(),
            r@ == tickets(old(self)@),
    {
        let mut out: Vec<u64> = Vec::new();
        let mut k: usize = 0;
        while k < self.pending.len()
            invariant
                self.pending@ == old(self)@,
                self.next_xid == old(self).next_xid,
                k <= self.pending@.len(),
                out@ == tickets(self.pending@.subrange(0, k as int)),
            decreases self.pending@.len() - k,
        {
            out.push(self.pending[k].1);
            assert(tickets(self.pending@.subrange(0, k + 1)) =~= tickets(
                self.pending@.subrange(0, k as int),
            ).push(self.pending@[k as int].1));
            k = k + 1;
        }
        assert(self.pending@.subrange(0, k as int) =~= self.pending@);
        self.pending.clear();
        out
    }
}

/// Replies complete requests in the order in which they were sent: whatever
/// replies come in, the tickets they complete are the oldest ones in flight,
/// in order.
pub proof fn lemma_fifo(q: Seq<(i32, u64)>, xids: Seq<i32>)
    ensures
        completions(q, xids).len() <= q.len(),
        completions(q, xids) == tickets(q).subrange(0, completions(q, xids).len() as int),
    decreases xids.len(),
{
    if xids.len() > 0 {
        let q1 = after_reply(q, xids[0]);
        lemma_fifo(q1, xids.drop_first());
        let rest = completions(q1, xids.drop_first());
        if answers_head(q, xids[0]) {
            assert(tickets(q1) =~= tickets(q).drop_first());
            assert(completions(q, xids) =~= seq![q[0].1] + rest);
            assert(completions(q, xids) =~= tickets(q).subrange(0, rest.len() as int + 1));
        } else {
            assert(completions(q, xids) =~= rest);
        }
    }
}

} // verus!
