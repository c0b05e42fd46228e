//! The client side of a connection: it mints request identifiers, remembers
//! who waits for each request, and hands every response to the caller that
//! sent the matching request. Reading and writing are left to the caller.

use vstd::prelude::*;
use crate::frame::{frame_of, FrameError, MAX_FRAME_LEN};
use crate::json::{json_parse, json_text, Json};
use crate::protocol::{
    classify, decode_message, encode_message, envelope_tree, next_id, well_formed, Envelope,
    Message, Notification, Request, RequestIds, Response,
};
use crate::server::decoded;

verus! {

/// Requests sent and not yet answered, each with what its caller waits on.
pub struct PendingCalls<W> {
    calls: Vec<(u64, W)>,
}

impl<W> PendingCalls<W> {
    /// The waiter of each unanswered request, by identifier.
    pub closed spec fn table(&self) -> Map<u64, W> {
        Map::new(
            |id: u64| exists|i: int| 0 <= i < self.calls@.len() && self.calls@[i].0 == id,
            |id: u64|
                self.calls@[choose|i: int| 0 <= i < self.calls@.len() && self.calls@[i].0 == id].1,
        )
    }

    pub closed spec fn wf(&self) -> bool {
        forall|i: int, j: int|
            0 <= i < j < self.calls@.len() ==> self.calls@[i].0 != self.calls@[j].0
    }

    proof fn lemma_table_at(&self, i: int)
        requires
            self.wf(),
            0 <= i < self.calls@.len(),
        ensures
            self.table().contains_key(self.calls@[i].0),
            self.table()[self.calls@[i].0] == self.calls@[i].1,
    {
        let id = self.calls@[i].0;
        let j = choose|j: int| 0 <= j < self.calls@.len() && self.calls@[j].0 == id;
        assert(j == i);
    }

    pub fn new() -> (r: PendingCalls<W>)
        ensures
            r.wf(),
            r.table() == Map::<u64, W>::empty(),
    {
        let r = PendingCalls { calls: Vec::new() };
        assert(r.table() =~= Map::<u64, W>::empty());
        r
    }

    fn slot_of(&self, id: u64) -> (r: Option<usize>)
        requires
            self.wf(),
        ensures
            r matches Some(i) ==> i < self.calls@.len() && self.calls@[i as int].0 == id,
            r is None ==> !self.table().contains_key(id),
    {
        let mut i: usize = 0;
        while i < self.calls.len()
            invariant
                i <= self.calls@.len(),
                forall|j: int| 0 <= j < i ==> self.calls@[j].0 != id,
            decreases self.calls@.len() - i,
        {
            if self.calls[i].0 == id {
                return Some(i);
            }
            i = i + 1;
        }
        None
    }

    /// Removes the request `id` and returns its waiter, if it was pending.
    pub fn take(&mut self, id: u64) -> (r: Option<W>)
        requires
            old(self).wf(),
        ensures
            final(self).wf(),
            final(self).table() == old(self).table().remove(id),
            r matches Some(w) ==> old(self).table().contains_key(id) && old(self).table()[id] == w,
            r is None ==> !old(self).table().contains_key(id),
    {
        let ghost old_self = *self;
        match self.slot_of(id) {
            Some(i) => {
                proof {
                    self.lemma_table_at(i as int);
                }
                let (_, w) = self.calls.remove(i);
                proof {
                    assert(self.wf());
                    assert forall|k: u64| #[trigger] self.table().contains_key(k) == old_self.table().remove(
                        id,
                    ).contains_key(k) by {
                        if old_self.table().contains_key(k) && k != id {
                            let j = choose|j: int|
                                0 <= j < old_self.calls@.len() && old_self.calls@[j].0 == k;
                            if j < i {
                                assert(self.calls@[j] == old_self.calls@[j]);
                            } else {
                                assert(self.calls@[j - 1] == old_self.calls@[j]);
                            }
                        }
                        if self.table().contains_key(k) {
                            let j = choose|j: int| 0 <= j < self.calls@.len() && self.calls@[j].0 == k;
                            if j < i {
                                assert(self.calls@[j] == old_self.calls@[j]);
                            } else {
                                assert(self.calls@[j] == old_self.calls@[j + 1]);
                            }
                        }
                    }
                    assert forall|k: u64| #[trigger] self.table().contains_key(k) implies self.table()[k]
                        == old_self.table().remove(id)[k] by {
                        let j = choose|j: int| 0 <= j < self.calls@.len() && self.calls@[j].0 == k;
                        self.lemma_table_at(j);
                        if j < i {
                            assert(self.calls@[j] == old_self.calls@[j]);
                            old_self.lemma_table_at(j);
                        } else {
                            assert(self.calls@[j] == old_self.calls@[j + 1]);
                            old_self.lemma_table_at(j + 1);
                        }
                    }
                    assert(self.table() =~= old_self.table().remove(id));
                }
                Some(w)
            },
            None => {
                assert(self.table() =~= old_self.table().remove(id));
                None
            },
        }
    }

    /// Records that `waiter` waits for the response to request `id`.
    pub fn insert(&mut self, id: u64, waiter: W)
        requires
            old(self).wf(),
        ensures
            final(self).wf(),
            final(self).table() == old(self).table().insert(id, waiter),
    {
        let _ = self.take(id);
        let ghost mid = *self;
        proof {
            assert(!mid.table().contains_key(id));
            assert forall|i: int| 0 <= i < mid.calls@.len() implies mid.calls@[i].0 != id by {
                if mid.calls@[i].0 == id {
                    assert(mid.table().contains_key(id));
                }
            }
        }
        self.calls.push((id, waiter));
        proof {
            assert(self.wf());
            assert forall|k: u64| #[trigger] self.table().contains_key(k) == mid.table().insert(
                id,
                waiter,
            ).contains_key(k) by {
                if k == id {
                    assert(self.calls@[self.calls@.len() - 1].0 == id);
                } else if mid.table().contains_key(k) {
                    let j = choose|j: int| 0 <= j < mid.calls@.len() && mid.calls@[j].0 == k;
                    assert(self.calls@[j] == mid.calls@[j]);
                }
            }
            assert forall|k: u64| #[trigger] self.table().contains_key(k) implies self.table()[k]
                == mid.table().insert(id, waiter)[k] by {
                let j = choose|j: int| 0 <= j < self.calls@.len() && self.calls@[j].0 == k;
                self.lemma_table_at(j);
                if k != id {
                    assert(self.calls@[j] == mid.calls@[j]);
                    mid.lemma_table_at(j);
                }
            }
            assert(self.table() =~= mid.table().insert(id, waiter));
        }
    }
}

/// Every message that `classify` reads is well-formed: a response read from
/// the wire has exactly one of result and error.
pub proof fn lemma_classified_well_formed(t: crate::json::JsonTree)
    ensures
        classify(t) matches Some(m) ==> well_formed(m),
{
}

/// What an incoming frame payload meant to the client.
pub enum Inbound<W> {
    /// The response to a pending request, with the waiter of its caller.
    Answered(W, Response),
    /// A notification from the peer.
    Notified(Notification),
    /// A response nobody waits for, or a request, which a client ignores.
    Ignored,
    /// The payload is not a message: the connection is broken.
    Broken,
}

/// A multiplexed client: any number of requests may be pending at once, and
/// each response reaches the caller whose request carried its identifier.
pub struct RpcClient<W> {
    ids: RequestIds,
    pending: PendingCalls<W>,
}

impl<W> RpcClient<W> {
    pub closed spec fn waiting(&self) -> Map<u64, W> {
        self.pending.table()
    }

    pub closed spec fn upcoming(&self) -> u64 {
        self.ids.upcoming()
    }

    pub closed spec fn wf(&self) -> bool {
        &&& self.pending.wf()
        &&& forall|id: u64| self.pending.table().contains_key(id) ==> id < self.ids.upcoming()
    }

    pub fn new() -> (r: RpcClient<W>)
        ensures
            r.wf(),
            r.waiting() == Map::<u64, W>::empty(),
            r.upcoming() == 1,
    {
        RpcClient { ids: RequestIds::new(), pending: PendingCalls::new() }
    }

    /// Starts a call of `method`: the request gets the next identifier, and
    /// `waiter` is remembered under it. Returns the identifier and the frame
    /// to send.
    pub fn call(&mut self, method: String, params: Json, waiter: W) -> (r: Result<(u64, Vec<u8>), FrameError>)
        requires
            old(self).wf(),
            old(self).upcoming() < u64::MAX,
        ensures
            final(self).wf(),
            final(self).upcoming() == old(self).upcoming() + 1,
            !old(self).waiting().contains_key(old(self).upcoming()),
            ({
                let reply_text = json_text(
                    envelope_tree(
                        Envelope::Request { id: old(self).upcoming(), method: method@, params: params@ },
                    ),
                );
                if reply_text.len() <= MAX_FRAME_LEN {
                    &&& r matches Ok((id, bytes)) && id == old(self).upcoming() && bytes@ == frame_of(reply_text)
                    &&& final(self).waiting() == old(self).waiting().insert(old(self).upcoming(), waiter)
                } else {
                    r is Err && final(self).waiting() == old(self).waiting()
                }
            }),
    {
        let req = Request::new(&mut self.ids, method, params);
        let id = req.id;
        match encode_message(Message::Request(req)) {
            Ok(bytes) => {
                self.pending.insert(id, waiter);
                Ok((id, bytes))
            },
            Err(e) => Err(e),
        }
    }

    /// The frame of a notification; nothing waits for it.
    pub fn notify(&self, method: String, params: Json) -> (r: Result<Vec<u8>, FrameError>)
        ensures
            ({
                let text = json_text(
                    envelope_tree(Envelope::Notification { method: method@, params: params@ }),
                );
                if text.len() <= MAX_FRAME_LEN {
                    r matches Ok(bytes) && bytes@ == frame_of(text)
                } else {
                    r is Err
                }
            }),
    {
        encode_message(Message::Notification(Notification::new(method, params)))
    }

    /// An incoming frame payload: a response goes to the caller waiting for
    /// its identifier, who then waits no more.
    pub fn on_payload(&mut self, payload: &[u8]) -> (r: Inbound<W>)
        requires
            old(self).wf(),
        ensures
            final(self).wf(),
            final(self).upcoming() == old(self).upcoming(),
            decoded(payload@) is None ==> r is Broken && final(self).waiting() == old(self).waiting(),
            decoded(payload@) matches Some(Envelope::Response { id, .. }) ==> {
                if old(self).waiting().contains_key(id) {
                    &&& r matches Inbound::Answered(w, resp) && w == old(self).waiting()[id]
                        && resp.id == id && (resp.result is Some != resp.error is Some)
                    &&& final(self).waiting() == old(self).waiting().remove(id)
                } else {
                    r is Ignored && final(self).waiting() == old(self).waiting()
                }
            },
            decoded(payload@) matches Some(Envelope::Notification { method, params }) ==> {
                &&& r matches Inbound::Notified(n) && n.method@ == method && n.params@ == params
                &&& final(self).waiting() == old(self).waiting()
            },
            decoded(payload@) matches Some(Envelope::Request { .. }) ==> {
                &&& r is Ignored
                &&& final(self).waiting() == old(self).waiting()
            },
    {
        match decode_message(payload) {
            None => Inbound::Broken,
            Some(Message::Response(resp)) => {
                proof {
                    let t = json_parse(payload@)->Some_0;
                    lemma_classified_well_formed(t);
                }
                match self.pending.take(resp.id) {
                    Some(w) => Inbound::Answered(w, resp),
                    None => Inbound::Ignored,
                }
            },
            Some(Message::Notification(n)) => Inbound::Notified(n),
            Some(Message::Request(_)) => Inbound::Ignored,
        }
    }
}

} // verus!
