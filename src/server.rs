//! The per-connection dispatcher: a registry of method handlers and the
//! decisions a connection takes on each event it sees. Reading, writing and
//! running the handlers are left to the caller, which feeds the results back.

use vstd::prelude::*;
use vstd::string::*;
use crate::frame::{be_value, frame_length, frame_of, FrameError, MAX_FRAME_LEN};
use crate::json::{json_parse, json_text, Json, JsonTree};
use crate::protocol::{
    classify, decode_message, encode_message, envelope_tree, opt_tree, ErrorModel, Envelope,
    Message, Response, INTERNAL_ERROR, METHOD_NOT_FOUND,
};

verus! {

/// Handlers keyed by method name; a name has at most one handler.
pub struct RpcServer<H> {
    handlers: Vec<(String, H)>,
}

/// Method names that occur once each.
pub open spec fn names_unique(names: Seq<Seq<char>>) -> bool {
    forall|i: int, j: int| 0 <= i < j < names.len() ==> names[i] != names[j]
}

impl<H> RpcServer<H> {
    /// The registered method names, in order of registration.
    pub closed spec fn names(&self) -> Seq<Seq<char>> {
        Seq::new(self.handlers@.len(), |i: int| self.handlers@[i].0@)
    }

    /// The handler registered in slot `i`.
    pub closed spec fn handler(&self, i: int) -> H {
        self.handlers@[i].1
    }

    pub closed spec fn wf(&self) -> bool {
        names_unique(self.names())
    }

    pub fn new() -> (r: RpcServer<H>)
        ensures
            r.wf(),
            r.names() == Seq::<Seq<char>>::empty(),
    {
        let r = RpcServer { handlers: Vec::new() };
        assert(r.names() =~= Seq::<Seq<char>>::empty());
        r
    }

    /// The slot of `method`, if it has a handler.
    pub fn find(&self, method: &String) -> (r: Option<usize>)
        requires
            self.wf(),
        ensures
            r matches Some(i) ==> i < self.names().len() && self.names()[i as int] == method@
                && self.table().contains_key(method@) && self.table()[method@] == self.handler(i as int),
            r is None ==> !self.names().contains(method@) && !self.table().contains_key(method@),
    {
        let mut i: usize = 0;
        while i < self.handlers.len()
            invariant
                i <= self.handlers@.len(),
                self.wf(),
                self.names().len() == self.handlers@.len(),
                forall|j: int| 0 <= j < i ==> self.names()[j] != method@,
            decreases self.handlers@.len() - i,
        {
            if self.handlers[i].0 == *method {
                proof {
                    self.lemma_table_at(i as int);
                }
                return Some(i);
            }
            i = i + 1;
        }
        None
    }

    /// The handler of each registered method.
    pub closed spec fn table(&self) -> Map<Seq<char>, H> {
        Map::new(
            |k: Seq<char>| self.names().contains(k),
            |k: Seq<char>| self.handler(choose|i: int| 0 <= i < self.names().len() && self.names()[i] == k),
        )
    }

    proof fn lemma_table_at(&self, i: int)
        requires
            self.wf(),
            0 <= i < self.names().len(),
        ensures
            self.table().contains_key(self.names()[i]),
            self.table()[self.names()[i]] == self.handler(i),
    {
        let k = self.names()[i];
        assert(self.names().contains(k));
        let j = choose|j: int| 0 <= j < self.names().len() && self.names()[j] == k;
        assert(j == i);
    }

    /// Registers `handler` for `method`, replacing the handler it had.
    pub fn register(&mut self, method: String, handler: H)
        requires
            old(self).wf(),
        ensures
            final(self).wf(),
            final(self).table() == old(self).table().insert(method@, handler),
    {
        let ghost old_self = *self;
        let ghost before = self.names();
        match self.find(&method) {
            Some(i) => {
                self.handlers.set(i, (method, handler));
                assert(self.names() =~= before);
                proof {
                    assert forall|k: Seq<char>| #[trigger] self.table().contains_key(k) implies self.table()[k]
                        == old_self.table().insert(method@, handler)[k] by {
                        let j = choose|j: int| 0 <= j < before.len() && before[j] == k;
                        self.lemma_table_at(j);
                        if j != i {
                            old_self.lemma_table_at(j);
                        }
                    }
                    assert(self.table() =~= old_self.table().insert(method@, handler));
                }
            },
            None => {
                self.handlers.push((method, handler));
                assert(self.names() =~= before.push(method@));
                proof {
                    assert(self.wf());
                    assert forall|k: Seq<char>| old_self.table().insert(method@, handler).contains_key(k) implies #[trigger] self.table().contains_key(k) by {
                        if k != method@ {
                            let j = choose|j: int| 0 <= j < before.len() && before[j] == k;
                            assert(self.names()[j] == k);
                        } else {
                            assert(self.names()[before.len() as int] == k);
                        }
                    }
                    assert forall|k: Seq<char>| #[trigger] self.table().contains_key(k) implies self.table()[k]
                        == old_self.table().insert(method@, handler)[k] by {
                        let j = choose|j: int| 0 <= j < self.names().len() && self.names()[j] == k;
                        self.lemma_table_at(j);
                        if j < before.len() {
                            old_self.lemma_table_at(j);
                        }
                    }
                    assert(self.table() =~= old_self.table().insert(method@, handler));
                }
            },
        }
    }

    /// The handler in slot `i`.
    pub fn handler_at(&self, i: usize) -> (r: &H)
        requires
            i < self.names().len(),
        ensures
            *r == self.handler(i as int),
    {
        &self.handlers[i].1
    }
}

/// Where a connection stands between two events.
#[derive(Debug, Clone, Copy, PartialEq, Eq, Structural)]
pub enum Phase {
    /// Waiting for the 4 bytes of the next frame header.
    AwaitHeader,
    /// Waiting for a payload of this many bytes.
    AwaitPayload(usize),
    /// A handler runs for the request with this identifier.
    AwaitHandler(u64),
    /// Nothing more is read or written.
    Closed,
}

/// What the caller does next on a connection.
pub enum Step {
    /// Read a 4-byte frame header and hand it to `on_header`.
    ReadHeader,
    /// Read exactly this many bytes and hand them to `on_payload`.
    ReadPayload(usize),
    /// Run the handler in this slot on these params and hand its outcome to
    /// `on_handler_result`.
    Invoke { slot: usize, params: Json },
    /// Run the notification handler in this slot on these params, ignore its
    /// outcome, then read the next header.
    Notify { slot: usize, params: Json },
    /// Write these bytes, then read the next header.
    Send(Vec<u8>),
    /// Close the connection.
    Close,
}

/// One connection's dispatcher: it reads frames, answers each request with
/// exactly one response, in arrival order, and never answers a notification.
pub struct Connection {
    phase: Phase,
}

/// The text that starts the message of a method-not-found error.
pub open spec fn unknown_method_prefix() -> Seq<char> {
    seq!['u', 'n', 'k', 'n', 'o', 'w', 'n', ' ', 'm', 'e', 't', 'h', 'o', 'd', ':', ' ']
}

/// The answer to a request for a method that has no handler.
pub open spec fn unknown_method_reply(id: u64, method: Seq<char>) -> Envelope {
    Envelope::Response {
        id,
        result: None,
        error: Some(
            ErrorModel {
                code: METHOD_NOT_FOUND,
                message: unknown_method_prefix() + method,
                data: None,
            },
        ),
    }
}

/// The answer to a request whose handler finished with `outcome`: its value
/// as the result, or its failure text as an internal error.
pub open spec fn handler_reply(id: u64, outcome: Result<JsonTree, Seq<char>>) -> Envelope {
    match outcome {
        Ok(v) => Envelope::Response { id, result: Some(v), error: None },
        Err(msg) => Envelope::Response {
            id,
            result: None,
            error: Some(ErrorModel { code: INTERNAL_ERROR, message: msg, data: None }),
        },
    }
}

/// The message that a frame payload carries, if any.
pub open spec fn decoded(payload: Seq<u8>) -> Option<Envelope> {
    match json_parse(payload) {
        Some(t) => classify(t),
        None => None,
    }
}

/// `step` sends the frame of `reply`, or closes the connection when that
/// frame would be over the cap.
pub open spec fn sends(step: Step, reply: Envelope) -> bool {
    let text = json_text(envelope_tree(reply));
    if text.len() <= MAX_FRAME_LEN {
        step matches Step::Send(bytes) && bytes@ == frame_of(text)
    } else {
        step is Close
    }
}

/// The phase after a step: reading on unless the step closes.
pub open spec fn phase_after(step: Step) -> Phase {
    if step is Close {
        Phase::Closed
    } else {
        Phase::AwaitHeader
    }
}

/// The phase a connection moves to when a frame header arrives.
pub open spec fn header_phase(p: Phase, header: Seq<u8>) -> Phase {
    if p != Phase::AwaitHeader || be_value(header) > MAX_FRAME_LEN {
        Phase::Closed
    } else {
        Phase::AwaitPayload(be_value(header) as usize)
    }
}

/// A framing failure closes only the connection it happens on: any other
/// connection waiting for a header goes on to read its payload, since a
/// connection's next phase depends on its own phase and bytes alone.
pub proof fn lemma_framing_failure_is_local(a: Phase, bad: Seq<u8>, b: Phase, good: Seq<u8>)
    requires
        be_value(bad) > MAX_FRAME_LEN,
        b == Phase::AwaitHeader,
        be_value(good) <= MAX_FRAME_LEN,
    ensures
        header_phase(a, bad) == Phase::Closed,
        header_phase(b, good) == Phase::AwaitPayload(be_value(good) as usize),
{
}

/// Every reply the dispatcher makes to a request carries the request's
/// identifier and exactly one of result and error.
pub proof fn lemma_replies_correlate(id: u64, method: Seq<char>, outcome: Result<JsonTree, Seq<char>>)
    ensures
        unknown_method_reply(id, method) matches Envelope::Response { id: rid, .. } && rid == id,
        crate::protocol::well_formed(unknown_method_reply(id, method)),
        handler_reply(id, outcome) matches Envelope::Response { id: rid, .. } && rid == id,
        crate::protocol::well_formed(handler_reply(id, outcome)),
{
}

/// A request for an unregistered method is answered with the
/// method-not-found code and a message that is not empty.
pub proof fn lemma_unknown_method(id: u64, method: Seq<char>)
    ensures
        unknown_method_reply(id, method) matches Envelope::Response { error: Some(e), .. } && e.code
            == -32601 && e.message.len() > 0,
{
}

/// The frame of `m`, or `Close` when it cannot be framed.
fn send_step(m: Message) -> (r: Step)
    ensures
        sends(r, m@),
{
    match encode_message(m) {
        Ok(bytes) => Step::Send(bytes),
        Err(_) => Step::Close,
    }
}

impl Connection {
    pub fn new() -> (r: Connection)
        ensures
            r.phase() == Phase::AwaitHeader,
    {
        Connection { phase: Phase::AwaitHeader }
    }

    pub closed spec fn phase(&self) -> Phase {
        self.phase
    }

    /// Where the connection stands.
    pub fn current_phase(&self) -> (r: Phase)
        ensures
            r == self.phase(),
    {
        self.phase
    }

    /// A read or a write failed, or the peer closed the stream.
    pub fn on_failure(&mut self) -> (r: Step)
        ensures
            r is Close,
            final(self).phase() == Phase::Closed,
    {
        self.phase = Phase::Closed;
        Step::Close
    }

    /// A frame header arrived. A header over the cap closes the connection.
    pub fn on_header(&mut self, header: [u8; 4]) -> (r: Step)
        ensures
            final(self).phase() == header_phase(old(self).phase(), header@),
            old(self).phase() != Phase::AwaitHeader ==> r is Close && final(self).phase()
                == Phase::Closed,
            old(self).phase() == Phase::AwaitHeader && be_value(header@) > MAX_FRAME_LEN ==> r is Close
                && final(self).phase() == Phase::Closed,
            old(self).phase() == Phase::AwaitHeader && be_value(header@) <= MAX_FRAME_LEN ==> r
                == Step::ReadPayload(be_value(header@) as usize) && final(self).phase()
                == Phase::AwaitPayload(be_value(header@) as usize),
    {
        if self.phase != Phase::AwaitHeader {
            self.phase = Phase::Closed;
            return Step::Close;
        }
        match frame_length(header) {
            Ok(len) => {
                self.phase = Phase::AwaitPayload(len);
                Step::ReadPayload(len)
            },
            Err(_) => {
                self.phase = Phase::Closed;
                Step::Close
            },
        }
    }

    /// A whole frame payload arrived. A request gets its handler invoked, or
    /// a method-not-found reply; a notification or a response gets no reply;
    /// anything else closes the connection.
    pub fn on_payload<H>(&mut self, server: &RpcServer<H>, payload: &[u8]) -> (r: Step)
        requires
            server.wf(),
        ensures
            old(self).phase() != Phase::AwaitPayload(payload@.len() as usize) ==> r is Close
                && final(self).phase() == Phase::Closed,
            old(self).phase() == Phase::AwaitPayload(payload@.len() as usize) ==> {
                match decoded(payload@) {
                    None => r is Close && final(self).phase() == Phase::Closed,
                    Some(Envelope::Request { id, method, params }) => if server.table().contains_key(
                        method,
                    ) {
                        &&& r matches Step::Invoke { slot, params: p } && p@ == params && slot
                            < server.names().len() && server.names()[slot as int] == method
                            && server.handler(slot as int) == server.table()[method]
                        &&& final(self).phase() == Phase::AwaitHandler(id)
                    } else {
                        &&& sends(r, unknown_method_reply(id, method))
                        &&& final(self).phase() == phase_after(r)
                    },
                    Some(Envelope::Notification { method, params }) => {
                        &&& final(self).phase() == Phase::AwaitHeader
                        &&& if server.table().contains_key(method) {
                            r matches Step::Notify { slot, params: p } && p@ == params && slot
                                < server.names().len() && server.names()[slot as int] == method
                                && server.handler(slot as int) == server.table()[method]
                        } else {
                            r is ReadHeader
                        }
                    },
                    Some(Envelope::Response { .. }) => r is ReadHeader && final(self).phase()
                        == Phase::AwaitHeader,
                }
            },
    {
        if self.phase != Phase::AwaitPayload(payload.len()) {
            self.phase = Phase::Closed;
            return Step::Close;
        }
        match decode_message(payload) {
            None => {
                self.phase = Phase::Closed;
                Step::Close
            },
            Some(Message::Request(req)) => {
                match server.find(&req.method) {
                    Some(slot) => {
                        self.phase = Phase::AwaitHandler(req.id);
                        Step::Invoke { slot, params: req.params }
                    },
                    None => {
                        let mut message = "unknown method: ".to_owned();
                        proof {
                            reveal_strlit("unknown method: ");
                            assert("unknown method: "@ =~= unknown_method_prefix());
                        }
                        message.append(req.method.as_str());
                        let reply = Response::err(req.id, METHOD_NOT_FOUND, message);
                        let r = send_step(Message::Response(reply));
                        self.phase = if r.is_close() {
                            Phase::Closed
                        } else {
                            Phase::AwaitHeader
                        };
                        r
                    },
                }
            },
            Some(Message::Notification(n)) => {
                self.phase = Phase::AwaitHeader;
                match server.find(&n.method) {
                    Some(slot) => Step::Notify { slot, params: n.params },
                    None => Step::ReadHeader,
                }
            },
            Some(Message::Response(_)) => {
                self.phase = Phase::AwaitHeader;
                Step::ReadHeader
            },
        }
    }

    /// The handler for the pending request finished: its outcome is sent as
    /// the response that carries the request's identifier.
    pub fn on_handler_result(&mut self, outcome: Result<Json, String>) -> (r: Step)
        ensures
            !(old(self).phase() is AwaitHandler) ==> r is Close && final(self).phase()
                == Phase::Closed,
            old(self).phase() matches Phase::AwaitHandler(id) ==> {
                &&& sends(
                    r,
                    handler_reply(
                        id,
                        match outcome {
                            Ok(v) => Ok(v@),
                            Err(m) => Err(m@),
                        },
                    ),
                )
                &&& final(self).phase() == phase_after(r)
            },
    {
        let id = match self.phase {
            Phase::AwaitHandler(id) => id,
            _ => {
                self.phase = Phase::Closed;
                return Step::Close;
            },
        };
        let reply = match outcome {
            Ok(v) => Response::ok(id, v),
            Err(m) => Response::err(id, INTERNAL_ERROR, m),
        };
        let r = send_step(Message::Response(reply));
        self.phase = if r.is_close() {
            Phase::Closed
        } else {
            Phase::AwaitHeader
        };
        r
    }
}

impl Step {
    pub fn is_close(&self) -> (r: bool)
        ensures
            r == (*self is Close),
    {
        match self {
            Step::Close => true,
            _ => false,
        }
    }
}

} // verus!
