//! JSON-RPC 2.0 messages: requests, responses and notifications, their
//! envelope in JSON, and the request-identifier counter.

use vstd::prelude::*;
use crate::decimal::{
    decimal, i32_text, is_digit, lemma_decimal, lemma_decimal_injective, parse_i32, parse_u64,
    signed_decimal, u64_text,
};
use crate::frame::{encode_frame, frame_of, FrameError, MAX_FRAME_LEN};
use crate::json::{
    entries_tree, json_parse, json_text, lookup, member, parse_json, render_json, Json, JsonTree,
};

verus! {

pub const PARSE_ERROR: i32 = -32700;

pub const INVALID_REQUEST: i32 = -32600;

pub const METHOD_NOT_FOUND: i32 = -32601;

pub const INVALID_PARAMS: i32 = -32602;

pub const INTERNAL_ERROR: i32 = -32603;

/// Mints request identifiers: 1, 2, 3, ... in order.
pub struct RequestIds {
    next: u64,
}

impl RequestIds {
    /// The identifier that the next request will get.
    pub closed spec fn upcoming(&self) -> u64 {
        self.next
    }

    pub fn new() -> (r: RequestIds)
        ensures
            r.upcoming() == 1,
    {
        RequestIds { next: 1 }
    }

    /// The identifier that the next request will get.
    pub fn peek(&self) -> (r: u64)
        ensures
            r == self.upcoming(),
    {
        self.next
    }
}

/// A fresh request identifier: one more than the previous one.
pub fn next_id(ids: &mut RequestIds) -> (id: u64)
    requires
        old(ids).upcoming() < u64::MAX,
    ensures
        id == old(ids).upcoming(),
        final(ids).upcoming() == id + 1,
{
    let id = ids.next;
    ids.next = id + 1;
    id
}

/// Identifiers minted one after another from the same counter strictly
/// increase: each call of `next_id` hands out the counter's value and moves
/// it one further.
pub proof fn lemma_ids_increase(c0: RequestIds, first: u64, c1: RequestIds, second: u64)
    requires
        first == c0.upcoming(),
        c1.upcoming() == first + 1,
        second == c1.upcoming(),
    ensures
        second > first,
{
}

/// A call of `method` that expects exactly one response carrying `id`.
#[derive(Debug, PartialEq)]
pub struct Request {
    pub id: u64,
    pub method: String,
    pub params: Json,
}

/// The error half of a response.
#[derive(Debug, PartialEq)]
pub struct RpcError {
    pub code: i32,
    pub message: String,
    pub data: Option<Json>,
}

/// The answer to the request with identifier `id`: a well-formed response has
/// exactly one of `result` and `error`.
#[derive(Debug, PartialEq)]
pub struct Response {
    pub id: u64,
    pub result: Option<Json>,
    pub error: Option<RpcError>,
}

/// A one-way message: it has no identifier and gets no response.
#[derive(Debug, PartialEq)]
pub struct Notification {
    pub method: String,
    pub params: Json,
}

/// Any message on the wire.
#[derive(Debug, PartialEq)]
pub enum Message {
    Request(Request),
    Response(Response),
    Notification(Notification),
}

/// The mathematical form of an error object.
pub struct ErrorModel {
    pub code: i32,
    pub message: Seq<char>,
    pub data: Option<JsonTree>,
}

/// The mathematical form of a message.
pub enum Envelope {
    Request { id: u64, method: Seq<char>, params: JsonTree },
    Response { id: u64, result: Option<JsonTree>, error: Option<ErrorModel> },
    Notification { method: Seq<char>, params: JsonTree },
}

pub open spec fn opt_tree(j: Option<Json>) -> Option<JsonTree> {
    match j {
        Some(v) => Some(v@),
        None => None,
    }
}

impl View for RpcError {
    type V = ErrorModel;

    open spec fn view(&self) -> ErrorModel {
        ErrorModel { code: self.code, message: self.message@, data: opt_tree(self.data) }
    }
}

impl View for Message {
    type V = Envelope;

    open spec fn view(&self) -> Envelope {
        match self {
            Message::Request(r) => Envelope::Request {
                id: r.id,
                method: r.method@,
                params: r.params@,
            },
            Message::Response(r) => Envelope::Response {
                id: r.id,
                result: opt_tree(r.result),
                error: match r.error {
                    Some(e) => Some(e@),
                    None => None,
                },
            },
            Message::Notification(n) => Envelope::Notification {
                method: n.method@,
                params: n.params@,
            },
        }
    }
}

/// A message that can be sent: a response has exactly one of result and error.
pub open spec fn well_formed(m: Envelope) -> bool {
    match m {
        Envelope::Response { result, error, .. } => result is Some != error is Some,
        _ => true,
    }
}

pub open spec fn key_jsonrpc() -> Seq<char> {
    seq!['j', 's', 'o', 'n', 'r', 'p', 'c']
}

pub open spec fn key_id() -> Seq<char> {
    seq!['i', 'd']
}

pub open spec fn key_method() -> Seq<char> {
    seq!['m', 'e', 't', 'h', 'o', 'd']
}

pub open spec fn key_params() -> Seq<char> {
    seq!['p', 'a', 'r', 'a', 'm', 's']
}

pub open spec fn key_result() -> Seq<char> {
    seq!['r', 'e', 's', 'u', 'l', 't']
}

pub open spec fn key_error() -> Seq<char> {
    seq!['e', 'r', 'r', 'o', 'r']
}

pub open spec fn key_code() -> Seq<char> {
    seq!['c', 'o', 'd', 'e']
}

pub open spec fn key_message() -> Seq<char> {
    seq!['m', 'e', 's', 's', 'a', 'g', 'e']
}

pub open spec fn key_data() -> Seq<char> {
    seq!['d', 'a', 't', 'a']
}

/// The protocol tag.
pub open spec fn version() -> Seq<char> {
    seq!['2', '.', '0']
}

/// One entry when the value is there, none when it is not.
pub open spec fn optional_entry(key: Seq<char>, v: Option<JsonTree>) -> Seq<(Seq<char>, JsonTree)> {
    match v {
        Some(t) => seq![(key, t)],
        None => seq![],
    }
}

/// Params are left out when they are null.
pub open spec fn params_entry(p: JsonTree) -> Seq<(Seq<char>, JsonTree)> {
    if p is Null {
        seq![]
    } else {
        seq![(key_params(), p)]
    }
}

pub open spec fn error_tree(e: ErrorModel) -> JsonTree {
    JsonTree::Object(
        seq![
            (key_code(), JsonTree::Number(signed_decimal(e.code as int))),
            (key_message(), JsonTree::Str(e.message)),
        ] + optional_entry(key_data(), e.data),
    )
}

/// The JSON object that carries a message.
pub open spec fn envelope_tree(m: Envelope) -> JsonTree {
    match m {
        Envelope::Request { id, method, params } => JsonTree::Object(
            seq![
                (key_jsonrpc(), JsonTree::Str(version())),
                (key_id(), JsonTree::Number(decimal(id as nat))),
                (key_method(), JsonTree::Str(method)),
            ] + params_entry(params),
        ),
        Envelope::Response { id, result, error } => JsonTree::Object(
            seq![
                (key_jsonrpc(), JsonTree::Str(version())),
                (key_id(), JsonTree::Number(decimal(id as nat))),
            ] + optional_entry(key_result(), result) + optional_entry(
                key_error(),
                match error {
                    Some(e) => Some(error_tree(e)),
                    None => None,
                },
            ),
        ),
        Envelope::Notification { method, params } => JsonTree::Object(
            seq![(key_jsonrpc(), JsonTree::Str(version())), (key_method(), JsonTree::Str(method))]
                + params_entry(params),
        ),
    }
}

/// The `u64` that a JSON number stands for, when it is one.
pub open spec fn u64_member(t: Option<JsonTree>) -> Option<u64> {
    match t {
        Some(JsonTree::Number(s)) => if exists|v: u64| s == decimal(v as nat) {
            Some(choose|v: u64| s == decimal(v as nat))
        } else {
            None
        },
        _ => None,
    }
}

/// The `i32` that a JSON number stands for, when it is one.
pub open spec fn i32_member(t: Option<JsonTree>) -> Option<i32> {
    match t {
        Some(JsonTree::Number(s)) => if exists|v: i32| s == signed_decimal(v as int) {
            Some(choose|v: i32| s == signed_decimal(v as int))
        } else {
            None
        },
        _ => None,
    }
}

/// The error object that `t` holds, if it is one.
pub open spec fn error_of(t: JsonTree) -> Option<ErrorModel> {
    match (i32_member(member(t, key_code())), member(t, key_message())) {
        (Some(code), Some(JsonTree::Str(message))) => Some(
            ErrorModel { code, message, data: member(t, key_data()) },
        ),
        _ => None,
    }
}

/// The params member, null when absent.
pub open spec fn params_of(t: JsonTree) -> JsonTree {
    match member(t, key_params()) {
        Some(p) => p,
        None => JsonTree::Null,
    }
}

/// The message that a JSON value carries, told apart by the members it has:
/// a method and an identifier make a request, a method alone a notification,
/// an identifier with exactly one of result and error a response.
pub open spec fn classify(t: JsonTree) -> Option<Envelope> {
    if member(t, key_jsonrpc()) != Some(JsonTree::Str(version())) {
        None
    } else {
        match member(t, key_method()) {
            Some(JsonTree::Str(method)) => match member(t, key_id()) {
                None => Some(Envelope::Notification { method, params: params_of(t) }),
                Some(idt) => match u64_member(Some(idt)) {
                    Some(id) => Some(Envelope::Request { id, method, params: params_of(t) }),
                    None => None,
                },
            },
            Some(_) => None,
            None => match u64_member(member(t, key_id())) {
                Some(id) => match (member(t, key_result()), member(t, key_error())) {
                    (Some(r), None) => Some(Envelope::Response { id, result: Some(r), error: None }),
                    (None, Some(e)) => match error_of(e) {
                        Some(em) => Some(Envelope::Response { id, result: None, error: Some(em) }),
                        None => None,
                    },
                    _ => None,
                },
                None => None,
            },
        }
    }
}

proof fn lemma_u64_member(v: u64)
    ensures
        u64_member(Some(JsonTree::Number(decimal(v as nat)))) == Some(v),
{
    let s = decimal(v as nat);
    assert(exists|w: u64| s == decimal(w as nat));
    let w = choose|w: u64| s == decimal(w as nat);
    lemma_decimal_injective(v as nat, w as nat);
}

proof fn lemma_i32_member(v: i32)
    ensures
        i32_member(Some(JsonTree::Number(signed_decimal(v as int)))) == Some(v),
{
    let s = signed_decimal(v as int);
    assert(exists|w: i32| s == signed_decimal(w as int));
    let w = choose|w: i32| s == signed_decimal(w as int);
    lemma_decimal(((-v) as int) as nat);
    lemma_decimal(((-w) as int) as nat);
    lemma_decimal(v as nat);
    lemma_decimal(w as nat);
    if v < 0 && w < 0 {
        assert(decimal((-v) as nat) =~= s.subrange(1, s.len() as int));
        assert(decimal((-w) as nat) =~= s.subrange(1, s.len() as int));
        lemma_decimal_injective((-v) as nat, (-w) as nat);
    } else if v >= 0 && w >= 0 {
        lemma_decimal_injective(v as nat, w as nat);
    } else if v < 0 {
        assert(s[0] == '-');
        assert(is_digit(decimal(w as nat)[0]));
    } else {
        assert(s[0] == '-');
        assert(is_digit(decimal(v as nat)[0]));
    }
}

/// Reading back the JSON object that carries a well-formed message gives the
/// same message.
pub proof fn lemma_envelope_round_trip(m: Envelope)
    requires
        well_formed(m),
    ensures
        classify(envelope_tree(m)) == Some(m),
{
    reveal_with_fuel(lookup, 6);
    let t = envelope_tree(m);
    match m {
        Envelope::Request { id, method, params } => {
            lemma_u64_member(id);
            let es = t->Object_0;
            assert(member(t, key_jsonrpc()) == Some(JsonTree::Str(version())));
            assert(member(t, key_method()) == Some(JsonTree::Str(method)));
            assert(member(t, key_id()) == Some(JsonTree::Number(decimal(id as nat))));
            assert(params_of(t) == params);
        },
        Envelope::Response { id, result, error } => {
            lemma_u64_member(id);
            assert(member(t, key_jsonrpc()) == Some(JsonTree::Str(version())));
            assert(member(t, key_method()) is None);
            assert(member(t, key_id()) == Some(JsonTree::Number(decimal(id as nat))));
            match error {
                Some(e) => {
                    lemma_i32_member(e.code);
                    let et = error_tree(e);
                    assert(member(t, key_error()) == Some(et));
                    assert(member(t, key_result()) is None);
                    assert(member(et, key_code()) == Some(
                        JsonTree::Number(signed_decimal(e.code as int)),
                    ));
                    assert(member(et, key_message()) == Some(JsonTree::Str(e.message)));
                    assert(member(et, key_data()) == e.data);
                    assert(error_of(et) == Some(e));
                },
                None => {
                    assert(member(t, key_error()) is None);
                    assert(member(t, key_result()) == result);
                },
            }
        },
        Envelope::Notification { method, params } => {
            assert(member(t, key_jsonrpc()) == Some(JsonTree::Str(version())));
            assert(member(t, key_method()) == Some(JsonTree::Str(method)));
            assert(member(t, key_id()) is None);
            assert(params_of(t) == params);
        },
    }
}

impl Request {
    /// A request for `method` with the next identifier from `ids`.
    pub fn new(ids: &mut RequestIds, method: String, params: Json) -> (r: Request)
        requires
            old(ids).upcoming() < u64::MAX,
        ensures
            r.id == old(ids).upcoming(),
            final(ids).upcoming() == r.id + 1,
            r.method == method,
            r.params == params,
    {
        let id = next_id(ids);
        Request { id, method, params }
    }
}

impl Response {
    /// A successful response: `result` set, `error` absent.
    pub fn ok(id: u64, result: Json) -> (r: Response)
        ensures
            r.id == id,
            r.result == Some(result),
            r.error is None,
    {
        Response { id, result: Some(result), error: None }
    }

    /// A failed response: `error` set with `code` and `message`, `result`
    /// absent.
    pub fn err(id: u64, code: i32, message: String) -> (r: Response)
        ensures
            r.id == id,
            r.result is None,
            r.error matches Some(e) && e.code == code && e.message == message && e.data is None,
    {
        Response { id, result: None, error: Some(RpcError { code, message, data: None }) }
    }
}

impl Notification {
    pub fn new(method: String, params: Json) -> (r: Notification)
        ensures
            r.method == method,
            r.params == params,
    {
        Notification { method, params }
    }
}

/// The member names and the protocol tag, as written in the source.
proof fn lemma_literals()
    ensures
        "jsonrpc"@ == key_jsonrpc(),
        "id"@ == key_id(),
        "method"@ == key_method(),
        "params"@ == key_params(),
        "result"@ == key_result(),
        "error"@ == key_error(),
        "code"@ == key_code(),
        "message"@ == key_message(),
        "data"@ == key_data(),
        "2.0"@ == version(),
{
    reveal_strlit("jsonrpc");
    assert("jsonrpc"@ =~= key_jsonrpc());
    reveal_strlit("id");
    assert("id"@ =~= key_id());
    reveal_strlit("method");
    assert("method"@ =~= key_method());
    reveal_strlit("params");
    assert("params"@ =~= key_params());
    reveal_strlit("result");
    assert("result"@ =~= key_result());
    reveal_strlit("error");
    assert("error"@ =~= key_error());
    reveal_strlit("code");
    assert("code"@ =~= key_code());
    reveal_strlit("message");
    assert("message"@ =~= key_message());
    reveal_strlit("data");
    assert("data"@ =~= key_data());
    reveal_strlit("2.0");
    assert("2.0"@ =~= version());
}

/// An object entry whose key is the text `key`.
fn entry(key: &str, value: Json) -> (r: (String, Json))
    ensures
        r.0@ == key@,
        r.1 == value,
{
    (key.to_owned(), value)
}

fn number_entry(key: &str, n: u64) -> (r: (String, Json))
    ensures
        r.0@ == key@,
        r.1@ == JsonTree::Number(decimal(n as nat)),
{
    (key.to_owned(), Json::Number(u64_text(n)))
}

fn version_entry() -> (r: (String, Json))
    ensures
        r.0@ == key_jsonrpc(),
        r.1@ == JsonTree::Str(version()),
{
    proof {
        lemma_literals();
    }
    ("jsonrpc".to_owned(), Json::Str("2.0".to_owned()))
}

/// Appends the params entry unless the params are null.
fn push_params(entries: &mut Vec<(String, Json)>, params: Json)
    ensures
        final(entries)@.len() == old(entries)@.len() + params_entry(params@).len(),
        forall|i: int| 0 <= i < old(entries)@.len() ==> #[trigger] final(entries)@[i] == old(entries)@[i],
        !(params@ is Null) ==> final(entries)@.last().0@ == key_params() && final(entries)@.last().1
            == params,
{
    proof {
        lemma_literals();
    }
    match params {
        Json::Null => {},
        _ => {
            entries.push(entry("params", params));
        },
    }
}

impl RpcError {
    /// The JSON object that carries this error.
    pub fn into_json(self) -> (r: Json)
        ensures
            r@ == error_tree(self@),
    {
        proof {
        lemma_literals();
    }
        let ghost m = self@;
        let mut es: Vec<(String, Json)> = Vec::new();
        es.push(("code".to_owned(), Json::Number(i32_text(self.code))));
        es.push(entry("message", Json::Str(self.message)));
        match self.data {
            Some(d) => {
                es.push(entry("data", d));
            },
            None => {},
        }
        let r = Json::Object(es);
        proof {
            let t = r@->Object_0;
            let e = error_tree(m)->Object_0;
            assert(t == entries_tree(es@));
            assert(t.len() == e.len());
            assert(t[0] == e[0]);
            assert(t[1] == e[1]);
            assert(t =~= e);
        }
        r
    }
}

impl Message {
    /// The JSON object that carries this message.
    pub fn into_json(self) -> (r: Json)
        ensures
            r@ == envelope_tree(self@),
    {
        let ghost m = self@;
        proof {
        lemma_literals();
    }
        let mut es: Vec<(String, Json)> = Vec::new();
        es.push(version_entry());
        match self {
            Message::Request(req) => {
                es.push(number_entry("id", req.id));
                es.push(entry("method", Json::Str(req.method)));
                push_params(&mut es, req.params);
            },
            Message::Response(resp) => {
                es.push(number_entry("id", resp.id));
                match resp.result {
                    Some(v) => {
                        es.push(entry("result", v));
                    },
                    None => {},
                }
                match resp.error {
                    Some(e) => {
                        es.push(entry("error", e.into_json()));
                    },
                    None => {},
                }
            },
            Message::Notification(n) => {
                es.push(entry("method", Json::Str(n.method)));
                push_params(&mut es, n.params);
            },
        }
        let r = Json::Object(es);
        proof {
            let t = r@->Object_0;
            let e = envelope_tree(m)->Object_0;
            assert(t == entries_tree(es@));
            assert(t.len() == e.len());
            assert(forall|i: int| 0 <= i < t.len() ==> t[i] == e[i]);
            assert(t =~= e);
        }
        r
    }
}

/// The `u64` that `j` stands for, when it is a number that is one.
fn u64_value(j: Option<&Json>) -> (r: Option<u64>)
    ensures
        r == u64_member(
            match j {
                Some(v) => Some(v@),
                None => None,
            },
        ),
{
    match j {
        Some(Json::Number(t)) => {
            let r = parse_u64(t.as_str());
            proof {
                if let Some(v) = r {
                    lemma_u64_member(v);
                }
            }
            r
        },
        _ => None,
    }
}

/// The `i32` that `j` stands for, when it is a number that is one.
fn i32_value(j: Option<&Json>) -> (r: Option<i32>)
    ensures
        r == i32_member(
            match j {
                Some(v) => Some(v@),
                None => None,
            },
        ),
{
    match j {
        Some(Json::Number(t)) => {
            let r = parse_i32(t.as_str());
            proof {
                if let Some(v) = r {
                    lemma_i32_member(v);
                }
            }
            r
        },
        _ => None,
    }
}

/// Whether `j` is the string `expected`.
fn is_text(j: Option<&Json>, expected: &str) -> (r: bool)
    ensures
        r == (match j {
            Some(v) => v@ == JsonTree::Str(expected@),
            None => false,
        }),
{
    match j {
        Some(Json::Str(s)) => *s == expected.to_owned(),
        _ => false,
    }
}

fn params_value(j: &Json) -> (r: Json)
    ensures
        r@ == params_of(j@),
{
    proof {
        lemma_literals();
    }
    match j.get("params") {
        Some(p) => p.deep_copy(),
        None => Json::Null,
    }
}

fn error_value(j: &Json) -> (r: Option<RpcError>)
    ensures
        r matches Some(e) ==> error_of(j@) == Some(e@),
        r is None ==> error_of(j@) is None,
{
    proof {
        lemma_literals();
    }
    let code = i32_value(j.get("code"));
    match (code, j.get("message")) {
        (Some(code), Some(Json::Str(message))) => {
            let data = match j.get("data") {
                Some(d) => Some(d.deep_copy()),
                None => None,
            };
            Some(RpcError { code, message: message.clone(), data })
        },
        _ => None,
    }
}

impl Message {
    /// The message that `j` carries, if it is one.
    pub fn from_json(j: &Json) -> (r: Option<Message>)
        ensures
            r matches Some(m) ==> classify(j@) == Some(m@),
            r is None ==> classify(j@) is None,
    {
        proof {
        lemma_literals();
    }
        if !is_text(j.get("jsonrpc"), "2.0") {
            return None;
        }
        let id = j.get("id");
        match j.get("method") {
            Some(Json::Str(method)) => {
                match id {
                    None => Some(
                        Message::Notification(
                            Notification { method: method.clone(), params: params_value(j) },
                        ),
                    ),
                    Some(_) => match u64_value(id) {
                        Some(n) => Some(
                            Message::Request(
                                Request { id: n, method: method.clone(), params: params_value(j) },
                            ),
                        ),
                        None => None,
                    },
                }
            },
            Some(_) => None,
            None => match u64_value(id) {
                Some(n) => match (j.get("result"), j.get("error")) {
                    (Some(v), None) => Some(
                        Message::Response(
                            Response { id: n, result: Some(v.deep_copy()), error: None },
                        ),
                    ),
                    (None, Some(e)) => match error_value(e) {
                        Some(err) => Some(
                            Message::Response(Response { id: n, result: None, error: Some(err) }),
                        ),
                        None => None,
                    },
                    _ => None,
                },
                None => None,
            },
        }
    }
}

/// The frame that carries `m` as JSON text, unless the text is larger than
/// a frame may be.
pub fn encode_message(m: Message) -> (r: Result<Vec<u8>, FrameError>)
    ensures
        json_text(envelope_tree(m@)).len() <= MAX_FRAME_LEN ==> (r matches Ok(f) && f@ == frame_of(
            json_text(envelope_tree(m@)),
        )),
        json_text(envelope_tree(m@)).len() > MAX_FRAME_LEN ==> r is Err,
{
    let j = m.into_json();
    let bytes = render_json(&j);
    encode_frame(bytes.as_slice())
}

/// The message that a frame payload carries, if it is JSON text of one.
pub fn decode_message(payload: &[u8]) -> (r: Option<Message>)
    ensures
        r matches Some(m) ==> (json_parse(payload@) matches Some(t) && classify(t) == Some(m@)),
        r is None ==> (json_parse(payload@) matches Some(t) ==> classify(t) is None),
{
    match parse_json(payload) {
        Some(j) => Message::from_json(&j),
        None => None,
    }
}

/// A message read back from the frame of its JSON text is the message that
/// was sent, whatever bytes follow the frame, provided serde_json reads its
/// own text back as the tree it wrote.
pub proof fn lemma_message_round_trip(m: Envelope, rest: Seq<u8>)
    requires
        well_formed(m),
        json_text(envelope_tree(m)).len() <= MAX_FRAME_LEN,
        json_parse(json_text(envelope_tree(m))) == Some(envelope_tree(m)),
    ensures
        ({
            let text = json_text(envelope_tree(m));
            &&& crate::frame::read_outcome(frame_of(text) + rest) == Some(
                Some((text, (4 + text.len()) as nat)),
            )
            &&& (json_parse(text) matches Some(t) && classify(t) == Some(m))
        }),
{
    let text = json_text(envelope_tree(m));
    crate::frame::lemma_frame_round_trip(text, rest);
    lemma_envelope_round_trip(m);
}

} // verus!
