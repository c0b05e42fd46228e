use zedra_host::frame::{decode_frame, FrameRead};
use zedra_host::json::Json;
use zedra_host::protocol::{
    decode_message, encode_message, Message, Notification, Request, RequestIds, Response,
};
use zedra_host::server::{Connection, Phase, RpcServer, Step};

fn obj(entries: Vec<(&str, Json)>) -> Json {
    Json::Object(entries.into_iter().map(|(k, v)| (k.to_string(), v)).collect())
}

fn frame_of(m: Message) -> Vec<u8> {
    encode_message(m).unwrap()
}

fn header(frame: &[u8]) -> [u8; 4] {
    [frame[0], frame[1], frame[2], frame[3]]
}

fn reply_of(step: Step) -> Response {
    match step {
        Step::Send(bytes) => match decode_frame(&bytes) {
            Ok(FrameRead::Complete(p, _)) => match decode_message(&p) {
                Some(Message::Response(r)) => r,
                _ => panic!("expected a response"),
            },
            _ => panic!("expected a frame"),
        },
        _ => panic!("expected a reply to send"),
    }
}

/// Feeds one whole frame to the connection and returns the step it asks for.
fn feed<H>(conn: &mut Connection, server: &RpcServer<H>, frame: &[u8]) -> Step {
    match conn.on_header(header(frame)) {
        Step::ReadPayload(n) => {
            assert_eq!(n, frame.len() - 4);
            conn.on_payload(server, &frame[4..])
        }
        other => other,
    }
}

fn request(ids: &mut RequestIds, method: &str, params: Json) -> Vec<u8> {
    frame_of(Message::Request(Request::new(ids, method.to_string(), params)))
}

#[test]
fn client_method_not_found() {
    let server: RpcServer<u8> = RpcServer::new();
    let mut conn = Connection::new();
    let mut ids = RequestIds::new();
    let step = feed(&mut conn, &server, &request(&mut ids, "nonexistent", obj(vec![])));
    let resp = reply_of(step);
    assert!(resp.error.is_some());
    assert_eq!(resp.error.unwrap().code, zedra_host::protocol::METHOD_NOT_FOUND);
}

#[test]
fn unknown_method_reply_names_the_method() {
    let server: RpcServer<u8> = RpcServer::new();
    let mut conn = Connection::new();
    let mut ids = RequestIds::new();
    let resp = reply_of(feed(&mut conn, &server, &request(&mut ids, "does/not/exist", obj(vec![]))));
    assert_eq!(resp.id, 1);
    assert!(resp.result.is_none());
    let e = resp.error.unwrap();
    assert_eq!(e.code, -32601);
    assert_eq!(e.message, "unknown method: does/not/exist");
    assert_eq!(conn.current_phase(), Phase::AwaitHeader);
}

#[test]
fn client_server_call() {
    let mut server: RpcServer<&str> = RpcServer::new();
    server.register("echo".to_string(), "echo handler");
    let mut conn = Connection::new();
    let mut ids = RequestIds::new();
    let params = obj(vec![("hello", Json::Str("world".into()))]);
    let step = feed(&mut conn, &server, &request(&mut ids, "echo", params));
    let (slot, params) = match step {
        Step::Invoke { slot, params } => (slot, params),
        _ => panic!("expected the handler to run"),
    };
    assert_eq!(*server.handler_at(slot), "echo handler");
    assert_eq!(conn.current_phase(), Phase::AwaitHandler(1));
    let resp = reply_of(conn.on_handler_result(Ok(params)));
    assert!(resp.error.is_none());
    assert_eq!(resp.result.unwrap(), obj(vec![("hello", Json::Str("world".into()))]));
}

#[test]
fn handler_failure_is_internal_error() {
    let mut server: RpcServer<u8> = RpcServer::new();
    server.register("fs/read".to_string(), 0);
    let mut conn = Connection::new();
    let mut ids = RequestIds::new();
    next_ids(&mut ids, 4);
    match feed(&mut conn, &server, &request(&mut ids, "fs/read", obj(vec![]))) {
        Step::Invoke { .. } => {}
        _ => panic!("expected the handler to run"),
    }
    let resp = reply_of(conn.on_handler_result(Err("missing field `path`".to_string())));
    assert_eq!(resp.id, 5);
    let e = resp.error.unwrap();
    assert_eq!(e.code, -32603);
    assert!(e.message.contains("path"));
}

fn next_ids(ids: &mut RequestIds, n: usize) {
    for _ in 0..n {
        zedra_host::protocol::next_id(ids);
    }
}

#[test]
fn notification_gets_no_reply() {
    let mut server: RpcServer<u8> = RpcServer::new();
    server.register("terminal/output".to_string(), 0);
    let mut conn = Connection::new();
    let frame = frame_of(Message::Notification(Notification::new("terminal/output".into(), Json::Null)));
    assert!(matches!(feed(&mut conn, &server, &frame), Step::Notify { slot: 0, params: Json::Null }));
    assert_eq!(conn.current_phase(), Phase::AwaitHeader);
    let frame = frame_of(Message::Notification(Notification::new("ai/stream".into(), Json::Null)));
    assert!(matches!(feed(&mut conn, &server, &frame), Step::ReadHeader));
    assert_eq!(conn.current_phase(), Phase::AwaitHeader);
}

#[test]
fn stray_response_is_ignored() {
    let server: RpcServer<u8> = RpcServer::new();
    let mut conn = Connection::new();
    let frame = frame_of(Message::Response(Response::ok(3, Json::Null)));
    assert!(matches!(feed(&mut conn, &server, &frame), Step::ReadHeader));
}

#[test]
fn framed_roundtrip() {
    let mut ids = RequestIds::new();
    let frame = request(&mut ids, "test", obj(vec![("key", Json::Str("value".into()))]));
    match decode_frame(&frame) {
        Ok(FrameRead::Complete(p, _)) => match decode_message(&p) {
            Some(Message::Request(r)) => assert_eq!(r.method, "test"),
            _ => panic!("expected request"),
        },
        _ => panic!("expected a frame"),
    }
}

#[test]
fn oversized_frame_closes_connection() {
    let server: RpcServer<u8> = RpcServer::new();
    let mut conn = Connection::new();
    let too_big = (16u32 * 1024 * 1024 + 1).to_be_bytes();
    assert!(matches!(conn.on_header(too_big), Step::Close));
    assert_eq!(conn.current_phase(), Phase::Closed);
    assert!(matches!(conn.on_payload(&server, b"{}"), Step::Close));
}

#[test]
fn bad_json_closes_connection() {
    let server: RpcServer<u8> = RpcServer::new();
    let mut conn = Connection::new();
    assert!(matches!(conn.on_header([0, 0, 0, 3]), Step::ReadPayload(3)));
    assert!(matches!(conn.on_payload(&server, b"{{{"), Step::Close));
    assert_eq!(conn.current_phase(), Phase::Closed);
}

#[test]
fn framing_failure_leaves_other_connection_alone() {
    let mut server: RpcServer<u8> = RpcServer::new();
    server.register("echo".to_string(), 7);
    let mut a = Connection::new();
    let mut b = Connection::new();
    let mut ids = RequestIds::new();
    assert!(matches!(a.on_header([2, 0, 0, 0]), Step::Close));
    let step = feed(&mut b, &server, &request(&mut ids, "echo", Json::Null));
    assert!(matches!(step, Step::Invoke { slot: 0, .. }));
    let resp = reply_of(b.on_handler_result(Ok(Json::Bool(true))));
    assert_eq!(resp.id, 1);
    assert_eq!(resp.result, Some(Json::Bool(true)));
    assert_eq!(a.current_phase(), Phase::Closed);
}

#[test]
fn replies_follow_request_order() {
    let mut server: RpcServer<u8> = RpcServer::new();
    server.register("a".to_string(), 0);
    let mut conn = Connection::new();
    let mut ids = RequestIds::new();
    let frames = vec![
        request(&mut ids, "a", Json::Null),
        request(&mut ids, "missing", Json::Null),
        request(&mut ids, "a", Json::Null),
    ];
    let mut seen = Vec::new();
    for f in &frames {
        let resp = match feed(&mut conn, &server, f) {
            Step::Invoke { .. } => reply_of(conn.on_handler_result(Ok(Json::Null))),
            other => reply_of(other),
        };
        seen.push(resp.id);
    }
    assert_eq!(seen, vec![1, 2, 3]);
}

#[test]
fn register_replaces_handler() {
    let mut server: RpcServer<u8> = RpcServer::new();
    server.register("m".to_string(), 1);
    server.register("m".to_string(), 2);
    server.register("n".to_string(), 3);
    let slot = server.find(&"m".to_string()).unwrap();
    assert_eq!(*server.handler_at(slot), 2);
    assert!(server.find(&"x".to_string()).is_none());
}

#[test]
fn out_of_order_events_close() {
    let mut conn = Connection::new();
    assert!(matches!(conn.on_handler_result(Ok(Json::Null)), Step::Close));
    let mut conn = Connection::new();
    assert!(matches!(conn.on_failure(), Step::Close));
    assert_eq!(conn.current_phase(), Phase::Closed);
}
