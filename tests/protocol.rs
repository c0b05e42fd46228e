use zedra_host::frame::{decode_frame, encode_frame, frame_length, FrameError, FrameRead, MAX_FRAME_LEN};
use zedra_host::json::Json;
use zedra_host::methods::{FsEntry, GitStatusEntry, GitStatusResult};
use zedra_host::protocol::{
    decode_message, encode_message, next_id, Message, Notification, Request, RequestIds, Response,
    RpcError, INTERNAL_ERROR, METHOD_NOT_FOUND,
};

fn obj(entries: Vec<(&str, Json)>) -> Json {
    Json::Object(entries.into_iter().map(|(k, v)| (k.to_string(), v)).collect())
}

fn text(s: &str) -> Json {
    Json::Str(s.to_string())
}

fn payload_of(frame: &[u8]) -> Vec<u8> {
    match decode_frame(frame) {
        Ok(FrameRead::Complete(p, n)) => {
            assert_eq!(n, frame.len());
            p
        }
        _ => panic!("expected one whole frame"),
    }
}

fn wire_text(m: Message) -> String {
    let frame = encode_message(m).unwrap();
    String::from_utf8(payload_of(&frame)).unwrap()
}

fn round_trip(m: Message) -> Message {
    let frame = encode_message(m).unwrap();
    decode_message(&payload_of(&frame)).expect("message reads back")
}

#[test]
fn request_serializes() {
    let mut ids = RequestIds::new();
    let req = Request::new(&mut ids, "fs/list".to_string(), obj(vec![("path", text("/tmp"))]));
    let json = wire_text(Message::Request(req));
    assert!(json.contains("\"jsonrpc\":\"2.0\""));
    assert!(json.contains("\"method\":\"fs/list\""));
}

#[test]
fn response_ok_roundtrip() {
    let resp = Response::ok(1, obj(vec![("status", text("ok"))]));
    match round_trip(Message::Response(resp)) {
        Message::Response(parsed) => {
            assert_eq!(parsed.id, 1);
            assert!(parsed.error.is_none());
            assert!(parsed.result.is_some());
        }
        _ => panic!("expected a response"),
    }
}

#[test]
fn response_err_roundtrip() {
    let resp = Response::err(2, METHOD_NOT_FOUND, "not found".to_string());
    match round_trip(Message::Response(resp)) {
        Message::Response(parsed) => {
            assert_eq!(parsed.error.as_ref().unwrap().code, METHOD_NOT_FOUND);
        }
        _ => panic!("expected a response"),
    }
}

#[test]
fn notification_no_id() {
    let notif = Notification::new("terminal/output".to_string(), obj(vec![("data", text("hello"))]));
    let json = wire_text(Message::Notification(notif));
    assert!(!json.contains("\"id\""));
}

#[test]
fn message_envelope_request() {
    let mut ids = RequestIds::new();
    let req = Request::new(&mut ids, "fs/read".to_string(), obj(vec![]));
    let msg = round_trip(Message::Request(req));
    assert!(matches!(msg, Message::Request(_)));
}

#[test]
fn unique_ids() {
    let mut ids = RequestIds::new();
    let a = next_id(&mut ids);
    let b = next_id(&mut ids);
    assert_ne!(a, b);
}

#[test]
fn fs_entry_serde() {
    let entry = FsEntry {
        name: "main.rs".into(),
        path: "/src/main.rs".into(),
        is_dir: false,
        size: 1024,
    };
    let json = entry.to_json();
    assert_eq!(json.get("name"), Some(&text("main.rs")));
    assert_eq!(json.get("is_dir"), Some(&Json::Bool(false)));
    assert_eq!(json.get("size"), Some(&Json::Number("1024".to_string())));
}

#[test]
fn git_status_serde() {
    let status = GitStatusResult {
        branch: "main".into(),
        entries: vec![GitStatusEntry {
            path: "src/lib.rs".into(),
            status: "modified".into(),
        }],
    };
    let json = status.to_json();
    assert_eq!(json.get("branch"), Some(&text("main")));
    match json.get("entries") {
        Some(Json::Array(items)) => assert_eq!(items.len(), 1),
        _ => panic!("expected an entries array"),
    }
}

#[test]
fn ids_start_at_one_and_increase() {
    let mut ids = RequestIds::new();
    let mut last = 0;
    for expected in 1..=5u64 {
        let id = next_id(&mut ids);
        assert_eq!(id, expected);
        assert!(id > last);
        last = id;
    }
}

#[test]
fn request_round_trip_keeps_fields() {
    let mut ids = RequestIds::new();
    let params = obj(vec![("path", text("a.txt")), ("n", Json::Number("-3.5".into()))]);
    let req = Request::new(&mut ids, "fs/read".to_string(), params);
    match round_trip(Message::Request(req)) {
        Message::Request(r) => {
            assert_eq!(r.id, 1);
            assert_eq!(r.method, "fs/read");
            assert_eq!(r.params.get("path"), Some(&text("a.txt")));
            assert_eq!(r.params.get("n"), Some(&Json::Number("-3.5".into())));
        }
        _ => panic!("expected a request"),
    }
}

#[test]
fn request_with_null_params_round_trips() {
    let mut ids = RequestIds::new();
    let req = Request::new(&mut ids, "git/status".to_string(), Json::Null);
    let json = wire_text(Message::Request(Request::new(&mut ids, "x".into(), Json::Null)));
    assert!(!json.contains("params"));
    match round_trip(Message::Request(req)) {
        Message::Request(r) => assert_eq!(r.params, Json::Null),
        _ => panic!("expected a request"),
    }
}

#[test]
fn response_with_null_result_round_trips() {
    match round_trip(Message::Response(Response::ok(7, Json::Null))) {
        Message::Response(r) => {
            assert_eq!(r.id, 7);
            assert_eq!(r.result, Some(Json::Null));
            assert!(r.error.is_none());
        }
        _ => panic!("expected a response"),
    }
}

#[test]
fn error_with_data_round_trips() {
    let resp = Response {
        id: u64::MAX,
        result: None,
        error: Some(RpcError {
            code: INTERNAL_ERROR,
            message: "boom".into(),
            data: Some(obj(vec![("why", text("disk"))])),
        }),
    };
    match round_trip(Message::Response(resp)) {
        Message::Response(r) => {
            assert_eq!(r.id, u64::MAX);
            let e = r.error.unwrap();
            assert_eq!(e.code, -32603);
            assert_eq!(e.message, "boom");
            assert_eq!(e.data.unwrap().get("why"), Some(&text("disk")));
        }
        _ => panic!("expected a response"),
    }
}

#[test]
fn notification_round_trips() {
    let n = Notification::new("ai/stream".to_string(), obj(vec![("text", text("hi"))]));
    match round_trip(Message::Notification(n)) {
        Message::Notification(n) => {
            assert_eq!(n.method, "ai/stream");
            assert_eq!(n.params.get("text"), Some(&text("hi")));
        }
        _ => panic!("expected a notification"),
    }
}

#[test]
fn malformed_envelopes_are_refused() {
    assert!(decode_message(b"not json").is_none());
    assert!(decode_message(br#"{"jsonrpc":"1.0","id":1,"method":"x"}"#).is_none());
    assert!(decode_message(br#"{"jsonrpc":"2.0","id":-1,"method":"x"}"#).is_none());
    assert!(decode_message(br#"{"jsonrpc":"2.0","id":1}"#).is_none());
    assert!(decode_message(br#"{"jsonrpc":"2.0","id":1,"result":1,"error":{"code":1,"message":"m"}}"#).is_none());
    assert!(decode_message(br#"{"jsonrpc":"2.0","id":18446744073709551616,"method":"x"}"#).is_none());
    assert!(matches!(
        decode_message(br#"{"jsonrpc":"2.0","id":18446744073709551615,"method":"x"}"#),
        Some(Message::Request(r)) if r.id == u64::MAX
    ));
}

#[test]
fn frame_header_is_big_endian_length() {
    let frame = encode_frame(b"abc").unwrap();
    assert_eq!(frame, vec![0, 0, 0, 3, b'a', b'b', b'c']);
    assert_eq!(frame_length([0, 0, 1, 2]), Ok(258));
}

#[test]
fn frame_cap_is_sixteen_mebibytes() {
    assert_eq!(MAX_FRAME_LEN, 16 * 1024 * 1024);
    assert_eq!(frame_length([1, 0, 0, 0]), Ok(16 * 1024 * 1024));
    assert_eq!(frame_length([1, 0, 0, 1]), Err(FrameError::TooLarge(16 * 1024 * 1024 + 1)));
    assert!(matches!(decode_frame(&[1, 0, 0, 1, 0]), Err(FrameError::TooLarge(16777217))));
}

#[test]
fn frames_wait_for_all_their_bytes() {
    assert!(matches!(decode_frame(&[0, 0]), Ok(FrameRead::Incomplete)));
    assert!(matches!(decode_frame(&[0, 0, 0, 2, 9]), Ok(FrameRead::Incomplete)));
    match decode_frame(&[0, 0, 0, 2, 9, 8, 7]) {
        Ok(FrameRead::Complete(p, n)) => {
            assert_eq!(p, vec![9, 8]);
            assert_eq!(n, 6);
        }
        _ => panic!("expected a frame"),
    }
}

#[test]
fn oversized_payload_is_not_framed() {
    let big = vec![0u8; MAX_FRAME_LEN + 1];
    assert_eq!(encode_frame(&big), Err(FrameError::TooLarge(MAX_FRAME_LEN as u64 + 1)));
}
