use zedra_host::client::{Inbound, RpcClient};
use zedra_host::frame::{decode_frame, encode_frame, FrameRead};
use zedra_host::fs::{sort_listing, DirEntry};
use zedra_host::json::Json;
use zedra_host::protocol::{decode_message, encode_message, Message, Notification, Response};
use zedra_host::lsp::{check_command, diagnostics_of};
use zedra_host::terminal::shell_command;

fn payload(frame: &[u8]) -> Vec<u8> {
    match decode_frame(frame) {
        Ok(FrameRead::Complete(p, _)) => p,
        _ => panic!("expected a frame"),
    }
}

fn response_payload(r: Response) -> Vec<u8> {
    payload(&encode_message(Message::Response(r)).unwrap())
}

#[test]
fn responses_reach_their_callers_in_any_order() {
    let mut client: RpcClient<&str> = RpcClient::new();
    let (a, frame_a) = client.call("fs/read".into(), Json::Null, "first").unwrap();
    let (b, _) = client.call("fs/list".into(), Json::Null, "second").unwrap();
    let (c, _) = client.call("git/log".into(), Json::Null, "third").unwrap();
    assert_eq!((a, b, c), (1, 2, 3));
    match decode_message(&payload(&frame_a)) {
        Some(Message::Request(r)) => assert_eq!((r.id, r.method.as_str()), (1, "fs/read")),
        _ => panic!("expected the request"),
    }
    match client.on_payload(&response_payload(Response::ok(c, Json::Bool(true)))) {
        Inbound::Answered(w, r) => {
            assert_eq!(w, "third");
            assert_eq!(r.id, 3);
            assert_eq!(r.result, Some(Json::Bool(true)));
        }
        _ => panic!("expected an answer"),
    }
    match client.on_payload(&response_payload(Response::err(a, -32603, "no".into()))) {
        Inbound::Answered(w, r) => {
            assert_eq!(w, "first");
            assert!(r.result.is_none());
            assert_eq!(r.error.unwrap().code, -32603);
        }
        _ => panic!("expected an answer"),
    }
    assert!(matches!(client.on_payload(&response_payload(Response::ok(a, Json::Null))), Inbound::Ignored));
    match client.on_payload(&response_payload(Response::ok(b, Json::Null))) {
        Inbound::Answered(w, _) => assert_eq!(w, "second"),
        _ => panic!("expected an answer"),
    }
}

#[test]
fn client_sees_notifications_and_broken_payloads() {
    let mut client: RpcClient<u8> = RpcClient::new();
    let n = Notification::new("terminal/output".into(), Json::Str("x".into()));
    let p = payload(&encode_message(Message::Notification(n)).unwrap());
    match client.on_payload(&p) {
        Inbound::Notified(n) => assert_eq!(n.method, "terminal/output"),
        _ => panic!("expected a notification"),
    }
    assert!(matches!(client.on_payload(b"{"), Inbound::Broken));
    let frame = client.notify("ai/stream".into(), Json::Null).unwrap();
    assert!(matches!(decode_message(&payload(&frame)), Some(Message::Notification(_))));
    assert_eq!(encode_frame(b"").unwrap(), vec![0, 0, 0, 0]);
}

fn entry(name: &str, is_dir: bool) -> DirEntry {
    DirEntry { name: name.to_string(), path: format!("/w/{}", name), is_dir, size: 0 }
}

#[test]
fn listings_put_directories_first_then_names() {
    let sorted = sort_listing(vec![
        entry("b.txt", false),
        entry("src", true),
        entry("a.txt", false),
        entry("Zed", false),
        entry("docs", true),
        entry("a", false),
    ]);
    let names: Vec<&str> = sorted.iter().map(|e| e.name.as_str()).collect();
    assert_eq!(names, vec!["docs", "src", "Zed", "a", "a.txt", "b.txt"]);
    assert!(sort_listing(vec![]).is_empty());
}

#[test]
fn shell_falls_back_to_bash() {
    let c = shell_command(None);
    assert_eq!(c.program, "/bin/bash");
    assert_eq!(c.args, vec!["-l".to_string()]);
    assert_eq!(c.env[0], ("TERM".to_string(), "xterm-256color".to_string()));
    assert_eq!(c.env[1], ("COLORTERM".to_string(), "truecolor".to_string()));
    assert_eq!(shell_command(Some("/bin/zsh".into())).program, "/bin/zsh");
}

#[test]
fn checkers_follow_the_extension() {
    let c = check_command("rs", "/w/a.rs").unwrap();
    assert_eq!((c.program.as_str(), c.args.clone()), ("cargo", vec!["check".to_string(), "--message-format=json".to_string()]));
    assert_eq!(check_command("tsx", "x").unwrap().program, "npx");
    let c = check_command("py", "/w/a.py").unwrap();
    assert_eq!(c.args, vec!["-m".to_string(), "py_compile".to_string(), "/w/a.py".to_string()]);
    assert!(check_command("md", "README.md").is_none());
    assert!(diagnostics_of("", true).is_empty());
    let d = diagnostics_of("e1\n\ne2\n", false);
    assert_eq!(d.len(), 2);
    assert_eq!((d[1].message.as_str(), d[1].severity.as_str()), ("e2", "error"));
    let many: String = (0..15).map(|i| format!("line {}\n", i)).collect();
    assert_eq!(diagnostics_of(&many, true).len(), 10);
    assert_eq!(zedra_host::terminal::output_take(10000), 8192);
    assert_eq!(zedra_host::terminal::output_take(5), 5);
}
