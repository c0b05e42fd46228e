use zedra_host::json::Json;
use zedra_host::methods::{FsReadParams, TermCreateParams, TermResizeParams};
use zedra_host::terminal::{
    find_terminal, format_terminal_id, parse_terminal_id, terminal_close, terminal_create,
    terminal_input, terminal_output, TerminalManager,
};

fn obj(entries: Vec<(&str, Json)>) -> Json {
    Json::Object(entries.into_iter().map(|(k, v)| (k.to_string(), v)).collect())
}

fn s(t: &str) -> Json {
    Json::Str(t.to_string())
}

fn num(n: u64) -> Json {
    Json::Number(n.to_string())
}

fn id_of(result: &Json) -> String {
    match result.get("id") {
        Some(Json::Str(id)) => id.clone(),
        _ => panic!("expected an id"),
    }
}

#[test]
fn rpc_terminal_lifecycle() {
    let mut terms: TerminalManager<(u16, u16)> = TerminalManager::new();
    let p = TermCreateParams::from_json(&obj(vec![("cols", num(80)), ("rows", num(24))])).unwrap();
    let created = terminal_create(&mut terms, (p.cols, p.rows)).unwrap();
    let id = id_of(&created);
    assert!(id.starts_with("term-"));

    let r = TermResizeParams::from_json(&obj(vec![("id", s(&id)), ("cols", num(120)), ("rows", num(40))])).unwrap();
    assert_eq!((r.cols, r.rows), (120, 40));
    assert!(find_terminal(&terms, &r.id).is_ok());

    let closed = terminal_close(&mut terms, &obj(vec![("id", s(&id))]));
    assert!(closed.is_ok());
}

#[test]
fn terminal_lifecycle_scenario() {
    let mut terms: TerminalManager<u32> = TerminalManager::new();
    let created = terminal_create(&mut terms, 7).unwrap();
    assert_eq!(created, obj(vec![("id", s("term-1"))]));
    assert_eq!(*find_terminal(&terms, "term-1").unwrap(), 7);
    let ok = terminal_close(&mut terms, &obj(vec![("id", s("term-1"))])).unwrap();
    assert_eq!(ok, obj(vec![("ok", Json::Bool(true))]));
    assert_eq!(find_terminal(&terms, "term-1").err().unwrap(), "unknown terminal: term-1");
}

#[test]
fn created_identifiers_are_distinct() {
    let mut terms: TerminalManager<usize> = TerminalManager::new();
    let mut ids = Vec::new();
    for i in 0..50 {
        ids.push(id_of(&terminal_create(&mut terms, i).unwrap()));
    }
    for i in 0..ids.len() {
        for j in i + 1..ids.len() {
            assert_ne!(ids[i], ids[j]);
        }
    }
    assert_eq!(ids[0], "term-1");
    assert_eq!(ids[49], "term-50");
    assert_eq!(terms.len(), 50);
}

#[test]
fn identifiers_are_never_reused() {
    let mut terms: TerminalManager<u8> = TerminalManager::new();
    let first = id_of(&terminal_create(&mut terms, 1).unwrap());
    terminal_close(&mut terms, &obj(vec![("id", s(&first))])).unwrap();
    let second = id_of(&terminal_create(&mut terms, 2).unwrap());
    assert_eq!(first, "term-1");
    assert_eq!(second, "term-2");
    assert!(find_terminal(&terms, &first).is_err());
}

#[test]
fn missing_terminals_are_errors() {
    let mut terms: TerminalManager<u8> = TerminalManager::new();
    terminal_create(&mut terms, 1).unwrap();
    assert!(find_terminal(&terms, "term-2").is_err());
    assert!(find_terminal(&terms, "term-01").is_err());
    assert!(find_terminal(&terms, "bogus").is_err());
    assert!(find_terminal(&terms, "term-").is_err());
    assert!(find_terminal(&terms, "term-1").is_ok());
}

#[test]
fn close_twice_succeeds_both_times() {
    let mut terms: TerminalManager<u8> = TerminalManager::new();
    terminal_create(&mut terms, 1).unwrap();
    let params = obj(vec![("id", s("term-1"))]);
    assert_eq!(terminal_close(&mut terms, &params).unwrap(), obj(vec![("ok", Json::Bool(true))]));
    assert_eq!(terminal_close(&mut terms, &params).unwrap(), obj(vec![("ok", Json::Bool(true))]));
    assert_eq!(terms.len(), 0);
    let never = obj(vec![("id", s("term-99"))]);
    assert!(terminal_close(&mut terms, &never).is_ok());
}

#[test]
fn close_without_id_fails() {
    let mut terms: TerminalManager<u8> = TerminalManager::new();
    assert_eq!(terminal_close(&mut terms, &obj(vec![])).err().unwrap(), "missing field `id`");
}

#[test]
fn terminal_ids_format_and_parse() {
    assert_eq!(format_terminal_id(42), "term-42");
    assert_eq!(parse_terminal_id("term-42"), Some(42));
    assert_eq!(parse_terminal_id("term-042"), None);
    assert_eq!(parse_terminal_id("term-18446744073709551615"), Some(u64::MAX));
    assert_eq!(parse_terminal_id("term-18446744073709551616"), None);
    assert_eq!(parse_terminal_id("tern-1"), None);
}

#[test]
fn terminal_input_decodes_url_safe_base64() {
    let (id, bytes) = terminal_input(&obj(vec![("id", s("term-3")), ("data", s("ZWNobyBoaQo"))])).unwrap();
    assert_eq!(id, "term-3");
    assert_eq!(bytes, b"echo hi\n".to_vec());
    let (_, bytes) = terminal_input(&obj(vec![("id", s("term-3")), ("data", s("-_8"))])).unwrap();
    assert_eq!(bytes, vec![0xfb, 0xff]);
}

#[test]
fn terminal_input_rejects_standard_base64() {
    let err = terminal_input(&obj(vec![("id", s("term-3")), ("data", s("+/8="))])).err().unwrap();
    assert!(err.starts_with("bad base64: "));
}

#[test]
fn terminal_output_is_url_safe_base64() {
    assert_eq!(terminal_output(b"hi"), obj(vec![("output", s("aGk"))]));
    assert_eq!(terminal_output(&[0xfb, 0xff]), obj(vec![("output", s("-_8"))]));
    assert_eq!(terminal_output(b""), obj(vec![("output", s(""))]));
}

#[test]
fn missing_params_name_the_field() {
    let err = FsReadParams::from_json(&obj(vec![])).err().unwrap();
    assert_eq!(err, "missing field `path`");
    let err = FsReadParams::from_json(&obj(vec![("path", num(3))])).err().unwrap();
    assert_eq!(err, "invalid type for field `path`");
    let err = FsReadParams::from_json(&Json::Null).err().unwrap();
    assert_eq!(err, "params must be an object");
    assert_eq!(FsReadParams::from_json(&obj(vec![("path", s("t.txt"))])).unwrap().path, "t.txt");
}

#[test]
fn geometry_must_fit_sixteen_bits() {
    assert!(TermCreateParams::from_json(&obj(vec![("cols", num(65536)), ("rows", num(1))])).is_err());
    assert!(TermCreateParams::from_json(&obj(vec![("cols", Json::Number("1.5".into())), ("rows", num(1))])).is_err());
    let p = TermCreateParams::from_json(&obj(vec![("cols", num(65535)), ("rows", num(0))])).unwrap();
    assert_eq!((p.cols, p.rows), (65535, 0));
}
