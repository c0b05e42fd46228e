use argon2::password_hash::{rand_core::OsRng, PasswordHasher, SaltString};
use zedra_host::auth::{
    authenticate, create_pairing_token, validate_pairing_token, verify_password, PairingTokens,
};
use zedra_host::git::{FileStatus, GitRepo};
use zedra_host::json::Json;
use zedra_host::pairing::{parse_pairing_uri, pairing_uri, PairingPayload, ZedraSSHClient};
use zedra_host::store::{
    add_device, find_device_by_key, list_devices, load_store, revoke_device, save_store,
    update_last_connected, HostStore, PairedDevice,
};

fn test_device(id: &str, name: &str) -> PairedDevice {
    PairedDevice {
        id: id.to_string(),
        name: name.to_string(),
        public_key: format!("key-{}", id),
        paired_at: "12345".to_string(),
        last_connected: None,
    }
}

fn token_bytes(seed: u8) -> [u8; 32] {
    let mut b = [0u8; 32];
    for (i, x) in b.iter_mut().enumerate() {
        *x = seed.wrapping_mul(31).wrapping_add(i as u8);
    }
    b
}

#[test]
fn test_create_pairing_token_returns_hex_string() {
    let mut tokens = PairingTokens::new();
    let token = create_pairing_token(&mut tokens, &token_bytes(1), 0);
    assert_eq!(token.len(), 64);
    assert!(token.chars().all(|c| c.is_ascii_hexdigit()));
}

#[test]
fn pairing_token_is_lowercase_hex_of_bytes() {
    let mut tokens = PairingTokens::new();
    let token = create_pairing_token(&mut tokens, &[0xab; 32], 0);
    assert_eq!(token, "ab".repeat(32));
}

#[test]
fn test_pairing_tokens_are_unique() {
    let mut tokens = PairingTokens::new();
    let t1 = create_pairing_token(&mut tokens, &token_bytes(1), 0);
    let t2 = create_pairing_token(&mut tokens, &token_bytes(2), 0);
    assert_ne!(t1, t2);
}

#[test]
fn test_validate_valid_token() {
    let mut tokens = PairingTokens::new();
    let token = create_pairing_token(&mut tokens, &token_bytes(3), 100);
    assert!(validate_pairing_token(&mut tokens, &token, 100));
}

#[test]
fn test_token_is_single_use() {
    let mut tokens = PairingTokens::new();
    let token = create_pairing_token(&mut tokens, &token_bytes(4), 0);
    assert!(validate_pairing_token(&mut tokens, &token, 1));
    assert!(!validate_pairing_token(&mut tokens, &token, 2));
}

#[test]
fn test_validate_invalid_token() {
    let mut tokens = PairingTokens::new();
    assert!(!validate_pairing_token(&mut tokens, "not-a-real-token", 0));
}

#[test]
fn tokens_expire_after_five_minutes() {
    let mut tokens = PairingTokens::new();
    let token = create_pairing_token(&mut tokens, &token_bytes(5), 1000);
    assert!(!validate_pairing_token(&mut tokens, &token, 1300));
    let token = create_pairing_token(&mut tokens, &token_bytes(6), 1000);
    assert!(validate_pairing_token(&mut tokens, &token, 1299));
}

#[test]
fn test_authenticate_pair_user_with_valid_token() {
    let mut tokens = PairingTokens::new();
    let store = HostStore::new();
    let token = create_pairing_token(&mut tokens, &token_bytes(7), 0);
    let result = authenticate(&mut tokens, &store, "zedra-pair", &token, 0).unwrap();
    assert!(result);
}

#[test]
fn test_authenticate_pair_user_with_invalid_token() {
    let mut tokens = PairingTokens::new();
    let store = HostStore::new();
    let result = authenticate(&mut tokens, &store, "zedra-pair", "invalid", 0).unwrap();
    assert!(!result);
}

#[test]
fn password_checks_against_argon2_hash() {
    let salt = SaltString::generate(&mut OsRng);
    let hash = argon2::Argon2::default().hash_password(b"secret", &salt).unwrap().to_string();
    let store = HostStore { devices: vec![], password_hash: Some(hash) };
    assert_eq!(verify_password(&store, "secret"), Ok(true));
    assert_eq!(verify_password(&store, "wrong"), Ok(false));
    let mut tokens = PairingTokens::new();
    assert_eq!(authenticate(&mut tokens, &store, "zedra", "secret", 0), Ok(true));
    assert_eq!(verify_password(&HostStore::new(), "secret"), Ok(false));
    let broken = HostStore { devices: vec![], password_hash: Some("not a hash".into()) };
    assert!(verify_password(&broken, "secret").is_err());
}

#[test]
fn test_paired_device_clone() {
    let device = test_device("id1", "device1");
    let cloned = device.clone();
    assert_eq!(cloned.id, device.id);
    assert_eq!(cloned.public_key, device.public_key);
}

#[test]
fn test_host_store_default() {
    let store = HostStore::default();
    assert!(store.devices.is_empty());
    assert!(store.password_hash.is_none());
}

#[test]
fn test_host_store_serialization() {
    let store = HostStore {
        devices: vec![PairedDevice {
            id: "test-id".to_string(),
            name: "test-device".to_string(),
            public_key: "ssh-ed25519 AAAA...".to_string(),
            paired_at: "1234567890".to_string(),
            last_connected: None,
        }],
        password_hash: Some("$argon2...".to_string()),
    };
    let bytes = save_store(&store);
    let deserialized = load_store(Some(&bytes)).unwrap();
    assert_eq!(deserialized.devices.len(), 1);
    assert_eq!(deserialized.devices[0].id, "test-id");
    assert_eq!(deserialized.devices[0].name, "test-device");
    assert_eq!(deserialized.password_hash, Some("$argon2...".to_string()));
}

#[test]
fn test_store_file_roundtrip() {
    let mut store = HostStore::default();
    store.devices.push(test_device("rt-id", "roundtrip"));
    let bytes = save_store(&store);
    let loaded = load_store(Some(&bytes)).unwrap();
    assert_eq!(loaded.devices.len(), 1);
    assert_eq!(loaded.devices[0].id, "rt-id");
    assert_eq!(loaded.devices[0].name, "roundtrip");
}

#[test]
fn test_store_add_replaces_duplicate_id() {
    let mut store = HostStore::default();
    add_device(&mut store, test_device("dup", "first"));
    add_device(&mut store, test_device("other", "x"));
    add_device(&mut store, test_device("dup", "second"));
    let loaded = load_store(Some(&save_store(&store))).unwrap();
    assert_eq!(loaded.devices.len(), 2);
    assert_eq!(loaded.devices[0].id, "other");
    assert_eq!(loaded.devices[1].name, "second");
}

#[test]
fn test_store_revoke() {
    let mut store = HostStore::default();
    add_device(&mut store, test_device("a", "alpha"));
    add_device(&mut store, test_device("b", "beta"));
    let before = store.devices.len();
    revoke_device(&mut store, "a").unwrap();
    assert_eq!(store.devices.len(), before - 1);
    assert_eq!(list_devices(&store)[0].id, "b");
    assert_eq!(revoke_device(&mut store, "a"), Err("Device not found: a".to_string()));
    assert_eq!(store.devices.len(), 1);
}

#[test]
fn test_store_find_by_key() {
    let mut store = HostStore::default();
    add_device(&mut store, test_device("x", "xray"));
    let found = find_device_by_key(&store, "key-x");
    assert!(found.is_some());
    assert_eq!(found.unwrap().name, "xray");
    assert!(find_device_by_key(&store, "nope").is_none());
}

#[test]
fn test_load_nonexistent_returns_default() {
    let store = load_store(None).unwrap();
    assert!(store.devices.is_empty());
    assert!(store.password_hash.is_none());
}

#[test]
fn test_store_password_hash_persistence() {
    let store = HostStore { devices: vec![], password_hash: Some("hash123".to_string()) };
    let loaded = load_store(Some(&save_store(&store))).unwrap();
    assert_eq!(loaded.password_hash, Some("hash123".to_string()));
}

#[test]
fn store_file_errors() {
    assert!(load_store(Some(b"not json")).is_err());
    assert!(load_store(Some(br#"{"password_hash":null}"#)).is_err());
    let loaded = load_store(Some(br#"{"devices":[]}"#)).unwrap();
    assert!(loaded.password_hash.is_none());
}

#[test]
fn last_connected_is_recorded() {
    let mut store = HostStore::default();
    add_device(&mut store, test_device("a", "alpha"));
    add_device(&mut store, test_device("b", "beta"));
    update_last_connected(&mut store, "b", 1700000000);
    assert_eq!(store.devices[1].last_connected, Some("1700000000".to_string()));
    assert_eq!(store.devices[0].last_connected, None);
    update_last_connected(&mut store, "zzz", 5);
    assert_eq!(store.devices.len(), 2);
}

#[test]
fn git_status_porcelain_is_read() {
    let out = " M src/lib.rs\n?? new.txt\nA  added.rs\nUU both.rs\nR  moved.rs\nxx\n D gone.rs\r\n";
    let entries = GitRepo::status(out);
    let got: Vec<(String, FileStatus)> = entries.into_iter().map(|e| (e.path, e.status)).collect();
    assert_eq!(
        got,
        vec![
            ("src/lib.rs".to_string(), FileStatus::Modified),
            ("new.txt".to_string(), FileStatus::Untracked),
            ("added.rs".to_string(), FileStatus::Added),
            ("both.rs".to_string(), FileStatus::Conflicted),
            ("moved.rs".to_string(), FileStatus::Renamed),
            ("gone.rs".to_string(), FileStatus::Deleted),
        ]
    );
    assert_eq!(FileStatus::Untracked.word(), "untracked");
}

#[test]
fn git_log_is_read_in_groups_of_four() {
    let out = "abc\nfirst\nAnn\n1700000000\ndef\nsecond\nBob\nnot-a-time\nghi\nincomplete\n";
    let entries = GitRepo::log(out);
    assert_eq!(entries.len(), 2);
    assert_eq!(entries[0].id, "abc");
    assert_eq!(entries[0].message, "first");
    assert_eq!(entries[0].author, "Ann");
    assert_eq!(entries[0].timestamp, 1700000000);
    assert_eq!(entries[1].timestamp, 0);
}

#[test]
fn git_branches_and_branch_are_read() {
    let branches = GitRepo::branches("* main\n  feature\n\n");
    assert_eq!(branches.len(), 2);
    assert_eq!((branches[0].name.as_str(), branches[0].is_head), ("main", true));
    assert_eq!((branches[1].name.as_str(), branches[1].is_head), ("feature", false));
    assert_eq!(GitRepo::branch("  main \n"), "main");
}

#[test]
fn git_arguments() {
    assert_eq!(GitRepo::diff(Some("a.txt"), true), vec!["diff", "--cached", "--", "a.txt"]);
    assert_eq!(GitRepo::diff(None, false), vec!["diff"]);
    assert_eq!(GitRepo::checkout("feature"), vec!["checkout", "feature"]);
    assert_eq!(GitRepo::log_args(20), vec!["log", "-20", "--format=%H%n%s%n%an%n%at"]);
    assert_eq!(GitRepo::commit("msg", &vec![]), Err("no paths to commit".to_string()));
    let runs = GitRepo::commit("msg", &vec!["a".to_string(), "b".to_string()]).unwrap();
    assert_eq!(runs[0], vec!["add", "a", "b"]);
    assert_eq!(runs[1], vec!["commit", "-m", "msg"]);
    assert_eq!(runs[2], vec!["rev-parse", "HEAD"]);
    assert_eq!(GitRepo::new("/w".to_string()).workdir(), "/w");
}

fn payload(host: &str, token: &str, fingerprint: &str, name: &str) -> PairingPayload {
    PairingPayload {
        v: 1,
        host: host.to_string(),
        port: 2222,
        token: token.to_string(),
        fingerprint: fingerprint.to_string(),
        name: name.to_string(),
    }
}

#[test]
fn test_pairing_payload_serialization() {
    let p = payload("192.168.1.1", "abc123", "SHA256:xxxx", "my-machine");
    let uri = pairing_uri(&p);
    let back = parse_pairing_uri(&uri).unwrap();
    assert_eq!(back.host, "192.168.1.1");
    assert_eq!(back.port, 2222);
    assert_eq!(back.token, "abc123");
    assert_eq!(back.fingerprint, "SHA256:xxxx");
    assert_eq!(back.name, "my-machine");
    match p.to_json() {
        Json::Object(entries) => assert_eq!(entries.len(), 6),
        _ => panic!("expected an object"),
    }
}

#[test]
fn test_pairing_uri_format() {
    let p = payload("10.0.0.1", "token", "fp", "host");
    let uri = pairing_uri(&p);
    assert!(uri.starts_with("zedra://pair?d="));
    let data_part = uri.strip_prefix("zedra://pair?d=").unwrap();
    assert!(!data_part.contains('+'));
    assert!(!data_part.contains('/'));
    assert!(!data_part.is_empty());
}

#[test]
fn pairing_uri_errors() {
    assert!(parse_pairing_uri("http://x").is_err());
    assert!(parse_pairing_uri("zedra://pair?d=***").is_err());
    assert!(parse_pairing_uri("zedra://pair?d=eyJ2IjoxfQ").is_err());
    let mut p = payload("h", "t", "f", "n");
    p.v = 2;
    assert!(parse_pairing_uri(&pairing_uri(&p)).is_err());
}

#[test]
fn ssh_client_checks_fingerprint() {
    assert!(ZedraSSHClient::new(None).accepts_fingerprint("SHA256:any"));
    let c = ZedraSSHClient::new(Some("SHA256:abc".to_string()));
    assert!(c.accepts_fingerprint("SHA256:abc"));
    assert!(!c.accepts_fingerprint("SHA256:abd"));
}
