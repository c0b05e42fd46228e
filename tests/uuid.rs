use zedra_host::pairing::uuid_v4;

fn random(seed: u8) -> [u8; 16] {
    let mut b = [0u8; 16];
    for (i, x) in b.iter_mut().enumerate() {
        *x = seed.wrapping_mul(97).wrapping_add((i as u8).wrapping_mul(53));
    }
    b
}

#[test]
fn test_uuid_v4_format() {
    let uuid = uuid_v4(&random(1));
    let parts: Vec<&str> = uuid.split('-').collect();
    assert_eq!(parts.len(), 5);
    assert_eq!(parts[0].len(), 8);
    assert_eq!(parts[1].len(), 4);
    assert_eq!(parts[2].len(), 4);
    assert_eq!(parts[3].len(), 4);
    assert_eq!(parts[4].len(), 12);
}

#[test]
fn test_uuid_v4_version_bit() {
    let uuid = uuid_v4(&random(2));
    let parts: Vec<&str> = uuid.split('-').collect();
    assert!(parts[2].starts_with('4'));
}

#[test]
fn test_uuid_v4_variant_bits() {
    for seed in 0..=255u8 {
        let uuid = uuid_v4(&random(seed));
        let parts: Vec<&str> = uuid.split('-').collect();
        let first_char = parts[3].chars().next().unwrap();
        assert!("89ab".contains(first_char), "Expected variant char in [8,9,a,b], got: {}", first_char);
    }
}

#[test]
fn test_uuid_v4_uniqueness() {
    let u1 = uuid_v4(&random(3));
    let u2 = uuid_v4(&random(4));
    assert_ne!(u1, u2);
}

#[test]
fn test_uuid_v4_is_valid_hex() {
    let uuid = uuid_v4(&random(5));
    let hex_only = uuid.replace('-', "");
    assert!(hex_only.chars().all(|c| c.is_ascii_hexdigit()));
    assert_eq!(hex_only.len(), 32);
}

#[test]
fn uuid_of_known_bytes() {
    let bytes = [0xffu8; 16];
    assert_eq!(uuid_v4(&bytes), "ffffffff-ffff-4fff-bfff-ffffffffffff");
    let bytes = [0u8; 16];
    assert_eq!(uuid_v4(&bytes), "00000000-0000-4000-8000-000000000000");
}
