use lattice_engine::checksum::{crc32, fnv32_exec};
use lattice_engine::keys::{compare_keys, KeyOrder};
use lattice_engine::settler::SettlerFingerprint;

#[test]
fn crc32_known_values() {
    assert_eq!(crc32(&b"".to_vec()), 0);
    assert_eq!(crc32(&b"123456789".to_vec()), 0xcbf4_3926);
    assert_ne!(crc32(&vec![1u8, 2, 3]), crc32(&vec![1u8, 2, 4]));
}

#[test]
fn fnv_known_values() {
    assert_eq!(fnv32_exec(&Vec::new()), 0x4fd0_bfc1);
}

#[test]
fn settler_fingerprint_text() {
    assert_eq!(SettlerFingerprint(0x0a0b).to_string(), "settler:00000a0b");
    assert_eq!(SettlerFingerprint(0x0a0b).raw(), 0x0a0b);
}

#[test]
fn keys_compare_by_bytes() {
    assert_eq!(compare_keys("a", "b"), KeyOrder::Less);
    assert_eq!(compare_keys("b", "a"), KeyOrder::Greater);
    assert_eq!(compare_keys("ab", "ab"), KeyOrder::Equal);
    assert_eq!(compare_keys("ab", "abc"), KeyOrder::Less);
    assert_eq!(compare_keys("Z", "a"), KeyOrder::Less);
}
