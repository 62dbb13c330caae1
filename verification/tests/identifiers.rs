//! Record identifiers: fixed-width base-32 encoding, round trips, and
//! uniqueness of what the generator hands out.

use watchlist::ids::{decode_key_checked, encode_key, KEY_LEN};
use watchlist::store::{Store, Table};

#[test]
fn encode_first_keys() {
    assert_eq!(encode_key(0), "0000000000000");
    assert_eq!(encode_key(1), "0000000000001");
    assert_eq!(encode_key(9), "0000000000009");
    assert_eq!(encode_key(10), "000000000000a");
    assert_eq!(encode_key(31), "000000000000v");
    assert_eq!(encode_key(32), "0000000000010");
    assert_eq!(encode_key(33), "0000000000011");
    assert_eq!(encode_key(1024), "0000000000100");
}

#[test]
fn encode_is_fixed_width() {
    assert_eq!(encode_key(0).len(), KEY_LEN);
    assert_eq!(encode_key(u64::MAX).len(), KEY_LEN);
    assert_eq!(encode_key(u64::MAX), "fvvvvvvvvvvvv");
}

#[test]
fn decode_inverts_encode() {
    for n in [0u64, 1, 31, 32, 1000, 123456789, u64::MAX] {
        let k = encode_key(n);
        assert_eq!(decode_key_checked(&k), Some(n as u128));
    }
}

#[test]
fn decode_rejects_malformed_identifiers() {
    assert_eq!(decode_key_checked(""), None);
    assert_eq!(decode_key_checked("short"), None);
    assert_eq!(decode_key_checked("000000000000w"), None);
    assert_eq!(decode_key_checked("000000000000!"), None);
    assert_eq!(decode_key_checked("00000000000000"), None);
}

#[test]
fn identifiers_sort_in_generation_order() {
    assert!(encode_key(5) < encode_key(100));
    assert!(encode_key(31) < encode_key(32));
    assert!(encode_key(123456) < encode_key(123457));
}

#[test]
fn consecutive_generations_never_collide() {
    let mut store = Store::new();
    let a = store.generate_new_key(Table::Users).unwrap();
    let b = store.generate_new_key(Table::Users).unwrap();
    let c = store.generate_new_key(Table::Watchlists).unwrap();
    assert_ne!(a, b);
    assert_ne!(b, c);
    assert_ne!(a, c);
}
