//! The password hashing path: SHA-512 through the digest and hex
//! wrappers.

use watchlist::security::get_sha512;

#[test]
fn sha512_known_vector() {
    // The standard test vector for SHA-512 of "abc".
    let h = get_sha512(b"abc");
    assert_eq!(
        h,
        "ddaf35a193617abacc417349ae20413112e6fa4e89a97ea20a9eeee64b55d39a\
         2192992a274fc1a836ba3c23a3feebbd454d4423643ce80e2a9ac94fa54ca49f"
    );
}

#[test]
fn sha512_empty_vector() {
    let h = get_sha512(b"");
    assert_eq!(
        h,
        "cf83e1357eefb8bdf1542850d66d8007d620e4050b5715dc83f4a921d36ce9ce\
         47d0d13c5d85f2b0ff8318d2877eec2f63b931bd47417a81a538327af927da3e"
    );
}

#[test]
fn sha512_is_deterministic_and_injective_in_practice() {
    let a = get_sha512(b"Secret1!");
    let b = get_sha512(b"Secret1!");
    let c = get_sha512(b"Secret2!");
    assert_eq!(a, b);
    assert_ne!(a, c);
    assert_eq!(a.len(), 128);
    assert!(a.chars().all(|c| c.is_ascii_hexdigit() && !c.is_ascii_uppercase()));
    assert_ne!(a, "Secret1!");
}
