//! Tests of token identifiers, their labels, and the decimals cache.

use withdrawals_meterer::cache::TokenDecimalsCache;
use withdrawals_meterer::token::{native_token, token_eq, token_label, TokenId};

#[test]
fn native_token_bytes_are_the_reserved_pseudo_address() {
    let t = native_token();
    let mut expected = [0u8; 20];
    expected[18] = 0x80;
    expected[19] = 0x0a;
    assert_eq!(t.bytes, expected);
}

#[test]
fn token_label_is_prefixed_lowercase_hex() {
    assert_eq!(
        token_label(&native_token()),
        "0x000000000000000000000000000000000000800a"
    );
    let t = TokenId {
        bytes: [
            0xde, 0xad, 0xbe, 0xef, 0x01, 0x23, 0x45, 0x67, 0x89, 0xab, 0xcd, 0xef, 0x00, 0xff,
            0x10, 0x20, 0x30, 0x40, 0x50, 0x60,
        ],
    };
    assert_eq!(token_label(&t), "0xdeadbeef0123456789abcdef00ff102030405060");
}

#[test]
fn token_equality_is_byte_for_byte() {
    let mut a = [0u8; 20];
    a[0] = 1;
    let t1 = TokenId { bytes: a };
    let t2 = TokenId { bytes: a };
    a[19] = 2;
    let t3 = TokenId { bytes: a };
    assert!(token_eq(&t1, &t2));
    assert!(!token_eq(&t1, &t3));
    assert!(!token_eq(&t1, &native_token()));
}

#[test]
fn cache_is_seeded_with_the_native_asset() {
    let cache = TokenDecimalsCache::new();
    assert_eq!(cache.lookup(&native_token()), Some(18));
}

#[test]
fn cache_returns_recorded_decimals_and_misses_otherwise() {
    let mut cache = TokenDecimalsCache::new();
    let t = TokenId { bytes: [7u8; 20] };
    assert_eq!(cache.lookup(&t), None);
    cache.record(&t, 6);
    assert_eq!(cache.lookup(&t), Some(6));
}

#[test]
fn cache_never_overwrites_an_entry() {
    let mut cache = TokenDecimalsCache::new();
    let t = TokenId { bytes: [9u8; 20] };
    cache.record(&t, 6);
    cache.record(&t, 9);
    assert_eq!(cache.lookup(&t), Some(6));
    cache.record(&native_token(), 7);
    assert_eq!(cache.lookup(&native_token()), Some(18));
}
