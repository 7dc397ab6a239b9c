use lucisocks::auth::{auth_verdict, choose_method, digest_matches, password_digest};

const ABC: [u8; 32] = [
    0xba, 0x78, 0x16, 0xbf, 0x8f, 0x01, 0xcf, 0xea, 0x41, 0x41, 0x40, 0xde, 0x5d, 0xae, 0x22, 0x23,
    0xb0, 0x03, 0x61, 0xa3, 0x96, 0x17, 0x7a, 0x9c, 0xb4, 0x10, 0xff, 0x61, 0xf2, 0x00, 0x15, 0xad,
];

const EMPTY: [u8; 32] = [
    0xe3, 0xb0, 0xc4, 0x42, 0x98, 0xfc, 0x1c, 0x14, 0x9a, 0xfb, 0xf4, 0xc8, 0x99, 0x6f, 0xb9, 0x24,
    0x27, 0xae, 0x41, 0xe4, 0x64, 0x9b, 0x93, 0x4c, 0xa4, 0x95, 0x99, 0x1b, 0x78, 0x52, 0xb8, 0x55,
];

#[test]
fn digests_are_sha256_of_the_concatenation() {
    assert_eq!(password_digest(b"ab", b"c"), ABC);
    assert_eq!(password_digest(b"a", b"bc"), ABC);
    assert_eq!(password_digest(b"", b"abc"), ABC);
    assert_eq!(password_digest(b"", b""), EMPTY);
    assert_ne!(password_digest(b"c", b"ab"), ABC);
}

#[test]
fn digests_match_only_themselves() {
    assert!(digest_matches(&ABC, &ABC));
    assert!(!digest_matches(&ABC, &EMPTY));
    let mut last = ABC;
    last[31] ^= 1;
    assert!(!digest_matches(&last, &ABC));
}

#[test]
fn the_credentials_pick_the_method() {
    assert_eq!(choose_method(&Some(ABC), &[0, 2]), 2);
    assert_eq!(choose_method(&Some(ABC), &[0, 1]), 0xFF);
    assert_eq!(choose_method(&None, &[2, 0]), 0);
    assert_eq!(choose_method(&None, &[2]), 0xFF);
    assert_eq!(choose_method(&None, &[]), 0xFF);
}

#[test]
fn verdicts_are_zero_for_success() {
    assert_eq!(auth_verdict(true), vec![1, 0]);
    assert_eq!(auth_verdict(false), vec![1, 1]);
}
