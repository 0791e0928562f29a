//! DER walking, text helpers and the allow-list.

use kakuin_rustls::der::consume_one_der;
use kakuin_rustls::text::{decimal_text, enclose, has_prefix, join};
use kakuin_rustls::{Error, SpiffeIdAllowList};

fn refusal(bytes: &[u8]) -> String {
    match consume_one_der(bytes) {
        Err(Error::X509(m)) => m,
        other => panic!("unexpected: {other:?}"),
    }
}

#[test]
fn short_form_is_cut_out() {
    let bytes = [0x30, 0x02, 7, 8, 9, 10];
    let (rest, consumed) = consume_one_der(&bytes).unwrap();
    assert_eq!(consumed, [0x30, 0x02, 7, 8]);
    assert_eq!(rest, [9, 10]);
    let (rest, consumed) = consume_one_der(&[0x05, 0x00]).unwrap();
    assert_eq!(consumed, [0x05, 0x00]);
    assert!(rest.is_empty());
}

#[test]
fn long_forms_are_cut_out() {
    for header in [
        vec![0x30, 0x81, 0x03],
        vec![0x30, 0x82, 0x00, 0x03],
        vec![0x30, 0x83, 0x00, 0x00, 0x03],
        vec![0x30, 0x84, 0x00, 0x00, 0x00, 0x03],
    ] {
        let mut bytes = header.clone();
        bytes.extend_from_slice(&[1, 2, 3, 4]);
        let (rest, consumed) = consume_one_der(&bytes).unwrap();
        assert_eq!(consumed.len(), header.len() + 3);
        assert_eq!(rest, [4]);
    }
    let mut bytes = vec![0x30, 0x82, 0x01, 0x02];
    bytes.resize(4 + 0x102 + 5, 0);
    let (rest, consumed) = consume_one_der(&bytes).unwrap();
    assert_eq!(consumed.len(), 4 + 0x102);
    assert_eq!(rest.len(), 5);
}

#[test]
fn unreadable_der_is_reported() {
    assert_eq!(refusal(&[]), "truncated DER (0 bytes)");
    assert_eq!(refusal(&[0x30]), "truncated DER (1 bytes)");
    assert_eq!(refusal(&[0x30, 0x80, 0, 0]), "unsupported length octets: 0");
    assert_eq!(refusal(&[0x30, 0x85, 0, 0, 0, 0, 0]), "unsupported length octets: 5");
    assert_eq!(refusal(&[0x30, 0xff, 0]), "unsupported length octets: 127");
    assert_eq!(refusal(&[0x30, 0x82, 1]), "truncated length");
    assert_eq!(refusal(&[0x30, 0x05, 1]), "truncated DER body: need 7, have 3");
    assert_eq!(
        refusal(&[0x30, 0x84, 0xff, 0xff, 0xff, 0xff]),
        "truncated DER body: need 4294967301, have 6"
    );
}

#[test]
fn numerals_are_decimal() {
    assert_eq!(decimal_text(0), "0");
    assert_eq!(decimal_text(7), "7");
    assert_eq!(decimal_text(10), "10");
    assert_eq!(decimal_text(907), "907");
    assert_eq!(decimal_text(u64::MAX), "18446744073709551615");
}

#[test]
fn texts_are_joined_and_compared() {
    assert_eq!(join("a", "b"), "ab");
    assert_eq!(enclose("(", "x", ")"), "(x)");
    assert!(has_prefix("spiffe://x", "spiffe://"));
    assert!(has_prefix("spiffe://", "spiffe://"));
    assert!(!has_prefix("spiffe:/", "spiffe://"));
    assert!(!has_prefix("Spiffe://x", "spiffe://"));
    assert!(has_prefix("é", ""));
}

#[test]
fn allowlist_permits_only_listed_ids() {
    let allow = SpiffeIdAllowList::exact_ids(vec![
        "spiffe://pleme.io/ns/openclaw/sa/lacre".to_string(),
        "spiffe://pleme.io/ns/openclaw/sa/scanner".to_string(),
    ]);
    assert!(allow.permits("spiffe://pleme.io/ns/openclaw/sa/lacre"));
    assert!(allow.permits("spiffe://pleme.io/ns/openclaw/sa/scanner"));
    assert!(!allow.permits("spiffe://pleme.io/ns/openclaw/sa/cartorio"));
    assert!(!allow.permits("spiffe://attacker.example/ns/x/sa/y"));
}

#[test]
fn allowlist_is_case_sensitive() {
    let allow = SpiffeIdAllowList::exact_ids(vec!["spiffe://pleme.io/ns/x/sa/y".into()]);
    assert!(!allow.permits("spiffe://Pleme.IO/ns/x/sa/y"));
}

#[test]
fn allowlist_matches_whole_ids() {
    let allow = SpiffeIdAllowList::exact_ids(vec!["spiffe://a/b".into()]);
    assert_eq!(allow.len(), 1);
    assert!(allow.permits("spiffe://a/b"));
    assert!(!allow.permits("spiffe://a/b/c"));
    assert!(!allow.permits("spiffe://a/"));
    assert!(!SpiffeIdAllowList::exact_ids(vec![]).permits(""));
}
