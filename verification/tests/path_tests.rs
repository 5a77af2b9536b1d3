use ledger_eth::Error;
use ledger_eth::path::parse_bip32_path;

#[test]
fn default_path_encodes_to_expected_words() {
    // 44'/60'/0'/0/0 == [0x8000002C, 0x8000003C, 0x80000000, 0, 0] big-endian.
    let encoded = parse_bip32_path("44'/60'/0'/0/0").unwrap();
    let expected: Vec<u8> = vec![
        0x80, 0x00, 0x00, 0x2C, 0x80, 0x00, 0x00, 0x3C, 0x80, 0x00, 0x00, 0x00, 0x00, 0x00, 0x00,
        0x00, 0x00, 0x00, 0x00, 0x00,
    ];
    assert_eq!(encoded, expected);
}

#[test]
fn encoding_is_deterministic() {
    let a = parse_bip32_path("44'/60'/7'/0/0").unwrap();
    let b = parse_bip32_path("44'/60'/7'/0/0").unwrap();
    assert_eq!(a, b);
}

#[test]
fn hardened_sets_top_bit_and_plain_does_not() {
    let encoded = parse_bip32_path("44'/2").unwrap();
    assert_eq!(encoded.len(), 8);
    assert_eq!(encoded[0] & 0x80, 0x80);
    assert_eq!(&encoded[0..4], &[0x80, 0x00, 0x00, 0x2C]);
    assert_eq!(encoded[4] & 0x80, 0x00);
    assert_eq!(&encoded[4..8], &[0x00, 0x00, 0x00, 0x02]);
}

#[test]
fn empty_path_is_rejected() {
    assert_eq!(parse_bip32_path(""), Err(Error::PathParse));
}

#[test]
fn non_numeric_component_is_rejected() {
    assert_eq!(parse_bip32_path("44/x"), Err(Error::PathParse));
    assert_eq!(parse_bip32_path("44//0"), Err(Error::PathParse));
    assert_eq!(parse_bip32_path("44'/60'/"), Err(Error::PathParse));
    assert_eq!(parse_bip32_path("'"), Err(Error::PathParse));
}

#[test]
fn component_overflow_is_rejected() {
    assert_eq!(parse_bip32_path("4294967296"), Err(Error::PathParse));
    assert_eq!(
        parse_bip32_path("4294967295").unwrap(),
        vec![0xFF, 0xFF, 0xFF, 0xFF]
    );
}

#[test]
fn hardening_caps_at_full_word() {
    // 2147483647 | 0x80000000 == 0xFFFFFFFF.
    assert_eq!(
        parse_bip32_path("2147483647'").unwrap(),
        vec![0xFF, 0xFF, 0xFF, 0xFF]
    );
}

#[test]
fn text_after_apostrophe_is_ignored() {
    let a = parse_bip32_path("44'h/0").unwrap();
    let b = parse_bip32_path("44'/0").unwrap();
    assert_eq!(a, b);
}
