use ledger_eth::Error;
use ledger_eth::decode::{classify_empty, decode_address, decode_signature};

fn address_fixture() -> Vec<u8> {
    // pk length 4, pk bytes, address length 5, ASCII address.
    let mut b = vec![4u8, 0xDE, 0xAD, 0xBE, 0xEF, 5];
    b.extend_from_slice(b"12345");
    b
}

#[test]
fn address_decodes_to_hex_key_and_prefixed_address() {
    let d = decode_address(&address_fixture()).unwrap();
    assert_eq!(d.public_key_hex, "deadbeef");
    assert_eq!(d.address, "0x12345");
}

#[test]
fn address_decoding_is_idempotent() {
    let b = address_fixture();
    let d1 = decode_address(&b).unwrap();
    let d2 = decode_address(&b).unwrap();
    assert_eq!(d1.public_key_hex, d2.public_key_hex);
    assert_eq!(d1.address, d2.address);
}

#[test]
fn truncated_address_response_is_rejected() {
    assert!(decode_address(&[]).is_none());
    assert!(decode_address(&[4, 0xDE, 0xAD]).is_none());
    assert!(decode_address(&[4, 0xDE, 0xAD, 0xBE, 0xEF, 5, b'1']).is_none());
}

#[test]
fn non_ascii_address_is_rejected() {
    let mut b = address_fixture();
    let last = b.len() - 1;
    b[last] = 0xFF;
    assert!(decode_address(&b).is_none());
}

#[test]
fn signature_decodes_v_r_s() {
    let mut b = vec![0x1Cu8];
    b.extend((1..=32u8).collect::<Vec<u8>>());
    b.extend((101..=132u8).collect::<Vec<u8>>());
    let c = decode_signature(&b).unwrap();
    assert_eq!(c.v, 0x1C);
    assert_eq!(c.r, (1..=32u8).collect::<Vec<u8>>());
    assert_eq!(c.s, (101..=132u8).collect::<Vec<u8>>());
}

#[test]
fn signature_decoding_is_idempotent() {
    let mut b = vec![0x1Bu8];
    b.extend([0x7Fu8; 64]);
    let c1 = decode_signature(&b).unwrap();
    let c2 = decode_signature(&b).unwrap();
    assert_eq!(c1.v, c2.v);
    assert_eq!(c1.r, c2.r);
    assert_eq!(c1.s, c2.s);
}

#[test]
fn short_signature_response_is_rejected() {
    assert!(decode_signature(&[0x1B; 64]).is_none());
}

fn probe_with_name(name: &str) -> Vec<u8> {
    let mut b = vec![0x01u8, name.len() as u8];
    b.extend_from_slice(name.as_bytes());
    b
}

#[test]
fn empty_probe_means_device_locked() {
    assert_eq!(classify_empty(&[]), Error::DeviceLocked);
}

#[test]
fn ethereum_app_name_means_user_canceled() {
    assert_eq!(classify_empty(&probe_with_name("Ethereum")), Error::UserCanceled);
}

#[test]
fn ethereum_prefix_also_means_user_canceled() {
    assert_eq!(classify_empty(&probe_with_name("Ethereum Classic")), Error::UserCanceled);
}

#[test]
fn other_app_name_means_wrong_app_open() {
    assert_eq!(classify_empty(&probe_with_name("BTC")), Error::WrongAppOpen);
}

#[test]
fn malformed_probe_means_wrong_app_open() {
    // Claims an 8-byte name but carries fewer bytes.
    assert_eq!(classify_empty(&[0x01, 0x08, b'E']), Error::WrongAppOpen);
}
