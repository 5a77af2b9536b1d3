use ledger_eth::apdu::{build_get_address, build_sign_message, build_sign_transaction};
use ledger_eth::path::parse_bip32_path;

fn default_path() -> Vec<u8> {
    parse_bip32_path("44'/60'/0'/0/0").unwrap()
}

#[test]
fn get_address_is_one_frame() {
    let path = default_path();
    let frames = build_get_address(&path);
    assert_eq!(frames.len(), 1);
    let f = &frames[0];
    assert_eq!(f.cla, 0xE0);
    assert_eq!(f.ins, 0x02);
    assert_eq!(f.p1, 0x00);
    assert_eq!(f.p2, 0x00);
    assert_eq!(f.data.len(), 21);
    assert_eq!(f.data[0], 5);
    assert_eq!(&f.data[1..], &path[..]);
}

#[test]
fn short_message_is_one_frame() {
    let path = default_path();
    let msg = vec![0x61u8; 230];
    let frames = build_sign_message(&path, &msg);
    assert_eq!(frames.len(), 1);
    let f = &frames[0];
    assert_eq!(f.cla, 0xE0);
    assert_eq!(f.ins, 0x08);
    assert_eq!(f.p1, 0x00);
    assert_eq!(f.p2, 0x00);
    // count, path, 4-byte big-endian length, whole message.
    assert_eq!(f.data.len(), 1 + 20 + 4 + 230);
    assert_eq!(f.data[0], 5);
    assert_eq!(&f.data[21..25], &[0x00, 0x00, 0x00, 230]);
    assert_eq!(&f.data[25..], &msg[..]);
}

#[test]
fn long_message_splits_into_two_frames() {
    // 460 bytes: the first 230 ride in the length-prefixed first frame, the
    // rest in one continuation frame.
    let path = default_path();
    let msg: Vec<u8> = (0..460u32).map(|i| (i % 251) as u8).collect();
    let frames = build_sign_message(&path, &msg);
    assert_eq!(frames.len(), 2);
    assert_eq!(frames[0].p1, 0x00);
    assert_eq!(frames[1].p1, 0x80);
    assert_eq!(frames[0].data.len(), 255);
    assert_eq!(&frames[0].data[21..25], &[0x00, 0x00, 0x01, 0xCC]);
    assert_eq!(&frames[0].data[25..255], &msg[0..230]);
    assert_eq!(&frames[1].data[..], &msg[230..460]);
    assert_eq!(frames[1].cla, 0xE0);
    assert_eq!(frames[1].ins, 0x08);
    assert_eq!(frames[1].p2, 0x00);
}

#[test]
fn message_one_byte_over_chunk_makes_two_frames() {
    let path = default_path();
    let msg = vec![0x42u8; 231];
    let frames = build_sign_message(&path, &msg);
    assert_eq!(frames.len(), 2);
    assert_eq!(frames[1].data.len(), 1);
    assert_eq!(frames[1].data[0], 0x42);
}

#[test]
fn empty_message_still_makes_one_frame() {
    let path = default_path();
    let frames = build_sign_message(&path, &[]);
    assert_eq!(frames.len(), 1);
    assert_eq!(frames[0].data.len(), 25);
    assert_eq!(&frames[0].data[21..25], &[0x00, 0x00, 0x00, 0x00]);
}

#[test]
fn transaction_stream_chunks_at_255() {
    let path = default_path();
    let tx: Vec<u8> = (0..300u32).map(|i| (i % 256) as u8).collect();
    let frames = build_sign_transaction(&path, &tx);
    // 1 + 20 + 300 = 321 bytes -> one full frame and one 66-byte frame.
    assert_eq!(frames.len(), 2);
    assert_eq!(frames[0].ins, 0x04);
    assert_eq!(frames[0].p1, 0x00);
    assert_eq!(frames[1].p1, 0x80);
    assert_eq!(frames[0].data.len(), 255);
    assert_eq!(frames[1].data.len(), 66);
    assert_eq!(frames[0].data[0], 5);
    assert_eq!(&frames[0].data[1..21], &path[..]);
    assert_eq!(&frames[0].data[21..255], &tx[0..234]);
    assert_eq!(&frames[1].data[..], &tx[234..300]);
}

#[test]
fn small_transaction_is_one_frame() {
    let path = default_path();
    let tx = vec![0x02u8, 0xC0];
    let frames = build_sign_transaction(&path, &tx);
    assert_eq!(frames.len(), 1);
    assert_eq!(frames[0].data.len(), 23);
    assert_eq!(frames[0].p1, 0x00);
}
