use ledger_eth::Error;
use ledger_eth::session::{Outcome, Session};

fn address_frame() -> Vec<u8> {
    let mut b = vec![4u8, 0xDE, 0xAD, 0xBE, 0xEF, 5];
    b.extend_from_slice(b"12345");
    b
}

fn probe_with_name(name: &str) -> Vec<u8> {
    let mut b = vec![0x01u8, name.len() as u8];
    b.extend_from_slice(name.as_bytes());
    b
}

fn signature_frame(v: u8) -> Vec<u8> {
    let mut b = vec![v];
    b.extend([0x11u8; 32]);
    b.extend([0x22u8; 32]);
    b
}

#[test]
fn get_public_key_end_to_end() {
    // A fixture transport answering the one get-address frame with a canned
    // response must yield the exact (public key hex, 0x-address) pair.
    let mut s = Session::new_get_address("44'/60'/0'/0/0").unwrap();
    let cmd = s.next_command().unwrap();
    assert_eq!(cmd.cla, 0xE0);
    assert_eq!(cmd.ins, 0x02);
    assert_eq!(cmd.p1, 0x00);
    assert_eq!(cmd.data[0], 5);
    let step = s.provide_response(&address_frame()).unwrap();
    match step.unwrap() {
        Outcome::Address(d) => {
            assert_eq!(d.public_key_hex, "deadbeef");
            assert_eq!(d.address, "0x12345");
        }
        _ => panic!("expected an address outcome"),
    }
    assert!(s.next_command().is_none());
}

#[test]
fn malformed_path_fails_before_any_exchange() {
    match Session::new_get_address("44'/60'/x'/0/0") {
        Err(Error::PathParse) => {}
        _ => panic!("expected a path parse failure"),
    }
}

#[test]
fn empty_response_with_ethereum_app_is_user_canceled() {
    let mut s = Session::new_get_address("44'/60'/0'/0/0").unwrap();
    let _ = s.next_command().unwrap();
    assert!(s.provide_response(&[]).is_none());
    let probe = s.next_command().unwrap();
    assert_eq!(probe.cla, 0xB0);
    assert_eq!(probe.ins, 0x01);
    assert!(probe.data.is_empty());
    let step = s.provide_response(&probe_with_name("Ethereum")).unwrap();
    match step {
        Err(Error::UserCanceled) => {}
        _ => panic!("expected a user-canceled fault"),
    }
}

#[test]
fn empty_response_with_other_app_is_wrong_app() {
    let mut s = Session::new_get_address("44'/60'/0'/0/0").unwrap();
    let _ = s.next_command().unwrap();
    assert!(s.provide_response(&[]).is_none());
    let _ = s.next_command().unwrap();
    let step = s.provide_response(&probe_with_name("BTC")).unwrap();
    match step {
        Err(Error::WrongAppOpen) => {}
        _ => panic!("expected a wrong-app fault"),
    }
}

#[test]
fn empty_probe_answer_is_device_locked() {
    let mut s = Session::new_get_address("44'/60'/0'/0/0").unwrap();
    let _ = s.next_command().unwrap();
    assert!(s.provide_response(&[]).is_none());
    let _ = s.next_command().unwrap();
    let step = s.provide_response(&[]).unwrap();
    match step {
        Err(Error::DeviceLocked) => {}
        _ => panic!("expected a device-locked fault"),
    }
}

#[test]
fn sign_message_two_frames_uses_only_last_response() {
    let msg = vec![0x5Au8; 460];
    let mut s = Session::new_sign_message("44'/60'/0'/0/0", &msg, 1).unwrap();
    let first = s.next_command().unwrap();
    assert_eq!(first.ins, 0x08);
    assert_eq!(first.p1, 0x00);
    // The device acknowledges intermediate frames with data the host must
    // discard.
    assert!(s.provide_response(&[0x90, 0x00]).is_none());
    let second = s.next_command().unwrap();
    assert_eq!(second.p1, 0x80);
    let step = s.provide_response(&signature_frame(27)).unwrap();
    match step.unwrap() {
        Outcome::Signature(ns) => {
            assert_eq!(ns.v, 0);
            assert_eq!(ns.r, vec![0x11u8; 32]);
            assert_eq!(ns.s, vec![0x22u8; 32]);
        }
        _ => panic!("expected a signature outcome"),
    }
}

#[test]
fn sign_message_v28_yields_parity_one() {
    let msg = b"hello";
    let mut s = Session::new_sign_message("44'/60'/0'/0/0", msg, 1).unwrap();
    let _ = s.next_command().unwrap();
    let step = s.provide_response(&signature_frame(28)).unwrap();
    match step.unwrap() {
        Outcome::Signature(ns) => assert_eq!(ns.v, 1),
        _ => panic!("expected a signature outcome"),
    }
}

#[test]
fn sign_transaction_end_to_end() {
    let tx: Vec<u8> = vec![0x02, 0xC9, 0x01, 0x80, 0x80, 0x80, 0x80, 0x80, 0x80, 0x80, 0xC0];
    let mut s = Session::new_sign_transaction("44'/60'/0'/0/0", &tx, 1).unwrap();
    let cmd = s.next_command().unwrap();
    assert_eq!(cmd.ins, 0x04);
    assert_eq!(cmd.p1, 0x00);
    assert_eq!(cmd.data.len(), 1 + 20 + tx.len());
    let step = s.provide_response(&signature_frame(28)).unwrap();
    match step.unwrap() {
        Outcome::Signature(ns) => {
            assert_eq!(ns.v, 1);
            assert_eq!(ns.r, vec![0x11u8; 32]);
            assert_eq!(ns.s, vec![0x22u8; 32]);
        }
        _ => panic!("expected a signature outcome"),
    }
}

#[test]
fn short_final_response_is_a_transport_fault() {
    let mut s = Session::new_sign_message("44'/60'/0'/0/0", b"hi", 1).unwrap();
    let _ = s.next_command().unwrap();
    let step = s.provide_response(&[0x1B, 0x01]).unwrap();
    match step {
        Err(Error::Transport(m)) => assert_eq!(m, "malformed device response"),
        _ => panic!("expected a transport fault"),
    }
}

#[test]
fn inconsistent_recovery_byte_is_a_transport_fault() {
    // Chain id 110 selects the large-chain-id branch; a device v of 0 is
    // inconsistent with it.
    let mut s = Session::new_sign_message("44'/60'/0'/0/0", b"hi", 110).unwrap();
    let _ = s.next_command().unwrap();
    let step = s.provide_response(&signature_frame(0)).unwrap();
    match step {
        Err(Error::Transport(m)) => assert_eq!(m, "invalid recovery byte"),
        _ => panic!("expected a transport fault"),
    }
}

#[test]
fn fault_messages_match_the_shell_wording() {
    assert_eq!(Error::PathParse.message(), "Unable to parse path");
    assert_eq!(Error::DeviceNotFound.message(), "Ledger not found");
    assert_eq!(Error::DeviceLocked.message(), "Device Locked");
    assert_eq!(Error::UserCanceled.message(), "Canceled");
    assert_eq!(
        Error::WrongAppOpen.message(),
        "Please open Ethereum app on Ledger"
    );
    assert_eq!(
        Error::Transport(String::from("boom")).message(),
        "boom"
    );
}
