//! Recovery-id normalization: turning the device-native recovery byte into
//! the chain-correct value.
use vstd::prelude::*;

use crate::text::{dec_chars, decimal_string, hex_encode, hex_of};

verus! {

/// A signature with its chain-correct recovery id: `v` is the typed-
/// transaction y-parity (0 or 1) or the legacy-style recovery byte, `r`
/// and `s` are unchanged from the device.
pub struct NormalizedSignature {
    pub v: u64,
    pub r: Vec<u8>,
    pub s: Vec<u8>,
}

/// Whether the legacy recovery value of a chain would overflow one byte,
/// which selects the device firmware's large-chain-id encoding.
pub open spec fn chain_id_overflows(chain_id: u64) -> bool {
    2 * chain_id + 35 + 1 > 255
}

/// The chain-correct recovery id for a device-native recovery byte: for
/// large chain ids the firmware's own byte-sized encoding is inverted, for
/// small ones the device byte's parity is flipped.
pub open spec fn normalized_v(device_v: u8, chain_id: u64) -> int {
    if chain_id_overflows(chain_id) {
        device_v - (2 * chain_id + 35) % 256
    } else {
        (device_v + 1) % 2
    }
}

/// Whether the device-native recovery byte is consistent with the chain
/// id, so that normalization cannot go below zero.
pub open spec fn device_v_in_range(device_v: u8, chain_id: u64) -> bool {
    chain_id_overflows(chain_id) ==> device_v >= (2 * chain_id + 35) % 256
}

/// Computes the chain-correct recovery id. The result is the y-parity for
/// small chain ids and always fits one byte.
pub fn normalize_v(device_v: u8, chain_id: u64) -> (v: u64)
    requires
        chain_id <= (u64::MAX - 36) / 2,
        device_v_in_range(device_v, chain_id),
    ensures
        v == normalized_v(device_v, chain_id),
        v <= 255,
        !chain_id_overflows(chain_id) ==> v <= 1,
{
    let t: u64 = 2 * chain_id + 35;
    if t + 1 > 255 {
        device_v as u64 - t % 256
    } else {
        (device_v as u64 + 1) % 2
    }
}

/// Checks that a device-native recovery byte is consistent with the chain
/// id before normalizing.
pub fn device_v_ok(device_v: u8, chain_id: u64) -> (ok: bool)
    requires
        chain_id <= (u64::MAX - 36) / 2,
    ensures
        ok == device_v_in_range(device_v, chain_id),
{
    let t: u64 = 2 * chain_id + 35;
    if t + 1 > 255 {
        device_v as u64 >= t % 256
    } else {
        true
    }
}

/// Renders a normalized signature the way the host shell shows it: `v` in
/// decimal, `r` and `s` in lowercase hex.
pub fn signature_strings(sig: &NormalizedSignature) -> (out: (String, String, String))
    requires
        sig.v <= 255,
    ensures
        out.0@ == dec_chars(sig.v as nat),
        out.1@ == hex_of(sig.r@),
        out.2@ == hex_of(sig.s@),
{
    let v = decimal_string(sig.v as u8);
    let r = hex_encode(sig.r.as_slice());
    let s = hex_encode(sig.s.as_slice());
    (v, r, s)
}

} // verus!
