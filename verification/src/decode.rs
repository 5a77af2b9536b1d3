//! Decoding of device responses: address frames, signature frames, and the
//! app-name probe used to classify an empty response.
use vstd::prelude::*;

use crate::Error;
use crate::text::{ascii_chars, ascii_string_with_prefix, hex_encode, hex_of};

verus! {

/// Decoded get-address response: the raw public key rendered as lowercase
/// hex, and the ASCII account address prefixed with `0x`.
pub struct AddressData {
    pub public_key_hex: String,
    pub address: String,
}

/// Device-native signature: recovery byte `v`, then the 32-byte big-endian
/// components `r` and `s`.
pub struct SignatureComponents {
    pub v: u8,
    pub r: Vec<u8>,
    pub s: Vec<u8>,
}

/// Shape of an address response: byte 0 is the public-key length `L`,
/// bytes `[1, 1+L)` the key, byte `1+L` the address length `M`, and the
/// following `M` bytes the address, which must be ASCII.
pub open spec fn address_response_wf(b: Seq<u8>) -> bool {
    &&& b.len() >= 1
    &&& b.len() > 1 + (b[0] as int)
    &&& b.len() >= 2 + (b[0] as int) + (b[1 + b[0] as int] as int)
    &&& forall|k: int|
        2 + (b[0] as int) <= k < 2 + (b[0] as int) + (b[1 + b[0] as int] as int) ==> b[k] < 128
}

/// The public-key bytes of a well-formed address response.
pub open spec fn address_response_key(b: Seq<u8>) -> Seq<u8> {
    b.subrange(1, 1 + b[0] as int)
}

/// The ASCII address bytes of a well-formed address response.
pub open spec fn address_response_addr(b: Seq<u8>) -> Seq<u8> {
    b.subrange(2 + b[0] as int, 2 + b[0] as int + b[1 + b[0] as int] as int)
}

/// What decoding an address response yields: hex of the key and the
/// `0x`-prefixed address, or nothing when the response is malformed.
pub open spec fn decoded_address(b: Seq<u8>) -> Option<(Seq<char>, Seq<char>)> {
    if address_response_wf(b) {
        Some(
            (
                hex_of(address_response_key(b)),
                seq!['0', 'x'] + ascii_chars(address_response_addr(b)),
            ),
        )
    } else {
        None
    }
}

/// What decoding a signature response yields: `v`, `r` and `s`, or nothing
/// when the response is shorter than 65 bytes.
pub open spec fn decoded_signature(b: Seq<u8>) -> Option<(u8, Seq<u8>, Seq<u8>)> {
    if b.len() >= 65 {
        Some((b[0], b.subrange(1, 33), b.subrange(33, 65)))
    } else {
        None
    }
}

/// The app name carried by a probe response: its length at byte 1, the
/// name from byte 2 on.
pub open spec fn probe_app_name(b: Seq<u8>) -> Option<Seq<u8>> {
    if b.len() >= 2 && b.len() >= 2 + b[1] as int {
        Some(b.subrange(2, 2 + b[1] as int))
    } else {
        None
    }
}

/// The name bytes of the Ethereum application.
pub open spec fn ethereum_name() -> Seq<u8> {
    seq![0x45u8, 0x74u8, 0x68u8, 0x65u8, 0x72u8, 0x65u8, 0x75u8, 0x6Du8]
}

/// Whether a probed app name begins with `Ethereum`.
pub open spec fn name_is_ethereum(name: Seq<u8>) -> bool {
    name.len() >= 8 && name.subrange(0, 8) == ethereum_name()
}

/// How an empty command response is classified after the app-name probe
/// answered with `probe`: an empty probe answer means the device is locked;
/// a probed name starting with `Ethereum` means the user canceled
/// on-device; any other (or unreadable) name means the wrong app is open.
pub open spec fn classify_empty_response(probe: Seq<u8>) -> Error {
    if probe.len() == 0 {
        Error::DeviceLocked
    } else {
        match probe_app_name(probe) {
            Some(name) => if name_is_ethereum(name) {
                Error::UserCanceled
            } else {
                Error::WrongAppOpen
            },
            None => Error::WrongAppOpen,
        }
    }
}

/// Decoding is idempotent: what a response decodes to is a function of the
/// raw bytes alone, so decoding identical response bytes twice — addresses,
/// signatures, or the probe classification — yields identical structured
/// output.
pub proof fn lemma_decoding_idempotent(b1: Seq<u8>, b2: Seq<u8>)
    requires
        b1 == b2,
    ensures
        decoded_address(b1) == decoded_address(b2),
        decoded_signature(b1) == decoded_signature(b2),
        classify_empty_response(b1) == classify_empty_response(b2),
{
}

/// Decodes a get-address response.
pub fn decode_address(b: &[u8]) -> (r: Option<AddressData>)
    ensures
        match r {
            Some(d) => decoded_address(b@) == Some((d.public_key_hex@, d.address@)),
            None => decoded_address(b@) is None,
        },
{
    if b.len() == 0 {
        return None;
    }
    let key_len = b[0] as usize;
    if b.len() <= 1 + key_len {
        return None;
    }
    let addr_len = b[1 + key_len] as usize;
    if b.len() < 2 + key_len + addr_len {
        return None;
    }
    let key = vstd::slice::slice_subrange(b, 1, 1 + key_len);
    let addr = vstd::slice::slice_subrange(b, 2 + key_len, 2 + key_len + addr_len);
    let mut i: usize = 0;
    while i < addr.len()
        invariant
            i <= addr@.len(),
            addr@ == address_response_addr(b@),
            b@.len() >= 2 + b@[0] + b@[1 + b@[0] as int],
            b@.len() > 1 + b@[0],
            forall|k: int| 0 <= k < i ==> addr@[k] < 128,
        decreases addr@.len() - i,
    {
        if addr[i] >= 128 {
            // A non-ASCII address byte: the response is malformed.
            return None;
        }
        i = i + 1;
    }
    proof {
        let l = b@[0] as int;
        let m = b@[1 + b@[0] as int] as int;
        assert forall|k: int| 2 + l <= k < 2 + l + m implies b@[k] < 128 by {
            assert(address_response_addr(b@)[k - 2 - l] == b@[k]);
        }
        assert(address_response_wf(b@));
    }
    let public_key_hex = hex_encode(key);
    let address = ascii_string_with_prefix('0', 'x', addr);
    Some(AddressData { public_key_hex, address })
}

/// Decodes a signature response.
pub fn decode_signature(b: &[u8]) -> (r: Option<SignatureComponents>)
    ensures
        match r {
            Some(c) => decoded_signature(b@) == Some((c.v, c.r@, c.s@)),
            None => decoded_signature(b@) is None,
        },
{
    if b.len() < 65 {
        return None;
    }
    let v = b[0];
    let rr = vstd::slice::slice_to_vec(vstd::slice::slice_subrange(b, 1, 33));
    let ss = vstd::slice::slice_to_vec(vstd::slice::slice_subrange(b, 33, 65));
    Some(SignatureComponents { v, r: rr, s: ss })
}

/// Classifies an empty command response from the probe's answer.
pub fn classify_empty(probe: &[u8]) -> (e: Error)
    ensures
        e == classify_empty_response(probe@),
{
    if probe.len() == 0 {
        return Error::DeviceLocked;
    }
    if probe.len() < 2 {
        return Error::WrongAppOpen;
    }
    let name_len = probe[1] as usize;
    if probe.len() < 2 + name_len {
        return Error::WrongAppOpen;
    }
    let name = vstd::slice::slice_subrange(probe, 2, 2 + name_len);
    proof {
        assert(probe_app_name(probe@) == Some(name@));
    }
    if name.len() < 8 {
        return Error::WrongAppOpen;
    }
    if name[0] == 0x45 && name[1] == 0x74 && name[2] == 0x68 && name[3] == 0x65 && name[4] == 0x72
        && name[5] == 0x65 && name[6] == 0x75 && name[7] == 0x6D {
        proof {
            assert(name@.subrange(0, 8) =~= ethereum_name());
        }
        Error::UserCanceled
    } else {
        proof {
            if name@.subrange(0, 8) == ethereum_name() {
                assert(name@[0] == ethereum_name()[0] && name@[1] == ethereum_name()[1] && name@[2]
                    == ethereum_name()[2] && name@[3] == ethereum_name()[3] && name@[4]
                    == ethereum_name()[4] && name@[5] == ethereum_name()[5] && name@[6]
                    == ethereum_name()[6] && name@[7] == ethereum_name()[7]);
            }
        }
        Error::WrongAppOpen
    }
}

} // verus!
