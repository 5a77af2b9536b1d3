//! The session orchestrator: owns one request from path encoding to the
//! normalized result.
//!
//! A request moves through: frames built, frames exchanged strictly in
//! order, the last response decoded, the recovery id normalized — or, on an
//! empty last response, one app-name probe whose answer classifies the
//! failure. The caller owns the transport: it sends each frame
//! [`Session::next_command`] hands out and feeds the raw answer back
//! through [`Session::provide_response`]. Intermediate responses are
//! consumed and discarded; only the final frame's response carries data.
use vstd::prelude::*;
use vstd::string::StringExecFns;

use crate::Error;
use crate::apdu::{
    ApduCommand, build_get_address, build_probe, build_sign_message, build_sign_transaction,
    frames_match, get_address_frames, probe_frame_view, sign_message_frames, sign_tx_frames,
};
use crate::decode::{
    AddressData, classify_empty, classify_empty_response, decode_address, decode_signature,
    decoded_address, decoded_signature,
};
use crate::path::{parse_bip32_path, path_encoding};
use crate::sig::{NormalizedSignature, device_v_in_range, device_v_ok, normalize_v, normalized_v};

verus! {

/// What kind of data the final response carries.
#[derive(Clone, Copy, PartialEq, Eq, Structural)]
pub enum Expecting {
    Address,
    Signature { chain_id: u64 },
}

/// The structured success value of a finished session.
pub enum Outcome {
    Address(AddressData),
    Signature(NormalizedSignature),
}

/// Reason reported when a non-empty final response does not have the
/// shape the protocol promises.
pub open spec fn malformed_response_msg() -> Seq<char> {
    "malformed device response"@
}

/// Reason reported when the device-native recovery byte is inconsistent
/// with the chain id.
pub open spec fn bad_recovery_msg() -> Seq<char> {
    "invalid recovery byte"@
}

/// What a finished session reports for the final response `payload`.
pub open spec fn step_result(expecting: Expecting, payload: Seq<u8>, r: Result<
    Outcome,
    Error,
>) -> bool {
    match expecting {
        Expecting::Address => match decoded_address(payload) {
            Some(pa) => r matches Ok(Outcome::Address(d)) && d.public_key_hex@ == pa.0
                && d.address@ == pa.1,
            None => r matches Err(Error::Transport(m)) && m@ == malformed_response_msg(),
        },
        Expecting::Signature { chain_id } => match decoded_signature(payload) {
            Some(t) => if device_v_in_range(t.0, chain_id) {
                r matches Ok(Outcome::Signature(ns)) && ns.v == normalized_v(t.0, chain_id)
                    && ns.r@ == t.1 && ns.s@ == t.2
            } else {
                r matches Err(Error::Transport(m)) && m@ == bad_recovery_msg()
            },
            None => r matches Err(Error::Transport(m)) && m@ == malformed_response_msg(),
        },
    }
}

/// One in-flight request against the device.
pub struct Session {
    /// The ordered frames of the request.
    pub frames: Vec<ApduCommand>,
    /// How many frames have been answered.
    pub sent: usize,
    /// Whether the pending command is the app-name probe.
    pub probing: bool,
    /// Whether a result or fault has been reported.
    pub finished: bool,
    /// What the final response carries.
    pub expecting: Expecting,
}

impl Session {
    /// Internal consistency of a session.
    pub open spec fn wf(self) -> bool {
        &&& self.frames@.len() >= 1
        &&& self.sent <= self.frames@.len()
        &&& forall|k: int| 0 <= k < self.frames@.len() ==> (#[trigger] self.frames@[k])@.wf()
        &&& self.probing ==> self.sent == self.frames@.len()
        &&& match self.expecting {
            Expecting::Signature { chain_id } => chain_id <= (u64::MAX - 36) / 2,
            Expecting::Address => true,
        }
    }

    /// Whether the session still expects a response from the caller.
    pub open spec fn awaiting(self) -> bool {
        !self.finished && (self.sent < self.frames@.len() || self.probing)
    }

    /// Starts a get-address request for the given derivation path.
    pub fn new_get_address(path: &str) -> (r: Result<Session, Error>)
        ensures
            match r {
                Ok(s) => {
                    &&& path_encoding(path@) matches Some(pb) && pb.len() <= 252
                        && frames_match(s.frames@, get_address_frames(pb))
                    &&& s.wf() && s.awaiting() && s.sent == 0 && !s.probing && !s.finished
                    &&& s.expecting == Expecting::Address
                },
                Err(e) => {
                    &&& e == Error::PathParse
                    &&& path_encoding(path@) is None || path_encoding(path@)->Some_0.len() > 252
                },
            },
    {
        let pb = match parse_bip32_path(path) {
            Ok(pb) => pb,
            Err(e) => {
                return Err(e);
            },
        };
        if pb.len() > 252 {
            return Err(Error::PathParse);
        }
        let frames = build_get_address(&pb);
        Ok(
            Session {
                frames,
                sent: 0,
                probing: false,
                finished: false,
                expecting: Expecting::Address,
            },
        )
    }

    /// Starts a sign-personal-message request for the given derivation
    /// path and raw message bytes.
    pub fn new_sign_message(path: &str, msg: &[u8], chain_id: u64) -> (r: Result<Session, Error>)
        requires
            msg@.len() <= u32::MAX,
            chain_id <= (u64::MAX - 36) / 2,
        ensures
            match r {
                Ok(s) => {
                    &&& path_encoding(path@) matches Some(pb) && frames_match(
                        s.frames@,
                        sign_message_frames(pb, msg@),
                    )
                    &&& s.wf() && s.awaiting() && s.sent == 0 && !s.probing && !s.finished
                    &&& s.expecting == (Expecting::Signature { chain_id })
                },
                Err(e) => {
                    &&& e == Error::PathParse
                    &&& path_encoding(path@) is None || 5 + path_encoding(path@)->Some_0.len() + (
                    if msg@.len() <= 230 {
                        msg@.len() as int
                    } else {
                        230
                    }) > 255
                },
            },
    {
        let pb = match parse_bip32_path(path) {
            Ok(pb) => pb,
            Err(e) => {
                return Err(e);
            },
        };
        let first_take: usize = if msg.len() <= 230 {
            msg.len()
        } else {
            230
        };
        if pb.len() > 250 || 5 + pb.len() + first_take > 255 {
            return Err(Error::PathParse);
        }
        let frames = build_sign_message(&pb, msg);
        Ok(
            Session {
                frames,
                sent: 0,
                probing: false,
                finished: false,
                expecting: Expecting::Signature { chain_id },
            },
        )
    }

    /// Starts a sign-transaction request for the given derivation path and
    /// the canonical (pre-signature) transaction bytes.
    pub fn new_sign_transaction(path: &str, tx: &[u8], chain_id: u64) -> (r: Result<
        Session,
        Error,
    >)
        requires
            chain_id <= (u64::MAX - 36) / 2,
        ensures
            match r {
                Ok(s) => {
                    &&& path_encoding(path@) matches Some(pb) && pb.len() <= 1020 && frames_match(
                        s.frames@,
                        sign_tx_frames(pb, tx@),
                    )
                    &&& s.wf() && s.awaiting() && s.sent == 0 && !s.probing && !s.finished
                    &&& s.expecting == (Expecting::Signature { chain_id })
                },
                Err(e) => {
                    &&& e == Error::PathParse
                    &&& path_encoding(path@) is None || path_encoding(path@)->Some_0.len() > 1020
                },
            },
    {
        let pb = match parse_bip32_path(path) {
            Ok(pb) => pb,
            Err(e) => {
                return Err(e);
            },
        };
        if pb.len() > 1020 {
            return Err(Error::PathParse);
        }
        let frames = build_sign_transaction(&pb, tx);
        proof {
            assert(sign_tx_frames(path_encoding(path@)->Some_0, tx@).len() >= 1);
        }
        Ok(
            Session {
                frames,
                sent: 0,
                probing: false,
                finished: false,
                expecting: Expecting::Signature { chain_id },
            },
        )
    }

    /// The next command the caller must exchange with the device, or
    /// nothing when the session no longer expects one.
    pub fn next_command(&self) -> (r: Option<ApduCommand>)
        requires
            self.wf(),
        ensures
            match r {
                Some(c) => self.awaiting() && c@.wf() && c@ == (if self.sent
                    < self.frames@.len() {
                    self.frames@[self.sent as int]@
                } else {
                    probe_frame_view()
                }),
                None => !self.awaiting(),
            },
    {
        if self.finished {
            return None;
        }
        if self.sent < self.frames.len() {
            return Some(self.frames[self.sent].duplicate());
        }
        if self.probing {
            return Some(build_probe());
        }
        None
    }

    /// Feeds the device's answer to the pending command back into the
    /// session. Responses to all frames but the last are discarded. An
    /// empty final response switches the session to the app-name probe; the
    /// probe's answer only ever classifies the failure.
    pub fn provide_response(&mut self, payload: &[u8]) -> (r: Option<Result<Outcome, Error>>)
        requires
            old(self).wf(),
            old(self).awaiting(),
        ensures
            final(self).wf(),
            final(self).frames@ == old(self).frames@,
            final(self).expecting == old(self).expecting,
            ({
                let n = old(self).frames@.len();
                if !old(self).probing && old(self).sent + 1 < n {
                    &&& r is None
                    &&& final(self).sent == old(self).sent + 1
                    &&& !final(self).probing
                    &&& !final(self).finished
                } else if !old(self).probing {
                    if payload@.len() == 0 {
                        &&& r is None
                        &&& final(self).sent == n
                        &&& final(self).probing
                        &&& !final(self).finished
                    } else {
                        &&& r matches Some(res) && step_result(old(self).expecting, payload@, res)
                        &&& final(self).finished
                    }
                } else {
                    &&& r matches Some(res) && res matches Err(e) && e == classify_empty_response(
                        payload@,
                    )
                    &&& final(self).finished
                }
            }),
    {
        if self.probing {
            self.finished = true;
            return Some(Err(classify_empty(payload)));
        }
        if self.sent < self.frames.len() - 1 {
            self.sent = self.sent + 1;
            return None;
        }
        self.sent = self.frames.len();
        if payload.len() == 0 {
            self.probing = true;
            return None;
        }
        self.finished = true;
        match self.expecting {
            Expecting::Address => match decode_address(payload) {
                Some(d) => Some(Ok(Outcome::Address(d))),
                None => Some(
                    Err(Error::Transport(String::from_str("malformed device response"))),
                ),
            },
            Expecting::Signature { chain_id } => match decode_signature(payload) {
                Some(c) => if device_v_ok(c.v, chain_id) {
                    let v = normalize_v(c.v, chain_id);
                    Some(Ok(Outcome::Signature(NormalizedSignature { v, r: c.r, s: c.s })))
                } else {
                    Some(Err(Error::Transport(String::from_str("invalid recovery byte"))))
                },
                None => Some(
                    Err(Error::Transport(String::from_str("malformed device response"))),
                ),
            },
        }
    }
}

} // verus!
