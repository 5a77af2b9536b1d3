//! APDU-level client logic for the Ethereum application of a Ledger hardware
//! wallet: BIP-32 derivation-path encoding, command framing with chunked
//! transfer, response decoding, and recovery-id normalization.
//!
//! The library is transport-agnostic: a caller owns the byte exchange with the
//! device and drives a [`session::Session`] by handing it each raw response.
use vstd::prelude::*;
use vstd::string::StringExecFns;

pub mod apdu;
pub mod decode;
pub mod path;
pub mod session;
pub mod sig;
pub mod text;

verus! {

/// The closed fault taxonomy: every operation either succeeds completely or
/// reports exactly one of these kinds.
#[derive(Debug, PartialEq, Eq)]
pub enum Error {
    /// The derivation-path string is malformed, or does not fit one frame.
    PathParse,
    /// No device was found on the transport.
    DeviceNotFound,
    /// The device answered the app-name probe with an empty payload.
    DeviceLocked,
    /// The user canceled the request on the device while the Ethereum app
    /// was active.
    UserCanceled,
    /// The device answered with an empty payload while an app other than
    /// Ethereum was active.
    WrongAppOpen,
    /// Any other transport-layer failure, with its message passed through.
    Transport(String),
}

impl Error {
    /// The short human-readable reason shown to the user.
    pub fn message(&self) -> (r: String)
        ensures
            r@ == match self {
                Error::PathParse => "Unable to parse path"@,
                Error::DeviceNotFound => "Ledger not found"@,
                Error::DeviceLocked => "Device Locked"@,
                Error::UserCanceled => "Canceled"@,
                Error::WrongAppOpen => "Please open Ethereum app on Ledger"@,
                Error::Transport(m) => m@,
            },
    {
        match self {
            Error::PathParse => String::from_str("Unable to parse path"),
            Error::DeviceNotFound => String::from_str("Ledger not found"),
            Error::DeviceLocked => String::from_str("Device Locked"),
            Error::UserCanceled => String::from_str("Canceled"),
            Error::WrongAppOpen => String::from_str("Please open Ethereum app on Ledger"),
            Error::Transport(m) => m.clone(),
        }
    }
}

} // verus!
