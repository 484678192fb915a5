//! The error taxonomy of the enumeration contract.
//!
//! Every fallible step of one enumeration pass surfaces one of these
//! variants to the caller; there is no partial-result mode.

use vstd::prelude::*;

verus! {

/// What a failed enumeration pass reports.
#[derive(Debug, Clone)]
pub enum Error {
    /// The platform's interface-listing call failed; carries the call's
    /// name and the raw return code.
    GetIfAddrsError(String, i32),
    /// A platform call resolving interface identity failed; carries the
    /// call's name and the raw error code.
    GetIfNameError(String, u32),
    /// Raw interface name bytes are not valid UTF-8; carries the bytes.
    ParseUtf8Error(Vec<u8>),
    /// Raw interface name units are not valid UTF-16; carries the units.
    ParseUtf16Error(Vec<u16>),
}

/// The mathematical shape of an [`Error`], used by contracts.
pub enum ErrorModel {
    GetIfAddrs(Seq<char>, i32),
    GetIfName(Seq<char>, u32),
    ParseUtf8(Seq<u8>),
    ParseUtf16(Seq<u16>),
}

impl View for Error {
    type V = ErrorModel;

    open spec fn view(&self) -> ErrorModel {
        match self {
            Error::GetIfAddrsError(call, code) => ErrorModel::GetIfAddrs(call@, *code),
            Error::GetIfNameError(call, code) => ErrorModel::GetIfName(call@, *code),
            Error::ParseUtf8Error(bytes) => ErrorModel::ParseUtf8(bytes@),
            Error::ParseUtf16Error(units) => ErrorModel::ParseUtf16(units@),
        }
    }
}

} // verus!
