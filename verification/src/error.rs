//! Error model of the library.
//!
//! Every fallible operation returns one of the kinds below.  The pure
//! functions of this crate only ever produce `Validation`, `WireFormat` or
//! `Protocol`; the remaining kinds exist so that the transport layer that
//! embeds the library can report its own failures in the same type.

use vstd::prelude::*;

verus! {

/// Symbolic name of a non-zero SLMP end code returned by the server.
#[derive(Clone, Copy, Debug, PartialEq, Eq, Structural)]
pub enum ProtocolCode {
    WrongCommand,
    WrongFormat,
    WrongLength,
    Busy,
    ExceedReqLength,
    ExceedRespLength,
    ServerNotFound,
    WrongConfigItem,
    PrmIDNotFound,
    NotStartExclusiveWrite,
    RelayFailure,
    TimeoutError,
    Unknown,
}

/// Error kind of every fallible operation of the library.
#[derive(Clone, Copy, Debug, PartialEq, Eq, Structural)]
pub enum SLMPError {
    /// Bad input caught before any I/O: password length, over-long string,
    /// unrepresentable Shift-JIS character, too many access points.
    Validation,
    /// Connect, send or receive did not finish in time (transport layer).
    Timeout,
    /// Operation on a session with no live stream (transport layer).
    NotConnected,
    /// Response envelope malformed: short frame, wrong length field,
    /// wrong response code, or mismatched identity fields.
    WireFormat,
    /// Server answered with a non-zero end code; carries the symbolic name
    /// and the raw code.
    Protocol(ProtocolCode, u16),
    /// Underlying TCP or DNS failure (transport layer).
    Io,
}

/// Symbolic name for a non-zero end code, `Unknown` for any code outside
/// the documented table.
pub open spec fn spec_protocol_code_of(code: u16) -> ProtocolCode {
    if code == 0xC059 {
        ProtocolCode::WrongCommand
    } else if code == 0xC05C {
        ProtocolCode::WrongFormat
    } else if code == 0xC061 {
        ProtocolCode::WrongLength
    } else if code == 0xCEE0 {
        ProtocolCode::Busy
    } else if code == 0xCEE1 {
        ProtocolCode::ExceedReqLength
    } else if code == 0xCEE2 {
        ProtocolCode::ExceedRespLength
    } else if code == 0xCF10 {
        ProtocolCode::ServerNotFound
    } else if code == 0xCF20 {
        ProtocolCode::WrongConfigItem
    } else if code == 0xCF30 {
        ProtocolCode::PrmIDNotFound
    } else if code == 0xCF31 {
        ProtocolCode::NotStartExclusiveWrite
    } else if code == 0xCF70 {
        ProtocolCode::RelayFailure
    } else if code == 0xCF71 {
        ProtocolCode::TimeoutError
    } else {
        ProtocolCode::Unknown
    }
}

impl ProtocolCode {
    /// Translate a non-zero end code into its symbolic name.
    pub fn from_end_code(code: u16) -> (r: ProtocolCode)
        ensures
            r == spec_protocol_code_of(code),
    {
        match code {
            0xC059 => ProtocolCode::WrongCommand,
            0xC05C => ProtocolCode::WrongFormat,
            0xC061 => ProtocolCode::WrongLength,
            0xCEE0 => ProtocolCode::Busy,
            0xCEE1 => ProtocolCode::ExceedReqLength,
            0xCEE2 => ProtocolCode::ExceedRespLength,
            0xCF10 => ProtocolCode::ServerNotFound,
            0xCF20 => ProtocolCode::WrongConfigItem,
            0xCF30 => ProtocolCode::PrmIDNotFound,
            0xCF31 => ProtocolCode::NotStartExclusiveWrite,
            0xCF70 => ProtocolCode::RelayFailure,
            0xCF71 => ProtocolCode::TimeoutError,
            _ => ProtocolCode::Unknown,
        }
    }
}

impl SLMPError {
    /// Short human-readable name of the error kind.
    pub fn describe(&self) -> &'static str {
        match self {
            SLMPError::Validation => "validation error",
            SLMPError::Timeout => "timeout",
            SLMPError::NotConnected => "not connected",
            SLMPError::WireFormat => "invalid response frame",
            SLMPError::Protocol(_, _) => "server returned an error code",
            SLMPError::Io => "i/o error",
        }
    }
}

} // verus!
