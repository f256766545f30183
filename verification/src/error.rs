//! What can go wrong while a tunnel's bytes are framed.

use vstd::prelude::*;

verus! {

/// The kinds of input and output error that the proxy tells apart.
#[derive(Clone, Copy, Debug, PartialEq, Eq, Structural)]
pub enum IoErrorKind {
    AddrNotAvailable,
    HostUnreachable,
    NetworkUnreachable,
    ConnectionRefused,
    TimedOut,
    InvalidData,
    InvalidInput,
    UnexpectedEof,
    Other,
}

/// A violation of the framing rules.
#[derive(Clone, Copy, Debug, PartialEq, Eq, Structural)]
pub enum ProtocolError {
    InvalidCapsuleHeader,
    TruncatedCapsule,
    CapsuleTooLarge,
    InvalidStreamId,
    MissingContextId,
}

impl ProtocolError {
    /// The kind under which the violation is reported.
    pub open spec fn spec_kind(self) -> IoErrorKind {
        match self {
            ProtocolError::TruncatedCapsule => IoErrorKind::UnexpectedEof,
            _ => IoErrorKind::InvalidData,
        }
    }

    /// The words with which the violation is reported.
    pub open spec fn spec_message(self) -> Seq<char> {
        match self {
            ProtocolError::InvalidCapsuleHeader => "invalid capsule header"@,
            ProtocolError::TruncatedCapsule => "truncated capsule"@,
            ProtocolError::CapsuleTooLarge => "capsule payload too large"@,
            ProtocolError::InvalidStreamId => "invalid request stream ID"@,
            ProtocolError::MissingContextId => "missing CONNECT-UDP context ID"@,
        }
    }

    /// The kind under which the violation is reported.
    pub fn kind(self) -> (res: IoErrorKind)
        ensures
            res == self.spec_kind(),
    {
        match self {
            ProtocolError::TruncatedCapsule => IoErrorKind::UnexpectedEof,
            _ => IoErrorKind::InvalidData,
        }
    }

    /// The words with which the violation is reported.
    pub fn message(self) -> (res: &'static str)
        ensures
            res@ == self.spec_message(),
    {
        match self {
            ProtocolError::InvalidCapsuleHeader => "invalid capsule header",
            ProtocolError::TruncatedCapsule => "truncated capsule",
            ProtocolError::CapsuleTooLarge => "capsule payload too large",
            ProtocolError::InvalidStreamId => "invalid request stream ID",
            ProtocolError::MissingContextId => "missing CONNECT-UDP context ID",
        }
    }
}

} // verus!
