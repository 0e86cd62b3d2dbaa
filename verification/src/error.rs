//! The error taxonomy shared by every component of the protocol engine.

use vstd::prelude::*;

verus! {

/// A per-packet or per-session failure. None of these is fatal to the
/// process: the caller decides whether to log, retry or drop the peer.
#[derive(Clone, Copy, Debug, PartialEq, Eq, Structural)]
pub enum Error {
    /// The version byte of a datagram names a protocol this engine does not speak.
    UnknownProtocolVersion,
    /// Key bytes that do not decode to a usable key.
    InvalidKeyEncoding,
    /// An authentication tag did not verify.
    AuthenticationFailed,
    /// A counter that was already accepted, or that fell behind the window.
    ReplayDetected,
    /// A handshake that did not complete before its deadline.
    NegotiationTimedOut,
    /// A session that ran into its usage ceiling, or that no longer exists.
    SessionExpired,
    /// A datagram whose layout is not one this engine emits.
    MalformedPacket,
    /// A table or buffer limit was reached.
    ResourceExhausted,
}

impl Error {
    /// The text that [`Error::to_string`] produces.
    pub open spec fn text(self) -> Seq<char> {
        match self {
            Error::UnknownProtocolVersion => "unknown protocol version"@,
            Error::InvalidKeyEncoding => "invalid key encoding"@,
            Error::AuthenticationFailed => "authentication failed"@,
            Error::ReplayDetected => "replay detected"@,
            Error::NegotiationTimedOut => "negotiation timed out"@,
            Error::SessionExpired => "session expired"@,
            Error::MalformedPacket => "malformed packet"@,
            Error::ResourceExhausted => "resource exhausted"@,
        }
    }

    /// A short human-readable description of the error.
    pub fn to_string(&self) -> (s: String)
        ensures
            s@ == self.text(),
    {
        match self {
            Error::UnknownProtocolVersion => "unknown protocol version".to_owned(),
            Error::InvalidKeyEncoding => "invalid key encoding".to_owned(),
            Error::AuthenticationFailed => "authentication failed".to_owned(),
            Error::ReplayDetected => "replay detected".to_owned(),
            Error::NegotiationTimedOut => "negotiation timed out".to_owned(),
            Error::SessionExpired => "session expired".to_owned(),
            Error::MalformedPacket => "malformed packet".to_owned(),
            Error::ResourceExhausted => "resource exhausted".to_owned(),
        }
    }
}

} // verus!
