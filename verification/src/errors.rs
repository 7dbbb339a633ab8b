//! Error values surfaced by the library.

use vstd::prelude::*;

verus! {

/// Everything that can go wrong inside the SIP core.
#[derive(Clone, Copy, Debug, PartialEq, Eq, Structural)]
pub enum SipError {
    /// The underlying transport was closed or its channel hung up.
    TransportClosed,
    /// The REGISTER handshake ended with this status code.
    RegisterFailed(u16),
    /// A remote session description could not be understood.
    InvalidSdp,
    /// The remote offer contained no codec this library supports.
    NoCompatibleCodec,
    /// The request needs credentials the caller has not supplied.
    AuthRequired,
    /// The peer cancelled the call before it was answered.
    Cancelled,
    /// The call has already been terminated.
    AlreadyTerminated,
    /// A frame on the wire was not a well-formed SIP message.
    MalformedMessage,
    /// A message declared a body larger than the decoder accepts.
    BodyTooLarge,
    /// A dialog with this Call-ID is already routed.
    DuplicateCallId,
    /// A required header was absent or unreadable.
    MissingHeader,
    /// The configured RTP port range is empty.
    InvalidPortRange,
}

impl SipError {
    /// A short human-readable name for the error.
    pub fn describe(&self) -> &'static str {
        match self {
            SipError::TransportClosed => "transport closed",
            SipError::RegisterFailed(_) => "registration failed",
            SipError::InvalidSdp => "invalid sdp",
            SipError::NoCompatibleCodec => "no compatible codec",
            SipError::AuthRequired => "authentication required",
            SipError::Cancelled => "cancelled",
            SipError::AlreadyTerminated => "already terminated",
            SipError::MalformedMessage => "malformed message",
            SipError::BodyTooLarge => "body too large",
            SipError::DuplicateCallId => "duplicate call id",
            SipError::MissingHeader => "missing header",
            SipError::InvalidPortRange => "invalid rtp port range",
        }
    }
}

} // verus!
