//! The errors of the library.
use vstd::prelude::*;

verus! {

/// What can go wrong in a link, its set-up and its bookkeeping.
#[derive(Debug, Clone, PartialEq, Eq)]
pub enum AetherError {
    /// The clock reads a time before an earlier reading.
    ElapsedTime,
    /// A lock shared between workers could not be taken.
    MutexLock,
    /// The link has been stopped.
    LinkStopped,
    /// No payload arrived within the time given to the call.
    RecvTimeout,
    /// Nothing arrived from the peer within the link's timeout.
    LinkTimeout,
    /// The socket's read timeout could not be set.
    SetReadTimeout,
    /// The user with this uid is not connected.
    NotConnected(String),
    /// A configuration text could not be read.
    YamlParse,
    /// A file could not be read.
    FileRead,
    /// A file could not be written.
    FileWrite,
    /// The peer with this uid answered the challenge wrongly.
    AuthenticationInvalid(String),
    /// The peer with this uid did not answer the challenge in time.
    AuthenticationFailed(String),
    /// An asymmetric or symmetric primitive failed.
    Crypto,
    /// Bytes that should be text are not UTF-8.
    FromUtf8,
    /// A text that should be base64 is not.
    Base64Decode,
    /// The handshake did not complete in time.
    HandshakeError,
    /// A sequence number lies beyond the acknowledgement window.
    WindowOverflow,
    /// A datagram is too short for the frame it announces.
    ParseError,
    /// An encrypted payload failed authentication or is too short.
    DecryptFailed,
}

} // verus!
