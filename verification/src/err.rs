//! Error taxonomy of the handshake: every failure aborts only the current
//! connection.

use vstd::prelude::*;

verus! {

/// Why a connection's handshake was abandoned.
#[derive(Clone, Copy, Debug, PartialEq, Eq, Structural)]
pub enum HandshakeError {
    /// Fewer bytes were available than a fixed-layout field requires.
    TruncatedInput,
    /// The decrypted payload is not a well-formed request.
    MalformedRequest,
    /// A read or write on the transport failed.
    IoError,
}

impl HandshakeError {
    /// A short human-readable description, for reporting at the transport
    /// boundary.
    pub fn describe(&self) -> (r: &'static str)
        ensures
            r@ == self.describe_spec(),
    {
        match self {
            HandshakeError::TruncatedInput => "truncated input",
            HandshakeError::MalformedRequest => "malformed request",
            HandshakeError::IoError => "transport i/o failure",
        }
    }

    pub open spec fn describe_spec(self) -> Seq<char> {
        match self {
            HandshakeError::TruncatedInput => "truncated input"@,
            HandshakeError::MalformedRequest => "malformed request"@,
            HandshakeError::IoError => "transport i/o failure"@,
        }
    }
}

} // verus!
