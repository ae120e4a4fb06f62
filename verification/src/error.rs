//! The errors of a chat session, in four classes.

use vstd::prelude::*;

verus! {

/// The byte stream failed or ended.
#[derive(Clone, Copy, Debug, PartialEq, Eq, Structural)]
pub enum TransportError {
    /// The peer closed the stream where a frame could have started.
    Closed,
    /// The stream ended inside a frame.
    ClosedMidFrame,
    /// Any other failure of the stream.
    Io,
}

/// Bytes or text that do not have the shape they should have.
#[derive(Clone, Copy, Debug, PartialEq, Eq, Structural)]
pub enum FormatError {
    /// A frame whose length prefix does not match its payload, or a payload
    /// too long for a length prefix.
    FrameLength,
    /// A handshake payload too short to hold a public key.
    Handshake,
    /// A message payload too short to hold a nonce.
    Envelope,
    /// Decrypted bytes that are not UTF-8.
    Encoding,
    /// Message text with fewer than two lines.
    MissingLines,
    /// A first line that does not hold exactly one `->`.
    Header,
    /// A second line that is not an unsigned 64-bit number.
    Timestamp,
}

/// A failure of a cryptographic operation.
#[derive(Clone, Copy, Debug, PartialEq, Eq, Structural)]
pub enum CryptoError {
    /// The ciphertext does not carry a valid authentication tag for the
    /// session key and nonce.
    Authentication,
    /// The operating system gave no random bytes.
    RandomSource,
}

/// A peer that does not keep to the protocol.
#[derive(Clone, Copy, Debug, PartialEq, Eq, Structural)]
pub enum ProtocolViolation {
    /// A handshake payload longer than a public key.
    HandshakeSize,
    /// A frame without payload where a payload is required.
    EmptyFrame,
    /// An event that cannot follow the events before it.
    OutOfOrder,
}

/// Everything that can go wrong in a chat session.
#[derive(Clone, Copy, Debug, PartialEq, Eq, Structural)]
pub enum ChatError {
    Transport(TransportError),
    Format(FormatError),
    Crypto(CryptoError),
    Protocol(ProtocolViolation),
}

impl ChatError {
    /// A transport error ends the session; any other error concerns one
    /// frame only.
    pub open spec fn is_terminal(self) -> bool {
        self is Transport
    }

    /// The peer closing the stream between frames is the orderly end of a
    /// session.
    pub open spec fn is_orderly_close(self) -> bool {
        self == ChatError::Transport(TransportError::Closed)
    }
}

} // verus!
