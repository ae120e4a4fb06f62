//! Encrypted chat sessions between two peers over one reliable byte stream.
//!
//! Two peers exchange ephemeral X25519 public keys, derive a session key
//! with HKDF-SHA256, and from then on send each message as one frame that
//! holds a fresh nonce and the XChaCha20-Poly1305 ciphertext of the
//! message's text form.
//!
//! The library computes and decides; it never touches a stream or a
//! terminal. It tells its caller which bytes to write and what to read
//! next, and takes what was read:
//!
//! * [`frame`]: length-prefixed frames, whole or piece by piece.
//! * [`handshake`]: key pairs, the handshake payload, and the order in
//!   which initiator and responder send and read.
//! * [`session`]: the established session, which seals and opens messages.
//! * [`message`]: chat messages and their text form.
//! * [`runtime`]: the states of a session from handshake to close.
//! * [`window`]: the transcript and the input line of the operator.
//! * [`text`]: the character-level rules under the text form.
//! * [`crypto`]: the cryptographic primitives, and what is taken on trust
//!   about them.
//! * [`error`]: the errors.
//!
//! Every function is verified against its contract, save the calls into
//! the crates that compute the primitives and two functions of `String`:
//! [`crypto`] and [`text`] list them with what is believed of each. The
//! contracts are stated over byte and character sequences, and the modules
//! state as lemmas what connects them: what is written reads back as it
//! was.

pub mod crypto;
pub mod error;
pub mod frame;
pub mod handshake;
pub mod message;
pub mod runtime;
pub mod session;
pub mod text;
pub mod window;

pub use error::{ChatError, CryptoError, FormatError, ProtocolViolation, TransportError};
pub use message::{message, Message};
pub use session::SessionCryptData;
pub use window::ChatWindow;
