//! The secure channel: what an established session sends and accepts.
//!
//! A message travels as a frame whose payload is an envelope: the nonce in
//! 24 bytes, then the ciphertext. The ciphertext is the UTF-8 text form of
//! the message under XChaCha20-Poly1305 with the session key and that
//! nonce, without associated data.
//!
//! Nothing here touches a stream: `send_message` returns the bytes to
//! write, and `recieve_message` takes the payload of a frame that was read.

use crate::crypto::{
    aead_open, aead_seal, hkdf_sha256, hkdf_sha256_of, os_random, xchacha20poly1305_open,
    xchacha20poly1305_seal, NONCE_LEN, TAG_LEN,
};
use crate::error::{ChatError, CryptoError, FormatError, ProtocolViolation, TransportError};
use crate::frame::{
    frame_of, lemma_frame_round_trip, parse_frame, write_length_prefixed, LENGTH_PREFIX,
};
use crate::handshake::{fresh_handshake, Handshake, Role};
use crate::message::{
    format_message, is_canonical, lemma_round_trip, parse_message, Message, MessageView,
};
use crate::text::text_from_utf8;
use vstd::prelude::*;
use vstd::utf8::{decode_utf8, encode_utf8, valid_utf8};

verus! {

/// The label that sets the session key apart from any other key derived
/// from the same shared secret: the ASCII text `chat encryption key`.
pub const KEY_CONTEXT: [u8; 19] = [
    0x63, 0x68, 0x61, 0x74, 0x20, 0x65, 0x6e, 0x63, 0x72, 0x79, 0x70, 0x74, 0x69, 0x6f, 0x6e, 0x20,
    0x6b, 0x65, 0x79,
];

/// The longest plaintext whose envelope still fits a frame.
pub const MAX_PLAINTEXT: usize = 0xFFFF_FFD7;

/// The longest ciphertext that still fits a frame together with its nonce:
/// that of the longest plaintext, with its tag.
pub const MAX_CIPHERTEXT: usize = 0xFFFF_FFE7;

/// The session key for a shared secret: HKDF-SHA256 without salt, expanded
/// with `KEY_CONTEXT` to 32 bytes.
pub open spec fn session_key_of(shared_secret: Seq<u8>) -> Seq<u8> {
    hkdf_sha256_of(shared_secret, KEY_CONTEXT@)
}

// ---------------------------------------------------------------------------
// Envelopes
// ---------------------------------------------------------------------------

/// The payload that carries a nonce and a ciphertext.
pub open spec fn envelope_of(nonce: Seq<u8>, ciphertext: Seq<u8>) -> Seq<u8> {
    nonce + ciphertext
}

/// The nonce and the ciphertext that a payload carries.
pub open spec fn parse_envelope(payload: Seq<u8>) -> Result<(Seq<u8>, Seq<u8>), ChatError> {
    if payload.len() == 0 {
        Err(ChatError::Protocol(ProtocolViolation::EmptyFrame))
    } else if payload.len() < NONCE_LEN {
        Err(ChatError::Format(FormatError::Envelope))
    } else {
        Ok((payload.take(NONCE_LEN as int), payload.skip(NONCE_LEN as int)))
    }
}

/// Reading a written envelope gives nonce and ciphertext back.
pub proof fn lemma_envelope_round_trip(nonce: Seq<u8>, ciphertext: Seq<u8>)
    requires
        nonce.len() == NONCE_LEN,
    ensures
        parse_envelope(envelope_of(nonce, ciphertext)) == Ok::<(Seq<u8>, Seq<u8>), ChatError>(
            (nonce, ciphertext),
        ),
{
    let payload = envelope_of(nonce, ciphertext);
    assert(payload.take(NONCE_LEN as int) =~= nonce);
    assert(payload.skip(NONCE_LEN as int) =~= ciphertext);
}

/// A ciphertext with the nonce it was made with.
#[derive(Debug, PartialEq, Eq)]
pub struct EncryptedMessage {
    pub nonce: [u8; 24],
    pub ciphertext: Vec<u8>,
}

impl EncryptedMessage {
    /// The payload that carries the envelope: the nonce, then the
    /// ciphertext.
    pub fn to_bytes(&self) -> (payload: Vec<u8>)
        ensures
            payload@ == envelope_of(self.nonce@, self.ciphertext@),
    {
        let mut payload: Vec<u8> = Vec::new();
        let mut i: usize = 0;
        while i < 24
            invariant
                i <= 24,
                payload@ == self.nonce@.take(i as int),
            decreases 24 - i,
        {
            payload.push(self.nonce[i]);
            assert(self.nonce@.take(i as int).push(self.nonce@[i as int]) =~= self.nonce@.take(
                i as int + 1,
            ));
            i += 1;
        }
        let mut j: usize = 0;
        while j < self.ciphertext.len()
            invariant
                j <= self.ciphertext@.len(),
                payload@ == self.nonce@.take(24) + self.ciphertext@.take(j as int),
            decreases self.ciphertext@.len() - j,
        {
            payload.push(self.ciphertext[j]);
            assert(self.ciphertext@.take(j as int).push(self.ciphertext@[j as int])
                =~= self.ciphertext@.take(j as int + 1));
            j += 1;
        }
        proof {
            assert(self.nonce@.take(24) =~= self.nonce@);
            assert(self.ciphertext@.take(self.ciphertext@.len() as int) =~= self.ciphertext@);
        }
        payload
    }

    /// The envelope that `payload` carries.
    pub fn from_bytes(payload: &[u8]) -> (r: Result<EncryptedMessage, ChatError>)
        ensures
            match parse_envelope(payload@) {
                Ok((nonce, ciphertext)) => r matches Ok(envelope) && envelope.nonce@ == nonce
                    && envelope.ciphertext@ == ciphertext,
                Err(e) => r matches Err(err) && err == e,
            },
    {
        let len = payload.len();
        if len == 0 {
            return Err(ChatError::Protocol(ProtocolViolation::EmptyFrame));
        }
        if len < NONCE_LEN {
            return Err(ChatError::Format(FormatError::Envelope));
        }
        let mut nonce = [0u8; 24];
        let mut i: usize = 0;
        while i < 24
            invariant
                i <= 24 <= payload@.len(),
                forall|j: int| 0 <= j < i ==> nonce@[j] == payload@[j],
            decreases 24 - i,
        {
            nonce[i] = payload[i];
            i += 1;
        }
        let mut ciphertext: Vec<u8> = Vec::new();
        let mut k: usize = 24;
        while k < len
            invariant
                24 <= k <= len == payload@.len(),
                ciphertext@ == payload@.subrange(24, k as int),
            decreases len - k,
        {
            ciphertext.push(payload[k]);
            assert(payload@.subrange(24, k as int).push(payload@[k as int]) =~= payload@.subrange(
                24,
                k as int + 1,
            ));
            k += 1;
        }
        proof {
            assert(nonce@ =~= payload@.take(24));
        }
        Ok(EncryptedMessage { nonce, ciphertext })
    }
}

// ---------------------------------------------------------------------------
// What a session computes
// ---------------------------------------------------------------------------

/// What decryption under `key` makes of a nonce and a ciphertext. A
/// ciphertext too long to have come in a frame is refused for its length,
/// before the cipher looks at it.
pub open spec fn decrypted(key: Seq<u8>, nonce: Seq<u8>, ciphertext: Seq<u8>) -> Result<
    Seq<u8>,
    ChatError,
> {
    if ciphertext.len() > MAX_CIPHERTEXT {
        Err(ChatError::Format(FormatError::FrameLength))
    } else {
        match xchacha20poly1305_open(key, nonce, ciphertext) {
            Some(plaintext) => Ok(plaintext),
            None => Err(ChatError::Crypto(CryptoError::Authentication)),
        }
    }
}

/// The message that a plaintext stands for.
pub open spec fn message_of_plaintext(plaintext: Seq<u8>) -> Result<MessageView, ChatError> {
    if !valid_utf8(plaintext) {
        Err(ChatError::Format(FormatError::Encoding))
    } else {
        match parse_message(decode_utf8(plaintext)) {
            Ok(message) => Ok(message),
            Err(e) => Err(ChatError::Format(e)),
        }
    }
}

/// The plaintext of a message: its text form in UTF-8.
pub open spec fn plaintext_of(message: MessageView) -> Seq<u8> {
    encode_utf8(format_message(message))
}

/// What a session with `key` makes of the payload of a frame: the envelope
/// is taken apart, the ciphertext decrypted and the plaintext read as a
/// message. The first of these that fails gives the error.
pub open spec fn received(key: Seq<u8>, payload: Seq<u8>) -> Result<MessageView, ChatError> {
    match parse_envelope(payload) {
        Err(e) => Err(e),
        Ok((nonce, ciphertext)) => match decrypted(key, nonce, ciphertext) {
            Err(e) => Err(e),
            Ok(plaintext) => message_of_plaintext(plaintext),
        },
    }
}

/// The payload with which a session with `key` sends a message under
/// `nonce`.
pub open spec fn sealed(key: Seq<u8>, nonce: Seq<u8>, message: MessageView) -> Seq<u8> {
    envelope_of(nonce, xchacha20poly1305_seal(key, nonce, plaintext_of(message)))
}

/// The frame with which a session with `key` sends a message under `nonce`,
/// unless the text form of the message is too long for a frame.
pub open spec fn sent(key: Seq<u8>, nonce: Seq<u8>, message: MessageView) -> Result<
    Seq<u8>,
    ChatError,
> {
    if plaintext_of(message).len() <= MAX_PLAINTEXT {
        Ok(frame_of(sealed(key, nonce, message)))
    } else {
        Err(ChatError::Format(FormatError::FrameLength))
    }
}

/// The length of the frame that carries a message: the length prefix, the
/// nonce, the plaintext and the tag.
pub open spec fn frame_len(message: MessageView) -> int {
    LENGTH_PREFIX + NONCE_LEN + plaintext_of(message).len() + TAG_LEN
}

/// A frame shows the nonce it was sealed under, directly behind the length
/// prefix.
pub proof fn lemma_frame_shows_nonce(key: Seq<u8>, nonce: Seq<u8>, message: MessageView)
    requires
        nonce.len() == NONCE_LEN,
    ensures
        frame_of(sealed(key, nonce, message)).subrange(
            LENGTH_PREFIX as int,
            LENGTH_PREFIX + NONCE_LEN,
        ) == nonce,
{
    let frame = frame_of(sealed(key, nonce, message));
    assert(frame.subrange(LENGTH_PREFIX as int, LENGTH_PREFIX + NONCE_LEN) =~= nonce);
}

/// Frames sealed under different nonces differ, whatever they carry.
pub proof fn lemma_frames_differ_with_nonces(
    key: Seq<u8>,
    first: Seq<u8>,
    second: Seq<u8>,
    message: MessageView,
)
    requires
        first.len() == NONCE_LEN,
        second.len() == NONCE_LEN,
        first != second,
    ensures
        frame_of(sealed(key, first, message)) != frame_of(sealed(key, second, message)),
{
    lemma_frame_shows_nonce(key, first, message);
    lemma_frame_shows_nonce(key, second, message);
}

/// What the stream shows to a look that takes nothing from it and does not
/// wait.
#[derive(Clone, Copy, Debug, PartialEq, Eq, Structural)]
pub enum Peek {
    /// This many bytes could be looked at. None means that the peer has
    /// closed the stream.
    Bytes(usize),
    /// Nothing has arrived yet.
    WouldBlock,
    /// The look failed.
    Failed,
}

/// Whether data waits to be read, as a look at the stream shows it.
pub open spec fn data_available(peek: Peek) -> Result<bool, ChatError> {
    match peek {
        Peek::Bytes(n) => if n == 0 {
            Err(ChatError::Transport(TransportError::Closed))
        } else {
            Ok(true)
        },
        Peek::WouldBlock => Ok(false),
        Peek::Failed => Err(ChatError::Transport(TransportError::Io)),
    }
}

/// An established session: the key that both peers derived.
pub struct SessionCryptData {
    key: [u8; 32],
}

impl SessionCryptData {
    /// The session key.
    pub closed spec fn key(&self) -> Seq<u8> {
        self.key@
    }

    /// The session key for a shared secret.
    pub fn derive_key(shared_secret: &[u8]) -> (key: [u8; 32])
        ensures
            key@ == session_key_of(shared_secret@),
    {
        match hkdf_sha256(shared_secret, KEY_CONTEXT.as_slice()) {
            Some(key) => key,
            None => vstd::pervasive::unreached(),
        }
    }

    /// The session that follows from a shared secret.
    pub fn from_shared_secret(shared_secret: &[u8; 32]) -> (session: SessionCryptData)
        ensures
            session.key() == session_key_of(shared_secret@),
    {
        SessionCryptData { key: SessionCryptData::derive_key(shared_secret.as_slice()) }
    }

    /// The handshake of the peer that opened the connection: it sends its
    /// key first.
    pub fn start_session() -> (handshake: Handshake)
        ensures
            handshake@ == fresh_handshake(Role::Initiator),
    {
        Handshake::new(Role::Initiator)
    }

    /// The handshake of the peer that accepted the connection: it reads the
    /// other's key first.
    pub fn recieve_session() -> (handshake: Handshake)
        ensures
            handshake@ == fresh_handshake(Role::Responder),
    {
        Handshake::new(Role::Responder)
    }

    /// Encrypts `plaintext` under the session key and `nonce`. A plaintext
    /// too long for a frame is refused. What comes back decrypts to
    /// `plaintext`.
    pub fn encrypt_with(&self, nonce: [u8; 24], plaintext: &[u8]) -> (r: Result<
        EncryptedMessage,
        ChatError,
    >)
        ensures
            r is Ok <==> plaintext@.len() <= MAX_PLAINTEXT,
            r matches Ok(envelope) ==> {
                &&& envelope.nonce@ == nonce@
                &&& envelope.ciphertext@ == xchacha20poly1305_seal(self.key(), nonce@, plaintext@)
                &&& envelope.ciphertext@.len() == plaintext@.len() + TAG_LEN
                &&& decrypted(self.key(), nonce@, envelope.ciphertext@) == Ok::<
                    Seq<u8>,
                    ChatError,
                >(plaintext@)
            },
            r matches Err(e) ==> e == ChatError::Format(FormatError::FrameLength),
    {
        if plaintext.len() > MAX_PLAINTEXT {
            return Err(ChatError::Format(FormatError::FrameLength));
        }
        match aead_seal(&self.key, &nonce, plaintext) {
            Some(ciphertext) => Ok(EncryptedMessage { nonce, ciphertext }),
            None => vstd::pervasive::unreached(),
        }
    }

    /// Encrypts `plaintext` under the session key and a fresh random nonce.
    /// What comes back decrypts to `plaintext`.
    pub fn encrypt(&self, plaintext: &[u8]) -> (r: Result<EncryptedMessage, ChatError>)
        ensures
            r matches Ok(envelope) ==> {
                &&& plaintext@.len() <= MAX_PLAINTEXT
                &&& envelope.ciphertext@ == xchacha20poly1305_seal(
                    self.key(),
                    envelope.nonce@,
                    plaintext@,
                )
                &&& envelope.ciphertext@.len() == plaintext@.len() + TAG_LEN
                &&& decrypted(self.key(), envelope.nonce@, envelope.ciphertext@) == Ok::<
                    Seq<u8>,
                    ChatError,
                >(plaintext@)
            },
            r matches Err(e) ==> {
                ||| e == ChatError::Crypto(CryptoError::RandomSource)
                ||| plaintext@.len() > MAX_PLAINTEXT && e == ChatError::Format(
                    FormatError::FrameLength,
                )
            },
    {
        match os_random::<24>() {
            Some(nonce) => self.encrypt_with(nonce, plaintext),
            None => Err(ChatError::Crypto(CryptoError::RandomSource)),
        }
    }

    /// Decrypts `ciphertext` under the session key and `nonce`. A
    /// ciphertext too long for a frame is refused for its length, and one
    /// whose tag does not fit as not authentic.
    pub fn decrypt(&self, nonce: &[u8; 24], ciphertext: &[u8]) -> (r: Result<Vec<u8>, ChatError>)
        ensures
            match decrypted(self.key(), nonce@, ciphertext@) {
                Ok(plaintext) => r matches Ok(p) && p@ == plaintext,
                Err(e) => r matches Err(err) && err == e,
            },
    {
        if ciphertext.len() > MAX_CIPHERTEXT {
            return Err(ChatError::Format(FormatError::FrameLength));
        }
        match aead_open(&self.key, nonce, ciphertext) {
            Some(plaintext) => Ok(plaintext),
            None => Err(ChatError::Crypto(CryptoError::Authentication)),
        }
    }

    /// The frame that carries `message` under `nonce`. A message whose text
    /// form is too long for a frame is refused. The frame is as long as
    /// length prefix, nonce, text form in UTF-8 and tag together. The peer's
    /// `recieve_message` makes of the frame's payload what `from_string`
    /// makes of the text form: a canonical message arrives unchanged.
    pub fn seal_message(&self, message: &Message, nonce: [u8; 24]) -> (r: Result<
        Vec<u8>,
        ChatError,
    >)
        ensures
            match sent(self.key(), nonce@, message@) {
                Ok(frame) => r matches Ok(bytes) && bytes@ == frame,
                Err(e) => r matches Err(err) && err == e,
            },
            r matches Ok(bytes) ==> bytes@.len() == frame_len(message@),
            r is Ok ==> {
                let payload = sealed(self.key(), nonce@, message@);
                &&& parse_frame(frame_of(payload)) == Ok::<Seq<u8>, ChatError>(payload)
                &&& received(self.key(), payload) == message_of_plaintext(plaintext_of(message@))
                &&& is_canonical(message@) ==> received(self.key(), payload) == Ok::<
                    MessageView,
                    ChatError,
                >(message@)
            },
    {
        let text = message.to_string();
        let envelope = match self.encrypt_with(nonce, text.as_str().as_bytes()) {
            Ok(envelope) => envelope,
            Err(e) => {
                return Err(e);
            },
        };
        let payload = envelope.to_bytes();
        proof {
            lemma_envelope_round_trip(nonce@, envelope.ciphertext@);
            lemma_frame_round_trip(payload@);
            vstd::utf8::encode_utf8_valid_utf8(format_message(message@));
            vstd::utf8::encode_utf8_decode_utf8(format_message(message@));
            if is_canonical(message@) {
                lemma_round_trip(message@);
            }
        }
        write_length_prefixed(payload.as_slice())
    }

    /// The frame that carries `message` under a fresh random nonce; see
    /// `seal_message`. The bytes are to be written to the stream as they
    /// are.
    pub fn send_message(&self, message: Message) -> (r: Result<Vec<u8>, ChatError>)
        ensures
            r matches Ok(frame) ==> frame@.len() == frame_len(message@),
            r matches Ok(frame) ==> exists|nonce: Seq<u8>|
                {
                    &&& nonce.len() == NONCE_LEN
                    &&& #[trigger] sent(self.key(), nonce, message@) == Ok::<Seq<u8>, ChatError>(
                        frame@,
                    )
                    &&& received(self.key(), sealed(self.key(), nonce, message@))
                        == message_of_plaintext(plaintext_of(message@))
                },
            r matches Err(e) ==> {
                ||| e == ChatError::Crypto(CryptoError::RandomSource)
                ||| plaintext_of(message@).len() > MAX_PLAINTEXT && e == ChatError::Format(
                    FormatError::FrameLength,
                )
            },
    {
        match os_random::<24>() {
            Some(nonce) => self.seal_message(&message, nonce),
            None => Err(ChatError::Crypto(CryptoError::RandomSource)),
        }
    }

    /// The message that the payload of a frame carries. A payload that is
    /// refused leaves the session as it was.
    pub fn recieve_message(&self, payload: &[u8]) -> (r: Result<Message, ChatError>)
        ensures
            match received(self.key(), payload@) {
                Ok(message) => r matches Ok(m) && m@ == message,
                Err(e) => r matches Err(err) && err == e,
            },
    {
        let envelope = match EncryptedMessage::from_bytes(payload) {
            Ok(envelope) => envelope,
            Err(e) => {
                return Err(e);
            },
        };
        let plaintext = match self.decrypt(&envelope.nonce, envelope.ciphertext.as_slice()) {
            Ok(plaintext) => plaintext,
            Err(e) => {
                return Err(e);
            },
        };
        match text_from_utf8(plaintext) {
            Some(text) => Message::from_string(text),
            None => Err(ChatError::Format(FormatError::Encoding)),
        }
    }

    /// Whether data waits to be read, for what a look at the stream showed:
    /// bytes mean yes, nothing yet means no, and no bytes at all mean that
    /// the peer has closed the stream.
    pub fn check_data_available(&self, peek: Peek) -> (r: Result<bool, ChatError>)
        ensures
            r == data_available(peek),
    {
        match peek {
            Peek::Bytes(n) => if n == 0 {
                Err(ChatError::Transport(TransportError::Closed))
            } else {
                Ok(true)
            },
            Peek::WouldBlock => Ok(false),
            Peek::Failed => Err(ChatError::Transport(TransportError::Io)),
        }
    }

    /// Whether waiting for data is over, for what the latest look at the
    /// stream showed: `None` while nothing has arrived, else how the wait
    /// ended.
    pub fn wait_data_available(&self, peek: Peek) -> (r: Option<Result<(), ChatError>>)
        ensures
            r == match data_available(peek) {
                Ok(true) => Some(Ok::<(), ChatError>(())),
                Ok(false) => None,
                Err(e) => Some(Err::<(), ChatError>(e)),
            },
    {
        match self.check_data_available(peek) {
            Ok(true) => Some(Ok(())),
            Ok(false) => None,
            Err(e) => Some(Err(e)),
        }
    }
}

} // verus!
