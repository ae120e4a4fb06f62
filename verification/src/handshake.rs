//! The key exchange that opens a session.
//!
//! Each peer sends one frame with its public key and reads one frame with
//! the other's. The initiator sends first and then reads; the responder
//! reads first and then sends. Both derive the session key from their own
//! secret and the other's public key. Neither key is authenticated.
//!
//! `Handshake::step` decides what the transport has to do next; the caller
//! does it and reports back.

use crate::crypto::{
    key_agreement, os_random, x25519_basepoint, x25519_of, x25519_scalar_mult, KEY_LEN,
};
use crate::error::{ChatError, CryptoError, FormatError, ProtocolViolation, TransportError};
use crate::frame::{frame_of, lemma_frame_round_trip, parse_frame, write_length_prefixed};
use crate::session::{session_key_of, SessionCryptData};
use vstd::prelude::*;

verus! {

// ---------------------------------------------------------------------------
// Key pairs
// ---------------------------------------------------------------------------

/// `public` is the public key of `secret`.
pub open spec fn is_key_pair(secret: Seq<u8>, public: Seq<u8>) -> bool {
    &&& secret.len() == KEY_LEN
    &&& public.len() == KEY_LEN
    &&& public == x25519_of(secret, x25519_basepoint())
    &&& key_agreement(secret, public)
}

/// Two parties that exchange their public keys compute the same shared
/// secret, and so derive the same session key.
pub proof fn lemma_session_keys_agree(
    secret_a: Seq<u8>,
    public_a: Seq<u8>,
    secret_b: Seq<u8>,
    public_b: Seq<u8>,
)
    requires
        is_key_pair(secret_a, public_a),
        is_key_pair(secret_b, public_b),
    ensures
        x25519_of(secret_a, public_b) == x25519_of(secret_b, public_a),
        session_key_of(x25519_of(secret_a, public_b)) == session_key_of(
            x25519_of(secret_b, public_a),
        ),
{
    assert(x25519_of(secret_b, public_a) == x25519_of(
        secret_a,
        x25519_of(secret_b, x25519_basepoint()),
    ));
}

/// An ephemeral secret and its public key. It is made for one session and
/// used up by the one shared secret computed from it.
pub struct KeyPair {
    secret: [u8; 32],
    public: [u8; 32],
}

impl KeyPair {
    #[verifier::type_invariant]
    spec fn belongs_together(self) -> bool {
        is_key_pair(self.secret@, self.public@)
    }

    /// The secret scalar.
    pub closed spec fn secret(self) -> Seq<u8> {
        self.secret@
    }

    /// The public key.
    pub closed spec fn public(self) -> Seq<u8> {
        self.public@
    }

    /// The key pair of a secret.
    pub fn from_secret(secret: [u8; 32]) -> (pair: KeyPair)
        ensures
            pair.secret() == secret@,
            is_key_pair(pair.secret(), pair.public()),
    {
        let mut basepoint = [0u8; 32];
        basepoint[0] = 9;
        proof {
            assert(basepoint@ =~= x25519_basepoint());
        }
        let public = x25519_scalar_mult(&secret, &basepoint);
        KeyPair { secret, public }
    }

    /// The public key, to be sent to the peer.
    pub fn public_key(&self) -> (key: [u8; 32])
        ensures
            key@ == self.public(),
            is_key_pair(self.secret(), self.public()),
    {
        proof {
            use_type_invariant(self);
        }
        self.public
    }

    /// The secret shared with the owner of `peer_public`. A peer that made
    /// `peer_public` from its secret computes the same from this pair's
    /// public key.
    pub fn diffie_hellman(self, peer_public: &[u8; 32]) -> (shared: [u8; 32])
        ensures
            shared@ == x25519_of(self.secret(), peer_public@),
            forall|peer_secret: Seq<u8>|
                is_key_pair(peer_secret, peer_public@) ==> shared@ == #[trigger] x25519_of(
                    peer_secret,
                    self.public(),
                ),
    {
        proof {
            use_type_invariant(&self);
            assert forall|peer_secret: Seq<u8>|
                is_key_pair(peer_secret, peer_public@) implies x25519_of(
                self.secret(),
                peer_public@,
            ) == #[trigger] x25519_of(peer_secret, self.public()) by {
                lemma_session_keys_agree(
                    self.secret(),
                    self.public(),
                    peer_secret,
                    peer_public@,
                );
            }
        }
        x25519_scalar_mult(&self.secret, peer_public)
    }
}

// ---------------------------------------------------------------------------
// The handshake payload
// ---------------------------------------------------------------------------

/// The public key that a handshake payload carries: the payload itself, if
/// it is exactly as long as a key.
pub open spec fn parse_handshake(payload: Seq<u8>) -> Result<Seq<u8>, ChatError> {
    if payload.len() == 0 {
        Err(ChatError::Protocol(ProtocolViolation::EmptyFrame))
    } else if payload.len() < KEY_LEN {
        Err(ChatError::Format(FormatError::Handshake))
    } else if payload.len() > KEY_LEN {
        Err(ChatError::Protocol(ProtocolViolation::HandshakeSize))
    } else {
        Ok(payload)
    }
}

/// What each peer tells the other in the handshake: its public key.
#[derive(Clone, Copy, Debug, PartialEq, Eq)]
pub struct HandshakeData {
    pub public_key: [u8; 32],
}

impl HandshakeData {
    /// The payload that carries the public key: its 32 bytes.
    pub fn to_bytes(&self) -> (payload: Vec<u8>)
        ensures
            payload@ == self.public_key@,
            parse_handshake(payload@) == Ok::<Seq<u8>, ChatError>(self.public_key@),
    {
        let mut payload: Vec<u8> = Vec::new();
        let mut i: usize = 0;
        while i < 32
            invariant
                i <= 32,
                payload@ == self.public_key@.take(i as int),
            decreases 32 - i,
        {
            payload.push(self.public_key[i]);
            assert(self.public_key@.take(i as int).push(self.public_key@[i as int])
                =~= self.public_key@.take(i as int + 1));
            i += 1;
        }
        proof {
            assert(self.public_key@.take(32) =~= self.public_key@);
        }
        payload
    }

    /// The public key that `payload` carries.
    pub fn from_bytes(payload: &[u8]) -> (r: Result<HandshakeData, ChatError>)
        ensures
            match parse_handshake(payload@) {
                Ok(key) => r matches Ok(data) && data.public_key@ == key,
                Err(e) => r matches Err(err) && err == e,
            },
    {
        let len = payload.len();
        if len == 0 {
            return Err(ChatError::Protocol(ProtocolViolation::EmptyFrame));
        }
        if len < KEY_LEN {
            return Err(ChatError::Format(FormatError::Handshake));
        }
        if len > KEY_LEN {
            return Err(ChatError::Protocol(ProtocolViolation::HandshakeSize));
        }
        let mut public_key = [0u8; 32];
        let mut i: usize = 0;
        while i < 32
            invariant
                i <= 32 == payload@.len(),
                forall|j: int| 0 <= j < i ==> public_key@[j] == payload@[j],
            decreases 32 - i,
        {
            public_key[i] = payload[i];
            i += 1;
        }
        proof {
            assert(public_key@ =~= payload@);
        }
        Ok(HandshakeData { public_key })
    }
}

// ---------------------------------------------------------------------------
// The order of the exchange
// ---------------------------------------------------------------------------

/// The side of a peer in the handshake.
#[derive(Clone, Copy, Debug, PartialEq, Eq, Structural)]
pub enum Role {
    /// The peer that opened the connection. It sends its key first.
    Initiator,
    /// The peer that accepted the connection. It reads the other's key
    /// first.
    Responder,
}

/// How far a handshake has come.
#[derive(Clone, Copy, Debug, PartialEq, Eq, Structural)]
pub enum Stage {
    /// Nothing has been sent or read.
    Fresh,
    /// The frame with the own key is being written.
    Sending,
    /// The frame with the peer's key is being read.
    Receiving,
}

/// A handshake under way. The key pair is made when the own key is due:
/// by the initiator at the start, by the responder once it has read the
/// initiator's key.
pub struct Handshake {
    role: Role,
    stage: Stage,
    keys: Option<KeyPair>,
    peer: Option<[u8; 32]>,
}

/// A handshake under way, as plain mathematical data: the own key pair as
/// secret and public key, and the peer's public key.
pub struct HandshakeView {
    pub role: Role,
    pub stage: Stage,
    pub keys: Option<(Seq<u8>, Seq<u8>)>,
    pub peer: Option<Seq<u8>>,
}

impl View for Handshake {
    type V = HandshakeView;

    closed spec fn view(&self) -> HandshakeView {
        HandshakeView {
            role: self.role,
            stage: self.stage,
            keys: match self.keys {
                Some(pair) => Some((pair.secret(), pair.public())),
                None => None,
            },
            peer: match self.peer {
                Some(key) => Some(key@),
                None => None,
            },
        }
    }
}

/// What the transport reports to the handshake.
pub enum HandshakeEvent {
    /// The connection stands.
    Start,
    /// The bytes of the last `Send` have been written.
    Sent,
    /// A frame with this payload has been read.
    Received(Vec<u8>),
    /// Writing or reading failed.
    Failed(TransportError),
}

/// What the transport reports to the handshake, as plain mathematical data.
pub enum HandshakeEventView {
    Start,
    Sent,
    Received(Seq<u8>),
    Failed(TransportError),
}

impl View for HandshakeEvent {
    type V = HandshakeEventView;

    open spec fn view(&self) -> HandshakeEventView {
        match *self {
            HandshakeEvent::Start => HandshakeEventView::Start,
            HandshakeEvent::Sent => HandshakeEventView::Sent,
            HandshakeEvent::Received(payload) => HandshakeEventView::Received(payload@),
            HandshakeEvent::Failed(e) => HandshakeEventView::Failed(e),
        }
    }
}

/// What the handshake asks of the transport next, or how it ended.
pub enum HandshakeStep {
    /// Write these bytes, then report `Sent`.
    Send(Handshake, Vec<u8>),
    /// Read one frame, then report `Received` with its payload.
    Receive(Handshake),
    /// The session stands.
    Established(SessionCryptData),
    /// No session; nothing of the handshake is usable.
    Failed(ChatError),
}

/// A step of the handshake as plain mathematical data; a session is given by
/// its key.
pub enum HandshakeStepView {
    Send(HandshakeView, Seq<u8>),
    Receive(HandshakeView),
    Established(Seq<u8>),
    Failed(ChatError),
}

impl View for HandshakeStep {
    type V = HandshakeStepView;

    open spec fn view(&self) -> HandshakeStepView {
        match *self {
            HandshakeStep::Send(handshake, bytes) => HandshakeStepView::Send(handshake@, bytes@),
            HandshakeStep::Receive(handshake) => HandshakeStepView::Receive(handshake@),
            HandshakeStep::Established(session) => HandshakeStepView::Established(session.key()),
            HandshakeStep::Failed(e) => HandshakeStepView::Failed(e),
        }
    }
}

/// The session key that the owner of `secret` derives with a peer's public
/// key.
pub open spec fn agreed_key(secret: Seq<u8>, peer_public: Seq<u8>) -> Seq<u8> {
    session_key_of(x25519_of(secret, peer_public))
}

/// The handshake has made its key pair, and it is one: the public key is
/// that of the secret, and whoever has it reaches the owner's shared secret.
pub open spec fn holds_key_pair(h: HandshakeView) -> bool {
    h.keys matches Some((secret, public)) && is_key_pair(secret, public)
}

/// A handshake at its start.
pub open spec fn fresh_handshake(role: Role) -> HandshakeView {
    HandshakeView { role, stage: Stage::Fresh, keys: None, peer: None }
}

/// The step at which the own key is due: with a fresh secret, the key pair
/// is made and the frame with the public key goes out; without one, the
/// handshake has failed.
pub open spec fn send_fresh_key(h: HandshakeView, fresh: Option<Seq<u8>>) -> HandshakeStepView {
    match fresh {
        Some(secret) => {
            let public = x25519_of(secret, x25519_basepoint());
            HandshakeStepView::Send(
                HandshakeView { stage: Stage::Sending, keys: Some((secret, public)), ..h },
                frame_of(public),
            )
        },
        None => HandshakeStepView::Failed(ChatError::Crypto(CryptoError::RandomSource)),
    }
}

/// The step at which both keys are there: the session stands.
pub open spec fn establish(h: HandshakeView) -> HandshakeStepView {
    match (h.keys, h.peer) {
        (Some((secret, _)), Some(peer)) => HandshakeStepView::Established(agreed_key(secret, peer)),
        _ => HandshakeStepView::Failed(ChatError::Protocol(ProtocolViolation::OutOfOrder)),
    }
}

/// The handshake: what follows from a state and an event. `fresh` is the
/// secret that the operating system's random source gave for a new key
/// pair; it is looked at only where a key pair is made.
///
/// The initiator makes its key pair and sends its key, then reads the
/// peer's, and has a session. The responder reads the peer's key, makes its
/// key pair and sends its own key, and has a session once that is written.
/// A failure of the transport, a payload that is no public key, a random
/// source that gives nothing and an event out of turn end the handshake.
pub open spec fn handshake_step(
    h: HandshakeView,
    event: HandshakeEventView,
    fresh: Option<Seq<u8>>,
) -> HandshakeStepView {
    match (event, h.role, h.stage) {
        (HandshakeEventView::Failed(e), _, _) => HandshakeStepView::Failed(ChatError::Transport(e)),
        (HandshakeEventView::Start, Role::Initiator, Stage::Fresh) => send_fresh_key(h, fresh),
        (HandshakeEventView::Start, Role::Responder, Stage::Fresh) => HandshakeStepView::Receive(
            HandshakeView { stage: Stage::Receiving, ..h },
        ),
        (HandshakeEventView::Sent, Role::Initiator, Stage::Sending) => HandshakeStepView::Receive(
            HandshakeView { stage: Stage::Receiving, ..h },
        ),
        (HandshakeEventView::Sent, Role::Responder, Stage::Sending) => establish(h),
        (HandshakeEventView::Received(payload), Role::Initiator, Stage::Receiving) => {
            match parse_handshake(payload) {
                Ok(peer) => establish(HandshakeView { peer: Some(peer), ..h }),
                Err(e) => HandshakeStepView::Failed(e),
            }
        },
        (HandshakeEventView::Received(payload), Role::Responder, Stage::Receiving) => {
            match parse_handshake(payload) {
                Ok(peer) => send_fresh_key(HandshakeView { peer: Some(peer), ..h }, fresh),
                Err(e) => HandshakeStepView::Failed(e),
            }
        },
        _ => HandshakeStepView::Failed(ChatError::Protocol(ProtocolViolation::OutOfOrder)),
    }
}

/// Whether a step makes a key pair, and so needs a fresh secret.
pub open spec fn makes_key_pair(h: HandshakeView, event: HandshakeEventView) -> bool {
    match (event, h.role, h.stage) {
        (HandshakeEventView::Start, Role::Initiator, Stage::Fresh) => true,
        (HandshakeEventView::Received(_), Role::Responder, Stage::Receiving) => true,
        _ => false,
    }
}

/// A handshake whose frames reach the other side runs as follows, and
/// gives both sides the same session key: the initiator makes its key pair,
/// sends its key and then reads; the responder reads that key, makes its
/// key pair, sends its own key, and has the session once that is written;
/// the initiator has it once it has read the responder's key.
pub proof fn lemma_handshake_agrees(
    secret_a: Seq<u8>,
    public_a: Seq<u8>,
    secret_b: Seq<u8>,
    public_b: Seq<u8>,
)
    requires
        is_key_pair(secret_a, public_a),
        is_key_pair(secret_b, public_b),
    ensures
        ({
            let initiator = fresh_handshake(Role::Initiator);
            let responder = fresh_handshake(Role::Responder);
            let sending = HandshakeView {
                stage: Stage::Sending,
                keys: Some((secret_a, public_a)),
                ..initiator
            };
            let reading = HandshakeView { stage: Stage::Receiving, ..sending };
            let waiting = HandshakeView { stage: Stage::Receiving, ..responder };
            let replying = HandshakeView {
                stage: Stage::Sending,
                keys: Some((secret_b, public_b)),
                peer: Some(public_a),
                ..responder
            };
            let key = agreed_key(secret_a, public_b);
            &&& handshake_step(initiator, HandshakeEventView::Start, Some(secret_a))
                == HandshakeStepView::Send(sending, frame_of(public_a))
            &&& handshake_step(sending, HandshakeEventView::Sent, None)
                == HandshakeStepView::Receive(reading)
            &&& handshake_step(responder, HandshakeEventView::Start, None)
                == HandshakeStepView::Receive(waiting)
            &&& parse_frame(frame_of(public_a)) == Ok::<Seq<u8>, ChatError>(public_a)
            &&& handshake_step(waiting, HandshakeEventView::Received(public_a), Some(secret_b))
                == HandshakeStepView::Send(replying, frame_of(public_b))
            &&& handshake_step(replying, HandshakeEventView::Sent, None)
                == HandshakeStepView::Established(key)
            &&& parse_frame(frame_of(public_b)) == Ok::<Seq<u8>, ChatError>(public_b)
            &&& handshake_step(reading, HandshakeEventView::Received(public_b), None)
                == HandshakeStepView::Established(key)
        }),
{
    lemma_session_keys_agree(secret_a, public_a, secret_b, public_b);
    lemma_frame_round_trip(public_a);
    lemma_frame_round_trip(public_b);
}

impl Handshake {
    /// A handshake at its start.
    pub fn new(role: Role) -> (handshake: Handshake)
        ensures
            handshake@ == fresh_handshake(role),
    {
        Handshake { role, stage: Stage::Fresh, keys: None, peer: None }
    }

    /// Makes the key pair of `fresh` and asks for its public key to be
    /// sent.
    fn send_fresh_key(self, fresh: Option<[u8; 32]>) -> (next: HandshakeStep)
        ensures
            next@ == send_fresh_key(
                self@,
                match fresh {
                    Some(secret) => Some(secret@),
                    None => None,
                },
            ),
            next matches HandshakeStep::Send(handshake, _) ==> holds_key_pair(handshake@),
    {
        match fresh {
            Some(secret) => {
                let keys = KeyPair::from_secret(secret);
                let payload = HandshakeData { public_key: keys.public_key() }.to_bytes();
                match write_length_prefixed(payload.as_slice()) {
                    Ok(bytes) => HandshakeStep::Send(
                        Handshake { stage: Stage::Sending, keys: Some(keys), ..self },
                        bytes,
                    ),
                    Err(_) => vstd::pervasive::unreached(),
                }
            },
            None => HandshakeStep::Failed(ChatError::Crypto(CryptoError::RandomSource)),
        }
    }

    /// Derives the session from the own secret and the peer's key.
    fn establish(self) -> (next: HandshakeStep)
        ensures
            next@ == establish(self@),
    {
        match (self.keys, self.peer) {
            (Some(keys), Some(peer)) => {
                let shared = keys.diffie_hellman(&peer);
                HandshakeStep::Established(SessionCryptData::from_shared_secret(&shared))
            },
            _ => HandshakeStep::Failed(ChatError::Protocol(ProtocolViolation::OutOfOrder)),
        }
    }

    /// Whether the next step on `event` makes a key pair.
    fn makes_key_pair(&self, event: &HandshakeEvent) -> (needed: bool)
        ensures
            needed == makes_key_pair(self@, event@),
    {
        match (event, self.role, self.stage) {
            (HandshakeEvent::Start, Role::Initiator, Stage::Fresh) => true,
            (HandshakeEvent::Received(_), Role::Responder, Stage::Receiving) => true,
            _ => false,
        }
    }

    /// Takes what the transport reports, and `fresh` as the secret of the
    /// key pair if the step makes one, and says what the transport has to
    /// do next. A handshake that sends its key holds the key pair of that
    /// key.
    pub fn step_with(self, event: HandshakeEvent, fresh: Option<[u8; 32]>) -> (next: HandshakeStep)
        ensures
            next@ == handshake_step(
                self@,
                event@,
                match fresh {
                    Some(secret) => Some(secret@),
                    None => None,
                },
            ),
            next matches HandshakeStep::Send(handshake, _) ==> holds_key_pair(handshake@),
    {
        match event {
            HandshakeEvent::Failed(e) => HandshakeStep::Failed(ChatError::Transport(e)),
            HandshakeEvent::Start => match (self.role, self.stage) {
                (Role::Initiator, Stage::Fresh) => self.send_fresh_key(fresh),
                (Role::Responder, Stage::Fresh) => HandshakeStep::Receive(
                    Handshake { stage: Stage::Receiving, ..self },
                ),
                _ => HandshakeStep::Failed(ChatError::Protocol(ProtocolViolation::OutOfOrder)),
            },
            HandshakeEvent::Sent => match (self.role, self.stage) {
                (Role::Initiator, Stage::Sending) => HandshakeStep::Receive(
                    Handshake { stage: Stage::Receiving, ..self },
                ),
                (Role::Responder, Stage::Sending) => self.establish(),
                _ => HandshakeStep::Failed(ChatError::Protocol(ProtocolViolation::OutOfOrder)),
            },
            HandshakeEvent::Received(payload) => match (self.role, self.stage) {
                (Role::Initiator, Stage::Receiving) => match HandshakeData::from_bytes(
                    payload.as_slice(),
                ) {
                    Ok(data) => Handshake { peer: Some(data.public_key), ..self }.establish(),
                    Err(e) => HandshakeStep::Failed(e),
                },
                (Role::Responder, Stage::Receiving) => match HandshakeData::from_bytes(
                    payload.as_slice(),
                ) {
                    Ok(data) => Handshake {
                        peer: Some(data.public_key),
                        ..self
                    }.send_fresh_key(fresh),
                    Err(e) => HandshakeStep::Failed(e),
                },
                _ => HandshakeStep::Failed(ChatError::Protocol(ProtocolViolation::OutOfOrder)),
            },
        }
    }

    /// Takes what the transport reports and says what it has to do next.
    /// Where the step makes a key pair, its secret is 32 bytes drawn from
    /// the operating system's random source. A handshake that sends its key
    /// holds the key pair of that key.
    pub fn step(self, event: HandshakeEvent) -> (next: HandshakeStep)
        ensures
            exists|fresh: Option<Seq<u8>>|
                {
                    &&& fresh matches Some(secret) ==> secret.len() == KEY_LEN
                    &&& #[trigger] handshake_step(self@, event@, fresh) == next@
                },
            !makes_key_pair(self@, event@) ==> next@ == handshake_step(self@, event@, None),
            next matches HandshakeStep::Send(handshake, _) ==> holds_key_pair(handshake@),
    {
        let fresh = if self.makes_key_pair(&event) {
            os_random::<32>()
        } else {
            None
        };
        self.step_with(event, fresh)
    }
}

} // verus!
