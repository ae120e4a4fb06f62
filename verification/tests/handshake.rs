use chat_security::error::{ChatError, CryptoError, FormatError, ProtocolViolation, TransportError};
use chat_security::frame::read_length_prefixed;
use chat_security::handshake::{
    Handshake, HandshakeData, HandshakeEvent, HandshakeStep, KeyPair, Role,
};
use chat_security::session::SessionCryptData;

const ALICE_SECRET: [u8; 32] = [
    119, 7, 109, 10, 115, 24, 165, 125, 60, 22, 193, 114, 81, 178, 102, 69, 223, 76, 47, 135, 235,
    192, 153, 42, 177, 119, 251, 165, 29, 185, 44, 42,
];
const ALICE_PUBLIC: [u8; 32] = [
    133, 32, 240, 9, 137, 48, 167, 84, 116, 139, 125, 220, 180, 62, 247, 90, 13, 191, 58, 13, 38,
    56, 26, 244, 235, 164, 169, 142, 170, 155, 78, 106,
];
const BOB_SECRET: [u8; 32] = [
    93, 171, 8, 126, 98, 74, 138, 75, 121, 225, 127, 139, 131, 128, 14, 230, 111, 59, 177, 41, 38,
    24, 182, 253, 28, 47, 139, 39, 255, 136, 224, 235,
];
const BOB_PUBLIC: [u8; 32] = [
    222, 158, 219, 125, 123, 125, 193, 180, 211, 91, 97, 194, 236, 228, 53, 55, 63, 131, 67, 200,
    91, 120, 103, 77, 173, 252, 126, 20, 111, 136, 43, 79,
];
const SHARED_SECRET: [u8; 32] = [
    74, 93, 157, 91, 164, 206, 45, 225, 114, 142, 59, 244, 128, 53, 15, 37, 224, 126, 33, 201, 71,
    209, 158, 51, 118, 240, 155, 60, 30, 22, 23, 66,
];
const SESSION_KEY: [u8; 32] = [
    69, 212, 93, 103, 77, 90, 167, 228, 60, 104, 230, 67, 202, 106, 78, 253, 100, 43, 141, 68, 61,
    86, 147, 8, 77, 142, 1, 136, 167, 108, 43, 26,
];

fn send_of(step: HandshakeStep) -> (Handshake, Vec<u8>) {
    match step {
        HandshakeStep::Send(handshake, bytes) => (handshake, bytes),
        _ => panic!("expected a frame to send"),
    }
}

fn receive_of(step: HandshakeStep) -> Handshake {
    match step {
        HandshakeStep::Receive(handshake) => handshake,
        _ => panic!("expected a request to read"),
    }
}

fn session_of(step: HandshakeStep) -> SessionCryptData {
    match step {
        HandshakeStep::Established(session) => session,
        _ => panic!("expected a session"),
    }
}

fn error_of(step: HandshakeStep) -> ChatError {
    match step {
        HandshakeStep::Failed(e) => e,
        _ => panic!("expected a failure"),
    }
}

/// Runs both sides of a handshake, each step in the order of its role, and
/// returns the initiator's session, the responder's session and the two
/// public keys that crossed. Where secrets are given, the key pairs are
/// made from them.
fn shake_hands(
    secrets: Option<([u8; 32], [u8; 32])>,
) -> (SessionCryptData, SessionCryptData, [u8; 32], [u8; 32]) {
    let initiator = SessionCryptData::start_session();
    let responder = SessionCryptData::recieve_session();
    let (initiator, first) = send_of(match secrets {
        Some((secret, _)) => initiator.step_with(HandshakeEvent::Start, Some(secret)),
        None => initiator.step(HandshakeEvent::Start),
    });
    let initiator = receive_of(initiator.step(HandshakeEvent::Sent));
    let responder = receive_of(responder.step(HandshakeEvent::Start));
    let initiator_key = read_length_prefixed(&first).unwrap();
    let (responder, reply) = send_of(match secrets {
        Some((_, secret)) => {
            responder.step_with(HandshakeEvent::Received(initiator_key.clone()), Some(secret))
        }
        None => responder.step(HandshakeEvent::Received(initiator_key.clone())),
    });
    let server = session_of(responder.step(HandshakeEvent::Sent));
    let responder_key = read_length_prefixed(&reply).unwrap();
    let client = session_of(initiator.step(HandshakeEvent::Received(responder_key.clone())));
    (
        client,
        server,
        HandshakeData::from_bytes(&initiator_key).unwrap().public_key,
        HandshakeData::from_bytes(&responder_key).unwrap().public_key,
    )
}

/// The initiator after it has sent the key of `ALICE_SECRET`.
fn initiator_reading() -> Handshake {
    let initiator = Handshake::new(Role::Initiator);
    let (initiator, _) = send_of(initiator.step_with(HandshakeEvent::Start, Some(ALICE_SECRET)));
    receive_of(initiator.step(HandshakeEvent::Sent))
}

/// The responder waiting for the initiator's key.
fn responder_reading() -> Handshake {
    receive_of(Handshake::new(Role::Responder).step(HandshakeEvent::Start))
}

/// Whether two sessions hold the same key: what one encrypts the other
/// decrypts, in both directions.
fn same_key(a: &SessionCryptData, b: &SessionCryptData) -> bool {
    let there = a.encrypt_with([7; 24], b"there").unwrap();
    let back = b.encrypt_with([7; 24], b"there").unwrap();
    there.ciphertext == back.ciphertext
        && b.decrypt(&there.nonce, &there.ciphertext) == Ok(b"there".to_vec())
        && a.decrypt(&back.nonce, &back.ciphertext) == Ok(b"there".to_vec())
}

#[test]
fn test_handshake() {
    let (_, _, client_public, server_public) = shake_hands(None);

    let server_response = HandshakeData { public_key: client_public };
    let client_response = HandshakeData { public_key: server_public };
    assert_eq!(server_response.public_key.len(), 32);
    assert_eq!(client_response.public_key.len(), 32);
}

#[test]
fn test_session_establishment() {
    let (_client_session, _server_session, _, _) = shake_hands(None);
}

#[test]
fn both_sides_derive_the_same_session_key() {
    for _ in 0..8 {
        let (client, server, _, _) = shake_hands(None);
        assert!(same_key(&client, &server));
    }
}

#[test]
fn sessions_of_different_handshakes_differ() {
    let (a, _, a_initiator, a_responder) = shake_hands(None);
    let (b, _, b_initiator, b_responder) = shake_hands(None);
    assert!(!same_key(&a, &b));
    assert_ne!(a_initiator, b_initiator);
    assert_ne!(a_responder, b_responder);
    assert_ne!(a_initiator, a_responder);
}

#[test]
fn public_key_follows_from_the_secret() {
    assert_eq!(KeyPair::from_secret(ALICE_SECRET).public_key(), ALICE_PUBLIC);
    assert_eq!(KeyPair::from_secret(BOB_SECRET).public_key(), BOB_PUBLIC);
    let mut one = [0u8; 32];
    one[0] = 1;
    assert_ne!(KeyPair::from_secret(one).public_key(), one);
}

#[test]
fn shared_secret_is_the_same_on_both_sides() {
    let alice = KeyPair::from_secret(ALICE_SECRET);
    let bob = KeyPair::from_secret(BOB_SECRET);
    assert_eq!(alice.diffie_hellman(&BOB_PUBLIC), SHARED_SECRET);
    assert_eq!(bob.diffie_hellman(&ALICE_PUBLIC), SHARED_SECRET);
}

#[test]
fn session_key_is_derived_from_the_shared_secret() {
    assert_eq!(SessionCryptData::derive_key(&SHARED_SECRET), SESSION_KEY);
    assert_eq!(
        SessionCryptData::derive_key(&[0u8; 32]),
        [
            98, 221, 194, 172, 254, 235, 82, 43, 211, 85, 30, 76, 255, 72, 111, 222, 52, 90, 92,
            16, 36, 71, 52, 215, 245, 162, 229, 149, 162, 22, 160, 254
        ]
    );
    let counting: Vec<u8> = (0..32).collect();
    assert_eq!(
        SessionCryptData::derive_key(&counting),
        [
            7, 102, 43, 190, 245, 135, 126, 75, 59, 59, 20, 157, 19, 98, 192, 172, 18, 59, 52, 25,
            2, 217, 208, 141, 211, 89, 80, 59, 244, 81, 199, 6
        ]
    );
}

#[test]
fn handshake_with_known_keys_gives_the_known_session() {
    let (client, server, client_public, server_public) =
        shake_hands(Some((ALICE_SECRET, BOB_SECRET)));
    assert_eq!(client_public, ALICE_PUBLIC);
    assert_eq!(server_public, BOB_PUBLIC);
    let expected = SessionCryptData::from_shared_secret(&SHARED_SECRET);
    assert!(same_key(&client, &expected));
    assert!(same_key(&server, &expected));
}

#[test]
fn initiator_sends_before_it_reads() {
    let initiator = Handshake::new(Role::Initiator);
    let (initiator, frame) =
        send_of(initiator.step_with(HandshakeEvent::Start, Some(ALICE_SECRET)));
    let mut expected = vec![0, 0, 0, 32];
    expected.extend_from_slice(&ALICE_PUBLIC);
    assert_eq!(frame, expected);
    let initiator = receive_of(initiator.step(HandshakeEvent::Sent));
    session_of(initiator.step(HandshakeEvent::Received(BOB_PUBLIC.to_vec())));
}

#[test]
fn responder_reads_before_it_sends() {
    let responder = Handshake::new(Role::Responder);
    let responder = receive_of(responder.step(HandshakeEvent::Start));
    let (responder, frame) = send_of(
        responder.step_with(HandshakeEvent::Received(ALICE_PUBLIC.to_vec()), Some(BOB_SECRET)),
    );
    let mut expected = vec![0, 0, 0, 32];
    expected.extend_from_slice(&BOB_PUBLIC);
    assert_eq!(frame, expected);
    session_of(responder.step(HandshakeEvent::Sent));
}

#[test]
fn a_fresh_secret_is_looked_at_only_where_a_key_pair_is_made() {
    let responder = Handshake::new(Role::Responder);
    let responder = receive_of(responder.step_with(HandshakeEvent::Start, Some(BOB_SECRET)));
    let (responder, frame) = send_of(
        responder.step_with(HandshakeEvent::Received(ALICE_PUBLIC.to_vec()), Some(ALICE_SECRET)),
    );
    assert_eq!(frame[4..], ALICE_PUBLIC);
    session_of(responder.step_with(HandshakeEvent::Sent, Some(BOB_SECRET)));
}

#[test]
fn no_random_bytes_fail_the_handshake() {
    let no_random = ChatError::Crypto(CryptoError::RandomSource);
    let initiator = Handshake::new(Role::Initiator);
    assert_eq!(error_of(initiator.step_with(HandshakeEvent::Start, None)), no_random);
    let responder = responder_reading();
    assert_eq!(
        error_of(responder.step_with(HandshakeEvent::Received(ALICE_PUBLIC.to_vec()), None)),
        no_random
    );
}

#[test]
fn handshake_payload_is_the_public_key() {
    let data = HandshakeData { public_key: ALICE_PUBLIC };
    assert_eq!(data.to_bytes(), ALICE_PUBLIC.to_vec());
    assert_eq!(HandshakeData::from_bytes(&ALICE_PUBLIC).unwrap().public_key, ALICE_PUBLIC);
}

#[test]
fn handshake_payload_of_wrong_size_is_refused() {
    let error = |payload: &[u8]| match HandshakeData::from_bytes(payload) {
        Err(e) => e,
        Ok(_) => panic!("accepted {} bytes", payload.len()),
    };
    assert_eq!(error(&[]), ChatError::Protocol(ProtocolViolation::EmptyFrame));
    assert_eq!(error(&[1]), ChatError::Format(FormatError::Handshake));
    assert_eq!(error(&[1; 31]), ChatError::Format(FormatError::Handshake));
    assert_eq!(error(&[1; 33]), ChatError::Protocol(ProtocolViolation::HandshakeSize));
    assert_eq!(error(&[1; 64]), ChatError::Protocol(ProtocolViolation::HandshakeSize));
}

#[test]
fn bad_peer_key_fails_the_handshake() {
    assert_eq!(
        error_of(initiator_reading().step(HandshakeEvent::Received(vec![1; 31]))),
        ChatError::Format(FormatError::Handshake)
    );
    assert_eq!(
        error_of(initiator_reading().step(HandshakeEvent::Received(vec![1; 33]))),
        ChatError::Protocol(ProtocolViolation::HandshakeSize)
    );
    assert_eq!(
        error_of(responder_reading().step(HandshakeEvent::Received(Vec::new()))),
        ChatError::Protocol(ProtocolViolation::EmptyFrame)
    );
}

#[test]
fn transport_failure_fails_the_handshake() {
    let initiator = Handshake::new(Role::Initiator);
    let (initiator, _) = send_of(initiator.step(HandshakeEvent::Start));
    assert_eq!(
        error_of(initiator.step(HandshakeEvent::Failed(TransportError::ClosedMidFrame))),
        ChatError::Transport(TransportError::ClosedMidFrame)
    );
    let responder = Handshake::new(Role::Responder);
    assert_eq!(
        error_of(responder.step(HandshakeEvent::Failed(TransportError::Closed))),
        ChatError::Transport(TransportError::Closed)
    );
    assert_eq!(
        error_of(responder_reading().step(HandshakeEvent::Failed(TransportError::Io))),
        ChatError::Transport(TransportError::Io)
    );
}

#[test]
fn events_out_of_turn_fail_the_handshake() {
    let out_of_order = ChatError::Protocol(ProtocolViolation::OutOfOrder);
    let fresh = |role| Handshake::new(role);
    assert_eq!(error_of(fresh(Role::Initiator).step(HandshakeEvent::Sent)), out_of_order);
    assert_eq!(
        error_of(fresh(Role::Initiator).step(HandshakeEvent::Received(BOB_PUBLIC.to_vec()))),
        out_of_order
    );
    assert_eq!(error_of(fresh(Role::Responder).step(HandshakeEvent::Sent)), out_of_order);
    assert_eq!(
        error_of(fresh(Role::Responder).step(HandshakeEvent::Received(BOB_PUBLIC.to_vec()))),
        out_of_order
    );
    let (sending, _) = send_of(fresh(Role::Initiator).step(HandshakeEvent::Start));
    assert_eq!(error_of(sending.step(HandshakeEvent::Start)), out_of_order);
    assert_eq!(error_of(initiator_reading().step(HandshakeEvent::Sent)), out_of_order);
    assert_eq!(error_of(responder_reading().step(HandshakeEvent::Sent)), out_of_order);
    assert_eq!(error_of(responder_reading().step(HandshakeEvent::Start)), out_of_order);
}
