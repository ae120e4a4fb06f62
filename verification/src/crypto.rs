//! The cryptographic primitives of a session, and what is taken on trust
//! about them.
//!
//! X25519, HKDF-SHA256 and XChaCha20-Poly1305 are computed by the crates
//! that implement them. Each result has a name here, a function of the
//! arguments alone, so that the contracts of the session can speak of it.

use chacha20poly1305::aead::{Aead, KeyInit};
use chacha20poly1305::XChaCha20Poly1305;
use hkdf::Hkdf;
use rand::rngs::OsRng;
use rand::RngCore;
use sha2::Sha256;
use vstd::prelude::*;
use x25519_dalek::x25519;

verus! {

/// The length of keys, secrets and public keys in bytes.
pub const KEY_LEN: usize = 32;

/// The length of a nonce in bytes.
pub const NONCE_LEN: usize = 24;

/// The length of the authentication tag that ends a ciphertext, in bytes.
pub const TAG_LEN: usize = 16;

/// The result of the X25519 function for a scalar and the u-coordinate of a
/// point, 32 bytes each.
pub uninterp spec fn x25519_of(scalar: Seq<u8>, point: Seq<u8>) -> Seq<u8>;

/// The first 32 bytes of HKDF-SHA256 output for input key material `secret`
/// without salt, expanded with `info`.
pub uninterp spec fn hkdf_sha256_of(secret: Seq<u8>, info: Seq<u8>) -> Seq<u8>;

/// The XChaCha20-Poly1305 ciphertext, tag included, of `plaintext` under a
/// key and a nonce, without associated data.
pub uninterp spec fn xchacha20poly1305_seal(
    key: Seq<u8>,
    nonce: Seq<u8>,
    plaintext: Seq<u8>,
) -> Seq<u8>;

/// The plaintext that XChaCha20-Poly1305 decryption without associated data
/// gives for `ciphertext` under a key and a nonce, or `None` where it
/// refuses the ciphertext.
pub uninterp spec fn xchacha20poly1305_open(
    key: Seq<u8>,
    nonce: Seq<u8>,
    ciphertext: Seq<u8>,
) -> Option<Seq<u8>>;

/// The u-coordinate of the X25519 base point: nine, in 32 little-endian
/// bytes.
pub open spec fn x25519_basepoint() -> Seq<u8> {
    Seq::new(32, |i: int| if i == 0 { 9u8 } else { 0u8 })
}

/// `public` is a public key with which every party reaches the shared
/// secret that the owner of `secret` computes from that party's public key.
pub open spec fn key_agreement(secret: Seq<u8>, public: Seq<u8>) -> bool {
    forall|other: Seq<u8>|
        other.len() == KEY_LEN ==> #[trigger] x25519_of(other, public) == x25519_of(
            secret,
            x25519_of(other, x25519_basepoint()),
        )
}

/// `x25519_dalek::x25519`, the byte-oriented X25519 function.
///
/// Taken on trust: the result is a function of the two arguments; and the
/// Diffie-Hellman property, that from a public key (the function's result on
/// the base point) any other party computes the same shared secret as the
/// key's owner computes from that party's public key.
#[verifier::external_body]
pub(crate) fn x25519_scalar_mult(scalar: &[u8; 32], point: &[u8; 32]) -> (out: [u8; 32])
    ensures
        out@ == x25519_of(scalar@, point@),
        point@ == x25519_basepoint() ==> key_agreement(scalar@, out@),
{
    x25519(*scalar, *point)
}

/// `Hkdf::<Sha256>::new` without salt, then `Hkdf::expand` into 32 bytes.
///
/// Taken on trust: the result is a function of the two arguments, and
/// expanding to 32 bytes, which is within the limit of 255 hash lengths,
/// does not fail.
#[verifier::external_body]
pub(crate) fn hkdf_sha256(secret: &[u8], info: &[u8]) -> (out: Option<[u8; 32]>)
    ensures
        out is Some,
        out matches Some(key) ==> key@ == hkdf_sha256_of(secret@, info@),
{
    let mut key = [0u8; 32];
    match Hkdf::<Sha256>::new(None, secret).expand(info, &mut key) {
        Ok(()) => Some(key),
        Err(_) => None,
    }
}

/// `XChaCha20Poly1305::encrypt` under a cipher made from `key`, without
/// associated data.
///
/// The cipher has a keystream of 2^32 - 2 blocks of 64 bytes for the text.
/// It refuses a plaintext of 2^32 - 1 whole blocks or more, and panics on
/// the few lengths just below that which still need more blocks than it
/// has. Both are far beyond the lengths admitted here.
///
/// Taken on trust, for a plaintext of up to `u32::MAX` bytes: encryption
/// does not fail; the result is a function of the three arguments; it is
/// the plaintext's length plus a tag long; and decryption under the same
/// key and nonce gives the plaintext back.
#[verifier::external_body]
pub(crate) fn aead_seal(key: &[u8; 32], nonce: &[u8; 24], plaintext: &[u8]) -> (out: Option<
    Vec<u8>,
>)
    requires
        plaintext@.len() <= u32::MAX,
    ensures
        out is Some,
        out matches Some(ciphertext) ==> {
            &&& ciphertext@ == xchacha20poly1305_seal(key@, nonce@, plaintext@)
            &&& ciphertext@.len() == plaintext@.len() + TAG_LEN
            &&& xchacha20poly1305_open(key@, nonce@, ciphertext@) == Some(plaintext@)
        },
{
    match XChaCha20Poly1305::new(key.into()).encrypt(nonce.into(), plaintext) {
        Ok(ciphertext) => Some(ciphertext),
        Err(_) => None,
    }
}

/// `XChaCha20Poly1305::decrypt` under a cipher made from `key`, without
/// associated data.
///
/// Decryption runs into the end of the keystream as encryption does, and
/// then panics once the tag has been found valid; the lengths admitted here
/// are far below that.
///
/// Taken on trust, for a ciphertext of up to `u32::MAX` bytes: the result, a
/// plaintext or a refusal, is a function of the three arguments.
#[verifier::external_body]
pub(crate) fn aead_open(key: &[u8; 32], nonce: &[u8; 24], ciphertext: &[u8]) -> (out: Option<
    Vec<u8>,
>)
    requires
        ciphertext@.len() <= u32::MAX,
    ensures
        out is Some <==> xchacha20poly1305_open(key@, nonce@, ciphertext@) is Some,
        out matches Some(plaintext) ==> xchacha20poly1305_open(key@, nonce@, ciphertext@) == Some(
            plaintext@,
        ),
{
    match XChaCha20Poly1305::new(key.into()).decrypt(nonce.into(), ciphertext) {
        Ok(plaintext) => Some(plaintext),
        Err(_) => None,
    }
}

/// `OsRng::try_fill_bytes` on a new array of `N` bytes: random bytes from
/// the operating system, or `None` where it gives none.
///
/// Nothing is taken on trust: nothing is claimed of the bytes.
#[verifier::external_body]
pub(crate) fn os_random<const N: usize>() -> (out: Option<[u8; N]>) {
    let mut bytes = [0u8; N];
    match OsRng.try_fill_bytes(&mut bytes) {
        Ok(()) => Some(bytes),
        Err(_) => None,
    }
}

} // verus!
