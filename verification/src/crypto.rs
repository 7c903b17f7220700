//! Trusted wrappers around the cryptographic primitives the gateway uses.
//!
//! Each digest or cipher result is named by an uninterpreted spec function of
//! the call's inputs alone; the contracts around the gateway then speak of
//! those names exactly.

use vstd::prelude::*;

use base64::Engine;
use chacha20poly1305::aead::Aead;
use chacha20poly1305::KeyInit;
use ed25519_dalek::{Signer, Verifier};
use rand::RngCore;
use sha3::Digest;

verus! {

/// The SHA3-256 digest of a byte string.
pub uninterp spec fn sha3_256_of(data: Seq<u8>) -> Seq<u8>;

/// The BLAKE3 digest of a byte string.
pub uninterp spec fn blake3_of(data: Seq<u8>) -> Seq<u8>;

/// Whether `sig` is a valid Ed25519 signature over `msg` under the
/// verification key encoded by `pk`.
pub uninterp spec fn ed25519_valid(pk: Seq<u8>, msg: Seq<u8>, sig: Seq<u8>) -> bool;

/// The URL-safe base64 decoding of a character string, or `None` when the
/// string is not a valid encoding.
pub uninterp spec fn b64_url_decoded(text: Seq<char>) -> Option<Seq<u8>>;

/// The ChaCha20-Poly1305 sealing of `plain` under `key` and `nonce`.
pub uninterp spec fn aead_sealed(key: Seq<u8>, nonce: Seq<u8>, plain: Seq<u8>) -> Seq<u8>;

/// The cipher encrypts any plaintext shorter than this many bytes: one block
/// below its 32-bit block-counter limit.
pub const AEAD_PLAINTEXT_LIMIT: u64 = 0x3F_FFFF_FFC0;

/// Relies on sha3::Sha3_256: the digest is 32 bytes and depends on the input
/// bytes alone.
#[verifier::external_body]
pub fn sha3_256(data: &[u8]) -> (r: [u8; 32])
    ensures
        r@ == sha3_256_of(data@),
{
    sha3::Sha3_256::digest(data).into()
}

/// Relies on blake3::hash: the digest is 32 bytes and depends on the input
/// bytes alone.
#[verifier::external_body]
pub fn blake3_hash(data: &[u8]) -> (r: [u8; 32])
    ensures
        r@ == blake3_of(data@),
{
    *blake3::hash(data).as_bytes()
}

/// Relies on ed25519_dalek::VerifyingKey::from_bytes and
/// ed25519_dalek::Verifier::verify: the outcome is a deterministic function
/// of the key bytes, the message and the signature; a byte string that does
/// not encode a valid key verifies nothing.
#[verifier::external_body]
pub fn ed25519_verify(pk: &[u8; 32], msg: &[u8], sig: &[u8]) -> (r: bool)
    requires
        sig@.len() == 64,
    ensures
        r == ed25519_valid(pk@, msg@, sig@),
{
    let sig_bytes: [u8; 64] = sig.try_into().unwrap();
    match ed25519_dalek::VerifyingKey::from_bytes(pk) {
        Ok(vk) => vk.verify(msg, &ed25519_dalek::Signature::from_bytes(&sig_bytes)).is_ok(),
        Err(_) => false,
    }
}

/// Relies on ed25519_dalek::SigningKey::from_bytes and
/// ed25519_dalek::Signer::sign, keyed by fresh randomness from
/// rand::rngs::OsRng: the signing oracle draws a new key, so nothing is
/// promised of the signature beyond its length of 64 bytes.
#[verifier::external_body]
pub fn ed25519_sign_fresh(msg: &[u8]) -> (r: Vec<u8>)
    ensures
        r@.len() == 64,
{
    let mut secret = [0u8; 32];
    rand::rngs::OsRng.fill_bytes(&mut secret);
    let key = ed25519_dalek::SigningKey::from_bytes(&secret);
    key.sign(msg).to_bytes().to_vec()
}

/// Relies on base64::engine::general_purpose::URL_SAFE via base64::Engine::
/// decode: decoding is a deterministic function of the text and fails exactly
/// on text that is not a valid encoding.
#[verifier::external_body]
pub fn b64_url_decode(text: &str) -> (r: Result<Vec<u8>, ()>)
    ensures
        r matches Ok(v) ==> b64_url_decoded(text@) == Some(v@),
        r is Err ==> b64_url_decoded(text@) is None,
{
    base64::engine::general_purpose::URL_SAFE.decode(text).map_err(|_| ())
}

/// Relies on chacha20poly1305::ChaCha20Poly1305 via aead::Aead::encrypt: the
/// ciphertext is a deterministic function of key, nonce and plaintext, is
/// 16 bytes (one authentication tag) longer than the plaintext, and the call
/// fails only on plaintexts past the cipher's block-counter limit.
#[verifier::external_body]
pub fn aead_encrypt(key: &[u8; 32], nonce: &[u8; 12], plain: &[u8]) -> (r: Result<Vec<u8>, ()>)
    ensures
        r matches Ok(c) ==> c@ == aead_sealed(key@, nonce@, plain@)
            && c@.len() == plain@.len() + 16,
        plain@.len() < AEAD_PLAINTEXT_LIMIT ==> r is Ok,
{
    let cipher = chacha20poly1305::ChaCha20Poly1305::new(&chacha20poly1305::Key::from(*key));
    cipher.encrypt(&chacha20poly1305::Nonce::from(*nonce), plain).map_err(|_| ())
}

/// Relies on chacha20poly1305::ChaCha20Poly1305 via aead::Aead::decrypt:
/// authenticated decryption inverts sealing under the same key and nonce,
/// succeeds on every ciphertext that is a sealing of a plaintext the cipher
/// can produce, and fails closed on any integrity failure.
#[verifier::external_body]
pub fn aead_decrypt(key: &[u8; 32], nonce: &[u8; 12], cipher: &[u8]) -> (r: Result<Vec<u8>, ()>)
    ensures
        r matches Ok(p) ==> cipher@ == aead_sealed(key@, nonce@, p@),
        r matches Ok(p) ==> forall|q: Seq<u8>|
            cipher@ == #[trigger] aead_sealed(key@, nonce@, q) ==> p@ == q,
        (exists|q: Seq<u8>| q.len() < AEAD_PLAINTEXT_LIMIT
            && cipher@ == #[trigger] aead_sealed(key@, nonce@, q)) ==> r is Ok,
{
    let aead = chacha20poly1305::ChaCha20Poly1305::new(&chacha20poly1305::Key::from(*key));
    aead.decrypt(&chacha20poly1305::Nonce::from(*nonce), cipher).map_err(|_| ())
}

/// Relies on subtle::Choice: carries a 0-or-1 flag through a constant-time
/// choice value instead of a branch.
#[verifier::external_body]
pub fn ct_choice(flag: u8) -> (r: bool)
    requires
        flag == 0 || flag == 1,
    ensures
        r == (flag == 1),
{
    bool::from(subtle::Choice::from(flag))
}

/// Relies on rand::rngs::OsRng::fill_bytes: the nonce is random, so nothing
/// is promised of its value.
#[verifier::external_body]
pub fn random_nonce() -> (r: [u8; 12])
{
    let mut nonce = [0u8; 12];
    rand::rngs::OsRng.fill_bytes(&mut nonce);
    nonce
}

} // verus!
