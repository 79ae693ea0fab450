//! The sealed envelope of a shared secret.
//!
//! A secret is sealed under a key that is derived from the user's key and a
//! fresh salt, with a fresh nonce. The envelope is the base64 text of
//!
//! ```text
//! nonce (12 bytes) || salt (12 bytes) || ciphertext and tag
//! ```
//!
//! The primitives are outside crates: PBKDF2 with HMAC-SHA256 (`pbkdf2`),
//! AES-256-GCM (`aes_gcm`), base64 (`base64`) and the random bytes (`rand`).
//! What is proved here is the layout and which failure is reported when.

use vstd::prelude::*;
use vstd::slice::slice_subrange;
use vstd::string::StringSliceAdditionalSpecFns;
use vstd::utf8::{decode_utf8, encode_utf8, encode_utf8_decode_utf8, encode_utf8_valid_utf8, valid_utf8};

use crate::error::Error;

verus! {

/// Bytes of a nonce.
pub const NONCE_LEN: usize = 12;

/// Bytes of a salt.
pub const SALT_LEN: usize = 12;

/// Rounds of the key derivation.
pub const KDF_ROUNDS: u32 = 10_000;

/// The longest plaintext, in bytes, that AES-GCM takes.
pub const MAX_PLAINTEXT: u64 = 0x10_0000_0000;

/// The first 32 bytes that PBKDF2 with HMAC-SHA256 derives from `password`
/// and `salt` in `rounds` rounds.
pub uninterp spec fn pbkdf2_sha256(password: Seq<u8>, salt: Seq<u8>, rounds: u32) -> Seq<u8>;

/// Ciphertext and tag of `plaintext` under AES-256-GCM with `key` and
/// `nonce`, without associated data.
pub uninterp spec fn aes_gcm_seal(key: Seq<u8>, nonce: Seq<u8>, plaintext: Seq<u8>) -> Seq<u8>;

/// The plaintext that AES-256-GCM with `key` and `nonce` accepts
/// `ciphertext` for, if the tag verifies.
pub uninterp spec fn aes_gcm_open(key: Seq<u8>, nonce: Seq<u8>, ciphertext: Seq<u8>) -> Option<
    Seq<u8>,
>;

/// The padded base64 text of `bytes` in the standard alphabet.
pub uninterp spec fn base64_encode(bytes: Seq<u8>) -> Seq<char>;

/// The bytes that padded base64 `text` in the standard alphabet stands for,
/// if it is well formed.
pub uninterp spec fn base64_decode(text: Seq<char>) -> Option<Seq<u8>>;

/// Calls `rand::thread_rng` and `rand::Rng::fill`: twelve random bytes.
/// Nothing is known of them.
#[verifier::external_body]
fn generate_iv() -> (iv: [u8; 12]) {
    let mut iv = [0u8; 12];
    rand::Rng::fill(&mut rand::thread_rng(), &mut iv);
    iv
}

/// Calls `pbkdf2::pbkdf2_hmac` with SHA-256 for a key of 32 bytes.
#[verifier::external_body]
fn derive_aes_key(user_key: &[u8], salt: &[u8], rounds: u32) -> (key: [u8; 32])
    ensures
        key@ == pbkdf2_sha256(user_key@, salt@, rounds),
{
    let mut key = [0u8; 32];
    pbkdf2::pbkdf2_hmac::<sha2::Sha256>(user_key, salt, rounds, &mut key);
    key
}

/// Calls `aes_gcm::Aes256Gcm::new` and `aes_gcm::aead::Aead::encrypt`.
/// Encryption fails exactly on a plaintext that is too long; a failure comes
/// back as the text of the outside error. Opening the ciphertext with the
/// same key and nonce gives the plaintext back. A key or nonce of another
/// length is refused by the outside crate without returning.
#[verifier::external_body]
fn aes_encrypt(key: &[u8], nonce: &[u8], plaintext: &[u8]) -> (res: Result<Vec<u8>, String>)
    requires
        key@.len() == 32,
        nonce@.len() == 12,
    ensures
        res is Ok <==> plaintext@.len() <= MAX_PLAINTEXT,
        res matches Ok(sealed) ==> sealed@ == aes_gcm_seal(key@, nonce@, plaintext@)
            && aes_gcm_open(key@, nonce@, sealed@) == Some(plaintext@),
{
    let cipher = <aes_gcm::Aes256Gcm as aes_gcm::KeyInit>::new(aes_gcm::Key::<aes_gcm::Aes256Gcm>::from_slice(key));
    match aes_gcm::aead::Aead::encrypt(&cipher, aes_gcm::Nonce::from_slice(nonce), plaintext) {
        Ok(sealed) => Ok(sealed),
        Err(error) => Err(error.to_string()),
    }
}

/// Calls `aes_gcm::Aes256Gcm::new` and `aes_gcm::aead::Aead::decrypt`.
/// `None` stands for the one outside error, which says no more than that the
/// ciphertext was not accepted. A key or nonce of another length is refused
/// by the outside crate without returning.
#[verifier::external_body]
fn aes_decrypt(key: &[u8], nonce: &[u8], ciphertext: &[u8]) -> (res: Option<Vec<u8>>)
    requires
        key@.len() == 32,
        nonce@.len() == 12,
    ensures
        match res {
            Some(plaintext) => aes_gcm_open(key@, nonce@, ciphertext@) == Some(plaintext@),
            None => aes_gcm_open(key@, nonce@, ciphertext@) is None,
        },
{
    let cipher = <aes_gcm::Aes256Gcm as aes_gcm::KeyInit>::new(aes_gcm::Key::<aes_gcm::Aes256Gcm>::from_slice(key));
    aes_gcm::aead::Aead::decrypt(&cipher, aes_gcm::Nonce::from_slice(nonce), ciphertext).ok()
}

/// Calls `base64::Engine::encode` on the standard engine. What was encoded
/// is read back from the text.
#[verifier::external_body]
fn base64_text(bytes: &[u8]) -> (text: String)
    ensures
        text@ == base64_encode(bytes@),
        base64_decode(text@) == Some(bytes@),
{
    base64::Engine::encode(&base64::engine::general_purpose::STANDARD, bytes)
}

/// Calls `base64::Engine::decode` on the standard engine. A failure comes
/// back as the text of the outside error.
#[verifier::external_body]
fn base64_bytes(text: &str) -> (res: Result<Vec<u8>, String>)
    ensures
        match res {
            Ok(bytes) => base64_decode(text@) == Some(bytes@),
            Err(_) => base64_decode(text@) is None,
        },
{
    match base64::Engine::decode(&base64::engine::general_purpose::STANDARD, text) {
        Ok(bytes) => Ok(bytes),
        Err(error) => Err(error.to_string()),
    }
}

/// Calls `String::from_utf8`: the text that `bytes` encode, if they are
/// UTF-8.
#[verifier::external_body]
fn utf8_text(bytes: Vec<u8>) -> (res: Option<String>)
    ensures
        match res {
            Some(text) => valid_utf8(bytes@) && text@ == decode_utf8(bytes@),
            None => !valid_utf8(bytes@),
        },
{
    String::from_utf8(bytes).ok()
}

/// What comes of opening an envelope.
pub enum Opening {
    /// The tag verified and the payload is text.
    Plaintext(Seq<char>),
    /// The tag did not verify, or the payload is not text.
    Rejected,
    /// The envelope is no base64 text or too short to hold nonce and salt.
    Malformed,
}

/// The key under which a user key and a salt seal.
pub open spec fn sealing_key(user_key: Seq<char>, salt: Seq<u8>) -> Seq<u8> {
    pbkdf2_sha256(encode_utf8(user_key), salt, KDF_ROUNDS)
}

/// The envelope of `secret` under `user_key` for one draw of salt and nonce.
pub open spec fn sealed_envelope(
    user_key: Seq<char>,
    secret: Seq<char>,
    salt: Seq<u8>,
    nonce: Seq<u8>,
) -> Seq<char> {
    base64_encode(
        nonce + salt + aes_gcm_seal(sealing_key(user_key, salt), nonce, encode_utf8(secret)),
    )
}

/// The nonce that an envelope carries: the first twelve bytes.
pub open spec fn envelope_nonce(envelope: Seq<char>) -> Option<Seq<u8>> {
    match base64_decode(envelope) {
        Some(payload) => if payload.len() >= 24 {
            Some(payload.subrange(0, 12))
        } else {
            None
        },
        None => None,
    }
}

/// The salt that an envelope carries: the second twelve bytes.
pub open spec fn envelope_salt(envelope: Seq<char>) -> Option<Seq<u8>> {
    match base64_decode(envelope) {
        Some(payload) => if payload.len() >= 24 {
            Some(payload.subrange(12, 24))
        } else {
            None
        },
        None => None,
    }
}

/// What comes of opening the bytes of an envelope under `user_key`.
pub open spec fn open_payload(user_key: Seq<char>, payload: Seq<u8>) -> Opening
    recommends
        payload.len() >= 24,
{
    let nonce = payload.subrange(0, 12);
    let salt = payload.subrange(12, 24);
    let sealed = payload.subrange(24, payload.len() as int);
    match aes_gcm_open(sealing_key(user_key, salt), nonce, sealed) {
        Some(bytes) => if valid_utf8(bytes) {
            Opening::Plaintext(decode_utf8(bytes))
        } else {
            Opening::Rejected
        },
        None => Opening::Rejected,
    }
}

/// What comes of opening `envelope` under `user_key`.
pub open spec fn open_envelope(user_key: Seq<char>, envelope: Seq<char>) -> Opening {
    match base64_decode(envelope) {
        Some(payload) => if payload.len() < 24 {
            Opening::Malformed
        } else {
            open_payload(user_key, payload)
        },
        None => Opening::Malformed,
    }
}

/// Seals `secret` under `user_key` with the salt and the nonce given.
///
/// Only a secret beyond the reach of AES-GCM fails. The envelope carries
/// nonce and salt in its first two slots, and opens under the same key to
/// the secret.
pub fn seal_with(user_key: &str, secret: &str, salt: &[u8; 12], nonce: &[u8; 12]) -> (res: Result<
    String,
    Error,
>)
    ensures
        match res {
            Ok(envelope) => {
                &&& encode_utf8(secret@).len() <= MAX_PLAINTEXT
                &&& envelope@ == sealed_envelope(user_key@, secret@, salt@, nonce@)
                &&& envelope_nonce(envelope@) == Some(nonce@)
                &&& envelope_salt(envelope@) == Some(salt@)
                &&& open_envelope(user_key@, envelope@) == Opening::Plaintext(secret@)
            },
            Err(error) => error is InternalError && encode_utf8(secret@).len() > MAX_PLAINTEXT,
        },
{
    let key = derive_aes_key(user_key.as_bytes(), salt.as_slice(), KDF_ROUNDS);
    match aes_encrypt(key.as_slice(), nonce.as_slice(), secret.as_bytes()) {
        Err(detail) => Err(Error::InternalError(detail)),
        Ok(sealed) => {
            let mut payload: Vec<u8> = Vec::new();
            payload.extend_from_slice(nonce.as_slice());
            payload.extend_from_slice(salt.as_slice());
            payload.extend_from_slice(sealed.as_slice());
            let envelope = base64_text(payload.as_slice());
            proof {
                assert(payload@ =~= nonce@ + salt@ + sealed@);
                assert(payload@.subrange(0, 12) =~= nonce@);
                assert(payload@.subrange(12, 24) =~= salt@);
                assert(payload@.subrange(24, payload@.len() as int) =~= sealed@);
                encode_utf8_valid_utf8(secret@);
                encode_utf8_decode_utf8(secret@);
            }
            Ok(envelope)
        },
    }
}

/// Seals `secret` under `user_key` with a fresh salt and a fresh nonce.
///
/// Whatever was drawn, the envelope opens under the same key to the
/// secret.
pub fn encrypt_secret(user_key: String, secret: String) -> (res: Result<String, Error>)
    ensures
        match res {
            Ok(envelope) => {
                &&& encode_utf8(secret@).len() <= MAX_PLAINTEXT
                &&& exists|salt: Seq<u8>, nonce: Seq<u8>|
                    salt.len() == 12 && nonce.len() == 12 && envelope@ == #[trigger] sealed_envelope(
                        user_key@,
                        secret@,
                        salt,
                        nonce,
                    )
                &&& open_envelope(user_key@, envelope@) == Opening::Plaintext(secret@)
            },
            Err(error) => error is InternalError && encode_utf8(secret@).len() > MAX_PLAINTEXT,
        },
{
    let salt = generate_iv();
    let nonce = generate_iv();
    seal_with(user_key.as_str(), secret.as_str(), &salt, &nonce)
}

/// Opens `encrypted` under `user_key`.
///
/// A tag that does not verify and a payload that is not text are one and the
/// same failure. An envelope that is no base64 text, or too short to hold
/// nonce and salt, is an internal error.
pub fn decrypt_secret(user_key: String, encrypted: String) -> (res: Result<String, Error>)
    ensures
        match open_envelope(user_key@, encrypted@) {
            Opening::Plaintext(secret) => res matches Ok(text) && text@ == secret,
            Opening::Rejected => res matches Err(Error::DecryptError),
            Opening::Malformed => res matches Err(Error::InternalError(_)),
        },
{
    let payload = match base64_bytes(encrypted.as_str()) {
        Ok(bytes) => bytes,
        Err(detail) => {
            return Err(Error::InternalError(detail));
        },
    };
    if payload.len() < NONCE_LEN + SALT_LEN {
        return Err(Error::internal("envelope is too short"));
    }
    let bytes = payload.as_slice();
    let nonce = slice_subrange(bytes, 0, NONCE_LEN);
    let salt = slice_subrange(bytes, NONCE_LEN, NONCE_LEN + SALT_LEN);
    let sealed = slice_subrange(bytes, NONCE_LEN + SALT_LEN, bytes.len());
    let key = derive_aes_key(user_key.as_str().as_bytes(), salt, KDF_ROUNDS);
    match aes_decrypt(key.as_slice(), nonce, sealed) {
        None => Err(Error::DecryptError),
        Some(plain) => match utf8_text(plain) {
            Some(text) => Ok(text),
            None => Err(Error::DecryptError),
        },
    }
}

/// Two envelopes that differ in the nonce or in the salt they carry are
/// different texts: a fresh draw gives a fresh envelope.
pub proof fn lemma_fresh_draw_fresh_envelope(first: Seq<char>, second: Seq<char>)
    requires
        envelope_nonce(first) != envelope_nonce(second) || envelope_salt(first) != envelope_salt(
            second,
        ),
    ensures
        first != second,
{
}

} // verus!
