use aes_gcm::aead::Aead;
use aes_gcm::{Aes256Gcm, Key, KeyInit, Nonce};
use auth2_core::enc::{decrypt_secret, encrypt_secret, seal_with};
use auth2_core::error::Error;
use base64::Engine;

fn decode(envelope: &str) -> Vec<u8> {
    base64::engine::general_purpose::STANDARD.decode(envelope).unwrap()
}

fn encode(bytes: &[u8]) -> String {
    base64::engine::general_purpose::STANDARD.encode(bytes)
}

fn derive(user_key: &str, salt: &[u8]) -> [u8; 32] {
    let mut key = [0u8; 32];
    pbkdf2::pbkdf2_hmac::<sha2::Sha256>(user_key.as_bytes(), salt, 10_000, &mut key);
    key
}

#[test]
fn test_encrypt() {
    let data = encrypt_secret("test".into(), "secret".into()).unwrap();
    println!("encrypted: {}", data);
    let res = decrypt_secret("test".into(), data.clone()).unwrap();
    assert_eq!(res, "secret");

    let res = decrypt_secret("test?".into(), data.clone());
    match res {
        Err(Error::DecryptError) => (),
        _ => {
            panic!("unexpected result: {:?}", res);
        }
    }
}

#[test]
fn round_trip_keeps_every_text() {
    for (key, secret) in [
        ("", ""),
        ("k", "JBSWY3DPEHPK3PXP"),
        ("pässwörd", "ünïcödé ☃ secret"),
        ("a much longer user key with spaces", "x"),
    ] {
        let sealed = encrypt_secret(key.to_string(), secret.to_string()).unwrap();
        assert_eq!(decrypt_secret(key.to_string(), sealed).unwrap(), secret);
    }
}

#[test]
fn envelope_has_nonce_salt_ciphertext_and_tag() {
    let salt = [7u8; 12];
    let nonce = [9u8; 12];
    let sealed = seal_with("user", "secret", &salt, &nonce).unwrap();
    let bytes = decode(&sealed);
    assert_eq!(bytes.len(), 12 + 12 + 6 + 16);
    assert_eq!(&bytes[0..12], &nonce);
    assert_eq!(&bytes[12..24], &salt);

    let key = derive("user", &salt);
    let cipher = Aes256Gcm::new(Key::<Aes256Gcm>::from_slice(&key));
    let expected = cipher.encrypt(Nonce::from_slice(&nonce), "secret".as_bytes()).unwrap();
    assert_eq!(&bytes[24..], &expected[..]);
}

#[test]
fn seal_with_is_a_function_of_its_arguments() {
    let first = seal_with("user", "secret", &[1u8; 12], &[2u8; 12]).unwrap();
    let again = seal_with("user", "secret", &[1u8; 12], &[2u8; 12]).unwrap();
    let other_salt = seal_with("user", "secret", &[3u8; 12], &[2u8; 12]).unwrap();
    let other_nonce = seal_with("user", "secret", &[1u8; 12], &[3u8; 12]).unwrap();
    assert_eq!(first, again);
    assert_ne!(first, other_salt);
    assert_ne!(first, other_nonce);
    assert_ne!(first, "secret");
}

#[test]
fn opens_an_envelope_sealed_elsewhere() {
    let salt = [0x11u8; 12];
    let nonce = [0x22u8; 12];
    let key = derive("host key", &salt);
    let cipher = Aes256Gcm::new(Key::<Aes256Gcm>::from_slice(&key));
    let sealed = cipher.encrypt(Nonce::from_slice(&nonce), "GEZDGNBV".as_bytes()).unwrap();
    let mut bytes = Vec::new();
    bytes.extend_from_slice(&nonce);
    bytes.extend_from_slice(&salt);
    bytes.extend_from_slice(&sealed);
    let opened = decrypt_secret("host key".into(), encode(&bytes)).unwrap();
    assert_eq!(opened, "GEZDGNBV");
}

#[test]
fn sealing_twice_gives_two_envelopes() {
    let first = encrypt_secret("test".into(), "secret".into()).unwrap();
    let second = encrypt_secret("test".into(), "secret".into()).unwrap();
    assert_ne!(first, second);
    let first = decode(&first);
    let second = decode(&second);
    assert_ne!(&first[0..24], &second[0..24]);
    assert_ne!(&first[0..12], &first[12..24]);
}

#[test]
fn every_flipped_byte_is_rejected() {
    let sealed = seal_with("test", "secret", &[5u8; 12], &[6u8; 12]).unwrap();
    let bytes = decode(&sealed);
    for at in 0..bytes.len() {
        let mut changed = bytes.clone();
        changed[at] ^= 0x01;
        let res = decrypt_secret("test".into(), encode(&changed));
        assert!(matches!(res, Err(Error::DecryptError)), "byte {}: {:?}", at, res);
    }
}

#[test]
fn truncated_tag_is_rejected() {
    let sealed = seal_with("test", "secret", &[5u8; 12], &[6u8; 12]).unwrap();
    let bytes = decode(&sealed);
    let res = decrypt_secret("test".into(), encode(&bytes[..bytes.len() - 1]));
    assert!(matches!(res, Err(Error::DecryptError)));
    let res = decrypt_secret("test".into(), encode(&bytes[..24]));
    assert!(matches!(res, Err(Error::DecryptError)));
}

#[test]
fn payload_that_is_not_text_is_rejected() {
    let salt = [0x33u8; 12];
    let nonce = [0x44u8; 12];
    let key = derive("test", &salt);
    let cipher = Aes256Gcm::new(Key::<Aes256Gcm>::from_slice(&key));
    let sealed = cipher.encrypt(Nonce::from_slice(&nonce), &[0xff, 0xfe, 0x80][..]).unwrap();
    let mut bytes = Vec::new();
    bytes.extend_from_slice(&nonce);
    bytes.extend_from_slice(&salt);
    bytes.extend_from_slice(&sealed);
    let res = decrypt_secret("test".into(), encode(&bytes));
    assert!(matches!(res, Err(Error::DecryptError)));
}

#[test]
fn malformed_envelope_is_an_internal_error() {
    let res = decrypt_secret("test".into(), "not base64 at all!".into());
    assert!(matches!(res, Err(Error::InternalError(_))));
    let res = decrypt_secret("test".into(), "".into());
    assert!(matches!(res, Err(Error::InternalError(_))));
    let res = decrypt_secret("test".into(), encode(&[0u8; 23]));
    assert!(matches!(res, Err(Error::InternalError(_))));
}

#[test]
fn error_messages() {
    assert_eq!(Error::InternalError("boom".into()).message(), "internal error: boom");
    assert_eq!(
        Error::MigrationError("mismatch".into()).message(),
        "database migrate error: mismatch"
    );
    assert_eq!(Error::DecryptError.message(), "data decryption error");
    match Error::internal("detail") {
        Error::InternalError(text) => assert_eq!(text, "detail"),
        other => panic!("unexpected error: {:?}", other),
    }
}
