use aes_gcm::aead::Aead;
use aes_gcm::KeyInit;
use secure_messaging_client::cipher::{open, seal, SealedEnvelope};
use secure_messaging_client::errors::Error;

fn secret() -> Vec<u8> {
    (0u8..32).collect()
}

#[test]
fn round_trip_simple() {
    let s = secret();
    let env = seal("hello", &s).unwrap();
    assert_eq!(open(&env, &s).unwrap(), "hello");
}

#[test]
fn round_trip_unicode() {
    let s = secret();
    let msg = "مرحبا بالعالم — grüße 你好";
    let env = seal(msg, &s).unwrap();
    assert_eq!(open(&env, &s).unwrap(), msg);
}

#[test]
fn round_trip_empty_message() {
    let s = secret();
    let env = seal("", &s).unwrap();
    assert_eq!(open(&env, &s).unwrap(), "");
}

#[test]
fn seal_uses_first_32_secret_bytes() {
    // Only the first 32 bytes of the secret derive the key.
    let mut long_a = secret();
    long_a.extend_from_slice(&[9u8; 8]);
    let mut long_b = secret();
    long_b.extend_from_slice(&[250u8; 3]);
    let env = seal("prefix", &long_a).unwrap();
    assert_eq!(open(&env, &long_b).unwrap(), "prefix");
}

#[test]
fn nonce_uniqueness_over_many_seals() {
    let s = secret();
    let mut seen = std::collections::HashSet::new();
    for _ in 0..10_000 {
        let env = seal("x", &s).unwrap();
        assert!(seen.insert(env.nonce));
    }
    assert_eq!(seen.len(), 10_000);
}

#[test]
fn tamper_detection_every_bit() {
    let s = secret();
    let env = seal("hello", &s).unwrap();
    let ct = base64::Engine::decode(&base64::engine::general_purpose::STANDARD, &env.ciphertext)
        .unwrap();
    for byte in 0..ct.len() {
        for bit in 0..8 {
            let mut corrupted = ct.clone();
            corrupted[byte] ^= 1u8 << bit;
            let bad = SealedEnvelope {
                ciphertext: base64::Engine::encode(
                    &base64::engine::general_purpose::STANDARD,
                    &corrupted,
                ),
                nonce: env.nonce.clone(),
            };
            assert_eq!(open(&bad, &s), Err(Error::DecryptionError));
        }
    }
}

#[test]
fn wrong_secret_fails() {
    let s = secret();
    let env = seal("hello", &s).unwrap();
    let other: Vec<u8> = (100u8..132).collect();
    assert_eq!(open(&env, &other), Err(Error::DecryptionError));
}

#[test]
fn invalid_encoding_rejected() {
    let s = secret();
    let env = SealedEnvelope {
        ciphertext: "not base64 !!".to_string(),
        nonce: "also not base64 !!".to_string(),
    };
    assert_eq!(open(&env, &s), Err(Error::InvalidEncodingError));
}

#[test]
fn invalid_ciphertext_encoding_rejected() {
    let s = secret();
    let env = seal("hi", &s).unwrap();
    let bad = SealedEnvelope {
        ciphertext: "@@@@".to_string(),
        nonce: env.nonce,
    };
    assert_eq!(open(&bad, &s), Err(Error::InvalidEncodingError));
}

#[test]
fn wrong_nonce_length_rejected() {
    let s = secret();
    let env = seal("hi", &s).unwrap();
    let bad = SealedEnvelope {
        ciphertext: env.ciphertext,
        nonce: base64::Engine::encode(&base64::engine::general_purpose::STANDARD, [1u8, 2, 3]),
    };
    assert_eq!(open(&bad, &s), Err(Error::DecryptionError));
}

#[test]
fn invalid_utf8_rejected() {
    let s = secret();
    let cipher = aes_gcm::Aes256Gcm::new(aes_gcm::Key::<aes_gcm::Aes256Gcm>::from_slice(&s));
    let nonce_bytes = [7u8; 12];
    let ct = cipher
        .encrypt(aes_gcm::Nonce::from_slice(&nonce_bytes), &[0xffu8, 0xfe, 0x00][..])
        .unwrap();
    let env = SealedEnvelope {
        ciphertext: base64::Engine::encode(&base64::engine::general_purpose::STANDARD, &ct),
        nonce: base64::Engine::encode(&base64::engine::general_purpose::STANDARD, nonce_bytes),
    };
    assert_eq!(open(&env, &s), Err(Error::InvalidUtf8Error));
}

#[test]
fn different_seals_differ() {
    let s = secret();
    let a = seal("same message", &s).unwrap();
    let b = seal("same message", &s).unwrap();
    assert_ne!(a.nonce, b.nonce);
    assert_ne!(a.ciphertext, b.ciphertext);
}
