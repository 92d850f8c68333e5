use secure_messaging_client::errors::Error;
use secure_messaging_client::kem::{
    KemProvider, KEM_CIPHERTEXT_LEN, PRIVATE_KEY_LEN, PUBLIC_KEY_LEN, SHARED_SECRET_LEN,
};

#[test]
fn provider_reports_kyber768_lengths() {
    let p = KemProvider::new();
    assert_eq!(p.public_key_length(), 1184);
    assert_eq!(p.private_key_length(), 2400);
    assert_eq!(p.ciphertext_length(), 1088);
    assert_eq!(p.shared_secret_length(), 32);
}

#[test]
fn keypair_has_fixed_lengths() {
    let p = KemProvider::new();
    let kp = p.keypair().unwrap();
    assert_eq!(kp.public_key.len(), PUBLIC_KEY_LEN);
    assert_eq!(kp.private_key.len(), PRIVATE_KEY_LEN);
}

#[test]
fn encapsulate_then_decapsulate_agree() {
    let p = KemProvider::new();
    let kp = p.keypair().unwrap();
    let (secret, ciphertext) = p.encapsulate(&kp.public_key).unwrap();
    assert_eq!(secret.len(), SHARED_SECRET_LEN);
    assert_eq!(ciphertext.len(), KEM_CIPHERTEXT_LEN);
    let recovered = p.decapsulate(&ciphertext, &kp.private_key).unwrap();
    assert_eq!(recovered, secret);
}

#[test]
fn encapsulate_is_probabilistic() {
    let p = KemProvider::new();
    let kp = p.keypair().unwrap();
    let (s1, c1) = p.encapsulate(&kp.public_key).unwrap();
    let (s2, c2) = p.encapsulate(&kp.public_key).unwrap();
    assert_ne!(s1, s2);
    assert_ne!(c1, c2);
}

#[test]
fn encapsulate_rejects_wrong_length_key() {
    let p = KemProvider::new();
    let short = vec![0u8; 100];
    assert_eq!(p.encapsulate(&short), Err(Error::EncapsulationError));
    let long = vec![0u8; PUBLIC_KEY_LEN + 1];
    assert_eq!(p.encapsulate(&long), Err(Error::EncapsulationError));
    let empty: Vec<u8> = Vec::new();
    assert_eq!(p.encapsulate(&empty), Err(Error::EncapsulationError));
}

#[test]
fn decapsulate_rejects_wrong_lengths() {
    let p = KemProvider::new();
    let kp = p.keypair().unwrap();
    let (_, ciphertext) = p.encapsulate(&kp.public_key).unwrap();
    let short_ct = vec![0u8; 10];
    assert_eq!(p.decapsulate(&short_ct, &kp.private_key), Err(Error::DecapsulationError));
    let short_sk = vec![0u8; 10];
    assert_eq!(p.decapsulate(&ciphertext, &short_sk), Err(Error::DecapsulationError));
}
