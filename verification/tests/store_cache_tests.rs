use secure_messaging_client::errors::Error;
use secure_messaging_client::kem::{KemProvider, PUBLIC_KEY_LEN};
use secure_messaging_client::keystore::IdentityKeyStore;
use secure_messaging_client::secrets::SecretCache;

#[test]
fn create_identity_and_fetch_key() {
    let p = KemProvider::new();
    let mut store = IdentityKeyStore::new();
    assert!(!store.contains_identity("alice"));
    let pk = store.create_identity("alice", &p).unwrap();
    assert_eq!(pk.len(), PUBLIC_KEY_LEN);
    assert!(store.contains_identity("alice"));
    assert_eq!(store.public_key_of("alice").unwrap(), pk);
}

#[test]
fn duplicate_identity_rejected() {
    let p = KemProvider::new();
    let mut store = IdentityKeyStore::new();
    let first = store.create_identity("alice", &p).unwrap();
    assert_eq!(store.create_identity("alice", &p), Err(Error::DuplicateIdentityError));
    // The first keypair is untouched.
    assert_eq!(store.public_key_of("alice").unwrap(), first);
}

#[test]
fn unknown_identity_rejected() {
    let store = IdentityKeyStore::new();
    assert_eq!(store.public_key_of("nobody"), Err(Error::UnknownIdentityError));
}

#[test]
fn wipe_clears_store() {
    let p = KemProvider::new();
    let mut store = IdentityKeyStore::new();
    store.create_identity("alice", &p).unwrap();
    store.create_identity("bob", &p).unwrap();
    store.wipe();
    assert!(!store.contains_identity("alice"));
    assert!(!store.contains_identity("bob"));
}

#[test]
fn get_or_establish_is_idempotent() {
    let p = KemProvider::new();
    let kp = p.keypair().unwrap();
    let mut cache = SecretCache::new();
    let first = cache.get_or_establish("alice", "bob", &kp.public_key, &p).unwrap();
    let second = cache.get_or_establish("alice", "bob", &kp.public_key, &p).unwrap();
    assert_eq!(first, second);
    // The fast path never reaches the provider: even an unusable key
    // returns the cached secret, so no second encapsulation can happen.
    let junk = vec![0u8; 3];
    let third = cache.get_or_establish("alice", "bob", &junk, &p).unwrap();
    assert_eq!(first, third);
}

#[test]
fn directions_are_independent() {
    let p = KemProvider::new();
    let kp = p.keypair().unwrap();
    let mut cache = SecretCache::new();
    let ab = cache.get_or_establish("alice", "bob", &kp.public_key, &p).unwrap();
    let ba = cache.get_or_establish("bob", "alice", &kp.public_key, &p).unwrap();
    assert_ne!(ab, ba);
    assert!(cache.contains_pair("alice", "bob"));
    assert!(cache.contains_pair("bob", "alice"));
}

#[test]
fn failed_encapsulation_leaves_cache_untouched() {
    let p = KemProvider::new();
    let mut cache = SecretCache::new();
    let junk = vec![0u8; 17];
    assert_eq!(
        cache.get_or_establish("alice", "bob", &junk, &p),
        Err(Error::EncapsulationError)
    );
    assert!(!cache.contains_pair("alice", "bob"));
    assert!(cache.lookup("alice", "bob").is_none());
}

#[test]
fn cached_ciphertext_decapsulates_to_cached_secret() {
    let p = KemProvider::new();
    let kp = p.keypair().unwrap();
    let mut cache = SecretCache::new();
    let secret = cache.get_or_establish("alice", "bob", &kp.public_key, &p).unwrap();
    let ciphertext = cache.ciphertext_for("alice", "bob").unwrap();
    let recovered = p.decapsulate(&ciphertext, &kp.private_key).unwrap();
    assert_eq!(recovered, secret);
}

#[test]
fn remember_never_regenerates() {
    let p = KemProvider::new();
    let kp = p.keypair().unwrap();
    let (secret, ciphertext) = p.encapsulate(&kp.public_key).unwrap();
    let mut cache = SecretCache::new();
    cache.remember("bob", "alice", &secret, &ciphertext);
    assert_eq!(cache.lookup("bob", "alice").unwrap(), secret);
    let (other_secret, other_ct) = p.encapsulate(&kp.public_key).unwrap();
    cache.remember("bob", "alice", &other_secret, &other_ct);
    // The established entry stays as it was.
    assert_eq!(cache.lookup("bob", "alice").unwrap(), secret);
    assert_eq!(cache.ciphertext_for("bob", "alice").unwrap(), ciphertext);
}
