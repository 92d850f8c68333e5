use secure_messaging_client::errors::Error;
use secure_messaging_client::kem::{KEM_CIPHERTEXT_LEN, PUBLIC_KEY_LEN};
use secure_messaging_client::session::Session;

#[test]
fn two_identities_exchange_messages() {
    let mut alice = Session::new();
    let mut bob = Session::new();
    let alice_pk = alice.login("alice").unwrap();
    let bob_pk = bob.login("bob").unwrap();
    assert_eq!(alice_pk.len(), PUBLIC_KEY_LEN);
    assert_eq!(bob_pk.len(), PUBLIC_KEY_LEN);

    assert!(!alice.established("bob"));
    let first = alice.send("bob", "hello", Some(&bob_pk)).unwrap();
    assert!(alice.established("bob"));
    assert_eq!(first.kem_ciphertext.len(), KEM_CIPHERTEXT_LEN);

    let second = alice.send("bob", "world", Some(&bob_pk)).unwrap();
    // The cached secret is reused, but nonce and ciphertext are fresh.
    assert_eq!(second.kem_ciphertext, first.kem_ciphertext);
    assert_ne!(second.envelope.nonce, first.envelope.nonce);
    assert_ne!(second.envelope.ciphertext, first.envelope.ciphertext);

    // Bob decapsulates the attached ciphertext on the first message and
    // opens the second from his cache alone.
    let got_first = bob.receive("alice", &first.envelope, Some(&first.kem_ciphertext)).unwrap();
    assert_eq!(got_first, "hello");
    assert!(bob.established("alice"));
    let got_second = bob.receive("alice", &second.envelope, None).unwrap();
    assert_eq!(got_second, "world");
}

#[test]
fn unresolved_key_fails_even_with_cached_secret() {
    let mut alice = Session::new();
    let mut bob = Session::new();
    alice.login("alice").unwrap();
    let bob_pk = bob.login("bob").unwrap();
    alice.send("bob", "first", Some(&bob_pk)).unwrap();
    // An unresolvable recipient is always rejected, cached secret or not,
    // and the cached entry stays as it was.
    assert_eq!(alice.send("bob", "second", None), Err(Error::UnknownRecipientError));
    assert!(alice.established("bob"));
    let out = alice.send("bob", "third", Some(&bob_pk)).unwrap();
    assert_eq!(
        bob.receive("alice", &out.envelope, Some(&out.kem_ciphertext)).unwrap(),
        "third"
    );
}

#[test]
fn send_with_wrong_length_key_fails_only_fresh() {
    let mut alice = Session::new();
    let mut bob = Session::new();
    alice.login("alice").unwrap();
    let bob_pk = bob.login("bob").unwrap();
    let junk = vec![0u8; 9];
    assert_eq!(alice.send("bob", "hi", Some(&junk)), Err(Error::EncapsulationError));
    assert!(!alice.established("bob"));
    alice.send("bob", "hi", Some(&bob_pk)).unwrap();
    // With the secret established, the unusable key is never consulted.
    assert!(alice.send("bob", "again", Some(&junk)).is_ok());
}

#[test]
fn discard_identity_undoes_login() {
    let mut s = Session::new();
    s.login("alice").unwrap();
    s.discard_identity("alice").unwrap();
    assert!(s.current_identity().is_none());
    assert_eq!(s.public_key_of("alice"), Err(Error::UnknownIdentityError));
    // The identity can log in afresh afterwards.
    s.login("alice").unwrap();
    assert_eq!(s.current_identity().unwrap(), "alice");
    assert_eq!(s.discard_identity("nobody"), Err(Error::UnknownIdentityError));
}

#[test]
fn send_to_unresolvable_recipient_leaves_no_entry() {
    let mut alice = Session::new();
    alice.login("alice").unwrap();
    assert_eq!(alice.send("ghost", "hello", None), Err(Error::UnknownRecipientError));
    assert!(!alice.established("ghost"));
}

#[test]
fn send_requires_login() {
    let mut s = Session::new();
    let pk = vec![0u8; PUBLIC_KEY_LEN];
    assert_eq!(s.send("bob", "hi", Some(&pk)), Err(Error::NotLoggedInError));
}

#[test]
fn receive_requires_login() {
    let mut sender = Session::new();
    sender.login("alice").unwrap();
    let mut other = Session::new();
    let bob_pk = other.login("bob").unwrap();
    let out = sender.send("bob", "hi", Some(&bob_pk)).unwrap();
    let mut s = Session::new();
    assert_eq!(
        s.receive("alice", &out.envelope, Some(&out.kem_ciphertext)),
        Err(Error::NotLoggedInError)
    );
}

#[test]
fn duplicate_login_rejected() {
    let mut s = Session::new();
    s.login("alice").unwrap();
    assert_eq!(s.login("alice"), Err(Error::DuplicateIdentityError));
}

#[test]
fn receive_without_secret_or_ciphertext_rejected() {
    let mut alice = Session::new();
    let mut bob = Session::new();
    alice.login("alice").unwrap();
    let bob_pk = bob.login("bob").unwrap();
    let out = alice.send("bob", "hello", Some(&bob_pk)).unwrap();
    assert_eq!(bob.receive("alice", &out.envelope, None), Err(Error::UnknownRecipientError));
    assert!(!bob.established("alice"));
}

#[test]
fn receive_with_wrong_ciphertext_length_rejected() {
    let mut alice = Session::new();
    let mut bob = Session::new();
    alice.login("alice").unwrap();
    let bob_pk = bob.login("bob").unwrap();
    let out = alice.send("bob", "hello", Some(&bob_pk)).unwrap();
    let stub = vec![0u8; 5];
    assert_eq!(
        bob.receive("alice", &out.envelope, Some(&stub)),
        Err(Error::DecapsulationError)
    );
    assert!(!bob.established("alice"));
}

#[test]
fn tampered_envelope_fails_after_key_exchange() {
    let mut alice = Session::new();
    let mut bob = Session::new();
    alice.login("alice").unwrap();
    let bob_pk = bob.login("bob").unwrap();
    let out = alice.send("bob", "hello", Some(&bob_pk)).unwrap();
    let mut bad = secure_messaging_client::cipher::SealedEnvelope {
        ciphertext: out.envelope.ciphertext.clone(),
        nonce: out.envelope.nonce.clone(),
    };
    // Swap the framing: the nonce text in place of the ciphertext text.
    bad.ciphertext = out.envelope.nonce.clone();
    assert_eq!(
        bob.receive("alice", &bad, Some(&out.kem_ciphertext)),
        Err(Error::DecryptionError)
    );
    // The key exchange itself still succeeded and is cached.
    assert!(bob.established("alice"));
    assert_eq!(bob.receive("alice", &out.envelope, None).unwrap(), "hello");
}

#[test]
fn current_identity_tracks_login() {
    let mut s = Session::new();
    assert!(s.current_identity().is_none());
    s.login("carol").unwrap();
    assert_eq!(s.current_identity().unwrap(), "carol");
}

#[test]
fn logout_wipes_identities() {
    let mut s = Session::new();
    s.login("alice").unwrap();
    assert!(s.public_key_of("alice").is_ok());
    s.logout();
    assert!(s.current_identity().is_none());
    assert_eq!(s.public_key_of("alice"), Err(Error::UnknownIdentityError));
}

#[test]
fn error_names_are_nonempty() {
    assert!(!Error::NotLoggedInError.name().is_empty());
    assert!(!Error::DecryptionError.name().is_empty());
}
