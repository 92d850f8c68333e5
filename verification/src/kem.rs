//! Key-encapsulation provider: a safe capability interface over the
//! Kyber768 post-quantum KEM.
//!
//! The provider exposes `keypair`, `encapsulate` and `decapsulate` with the
//! algorithm's fixed byte lengths as interface invariants, validated at the
//! boundary. Encapsulation is probabilistic: each call against the same
//! public key yields an independent fresh secret and ciphertext, so callers
//! that need a stable secret must cache the first result. Decapsulation is
//! a deterministic function of the ciphertext and private key.

use vstd::prelude::*;

use crate::errors::Error;

verus! {

/// Fixed Kyber768 public key length in bytes.
pub const PUBLIC_KEY_LEN: usize = 1184;

/// Fixed Kyber768 private key length in bytes.
pub const PRIVATE_KEY_LEN: usize = 2400;

/// Fixed Kyber768 key-exchange ciphertext length in bytes.
pub const KEM_CIPHERTEXT_LEN: usize = 1088;

/// Fixed Kyber768 shared secret length in bytes.
pub const SHARED_SECRET_LEN: usize = 32;

/// A public/private keypair for one local identity. The private key never
/// leaves the process boundary.
pub struct KeyPair {
    pub public_key: Vec<u8>,
    pub private_key: Vec<u8>,
}

/// The mathematical content of a [`KeyPair`]: its two byte strings.
pub ghost struct KeyPairV {
    pub public_key: Seq<u8>,
    pub private_key: Seq<u8>,
}

impl View for KeyPair {
    type V = KeyPairV;

    open spec fn view(&self) -> KeyPairV {
        KeyPairV { public_key: self.public_key@, private_key: self.private_key@ }
    }
}

/// A keypair is well formed when both fields have the algorithm's fixed
/// lengths.
pub open spec fn keypair_wf(kp: KeyPairV) -> bool {
    &&& kp.public_key.len() == PUBLIC_KEY_LEN
    &&& kp.private_key.len() == PRIVATE_KEY_LEN
}

/// The shared secret that Kyber768 decapsulation recovers from a
/// key-exchange ciphertext and a private key; decapsulation depends on
/// those two inputs alone.
pub uninterp spec fn kem_decap(ciphertext: Seq<u8>, private_key: Seq<u8>) -> Seq<u8>;

/// The public key a Kyber768 private key answers for: the key against
/// which encapsulations are recovered by that private key (a Kyber768
/// secret key embeds its public key, and `pqc_kyber::public` extracts
/// it). Of a byte string that key generation could not have produced,
/// nothing is claimed.
pub uninterp spec fn kem_pk_of(private_key: Seq<u8>) -> Seq<u8>;

/// Relies on `pqc_kyber::keypair`: generates a fresh Kyber768 keypair with
/// a 1184-byte public key and a 2400-byte secret key, or fails when the
/// operating-system randomness source fails. The generated public key is
/// the one the generated private key answers for.
#[verifier::external_body]
fn kyber_keypair() -> (r: Result<KeyPair, ()>)
    ensures
        r matches Ok(kp) ==> keypair_wf(kp@) && kp@.public_key == kem_pk_of(kp@.private_key),
{
    match pqc_kyber::keypair(&mut rand::rngs::OsRng) {
        Ok(kp) => Ok(KeyPair { public_key: kp.public.to_vec(), private_key: kp.secret.to_vec() }),
        Err(_) => Err(()),
    }
}

/// Relies on `pqc_kyber::encapsulate`: for a 1184-byte public key it
/// returns a fresh 32-byte shared secret and the 1088-byte ciphertext that
/// carries it, or fails when the randomness source fails. The result is
/// probabilistic, so nothing relates two calls on the same key; but every
/// private key answering for this public key decapsulates the returned
/// ciphertext to the returned secret (the round trip the crate documents).
#[verifier::external_body]
fn kyber_encapsulate(peer_public_key: &Vec<u8>) -> (r: Result<(Vec<u8>, Vec<u8>), ()>)
    requires
        peer_public_key@.len() == PUBLIC_KEY_LEN,
    ensures
        r matches Ok(p) ==> p.0@.len() == SHARED_SECRET_LEN && p.1@.len() == KEM_CIPHERTEXT_LEN,
        r matches Ok(p) ==> forall|sk: Seq<u8>|
            #[trigger] kem_pk_of(sk) == peer_public_key@ ==> kem_decap(p.1@, sk) == p.0@,
{
    match pqc_kyber::encapsulate(peer_public_key.as_slice(), &mut rand::rngs::OsRng) {
        Ok((ct, ss)) => Ok((ss.to_vec(), ct.to_vec())),
        Err(_) => Err(()),
    }
}

/// Relies on `pqc_kyber::decapsulate`: it rejects inputs of the wrong
/// length and otherwise always recovers a 32-byte shared secret, a
/// deterministic function of the ciphertext and the secret key (implicit
/// rejection never fails the call).
#[verifier::external_body]
fn kyber_decapsulate(ciphertext: &Vec<u8>, private_key: &Vec<u8>) -> (r: Result<Vec<u8>, ()>)
    ensures
        r is Ok <==> (ciphertext@.len() == KEM_CIPHERTEXT_LEN && private_key@.len()
            == PRIVATE_KEY_LEN),
        r matches Ok(ss) ==> ss@ == kem_decap(ciphertext@, private_key@) && ss@.len()
            == SHARED_SECRET_LEN,
{
    match pqc_kyber::decapsulate(ciphertext.as_slice(), private_key.as_slice()) {
        Ok(ss) => Ok(ss.to_vec()),
        Err(_) => Err(()),
    }
}

/// The capability set over the Kyber768 algorithm. The pure-Rust provider
/// needs no native handle, so construction cannot fail and there is
/// nothing to release at teardown.
pub struct KemProvider {}

impl KemProvider {
    /// Acquire the provider capability.
    pub fn new() -> (r: KemProvider) {
        KemProvider {  }
    }

    /// The fixed public key length the provider reports.
    pub fn public_key_length(&self) -> (r: usize)
        ensures
            r == PUBLIC_KEY_LEN,
    {
        PUBLIC_KEY_LEN
    }

    /// The fixed private key length the provider reports.
    pub fn private_key_length(&self) -> (r: usize)
        ensures
            r == PRIVATE_KEY_LEN,
    {
        PRIVATE_KEY_LEN
    }

    /// The fixed key-exchange ciphertext length the provider reports.
    pub fn ciphertext_length(&self) -> (r: usize)
        ensures
            r == KEM_CIPHERTEXT_LEN,
    {
        KEM_CIPHERTEXT_LEN
    }

    /// The fixed shared secret length the provider reports.
    pub fn shared_secret_length(&self) -> (r: usize)
        ensures
            r == SHARED_SECRET_LEN,
    {
        SHARED_SECRET_LEN
    }

    /// Generate a fresh keypair with the algorithm's fixed lengths; its
    /// public key is the one its private key answers for.
    pub fn keypair(&self) -> (r: Result<KeyPair, Error>)
        ensures
            r matches Ok(kp) ==> keypair_wf(kp@) && kp@.public_key == kem_pk_of(kp@.private_key),
            r matches Err(e) ==> e == Error::KeyGenError,
    {
        match kyber_keypair() {
            Ok(kp) => Ok(kp),
            Err(_) => Err(Error::KeyGenError),
        }
    }

    /// Encapsulate against a peer's public key, returning a fresh shared
    /// secret and the ciphertext that lets the peer recover it: every
    /// private key answering for that public key decapsulates the
    /// ciphertext to the same secret. A key of the wrong length is
    /// rejected before any provider call.
    pub fn encapsulate(&self, peer_public_key: &Vec<u8>) -> (r: Result<(Vec<u8>, Vec<u8>), Error>)
        ensures
            peer_public_key@.len() != PUBLIC_KEY_LEN ==> r == Err::<(Vec<u8>, Vec<u8>), Error>(
                Error::EncapsulationError,
            ),
            r matches Ok(p) ==> peer_public_key@.len() == PUBLIC_KEY_LEN && p.0@.len()
                == SHARED_SECRET_LEN && p.1@.len() == KEM_CIPHERTEXT_LEN,
            r matches Ok(p) ==> forall|sk: Seq<u8>|
                #[trigger] kem_pk_of(sk) == peer_public_key@ ==> kem_decap(p.1@, sk) == p.0@,
            r matches Err(e) ==> e == Error::EncapsulationError,
    {
        if peer_public_key.len() != PUBLIC_KEY_LEN {
            return Err(Error::EncapsulationError);
        }
        match kyber_encapsulate(peer_public_key) {
            Ok(p) => Ok(p),
            Err(_) => Err(Error::EncapsulationError),
        }
    }

    /// Recover the shared secret carried by a key-exchange ciphertext,
    /// using the local private key. Succeeds exactly when both inputs have
    /// the algorithm's fixed lengths; the result is a deterministic
    /// function of the two inputs.
    pub fn decapsulate(&self, ciphertext: &Vec<u8>, private_key: &Vec<u8>) -> (r: Result<
        Vec<u8>,
        Error,
    >)
        ensures
            r is Ok <==> (ciphertext@.len() == KEM_CIPHERTEXT_LEN && private_key@.len()
                == PRIVATE_KEY_LEN),
            r matches Ok(ss) ==> ss@ == kem_decap(ciphertext@, private_key@) && ss@.len()
                == SHARED_SECRET_LEN,
            r matches Err(e) ==> e == Error::DecapsulationError,
    {
        match kyber_decapsulate(ciphertext, private_key) {
            Ok(ss) => Ok(ss),
            Err(_) => Err(Error::DecapsulationError),
        }
    }
}

} // verus!
