//! Session façade: login, send and receive over the key store, the
//! shared-secret cache and the message cipher.
//!
//! The façade owns one identity key store and one secret cache for the
//! process. Resolution of a peer's public key and all network delivery
//! belong to the transport collaborator: `send` takes the resolved key as
//! an argument and hands back the sealed envelope, together with the
//! key-exchange ciphertext the first message to that peer must carry;
//! `receive` takes the envelope a peer delivered, and the attached
//! key-exchange ciphertext when no secret is cached yet for that peer, in
//! which case the local private key decapsulates and caches the same
//! secret the sender derived.
//!
//! A session is driven through exclusive references, so the
//! check-then-establish sequence for a pair can never interleave with a
//! competing establishment for the same pair.

use vstd::prelude::*;

use vstd::pervasive::VecAdditionalExecFns;
use vstd::utf8::{encode_utf8, valid_utf8};

use crate::cipher::{
    decrypts_under, frame_decodable, open, plaintext_bytes_of, seal, sealed_under, SealedEnvelope,
    AEAD_MAX_PLAINTEXT_LEN,
};
use crate::errors::Error;
use crate::kem::{
    kem_decap, kem_pk_of, keypair_wf, KemProvider, KeyPairV, KEM_CIPHERTEXT_LEN, PUBLIC_KEY_LEN,
    SHARED_SECRET_LEN,
};
use crate::keystore::IdentityKeyStore;
use crate::secrets::{SecretCache, SecretV};

verus! {

/// What `send` hands to the transport: the sealed envelope and the
/// key-exchange ciphertext of the pair's secret, which must accompany the
/// first message to a new peer so the recipient can decapsulate.
#[derive(Debug, PartialEq, Eq)]
pub struct OutgoingMessage {
    pub envelope: SealedEnvelope,
    pub kem_ciphertext: Vec<u8>,
}

/// One logical session: provider, key store, secret cache and the
/// logged-in identity.
pub struct Session {
    provider: KemProvider,
    store: IdentityKeyStore,
    cache: SecretCache,
    current_user: Option<String>,
}

impl Session {
    /// The keypairs of the local identities.
    pub closed spec fn identities(&self) -> Map<Seq<char>, KeyPairV> {
        self.store@
    }

    /// The established shared secrets, keyed by ordered pair.
    pub closed spec fn secrets(&self) -> Map<(Seq<char>, Seq<char>), SecretV> {
        self.cache@
    }

    /// The logged-in identity, if any.
    pub closed spec fn current(&self) -> Option<Seq<char>> {
        match self.current_user {
            Some(u) => Some(u@),
            None => None,
        }
    }

    /// The logged-in identity's id; meaningful only when `current()` is
    /// `Some`.
    pub open spec fn current_id(&self) -> Seq<char> {
        self.current()->Some_0
    }

    /// The session's internal invariant: both components are well formed
    /// and the logged-in identity, if any, holds a keypair.
    pub closed spec fn wf(&self) -> bool {
        &&& self.store.wf()
        &&& self.cache.wf()
        &&& (self.current_user matches Some(u) ==> self.store@.contains_key(u@))
    }

    /// A fresh session: no identities, no secrets, nobody logged in.
    pub fn new() -> (r: Session)
        ensures
            r.wf(),
            r.identities() == Map::<Seq<char>, KeyPairV>::empty(),
            r.secrets() == Map::<(Seq<char>, Seq<char>), SecretV>::empty(),
            r.current() is None,
    {
        Session {
            provider: KemProvider::new(),
            store: IdentityKeyStore::new(),
            cache: SecretCache::new(),
            current_user: None,
        }
    }

    /// Log an identity in: generate and store its keypair and return the
    /// public key for the caller to publish. An identity that already
    /// holds a keypair is rejected unchanged.
    pub fn login(&mut self, id: &str) -> (r: Result<Vec<u8>, Error>)
        requires
            old(self).wf(),
        ensures
            final(self).wf(),
            final(self).secrets() == old(self).secrets(),
            old(self).identities().contains_key(id@) ==> r == Err::<Vec<u8>, Error>(
                Error::DuplicateIdentityError,
            ) && final(self).identities() == old(self).identities() && final(self).current()
                == old(self).current(),
            !old(self).identities().contains_key(id@) ==> match r {
                Ok(pk) => {
                    &&& final(self).identities().contains_key(id@)
                    &&& keypair_wf(final(self).identities()[id@])
                    &&& pk@ == final(self).identities()[id@].public_key
                    &&& final(self).identities() == old(self).identities().insert(
                        id@,
                        final(self).identities()[id@],
                    )
                    &&& final(self).current() == Some(id@)
                },
                Err(e) => e == Error::KeyGenError && final(self).identities() == old(self).identities() && final(self).current() == old(self).current(),
            },
    {
        match self.store.create_identity(id, &self.provider) {
            Ok(pk) => {
                self.current_user = Some(id.to_owned());
                Ok(pk)
            },
            Err(e) => Err(e),
        }
    }

    /// The logged-in identity, if any.
    pub fn current_identity(&self) -> (r: Option<String>)
        ensures
            match r {
                Some(u) => self.current() == Some(u@),
                None => self.current() is None,
            },
    {
        match &self.current_user {
            Some(u) => Some(u.clone()),
            None => None,
        }
    }

    /// The stored public key of a local identity.
    pub fn public_key_of(&self, id: &str) -> (r: Result<Vec<u8>, Error>)
        requires
            self.wf(),
        ensures
            self.identities().contains_key(id@) ==> (r matches Ok(pk)
                && pk@ == self.identities()[id@].public_key && pk@.len() == PUBLIC_KEY_LEN),
            !self.identities().contains_key(id@) ==> r == Err::<Vec<u8>, Error>(
                Error::UnknownIdentityError,
            ),
    {
        self.store.public_key_of(id)
    }

    /// Whether a shared secret is already established from the logged-in
    /// identity towards `remote`.
    pub fn established(&self, remote: &str) -> (r: bool)
        ensures
            r == (self.current() matches Some(me) && self.secrets().contains_key((me, remote@))),
    {
        match &self.current_user {
            Some(u) => self.cache.contains_pair(u.as_str(), remote),
            None => false,
        }
    }

    /// Send a message: seal `plaintext` under the secret for the pair
    /// (logged-in identity, `to`). The caller resolves the recipient's
    /// public key first; an unresolvable recipient is always rejected
    /// with `UnknownRecipientError` and no cache entry, even when a
    /// secret is already cached. With the key resolved, an established
    /// secret is reused unchanged — no second encapsulation — and the
    /// send is owed to succeed for any plaintext the cipher accepts; on
    /// first use, one encapsulation establishes the secret, and any
    /// private key answering for the resolved key decapsulates the
    /// attached ciphertext to the same secret. Only the pair being sent
    /// to can gain an entry.
    pub fn send(&mut self, to: &str, plaintext: &str, recipient_public_key: Option<&Vec<u8>>) -> (r:
        Result<OutgoingMessage, Error>)
        requires
            old(self).wf(),
        ensures
            final(self).wf(),
            final(self).identities() == old(self).identities(),
            final(self).current() == old(self).current(),
            old(self).current() is None ==> r == Err::<OutgoingMessage, Error>(
                Error::NotLoggedInError,
            ) && final(self).secrets() == old(self).secrets(),
            old(self).current() is Some && recipient_public_key is None ==> r == Err::<
                OutgoingMessage,
                Error,
            >(Error::UnknownRecipientError) && final(self).secrets() == old(self).secrets(),
            old(self).current() is Some && recipient_public_key is Some && old(
                self,
            ).secrets().contains_key((old(self).current_id(), to@)) && encode_utf8(
                plaintext@,
            ).len() <= AEAD_MAX_PLAINTEXT_LEN ==> r is Ok,
            match r {
                Ok(out) => {
                    &&& old(self).current() is Some
                    &&& recipient_public_key is Some
                    &&& final(self).secrets().contains_key((old(self).current_id(), to@))
                    &&& final(self).secrets()[(old(self).current_id(), to@)].secret.len()
                        == SHARED_SECRET_LEN
                    &&& sealed_under(
                        out.envelope@,
                        final(self).secrets()[(old(self).current_id(), to@)].secret,
                        plaintext@,
                    )
                    &&& out.kem_ciphertext@ == final(self).secrets()[(
                        old(self).current_id(),
                        to@,
                    )].kem_ciphertext
                    &&& old(self).secrets().contains_key((old(self).current_id(), to@)) ==> final(self).secrets() == old(self).secrets()
                    &&& !old(self).secrets().contains_key((old(self).current_id(), to@)) ==> {
                        &&& final(self).secrets() == old(self).secrets().insert(
                            (old(self).current_id(), to@),
                            final(self).secrets()[(old(self).current_id(), to@)],
                        )
                        &&& forall|sk: Seq<u8>|
                            #[trigger] kem_pk_of(sk) == recipient_public_key.unwrap()@
                                ==> kem_decap(out.kem_ciphertext@, sk) == final(self).secrets()[(
                                old(self).current_id(),
                                to@,
                            )].secret
                    }
                },
                Err(e) => {
                    &&& (e == Error::NotLoggedInError || e == Error::UnknownRecipientError || e
                        == Error::EncapsulationError || e == Error::EncryptionError)
                    &&& (e == Error::NotLoggedInError <==> old(self).current() is None)
                    &&& (e == Error::UnknownRecipientError <==> old(self).current() is Some
                        && recipient_public_key is None)
                    &&& (e == Error::EncapsulationError ==> old(self).current() is Some
                        && recipient_public_key is Some && !old(self).secrets().contains_key(
                        (old(self).current_id(), to@),
                    ))
                    &&& (e == Error::EncryptionError ==> old(self).current() is Some
                        && recipient_public_key is Some && encode_utf8(plaintext@).len()
                        > AEAD_MAX_PLAINTEXT_LEN)
                    &&& (e != Error::EncryptionError ==> final(self).secrets() == old(self).secrets())
                    &&& (e == Error::EncryptionError && old(self).secrets().contains_key(
                        (old(self).current_id(), to@),
                    ) ==> final(self).secrets() == old(self).secrets())
                    &&& (e == Error::EncryptionError && !old(self).secrets().contains_key(
                        (old(self).current_id(), to@),
                    ) ==> {
                        &&& final(self).secrets().contains_key((old(self).current_id(), to@))
                        &&& final(self).secrets() == old(self).secrets().insert(
                            (old(self).current_id(), to@),
                            final(self).secrets()[(old(self).current_id(), to@)],
                        )
                        &&& final(self).secrets()[(old(self).current_id(), to@)].secret.len()
                            == SHARED_SECRET_LEN
                        &&& final(self).secrets()[(
                            old(self).current_id(),
                            to@,
                        )].kem_ciphertext.len() == KEM_CIPHERTEXT_LEN
                        &&& forall|sk: Seq<u8>|
                            #[trigger] kem_pk_of(sk) == recipient_public_key.unwrap()@
                                ==> kem_decap(
                                final(self).secrets()[(old(self).current_id(), to@)].kem_ciphertext,
                                sk,
                            ) == final(self).secrets()[(old(self).current_id(), to@)].secret
                    })
                },
            },
    {
        let me: String = match &self.current_user {
            Some(u) => u.clone(),
            None => {
                return Err(Error::NotLoggedInError);
            },
        };
        let pk = match recipient_public_key {
            Some(pk) => pk,
            None => {
                return Err(Error::UnknownRecipientError);
            },
        };
        let secret = match self.cache.get_or_establish(me.as_str(), to, pk, &self.provider) {
            Ok(s) => s,
            Err(e) => {
                return Err(e);
            },
        };
        let kem_ciphertext = match self.cache.ciphertext_for(me.as_str(), to) {
            Some(c) => c,
            None => {
                // The pair was established just above, so its ciphertext
                // is present; this branch cannot be reached.
                proof {
                    assert(false);
                }
                return Err(Error::UnknownRecipientError);
            },
        };
        match seal(plaintext, &secret) {
            Ok(envelope) => Ok(OutgoingMessage { envelope, kem_ciphertext }),
            Err(e) => Err(e),
        }
    }

    /// Receive a message from a peer: open the envelope under the secret
    /// for the pair (logged-in identity, `from`). When no secret is
    /// cached, the key-exchange ciphertext attached to the message is
    /// decapsulated with the local private key and the recovered secret is
    /// cached for the pair; a message from a peer with neither a cached
    /// secret nor an attached ciphertext is rejected with
    /// `UnknownRecipientError`. A secret once established stays cached
    /// even when the envelope itself fails to open.
    pub fn receive(
        &mut self,
        from: &str,
        envelope: &SealedEnvelope,
        kem_ciphertext: Option<&Vec<u8>>,
    ) -> (r: Result<String, Error>)
        requires
            old(self).wf(),
        ensures
            final(self).wf(),
            final(self).identities() == old(self).identities(),
            final(self).current() == old(self).current(),
            old(self).current() is None ==> r == Err::<String, Error>(Error::NotLoggedInError)
                && final(self).secrets() == old(self).secrets(),
            old(self).current() is Some && old(self).secrets().contains_key(
                (old(self).current_id(), from@),
            ) ==> {
                &&& final(self).secrets() == old(self).secrets()
                &&& forall|message: Seq<char>|
                    #[trigger] sealed_under(
                        envelope@,
                        old(self).secrets()[(old(self).current_id(), from@)].secret,
                        message,
                    ) ==> (r matches Ok(p) && p@ == message)
                &&& (r matches Ok(p) ==> sealed_under(
                    envelope@,
                    old(self).secrets()[(old(self).current_id(), from@)].secret,
                    p@,
                ))
                &&& (r == Err::<String, Error>(Error::InvalidEncodingError) <==> !frame_decodable(
                    envelope@,
                ))
                &&& (r == Err::<String, Error>(Error::DecryptionError) <==> (frame_decodable(
                    envelope@,
                ) && !decrypts_under(
                    envelope@,
                    old(self).secrets()[(old(self).current_id(), from@)].secret,
                )))
                &&& (r == Err::<String, Error>(Error::InvalidUtf8Error) <==> (decrypts_under(
                    envelope@,
                    old(self).secrets()[(old(self).current_id(), from@)].secret,
                ) && !valid_utf8(plaintext_bytes_of(
                    envelope@,
                    old(self).secrets()[(old(self).current_id(), from@)].secret,
                ))))
            },
            old(self).current() is Some && !old(self).secrets().contains_key(
                (old(self).current_id(), from@),
            ) && kem_ciphertext is None ==> r == Err::<String, Error>(
                Error::UnknownRecipientError,
            ) && final(self).secrets() == old(self).secrets(),
            old(self).current() is Some && !old(self).secrets().contains_key(
                (old(self).current_id(), from@),
            ) && kem_ciphertext is Some && kem_ciphertext.unwrap()@.len() != KEM_CIPHERTEXT_LEN
                ==> r == Err::<String, Error>(Error::DecapsulationError) && final(self).secrets()
                == old(self).secrets(),
            old(self).current() is Some && !old(self).secrets().contains_key(
                (old(self).current_id(), from@),
            ) && kem_ciphertext is Some && kem_ciphertext.unwrap()@.len() == KEM_CIPHERTEXT_LEN
                ==> {
                &&& final(self).secrets() == old(self).secrets().insert(
                    (old(self).current_id(), from@),
                    (SecretV {
                        secret: kem_decap(
                            kem_ciphertext.unwrap()@,
                            old(self).identities()[old(self).current_id()].private_key,
                        ),
                        kem_ciphertext: kem_ciphertext.unwrap()@,
                    }),
                )
                &&& forall|message: Seq<char>|
                    #[trigger] sealed_under(
                        envelope@,
                        kem_decap(
                            kem_ciphertext.unwrap()@,
                            old(self).identities()[old(self).current_id()].private_key,
                        ),
                        message,
                    ) ==> (r matches Ok(p) && p@ == message)
                &&& (r matches Ok(p) ==> sealed_under(
                    envelope@,
                    kem_decap(
                        kem_ciphertext.unwrap()@,
                        old(self).identities()[old(self).current_id()].private_key,
                    ),
                    p@,
                ))
                &&& (r == Err::<String, Error>(Error::InvalidEncodingError) <==> !frame_decodable(
                    envelope@,
                ))
                &&& (r == Err::<String, Error>(Error::DecryptionError) <==> (frame_decodable(
                    envelope@,
                ) && !decrypts_under(
                    envelope@,
                    kem_decap(
                        kem_ciphertext.unwrap()@,
                        old(self).identities()[old(self).current_id()].private_key,
                    ),
                )))
                &&& (r == Err::<String, Error>(Error::InvalidUtf8Error) <==> (decrypts_under(
                    envelope@,
                    kem_decap(
                        kem_ciphertext.unwrap()@,
                        old(self).identities()[old(self).current_id()].private_key,
                    ),
                ) && !valid_utf8(plaintext_bytes_of(
                    envelope@,
                    kem_decap(
                        kem_ciphertext.unwrap()@,
                        old(self).identities()[old(self).current_id()].private_key,
                    ),
                ))))
            },
            r == Err::<String, Error>(Error::NotLoggedInError) <==> old(self).current() is None,
            r == Err::<String, Error>(Error::UnknownRecipientError) <==> (old(self).current()
                is Some && !old(self).secrets().contains_key((old(self).current_id(), from@))
                && kem_ciphertext is None),
            r == Err::<String, Error>(Error::DecapsulationError) <==> (old(self).current() is Some
                && !old(self).secrets().contains_key((old(self).current_id(), from@))
                && kem_ciphertext is Some && kem_ciphertext.unwrap()@.len()
                != KEM_CIPHERTEXT_LEN),
            r matches Err(e) ==> (e == Error::NotLoggedInError || e == Error::UnknownRecipientError
                || e == Error::DecapsulationError || e == Error::InvalidEncodingError || e
                == Error::DecryptionError || e == Error::InvalidUtf8Error),
    {
        let me: String = match &self.current_user {
            Some(u) => u.clone(),
            None => {
                return Err(Error::NotLoggedInError);
            },
        };
        let secret: Vec<u8> = match self.cache.lookup(me.as_str(), from) {
            Some(s) => s,
            None => {
                let ct = match kem_ciphertext {
                    Some(c) => c,
                    None => {
                        return Err(Error::UnknownRecipientError);
                    },
                };
                let mut sk = match self.store.private_key_of(me.as_str()) {
                    Ok(sk) => sk,
                    Err(e) => {
                        // The logged-in identity always holds a keypair,
                        // so this branch cannot be reached.
                        proof {
                            assert(false);
                        }
                        return Err(e);
                    },
                };
                let result = self.provider.decapsulate(ct, &sk);
                // Overwrite the working private-key copy before it is
                // dropped; the store keeps the canonical copy.
                let n = sk.len();
                let mut j: usize = 0;
                while j < n
                    invariant
                        j <= n,
                        sk@.len() == n,
                    decreases n - j,
                {
                    sk.set(j, 0);
                    j = j + 1;
                }
                let ss = match result {
                    Ok(ss) => ss,
                    Err(e) => {
                        return Err(e);
                    },
                };
                self.cache.remember(me.as_str(), from, &ss, ct);
                ss
            },
        };
        open(envelope, &secret)
    }

    /// Discard one identity: overwrite its private key and remove its
    /// keypair, logging out when it is the logged-in identity. Lets a
    /// caller undo a login whose key publication failed, so the composite
    /// operation leaves no partial state.
    pub fn discard_identity(&mut self, id: &str) -> (r: Result<(), Error>)
        requires
            old(self).wf(),
        ensures
            final(self).wf(),
            final(self).secrets() == old(self).secrets(),
            old(self).identities().contains_key(id@) ==> r == Ok::<(), Error>(())
                && final(self).identities() == old(self).identities().remove(id@),
            !old(self).identities().contains_key(id@) ==> r == Err::<(), Error>(
                Error::UnknownIdentityError,
            ) && final(self).identities() == old(self).identities(),
            old(self).current() == Some(id@) ==> final(self).current() is None,
            old(self).current() != Some(id@) ==> final(self).current() == old(self).current(),
    {
        let r = self.store.remove_identity(id);
        let owned = id.to_owned();
        let clear = match &self.current_user {
            Some(u) => *u == owned,
            None => false,
        };
        if clear {
            self.current_user = None;
        }
        r
    }

    /// Tear the session down: wipe every private key and forget the
    /// identities, the secrets staying only as long as the process needs
    /// them.
    pub fn logout(&mut self)
        requires
            old(self).wf(),
        ensures
            final(self).wf(),
            final(self).identities() == Map::<Seq<char>, KeyPairV>::empty(),
            final(self).current() is None,
    {
        self.store.wipe();
        self.current_user = None;
    }
}

} // verus!
