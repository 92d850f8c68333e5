//! Typed failures surfaced by the session layer.
//!
//! Every cryptographic or lookup failure is reported to the caller as one
//! of these variants; nothing is silently swallowed or retried inside the
//! core.

use vstd::prelude::*;

verus! {

/// The failure modes of the session layer.
#[derive(Clone, Copy, Debug, PartialEq, Eq, Structural)]
pub enum Error {
    /// The key-encapsulation provider could not be constructed.
    ProviderInitError,
    /// Keypair generation failed inside the provider.
    KeyGenError,
    /// Encapsulation against a peer public key failed, or the key had the
    /// wrong length.
    EncapsulationError,
    /// Decapsulation of a key-exchange ciphertext failed, or an input had
    /// the wrong length.
    DecapsulationError,
    /// An identity already holds a keypair; regeneration requires explicit
    /// removal first.
    DuplicateIdentityError,
    /// No keypair is stored for the named identity.
    UnknownIdentityError,
    /// The peer's key material could not be resolved.
    UnknownRecipientError,
    /// The authenticated cipher failed while sealing a message.
    EncryptionError,
    /// The envelope failed decryption or tag verification; transport
    /// corruption and tampering are deliberately not distinguished.
    DecryptionError,
    /// The envelope's textual framing could not be decoded to bytes.
    InvalidEncodingError,
    /// The decrypted bytes are not valid text.
    InvalidUtf8Error,
    /// A session operation was invoked before login.
    NotLoggedInError,
}

impl Error {
    /// A short stable name for the variant, for rendering by callers.
    pub fn name(&self) -> (r: &'static str)
        ensures
            r@.len() > 0,
    {
        let r = match self {
            Error::ProviderInitError => "provider init failed",
            Error::KeyGenError => "key generation failed",
            Error::EncapsulationError => "encapsulation failed",
            Error::DecapsulationError => "decapsulation failed",
            Error::DuplicateIdentityError => "identity already exists",
            Error::UnknownIdentityError => "unknown identity",
            Error::UnknownRecipientError => "unknown recipient",
            Error::EncryptionError => "encryption failed",
            Error::DecryptionError => "decryption failed",
            Error::InvalidEncodingError => "invalid encoding",
            Error::InvalidUtf8Error => "invalid utf-8",
            Error::NotLoggedInError => "not logged in",
        };
        proof {
            reveal_strlit("provider init failed");
            reveal_strlit("key generation failed");
            reveal_strlit("encapsulation failed");
            reveal_strlit("decapsulation failed");
            reveal_strlit("identity already exists");
            reveal_strlit("unknown identity");
            reveal_strlit("unknown recipient");
            reveal_strlit("encryption failed");
            reveal_strlit("decryption failed");
            reveal_strlit("invalid encoding");
            reveal_strlit("invalid utf-8");
            reveal_strlit("not logged in");
        }
        r
    }
}

} // verus!
