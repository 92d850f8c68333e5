//! Message cipher: seal and open text bodies under a shared secret.
//!
//! Sealing derives a 256-bit AES-GCM key from the first 32 bytes of the
//! secret (the full KEM output; no further stretching), draws a fresh
//! random 96-bit nonce per call, encrypts, and frames ciphertext and nonce
//! independently as base64 text for transport. Opening re-derives the key,
//! decodes the framing, decrypts and verifies the tag, and returns the
//! text. The raw shared secret is never part of an envelope.

use vstd::prelude::*;
use vstd::slice::{slice_subrange, slice_to_vec};
use vstd::string::StringSliceAdditionalSpecFns;
use vstd::utf8::{decode_utf8, encode_utf8, valid_utf8};

use crate::errors::Error;

verus! {

/// AES-256 key length in bytes.
pub const AEAD_KEY_LEN: usize = 32;

/// AES-GCM nonce length in bytes (96 bits).
pub const NONCE_LEN: usize = 12;

/// AES-GCM authentication tag length in bytes (128 bits).
pub const TAG_LEN: usize = 16;

/// The largest plaintext, in bytes, that the AEAD accepts (2^36).
pub const AEAD_MAX_PLAINTEXT_LEN: u64 = 0x10_0000_0000;

/// One encrypted message body: ciphertext and nonce, each framed as
/// base64 text. Immutable once produced.
#[derive(Debug, PartialEq, Eq)]
pub struct SealedEnvelope {
    pub ciphertext: String,
    pub nonce: String,
}

/// The mathematical content of a [`SealedEnvelope`]: its two text fields.
pub ghost struct SealedEnvelopeV {
    pub ciphertext: Seq<char>,
    pub nonce: Seq<char>,
}

impl View for SealedEnvelope {
    type V = SealedEnvelopeV;

    open spec fn view(&self) -> SealedEnvelopeV {
        SealedEnvelopeV { ciphertext: self.ciphertext@, nonce: self.nonce@ }
    }
}

/// The ciphertext AES-256-GCM produces for a key, nonce and plaintext;
/// encryption depends on those three inputs alone.
pub uninterp spec fn aead_enc(key: Seq<u8>, nonce: Seq<u8>, plaintext: Seq<u8>) -> Seq<u8>;

/// The base64 text that standard encoding (with padding) produces for a
/// byte string; encoding depends on the bytes alone.
pub uninterp spec fn base64_enc(bytes: Seq<u8>) -> Seq<char>;

/// The symmetric key derived from a shared secret: its first 32 bytes.
pub open spec fn aead_key_of(secret: Seq<u8>) -> Seq<u8> {
    secret.subrange(0, AEAD_KEY_LEN as int)
}

/// The envelope that sealing `message` under `secret` with `nonce`
/// produces.
pub open spec fn sealed_with(
    env: SealedEnvelopeV,
    secret: Seq<u8>,
    nonce: Seq<u8>,
    message: Seq<char>,
) -> bool {
    &&& nonce.len() == NONCE_LEN
    &&& encode_utf8(message).len() <= AEAD_MAX_PLAINTEXT_LEN
    &&& aead_enc(aead_key_of(secret), nonce, encode_utf8(message)).len() == encode_utf8(
        message,
    ).len() + TAG_LEN
    &&& env.nonce == base64_enc(nonce)
    &&& env.ciphertext == base64_enc(aead_enc(aead_key_of(secret), nonce, encode_utf8(message)))
}

/// The envelope that sealing `message` under `secret` produces, for some
/// nonce: what a caller of `seal` knows of its result, since the nonce is
/// drawn fresh inside the call.
pub open spec fn sealed_under(env: SealedEnvelopeV, secret: Seq<u8>, message: Seq<char>) -> bool {
    exists|nonce: Seq<u8>| #[trigger] sealed_with(env, secret, nonce, message)
}

/// An envelope sealed with a particular nonce is sealed under the secret.
pub proof fn lemma_sealed_under(
    env: SealedEnvelopeV,
    secret: Seq<u8>,
    nonce: Seq<u8>,
    message: Seq<char>,
)
    requires
        sealed_with(env, secret, nonce, message),
    ensures
        sealed_under(env, secret, message),
{
}

/// Whether a piece of text is the standard base64 encoding of some byte
/// string — exactly the texts the decoder accepts.
pub open spec fn base64_decodable(text: Seq<char>) -> bool {
    exists|b: Seq<u8>| text == #[trigger] base64_enc(b)
}

/// Whether both of an envelope's fields decode as base64 text.
pub open spec fn frame_decodable(env: SealedEnvelopeV) -> bool {
    base64_decodable(env.nonce) && base64_decodable(env.ciphertext)
}

/// The bytes an envelope's nonce field decodes to; meaningful only when
/// the field is decodable.
pub open spec fn frame_nonce(env: SealedEnvelopeV) -> Seq<u8> {
    choose|b: Seq<u8>| env.nonce == #[trigger] base64_enc(b)
}

/// The bytes an envelope's ciphertext field decodes to; meaningful only
/// when the field is decodable.
pub open spec fn frame_ciphertext(env: SealedEnvelopeV) -> Seq<u8> {
    choose|b: Seq<u8>| env.ciphertext == #[trigger] base64_enc(b)
}

/// Whether an envelope decodes, carries a 96-bit nonce and an in-bound
/// ciphertext, and that ciphertext authenticates under the secret: the
/// exact condition under which decryption succeeds in `open`.
pub open spec fn decrypts_under(env: SealedEnvelopeV, secret: Seq<u8>) -> bool {
    &&& frame_decodable(env)
    &&& frame_nonce(env).len() == NONCE_LEN
    &&& frame_ciphertext(env).len() <= AEAD_MAX_PLAINTEXT_LEN + TAG_LEN
    &&& exists|p: Seq<u8>|
        p.len() <= AEAD_MAX_PLAINTEXT_LEN && frame_ciphertext(env) == #[trigger] aead_enc(
            aead_key_of(secret),
            frame_nonce(env),
            p,
        )
}

/// The plaintext bytes an envelope decrypts to under a secret;
/// meaningful only when `decrypts_under` holds.
pub open spec fn plaintext_bytes_of(env: SealedEnvelopeV, secret: Seq<u8>) -> Seq<u8> {
    choose|p: Seq<u8>|
        p.len() <= AEAD_MAX_PLAINTEXT_LEN && frame_ciphertext(env) == #[trigger] aead_enc(
            aead_key_of(secret),
            frame_nonce(env),
            p,
        )
}

/// Relies on `aes_gcm::Aes256Gcm` (`Aead::encrypt`): AES-256-GCM
/// encryption is a deterministic function of key, nonce and plaintext; the
/// result is the ciphertext with the 16-byte tag appended, and the call
/// succeeds whenever the plaintext is at most 2^36 bytes.
#[verifier::external_body]
fn aes256_gcm_encrypt(key: &Vec<u8>, nonce: &Vec<u8>, plaintext: &Vec<u8>) -> (r: Result<
    Vec<u8>,
    (),
>)
    requires
        key@.len() == AEAD_KEY_LEN,
        nonce@.len() == NONCE_LEN,
    ensures
        r is Ok <==> plaintext@.len() <= AEAD_MAX_PLAINTEXT_LEN,
        r matches Ok(ct) ==> ct@ == aead_enc(key@, nonce@, plaintext@) && ct@.len()
            == plaintext@.len() + TAG_LEN,
{
    let cipher = <aes_gcm::Aes256Gcm as aes_gcm::KeyInit>::new(
        aes_gcm::Key::<aes_gcm::Aes256Gcm>::from_slice(key.as_slice()),
    );
    match aes_gcm::aead::Aead::encrypt(
        &cipher,
        aes_gcm::Nonce::from_slice(nonce.as_slice()),
        plaintext.as_slice(),
    ) {
        Ok(ct) => Ok(ct),
        Err(_) => Err(()),
    }
}

/// Relies on `aes_gcm::Aes256Gcm` (`Aead::decrypt`): authenticated
/// decryption is the inverse of encryption under the same key and nonce —
/// within the plaintext sizes the cipher accepts, it returns a plaintext
/// exactly when the ciphertext is the encryption of that plaintext, and
/// fails otherwise. Ciphertexts longer than the encrypt path can produce
/// are excluded, since past its own larger bound the decrypt path rejects
/// lengths rather than tags.
#[verifier::external_body]
fn aes256_gcm_decrypt(key: &Vec<u8>, nonce: &Vec<u8>, ciphertext: &Vec<u8>) -> (r: Result<
    Vec<u8>,
    (),
>)
    requires
        key@.len() == AEAD_KEY_LEN,
        nonce@.len() == NONCE_LEN,
        ciphertext@.len() <= AEAD_MAX_PLAINTEXT_LEN + TAG_LEN,
    ensures
        r is Err ==> forall|p: Seq<u8>|
            p.len() <= AEAD_MAX_PLAINTEXT_LEN ==> ciphertext@ != #[trigger] aead_enc(
                key@,
                nonce@,
                p,
            ),
        r matches Ok(pt) ==> forall|p: Seq<u8>|
            p.len() <= AEAD_MAX_PLAINTEXT_LEN && ciphertext@ == #[trigger] aead_enc(
                key@,
                nonce@,
                p,
            ) ==> pt@ == p,
        r matches Ok(pt) ==> ciphertext@ == aead_enc(key@, nonce@, pt@) && pt@.len()
            <= AEAD_MAX_PLAINTEXT_LEN && ciphertext@.len() == pt@.len() + TAG_LEN,
{
    let cipher = <aes_gcm::Aes256Gcm as aes_gcm::KeyInit>::new(
        aes_gcm::Key::<aes_gcm::Aes256Gcm>::from_slice(key.as_slice()),
    );
    match aes_gcm::aead::Aead::decrypt(
        &cipher,
        aes_gcm::Nonce::from_slice(nonce.as_slice()),
        ciphertext.as_slice(),
    ) {
        Ok(pt) => Ok(pt),
        Err(_) => Err(()),
    }
}

/// Relies on `base64::engine::general_purpose::STANDARD` (`Engine::encode`):
/// standard base64 text for the given bytes, a function of the bytes
/// alone; an empty input encodes to empty text. Inputs so large that the
/// encoded length could not be computed are excluded.
#[verifier::external_body]
fn base64_encode(bytes: &Vec<u8>) -> (r: String)
    requires
        bytes@.len() <= AEAD_MAX_PLAINTEXT_LEN + TAG_LEN,
    ensures
        r@ == base64_enc(bytes@),
        bytes@.len() == 0 ==> r@.len() == 0,
{
    base64::Engine::encode(&base64::engine::general_purpose::STANDARD, bytes.as_slice())
}

/// Relies on `base64::engine::general_purpose::STANDARD` (`Engine::decode`):
/// the standard engine requires canonical padding and rejects non-zero
/// trailing bits, so it accepts exactly the encodings that
/// `Engine::encode` produces and inverts them.
#[verifier::external_body]
fn base64_decode(text: &String) -> (r: Result<Vec<u8>, ()>)
    ensures
        r is Err ==> forall|b: Seq<u8>| text@ != #[trigger] base64_enc(b),
        r matches Ok(d) ==> forall|b: Seq<u8>| text@ == #[trigger] base64_enc(b) ==> d@ == b,
        r matches Ok(d) ==> text@ == base64_enc(d@),
{
    match base64::Engine::decode(&base64::engine::general_purpose::STANDARD, text.as_str()) {
        Ok(d) => Ok(d),
        Err(_) => Err(()),
    }
}

/// Relies on `rand_core::OsRng` (`RngCore::fill_bytes`): 12 bytes from the
/// operating-system randomness source. Nothing relates two calls; only the
/// length is known of every outcome. Should the system source itself
/// fail, `fill_bytes` panics rather than return: no input can cause or
/// avoid that, and no value is ever handed back unfilled.
#[verifier::external_body]
fn random_nonce() -> (r: Vec<u8>)
    ensures
        r@.len() == NONCE_LEN,
{
    let mut bytes = [0u8; 12];
    rand_core::RngCore::fill_bytes(&mut rand::rngs::OsRng, &mut bytes);
    bytes.to_vec()
}

/// Relies on `str::from_utf8` (with `str::to_owned`): it succeeds exactly
/// on valid UTF-8 and returns the text those bytes encode.
#[verifier::external_body]
fn bytes_into_string(bytes: &Vec<u8>) -> (r: Result<String, ()>)
    ensures
        r is Ok <==> valid_utf8(bytes@),
        r matches Ok(s) ==> s@ == decode_utf8(bytes@),
{
    match core::str::from_utf8(bytes.as_slice()) {
        Ok(s) => Ok(s.to_owned()),
        Err(_) => Err(()),
    }
}

/// With decoded field bytes in hand, and each field's decoding unique,
/// the frame spec functions denote exactly those bytes.
proof fn lemma_frame_bytes(env: SealedEnvelopeV, nonce_bytes: Seq<u8>, ct_bytes: Seq<u8>)
    requires
        env.nonce == base64_enc(nonce_bytes),
        env.ciphertext == base64_enc(ct_bytes),
        forall|b: Seq<u8>| env.nonce == #[trigger] base64_enc(b) ==> b == nonce_bytes,
        forall|b: Seq<u8>| env.ciphertext == #[trigger] base64_enc(b) ==> b == ct_bytes,
    ensures
        frame_decodable(env),
        frame_nonce(env) == nonce_bytes,
        frame_ciphertext(env) == ct_bytes,
{
    assert(base64_decodable(env.nonce));
    assert(base64_decodable(env.ciphertext));
    let nb = frame_nonce(env);
    assert(env.nonce == base64_enc(nb));
    let cb = frame_ciphertext(env);
    assert(env.ciphertext == base64_enc(cb));
}

/// Seal a text body under a shared secret: encrypt it with AES-256-GCM
/// under the key derived from the secret and a fresh random nonce, and
/// frame ciphertext and nonce as base64 text.
pub fn seal(plaintext: &str, secret: &Vec<u8>) -> (r: Result<SealedEnvelope, Error>)
    requires
        secret@.len() >= AEAD_KEY_LEN,
    ensures
        r matches Ok(env) ==> sealed_under(env@, secret@, plaintext@),
        encode_utf8(plaintext@).len() <= AEAD_MAX_PLAINTEXT_LEN ==> r is Ok,
        r matches Err(e) ==> e == Error::EncryptionError,
{
    let key = slice_to_vec(slice_subrange(secret.as_slice(), 0, AEAD_KEY_LEN));
    let nonce = random_nonce();
    let message_bytes = slice_to_vec(plaintext.as_bytes());
    match aes256_gcm_encrypt(&key, &nonce, &message_bytes) {
        Ok(ct) => {
            let env = SealedEnvelope { ciphertext: base64_encode(&ct), nonce: base64_encode(
                &nonce,
            ) };
            proof {
                assert(sealed_with(env@, secret@, nonce@, plaintext@));
                lemma_sealed_under(env@, secret@, nonce@, plaintext@);
            }
            Ok(env)
        },
        Err(_) => Err(Error::EncryptionError),
    }
}

/// Open a sealed envelope under a shared secret: decode the base64
/// framing, decrypt and verify the tag, and decode the plaintext as text.
/// An envelope sealed under the same secret opens to exactly the message
/// that was sealed, and an envelope that opens at all is one whose
/// ciphertext is authentic under the secret. Each error names its cause:
/// undecodable framing, a nonce or ciphertext that does not authenticate,
/// or a decrypted body that is not text.
pub fn open(envelope: &SealedEnvelope, secret: &Vec<u8>) -> (r: Result<String, Error>)
    requires
        secret@.len() >= AEAD_KEY_LEN,
    ensures
        forall|message: Seq<char>|
            #[trigger] sealed_under(envelope@, secret@, message) ==> (r matches Ok(p) && p@
                == message),
        r matches Ok(p) ==> sealed_under(envelope@, secret@, p@),
        r == Err::<String, Error>(Error::InvalidEncodingError) <==> !frame_decodable(envelope@),
        r == Err::<String, Error>(Error::DecryptionError) <==> (frame_decodable(envelope@)
            && !decrypts_under(envelope@, secret@)),
        r == Err::<String, Error>(Error::InvalidUtf8Error) <==> (decrypts_under(
            envelope@,
            secret@,
        ) && !valid_utf8(plaintext_bytes_of(envelope@, secret@))),
        r matches Err(e) ==> (e == Error::InvalidEncodingError || e == Error::DecryptionError || e
            == Error::InvalidUtf8Error),
{
    let nonce_bytes = match base64_decode(&envelope.nonce) {
        Ok(b) => b,
        Err(_) => {
            proof {
                assert(!base64_decodable(envelope@.nonce));
                assert forall|message: Seq<char>|
                    !sealed_under(envelope@, secret@, message) by {
                    if sealed_under(envelope@, secret@, message) {
                        let n = choose|n: Seq<u8>|
                            sealed_with(envelope@, secret@, n, message);
                    }
                }
            }
            return Err(Error::InvalidEncodingError);
        },
    };
    let ct_bytes = match base64_decode(&envelope.ciphertext) {
        Ok(b) => b,
        Err(_) => {
            proof {
                assert(!base64_decodable(envelope@.ciphertext));
                assert forall|message: Seq<char>|
                    !sealed_under(envelope@, secret@, message) by {
                    if sealed_under(envelope@, secret@, message) {
                        let n = choose|n: Seq<u8>|
                            sealed_with(envelope@, secret@, n, message);
                    }
                }
            }
            return Err(Error::InvalidEncodingError);
        },
    };
    proof {
        lemma_frame_bytes(envelope@, nonce_bytes@, ct_bytes@);
    }
    if nonce_bytes.len() != NONCE_LEN {
        proof {
            assert forall|message: Seq<char>| !sealed_under(envelope@, secret@, message) by {
                if sealed_under(envelope@, secret@, message) {
                    let n = choose|n: Seq<u8>| sealed_with(envelope@, secret@, n, message);
                    assert(nonce_bytes@ == n);
                }
            }
        }
        return Err(Error::DecryptionError);
    }
    if (ct_bytes.len() as u64) > AEAD_MAX_PLAINTEXT_LEN + (TAG_LEN as u64) {
        proof {
            assert forall|message: Seq<char>| !sealed_under(envelope@, secret@, message) by {
                if sealed_under(envelope@, secret@, message) {
                    let n = choose|n: Seq<u8>| sealed_with(envelope@, secret@, n, message);
                    assert(ct_bytes@ == aead_enc(
                        aead_key_of(secret@),
                        n,
                        encode_utf8(message),
                    ));
                }
            }
        }
        return Err(Error::DecryptionError);
    }
    let key = slice_to_vec(slice_subrange(secret.as_slice(), 0, AEAD_KEY_LEN));
    let plain_bytes = match aes256_gcm_decrypt(&key, &nonce_bytes, &ct_bytes) {
        Ok(p) => p,
        Err(_) => {
            proof {
                assert forall|message: Seq<char>|
                    !sealed_under(envelope@, secret@, message) by {
                    if sealed_under(envelope@, secret@, message) {
                        let n = choose|n: Seq<u8>|
                            sealed_with(envelope@, secret@, n, message);
                        assert(nonce_bytes@ == n);
                        assert(ct_bytes@ == aead_enc(key@, n, encode_utf8(message)));
                    }
                }
                assert(!decrypts_under(envelope@, secret@)) by {
                    if decrypts_under(envelope@, secret@) {
                        let p = plaintext_bytes_of(envelope@, secret@);
                        assert(p.len() <= AEAD_MAX_PLAINTEXT_LEN && frame_ciphertext(envelope@)
                            == aead_enc(aead_key_of(secret@), frame_nonce(envelope@), p));
                    }
                }
            }
            return Err(Error::DecryptionError);
        },
    };
    proof {
        assert(key@ == aead_key_of(secret@));
        assert(frame_ciphertext(envelope@) == aead_enc(
            aead_key_of(secret@),
            frame_nonce(envelope@),
            plain_bytes@,
        ));
        assert(decrypts_under(envelope@, secret@));
        let p0 = plaintext_bytes_of(envelope@, secret@);
        assert(p0.len() <= AEAD_MAX_PLAINTEXT_LEN && frame_ciphertext(envelope@) == aead_enc(
            aead_key_of(secret@),
            frame_nonce(envelope@),
            p0,
        ));
        assert(p0 == plain_bytes@);
    }
    match bytes_into_string(&plain_bytes) {
        Ok(s) => {
            proof {
                assert forall|message: Seq<char>|
                    #[trigger] sealed_under(envelope@, secret@, message) implies s@
                    == message by {
                    let n = choose|n: Seq<u8>| sealed_with(envelope@, secret@, n, message);
                    assert(nonce_bytes@ == n);
                    assert(ct_bytes@ == aead_enc(key@, n, encode_utf8(message)));
                    assert(plain_bytes@ == encode_utf8(message));
                    vstd::utf8::encode_utf8_decode_utf8(message);
                }
                assert(sealed_with(envelope@, secret@, nonce_bytes@, s@)) by {
                    vstd::utf8::decode_utf8_encode_utf8(plain_bytes@);
                }
                lemma_sealed_under(envelope@, secret@, nonce_bytes@, s@);
            }
            Ok(s)
        },
        Err(_) => {
            proof {
                assert forall|message: Seq<char>|
                    !sealed_under(envelope@, secret@, message) by {
                    if sealed_under(envelope@, secret@, message) {
                        let n = choose|n: Seq<u8>|
                            sealed_with(envelope@, secret@, n, message);
                        assert(plain_bytes@ == encode_utf8(message));
                        vstd::utf8::encode_utf8_valid_utf8(message);
                    }
                }
            }
            Err(Error::InvalidUtf8Error)
        },
    }
}

} // verus!
