//! Hybrid encryption session layer for a post-quantum secure messaging
//! client.
//!
//! The library establishes confidential channels between pairs of
//! identities: a Kyber768 key-encapsulation mechanism derives one shared
//! secret per ordered `(local, remote)` pair, and AES-256-GCM seals each
//! message body under that secret, framed as base64 text for transport.
//! Network transport, directory lookup and the interactive command loop
//! are collaborators outside this crate; they exchange plain values
//! (identifiers, key bytes, sealed envelopes) with the session layer.

pub mod cipher;
pub mod errors;
pub mod kem;
pub mod keystore;
pub mod secrets;
pub mod session;
