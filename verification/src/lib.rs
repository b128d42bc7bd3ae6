//! Passphrase-based authenticated encryption of byte payloads.
//!
//! A payload is sealed under a key derived from a passphrase with a slow
//! key-derivation function; the result is a single self-contained blob
//! `salt || nonce || ciphertext-with-tag` from which the payload can be
//! recovered given the same passphrase, and only then.

mod primitives;
pub mod encryption;

pub use encryption::CryptoError;
pub use encryption::Encryptor;
