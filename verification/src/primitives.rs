//! Trusted bindings to the cryptographic primitives: the operating system's
//! random source, PBKDF2-HMAC-SHA-256 key derivation, and AES-256-GCM
//! authenticated encryption.

use vstd::prelude::*;

use aes_gcm::aead::Aead;
use aes_gcm::KeyInit;

use crate::encryption::CryptoError;
use crate::encryption::MAX_PLAINTEXT_LEN;

verus! {

/// The key that PBKDF2-HMAC-SHA-256 derives from a passphrase, a salt and a
/// round count. The derivation is deterministic: the same inputs always give
/// the same 32-byte key, in every process and on every machine.
pub uninterp spec fn derived_key_bytes(pass: Seq<char>, salt: Seq<u8>, rounds: u32) -> Seq<u8>;

/// The AES-256-GCM sealing of a plaintext under a key and a 12-byte nonce:
/// the ciphertext with the 16-byte authentication tag appended. Sealing is
/// deterministic in the key, the nonce and the plaintext.
pub uninterp spec fn sealed_bytes(key: Seq<u8>, nonce: Seq<u8>, plaintext: Seq<u8>) -> Seq<u8>;

/// Relies on getrandom::getrandom: on success the whole buffer has been
/// filled from the operating system's secure random source; on failure the
/// source was unavailable. Nothing is promised of the bytes themselves.
#[verifier::external_body]
pub(crate) fn os_random_bytes(n: usize) -> (r: Result<Vec<u8>, CryptoError>)
    ensures
        r matches Ok(b) ==> b@.len() == n,
        r matches Err(e) ==> e == CryptoError::RandomSource,
{
    let mut buf = vec![0u8; n];
    match getrandom::getrandom(&mut buf) {
        Ok(()) => Ok(buf),
        Err(_) => Err(CryptoError::RandomSource),
    }
}

/// Relies on pbkdf2::pbkdf2_hmac with sha2::Sha256: fills the output with
/// the PBKDF2-HMAC-SHA-256 derivation from the passphrase's UTF-8 bytes, the
/// salt and the round count, a function of those arguments alone.
#[verifier::external_body]
pub(crate) fn pbkdf2_sha256(passphrase: &str, salt: &[u8], rounds: u32) -> (key: [u8; 32])
    ensures
        key@ == derived_key_bytes(passphrase@, salt@, rounds),
{
    let mut key = [0u8; 32];
    pbkdf2::pbkdf2_hmac::<sha2::Sha256>(passphrase.as_bytes(), salt, rounds, &mut key);
    key
}

/// Relies on aes_gcm::Aes256Gcm through aead::Aead::encrypt (and
/// aes_gcm::KeyInit::new for the key schedule): the result is the ciphertext
/// with the 16-byte tag appended, a function of key, nonce and plaintext
/// alone; the cipher refuses only plaintexts over its size limit.
#[verifier::external_body]
pub(crate) fn aes256_gcm_seal(key: &[u8; 32], nonce: &[u8], plaintext: &[u8]) -> (r: Result<Vec<u8>, CryptoError>)
    requires
        nonce@.len() == 12,
    ensures
        r matches Ok(ct) ==> ct@ == sealed_bytes(key@, nonce@, plaintext@),
        r matches Ok(ct) ==> ct@.len() == plaintext@.len() + 16,
        r matches Ok(ct) ==> plaintext@.len() <= MAX_PLAINTEXT_LEN,
        plaintext@.len() <= MAX_PLAINTEXT_LEN ==> r matches Ok(_),
        r matches Err(e) ==> e == CryptoError::Cipher,
{
    let cipher = aes_gcm::Aes256Gcm::new(aes_gcm::Key::<aes_gcm::Aes256Gcm>::from_slice(key));
    cipher.encrypt(aes_gcm::Nonce::from_slice(nonce), plaintext).map_err(|_| CryptoError::Cipher)
}

/// Relies on aes_gcm::Aes256Gcm through aead::Aead::decrypt (and
/// aes_gcm::KeyInit::new): decryption succeeds exactly on a ciphertext that
/// is the sealing of some plaintext under the same key and nonce, and then
/// returns that plaintext; on anything else the tag check fails.
#[verifier::external_body]
pub(crate) fn aes256_gcm_open(key: &[u8; 32], nonce: &[u8], ciphertext: &[u8]) -> (r: Result<Vec<u8>, CryptoError>)
    requires
        nonce@.len() == 12,
    ensures
        r matches Ok(pt) ==> ciphertext@ == sealed_bytes(key@, nonce@, pt@),
        r matches Ok(pt) ==> pt@.len() + 16 == ciphertext@.len(),
        r matches Ok(pt) ==> pt@.len() <= MAX_PLAINTEXT_LEN,
        r matches Ok(p) ==> forall|pt: Seq<u8>|
            ciphertext@ == #[trigger] sealed_bytes(key@, nonce@, pt) ==> p@ == pt,
        r matches Err(e) ==> forall|pt: Seq<u8>|
            pt.len() <= MAX_PLAINTEXT_LEN ==> ciphertext@ != #[trigger] sealed_bytes(key@, nonce@, pt),
        r matches Err(e) ==> e == CryptoError::AuthenticationFailed,
{
    let cipher = aes_gcm::Aes256Gcm::new(aes_gcm::Key::<aes_gcm::Aes256Gcm>::from_slice(key));
    cipher.decrypt(aes_gcm::Nonce::from_slice(nonce), ciphertext).map_err(
        |_| CryptoError::AuthenticationFailed,
    )
}

} // verus!
