//! Passphrase-based authenticated encryption.
//!
//! `Encryptor::encrypt` derives a 256-bit key from the passphrase with
//! PBKDF2-HMAC-SHA-256 under a fresh random salt, seals the payload with
//! AES-256-GCM under a fresh random nonce, and returns the blob
//! `salt || nonce || ciphertext-with-tag`. `Encryptor::decrypt` reverses
//! this given the same passphrase, and rejects everything else.

use vstd::prelude::*;

use crate::primitives::aes256_gcm_open;
use crate::primitives::aes256_gcm_seal;
use crate::primitives::derived_key_bytes;
use crate::primitives::os_random_bytes;
use crate::primitives::pbkdf2_sha256;
use crate::primitives::sealed_bytes;
use vstd::slice::slice_subrange;
use vstd::slice::slice_to_vec;

verus! {

/// Length in bytes of the random salt that prefixes every blob.
pub const SALT_LEN: usize = 16;

/// Length in bytes of the random nonce that follows the salt.
pub const NONCE_LEN: usize = 12;

/// Length in bytes of the blob header: the salt followed by the nonce.
pub const HEADER_LEN: usize = 28;

/// Length in bytes of the authentication tag the cipher appends.
pub const TAG_LEN: usize = 16;

/// Fixed PBKDF2 round count; a policy constant that every blob depends on,
/// so it must never change without versioning the format.
pub const PBKDF2_ROUNDS: u32 = 100000;

/// Largest payload the cipher accepts in one call (2^36 bytes).
pub const MAX_PLAINTEXT_LEN: u64 = 0x10_0000_0000;

/// The ways an operation can fail.
#[derive(Clone, Copy, Debug, PartialEq, Eq, Structural)]
pub enum CryptoError {
    /// The secure random source was unavailable or failed.
    RandomSource,
    /// The cipher itself refused the encryption.
    Cipher,
    /// A blob handed to decryption is shorter than the 28-byte header.
    MalformedInput,
    /// The authentication tag did not verify: wrong passphrase, or the blob
    /// was tampered with or corrupted. The two are indistinguishable.
    AuthenticationFailed,
}

/// The key that decryption of `blob` under `pass` derives: PBKDF2 over the
/// passphrase and the blob's own leading salt bytes.
pub open spec fn blob_key(blob: Seq<u8>, pass: Seq<char>) -> Seq<u8> {
    derived_key_bytes(pass, blob.subrange(0, SALT_LEN as int), PBKDF2_ROUNDS)
}

/// The blob carries `plaintext` under passphrase `pass`: it is long enough
/// to hold the header, and everything after the header is the sealing of
/// `plaintext` under the key derived from the blob's salt, with the blob's
/// nonce.
pub open spec fn opens_to(blob: Seq<u8>, pass: Seq<char>, plaintext: Seq<u8>) -> bool {
    &&& blob.len() >= HEADER_LEN
    &&& plaintext.len() <= MAX_PLAINTEXT_LEN as nat
    &&& blob.subrange(HEADER_LEN as int, blob.len() as int) == sealed_bytes(
        blob_key(blob, pass),
        blob.subrange(SALT_LEN as int, HEADER_LEN as int),
        plaintext,
    )
}

/// Everything `encrypt` promises, stated of the abstract result: a
/// successful blob has the exact framed length and carries the payload
/// under the passphrase; a failure is a randomness or cipher failure, the
/// latter only for payloads over the cipher's size limit.
pub open spec fn encrypt_post(data: Seq<u8>, pass: Seq<char>, r: Result<
    Seq<u8>,
    CryptoError,
>) -> bool {
    &&& (r matches Ok(blob) ==> blob.len() == HEADER_LEN + data.len() + TAG_LEN && opens_to(
        blob,
        pass,
        data,
    ))
    &&& (r matches Err(e) ==> e == CryptoError::RandomSource || e == CryptoError::Cipher)
    &&& (r == Err::<Seq<u8>, CryptoError>(CryptoError::Cipher) ==> data.len()
        > MAX_PLAINTEXT_LEN as nat)
}

/// Everything `decrypt` promises, stated of the abstract result: inputs
/// shorter than the header fail as malformed, and exactly those; a success
/// returns a plaintext the blob carries; every plaintext the blob carries is
/// returned; an authentication failure means the blob carries no plaintext
/// at all under that passphrase.
pub open spec fn decrypt_post(blob: Seq<u8>, pass: Seq<char>, r: Result<
    Seq<u8>,
    CryptoError,
>) -> bool {
    &&& (r == Err::<Seq<u8>, CryptoError>(CryptoError::MalformedInput) <==> blob.len()
        < HEADER_LEN)
    &&& (r matches Ok(pt) ==> opens_to(blob, pass, pt))
    &&& (forall|pt: Seq<u8>| #[trigger]
        opens_to(blob, pass, pt) ==> r == Ok::<Seq<u8>, CryptoError>(pt))
    &&& (r matches Err(e) ==> e == CryptoError::MalformedInput
        || e == CryptoError::AuthenticationFailed)
    &&& (r == Err::<Seq<u8>, CryptoError>(CryptoError::AuthenticationFailed) ==> blob.len()
        >= HEADER_LEN && forall|pt: Seq<u8>| !#[trigger] opens_to(blob, pass, pt))
}

/// The abstract value of an executable result: the bytes it holds, or the
/// error unchanged.
pub open spec fn to_bytes_result(r: Result<Vec<u8>, CryptoError>) -> Result<Seq<u8>, CryptoError> {
    match r {
        Ok(v) => Ok(v@),
        Err(e) => Err(e),
    }
}

/// Holds the two structural framing constants. Stateless otherwise; one
/// instance may serve any number of calls.
pub struct Encryptor {
    salt_size: usize,
    nonce_size: usize,
}

impl Encryptor {
    /// The instance carries the fixed frame sizes every blob uses.
    pub closed spec fn wf(&self) -> bool {
        self.salt_size == SALT_LEN && self.nonce_size == NONCE_LEN
    }

    pub fn new() -> (enc: Encryptor)
        ensures
            enc.wf(),
    {
        Encryptor { salt_size: 16, nonce_size: 12 }
    }

    /// Derives the 256-bit key for `passphrase` and `salt` with the fixed
    /// round count.
    fn derive_key(&self, passphrase: &str, salt: &[u8]) -> (key: [u8; 32])
        ensures
            key@ == derived_key_bytes(passphrase@, salt@, PBKDF2_ROUNDS),
    {
        pbkdf2_sha256(passphrase, salt, PBKDF2_ROUNDS)
    }

    /// Encrypts `data` under `passphrase` with a caller-supplied salt and
    /// nonce: key derivation, authenticated sealing, and framing into one
    /// blob. Succeeds exactly on payloads up to the cipher's size limit, and
    /// embeds the given salt and nonce verbatim as the blob's header.
    ///
    /// The caller owes the salt and nonce the same freshness that `encrypt`
    /// gives them: reusing a salt and nonce with one passphrase forfeits the
    /// cipher's confidentiality guarantee, though every contract here still
    /// holds.
    pub fn encrypt_with(
        &self,
        salt: &[u8],
        nonce: &[u8],
        data: &[u8],
        passphrase: &str,
    ) -> (r: Result<Vec<u8>, CryptoError>)
        requires
            self.wf(),
            salt@.len() == SALT_LEN,
            nonce@.len() == NONCE_LEN,
        ensures
            r matches Ok(blob) ==> blob@.len() == HEADER_LEN + data@.len() + TAG_LEN,
            r matches Ok(blob) ==> blob@.subrange(0, SALT_LEN as int) == salt@,
            r matches Ok(blob) ==> blob@.subrange(SALT_LEN as int, HEADER_LEN as int) == nonce@,
            r matches Ok(blob) ==> opens_to(blob@, passphrase@, data@),
            data@.len() <= MAX_PLAINTEXT_LEN as nat <==> r matches Ok(_),
            r matches Err(e) ==> e == CryptoError::Cipher,
    {
        let key = self.derive_key(passphrase, salt);
        let sealed = match aes256_gcm_seal(&key, nonce, data) {
            Ok(c) => c,
            Err(e) => {
                return Err(e);
            },
        };
        let ghost sealed_view = sealed@;
        let mut blob = slice_to_vec(salt);
        let mut nonce_buf = slice_to_vec(nonce);
        let mut sealed_buf = sealed;
        blob.append(&mut nonce_buf);
        blob.append(&mut sealed_buf);
        proof {
            assert(blob@.subrange(0, SALT_LEN as int) =~= salt@);
            assert(blob@.subrange(SALT_LEN as int, HEADER_LEN as int) =~= nonce@);
            assert(blob@.subrange(HEADER_LEN as int, blob@.len() as int) =~= sealed_view);
        }
        Ok(blob)
    }

    /// Encrypts `data` under `passphrase`: fresh random salt and nonce, key
    /// derivation, authenticated sealing, and framing into one blob.
    pub fn encrypt(&self, data: &[u8], passphrase: &str) -> (r: Result<Vec<u8>, CryptoError>)
        requires
            self.wf(),
        ensures
            encrypt_post(data@, passphrase@, to_bytes_result(r)),
    {
        let salt = match os_random_bytes(self.salt_size) {
            Ok(b) => b,
            Err(e) => {
                return Err(e);
            },
        };
        let nonce = match os_random_bytes(self.nonce_size) {
            Ok(b) => b,
            Err(e) => {
                return Err(e);
            },
        };
        self.encrypt_with(salt.as_slice(), nonce.as_slice(), data, passphrase)
    }

    /// Decrypts a blob under `passphrase`: splits off salt and nonce,
    /// re-derives the key, and opens the authenticated payload.
    pub fn decrypt(&self, blob: &[u8], passphrase: &str) -> (r: Result<Vec<u8>, CryptoError>)
        requires
            self.wf(),
        ensures
            decrypt_post(blob@, passphrase@, to_bytes_result(r)),
    {
        if blob.len() < HEADER_LEN {
            return Err(CryptoError::MalformedInput);
        }
        let salt = slice_subrange(blob, 0, SALT_LEN);
        let nonce = slice_subrange(blob, SALT_LEN, HEADER_LEN);
        let sealed = slice_subrange(blob, HEADER_LEN, blob.len());
        let key = self.derive_key(passphrase, salt);
        match aes256_gcm_open(&key, nonce, sealed) {
            Ok(pt) => {
                proof {
                    assert forall|pt2: Seq<u8>| #[trigger]
                        opens_to(blob@, passphrase@, pt2) implies pt2 == pt@ by {
                        assert(sealed@ == sealed_bytes(key@, nonce@, pt2));
                    }
                }
                Ok(pt)
            },
            Err(_) => {
                proof {
                    assert forall|pt2: Seq<u8>| !#[trigger]
                        opens_to(blob@, passphrase@, pt2) by {
                        if opens_to(blob@, passphrase@, pt2) {
                            assert(sealed@ == sealed_bytes(key@, nonce@, pt2));
                        }
                    }
                }
                Err(CryptoError::AuthenticationFailed)
            },
        }
    }
}

/// Round trip: a blob that `encrypt` produced for payload `data` under
/// passphrase `pass` is decoded by `decrypt` under the same passphrase back
/// to exactly `data`.
pub proof fn lemma_round_trip(
    data: Seq<u8>,
    pass: Seq<char>,
    blob: Seq<u8>,
    r: Result<Seq<u8>, CryptoError>,
)
    requires
        encrypt_post(data, pass, Ok(blob)),
        decrypt_post(blob, pass, r),
    ensures
        r == Ok::<Seq<u8>, CryptoError>(data),
{
    assert(opens_to(blob, pass, data));
}

/// Minimum length: decryption of any input shorter than the 28-byte header
/// fails with `MalformedInput`.
pub proof fn lemma_short_blob_rejected(blob: Seq<u8>, pass: Seq<char>, r: Result<
    Seq<u8>,
    CryptoError,
>)
    requires
        blob.len() < HEADER_LEN,
        decrypt_post(blob, pass, r),
    ensures
        r == Err::<Seq<u8>, CryptoError>(CryptoError::MalformedInput),
{
}

/// Format: a successful encryption of `data` yields a blob of exactly
/// 28 + |data| + 16 bytes whose trailing segment is the sealing of `data`
/// under the key derived from the blob's own salt prefix, with the blob's
/// own nonce segment.
pub proof fn lemma_blob_format(data: Seq<u8>, pass: Seq<char>, blob: Seq<u8>)
    requires
        encrypt_post(data, pass, Ok(blob)),
    ensures
        blob.len() == HEADER_LEN + data.len() + TAG_LEN,
        opens_to(blob, pass, data),
{
}

} // verus!
