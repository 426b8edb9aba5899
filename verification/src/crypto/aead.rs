//! The two authenticated ciphers, AES-256-GCM and ChaCha20-Poly1305, behind one
//! interface.
//!
//! Both take a 32-byte key and a 12-byte nonce and append a 16-byte tag to the
//! ciphertext. The ciphers themselves are not written out here: what each one
//! gives for a key, a nonce and a plaintext is named, and the contracts say how
//! sealing and opening relate to that name.

use vstd::prelude::*;
use aes_gcm::aead::{Aead, KeyInit};
use aes_gcm::Aes256Gcm;
use chacha20poly1305::ChaCha20Poly1305;
use crate::error::CryptorError;

verus! {

/// Length of a cipher key in bytes.
pub const KEY_LEN: usize = 32;

/// Length of a nonce in bytes.
pub const NONCE_LEN: usize = 12;

/// Length of the authentication tag that ends every sealed message.
pub const TAG_LEN: usize = 16;

/// The longest plaintext that AES-256-GCM seals under one nonce: 2^36 - 32
/// bytes, where its 32-bit block counter ends.
pub const AES_GCM_MAX_PLAINTEXT: u64 = 0xf_ffff_ffe0;

/// The longest plaintext that ChaCha20-Poly1305 seals under one nonce:
/// 2^38 - 128 bytes, where its 32-bit block counter ends.
pub const CHACHA_MAX_PLAINTEXT: u64 = 0x3f_ffff_ff80;

/// The error of the `aead` crate, through which both ciphers report a failure.
/// It carries no detail.
#[verifier::external_type_specification]
#[verifier::external_body]
pub struct ExAeadError(aes_gcm::Error);

/// What AES-256-GCM gives for a key, a nonce and a plaintext, with no
/// associated data: the ciphertext followed by the tag.
pub uninterp spec fn aes_256_gcm_seal(key: Seq<u8>, nonce: Seq<u8>, plaintext: Seq<u8>) -> Seq<u8>;

/// What AES-256-GCM recovers from a ciphertext and tag under a key and a
/// nonce, with no associated data: the plaintext, or nothing when the tag
/// does not fit.
pub uninterp spec fn aes_256_gcm_open(key: Seq<u8>, nonce: Seq<u8>, sealed: Seq<u8>) -> Option<Seq<u8>>;

/// What ChaCha20-Poly1305 gives for a key, a nonce and a plaintext, with no
/// associated data: the ciphertext followed by the tag.
pub uninterp spec fn chacha20_poly1305_seal(key: Seq<u8>, nonce: Seq<u8>, plaintext: Seq<u8>) -> Seq<u8>;

/// What ChaCha20-Poly1305 recovers from a ciphertext and tag under a key and
/// a nonce, with no associated data: the plaintext, or nothing when the tag
/// does not fit.
pub uninterp spec fn chacha20_poly1305_open(key: Seq<u8>, nonce: Seq<u8>, sealed: Seq<u8>) -> Option<Seq<u8>>;

/// Calls `Aes256Gcm::encrypt` of the `aes-gcm` crate. It fails only on a
/// plaintext longer than 2^36 bytes, which `requires` leaves out, and returns
/// the plaintext XORed with a keystream, with the 16 bytes of the
/// ciphertext's tag behind it. The result depends on the three arguments
/// alone. `Aes256Gcm::decrypt` computes the same tag and removes the same
/// keystream, so it opens the result to the plaintext.
#[verifier::external_body]
fn aes_gcm_encrypt(key: &[u8; KEY_LEN], nonce: &[u8; NONCE_LEN], plaintext: &[u8]) -> (res: Result<
    Vec<u8>,
    aes_gcm::Error,
>)
    requires
        plaintext@.len() <= AES_GCM_MAX_PLAINTEXT,
    ensures
        res is Ok,
        res matches Ok(sealed) ==> sealed@ == aes_256_gcm_seal(key@, nonce@, plaintext@),
        res matches Ok(sealed) ==> sealed@.len() == plaintext@.len() + TAG_LEN,
        res matches Ok(sealed) ==> aes_256_gcm_open(key@, nonce@, sealed@) == Some(plaintext@),
{
    let cipher = Aes256Gcm::new(aes_gcm::Key::<Aes256Gcm>::from_slice(key));
    cipher.encrypt(aes_gcm::Nonce::from_slice(nonce), plaintext)
}

/// Calls `Aes256Gcm::decrypt` of the `aes-gcm` crate. It computes the tag of
/// the ciphertext anew, compares it with the last 16 bytes, and only if they
/// agree removes the keystream and returns what is left, which is 16 bytes
/// shorter than the input. The result depends on the three arguments alone,
/// and whatever comes out seals to the input again.
#[verifier::external_body]
fn aes_gcm_decrypt(key: &[u8; KEY_LEN], nonce: &[u8; NONCE_LEN], sealed: &[u8]) -> (res: Result<
    Vec<u8>,
    aes_gcm::Error,
>)
    requires
        sealed@.len() <= AES_GCM_MAX_PLAINTEXT + TAG_LEN,
    ensures
        match res {
            Ok(plaintext) => aes_256_gcm_open(key@, nonce@, sealed@) == Some(plaintext@),
            Err(_) => aes_256_gcm_open(key@, nonce@, sealed@) is None,
        },
        res matches Ok(plaintext) ==> plaintext@.len() + TAG_LEN == sealed@.len(),
        res matches Ok(plaintext) ==> sealed@ == aes_256_gcm_seal(key@, nonce@, plaintext@),
{
    let cipher = Aes256Gcm::new(aes_gcm::Key::<Aes256Gcm>::from_slice(key));
    cipher.decrypt(aes_gcm::Nonce::from_slice(nonce), sealed)
}

/// Calls `ChaCha20Poly1305::encrypt` of the `chacha20poly1305` crate. It
/// refuses a plaintext of 2^38 - 64 bytes or more and panics on one just
/// below that, both of which `requires` leaves out; otherwise it returns the
/// plaintext XORed with a keystream, with the 16 bytes of the ciphertext's
/// tag behind it. The result depends on the three arguments alone.
/// `ChaCha20Poly1305::decrypt` computes the same tag and removes the same
/// keystream, so it opens the result to the plaintext.
#[verifier::external_body]
fn chacha_encrypt(key: &[u8; KEY_LEN], nonce: &[u8; NONCE_LEN], plaintext: &[u8]) -> (res: Result<
    Vec<u8>,
    chacha20poly1305::Error,
>)
    requires
        plaintext@.len() <= CHACHA_MAX_PLAINTEXT,
    ensures
        res is Ok,
        res matches Ok(sealed) ==> sealed@ == chacha20_poly1305_seal(key@, nonce@, plaintext@),
        res matches Ok(sealed) ==> sealed@.len() == plaintext@.len() + TAG_LEN,
        res matches Ok(sealed) ==> chacha20_poly1305_open(key@, nonce@, sealed@) == Some(
            plaintext@,
        ),
{
    let cipher = ChaCha20Poly1305::new(chacha20poly1305::Key::from_slice(key));
    cipher.encrypt(chacha20poly1305::Nonce::from_slice(nonce), plaintext)
}

/// Calls `ChaCha20Poly1305::decrypt` of the `chacha20poly1305` crate. It
/// computes the tag of the ciphertext anew, compares it with the last 16
/// bytes, and only if they agree removes the keystream and returns what is
/// left, which is 16 bytes shorter than the input. On a valid tag over a
/// ciphertext longer than `requires` admits it would panic. The result
/// depends on the three arguments alone, and whatever comes out seals to the
/// input again.
#[verifier::external_body]
fn chacha_decrypt(key: &[u8; KEY_LEN], nonce: &[u8; NONCE_LEN], sealed: &[u8]) -> (res: Result<
    Vec<u8>,
    chacha20poly1305::Error,
>)
    requires
        sealed@.len() <= CHACHA_MAX_PLAINTEXT + TAG_LEN,
    ensures
        match res {
            Ok(plaintext) => chacha20_poly1305_open(key@, nonce@, sealed@) == Some(plaintext@),
            Err(_) => chacha20_poly1305_open(key@, nonce@, sealed@) is None,
        },
        res matches Ok(plaintext) ==> plaintext@.len() + TAG_LEN == sealed@.len(),
        res matches Ok(plaintext) ==> sealed@ == chacha20_poly1305_seal(key@, nonce@, plaintext@),
{
    let cipher = ChaCha20Poly1305::new(chacha20poly1305::Key::from_slice(key));
    cipher.decrypt(chacha20poly1305::Nonce::from_slice(nonce), sealed)
}

/// An authenticated cipher.
#[derive(Clone, Copy, Debug, PartialEq, Eq, Structural)]
pub enum Cipher {
    Aes256Gcm,
    ChaCha20Poly1305,
}

impl Cipher {
    /// The longest plaintext that this cipher seals.
    pub open spec fn max_plaintext_len(self) -> nat {
        match self {
            Cipher::Aes256Gcm => AES_GCM_MAX_PLAINTEXT as nat,
            Cipher::ChaCha20Poly1305 => CHACHA_MAX_PLAINTEXT as nat,
        }
    }

    /// The ciphertext and tag that this cipher gives for a key, a nonce and a
    /// plaintext.
    pub open spec fn sealed(self, key: Seq<u8>, nonce: Seq<u8>, plaintext: Seq<u8>) -> Seq<u8> {
        match self {
            Cipher::Aes256Gcm => aes_256_gcm_seal(key, nonce, plaintext),
            Cipher::ChaCha20Poly1305 => chacha20_poly1305_seal(key, nonce, plaintext),
        }
    }

    /// The plaintext that this cipher recovers from a ciphertext and tag, or
    /// nothing when the tag does not fit or the input is longer than anything
    /// the cipher seals.
    pub open spec fn opened(self, key: Seq<u8>, nonce: Seq<u8>, sealed: Seq<u8>) -> Option<
        Seq<u8>,
    > {
        if sealed.len() > self.max_plaintext_len() + TAG_LEN {
            None
        } else {
            match self {
                Cipher::Aes256Gcm => aes_256_gcm_open(key, nonce, sealed),
                Cipher::ChaCha20Poly1305 => chacha20_poly1305_open(key, nonce, sealed),
            }
        }
    }

    /// Returns the longest plaintext that this cipher seals.
    pub fn max_plaintext(self) -> (max: u64)
        ensures
            max == self.max_plaintext_len(),
    {
        match self {
            Cipher::Aes256Gcm => AES_GCM_MAX_PLAINTEXT,
            Cipher::ChaCha20Poly1305 => CHACHA_MAX_PLAINTEXT,
        }
    }

    /// Encrypts `plaintext` and appends the tag. Fails exactly when the
    /// plaintext is longer than the cipher accepts. What it returns is 16
    /// bytes longer than the plaintext, and `decrypt` opens it to the
    /// plaintext again.
    pub fn encrypt(self, key: &[u8; KEY_LEN], nonce: &[u8; NONCE_LEN], plaintext: &[u8]) -> (res: Result<
        Vec<u8>,
        CryptorError,
    >)
        ensures
            match res {
                Ok(sealed) => {
                    &&& plaintext@.len() <= self.max_plaintext_len()
                    &&& sealed@ == self.sealed(key@, nonce@, plaintext@)
                    &&& sealed@.len() == plaintext@.len() + TAG_LEN
                    &&& self.opened(key@, nonce@, sealed@) == Some(plaintext@)
                },
                Err(e) => e == CryptorError::CryptoFailure && plaintext@.len()
                    > self.max_plaintext_len(),
            },
    {
        if plaintext.len() as u64 > self.max_plaintext() {
            return Err(CryptorError::CryptoFailure);
        }
        let outcome = match self {
            Cipher::Aes256Gcm => aes_gcm_encrypt(key, nonce, plaintext),
            Cipher::ChaCha20Poly1305 => chacha_encrypt(key, nonce, plaintext),
        };
        match outcome {
            Ok(sealed) => Ok(sealed),
            Err(_) => Err(CryptorError::CryptoFailure),
        }
    }

    /// Checks the tag of `sealed` and decrypts it. What is returned is 16
    /// bytes shorter than the input, and sealing it under the same key and
    /// nonce gives the input again.
    pub fn decrypt(self, key: &[u8; KEY_LEN], nonce: &[u8; NONCE_LEN], sealed: &[u8]) -> (res: Result<
        Vec<u8>,
        CryptorError,
    >)
        ensures
            match res {
                Ok(plaintext) => {
                    &&& self.opened(key@, nonce@, sealed@) == Some(plaintext@)
                    &&& plaintext@.len() + TAG_LEN == sealed@.len()
                    &&& sealed@ == self.sealed(key@, nonce@, plaintext@)
                },
                Err(e) => e == CryptorError::AuthenticationFailure && self.opened(
                    key@,
                    nonce@,
                    sealed@,
                ) is None,
            },
    {
        if sealed.len() as u64 > self.max_plaintext() + TAG_LEN as u64 {
            return Err(CryptorError::AuthenticationFailure);
        }
        let outcome = match self {
            Cipher::Aes256Gcm => aes_gcm_decrypt(key, nonce, sealed),
            Cipher::ChaCha20Poly1305 => chacha_decrypt(key, nonce, sealed),
        };
        match outcome {
            Ok(plaintext) => Ok(plaintext),
            Err(_) => Err(CryptorError::AuthenticationFailure),
        }
    }
}

} // verus!
