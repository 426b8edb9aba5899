//! Password-based encryption with AES-256-GCM.

use vstd::prelude::*;
use crate::crypto::aead::Cipher;
use crate::crypto::envelope::{open, open_post, seal, seal_post};
use crate::error::{outcome, CryptorError};

verus! {

/// Encrypts `data` under `password` with AES-256-GCM and returns the
/// envelope: a fresh random salt, a fresh random nonce, the ciphertext and
/// its tag. The envelope is 44 bytes longer than `data`, and `decrypt` with
/// the same password gives `data` back.
pub fn encrypt(password: &str, data: &[u8]) -> (res: Result<Vec<u8>, CryptorError>)
    ensures
        seal_post(Cipher::Aes256Gcm, password@, data@, outcome(res)),
{
    seal(Cipher::Aes256Gcm, password, data)
}

/// Opens an envelope that `encrypt` made. Fails with `MalformedEnvelope` on
/// fewer than 28 bytes, and with `AuthenticationFailure` when the password is
/// wrong or the envelope was altered.
pub fn decrypt(password: &str, data: &[u8]) -> (res: Result<Vec<u8>, CryptorError>)
    ensures
        open_post(Cipher::Aes256Gcm, password@, data@, outcome(res)),
{
    open(Cipher::Aes256Gcm, password, data)
}

} // verus!
