//! Key derivation: a password and a salt give the 32-byte cipher key.

use vstd::prelude::*;
use vstd::utf8::encode_utf8;
use pbkdf2::pbkdf2_hmac;
use sha2::Sha256;
use crate::crypto::aead::KEY_LEN;

verus! {

/// Length of a salt in bytes.
pub const SALT_LEN: usize = 16;

/// Number of HMAC-SHA256 rounds that stretch the password.
pub const PBKDF2_ROUNDS: u32 = 100_000;

/// The first 32 bytes of PBKDF2 with HMAC-SHA256 as its pseudorandom function,
/// for the given password, salt and number of rounds.
pub uninterp spec fn pbkdf2_hmac_sha256(password: Seq<u8>, salt: Seq<u8>, rounds: u32) -> Seq<u8>;

/// The key that belongs to a password and a salt: PBKDF2-HMAC-SHA256 over the
/// password's UTF-8 bytes, with `PBKDF2_ROUNDS` rounds.
pub open spec fn derived_key(password: Seq<char>, salt: Seq<u8>) -> Seq<u8> {
    pbkdf2_hmac_sha256(encode_utf8(password), salt, PBKDF2_ROUNDS)
}

/// Calls `pbkdf2::pbkdf2_hmac::<Sha256>` on a 32-byte buffer. That function
/// reads nothing but its arguments and fills the whole buffer, for a password
/// and a salt of any length, so its output is named as a function of them.
#[verifier::external_body]
fn pbkdf2_sha256(password: &[u8], salt: &[u8], rounds: u32) -> (key: [u8; KEY_LEN])
    ensures
        key@ == pbkdf2_hmac_sha256(password@, salt@, rounds),
{
    let mut key = [0u8; KEY_LEN];
    pbkdf2_hmac::<Sha256>(password, salt, rounds, &mut key);
    key
}

/// Derives the cipher key from a password and the salt of one envelope. The
/// same password and salt always give the same key.
pub fn derive_key(password: &str, salt: &[u8; SALT_LEN]) -> (key: [u8; KEY_LEN])
    ensures
        key@ == derived_key(password@, salt@),
{
    pbkdf2_sha256(password.as_bytes(), salt.as_slice(), PBKDF2_ROUNDS)
}

} // verus!
