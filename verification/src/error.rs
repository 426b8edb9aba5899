//! The failures that the library reports.

use vstd::prelude::*;

verus! {

/// Why a command was refused or a transformation failed.
#[derive(Clone, Copy, Debug, PartialEq, Eq, Structural)]
pub enum CryptorError {
    /// The algorithm name is not one that the requested operation accepts.
    InvalidAlgorithm,
    /// AES and ChaCha20 derive their key from a password, and none was given.
    PasswordRequired,
    /// XOR uses a fixed key, and a password was given all the same.
    PasswordNotAllowed,
    /// The input is too short to hold a salt and a nonce.
    MalformedEnvelope,
    /// The authentication tag does not match: the password is wrong or the
    /// data was altered. The two causes are deliberately not told apart.
    AuthenticationFailure,
    /// The input is not canonical Base64 text.
    InvalidEncoding,
    /// A cryptographic primitive or the random generator failed.
    CryptoFailure,
}

impl CryptorError {
    /// The text shown to the user for this failure.
    pub open spec fn message_spec(self) -> Seq<char> {
        match self {
            CryptorError::InvalidAlgorithm => "Invalid algorithm"@,
            CryptorError::PasswordRequired => "--password is required for AES and ChaCha20"@,
            CryptorError::PasswordNotAllowed => "--password must NOT be used with XOR"@,
            CryptorError::MalformedEnvelope => "Invalid encrypted data"@,
            CryptorError::AuthenticationFailure => "invalid password or corrupted data"@,
            CryptorError::InvalidEncoding => "Invalid Base64 data"@,
            CryptorError::CryptoFailure => "Encryption failed"@,
        }
    }

    /// Returns the text shown to the user for this failure.
    pub fn message(&self) -> (text: &'static str)
        ensures
            text@ == self.message_spec(),
    {
        match self {
            CryptorError::InvalidAlgorithm => "Invalid algorithm",
            CryptorError::PasswordRequired => "--password is required for AES and ChaCha20",
            CryptorError::PasswordNotAllowed => "--password must NOT be used with XOR",
            CryptorError::MalformedEnvelope => "Invalid encrypted data",
            CryptorError::AuthenticationFailure => "invalid password or corrupted data",
            CryptorError::InvalidEncoding => "Invalid Base64 data",
            CryptorError::CryptoFailure => "Encryption failed",
        }
    }
}

/// The outcome of a transformation, with the bytes as a sequence.
pub open spec fn outcome(res: Result<Vec<u8>, CryptorError>) -> Result<Seq<u8>, CryptorError> {
    match res {
        Ok(bytes) => Ok(bytes@),
        Err(e) => Err(e),
    }
}

} // verus!
