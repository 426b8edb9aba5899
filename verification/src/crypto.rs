//! The ciphers and codecs, and the envelope that the ciphers share.

pub mod aead;
pub mod aes;
pub mod base64;
pub mod chacha;
pub mod envelope;
pub mod kdf;
pub mod xor;
