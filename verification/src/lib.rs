//! Password-based file encryption: two authenticated ciphers behind one
//! envelope format, a keyless XOR obfuscation mode and a Base64 codec,
//! together with the rules that decide which of them a command may use.

pub mod cli;
pub mod crypto;
pub mod error;
