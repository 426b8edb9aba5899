//! The commands, the rules that decide whether a command may run, and the
//! dispatch of a valid command to the cipher or codec it names.
//!
//! A command is checked before any input is read: the algorithm has to be one
//! that the operation accepts, AES and ChaCha20 need a password, and XOR,
//! whose key is fixed, refuses one rather than ignore it.

use vstd::prelude::*;
use vstd::utf8::{encode_utf8, encode_utf8_decode_utf8};
use crate::crypto::aead::Cipher;
use crate::crypto::base64::{decode_bytes, decoded, encode_bytes, encoded};
use crate::crypto::envelope::{open, open_post, seal, seal_post};
use crate::error::{outcome, CryptorError};
use crate::crypto::xor::{xor_decrypt, xor_encrypt, xor_spec, XOR_KEY};

verus! {

/// One invocation: the operation, the algorithm by name, the two paths, and
/// for encryption and decryption the password, if one was given.
#[derive(Clone, Debug, PartialEq, Eq)]
pub enum Commands {
    Encrypt { algo: String, input: String, output: String, password: Option<String> },
    Decrypt { algo: String, input: String, output: String, password: Option<String> },
    Encode { algo: String, input: String, output: String },
    Decode { algo: String, input: String, output: String },
}

/// The arguments of the program.
#[derive(Clone, Debug, PartialEq, Eq)]
pub struct Args {
    pub command: Commands,
}

/// An algorithm that encrypts and decrypts.
#[derive(Clone, Copy, Debug, PartialEq, Eq, Structural)]
pub enum Algorithm {
    Aes,
    Chacha,
    Xor,
}

/// A command that passed the checks: what is to be done to the input.
#[derive(Clone, Debug, PartialEq, Eq)]
pub enum Task {
    Seal { cipher: Cipher, password: String },
    Open { cipher: Cipher, password: String },
    XorEncrypt,
    XorDecrypt,
    Encode,
    Decode,
}

/// The algorithm that `name` stands for in `encrypt` and `decrypt`.
pub open spec fn algorithm_named(name: Seq<char>) -> Option<Algorithm> {
    if name == "aes"@ {
        Some(Algorithm::Aes)
    } else if name == "chacha"@ {
        Some(Algorithm::Chacha)
    } else if name == "xor"@ {
        Some(Algorithm::Xor)
    } else {
        None
    }
}

impl Algorithm {
    /// The cipher behind a password-based algorithm, and nothing for XOR.
    pub open spec fn cipher(self) -> Option<Cipher> {
        match self {
            Algorithm::Aes => Some(Cipher::Aes256Gcm),
            Algorithm::Chacha => Some(Cipher::ChaCha20Poly1305),
            Algorithm::Xor => None,
        }
    }

    /// The password rule: a cipher needs a password, and XOR, whose key is
    /// fixed, refuses one. Gives the cipher to use, or nothing for XOR.
    pub open spec fn checked(self, has_password: bool) -> Result<Option<Cipher>, CryptorError> {
        match (self.cipher(), has_password) {
            (Some(_), false) => Err(CryptorError::PasswordRequired),
            (Some(cipher), true) => Ok(Some(cipher)),
            (None, true) => Err(CryptorError::PasswordNotAllowed),
            (None, false) => Ok(None),
        }
    }

    /// What `encrypt` may give: the refusal that the password rule asks for,
    /// and else what sealing, or XOR with the fixed key, gives.
    pub open spec fn encrypted(
        self,
        password: Option<Seq<char>>,
        data: Seq<u8>,
        res: Result<Seq<u8>, CryptorError>,
    ) -> bool {
        match self.checked(password is Some) {
            Err(e) => res == Err::<Seq<u8>, CryptorError>(e),
            Ok(Some(cipher)) => seal_post(cipher, password.unwrap(), data, res),
            Ok(None) => res == Ok::<Seq<u8>, CryptorError>(xor_spec(XOR_KEY@, data)),
        }
    }

    /// What `decrypt` gives: the refusal that the password rule asks for, and
    /// else what opening, or XOR with the fixed key, gives.
    pub open spec fn decrypted(
        self,
        password: Option<Seq<char>>,
        data: Seq<u8>,
        res: Result<Seq<u8>, CryptorError>,
    ) -> bool {
        match self.checked(password is Some) {
            Err(e) => res == Err::<Seq<u8>, CryptorError>(e),
            Ok(Some(cipher)) => open_post(cipher, password.unwrap(), data, res),
            Ok(None) => res == Ok::<Seq<u8>, CryptorError>(xor_spec(XOR_KEY@, data)),
        }
    }

    /// Applies the password rule.
    pub fn check(self, has_password: bool) -> (res: Result<Option<Cipher>, CryptorError>)
        ensures
            res == self.checked(has_password),
    {
        let cipher = match self {
            Algorithm::Aes => Some(Cipher::Aes256Gcm),
            Algorithm::Chacha => Some(Cipher::ChaCha20Poly1305),
            Algorithm::Xor => None,
        };
        match (cipher, has_password) {
            (Some(_), false) => Err(CryptorError::PasswordRequired),
            (Some(cipher), true) => Ok(Some(cipher)),
            (None, true) => Err(CryptorError::PasswordNotAllowed),
            (None, false) => Ok(None),
        }
    }

    /// Encrypts `data` with this algorithm, after applying the password rule.
    pub fn encrypt(self, password: Option<&str>, data: &[u8]) -> (res: Result<
        Vec<u8>,
        CryptorError,
    >)
        ensures
            self.encrypted(text_of(password), data@, outcome(res)),
    {
        match (self.check(password.is_some()), password) {
            (Err(e), _) => Err(e),
            (Ok(Some(cipher)), Some(password)) => seal(cipher, password, data),
            (Ok(_), _) => Ok(xor_encrypt(XOR_KEY.as_slice(), data)),
        }
    }

    /// Decrypts `data` with this algorithm, after applying the password rule.
    pub fn decrypt(self, password: Option<&str>, data: &[u8]) -> (res: Result<
        Vec<u8>,
        CryptorError,
    >)
        ensures
            self.decrypted(text_of(password), data@, outcome(res)),
    {
        match (self.check(password.is_some()), password) {
            (Err(e), _) => Err(e),
            (Ok(Some(cipher)), Some(password)) => open(cipher, password, data),
            (Ok(_), _) => Ok(xor_decrypt(XOR_KEY.as_slice(), data)),
        }
    }
}

/// The characters of an optional string.
pub open spec fn text_of(text: Option<&str>) -> Option<Seq<char>> {
    match text {
        Some(text) => Some(text@),
        None => None,
    }
}

/// The task that `encrypt` asks for with the given algorithm name and
/// password, or the reason why it is refused: first an unknown name, then a
/// broken password rule.
pub open spec fn planned_encrypt(algo: Seq<char>, password: Option<String>) -> Result<
    Task,
    CryptorError,
> {
    match algorithm_named(algo) {
        None => Err(CryptorError::InvalidAlgorithm),
        Some(algorithm) => match algorithm.checked(password is Some) {
            Err(e) => Err(e),
            Ok(Some(cipher)) => Ok(Task::Seal { cipher, password: password.unwrap() }),
            Ok(None) => Ok(Task::XorEncrypt),
        },
    }
}

/// The task that `decrypt` asks for with the given algorithm name and
/// password, or the reason why it is refused: first an unknown name, then a
/// broken password rule.
pub open spec fn planned_decrypt(algo: Seq<char>, password: Option<String>) -> Result<
    Task,
    CryptorError,
> {
    match algorithm_named(algo) {
        None => Err(CryptorError::InvalidAlgorithm),
        Some(algorithm) => match algorithm.checked(password is Some) {
            Err(e) => Err(e),
            Ok(Some(cipher)) => Ok(Task::Open { cipher, password: password.unwrap() }),
            Ok(None) => Ok(Task::XorDecrypt),
        },
    }
}

/// The task that a command asks for, or the reason why it is refused.
pub open spec fn planned(command: Commands) -> Result<Task, CryptorError> {
    match command {
        Commands::Encrypt { algo, password, .. } => planned_encrypt(algo@, password),
        Commands::Decrypt { algo, password, .. } => planned_decrypt(algo@, password),
        Commands::Encode { algo, .. } => if algo@ == "base64"@ {
            Ok(Task::Encode)
        } else {
            Err(CryptorError::InvalidAlgorithm)
        },
        Commands::Decode { algo, .. } => if algo@ == "base64"@ {
            Ok(Task::Decode)
        } else {
            Err(CryptorError::InvalidAlgorithm)
        },
    }
}

/// What carrying out a task on an input may give.
pub open spec fn executed(task: Task, input: Seq<u8>, res: Result<Seq<u8>, CryptorError>) -> bool {
    match task {
        Task::Seal { cipher, password } => seal_post(cipher, password@, input, res),
        Task::Open { cipher, password } => open_post(cipher, password@, input, res),
        Task::XorEncrypt | Task::XorDecrypt => res == Ok::<Seq<u8>, CryptorError>(
            xor_spec(XOR_KEY@, input),
        ),
        Task::Encode => res == Ok::<Seq<u8>, CryptorError>(encoded(input)),
        Task::Decode => res == match decoded(input) {
            Some(data) => Ok::<Seq<u8>, CryptorError>(data),
            None => Err(CryptorError::InvalidEncoding),
        },
    }
}

/// Whether two strings hold the same characters.
fn same_text(a: &str, b: &str) -> (same: bool)
    ensures
        same == (a@ == b@),
{
    let x = a.as_bytes();
    let y = b.as_bytes();
    proof {
        encode_utf8_decode_utf8(a@);
        encode_utf8_decode_utf8(b@);
    }
    if x.len() != y.len() {
        return false;
    }
    let mut i: usize = 0;
    while i < x.len()
        invariant
            x@ == encode_utf8(a@),
            y@ == encode_utf8(b@),
            x@.len() == y@.len(),
            i <= x@.len(),
            forall|j: int| 0 <= j < i ==> x@[j] == y@[j],
        decreases x@.len() - i,
    {
        if x[i] != y[i] {
            return false;
        }
        i += 1;
    }
    assert(x@ =~= y@);
    true
}

/// Reads the name of an encryption algorithm: `aes`, `chacha` or `xor`.
pub fn parse_algorithm(name: &str) -> (res: Option<Algorithm>)
    ensures
        res == algorithm_named(name@),
{
    if same_text(name, "aes") {
        Some(Algorithm::Aes)
    } else if same_text(name, "chacha") {
        Some(Algorithm::Chacha)
    } else if same_text(name, "xor") {
        Some(Algorithm::Xor)
    } else {
        None
    }
}

/// Reads the algorithm name and applies the password rule.
fn check_cipher(algo: &str, has_password: bool) -> (res: Result<Option<Cipher>, CryptorError>)
    ensures
        res == match algorithm_named(algo@) {
            None => Err(CryptorError::InvalidAlgorithm),
            Some(algorithm) => algorithm.checked(has_password),
        },
{
    match parse_algorithm(algo) {
        Some(algorithm) => algorithm.check(has_password),
        None => Err(CryptorError::InvalidAlgorithm),
    }
}

/// Checks a command and says what it asks for. Nothing is read, written or
/// computed yet: a command that breaks a rule is refused here.
pub fn plan(args: &Args) -> (res: Result<Task, CryptorError>)
    ensures
        res == planned(args.command),
{
    match &args.command {
        Commands::Encrypt { algo, password, .. } => {
            match (check_cipher(algo.as_str(), password.is_some()), password) {
                (Err(e), _) => Err(e),
                (Ok(Some(cipher)), Some(password)) => Ok(
                    Task::Seal { cipher, password: password.clone() },
                ),
                (Ok(_), _) => Ok(Task::XorEncrypt),
            }
        },
        Commands::Decrypt { algo, password, .. } => {
            match (check_cipher(algo.as_str(), password.is_some()), password) {
                (Err(e), _) => Err(e),
                (Ok(Some(cipher)), Some(password)) => Ok(
                    Task::Open { cipher, password: password.clone() },
                ),
                (Ok(_), _) => Ok(Task::XorDecrypt),
            }
        },
        Commands::Encode { algo, .. } => if same_text(algo.as_str(), "base64") {
            Ok(Task::Encode)
        } else {
            Err(CryptorError::InvalidAlgorithm)
        },
        Commands::Decode { algo, .. } => if same_text(algo.as_str(), "base64") {
            Ok(Task::Decode)
        } else {
            Err(CryptorError::InvalidAlgorithm)
        },
    }
}

/// Carries out a task on the input bytes and returns the bytes to write.
pub fn execute(task: &Task, input: &[u8]) -> (res: Result<Vec<u8>, CryptorError>)
    ensures
        executed(*task, input@, outcome(res)),
{
    match task {
        Task::Seal { cipher, password } => seal(*cipher, password.as_str(), input),
        Task::Open { cipher, password } => open(*cipher, password.as_str(), input),
        Task::XorEncrypt => Ok(xor_encrypt(XOR_KEY.as_slice(), input)),
        Task::XorDecrypt => Ok(xor_decrypt(XOR_KEY.as_slice(), input)),
        Task::Encode => Ok(encode_bytes(input)),
        Task::Decode => decode_bytes(input),
    }
}

} // verus!
