//! The envelope: salt, nonce and sealed message in one byte string, which
//! together with the password is all that is needed to recover the plaintext.
//!
//! Layout: bytes `0..16` hold the salt, bytes `16..28` the nonce, and the rest
//! the ciphertext with its 16-byte tag at the end. There is no magic number,
//! no version and no mark of the cipher: whoever opens an envelope has to name
//! the cipher that sealed it.

use vstd::prelude::*;
use vstd::slice::slice_subrange;
use rand::rngs::OsRng;
use rand::RngCore;
use crate::crypto::aead::{Cipher, NONCE_LEN, TAG_LEN};
use crate::error::{outcome, CryptorError};
use crate::crypto::kdf::{derive_key, derived_key, SALT_LEN};

verus! {

/// Length of what stands before the sealed message: salt and nonce.
pub const HEADER_LEN: usize = SALT_LEN + NONCE_LEN;

/// The error of the `rand` crate's generators.
#[verifier::external_type_specification]
#[verifier::external_body]
pub struct ExRandError(rand::Error);

/// The parts of an envelope.
pub struct Envelope<'a> {
    pub salt: [u8; SALT_LEN],
    pub nonce: [u8; NONCE_LEN],
    pub ciphertext: &'a [u8],
}

/// The bytes of the envelope with the given parts: one after the other, with
/// no length fields between them.
pub open spec fn envelope_bytes(salt: Seq<u8>, nonce: Seq<u8>, ciphertext: Seq<u8>) -> Seq<u8> {
    salt + nonce + ciphertext
}

/// The envelope that holds `plaintext` sealed with the given cipher, password,
/// salt and nonce.
pub open spec fn sealed_envelope(
    cipher: Cipher,
    password: Seq<char>,
    salt: Seq<u8>,
    nonce: Seq<u8>,
    plaintext: Seq<u8>,
) -> Seq<u8> {
    envelope_bytes(salt, nonce, cipher.sealed(derived_key(password, salt), nonce, plaintext))
}

/// What opening `envelope` with the given cipher and password gives: the
/// plaintext, `MalformedEnvelope` when there is no room for salt and nonce,
/// and `AuthenticationFailure` when the tag does not fit.
pub open spec fn opened_envelope(cipher: Cipher, password: Seq<char>, envelope: Seq<u8>) -> Result<
    Seq<u8>,
    CryptorError,
> {
    if envelope.len() < HEADER_LEN {
        Err(CryptorError::MalformedEnvelope)
    } else {
        let salt = envelope.subrange(0, SALT_LEN as int);
        let nonce = envelope.subrange(SALT_LEN as int, HEADER_LEN as int);
        let sealed = envelope.subrange(HEADER_LEN as int, envelope.len() as int);
        match cipher.opened(derived_key(password, salt), nonce, sealed) {
            Some(plaintext) => Ok(plaintext),
            None => Err(CryptorError::AuthenticationFailure),
        }
    }
}

/// Whether `envelope` holds `plaintext` sealed with the given cipher and
/// password, under the salt and nonce that the envelope itself carries: the
/// plaintext is one that the cipher accepts, the envelope is 44 bytes longer,
/// its bytes are those of the sealing, and it opens to the plaintext.
pub open spec fn is_sealing(
    cipher: Cipher,
    password: Seq<char>,
    plaintext: Seq<u8>,
    envelope: Seq<u8>,
) -> bool {
    &&& plaintext.len() <= cipher.max_plaintext_len()
    &&& envelope.len() == HEADER_LEN + plaintext.len() + TAG_LEN
    &&& envelope == sealed_envelope(
        cipher,
        password,
        envelope.subrange(0, SALT_LEN as int),
        envelope.subrange(SALT_LEN as int, HEADER_LEN as int),
        plaintext,
    )
    &&& opened_envelope(cipher, password, envelope) == Ok::<Seq<u8>, CryptorError>(plaintext)
}

/// What `seal` may return for a plaintext: an envelope that holds it, or
/// `CryptoFailure`, which is all there is for a plaintext that the cipher does
/// not accept.
pub open spec fn seal_post(
    cipher: Cipher,
    password: Seq<char>,
    plaintext: Seq<u8>,
    res: Result<Seq<u8>, CryptorError>,
) -> bool {
    match res {
        Ok(envelope) => is_sealing(cipher, password, plaintext, envelope),
        Err(e) => e == CryptorError::CryptoFailure,
    }
}

/// What `open` returns for an envelope: what opening it gives, and on
/// success a plaintext that the envelope holds.
pub open spec fn open_post(
    cipher: Cipher,
    password: Seq<char>,
    envelope: Seq<u8>,
    res: Result<Seq<u8>, CryptorError>,
) -> bool {
    &&& res == opened_envelope(cipher, password, envelope)
    &&& res matches Ok(plaintext) ==> is_sealing(cipher, password, plaintext, envelope)
}

/// Whatever envelope `seal` returns for a plaintext, `open` with the same
/// cipher and password returns that plaintext.
pub proof fn lemma_open_inverts_seal(
    cipher: Cipher,
    password: Seq<char>,
    plaintext: Seq<u8>,
    envelope: Seq<u8>,
    opened: Result<Seq<u8>, CryptorError>,
)
    requires
        seal_post(cipher, password, plaintext, Ok(envelope)),
        open_post(cipher, password, envelope, opened),
    ensures
        opened == Ok::<Seq<u8>, CryptorError>(plaintext),
{
}

/// Whatever envelope `seal` returns for a plaintext is longer than the
/// plaintext by the salt, the nonce and the tag.
pub proof fn lemma_sealed_len(
    cipher: Cipher,
    password: Seq<char>,
    plaintext: Seq<u8>,
    envelope: Seq<u8>,
)
    requires
        seal_post(cipher, password, plaintext, Ok(envelope)),
    ensures
        envelope.len() == SALT_LEN + NONCE_LEN + plaintext.len() + TAG_LEN,
{
}

impl<'a> Envelope<'a> {
    /// The bytes of this envelope.
    pub open spec fn bytes(self) -> Seq<u8> {
        envelope_bytes(self.salt@, self.nonce@, self.ciphertext@)
    }
}

/// Copies `N` bytes of `data`, from `start` on, into an array.
fn take<const N: usize>(data: &[u8], start: usize) -> (out: [u8; N])
    requires
        start + N <= data@.len(),
    ensures
        out@ == data@.subrange(start as int, start + N),
{
    let len: usize = data.len();
    let mut out: [u8; N] = [0u8; N];
    let mut i: usize = 0;
    while i < N
        invariant
            start + N <= len == data@.len(),
            i <= N,
            forall|j: int| 0 <= j < i ==> out@[j] == data@[start + j],
        decreases N - i,
    {
        out[i] = data[start + i];
        i += 1;
    }
    assert(out@ =~= data@.subrange(start as int, start + N));
    out
}

/// Puts salt, nonce and ciphertext one after the other.
pub fn pack(salt: &[u8; SALT_LEN], nonce: &[u8; NONCE_LEN], ciphertext: &[u8]) -> (out: Vec<u8>)
    ensures
        out@ == envelope_bytes(salt@, nonce@, ciphertext@),
{
    let mut out: Vec<u8> = Vec::new();
    out.extend_from_slice(salt.as_slice());
    out.extend_from_slice(nonce.as_slice());
    out.extend_from_slice(ciphertext);
    out
}

/// Cuts an envelope at the fixed offsets. Fails exactly when `data` is
/// shorter than salt and nonce together; nothing else is checked here.
pub fn unpack<'a>(data: &'a [u8]) -> (res: Result<Envelope<'a>, CryptorError>)
    ensures
        match res {
            Ok(envelope) => {
                &&& data@.len() >= HEADER_LEN
                &&& envelope.bytes() == data@
                &&& envelope.salt@ == data@.subrange(0, SALT_LEN as int)
                &&& envelope.nonce@ == data@.subrange(SALT_LEN as int, HEADER_LEN as int)
                &&& envelope.ciphertext@ == data@.subrange(HEADER_LEN as int, data@.len() as int)
            },
            Err(e) => e == CryptorError::MalformedEnvelope && data@.len() < HEADER_LEN,
        },
{
    if data.len() < HEADER_LEN {
        return Err(CryptorError::MalformedEnvelope);
    }
    let salt: [u8; SALT_LEN] = take(data, 0);
    let nonce: [u8; NONCE_LEN] = take(data, SALT_LEN);
    let ciphertext = slice_subrange(data, HEADER_LEN, data.len());
    let envelope = Envelope { salt, nonce, ciphertext };
    assert(envelope.bytes() =~= data@);
    Ok(envelope)
}

/// Packing the parts and cutting them apart again gives the same parts.
pub proof fn lemma_unpack_pack(salt: Seq<u8>, nonce: Seq<u8>, ciphertext: Seq<u8>)
    requires
        salt.len() == SALT_LEN,
        nonce.len() == NONCE_LEN,
    ensures
        ({
            let bytes = envelope_bytes(salt, nonce, ciphertext);
            &&& bytes.len() == HEADER_LEN + ciphertext.len()
            &&& bytes.subrange(0, SALT_LEN as int) == salt
            &&& bytes.subrange(SALT_LEN as int, HEADER_LEN as int) == nonce
            &&& bytes.subrange(HEADER_LEN as int, bytes.len() as int) == ciphertext
        }),
{
    let bytes = envelope_bytes(salt, nonce, ciphertext);
    assert(bytes.subrange(0, SALT_LEN as int) =~= salt);
    assert(bytes.subrange(SALT_LEN as int, HEADER_LEN as int) =~= nonce);
    assert(bytes.subrange(HEADER_LEN as int, bytes.len() as int) =~= ciphertext);
}

/// Calls `OsRng.try_fill_bytes` of the `rand` crate on a buffer of `N` bytes:
/// the operating system's random generator. Nothing is known of the bytes,
/// and the call may fail.
#[verifier::external_body]
fn os_random<const N: usize>() -> (res: Result<[u8; N], rand::Error>) {
    let mut buf = [0u8; N];
    match OsRng.try_fill_bytes(&mut buf) {
        Ok(()) => Ok(buf),
        Err(e) => Err(e),
    }
}

/// Seals `plaintext` under a key derived from `password` and `salt`, and
/// returns the envelope. Fails exactly when the plaintext is longer than the
/// cipher accepts. The envelope is 44 bytes longer than the plaintext, and
/// opening it with the same cipher and password gives the plaintext back.
pub fn seal_with(
    cipher: Cipher,
    password: &str,
    salt: &[u8; SALT_LEN],
    nonce: &[u8; NONCE_LEN],
    plaintext: &[u8],
) -> (res: Result<Vec<u8>, CryptorError>)
    ensures
        match res {
            Ok(envelope) => {
                &&& envelope@ == sealed_envelope(cipher, password@, salt@, nonce@, plaintext@)
                &&& is_sealing(cipher, password@, plaintext@, envelope@)
            },
            Err(e) => e == CryptorError::CryptoFailure && plaintext@.len()
                > cipher.max_plaintext_len(),
        },
{
    if plaintext.len() as u64 > cipher.max_plaintext() {
        return Err(CryptorError::CryptoFailure);
    }
    let key = derive_key(password, salt);
    match cipher.encrypt(&key, nonce, plaintext) {
        Ok(sealed) => {
            let envelope = pack(salt, nonce, sealed.as_slice());
            proof {
                lemma_unpack_pack(salt@, nonce@, sealed@);
            }
            Ok(envelope)
        },
        Err(e) => Err(e),
    }
}

/// Seals `plaintext` under `password` with a fresh random salt and nonce.
/// Whatever salt and nonce were drawn, the envelope carries them in its first
/// 28 bytes, is 44 bytes longer than the plaintext, and opens to the
/// plaintext with the same cipher and password. Fails when the plaintext is
/// longer than the cipher accepts or the random generator fails.
pub fn seal(cipher: Cipher, password: &str, plaintext: &[u8]) -> (res: Result<
    Vec<u8>,
    CryptorError,
>)
    ensures
        seal_post(cipher, password@, plaintext@, outcome(res)),
{
    if plaintext.len() as u64 > cipher.max_plaintext() {
        return Err(CryptorError::CryptoFailure);
    }
    let salt: [u8; SALT_LEN] = match os_random::<SALT_LEN>() {
        Ok(bytes) => bytes,
        Err(_) => {
            return Err(CryptorError::CryptoFailure);
        },
    };
    let nonce: [u8; NONCE_LEN] = match os_random::<NONCE_LEN>() {
        Ok(bytes) => bytes,
        Err(_) => {
            return Err(CryptorError::CryptoFailure);
        },
    };
    let res = seal_with(cipher, password, &salt, &nonce, plaintext);
    proof {
        lemma_unpack_pack(
            salt@,
            nonce@,
            cipher.sealed(derived_key(password@, salt@), nonce@, plaintext@),
        );
    }
    res
}

/// Opens an envelope: cuts it apart, derives the key from the password and
/// the envelope's salt, checks the tag and decrypts. Fails with
/// `MalformedEnvelope` exactly when `data` is shorter than 28 bytes, and with
/// `AuthenticationFailure` exactly when the tag does not fit, be it for a
/// wrong password, a wrong cipher or altered data. What is returned is a
/// plaintext of which `data` is the sealing, under the salt and nonce that
/// `data` carries.
pub fn open(cipher: Cipher, password: &str, data: &[u8]) -> (res: Result<Vec<u8>, CryptorError>)
    ensures
        open_post(cipher, password@, data@, outcome(res)),
{
    let envelope = match unpack(data) {
        Ok(envelope) => envelope,
        Err(e) => {
            return Err(e);
        },
    };
    let key = derive_key(password, &envelope.salt);
    cipher.decrypt(&key, &envelope.nonce, envelope.ciphertext)
}

} // verus!
