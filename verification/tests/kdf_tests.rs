use cryptor::crypto::aead::KEY_LEN;
use cryptor::crypto::kdf::{derive_key, PBKDF2_ROUNDS, SALT_LEN};

fn salt_counting() -> [u8; 16] {
    let mut salt = [0u8; 16];
    for (i, b) in salt.iter_mut().enumerate() {
        *b = i as u8;
    }
    salt
}

#[test]
fn kdf_constants() {
    assert_eq!(SALT_LEN, 16);
    assert_eq!(KEY_LEN, 32);
    assert_eq!(PBKDF2_ROUNDS, 100_000);
}

#[test]
fn derive_key_known_value() {
    let key = derive_key("password", &salt_counting());
    assert_eq!(
        key,
        [
            162, 159, 234, 15, 237, 133, 197, 184, 97, 12, 46, 86, 151, 234, 65, 181, 88, 113, 57,
            229, 138, 56, 142, 12, 123, 124, 237, 48, 212, 230, 216, 223
        ]
    );
}

#[test]
fn derive_key_takes_the_utf8_bytes_of_the_password() {
    let key = derive_key("pässwörd", &[0xff; 16]);
    assert_eq!(
        key,
        [
            232, 108, 51, 9, 30, 91, 230, 65, 23, 128, 1, 153, 83, 115, 171, 221, 115, 63, 63, 178,
            103, 126, 9, 183, 21, 91, 167, 224, 129, 41, 145, 200
        ]
    );
}

#[test]
fn derive_key_of_the_empty_password() {
    let key = derive_key("", &[0; 16]);
    assert_eq!(
        key,
        [
            110, 232, 111, 235, 176, 101, 49, 197, 210, 164, 178, 200, 61, 52, 234, 34, 54, 66,
            152, 193, 133, 101, 111, 221, 18, 21, 2, 118, 116, 62, 13, 77
        ]
    );
}

#[test]
fn derive_key_is_deterministic_and_depends_on_both_inputs() {
    let salt = salt_counting();
    let key = derive_key("password", &salt);
    assert_eq!(derive_key("password", &salt), key);
    assert_ne!(derive_key("passwore", &salt), key);
    let mut other = salt;
    other[15] ^= 1;
    assert_ne!(derive_key("password", &other), key);
}
