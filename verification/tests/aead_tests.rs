use aes_gcm::aead::{Aead, KeyInit};
use cryptor::crypto::aead::{
    Cipher, AES_GCM_MAX_PLAINTEXT, CHACHA_MAX_PLAINTEXT, NONCE_LEN, TAG_LEN,
};
use cryptor::error::CryptorError;

fn key_counting() -> [u8; 32] {
    let mut key = [0u8; 32];
    for (i, b) in key.iter_mut().enumerate() {
        *b = i as u8;
    }
    key
}

fn nonce_counting() -> [u8; 12] {
    let mut nonce = [0u8; 12];
    for (i, b) in nonce.iter_mut().enumerate() {
        *b = 100 + i as u8;
    }
    nonce
}

#[test]
fn aead_constants() {
    assert_eq!(NONCE_LEN, 12);
    assert_eq!(TAG_LEN, 16);
    assert_eq!(AES_GCM_MAX_PLAINTEXT, (1u64 << 36) - 32);
    assert_eq!(CHACHA_MAX_PLAINTEXT, (1u64 << 38) - 128);
    assert_eq!(Cipher::Aes256Gcm.max_plaintext(), AES_GCM_MAX_PLAINTEXT);
    assert_eq!(Cipher::ChaCha20Poly1305.max_plaintext(), CHACHA_MAX_PLAINTEXT);
}

#[test]
fn aes_gcm_known_answers() {
    let sealed = Cipher::Aes256Gcm.encrypt(&key_counting(), &nonce_counting(), b"");
    assert_eq!(
        sealed,
        Ok(vec![96, 155, 213, 15, 106, 215, 109, 246, 101, 240, 72, 186, 140, 95, 215, 6])
    );
    let sealed = Cipher::Aes256Gcm.encrypt(&key_counting(), &nonce_counting(), b"abc");
    assert_eq!(
        sealed,
        Ok(vec![
            41, 121, 189, 197, 53, 147, 8, 6, 206, 57, 58, 14, 104, 55, 244, 239, 243, 157, 27
        ])
    );
}

#[test]
fn chacha20_poly1305_known_answers() {
    let sealed = Cipher::ChaCha20Poly1305.encrypt(&key_counting(), &nonce_counting(), b"");
    assert_eq!(
        sealed,
        Ok(vec![163, 49, 38, 152, 111, 203, 19, 18, 194, 71, 108, 18, 80, 89, 255, 228])
    );
    let sealed = Cipher::ChaCha20Poly1305.encrypt(&key_counting(), &nonce_counting(), b"abc");
    assert_eq!(
        sealed,
        Ok(vec![
            85, 115, 216, 205, 24, 122, 193, 131, 27, 171, 252, 50, 234, 190, 70, 164, 104, 41, 79
        ])
    );
}

#[test]
fn cipher_encrypt_agrees_with_the_primitives() {
    let key = key_counting();
    let nonce = nonce_counting();
    let data = b"the same bytes as the primitive gives";
    let direct = aes_gcm::Aes256Gcm::new(aes_gcm::Key::<aes_gcm::Aes256Gcm>::from_slice(&key))
        .encrypt(aes_gcm::Nonce::from_slice(&nonce), &data[..])
        .unwrap();
    assert_eq!(Cipher::Aes256Gcm.encrypt(&key, &nonce, data), Ok(direct));
    let direct = chacha20poly1305::ChaCha20Poly1305::new(chacha20poly1305::Key::from_slice(&key))
        .encrypt(chacha20poly1305::Nonce::from_slice(&nonce), &data[..])
        .unwrap();
    assert_eq!(Cipher::ChaCha20Poly1305.encrypt(&key, &nonce, data), Ok(direct));
}

#[test]
fn cipher_decrypt_inverts_encrypt() {
    let key = key_counting();
    let nonce = nonce_counting();
    for cipher in [Cipher::Aes256Gcm, Cipher::ChaCha20Poly1305] {
        for len in [0usize, 1, 15, 16, 17, 63, 64, 65, 1000] {
            let data: Vec<u8> = (0..len).map(|i| (i * 7) as u8).collect();
            let sealed = cipher.encrypt(&key, &nonce, &data).unwrap();
            assert_eq!(sealed.len(), len + TAG_LEN);
            assert_eq!(cipher.decrypt(&key, &nonce, &sealed), Ok(data));
        }
    }
}

#[test]
fn cipher_decrypt_refuses_every_flipped_bit() {
    let key = key_counting();
    let nonce = nonce_counting();
    for cipher in [Cipher::Aes256Gcm, Cipher::ChaCha20Poly1305] {
        let sealed = cipher.encrypt(&key, &nonce, b"tamper with me").unwrap();
        for at in 0..sealed.len() {
            for bit in 0..8 {
                let mut changed = sealed.clone();
                changed[at] ^= 1 << bit;
                assert_eq!(
                    cipher.decrypt(&key, &nonce, &changed),
                    Err(CryptorError::AuthenticationFailure)
                );
            }
        }
    }
}

#[test]
fn cipher_decrypt_refuses_wrong_key_nonce_or_cipher() {
    let key = key_counting();
    let nonce = nonce_counting();
    let sealed = Cipher::Aes256Gcm.encrypt(&key, &nonce, b"message").unwrap();
    let mut other_key = key;
    other_key[0] ^= 1;
    let mut other_nonce = nonce;
    other_nonce[11] ^= 0x80;
    let refused = Err(CryptorError::AuthenticationFailure);
    assert_eq!(Cipher::Aes256Gcm.decrypt(&other_key, &nonce, &sealed), refused);
    assert_eq!(Cipher::Aes256Gcm.decrypt(&key, &other_nonce, &sealed), refused);
    assert_eq!(Cipher::ChaCha20Poly1305.decrypt(&key, &nonce, &sealed), refused);
    assert_eq!(Cipher::Aes256Gcm.decrypt(&key, &nonce, &sealed), Ok(b"message".to_vec()));
}

#[test]
fn cipher_decrypt_refuses_what_is_shorter_than_a_tag() {
    let key = key_counting();
    let nonce = nonce_counting();
    for cipher in [Cipher::Aes256Gcm, Cipher::ChaCha20Poly1305] {
        for len in 0..16 {
            assert_eq!(
                cipher.decrypt(&key, &nonce, &vec![0u8; len]),
                Err(CryptorError::AuthenticationFailure)
            );
        }
    }
}
