use cryptor::crypto::xor::{xor_decrypt, xor_encrypt, XOR_KEY};

#[test]
fn xor_key_is_the_fixed_key() {
    assert_eq!(&XOR_KEY[..], b"supersecretkey");
}

#[test]
fn xor_encrypt_known_values() {
    assert_eq!(
        xor_encrypt(b"KEY", b"hello xor"),
        vec![35, 32, 53, 39, 42, 121, 51, 42, 43]
    );
    assert_eq!(
        xor_encrypt(&XOR_KEY, b"The quick brown fox jumps"),
        vec![
            39, 29, 21, 69, 3, 6, 12, 0, 25, 69, 22, 25, 10, 14, 29, 85, 22, 10, 10, 83, 15, 22,
            31, 21, 7
        ]
    );
}

#[test]
fn xor_repeats_the_key() {
    let out = xor_encrypt(&[0x0f, 0xf0], &[0, 0, 0, 0, 0]);
    assert_eq!(out, vec![0x0f, 0xf0, 0x0f, 0xf0, 0x0f]);
    assert_eq!(xor_encrypt(&[0xff], &[1, 2, 3]), vec![0xfe, 0xfd, 0xfc]);
}

#[test]
fn xor_of_empty_data_is_empty() {
    assert_eq!(xor_encrypt(b"KEY", b""), Vec::<u8>::new());
    assert_eq!(xor_decrypt(b"KEY", b""), Vec::<u8>::new());
}

#[test]
fn xor_twice_gives_the_data_back() {
    let data: Vec<u8> = (0..=255u8).chain(0..=255u8).collect();
    for key in [&b"K"[..], &b"KEY"[..], &XOR_KEY[..], &[0u8][..], &[0xff, 0x00, 0x55][..]] {
        let hidden = xor_encrypt(key, &data);
        assert_eq!(hidden.len(), data.len());
        assert_eq!(xor_decrypt(key, &hidden), data);
        assert_eq!(xor_encrypt(key, &hidden), data);
    }
}

#[test]
fn xor_decrypt_is_xor_encrypt() {
    let data = b"decrypt is the same operation";
    assert_eq!(xor_decrypt(b"KEY", data), xor_encrypt(b"KEY", data));
    let hidden = xor_encrypt(b"KEY", b"hello xor");
    assert_eq!(xor_decrypt(b"KEY", &hidden), b"hello xor".to_vec());
}
