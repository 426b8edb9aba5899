use base64::engine::general_purpose::STANDARD;
use base64::Engine;
use cryptor::crypto::base64::{decode, decode_bytes, encode, encode_bytes};
use cryptor::error::CryptorError;

fn sample(len: usize, seed: u32) -> Vec<u8> {
    let mut state = seed;
    let mut out = Vec::with_capacity(len);
    for _ in 0..len {
        state = state.wrapping_mul(1664525).wrapping_add(1013904223);
        out.push((state >> 24) as u8);
    }
    out
}

#[test]
fn encode_known_vectors() {
    assert_eq!(encode(b""), "");
    assert_eq!(encode(b"f"), "Zg==");
    assert_eq!(encode(b"fo"), "Zm8=");
    assert_eq!(encode(b"foo"), "Zm9v");
    assert_eq!(encode(b"foob"), "Zm9vYg==");
    assert_eq!(encode(b"fooba"), "Zm9vYmE=");
    assert_eq!(encode(b"foobar"), "Zm9vYmFy");
    assert_eq!(encode(b"hello base64"), "aGVsbG8gYmFzZTY0");
}

#[test]
fn decode_known_vectors() {
    assert_eq!(decode(""), Ok(b"".to_vec()));
    assert_eq!(decode("Zg=="), Ok(b"f".to_vec()));
    assert_eq!(decode("Zm8="), Ok(b"fo".to_vec()));
    assert_eq!(decode("Zm9v"), Ok(b"foo".to_vec()));
    assert_eq!(decode("Zm9vYg=="), Ok(b"foob".to_vec()));
    assert_eq!(decode("Zm9vYmE="), Ok(b"fooba".to_vec()));
    assert_eq!(decode("Zm9vYmFy"), Ok(b"foobar".to_vec()));
    assert_eq!(decode("aGVsbG8gYmFzZTY0"), Ok(b"hello base64".to_vec()));
}

#[test]
fn encode_uses_the_whole_alphabet() {
    let all: Vec<u8> = (0..=255u8).collect();
    let expected = "AAECAwQFBgcICQoLDA0ODxAREhMUFRYXGBkaGxwdHh8gISIjJCUmJygpKissLS4vMDEyMzQ1Njc4\
                    OTo7PD0+P0BBQkNERUZHSElKS0xNTk9QUVJTVFVWV1hZWltcXV5fYGFiY2RlZmdoaWprbG1ub3Bx\
                    cnN0dXZ3eHl6e3x9fn+AgYKDhIWGh4iJiouMjY6PkJGSk5SVlpeYmZqbnJ2en6ChoqOkpaanqKmq\
                    q6ytrq+wsbKztLW2t7i5uru8vb6/wMHCw8TFxsfIycrLzM3Oz9DR0tPU1dbX2Nna29zd3t/g4eLj\
                    5OXm5+jp6uvs7e7v8PHy8/T19vf4+fr7/P3+/w==";
    assert_eq!(encode(&all), expected);
    assert_eq!(decode(expected), Ok(all));
    assert_eq!(encode(&[0xfb, 0xff]), "+/8=");
    assert_eq!(decode("+/8="), Ok(vec![0xfb, 0xff]));
}

#[test]
fn empty_input_encodes_and_decodes_to_empty() {
    assert_eq!(encode(&[]), "");
    assert_eq!(encode_bytes(&[]), Vec::<u8>::new());
    assert_eq!(decode(""), Ok(Vec::new()));
    assert_eq!(decode_bytes(&[]), Ok(Vec::new()));
}

#[test]
fn decode_inverts_encode() {
    for len in 0..100 {
        let data = sample(len, len as u32 + 1);
        let text = encode(&data);
        assert_eq!(text.len(), 4 * ((len + 2) / 3));
        assert_eq!(decode(&text), Ok(data.clone()));
        assert_eq!(decode_bytes(&encode_bytes(&data)), Ok(data));
    }
}

#[test]
fn encode_bytes_gives_the_ascii_of_encode() {
    for len in 0..40 {
        let data = sample(len, 77);
        assert_eq!(encode_bytes(&data), encode(&data).into_bytes());
    }
}

#[test]
fn decode_rejects_characters_outside_the_alphabet() {
    for text in ["Zm9v!A==", "Zm 9v", "Zm9v\n", " Zm9v", "Zm9vYg==\n", "Zm9-", "Zm9_", "Zm9v\u{0}AAA", "Zé==", "Zm9\u{fffd}"] {
        assert_eq!(decode(text), Err(CryptorError::InvalidEncoding), "{:?}", text);
    }
    assert_eq!(decode_bytes(&[0x5a, 0x6d, 0x39, 0xff]), Err(CryptorError::InvalidEncoding));
    assert_eq!(decode_bytes(&[0x5a, 0x6d, 0x39, 0x80]), Err(CryptorError::InvalidEncoding));
}

#[test]
fn decode_rejects_wrong_padding() {
    for text in ["Z", "Zg", "Zg=", "Zm8", "Zm9vY", "=", "==", "====", "Z===", "Zg==Zg==", "Zg=v", "=g==", "Z=g=", "Zm8=Zm8=", "Zm9vYg=", "Zm9vYg===", "Zg==="] {
        assert_eq!(decode(text), Err(CryptorError::InvalidEncoding), "{:?}", text);
    }
}

#[test]
fn decode_rejects_stray_bits_in_the_last_symbol() {
    assert_eq!(decode("Zh=="), Err(CryptorError::InvalidEncoding));
    assert_eq!(decode("Zm9="), Err(CryptorError::InvalidEncoding));
    assert_eq!(decode("Zm8="), Ok(b"fo".to_vec()));
    assert_eq!(decode("ZQ=="), Ok(b"e".to_vec()));
}

#[test]
fn encode_agrees_with_the_standard_engine() {
    for len in 0..200 {
        let data = sample(len, 4242 + len as u32);
        assert_eq!(encode(&data), STANDARD.encode(&data));
    }
}

#[test]
fn decode_agrees_with_the_standard_engine() {
    let replacements: &[u8] = b"Aa0+/=B9zZ -_\n.\x00\x7f\x80";
    for len in 0..8 {
        let text = encode_bytes(&sample(len, 9 + len as u32));
        for at in 0..text.len() {
            for &r in replacements {
                let mut changed = text.clone();
                changed[at] = r;
                assert_eq!(decode_bytes(&changed).ok(), STANDARD.decode(&changed).ok(), "{:?}", changed);
            }
        }
        for cut in 0..text.len() {
            assert_eq!(decode_bytes(&text[..cut]).ok(), STANDARD.decode(&text[..cut]).ok());
        }
        let mut longer = text.clone();
        longer.push(b'=');
        assert_eq!(decode_bytes(&longer).ok(), STANDARD.decode(&longer).ok());
    }
}

#[test]
fn decode_agrees_with_the_standard_engine_on_every_last_symbol() {
    for a in 0..=255u8 {
        for b in [b'A', b'Q', b'g', b'w', b'/', b'=', b'B', b'h'] {
            for tail in [&b"=="[..], &b"A="[..], &b"E="[..], &b"AA"[..], &b"=A"[..]] {
                let mut text = vec![a, b];
                text.extend_from_slice(tail);
                assert_eq!(decode_bytes(&text).ok(), STANDARD.decode(&text).ok(), "{:?}", text);
            }
        }
    }
}
