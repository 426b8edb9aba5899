//! Base64 with the standard alphabet (`A`-`Z`, `a`-`z`, `0`-`9`, `+`, `/`) and
//! `=` padding.
//!
//! Encoding is defined symbol by symbol, and decoding as its inverse: a text
//! decodes exactly when it is the encoding of some bytes, so whitespace, a
//! missing or misplaced `=`, and stray bits in the last symbol are all rejected.

use vstd::prelude::*;
use vstd::utf8::{encode_utf8, encode_utf8_decode_utf8, is_ascii_chars, is_ascii_chars_encode_utf8};
use crate::error::CryptorError;

verus! {

/// The padding symbol `=`.
pub const PAD: u8 = 61;

/// The ASCII code of the alphabet symbol that stands for the 6-bit value `v`.
pub open spec fn symbol(v: int) -> u8 {
    if v < 26 {
        (65 + v) as u8
    } else if v < 52 {
        (71 + v) as u8
    } else if v < 62 {
        (v - 4) as u8
    } else if v == 62 {
        43
    } else {
        47
    }
}

/// The number of symbols, padding included, that encode `n` bytes.
pub open spec fn encoded_len(n: nat) -> nat {
    4 * ((n + 2) / 3) as nat
}

/// Byte `i` of `data`, and zero past its end.
pub open spec fn byte_or_zero(data: Seq<u8>, i: int) -> int {
    if 0 <= i < data.len() {
        data[i] as int
    } else {
        0
    }
}

/// Symbol `j` of the encoding of `data`. Each group of three bytes gives four
/// symbols of six bits each, most significant bits first; a last group of one
/// or two bytes is filled with zero bits and closed with `=`.
pub open spec fn encoded_at(data: Seq<u8>, j: int) -> u8 {
    let g = 3 * (j / 4);
    let b0 = byte_or_zero(data, g);
    let b1 = byte_or_zero(data, g + 1);
    let b2 = byte_or_zero(data, g + 2);
    if j % 4 == 0 {
        symbol(b0 / 4)
    } else if j % 4 == 1 {
        symbol(b0 % 4 * 16 + b1 / 16)
    } else if j % 4 == 2 {
        if g + 1 < data.len() {
            symbol(b1 % 16 * 4 + b2 / 64)
        } else {
            PAD
        }
    } else {
        if g + 2 < data.len() {
            symbol(b2 % 64)
        } else {
            PAD
        }
    }
}

/// The Base64 encoding of `data`, as ASCII codes.
pub open spec fn encoded(data: Seq<u8>) -> Seq<u8> {
    Seq::new(encoded_len(data.len()), |j: int| encoded_at(data, j))
}

fn symbol_of(v: u8) -> (c: u8)
    requires
        v < 64,
    ensures
        c == symbol(v as int),
{
    if v < 26 {
        65 + v
    } else if v < 52 {
        71 + v
    } else if v < 62 {
        v - 4
    } else if v == 62 {
        43
    } else {
        47
    }
}

/// Encodes `data` as Base64, one ASCII code per symbol.
pub fn encode_bytes(data: &[u8]) -> (out: Vec<u8>)
    ensures
        out@ == encoded(data@),
{
    let n: usize = data.len();
    let mut out: Vec<u8> = Vec::new();
    let mut i: usize = 0;
    while n - i >= 3
        invariant
            n == data@.len(),
            i <= n,
            i % 3 == 0,
            out@.len() == 4 * (i / 3),
            forall|j: int| 0 <= j < out@.len() ==> out@[j] == encoded_at(data@, j),
        decreases n - i,
    {
        let b0: u8 = data[i];
        let b1: u8 = data[i + 1];
        let b2: u8 = data[i + 2];
        out.push(symbol_of(b0 / 4));
        out.push(symbol_of(b0 % 4 * 16 + b1 / 16));
        out.push(symbol_of(b1 % 16 * 4 + b2 / 64));
        out.push(symbol_of(b2 % 64));
        i += 3;
    }
    if n - i == 1 {
        let b0: u8 = data[i];
        out.push(symbol_of(b0 / 4));
        out.push(symbol_of(b0 % 4 * 16));
        out.push(PAD);
        out.push(PAD);
    } else if n - i == 2 {
        let b0: u8 = data[i];
        let b1: u8 = data[i + 1];
        out.push(symbol_of(b0 / 4));
        out.push(symbol_of(b0 % 4 * 16 + b1 / 16));
        out.push(symbol_of(b1 % 16 * 4));
        out.push(PAD);
    }
    assert(out@ =~= encoded(data@));
    out
}

/// The 6-bit value that the symbol with ASCII code `c` stands for, if `c` is
/// in the alphabet.
pub open spec fn symbol_value(c: u8) -> Option<int> {
    if 65 <= c <= 90 {
        Some(c - 65)
    } else if 97 <= c <= 122 {
        Some(c - 71)
    } else if 48 <= c <= 57 {
        Some(c + 4)
    } else if c == 43 {
        Some(62)
    } else if c == 47 {
        Some(63)
    } else {
        None
    }
}

/// The bytes that `text` encodes: `Some(data)` when `text` is the encoding of
/// `data`, and `None` when it is the encoding of nothing.
pub open spec fn decoded(text: Seq<u8>) -> Option<Seq<u8>> {
    if exists|data: Seq<u8>| encoded(data) == text {
        Some(choose|data: Seq<u8>| encoded(data) == text)
    } else {
        None
    }
}

/// Whether `c` is the ASCII code of an alphabet symbol or of the padding.
pub open spec fn in_alphabet(c: u8) -> bool {
    symbol_value(c) is Some || c == PAD
}

/// Whether `c` is an alphabet symbol or the padding.
pub open spec fn char_in_alphabet(c: char) -> bool {
    c as u32 <= 0x7f && in_alphabet(c as u8)
}

/// The 6-bit value of the symbol `c`, and zero for anything else.
pub open spec fn value_or_zero(c: u8) -> int {
    match symbol_value(c) {
        Some(v) => v,
        None => 0,
    }
}

/// The number of padding symbols that end `text`: none, one or two.
pub open spec fn pad_count(text: Seq<u8>) -> int {
    if text.len() < 4 {
        0
    } else if text[text.len() - 2] == PAD {
        2
    } else if text[text.len() - 1] == PAD {
        1
    } else {
        0
    }
}

/// The number of bytes that a text of whole groups carries.
pub open spec fn payload_len(text: Seq<u8>) -> nat {
    (3 * (text.len() / 4) - pad_count(text)) as nat
}

/// Byte `i` of what `text` carries: eight of the twenty-four bits that the
/// four symbols of its group stand for.
pub open spec fn payload_at(text: Seq<u8>, i: int) -> u8 {
    let g = 4 * (i / 3);
    let v0 = value_or_zero(text[g]);
    let v1 = value_or_zero(text[g + 1]);
    let v2 = value_or_zero(text[g + 2]);
    let v3 = value_or_zero(text[g + 3]);
    if i % 3 == 0 {
        (v0 * 4 + v1 / 16) as u8
    } else if i % 3 == 1 {
        (v1 % 16 * 16 + v2 / 4) as u8
    } else {
        (v2 % 4 * 64 + v3) as u8
    }
}

/// The bytes that `text` carries, read symbol by symbol.
pub open spec fn payload(text: Seq<u8>) -> Seq<u8> {
    Seq::new(payload_len(text), |i: int| payload_at(text, i))
}

/// The shape of a last group: two symbols, then a third and a fourth symbol
/// or padding, with no bit set that belongs to no byte.
pub open spec fn last_group_ok(a: u8, b: u8, c: u8, d: u8) -> bool {
    &&& symbol_value(a) is Some
    &&& symbol_value(b) is Some
    &&& if c == PAD {
        d == PAD && value_or_zero(b) % 16 == 0
    } else if d == PAD {
        symbol_value(c) is Some && value_or_zero(c) % 4 == 0
    } else {
        symbol_value(c) is Some && symbol_value(d) is Some
    }
}

/// The texts that are encodings: whole groups of four, alphabet symbols
/// everywhere before the last group, and a well-shaped last group.
pub open spec fn is_canonical(text: Seq<u8>) -> bool {
    let n = text.len() as int;
    &&& n % 4 == 0
    &&& forall|j: int| 0 <= j < n - 4 ==> symbol_value(#[trigger] text[j]) is Some
    &&& n > 0 ==> last_group_ok(text[n - 4], text[n - 3], text[n - 2], text[n - 1])
}

proof fn lemma_symbol_value(v: int)
    requires
        0 <= v < 64,
    ensures
        symbol_value(symbol(v)) == Some(v),
        value_or_zero(symbol(v)) == v,
        symbol(v) != PAD,
{
}

proof fn lemma_value_symbol(c: u8)
    requires
        symbol_value(c) is Some,
    ensures
        0 <= value_or_zero(c) < 64,
        symbol(value_or_zero(c)) == c,
        c != PAD,
{
}

/// Three bytes, cut into four 6-bit values and put together again.
proof fn lemma_split_join(b0: int, b1: int, b2: int)
    requires
        0 <= b0 < 256,
        0 <= b1 < 256,
        0 <= b2 < 256,
    ensures
        ({
            let v0 = b0 / 4;
            let v1 = b0 % 4 * 16 + b1 / 16;
            let v2 = b1 % 16 * 4 + b2 / 64;
            let v3 = b2 % 64;
            &&& 0 <= v0 < 64 && 0 <= v1 < 64 && 0 <= v2 < 64 && 0 <= v3 < 64
            &&& v0 * 4 + v1 / 16 == b0
            &&& v1 % 16 * 16 + v2 / 4 == b1
            &&& v2 % 4 * 64 + v3 == b2
            &&& b1 == 0 ==> v1 % 16 == 0
            &&& b2 == 0 ==> v2 % 4 == 0
        }),
{
}

/// Four 6-bit values, joined into three bytes and cut up again.
proof fn lemma_join_split(v0: int, v1: int, v2: int, v3: int)
    requires
        0 <= v0 < 64,
        0 <= v1 < 64,
        0 <= v2 < 64,
        0 <= v3 < 64,
    ensures
        ({
            let b0 = v0 * 4 + v1 / 16;
            let b1 = v1 % 16 * 16 + v2 / 4;
            let b2 = v2 % 4 * 64 + v3;
            &&& 0 <= b0 < 256 && 0 <= b1 < 256 && 0 <= b2 < 256
            &&& b0 / 4 == v0
            &&& b0 % 4 * 16 + b1 / 16 == v1
            &&& b1 % 16 * 4 + b2 / 64 == v2
            &&& b2 % 64 == v3
            &&& v1 % 16 == 0 ==> b0 % 4 * 16 == v1
            &&& v2 % 4 == 0 ==> b1 % 16 * 4 == v2
        }),
{
}

/// Where the three bytes of group `q` stand.
proof fn lemma_thirds(q: int)
    ensures
        (3 * q) / 3 == q && (3 * q) % 3 == 0,
        (3 * q + 1) / 3 == q && (3 * q + 1) % 3 == 1,
        (3 * q + 2) / 3 == q && (3 * q + 2) % 3 == 2,
{
}

/// Where the four symbols of group `q` stand.
proof fn lemma_quarters(q: int)
    ensures
        (4 * q) / 4 == q && (4 * q) % 4 == 0,
        (4 * q + 1) / 4 == q && (4 * q + 1) % 4 == 1,
        (4 * q + 2) / 4 == q && (4 * q + 2) % 4 == 2,
        (4 * q + 3) / 4 == q && (4 * q + 3) % 4 == 3,
{
}

/// The four symbols of group `q` of an encoding, by the bytes they come from.
proof fn lemma_encoded_group(data: Seq<u8>, q: int)
    requires
        0 <= q,
        4 * q < encoded_len(data.len()),
    ensures
        ({
            let text = encoded(data);
            let n = data.len() as int;
            let b0 = byte_or_zero(data, 3 * q);
            let b1 = byte_or_zero(data, 3 * q + 1);
            let b2 = byte_or_zero(data, 3 * q + 2);
            &&& 3 * q < n
            &&& 4 * q + 3 < text.len()
            &&& 4 * q + 4 < text.len() ==> 3 * q + 2 < n
            &&& 4 * q + 4 == text.len() ==> n <= 3 * q + 3
            &&& text[4 * q] == symbol(b0 / 4)
            &&& text[4 * q + 1] == symbol(b0 % 4 * 16 + b1 / 16)
            &&& text[4 * q + 2] == if 3 * q + 1 < n {
                symbol(b1 % 16 * 4 + b2 / 64)
            } else {
                PAD
            }
            &&& text[4 * q + 3] == if 3 * q + 2 < n {
                symbol(b2 % 64)
            } else {
                PAD
            }
        }),
{
    let n = data.len() as int;
    let groups = (n + 2) / 3;
    assert(encoded(data).len() == 4 * groups);
    assert(q < groups);
    lemma_quarters(q);
    assert(encoded(data)[4 * q] == encoded_at(data, 4 * q));
    assert(encoded(data)[4 * q + 1] == encoded_at(data, 4 * q + 1));
    assert(encoded(data)[4 * q + 2] == encoded_at(data, 4 * q + 2));
    assert(encoded(data)[4 * q + 3] == encoded_at(data, 4 * q + 3));
}

/// Every symbol before the last group of an encoding is in the alphabet.
proof fn lemma_encoded_body(data: Seq<u8>, j: int)
    requires
        0 <= j < encoded_len(data.len()) - 4,
    ensures
        symbol_value(encoded(data)[j]) is Some,
{
    let q = j / 4;
    lemma_encoded_group(data, q);
    let b0 = byte_or_zero(data, 3 * q);
    let b1 = byte_or_zero(data, 3 * q + 1);
    let b2 = byte_or_zero(data, 3 * q + 2);
    lemma_split_join(b0, b1, b2);
    lemma_symbol_value(b0 / 4);
    lemma_symbol_value(b0 % 4 * 16 + b1 / 16);
    lemma_symbol_value(b1 % 16 * 4 + b2 / 64);
    lemma_symbol_value(b2 % 64);
    assert(j == 4 * q || j == 4 * q + 1 || j == 4 * q + 2 || j == 4 * q + 3);
}

/// The last group of an encoding has the shape that the decoder asks for, and
/// its padding tells how many bytes the data has.
proof fn lemma_encoded_tail(data: Seq<u8>)
    requires
        data.len() > 0,
    ensures
        ({
            let text = encoded(data);
            let m = text.len() as int;
            &&& m >= 4
            &&& last_group_ok(text[m - 4], text[m - 3], text[m - 2], text[m - 1])
            &&& payload_len(text) == data.len()
        }),
{
    let text = encoded(data);
    let n = data.len() as int;
    let m = text.len() as int;
    let q = (n + 2) / 3 - 1;
    assert(m == 4 * q + 4);
    lemma_encoded_group(data, q);
    let b0 = byte_or_zero(data, 3 * q);
    let b1 = byte_or_zero(data, 3 * q + 1);
    let b2 = byte_or_zero(data, 3 * q + 2);
    lemma_split_join(b0, b1, b2);
    lemma_symbol_value(b0 / 4);
    lemma_symbol_value(b0 % 4 * 16 + b1 / 16);
    lemma_symbol_value(b1 % 16 * 4 + b2 / 64);
    lemma_symbol_value(b2 % 64);
    assert(m / 4 == q + 1);
}

/// Byte `i` of the payload of an encoding is byte `i` of the data.
proof fn lemma_encoded_payload_at(data: Seq<u8>, i: int)
    requires
        0 <= i < data.len(),
    ensures
        payload_at(encoded(data), i) == data[i],
{
    let q = i / 3;
    assert(i == 3 * q || i == 3 * q + 1 || i == 3 * q + 2);
    assert(4 * q < encoded_len(data.len()));
    lemma_encoded_group(data, q);
    let b0 = byte_or_zero(data, 3 * q);
    let b1 = byte_or_zero(data, 3 * q + 1);
    let b2 = byte_or_zero(data, 3 * q + 2);
    lemma_split_join(b0, b1, b2);
    lemma_symbol_value(b0 / 4);
    lemma_symbol_value(b0 % 4 * 16 + b1 / 16);
    lemma_symbol_value(b1 % 16 * 4 + b2 / 64);
    lemma_symbol_value(b2 % 64);
}

proof fn lemma_encoded_is_canonical(data: Seq<u8>)
    ensures
        is_canonical(encoded(data)),
{
    let text = encoded(data);
    let m = text.len() as int;
    assert(m == 4 * ((data.len() + 2) / 3));
    assert(m % 4 == 0);
    assert forall|j: int| 0 <= j < m - 4 implies symbol_value(#[trigger] text[j]) is Some by {
        lemma_encoded_body(data, j);
    }
    if data.len() > 0 {
        lemma_encoded_tail(data);
    }
}

proof fn lemma_encoded_payload(data: Seq<u8>)
    ensures
        payload(encoded(data)) == data,
{
    let text = encoded(data);
    if data.len() > 0 {
        lemma_encoded_tail(data);
    }
    assert(payload_len(text) == data.len());
    assert forall|i: int| 0 <= i < data.len() implies payload(text)[i] == data[i] by {
        lemma_encoded_payload_at(data, i);
    }
    assert(payload(text) =~= data);
}

/// The 6-bit values of group `q` of a canonical text, with zero for padding.
proof fn lemma_canonical_group(text: Seq<u8>, q: int)
    requires
        is_canonical(text),
        0 <= q,
        4 * q < text.len(),
    ensures
        ({
            let n = payload_len(text) as int;
            let v0 = value_or_zero(text[4 * q]);
            let v1 = value_or_zero(text[4 * q + 1]);
            let v2 = value_or_zero(text[4 * q + 2]);
            let v3 = value_or_zero(text[4 * q + 3]);
            &&& 4 * q + 3 < text.len()
            &&& 0 <= v0 < 64 && 0 <= v1 < 64 && 0 <= v2 < 64 && 0 <= v3 < 64
            &&& 3 * q < n <= 3 * (text.len() / 4)
            &&& 4 * q + 4 < text.len() ==> 3 * q + 2 < n
            &&& text[4 * q] == symbol(v0)
            &&& text[4 * q + 1] == symbol(v1)
            &&& text[4 * q + 2] == if 3 * q + 1 < n {
                symbol(v2)
            } else {
                PAD
            }
            &&& text[4 * q + 3] == if 3 * q + 2 < n {
                symbol(v3)
            } else {
                PAD
            }
            &&& 3 * q + 1 >= n ==> v1 % 16 == 0 && v2 == 0
            &&& 3 * q + 2 >= n ==> v2 % 4 == 0 && v3 == 0
        }),
{
    let m = text.len() as int;
    assert(m % 4 == 0);
    assert(4 * q + 4 <= m);
    if 4 * q + 4 < m {
        assert(symbol_value(text[4 * q]) is Some);
        assert(symbol_value(text[4 * q + 1]) is Some);
        assert(symbol_value(text[4 * q + 2]) is Some);
        assert(symbol_value(text[4 * q + 3]) is Some);
        lemma_value_symbol(text[4 * q]);
        lemma_value_symbol(text[4 * q + 1]);
        lemma_value_symbol(text[4 * q + 2]);
        lemma_value_symbol(text[4 * q + 3]);
    } else {
        assert(last_group_ok(text[m - 4], text[m - 3], text[m - 2], text[m - 1]));
        lemma_value_symbol(text[m - 4]);
        lemma_value_symbol(text[m - 3]);
        if text[m - 2] != PAD {
            lemma_value_symbol(text[m - 2]);
            if text[m - 1] != PAD {
                lemma_value_symbol(text[m - 1]);
            }
        }
    }
}

/// Symbol `j` of the encoding of a canonical text's payload is symbol `j` of
/// the text.
proof fn lemma_canonical_encoded_at(text: Seq<u8>, j: int)
    requires
        is_canonical(text),
        0 <= j < text.len(),
    ensures
        encoded_len(payload_len(text)) == text.len(),
        encoded(payload(text))[j] == text[j],
{
    let data = payload(text);
    let n = data.len() as int;
    let q = j / 4;
    assert(j == 4 * q || j == 4 * q + 1 || j == 4 * q + 2 || j == 4 * q + 3);
    lemma_canonical_group(text, text.len() / 4 - 1);
    lemma_canonical_group(text, q);
    assert(encoded_len(data.len()) == text.len());
    lemma_encoded_group(data, q);
    let v0 = value_or_zero(text[4 * q]);
    let v1 = value_or_zero(text[4 * q + 1]);
    let v2 = value_or_zero(text[4 * q + 2]);
    let v3 = value_or_zero(text[4 * q + 3]);
    lemma_join_split(v0, v1, v2, v3);
    lemma_thirds(q);
    assert(byte_or_zero(data, 3 * q) == v0 * 4 + v1 / 16);
    assert(byte_or_zero(data, 3 * q + 1) == v1 % 16 * 16 + v2 / 4);
    assert(byte_or_zero(data, 3 * q + 2) == v2 % 4 * 64 + v3);
}

proof fn lemma_canonical_encoded(text: Seq<u8>)
    requires
        is_canonical(text),
    ensures
        encoded(payload(text)) == text,
{
    if text.len() > 0 {
        lemma_canonical_encoded_at(text, 0);
    }
    assert forall|j: int| 0 <= j < text.len() implies encoded(payload(text))[j] == text[j] by {
        lemma_canonical_encoded_at(text, j);
    }
    assert(encoded(payload(text)) =~= text);
}

/// Different data never share an encoding.
pub proof fn lemma_encoded_injective(a: Seq<u8>, b: Seq<u8>)
    requires
        encoded(a) == encoded(b),
    ensures
        a == b,
{
    lemma_encoded_payload(a);
    lemma_encoded_payload(b);
}

/// Decoding the encoding of any bytes gives those bytes back.
pub proof fn lemma_decode_encode(data: Seq<u8>)
    ensures
        decoded(encoded(data)) == Some(data),
{
    let text = encoded(data);
    let found = choose|d: Seq<u8>| encoded(d) == text;
    lemma_encoded_injective(found, data);
}

/// A text with a byte outside the alphabet decodes to nothing.
pub proof fn lemma_decoded_rejects_foreign(text: Seq<u8>, i: int)
    requires
        0 <= i < text.len(),
        !in_alphabet(text[i]),
    ensures
        decoded(text) is None,
{
    if exists|d: Seq<u8>| encoded(d) == text {
        let d = choose|d: Seq<u8>| encoded(d) == text;
        let q = i / 4;
        lemma_encoded_group(d, q);
        let b0 = byte_or_zero(d, 3 * q);
        let b1 = byte_or_zero(d, 3 * q + 1);
        let b2 = byte_or_zero(d, 3 * q + 2);
        lemma_split_join(b0, b1, b2);
        lemma_symbol_value(b0 / 4);
        lemma_symbol_value(b0 % 4 * 16 + b1 / 16);
        lemma_symbol_value(b1 % 16 * 4 + b2 / 64);
        lemma_symbol_value(b2 % 64);
        assert(i == 4 * q || i == 4 * q + 1 || i == 4 * q + 2 || i == 4 * q + 3);
    }
}

/// A text that decodes is the encoding of what it decodes to.
pub proof fn lemma_encode_decode(text: Seq<u8>)
    requires
        decoded(text) is Some,
    ensures
        encoded(decoded(text).unwrap()) == text,
{
}

/// A text decodes exactly when it is canonical, and then to its payload.
pub proof fn lemma_decoded_canonical(text: Seq<u8>)
    ensures
        decoded(text) == if is_canonical(text) {
            Some(payload(text))
        } else {
            None
        },
{
    if is_canonical(text) {
        lemma_canonical_encoded(text);
        lemma_decode_encode(payload(text));
    } else {
        if exists|d: Seq<u8>| encoded(d) == text {
            let d = choose|d: Seq<u8>| encoded(d) == text;
            lemma_encoded_is_canonical(d);
        }
    }
}

fn value_of(c: u8) -> (v: Option<u8>)
    ensures
        match v {
            Some(x) => symbol_value(c) == Some(x as int),
            None => symbol_value(c) is None,
        },
{
    if 65 <= c && c <= 90 {
        Some(c - 65)
    } else if 97 <= c && c <= 122 {
        Some(c - 71)
    } else if 48 <= c && c <= 57 {
        Some(c + 4)
    } else if c == 43 {
        Some(62)
    } else if c == 47 {
        Some(63)
    } else {
        None
    }
}

/// The 6-bit values of four symbols, if all four are in the alphabet.
fn values_of(a: u8, b: u8, c: u8, d: u8) -> (res: Option<(u8, u8, u8, u8)>)
    ensures
        match res {
            Some(v) => {
                &&& symbol_value(a) == Some(v.0 as int)
                &&& symbol_value(b) == Some(v.1 as int)
                &&& symbol_value(c) == Some(v.2 as int)
                &&& symbol_value(d) == Some(v.3 as int)
            },
            None => {
                ||| symbol_value(a) is None
                ||| symbol_value(b) is None
                ||| symbol_value(c) is None
                ||| symbol_value(d) is None
            },
        },
{
    match (value_of(a), value_of(b), value_of(c), value_of(d)) {
        (Some(v0), Some(v1), Some(v2), Some(v3)) => Some((v0, v1, v2, v3)),
        _ => None,
    }
}

/// Decodes `text` when it has the shape the decoder accepts.
fn decode_canonical(text: &[u8]) -> (res: Option<Vec<u8>>)
    ensures
        match res {
            Some(data) => is_canonical(text@) && data@ == payload(text@),
            None => !is_canonical(text@),
        },
{
    let n: usize = text.len();
    if n % 4 != 0 {
        return None;
    }
    let mut out: Vec<u8> = Vec::new();
    if n == 0 {
        assert(out@ =~= payload(text@));
        return Some(out);
    }
    let body: usize = n - 4;
    let mut i: usize = 0;
    while i < body
        invariant
            n == text@.len(),
            n % 4 == 0,
            body == n - 4,
            i % 4 == 0,
            i <= body,
            forall|j: int| 0 <= j < i ==> symbol_value(#[trigger] text@[j]) is Some,
            out@.len() == 3 * (i / 4),
            forall|k: int| 0 <= k < out@.len() ==> out@[k] == payload_at(text@, k),
        decreases body - i,
    {
        let (v0, v1, v2, v3) = match values_of(text[i], text[i + 1], text[i + 2], text[i + 3]) {
            Some(values) => values,
            None => {
                return None;
            },
        };
        proof {
            lemma_thirds(i as int / 4);
        }
        out.push(v0 * 4 + v1 / 16);
        out.push(v1 % 16 * 16 + v2 / 4);
        out.push(v2 % 4 * 64 + v3);
        i += 4;
    }
    // In the last group padding counts as `A`, the symbol of value zero.
    let padded: usize = if text[i + 2] == PAD {
        2
    } else if text[i + 3] == PAD {
        1
    } else {
        0
    };
    let c: u8 = if padded == 2 { 65 } else { text[i + 2] };
    let d: u8 = if padded >= 1 { 65 } else { text[i + 3] };
    if padded == 2 && text[i + 3] != PAD {
        return None;
    }
    let (v0, v1, v2, v3) = match values_of(text[i], text[i + 1], c, d) {
        Some(values) => values,
        None => {
            return None;
        },
    };
    if (padded == 2 && v1 % 16 != 0) || (padded == 1 && v2 % 4 != 0) {
        return None;
    }
    proof {
        assert(n as int / 4 == i as int / 4 + 1);
        lemma_thirds(i as int / 4);
    }
    out.push(v0 * 4 + v1 / 16);
    if padded < 2 {
        out.push(v1 % 16 * 16 + v2 / 4);
    }
    if padded < 1 {
        out.push(v2 % 4 * 64 + v3);
    }
    assert(out@ =~= payload(text@));
    Some(out)
}

/// Decodes Base64 given as ASCII codes. Succeeds exactly on the encodings of
/// byte sequences, and then returns the bytes encoded.
pub fn decode_bytes(text: &[u8]) -> (res: Result<Vec<u8>, CryptorError>)
    ensures
        match res {
            Ok(data) => decoded(text@) == Some(data@) && encoded(data@) == text@,
            Err(e) => e == CryptorError::InvalidEncoding && decoded(text@) is None,
        },
{
    proof {
        lemma_decoded_canonical(text@);
    }
    match decode_canonical(text) {
        Some(data) => Ok(data),
        None => Err(CryptorError::InvalidEncoding),
    }
}

/// The Base64 encoding of `data`, as text.
pub open spec fn encoded_text(data: Seq<u8>) -> Seq<char> {
    Seq::new(encoded_len(data.len()), |j: int| encoded_at(data, j) as char)
}

/// The bytes that the text encodes: `Some(data)` when `text` is the encoding
/// of `data`, and `None` when it is the encoding of nothing.
pub open spec fn decoded_text(text: Seq<char>) -> Option<Seq<u8>> {
    if exists|data: Seq<u8>| encoded_text(data) == text {
        Some(choose|data: Seq<u8>| encoded_text(data) == text)
    } else {
        None
    }
}

/// `String::push` of the standard library appends the one character to the
/// end of the string and leaves the rest as it was.
pub assume_specification[ String::push ](text: &mut String, c: char)
    ensures
        final(text)@ == old(text)@.push(c),
;

/// An encoding holds ASCII only, so its UTF-8 bytes are its symbols' codes.
proof fn lemma_encoded_text_utf8(data: Seq<u8>)
    ensures
        encode_utf8(encoded_text(data)) == encoded(data),
{
    let text = encoded_text(data);
    assert forall|j: int| 0 <= j < text.len() implies 0 <= #[trigger] text[j] as int <= 0x7f
        && text[j] as u8 == encoded_at(data, j) by {
        let c = encoded_at(data, j);
        assert(c <= 122);
        assert(text[j] == c as char);
    }
    assert(is_ascii_chars(text));
    is_ascii_chars_encode_utf8(text);
    assert(encode_utf8(text) =~= encoded(data));
}

/// A text is the encoding of `data` exactly when its UTF-8 bytes are.
proof fn lemma_text_iff_utf8(text: Seq<char>, data: Seq<u8>)
    ensures
        text == encoded_text(data) <==> encode_utf8(text) == encoded(data),
{
    lemma_encoded_text_utf8(data);
    encode_utf8_decode_utf8(text);
    encode_utf8_decode_utf8(encoded_text(data));
}

proof fn lemma_decoded_text_utf8(text: Seq<char>)
    ensures
        decoded_text(text) == decoded(encode_utf8(text)),
{
    let bytes = encode_utf8(text);
    if exists|d: Seq<u8>| encoded_text(d) == text {
        let d = choose|d: Seq<u8>| encoded_text(d) == text;
        lemma_text_iff_utf8(text, d);
        lemma_decode_encode(d);
    } else {
        if exists|d: Seq<u8>| encoded(d) == bytes {
            let d = choose|d: Seq<u8>| encoded(d) == bytes;
            lemma_text_iff_utf8(text, d);
        }
    }
}

/// Decoding the text that encodes any bytes gives those bytes back.
pub proof fn lemma_decode_encode_text(data: Seq<u8>)
    ensures
        decoded_text(encoded_text(data)) == Some(data),
{
    lemma_decoded_text_utf8(encoded_text(data));
    lemma_encoded_text_utf8(data);
    lemma_decode_encode(data);
}

/// A text with a character outside the alphabet decodes to nothing.
pub proof fn lemma_decoded_text_rejects_foreign(text: Seq<char>, i: int)
    requires
        0 <= i < text.len(),
        !char_in_alphabet(text[i]),
    ensures
        decoded_text(text) is None,
{
    if exists|d: Seq<u8>| encoded_text(d) == text {
        let d = choose|d: Seq<u8>| encoded_text(d) == text;
        assert(text[i] == encoded_at(d, i) as char);
        assert(encoded(d)[i] == encoded_at(d, i));
        lemma_decode_encode(d);
        if !in_alphabet(encoded(d)[i]) {
            lemma_decoded_rejects_foreign(encoded(d), i);
        }
    }
}

/// Encodes `data` as Base64 text.
pub fn encode(data: &[u8]) -> (text: String)
    ensures
        text@ == encoded_text(data@),
{
    let symbols = encode_bytes(data);
    let mut text = String::new();
    let mut i: usize = 0;
    while i < symbols.len()
        invariant
            symbols@ == encoded(data@),
            i <= symbols@.len(),
            text@.len() == i,
            forall|j: int| 0 <= j < i ==> text@[j] == symbols@[j] as char,
        decreases symbols@.len() - i,
    {
        text.push(symbols[i] as char);
        i += 1;
    }
    assert(text@ =~= encoded_text(data@));
    text
}

/// Decodes Base64 text. Succeeds exactly on the encodings of byte sequences,
/// and then returns the bytes encoded; any other text is refused.
pub fn decode(data: &str) -> (res: Result<Vec<u8>, CryptorError>)
    ensures
        match res {
            Ok(bytes) => decoded_text(data@) == Some(bytes@) && encoded_text(bytes@) == data@,
            Err(e) => e == CryptorError::InvalidEncoding && decoded_text(data@) is None,
        },
{
    proof {
        lemma_decoded_text_utf8(data@);
    }
    decode_bytes(data.as_bytes())
}

} // verus!
