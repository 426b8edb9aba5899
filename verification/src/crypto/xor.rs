//! Repeating-key XOR.
//!
//! This mode only obscures data. It has no salt, no per-message key and no
//! authentication, and whoever knows the key, or a stretch of plaintext, reads
//! everything. It is kept for demonstrations and must not be mistaken for
//! encryption.

use vstd::prelude::*;

verus! {

/// The key that the XOR mode uses: the ASCII bytes of `supersecretkey`.
pub const XOR_KEY: [u8; 14] = [
    0x73, 0x75, 0x70, 0x65, 0x72, 0x73, 0x65, 0x63, 0x72, 0x65, 0x74, 0x6b, 0x65, 0x79,
];

/// `data` with byte `i` XORed with byte `i mod key.len()` of `key`.
pub open spec fn xor_spec(key: Seq<u8>, data: Seq<u8>) -> Seq<u8>
    recommends
        key.len() > 0,
{
    Seq::new(data.len(), |i: int| data[i] ^ key[i % key.len() as int])
}

/// Applying the same key twice gives the data back, so one operation both
/// hides and recovers.
pub proof fn lemma_xor_involution(key: Seq<u8>, data: Seq<u8>)
    requires
        key.len() > 0,
    ensures
        xor_spec(key, xor_spec(key, data)) == data,
{
    let once = xor_spec(key, data);
    let twice = xor_spec(key, once);
    assert forall|i: int| 0 <= i < data.len() implies twice[i] == data[i] by {
        let d: u8 = data[i];
        let k: u8 = key[i % key.len() as int];
        assert((d ^ k) ^ k == d) by (bit_vector);
    }
    assert(twice =~= data);
}

/// XORs `data` with `key`, repeating the key as often as needed.
pub fn xor_encrypt(key: &[u8], data: &[u8]) -> (out: Vec<u8>)
    requires
        key@.len() > 0,
    ensures
        out@ == xor_spec(key@, data@),
{
    let mut out: Vec<u8> = Vec::with_capacity(data.len());
    let mut i: usize = 0;
    while i < data.len()
        invariant
            key@.len() > 0,
            i <= data@.len(),
            out@.len() == i,
            forall|j: int| 0 <= j < i ==> out@[j] == data@[j] ^ key@[j % key@.len() as int],
        decreases data@.len() - i,
    {
        let key_byte: u8 = key[i % key.len()];
        out.push(data[i] ^ key_byte);
        i += 1;
    }
    assert(out@ =~= xor_spec(key@, data@));
    out
}

/// Undoes `xor_encrypt` with the same key, by doing the same again.
pub fn xor_decrypt(key: &[u8], data: &[u8]) -> (out: Vec<u8>)
    requires
        key@.len() > 0,
    ensures
        out@ == xor_spec(key@, data@),
        forall|plain: Seq<u8>| data@ == xor_spec(key@, plain) ==> out@ == plain,
{
    let out = xor_encrypt(key, data);
    proof {
        assert forall|plain: Seq<u8>| data@ == xor_spec(key@, plain) implies out@ == plain by {
            lemma_xor_involution(key@, plain);
        }
    }
    out
}

} // verus!
