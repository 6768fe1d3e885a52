//! The channel cipher: key stream XOR followed by the thrice-nested transformation, and the
//! reverse pass that the receiving side applies.
use vstd::prelude::*;
use vstd::wrapping::u8_specs;
use crate::bridge_core::utils::{apply_thrice_nested_entropy, thrice_nested};
use crate::scale::copy_range;

verus! {

/// Each byte XORed with the key byte at the same position, the key repeating as needed.
pub open spec fn xor_with_key(data: Seq<u8>, key: Seq<u8>) -> Seq<u8> {
    Seq::new(data.len(), |i: int| data[i] ^ key[i % (key.len() as int)])
}

/// Every byte of a key is used: a byte of the data at a position that the key covers is XORed
/// with the key byte at that very position, and a byte one key length further on is XORed with
/// the same key byte as the byte a key length before it.
pub proof fn lemma_key_stream_uses_every_key_byte(data: Seq<u8>, key: Seq<u8>)
    requires
        key.len() > 0,
    ensures
        xor_with_key(data, key).len() == data.len(),
        forall|i: int| 0 <= i < data.len() && i < key.len() ==> #[trigger] xor_with_key(data, key)[i] == data[i] ^ key[i],
        forall|i: int| 0 <= i && i + key.len() < data.len()
            ==> #[trigger] xor_with_key(data, key)[i + key.len()] ^ data[i + key.len()]
                == xor_with_key(data, key)[i] ^ data[i],
{
    assert forall|i: int| 0 <= i < data.len() && i < key.len() implies #[trigger] xor_with_key(data, key)[i] == data[i] ^ key[i] by {
        vstd::arithmetic::div_mod::lemma_small_mod(i as nat, key.len());
    }
    assert forall|i: int| 0 <= i && i + key.len() < data.len()
        implies #[trigger] xor_with_key(data, key)[i + key.len()] ^ data[i + key.len()] == xor_with_key(data, key)[i] ^ data[i] by {
        let k = key.len() as int;
        vstd::arithmetic::div_mod::lemma_mod_add_multiples_vanish(i, k);
        let a = data[i + k];
        let b = data[i];
        let c = key[i % k];
        assert((a ^ c) ^ a == c) by (bit_vector);
        assert((b ^ c) ^ b == c) by (bit_vector);
    }
}

/// XORing with the same key stream twice gives the data back.
pub proof fn lemma_key_stream_involutive(data: Seq<u8>, key: Seq<u8>)
    requires
        key.len() > 0,
    ensures
        xor_with_key(xor_with_key(data, key), key) == data,
{
    assert forall|i: int| 0 <= i < data.len() implies #[trigger] xor_with_key(xor_with_key(data, key), key)[i] == data[i] by {
        let a = data[i];
        let c = key[i % (key.len() as int)];
        assert((a ^ c) ^ c == a) by (bit_vector);
    }
    assert(xor_with_key(xor_with_key(data, key), key) =~= data);
}

/// The encryption of `data` under `key`.
pub open spec fn encrypt_spec(data: Seq<u8>, key: Seq<u8>) -> Seq<u8> {
    thrice_nested(xor_with_key(data, key))
}

/// Reverse cobalt layer, computed from the last position down: each byte loses 0x27 and is
/// XORed with the already reversed byte after it; the last byte with the (unreversed) first byte.
pub open spec fn rev_co_value(e: Seq<u8>, i: int) -> u8
    decreases e.len() - i,
{
    if i >= e.len() - 1 {
        u8_specs::wrapping_sub(e[e.len() - 1], 0x27) ^ e[0]
    } else {
        u8_specs::wrapping_sub(e[i], 0x27) ^ rev_co_value(e, i + 1)
    }
}

pub open spec fn rev_co_layer(e: Seq<u8>) -> Seq<u8> {
    Seq::new(e.len(), |i: int| rev_co_value(e, i))
}

/// Reverse nickel layer: each byte divided by 0x28 less the (unreversed) byte before it; the
/// first byte less the already reversed last byte, or itself when it is the only byte.
pub open spec fn rev_ni_value(c: Seq<u8>, i: int) -> u8 {
    let n = c.len();
    if i > 0 {
        u8_specs::wrapping_sub(c[i] / 0x28, c[i - 1])
    } else if n == 1 {
        u8_specs::wrapping_sub(c[0] / 0x28, c[0])
    } else {
        u8_specs::wrapping_sub(c[0] / 0x28, u8_specs::wrapping_sub(c[n - 1] / 0x28, c[n - 2]))
    }
}

pub open spec fn rev_ni_layer(c: Seq<u8>) -> Seq<u8> {
    Seq::new(c.len(), |i: int| rev_ni_value(c, i))
}

/// Reverse iron layer: each byte less 0xFE, divided by 0x26.
pub open spec fn rev_fe_layer(b: Seq<u8>) -> Seq<u8> {
    Seq::new(b.len(), |i: int| u8_specs::wrapping_sub(b[i], 0xFE) / 0x26)
}

/// The decryption of `data` under `key`.
pub open spec fn decrypt_spec(data: Seq<u8>, key: Seq<u8>) -> Seq<u8> {
    xor_with_key(rev_fe_layer(rev_ni_layer(rev_co_layer(data))), key)
}

/// XOR every byte with the key byte at the same position, the key repeating.
fn xor_key_stream(data: &mut Vec<u8>, key: &[u8])
    requires
        key@.len() > 0 || old(data)@.len() == 0,
    ensures
        final(data)@ == xor_with_key(old(data)@, key@),
        final(data)@.len() == old(data)@.len(),
        forall|i: int| 0 <= i < old(data)@.len()
            ==> #[trigger] final(data)@[i] == old(data)@[i] ^ key@[i % (key@.len() as int)],
{
    let ghost d0 = data@;
    let mut i: usize = 0;
    while i < data.len()
        invariant
            data@.len() == d0.len(),
            key@.len() > 0 || d0.len() == 0,
            0 <= i <= d0.len(),
            forall|j: int| 0 <= j < i ==> data@[j] == d0[j] ^ key@[j % (key@.len() as int)],
            forall|j: int| i <= j < d0.len() ==> data@[j] == d0[j],
        decreases d0.len() - i,
    {
        let k = key[i % key.len()];
        let v = data[i] ^ k;
        data.set(i, v);
        i = i + 1;
    }
    assert(data@ =~= xor_with_key(d0, key@));
}

/// Encrypt data with a quantum key: XOR with the key stream, then the thrice-nested
/// transformation. An empty key is only accepted for empty data.
pub fn encrypt_with_quantum_key(data: &[u8], key_material: &[u8]) -> (encrypted: Vec<u8>)
    requires
        key_material@.len() > 0 || data@.len() == 0,
    ensures
        encrypted@ == encrypt_spec(data@, key_material@),
        encrypted@.len() == data@.len(),
{
    let mut result = copy_range(data, 0, data.len());
    assert(data@.subrange(0, data@.len() as int) =~= data@);
    xor_key_stream(&mut result, key_material);
    apply_thrice_nested_entropy(&mut result);
    result
}

/// Decrypt data with a quantum key: the three layers undone in reverse order, then the key
/// stream. An empty key is only accepted for empty data.
pub fn decrypt_with_quantum_key(encrypted_data: &[u8], key_material: &[u8]) -> (decrypted: Vec<u8>)
    requires
        key_material@.len() > 0 || encrypted_data@.len() == 0,
    ensures
        decrypted@ == decrypt_spec(encrypted_data@, key_material@),
        decrypted@.len() == encrypted_data@.len(),
{
    let mut result = copy_range(encrypted_data, 0, encrypted_data.len());
    assert(encrypted_data@.subrange(0, encrypted_data@.len() as int) =~= encrypted_data@);
    let n = result.len();
    let ghost e = result@;
    // Reverse layer 3 (cobalt)
    let mut i: usize = n;
    while i > 0
        invariant
            n == result@.len(),
            n == e.len(),
            0 <= i <= n,
            forall|j: int| i <= j < n ==> result@[j] == rev_co_value(e, j),
            forall|j: int| 0 <= j < i ==> result@[j] == e[j],
        decreases i,
    {
        i = i - 1;
        let next = if i < n - 1 { result[i + 1] } else { result[0] };
        let v = result[i].wrapping_sub(0x27) ^ next;
        proof {
            if i < n - 1 {
                assert(result@[i + 1] == rev_co_value(e, i + 1));
            } else {
                assert(result@[0] == e[0]);
            }
            assert(result@[i as int] == e[i as int]);
        }
        assert(v == rev_co_value(e, i as int));
        result.set(i, v);
    }
    let ghost c = result@;
    assert(c =~= rev_co_layer(e));
    // Reverse layer 2 (nickel)
    let mut i: usize = n;
    while i > 0
        invariant
            n == result@.len(),
            n == c.len(),
            0 <= i <= n,
            forall|j: int| i <= j < n ==> result@[j] == rev_ni_value(c, j),
            forall|j: int| 0 <= j < i ==> result@[j] == c[j],
        decreases i,
    {
        i = i - 1;
        let prev = if i > 0 { result[i - 1] } else { result[n - 1] };
        let v = (result[i] / 0x28).wrapping_sub(prev);
        proof {
            if i > 0 {
                assert(result@[i - 1] == c[i - 1]);
            } else if n == 1 {
                assert(result@[0] == c[0]);
            } else {
                assert(result@[n - 1] == rev_ni_value(c, n - 1));
            }
            assert(result@[i as int] == c[i as int]);
        }
        assert(v == rev_ni_value(c, i as int));
        result.set(i, v);
    }
    let ghost b = result@;
    assert(b =~= rev_ni_layer(c));
    // Reverse layer 1 (iron)
    let mut i: usize = n;
    while i > 0
        invariant
            n == result@.len(),
            n == b.len(),
            0 <= i <= n,
            forall|j: int| i <= j < n ==> result@[j] == u8_specs::wrapping_sub(b[j], 0xFE) / 0x26,
            forall|j: int| 0 <= j < i ==> result@[j] == b[j],
        decreases i,
    {
        i = i - 1;
        let v = result[i].wrapping_sub(0xFE) / 0x26;
        result.set(i, v);
    }
    assert(result@ =~= rev_fe_layer(b));
    xor_key_stream(&mut result, key_material);
    result
}

} // verus!
