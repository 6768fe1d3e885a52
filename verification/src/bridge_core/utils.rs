//! Helper functions for bridge operations.
use vstd::prelude::*;
use vstd::wrapping::u8_specs;
use crate::bridge_core::{BridgeAccountId, account_parts};
use crate::hashing::{blake3_digest, blake3_hash};
use crate::scale::{scale_bytes, scale_encode_bytes, append_bytes, copy_range};
use crate::weights::Weight;

verus! {

/// First (iron) layer of the thrice-nested transformation, on one byte.
pub open spec fn fe_byte(x: u8) -> u8 {
    u8_specs::wrapping_add(u8_specs::wrapping_mul(x, 0x26), 0xFE)
}

/// The iron layer applied to every byte.
pub open spec fn fe_layer(d: Seq<u8>) -> Seq<u8> {
    Seq::new(d.len(), |i: int| fe_byte(d[i]))
}

/// The nickel layer at position `i`: each byte is mixed with the already mixed byte before it;
/// the first byte is mixed with the (iron-layer) last byte.
pub open spec fn ni_value(a: Seq<u8>, i: int) -> u8
    decreases i,
{
    if i <= 0 {
        u8_specs::wrapping_mul(u8_specs::wrapping_add(a[0], a[a.len() - 1]), 0x28)
    } else {
        u8_specs::wrapping_mul(u8_specs::wrapping_add(a[i], ni_value(a, i - 1)), 0x28)
    }
}

/// The nickel layer applied to a whole sequence.
pub open spec fn ni_layer(a: Seq<u8>) -> Seq<u8> {
    Seq::new(a.len(), |i: int| ni_value(a, i))
}

/// The byte that the cobalt layer mixes into position `i`: the following byte, still unmixed;
/// for the last position, the first byte, which is already mixed unless it is the same byte.
pub open spec fn co_next(b: Seq<u8>, i: int) -> u8 {
    if i < b.len() - 1 {
        b[i + 1]
    } else if b.len() == 1 {
        b[0]
    } else {
        u8_specs::wrapping_add(b[0] ^ b[1], 0x27)
    }
}

/// The cobalt layer applied to a whole sequence.
pub open spec fn co_layer(b: Seq<u8>) -> Seq<u8> {
    Seq::new(b.len(), |i: int| u8_specs::wrapping_add(b[i] ^ co_next(b, i), 0x27))
}

/// The thrice-nested (Fe-Ni-Co) entropy transformation of a byte string.
/// The empty string is left as it is.
pub open spec fn thrice_nested(d: Seq<u8>) -> Seq<u8> {
    if d.len() == 0 {
        d
    } else {
        co_layer(ni_layer(fe_layer(d)))
    }
}

/// Apply thrice-nested entropy transformation to secure bridge messages.
pub fn apply_thrice_nested_entropy(data: &mut Vec<u8>)
    ensures
        final(data)@ == thrice_nested(old(data)@),
        final(data)@.len() == old(data)@.len(),
{
    let n = data.len();
    if n == 0 {
        return;
    }
    let ghost d0 = data@;
    // First layer - iron (Fe)
    let mut i: usize = 0;
    while i < n
        invariant
            n == data@.len(),
            n == d0.len(),
            i <= n,
            forall|j: int| 0 <= j < i ==> data@[j] == fe_byte(d0[j]),
            forall|j: int| i <= j < n ==> data@[j] == d0[j],
        decreases n - i,
    {
        let v = data[i].wrapping_mul(0x26).wrapping_add(0xFE);
        data.set(i, v);
        i = i + 1;
    }
    let ghost a = data@;
    assert(a =~= fe_layer(d0));
    // Second layer - nickel (Ni)
    let mut i: usize = 0;
    while i < n
        invariant
            n == data@.len(),
            n == a.len(),
            0 < n,
            i <= n,
            forall|j: int| 0 <= j < i ==> data@[j] == ni_value(a, j),
            forall|j: int| i <= j < n ==> data@[j] == a[j],
        decreases n - i,
    {
        let prev = if i > 0 { data[i - 1] } else { data[n - 1] };
        let v = data[i].wrapping_add(prev).wrapping_mul(0x28);
        proof {
            if i > 0 {
                assert(data@[i - 1] == ni_value(a, i - 1));
            } else {
                assert(data@[n - 1] == a[n - 1]);
            }
            assert(data@[i as int] == a[i as int]);
        }
        assert(v == ni_value(a, i as int));
        data.set(i, v);
        i = i + 1;
    }
    let ghost b = data@;
    assert(b =~= ni_layer(a));
    // Third layer - cobalt (Co)
    let mut i: usize = 0;
    while i < n
        invariant
            n == data@.len(),
            n == b.len(),
            0 < n,
            i <= n,
            forall|j: int| 0 <= j < i ==> data@[j] == #[trigger] u8_specs::wrapping_add(b[j] ^ co_next(b, j), 0x27),
            forall|j: int| i <= j < n ==> data@[j] == b[j],
        decreases n - i,
    {
        let next = if i < n - 1 { data[i + 1] } else { data[0] };
        let v = (data[i] ^ next).wrapping_add(0x27);
        proof {
            if i < n - 1 {
                assert(data@[i + 1] == b[i + 1]);
            } else if n == 1 {
                assert(data@[0] == b[0]);
            } else {
                assert(data@[0] == u8_specs::wrapping_add(b[0] ^ co_next(b, 0), 0x27));
            }
            assert(data@[i as int] == b[i as int]);
        }
        assert(next == co_next(b, i as int));
        data.set(i, v);
        i = i + 1;
    }
    assert(data@ =~= co_layer(b));
}

/// Mixing two bytes in the nickel layer: their sum times 0x28, modulo 256.
proof fn lemma_nickel_mix(x: u8, y: u8)
    ensures
        u8_specs::wrapping_mul(u8_specs::wrapping_add(x, y), 0x28) as int == ((x + y) * 40) % 256,
{
    let s = x + y;
    if s > 255 {
        assert(s * 40 == 256 * 40 + (s - 256) * 40);
        vstd::arithmetic::div_mod::lemma_mod_multiples_vanish(40, (s - 256) * 40, 256);
    }
}

/// The nickel layer closes a ring: its first byte mixes the first byte with the last byte of
/// the whole input, whatever its length, and every other byte mixes the input byte at its
/// position with the already mixed byte before it (mixing: the sum times 0x28, modulo 256).
pub proof fn lemma_nickel_layer(a: Seq<u8>)
    requires
        a.len() > 0,
    ensures
        ni_layer(a).len() == a.len(),
        ni_layer(a)[0] as int == ((a[0] + a[a.len() - 1]) * 40) % 256,
        forall|i: int| 0 < i < a.len() ==> #[trigger] ni_layer(a)[i] as int == ((a[i] + ni_layer(a)[i - 1]) * 40) % 256,
{
    lemma_nickel_mix(a[0], a[a.len() - 1]);
    assert forall|i: int| 0 < i < a.len() implies #[trigger] ni_layer(a)[i] as int == ((a[i] + ni_layer(a)[i - 1]) * 40) % 256 by {
        lemma_nickel_mix(a[i], ni_value(a, i - 1));
    }
}

/// The cobalt layer also closes a ring: each byte is XORed with the unmixed byte after it, the
/// last byte with the already mixed first byte (with itself when it is the only byte), and 0x27
/// is added, modulo 256.
pub proof fn lemma_cobalt_layer(b: Seq<u8>)
    requires
        b.len() > 0,
    ensures
        co_layer(b).len() == b.len(),
        forall|i: int| 0 <= i < b.len() - 1 ==> #[trigger] co_layer(b)[i] as int == ((b[i] ^ b[i + 1]) + 0x27) % 256,
        b.len() > 1 ==> co_layer(b)[b.len() - 1] as int == ((b[b.len() - 1] ^ co_layer(b)[0]) + 0x27) % 256,
        b.len() == 1 ==> co_layer(b)[0] as int == ((b[0] ^ b[0]) + 0x27) % 256,
{
}

/// In the thrice-nested transformation of a non-empty string, the nickel layer's first byte
/// mixes the iron-layer images of the string's first and last bytes, whatever its length.
pub proof fn lemma_thrice_nested_ring(d: Seq<u8>)
    requires
        d.len() > 0,
    ensures
        thrice_nested(d) == co_layer(ni_layer(fe_layer(d))),
        ni_layer(fe_layer(d))[0] as int == ((fe_byte(d[0]) + fe_byte(d[d.len() - 1])) * 40) % 256,
        thrice_nested(d).len() == d.len(),
{
    lemma_nickel_layer(fe_layer(d));
}

/// Generate a quantum-secure hash using BLAKE3.
pub fn quantum_secure_hash(data: &[u8]) -> (digest: [u8; 32])
    ensures
        digest@ == blake3_digest(data@),
{
    blake3_hash(data)
}

/// Base weight of a bridge operation plus a per-byte weight.
pub open spec fn bridge_ref_time(message_size: nat) -> int {
    let t = 10_000_000 + message_size * 1_000;
    if t > u64::MAX { u64::MAX as int } else { t as int }
}

/// Calculate weight for bridge operations: ten million plus one thousand per byte, saturating,
/// with no proof size. The per-byte product itself must fit in a `u64`.
pub fn calculate_bridge_weight(message_size: usize) -> (w: Weight)
    requires
        message_size * 1_000 <= u64::MAX,
    ensures
        w.ref_time == bridge_ref_time(message_size as nat),
        w.proof_size == 0,
{
    Weight::from_parts(10_000_000u64.saturating_add((message_size as u64) * 1_000u64), 0)
}

/// The bytes `...`.
pub open spec fn ellipsis() -> Seq<u8> {
    seq![46u8, 46u8, 46u8]
}

/// The SCALE encoding of an account: its variant index, then its bytes with their length.
pub open spec fn account_encoding(account: BridgeAccountId) -> Seq<u8> {
    seq![account_parts(account).0] + scale_bytes(account_parts(account).1)
}

/// The short display form of an account: a long Tezos address keeps its first and last four
/// bytes around `...`; any other account shows the first ten bytes of its encoding, or `?` when
/// the encoding is shorter.
pub open spec fn account_display(account: BridgeAccountId) -> Seq<u8> {
    match account {
        BridgeAccountId::Tezos(addr) => {
            if addr@.len() > 8 {
                addr@.subrange(0, 4) + ellipsis() + addr@.subrange(addr@.len() - 4, addr@.len() as int)
            } else {
                addr@
            }
        },
        _ => {
            let enc = account_encoding(account);
            if enc.len() >= 10 {
                enc.subrange(0, 10)
            } else {
                seq![63u8]
            }
        },
    }
}

/// The bytes that an account holds, as a slice.
fn account_bytes(account: &BridgeAccountId) -> (bytes: &[u8])
    ensures
        bytes@ == account_parts(*account).1,
{
    match account {
        BridgeAccountId::Tezos(a) => a.as_slice(),
        BridgeAccountId::Algorand(a) => a.as_slice(),
        BridgeAccountId::Solana(a) => a.as_slice(),
        BridgeAccountId::Cardano(a) => a.as_slice(),
        BridgeAccountId::Substrate(a) => a.as_slice(),
        BridgeAccountId::Ethereum(a) => a.as_slice(),
        BridgeAccountId::Bitcoin(a) => a.as_slice(),
        BridgeAccountId::Cosmos(a) => a.as_slice(),
        BridgeAccountId::Near(s) => s.as_str().as_bytes(),
        BridgeAccountId::Avalanche(a) => a.as_slice(),
        BridgeAccountId::Custom(a) => a.as_slice(),
    }
}

/// The variant index of an account.
fn account_index(account: &BridgeAccountId) -> (index: u8)
    ensures
        index == account_parts(*account).0,
{
    match account {
        BridgeAccountId::Tezos(_) => 0,
        BridgeAccountId::Algorand(_) => 1,
        BridgeAccountId::Solana(_) => 2,
        BridgeAccountId::Cardano(_) => 3,
        BridgeAccountId::Substrate(_) => 4,
        BridgeAccountId::Ethereum(_) => 5,
        BridgeAccountId::Bitcoin(_) => 6,
        BridgeAccountId::Cosmos(_) => 7,
        BridgeAccountId::Near(_) => 8,
        BridgeAccountId::Avalanche(_) => 9,
        BridgeAccountId::Custom(_) => 10,
    }
}

/// The SCALE encoding of an account. The codec refuses more than `u32::MAX` bytes.
pub fn encode_account(account: &BridgeAccountId) -> (enc: Vec<u8>)
    requires
        account_parts(*account).1.len() <= u32::MAX,
    ensures
        enc@ == account_encoding(*account),
{
    let mut enc: Vec<u8> = Vec::new();
    enc.push(account_index(account));
    let body = scale_encode_bytes(account_bytes(account));
    append_bytes(&mut enc, body.as_slice());
    enc
}

/// Format account address for display.
pub fn format_account_display(account: &BridgeAccountId) -> (display: Vec<u8>)
    requires
        account is Tezos || account_parts(*account).1.len() <= u32::MAX,
    ensures
        display@ == account_display(*account),
{
    match account {
        BridgeAccountId::Tezos(addr) => {
            if addr.len() > 8 {
                let mut result = copy_range(addr.as_slice(), 0, 4);
                let mut dots: Vec<u8> = Vec::new();
                dots.push(46u8);
                dots.push(46u8);
                dots.push(46u8);
                assert(dots@ =~= ellipsis());
                append_bytes(&mut result, dots.as_slice());
                let tail = copy_range(addr.as_slice(), addr.len() - 4, addr.len());
                append_bytes(&mut result, tail.as_slice());
                result
            } else {
                addr.clone()
            }
        },
        _ => {
            let enc = encode_account(account);
            if enc.len() >= 10 {
                copy_range(enc.as_slice(), 0, 10)
            } else {
                let mut unknown: Vec<u8> = Vec::new();
                unknown.push(63u8);
                assert(unknown@ =~= seq![63u8]);
                unknown
            }
        },
    }
}

} // verus!
