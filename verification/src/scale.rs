//! SCALE encodings that the runtime logic hashes, produced by `parity-scale-codec`.
use vstd::prelude::*;
use parity_scale_codec::Encode;

verus! {

/// The two little-endian bytes of `v` (taken modulo 2^16).
pub open spec fn le2(v: nat) -> Seq<u8> {
    seq![(v % 256) as u8, ((v / 256) % 256) as u8]
}

/// The four little-endian bytes of `v` (taken modulo 2^32).
pub open spec fn le4(v: nat) -> Seq<u8> {
    seq![
        (v % 256) as u8,
        ((v / 0x100) % 256) as u8,
        ((v / 0x1_0000) % 256) as u8,
        ((v / 0x100_0000) % 256) as u8,
    ]
}

/// The eight little-endian bytes of `v` (taken modulo 2^64).
pub open spec fn le8(v: nat) -> Seq<u8> {
    le4(v % 0x1_0000_0000) + le4(v / 0x1_0000_0000)
}

/// The SCALE compact encoding of a collection length `n` (at most `u32::MAX`).
pub open spec fn compact_len(n: nat) -> Seq<u8> {
    if n < 0x40 {
        seq![(n * 4) as u8]
    } else if n < 0x4000 {
        le2(n * 4 + 1)
    } else if n < 0x4000_0000 {
        le4(n * 4 + 2)
    } else {
        seq![3u8] + le4(n)
    }
}

/// The SCALE encoding of a byte string: its compact length, then its bytes.
pub open spec fn scale_bytes(data: Seq<u8>) -> Seq<u8> {
    compact_len(data.len()) + data
}

/// The little-endian bytes of every `u32` of a sequence, one after the other.
pub open spec fn u32s_le(v: Seq<u32>) -> Seq<u8>
    decreases v.len(),
{
    if v.len() == 0 {
        Seq::empty()
    } else {
        u32s_le(v.drop_last()) + le4(v.last() as nat)
    }
}

/// The SCALE encoding of a sequence of `u32`: its compact length, then each number in
/// little-endian order.
pub open spec fn scale_u32s(v: Seq<u32>) -> Seq<u8> {
    compact_len(v.len()) + u32s_le(v)
}

/// Calls `<[u8] as parity_scale_codec::Encode>::encode`: the compact length of `data` followed by
/// its bytes. The codec panics on a slice longer than `u32::MAX`, which `requires` leaves out.
#[verifier::external_body]
pub(crate) fn scale_encode_bytes(data: &[u8]) -> (encoded: Vec<u8>)
    requires
        data@.len() <= u32::MAX,
    ensures
        encoded@ == scale_bytes(data@),
{
    data.encode()
}

/// Calls `<[u32] as parity_scale_codec::Encode>::encode`: the compact length of `data` followed
/// by each number's four little-endian bytes. The codec panics on a slice longer than
/// `u32::MAX`, which `requires` leaves out.
#[verifier::external_body]
pub(crate) fn scale_encode_u32s(data: &[u32]) -> (encoded: Vec<u8>)
    requires
        data@.len() <= u32::MAX,
    ensures
        encoded@ == scale_u32s(data@),
{
    data.encode()
}

/// Calls `<u32 as parity_scale_codec::Encode>::encode`: the four little-endian bytes of `value`.
#[verifier::external_body]
pub(crate) fn scale_encode_u32(value: u32) -> (encoded: Vec<u8>)
    ensures
        encoded@ == le4(value as nat),
{
    value.encode()
}

/// Calls `<u64 as parity_scale_codec::Encode>::encode`: the eight little-endian bytes of `value`.
#[verifier::external_body]
pub(crate) fn scale_encode_u64(value: u64) -> (encoded: Vec<u8>)
    ensures
        encoded@ == le8(value as nat),
{
    value.encode()
}

/// The eight big-endian bytes of a `u64`.
pub open spec fn be8(x: u64) -> Seq<u8> {
    seq![
        ((x / 0x100_0000_0000_0000) % 256) as u8,
        ((x / 0x1_0000_0000_0000) % 256) as u8,
        ((x / 0x100_0000_0000) % 256) as u8,
        ((x / 0x1_0000_0000) % 256) as u8,
        ((x / 0x100_0000) % 256) as u8,
        ((x / 0x1_0000) % 256) as u8,
        ((x / 0x100) % 256) as u8,
        (x % 256) as u8,
    ]
}

/// The big-endian bytes of a `u64`, most significant first.
pub fn u64_to_be_bytes(x: u64) -> (bytes: Vec<u8>)
    ensures
        bytes@ == be8(x),
{
    let mut bytes: Vec<u8> = Vec::new();
    bytes.push(((x / 0x100_0000_0000_0000) % 256) as u8);
    bytes.push(((x / 0x1_0000_0000_0000) % 256) as u8);
    bytes.push(((x / 0x100_0000_0000) % 256) as u8);
    bytes.push(((x / 0x1_0000_0000) % 256) as u8);
    bytes.push(((x / 0x100_0000) % 256) as u8);
    bytes.push(((x / 0x1_0000) % 256) as u8);
    bytes.push(((x / 0x100) % 256) as u8);
    bytes.push((x % 256) as u8);
    assert(bytes@ =~= be8(x));
    bytes
}

/// Append all of `tail` to `dest`.
pub fn append_bytes(dest: &mut Vec<u8>, tail: &[u8])
    ensures
        final(dest)@ == old(dest)@ + tail@,
{
    let mut i: usize = 0;
    while i < tail.len()
        invariant
            0 <= i <= tail@.len(),
            dest@ == old(dest)@ + tail@.subrange(0, i as int),
        decreases tail@.len() - i,
    {
        dest.push(tail[i]);
        i = i + 1;
        assert(tail@.subrange(0, i as int) =~= tail@.subrange(0, i - 1).push(tail@[i - 1]));
    }
    assert(tail@.subrange(0, tail@.len() as int) =~= tail@);
}

/// An index as a mathematical integer.
pub open spec fn ix(i: usize) -> int {
    i as int
}

/// A length as the `u32` that a cast keeps of it (its value modulo 2^32).
pub open spec fn len_u32(n: nat) -> u32 {
    n as u32
}

/// A length cast to `u32`, keeping its value modulo 2^32.
pub fn len_as_u32(n: usize) -> (r: u32)
    ensures
        r == len_u32(n as nat),
{
    n as u32
}

/// A sequence is its own full subrange.
pub proof fn lemma_subrange_all<T>(s: Seq<T>)
    ensures
        s.subrange(0, s.len() as int) == s,
{
    assert(s.subrange(0, s.len() as int) =~= s);
}

/// A copy of all of `src`.
pub fn copy_all(src: &[u8]) -> (out: Vec<u8>)
    ensures
        out@ == src@,
{
    let out = copy_range(src, 0, src.len());
    proof {
        lemma_subrange_all(src@);
    }
    out
}

/// A copy of `src[start..end]`.
pub fn copy_range(src: &[u8], start: usize, end: usize) -> (out: Vec<u8>)
    requires
        start <= end <= src@.len(),
    ensures
        out@ == src@.subrange(start as int, end as int),
{
    let mut out: Vec<u8> = Vec::new();
    let mut i: usize = start;
    while i < end
        invariant
            start <= i <= end <= src@.len(),
            out@ == src@.subrange(start as int, i as int),
        decreases end - i,
    {
        out.push(src[i]);
        i = i + 1;
        assert(src@.subrange(start as int, i as int) =~= src@.subrange(start as int, i - 1).push(src@[i - 1]));
    }
    out
}

} // verus!
