//! Byte-level helpers shared by the request and response formats:
//! big-endian integers and comparisons of byte strings.

use vstd::prelude::*;
use vstd::utf8::*;

verus! {

broadcast use vstd::utf8::encode_utf8_decode_utf8;

/// Whether two byte slices hold the same bytes.
pub fn bytes_eq(a: &[u8], b: &[u8]) -> (r: bool)
    ensures
        r == (a@ == b@),
{
    if a.len() != b.len() {
        return false;
    }
    let mut i: usize = 0;
    while i < a.len()
        invariant
            a@.len() == b@.len(),
            i <= a@.len(),
            forall|j: int| 0 <= j < i ==> a@[j] == b@[j],
        decreases a@.len() - i,
    {
        if a[i] != b[i] {
            return false;
        }
        i = i + 1;
    }
    assert(a@ =~= b@);
    true
}

/// Whether two string slices hold the same characters.
pub fn str_eq(a: &str, b: &str) -> (r: bool)
    ensures
        r == (a@ == b@),
{
    let r = bytes_eq(a.as_bytes(), b.as_bytes());
    proof {
        if r {
            assert(decode_utf8(encode_utf8(a@)) == a@);
            assert(decode_utf8(encode_utf8(b@)) == b@);
        }
    }
    r
}

/// The two bytes of `v`, most significant first.
pub open spec fn be16(v: u16) -> Seq<u8> {
    seq![(v >> 8u16) as u8, v as u8]
}

/// The four bytes of `v`, most significant first.
pub open spec fn be32(v: u32) -> Seq<u8> {
    seq![(v >> 24u32) as u8, (v >> 16u32) as u8, (v >> 8u32) as u8, v as u8]
}

/// The eight bytes of `v`, most significant first.
pub open spec fn be64(v: u64) -> Seq<u8> {
    seq![
        (v >> 56u64) as u8,
        (v >> 48u64) as u8,
        (v >> 40u64) as u8,
        (v >> 32u64) as u8,
        (v >> 24u64) as u8,
        (v >> 16u64) as u8,
        (v >> 8u64) as u8,
        v as u8,
    ]
}

/// The number whose big-endian bytes are the first two of `s`.
pub open spec fn from_be16(s: Seq<u8>) -> u16 {
    ((s[0] as u16) << 8u16) | (s[1] as u16)
}

/// The number whose big-endian bytes are the first four of `s`.
pub open spec fn from_be32(s: Seq<u8>) -> u32 {
    ((s[0] as u32) << 24u32) | ((s[1] as u32) << 16u32) | ((s[2] as u32) << 8u32) | (s[3] as u32)
}

/// The number whose big-endian bytes are the first eight of `s`.
pub open spec fn from_be64(s: Seq<u8>) -> u64 {
    ((s[0] as u64) << 56u64) | ((s[1] as u64) << 48u64) | ((s[2] as u64) << 40u64) | ((s[3] as u64)
        << 32u64) | ((s[4] as u64) << 24u64) | ((s[5] as u64) << 16u64) | ((s[6] as u64) << 8u64)
        | (s[7] as u64)
}

/// Reading back the big-endian bytes of a number gives the number.
pub proof fn lemma_be16_roundtrip(v: u16)
    ensures
        from_be16(be16(v)) == v,
{
    let b0 = (v >> 8u16) as u8;
    let b1 = v as u8;
    assert((((b0 as u16) << 8u16) | (b1 as u16)) == v) by (bit_vector)
        requires
            b0 == (v >> 8u16) as u8,
            b1 == v as u8,
    ;
}

/// Reading back the big-endian bytes of a number gives the number.
pub proof fn lemma_be32_roundtrip(v: u32)
    ensures
        from_be32(be32(v)) == v,
{
    let b0 = (v >> 24u32) as u8;
    let b1 = (v >> 16u32) as u8;
    let b2 = (v >> 8u32) as u8;
    let b3 = v as u8;
    assert((((b0 as u32) << 24u32) | ((b1 as u32) << 16u32) | ((b2 as u32) << 8u32) | (b3 as u32))
        == v) by (bit_vector)
        requires
            b0 == (v >> 24u32) as u8,
            b1 == (v >> 16u32) as u8,
            b2 == (v >> 8u32) as u8,
            b3 == v as u8,
    ;
}

/// Reading back the big-endian bytes of a number gives the number.
pub proof fn lemma_be64_roundtrip(v: u64)
    ensures
        from_be64(be64(v)) == v,
{
    let b0 = (v >> 56u64) as u8;
    let b1 = (v >> 48u64) as u8;
    let b2 = (v >> 40u64) as u8;
    let b3 = (v >> 32u64) as u8;
    let b4 = (v >> 24u64) as u8;
    let b5 = (v >> 16u64) as u8;
    let b6 = (v >> 8u64) as u8;
    let b7 = v as u8;
    assert((((b0 as u64) << 56u64) | ((b1 as u64) << 48u64) | ((b2 as u64) << 40u64) | ((b3 as u64)
        << 32u64) | ((b4 as u64) << 24u64) | ((b5 as u64) << 16u64) | ((b6 as u64) << 8u64) | (b7 as u64))
        == v) by (bit_vector)
        requires
            b0 == (v >> 56u64) as u8,
            b1 == (v >> 48u64) as u8,
            b2 == (v >> 40u64) as u8,
            b3 == (v >> 32u64) as u8,
            b4 == (v >> 24u64) as u8,
            b5 == (v >> 16u64) as u8,
            b6 == (v >> 8u64) as u8,
            b7 == v as u8,
    ;
}

/// A signed integer survives its two's-complement reading as an unsigned one.
pub proof fn lemma_i64_u64_roundtrip(v: i64)
    ensures
        (v as u64) as i64 == v,
{
    assert((v as u64) as i64 == v) by (bit_vector);
}

/// Appends the big-endian bytes of `v`.
pub fn push_be16(to: &mut Vec<u8>, v: u16)
    ensures
        final(to)@ == old(to)@ + be16(v),
{
    to.push((v >> 8u16) as u8);
    to.push(v as u8);
    assert(final(to)@ =~= old(to)@ + be16(v));
}

/// Appends the big-endian bytes of `v`.
pub fn push_be32(to: &mut Vec<u8>, v: u32)
    ensures
        final(to)@ == old(to)@ + be32(v),
{
    to.push((v >> 24u32) as u8);
    to.push((v >> 16u32) as u8);
    to.push((v >> 8u32) as u8);
    to.push(v as u8);
    assert(final(to)@ =~= old(to)@ + be32(v));
}

/// Appends the big-endian bytes of `v`.
pub fn push_be64(to: &mut Vec<u8>, v: u64)
    ensures
        final(to)@ == old(to)@ + be64(v),
{
    to.push((v >> 56u64) as u8);
    to.push((v >> 48u64) as u8);
    to.push((v >> 40u64) as u8);
    to.push((v >> 32u64) as u8);
    to.push((v >> 24u64) as u8);
    to.push((v >> 16u64) as u8);
    to.push((v >> 8u64) as u8);
    to.push(v as u8);
    assert(final(to)@ =~= old(to)@ + be64(v));
}

/// Reads the big-endian number in `buf[at..at + 2]`.
pub fn read_be16(buf: &[u8], at: usize) -> (r: u16)
    requires
        at + 2 <= buf@.len(),
    ensures
        r == from_be16(buf@.subrange(at as int, at + 2)),
{
    ((buf[at] as u16) << 8u16) | (buf[at + 1] as u16)
}

/// Reads the big-endian number in `buf[at..at + 4]`.
pub fn read_be32(buf: &[u8], at: usize) -> (r: u32)
    requires
        at + 4 <= buf@.len(),
    ensures
        r == from_be32(buf@.subrange(at as int, at + 4)),
{
    ((buf[at] as u32) << 24u32) | ((buf[at + 1] as u32) << 16u32) | ((buf[at + 2] as u32) << 8u32)
        | (buf[at + 3] as u32)
}

/// Reads the big-endian number in `buf[at..at + 8]`.
pub fn read_be64(buf: &[u8], at: usize) -> (r: u64)
    requires
        at + 8 <= buf@.len(),
    ensures
        r == from_be64(buf@.subrange(at as int, at + 8)),
{
    ((buf[at] as u64) << 56u64) | ((buf[at + 1] as u64) << 48u64) | ((buf[at + 2] as u64) << 40u64)
        | ((buf[at + 3] as u64) << 32u64) | ((buf[at + 4] as u64) << 24u64) | ((buf[at + 5] as u64)
        << 16u64) | ((buf[at + 6] as u64) << 8u64) | (buf[at + 7] as u64)
}

} // verus!
