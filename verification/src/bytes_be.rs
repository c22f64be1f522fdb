//! Numbers as big-endian bytes, and writers that append them to a byte vector.
use vstd::prelude::*;

use crate::cursor::{be16, be32, be64};

verus! {

/// The two big-endian bytes of a 16-bit number.
pub open spec fn u16_bytes(n: u16) -> Seq<u8> {
    seq![(n / 0x100) as u8, (n % 0x100) as u8]
}

/// The four big-endian bytes of a 32-bit number.
pub open spec fn u32_bytes(n: u32) -> Seq<u8> {
    seq![
        (n / 0x100_0000) as u8,
        ((n / 0x1_0000) % 0x100) as u8,
        ((n / 0x100) % 0x100) as u8,
        (n % 0x100) as u8,
    ]
}

/// The eight big-endian bytes of a 64-bit number.
pub open spec fn u64_bytes(n: u64) -> Seq<u8> {
    u32_bytes((n / 0x1_0000_0000) as u32) + u32_bytes((n % 0x1_0000_0000) as u32)
}

/// Reading back the bytes of a 16-bit number gives the number.
pub proof fn lemma_u16_bytes(n: u16, rest: Seq<u8>)
    ensures
        be16(u16_bytes(n) + rest) == n,
        (u16_bytes(n) + rest).len() == 2 + rest.len(),
{
    let s = u16_bytes(n) + rest;
    assert(s[0] == (n / 0x100) as u8);
    assert(s[1] == (n % 0x100) as u8);
}

/// Reading back the bytes of a 32-bit number gives the number.
pub proof fn lemma_u32_bytes(n: u32, rest: Seq<u8>)
    ensures
        be32(u32_bytes(n) + rest) == n,
        (u32_bytes(n) + rest).len() == 4 + rest.len(),
{
    let s = u32_bytes(n) + rest;
    assert(s[0] == (n / 0x100_0000) as u8);
    assert(s[1] == ((n / 0x1_0000) % 0x100) as u8);
    assert(s[2] == ((n / 0x100) % 0x100) as u8);
    assert(s[3] == (n % 0x100) as u8);
}

/// Reading back the bytes of a 64-bit number gives the number.
pub proof fn lemma_u64_bytes(n: u64, rest: Seq<u8>)
    ensures
        be64(u64_bytes(n) + rest) == n,
        (u64_bytes(n) + rest).len() == 8 + rest.len(),
{
    let hi = (n / 0x1_0000_0000) as u32;
    let lo = (n % 0x1_0000_0000) as u32;
    let s = u64_bytes(n) + rest;
    lemma_u32_bytes(hi, u32_bytes(lo) + rest);
    assert(s =~= u32_bytes(hi) + (u32_bytes(lo) + rest));
    lemma_u32_bytes(lo, rest);
    assert(s.subrange(4, 8) =~= u32_bytes(lo) + seq![]);
    lemma_u32_bytes(lo, seq![]);
}

/// Appends the two big-endian bytes of `v`.
pub fn push_u16_be(out: &mut Vec<u8>, v: u16)
    ensures
        final(out)@ == old(out)@ + u16_bytes(v),
{
    out.push((v / 0x100) as u8);
    out.push((v % 0x100) as u8);
    assert(out@ =~= old(out)@ + u16_bytes(v));
}

/// Appends the four big-endian bytes of `v`.
pub fn push_u32_be(out: &mut Vec<u8>, v: u32)
    ensures
        final(out)@ == old(out)@ + u32_bytes(v),
{
    out.push((v / 0x100_0000) as u8);
    out.push(((v / 0x1_0000) % 0x100) as u8);
    out.push(((v / 0x100) % 0x100) as u8);
    out.push((v % 0x100) as u8);
    assert(out@ =~= old(out)@ + u32_bytes(v));
}

/// Appends the eight big-endian bytes of `v`.
pub fn push_u64_be(out: &mut Vec<u8>, v: u64)
    ensures
        final(out)@ == old(out)@ + u64_bytes(v),
{
    push_u32_be(out, (v / 0x1_0000_0000) as u32);
    push_u32_be(out, (v % 0x1_0000_0000) as u32);
    assert(out@ =~= old(out)@ + u64_bytes(v));
}

/// Appends the bytes of a slice.
pub fn push_slice(out: &mut Vec<u8>, src: &[u8])
    ensures
        final(out)@ == old(out)@ + src@,
{
    let mut i: usize = 0;
    while i < src.len()
        invariant
            i <= src.len(),
            out@ == old(out)@ + src@.subrange(0, i as int),
        decreases src.len() - i,
    {
        out.push(src[i]);
        i = i + 1;
        assert(out@ =~= old(out)@ + src@.subrange(0, i as int));
    }
    assert(src@.subrange(0, src.len() as int) =~= src@);
}

} // verus!
