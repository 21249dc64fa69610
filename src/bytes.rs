//! Little-endian integer fields, as the wire writes them.

use vstd::prelude::*;

verus! {

/// The two bytes of `v`, low byte first.
pub open spec fn u16_le(v: u16) -> Seq<u8> {
    seq![(v % 256) as u8, (v / 256) as u8]
}

/// The four bytes of `v`, low byte first.
pub open spec fn u32_le(v: u32) -> Seq<u8> {
    seq![(v % 256) as u8, ((v / 256) % 256) as u8, ((v / 65536) % 256) as u8, (v / 16777216) as u8]
}

/// The eight bytes of `v`, low byte first.
pub open spec fn u64_le(v: u64) -> Seq<u8> {
    u32_le((v % 4294967296) as u32) + u32_le((v / 4294967296) as u32)
}

/// The `u16` stored little-endian at `s[i..i + 2]`.
pub open spec fn le16_at(s: Seq<u8>, i: int) -> u16 {
    (s[i] as int + 256 * s[i + 1] as int) as u16
}

/// The `u32` stored little-endian at `s[i..i + 4]`.
pub open spec fn le32_at(s: Seq<u8>, i: int) -> u32 {
    (s[i] as int + 256 * s[i + 1] as int + 65536 * s[i + 2] as int + 16777216 * s[i + 3] as int) as u32
}

/// The `u64` stored little-endian at `s[i..i + 8]`.
pub open spec fn le64_at(s: Seq<u8>, i: int) -> u64 {
    (le32_at(s, i) as int + 4294967296 * le32_at(s, i + 4) as int) as u64
}

pub proof fn lemma_u16_le_round_trip(v: u16)
    ensures
        le16_at(u16_le(v), 0) == v,
{
}

pub proof fn lemma_u32_le_round_trip(v: u32)
    ensures
        le32_at(u32_le(v), 0) == v,
{
    let b0 = v % 256;
    let b1 = (v / 256) % 256;
    let b2 = (v / 65536) % 256;
    let b3 = v / 16777216;
    assert(b0 + 256 * b1 + 65536 * b2 + 16777216 * b3 == v) by (bit_vector)
        requires
            b0 == v % 256,
            b1 == (v / 256) % 256,
            b2 == (v / 65536) % 256,
            b3 == v / 16777216,
    ;
    assert(b3 < 256) by (bit_vector)
        requires
            b3 == v / 16777216,
    ;
}

/// A `u32` reads back from the four bytes that hold it.
pub proof fn lemma_le32_in(s: Seq<u8>, i: int, v: u32)
    requires
        0 <= i,
        i + 4 <= s.len(),
        s.subrange(i, i + 4) == u32_le(v),
    ensures
        le32_at(s, i) == v,
{
    lemma_u32_le_round_trip(v);
    assert(s[i] == u32_le(v)[0] && s[i + 1] == u32_le(v)[1] && s[i + 2] == u32_le(v)[2] && s[i + 3]
        == u32_le(v)[3]);
}

/// A `u64` reads back from the eight bytes that hold it.
pub proof fn lemma_le64_in(s: Seq<u8>, i: int, v: u64)
    requires
        0 <= i,
        i + 8 <= s.len(),
        s.subrange(i, i + 8) == u64_le(v),
    ensures
        le64_at(s, i) == v,
{
    let lo = (v % 4294967296) as u32;
    let hi = (v / 4294967296) as u32;
    let w = u64_le(v);
    assert(w.len() == 8);
    assert(w.subrange(0, 4) =~= u32_le(lo));
    assert(w.subrange(4, 8) =~= u32_le(hi));
    assert(s.subrange(i, i + 4) =~= w.subrange(0, 4));
    assert(s.subrange(i + 4, i + 8) =~= w.subrange(4, 8));
    lemma_le32_in(s, i, lo);
    lemma_le32_in(s, i + 4, hi);
}

/// Reads the `u16` stored little-endian at `s[i..i + 2]`.
pub fn read_le16(s: &[u8], i: usize) -> (r: u16)
    requires
        i + 2 <= s@.len(),
    ensures
        r == le16_at(s@, i as int),
{
    s[i] as u16 + (s[i + 1] as u16) * 256
}

/// Reads the `u32` stored little-endian at `s[i..i + 4]`.
pub fn read_le32(s: &[u8], i: usize) -> (r: u32)
    requires
        i + 4 <= s@.len(),
    ensures
        r == le32_at(s@, i as int),
{
    s[i] as u32 + (s[i + 1] as u32) * 256 + (s[i + 2] as u32) * 65536 + (s[i + 3] as u32) * 16777216
}

/// Reads the `u64` stored little-endian at `s[i..i + 8]`.
pub fn read_le64(s: &[u8], i: usize) -> (r: u64)
    requires
        i + 8 <= s@.len(),
    ensures
        r == le64_at(s@, i as int),
{
    let lo = s[i] as u64 + (s[i + 1] as u64) * 256 + (s[i + 2] as u64) * 65536 + (s[i + 3] as u64)
        * 16777216;
    let hi = s[i + 4] as u64 + (s[i + 5] as u64) * 256 + (s[i + 6] as u64) * 65536 + (s[i + 7] as u64)
        * 16777216;
    lo + hi * 4294967296
}

/// Appends the two little-endian bytes of `v`.
pub fn push_le16(out: &mut Vec<u8>, v: u16)
    ensures
        final(out)@ == old(out)@ + u16_le(v),
{
    out.push((v % 256) as u8);
    out.push((v / 256) as u8);
    assert(final(out)@ =~= old(out)@ + u16_le(v));
}

/// Appends the four little-endian bytes of `v`.
pub fn push_le32(out: &mut Vec<u8>, v: u32)
    ensures
        final(out)@ == old(out)@ + u32_le(v),
{
    out.push((v % 256) as u8);
    out.push(((v / 256) % 256) as u8);
    out.push(((v / 65536) % 256) as u8);
    out.push((v / 16777216) as u8);
    assert(final(out)@ =~= old(out)@ + u32_le(v));
}

/// Appends the eight little-endian bytes of `v`.
pub fn push_le64(out: &mut Vec<u8>, v: u64)
    ensures
        final(out)@ == old(out)@ + u64_le(v),
{
    let ghost start = out@;
    push_le32(out, (v % 4294967296) as u32);
    push_le32(out, (v / 4294967296) as u32);
    assert(out@ =~= start + u64_le(v));
}

} // verus!
