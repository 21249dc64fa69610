//! CRC-16/CCITT (polynomial 0x1021, initial value 0xFFFF, no reflection),
//! the checksum that closes every frame.

use vstd::prelude::*;

verus! {

/// Initial register value.
pub const CRC_INIT: u16 = 0xFFFF;

/// Generator polynomial, without its leading term.
pub const CRC_POLY: u16 = 0x1021;

/// One shift of the register, folding the polynomial in when the top bit leaves.
pub open spec fn crc_bit_step(c: u16) -> u16 {
    if c & 0x8000u16 != 0 {
        ((c << 1u16) ^ 0x1021u16) as u16
    } else {
        (c << 1u16) as u16
    }
}

/// `n` shifts of the register.
pub open spec fn crc_shifts(c: u16, n: nat) -> u16
    decreases n,
{
    if n == 0 {
        c
    } else {
        crc_shifts(crc_bit_step(c), (n - 1) as nat)
    }
}

/// The register after one more message byte.
pub open spec fn crc_byte(c: u16, b: u8) -> u16 {
    crc_shifts((c ^ ((b as u16) << 8u16)) as u16, 8)
}

/// The register after the bytes of `s`, starting from `init`.
pub open spec fn crc_from(init: u16, s: Seq<u8>) -> u16
    decreases s.len(),
{
    if s.len() == 0 {
        init
    } else {
        crc_byte(crc_from(init, s.drop_last()), s.last())
    }
}

/// The checksum of a byte sequence.
pub open spec fn crc16(s: Seq<u8>) -> u16 {
    crc_from(0xFFFFu16, s)
}

fn bit_step(c: u16) -> (r: u16)
    ensures
        r == crc_bit_step(c),
{
    if c & 0x8000 != 0 {
        (c << 1) ^ CRC_POLY
    } else {
        c << 1
    }
}

/// Folds one byte into the register.
pub fn crc_update(c: u16, b: u8) -> (r: u16)
    ensures
        r == crc_byte(c, b),
{
    let mut x: u16 = c ^ ((b as u16) << 8);
    let ghost start = x;
    let mut k: usize = 0;
    while k < 8
        invariant
            k <= 8,
            start == (c ^ ((b as u16) << 8u16)) as u16,
            crc_shifts(start, 8) == crc_shifts(x, (8 - k) as nat),
        decreases 8 - k,
    {
        x = bit_step(x);
        k = k + 1;
    }
    x
}

/// Checksum of `data`.
pub fn crc16_ccitt(data: &[u8]) -> (r: u16)
    ensures
        r == crc16(data@),
{
    let mut crc: u16 = CRC_INIT;
    let mut i: usize = 0;
    while i < data.len()
        invariant
            i <= data@.len(),
            crc == crc16(data@.subrange(0, i as int)),
        decreases data.len() - i,
    {
        let ghost pre = data@.subrange(0, i as int);
        assert(data@.subrange(0, i + 1).drop_last() =~= pre);
        crc = crc_update(crc, data[i]);
        i = i + 1;
    }
    assert(data@.subrange(0, data@.len() as int) =~= data@);
    crc
}

/// Appending bytes continues the computation from where it stood.
pub proof fn lemma_crc_append(init: u16, a: Seq<u8>, b: Seq<u8>)
    ensures
        crc_from(init, a + b) == crc_from(crc_from(init, a), b),
    decreases b.len(),
{
    if b.len() == 0 {
        assert(a + b =~= a);
    } else {
        assert((a + b).drop_last() =~= a + b.drop_last());
        lemma_crc_append(init, a, b.drop_last());
    }
}

/// One shift of the register is linear over GF(2).
proof fn lemma_step_linear(u: u16, v: u16)
    ensures
        crc_bit_step(u ^ v) == crc_bit_step(u) ^ crc_bit_step(v),
{
    let w = u ^ v;
    assert((if w & 0x8000u16 != 0 { ((w << 1u16) ^ 0x1021u16) as u16 } else { (w << 1u16) as u16 }) == (
    if u & 0x8000u16 != 0 { ((u << 1u16) ^ 0x1021u16) as u16 } else { (u << 1u16) as u16 }) ^ (if v
        & 0x8000u16 != 0 { ((v << 1u16) ^ 0x1021u16) as u16 } else { (v << 1u16) as u16 })) by (bit_vector)
        requires
            w == u ^ v,
    ;
}

/// One shift of the register never turns a nonzero register into zero.
proof fn lemma_step_nonzero(u: u16)
    ensures
        u != 0 ==> crc_bit_step(u) != 0,
{
    assert(u != 0 ==> (if u & 0x8000u16 != 0 { ((u << 1u16) ^ 0x1021u16) as u16 } else { (u
        << 1u16) as u16 }) != 0) by (bit_vector);
}

proof fn lemma_shifts_linear(u: u16, v: u16, n: nat)
    ensures
        crc_shifts(u ^ v, n) == crc_shifts(u, n) ^ crc_shifts(v, n),
    decreases n,
{
    if n > 0 {
        lemma_step_linear(u, v);
        lemma_shifts_linear(crc_bit_step(u), crc_bit_step(v), (n - 1) as nat);
    }
}

proof fn lemma_shifts_nonzero(u: u16, n: nat)
    ensures
        u != 0 ==> crc_shifts(u, n) != 0,
    decreases n,
{
    if n > 0 {
        lemma_step_nonzero(u);
        lemma_shifts_nonzero(crc_bit_step(u), (n - 1) as nat);
    }
}

proof fn lemma_xor_zero_eq(a: u16, b: u16)
    ensures
        a ^ b == 0 <==> a == b,
{
    assert(a ^ b == 0 <==> a == b) by (bit_vector);
}

/// Two different registers stay different after the same byte.
proof fn lemma_byte_keeps_states_apart(s: u16, t: u16, b: u8)
    requires
        s != t,
    ensures
        crc_byte(s, b) != crc_byte(t, b),
{
    let x = ((b as u16) << 8u16) as u16;
    let ss = (s ^ x) as u16;
    let tt = (t ^ x) as u16;
    assert(ss ^ tt == s ^ t) by (bit_vector)
        requires
            ss == s ^ x,
            tt == t ^ x,
    ;
    lemma_shifts_linear(ss, tt, 8);
    lemma_xor_zero_eq(s, t);
    lemma_shifts_nonzero(ss ^ tt, 8);
    lemma_xor_zero_eq(crc_byte(s, b), crc_byte(t, b));
}

/// Two different bytes lead the same register to different states.
proof fn lemma_bytes_drive_apart(s: u16, a: u8, b: u8)
    requires
        a != b,
    ensures
        crc_byte(s, a) != crc_byte(s, b),
{
    let x = ((a as u16) << 8u16) as u16;
    let y = ((b as u16) << 8u16) as u16;
    let sa = (s ^ x) as u16;
    let sb = (s ^ y) as u16;
    assert(sa ^ sb != 0) by (bit_vector)
        requires
            sa == s ^ x,
            sb == s ^ y,
            x == (a as u16) << 8u16,
            y == (b as u16) << 8u16,
            a != b,
    ;
    lemma_shifts_linear(sa, sb, 8);
    lemma_shifts_nonzero(sa ^ sb, 8);
    lemma_xor_zero_eq(crc_byte(s, a), crc_byte(s, b));
}

proof fn lemma_states_stay_apart(s: u16, t: u16, c: Seq<u8>)
    requires
        s != t,
    ensures
        crc_from(s, c) != crc_from(t, c),
    decreases c.len(),
{
    if c.len() > 0 {
        lemma_states_stay_apart(s, t, c.drop_last());
        lemma_byte_keeps_states_apart(crc_from(s, c.drop_last()), crc_from(t, c.drop_last()), c.last());
    }
}

/// Changing any one byte of a message changes its checksum.
pub proof fn lemma_crc_detects_byte_change(p: Seq<u8>, a: u8, b: u8, q: Seq<u8>)
    requires
        a != b,
    ensures
        crc16(p + seq![a] + q) != crc16(p + seq![b] + q),
{
    let s = crc_from(0xFFFFu16, p);
    lemma_crc_append(0xFFFFu16, p + seq![a], q);
    lemma_crc_append(0xFFFFu16, p + seq![b], q);
    lemma_crc_append(0xFFFFu16, p, seq![a]);
    lemma_crc_append(0xFFFFu16, p, seq![b]);
    assert(seq![a].drop_last() =~= Seq::<u8>::empty());
    assert(seq![b].drop_last() =~= Seq::<u8>::empty());
    assert(crc_from(s, Seq::<u8>::empty()) == s);
    assert(crc_from(s, seq![a]) == crc_byte(s, a));
    assert(crc_from(s, seq![b]) == crc_byte(s, b));
    lemma_bytes_drive_apart(s, a, b);
    lemma_states_stay_apart(crc_byte(s, a), crc_byte(s, b), q);
}

} // verus!
