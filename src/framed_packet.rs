//! The frame shared by every message class:
//! `class(2) ‖ identifier(2) ‖ length(4) ‖ payload(length) ‖ crc(2)`,
//! integers little-endian, the checksum taken over everything before it.

use vstd::prelude::*;
use vstd::slice::slice_subrange;

use crate::bytes::{lemma_u16_le_round_trip, lemma_u32_le_round_trip, le16_at, le32_at, push_le16, push_le32, read_le16, read_le32, u16_le, u32_le};
use crate::constants::{lemma_header_code_round_trip, header_code, header_of_code, PacketHeader, MAX_PAYLOAD_SIZE, MIN_PACKET_SIZE};
use crate::crc::{crc16, crc16_ccitt, lemma_crc_detects_byte_change};

verus! {

/// Why a byte sequence is not a frame.
#[derive(Debug, Clone, PartialEq, Eq, Structural)]
pub enum FrameError {
    TooShort,
    LengthMismatch { expected: usize, got: usize },
    BadCrc { expected: u16, got: u16 },
    UnknownIdentifier(u16),
    UnknownMarker(u16),
    PayloadTooLarge,
}

/// heapless's fixed-capacity vector, which holds frame payloads.
#[verifier::external_type_specification]
#[verifier::external_body]
#[verifier::reject_recursive_types(T)]
pub struct ExHeaplessVec<T, const N: usize>(heapless::Vec<T, N>);

/// The bytes held by a fixed-capacity payload buffer.
pub uninterp spec fn payload_bytes(v: heapless::Vec<u8, 256>) -> Seq<u8>;

/// Relies on heapless::Vec::new: a new buffer holds nothing.
#[verifier::external_body]
fn payload_new() -> (r: heapless::Vec<u8, 256>)
    ensures
        payload_bytes(r) == Seq::<u8>::empty(),
{
    heapless::Vec::new()
}

/// Relies on heapless::Vec::extend_from_slice: the bytes are appended when
/// they fit in the capacity, and nothing changes otherwise.
#[verifier::external_body]
fn payload_extend(v: &mut heapless::Vec<u8, 256>, s: &[u8]) -> (r: Result<(), ()>)
    ensures
        payload_bytes(*old(v)).len() + s@.len() <= 256 ==> r is Ok && payload_bytes(*final(v))
            == payload_bytes(*old(v)) + s@,
        payload_bytes(*old(v)).len() + s@.len() > 256 ==> r is Err && payload_bytes(*final(v))
            == payload_bytes(*old(v)),
{
    v.extend_from_slice(s)
}

/// Relies on heapless::Vec::as_slice: the slice holds the buffer's bytes.
#[verifier::external_body]
fn payload_as_slice(v: &heapless::Vec<u8, 256>) -> (r: &[u8])
    ensures
        r@ == payload_bytes(*v),
{
    v.as_slice()
}

/// What a frame holds, as plain values.
pub ghost struct FrameView {
    pub header: PacketHeader,
    pub identifier: u16,
    pub payload: Seq<u8>,
    pub crc: u16,
}

/// The bytes that the checksum covers.
pub open spec fn frame_body(header: PacketHeader, identifier: u16, payload: Seq<u8>) -> Seq<u8> {
    u16_le(header_code(header)) + u16_le(identifier) + u32_le(payload.len() as u32) + payload
}

/// The checksum a frame carries.
pub open spec fn frame_crc(header: PacketHeader, identifier: u16, payload: Seq<u8>) -> u16 {
    crc16(frame_body(header, identifier, payload))
}

/// A frame as the codec builds it: a payload that fits, and its own checksum.
pub open spec fn valid_frame(f: FrameView) -> bool {
    &&& f.payload.len() <= MAX_PAYLOAD_SIZE
    &&& f.crc == frame_crc(f.header, f.identifier, f.payload)
}

/// The frame built from these fields.
pub open spec fn make_frame(header: PacketHeader, identifier: u16, payload: Seq<u8>) -> FrameView {
    FrameView { header, identifier, payload, crc: frame_crc(header, identifier, payload) }
}

/// The wire bytes of a frame.
pub open spec fn encode_frame(f: FrameView) -> Seq<u8> {
    frame_body(f.header, f.identifier, f.payload) + u16_le(f.crc)
}

/// What decoding makes of a byte sequence that should hold exactly one frame.
pub open spec fn decode_frame(b: Seq<u8>) -> Result<FrameView, FrameError> {
    if b.len() < MIN_PACKET_SIZE {
        Err(FrameError::TooShort)
    } else if header_of_code(le16_at(b, 0)) is None {
        Err(FrameError::UnknownIdentifier(le16_at(b, 0)))
    } else if b.len() != MIN_PACKET_SIZE + le32_at(b, 4) {
        Err(FrameError::LengthMismatch {
            expected: (MIN_PACKET_SIZE + le32_at(b, 4)) as usize,
            got: b.len() as usize,
        })
    } else if le32_at(b, 4) > MAX_PAYLOAD_SIZE {
        Err(FrameError::PayloadTooLarge)
    } else {
        let header = header_of_code(le16_at(b, 0))->Some_0;
        let identifier = le16_at(b, 2);
        let payload = b.subrange(8, b.len() - 2);
        let got = le16_at(b, b.len() - 2);
        let expected = frame_crc(header, identifier, payload);
        if got != expected {
            Err(FrameError::BadCrc { expected, got })
        } else {
            Ok(FrameView { header, identifier, payload, crc: got })
        }
    }
}

/// The bytes of a frame body closed by checksum `x` decode to that frame
/// when `x` is its checksum, and to a checksum error otherwise.
pub proof fn lemma_decode_body(header: PacketHeader, identifier: u16, payload: Seq<u8>, x: u16)
    requires
        payload.len() <= MAX_PAYLOAD_SIZE,
    ensures
        decode_frame(frame_body(header, identifier, payload) + u16_le(x)) == if x == frame_crc(
            header,
            identifier,
            payload,
        ) {
            Ok::<FrameView, FrameError>(FrameView { header, identifier, payload, crc: x })
        } else {
            Err::<FrameView, FrameError>(
                FrameError::BadCrc { expected: frame_crc(header, identifier, payload), got: x },
            )
        },
{
    let b = frame_body(header, identifier, payload) + u16_le(x);
    let n = payload.len();
    let c = u16_le(header_code(header));
    let i = u16_le(identifier);
    let l = u32_le(n as u32);
    let k = u16_le(x);
    assert(b =~= c + i + l + payload + k);
    lemma_u16_le_round_trip(header_code(header));
    lemma_u16_le_round_trip(identifier);
    lemma_u32_le_round_trip(n as u32);
    lemma_u16_le_round_trip(x);
    lemma_header_code_round_trip(header);
    assert(le16_at(b, 0) == le16_at(c, 0));
    assert(le16_at(b, 2) == le16_at(i, 0));
    assert(le32_at(b, 4) == le32_at(l, 0));
    assert(b.len() == MIN_PACKET_SIZE + n);
    assert(b.subrange(8, b.len() - 2) =~= payload);
    assert(le16_at(b, b.len() - 2) == le16_at(k, 0));
}

/// Decoding the bytes that encoding wrote gives back the same frame.
pub proof fn lemma_frame_round_trip(f: FrameView)
    requires
        valid_frame(f),
    ensures
        decode_frame(encode_frame(f)) == Ok::<FrameView, FrameError>(f),
{
    lemma_decode_body(f.header, f.identifier, f.payload, f.crc);
}

/// A frame's wire size: the fixed overhead and its payload.
pub proof fn lemma_encoded_len(f: FrameView)
    ensures
        encode_frame(f).len() == MIN_PACKET_SIZE + f.payload.len(),
        f.payload.len() <= MAX_PAYLOAD_SIZE ==> ({
            let e = encode_frame(f);
            &&& header_of_code(le16_at(e, 0)) == Some(f.header)
            &&& le32_at(e, 4) == f.payload.len()
        }),
{
    if f.payload.len() <= MAX_PAYLOAD_SIZE {
        let e = encode_frame(f);
        let c = u16_le(header_code(f.header));
        let l = u32_le(f.payload.len() as u32);
        assert(e =~= c + u16_le(f.identifier) + l + f.payload + u16_le(f.crc));
        lemma_u16_le_round_trip(header_code(f.header));
        lemma_u32_le_round_trip(f.payload.len() as u32);
        lemma_header_code_round_trip(f.header);
        assert(le16_at(e, 0) == le16_at(c, 0));
        assert(le32_at(e, 4) == le32_at(l, 0));
    }
}

proof fn lemma_le16_bytes(s: Seq<u8>, i: int)
    requires
        0 <= i,
        i + 2 <= s.len(),
    ensures
        u16_le(le16_at(s, i)) == s.subrange(i, i + 2),
{
    let a = s[i] as int;
    let b = s[i + 1] as int;
    let v = le16_at(s, i) as int;
    assert(v == a + 256 * b);
    assert(v % 256 == a && v / 256 == b) by (nonlinear_arith)
        requires
            v == a + 256 * b,
            0 <= a < 256,
            0 <= b < 256,
    ;
    assert(u16_le(le16_at(s, i)) =~= s.subrange(i, i + 2));
}

/// Changing any one byte of a frame's wire bytes makes decoding fail.
pub proof fn lemma_byte_change_rejected(f: FrameView, i: int, y: u8)
    requires
        valid_frame(f),
        0 <= i < encode_frame(f).len(),
        y != encode_frame(f)[i],
    ensures
        ({
            let e2 = encode_frame(f).update(i, y);
            &&& i < 2 ==> decode_frame(e2) == Err::<FrameView, FrameError>(
                FrameError::UnknownIdentifier(le16_at(e2, 0)),
            )
            &&& 4 <= i < 8 ==> decode_frame(e2) == Err::<FrameView, FrameError>(
                FrameError::LengthMismatch {
                    expected: (MIN_PACKET_SIZE + le32_at(e2, 4)) as usize,
                    got: e2.len() as usize,
                },
            )
            &&& (2 <= i < 4 || 8 <= i) ==> decode_frame(e2) matches Err(FrameError::BadCrc { .. })
        }),
{
    let e = encode_frame(f);
    let e2 = e.update(i, y);
    let n = f.payload.len();
    let h = f.header;
    let body = frame_body(h, f.identifier, f.payload);
    lemma_encoded_len(f);
    lemma_u16_le_round_trip(f.crc);
    assert(e =~= body + u16_le(f.crc));
    let len = e.len() as int;
    assert(len == 10 + n);
    if i < 2 {
        let code = header_code(h);
        assert(e[0] == (code % 256) as u8 && e[1] == (code / 256) as u8);
        assert(header_of_code(le16_at(e2, 0)) is None);
    } else if 4 <= i < 8 {
        assert(le16_at(e2, 0) == le16_at(e, 0));
        assert(le32_at(e2, 4) != le32_at(e, 4));
    } else if i < len - 2 {
        assert(le16_at(e2, 0) == le16_at(e, 0));
        assert(le32_at(e2, 4) == le32_at(e, 4));
        let id2 = le16_at(e2, 2);
        let pl2 = e2.subrange(8, len - 2);
        lemma_le16_bytes(e2, 2);
        let body2 = frame_body(h, id2, pl2);
        assert(body.len() == len - 2);
        assert(e.subrange(0, 2) == u16_le(header_code(h)));
        assert(e.subrange(4, 8) == u32_le(n as u32));
        assert(body2 =~= e2.subrange(0, len - 2));
        assert(body2 =~= body.subrange(0, i) + seq![y] + body.subrange(i + 1, len - 2));
        assert(body =~= body.subrange(0, i) + seq![body[i]] + body.subrange(i + 1, len - 2));
        lemma_crc_detects_byte_change(body.subrange(0, i), y, body[i], body.subrange(i + 1, len - 2));
        assert(le16_at(e2, len - 2) == le16_at(e, len - 2));
        assert(le16_at(e, len - 2) == le16_at(u16_le(f.crc), 0));
    } else {
        assert(le16_at(e2, 0) == le16_at(e, 0));
        assert(le32_at(e2, 4) == le32_at(e, 4));
        assert(e2.subrange(8, len - 2) =~= f.payload);
        assert(le16_at(e2, 2) == le16_at(e, 2));
        lemma_le16_bytes(e, 2);
        assert(e.subrange(2, 4) == u16_le(f.identifier));
        assert(le16_at(e, len - 2) == le16_at(u16_le(f.crc), 0));
        assert(le16_at(e2, len - 2) != le16_at(e, len - 2));
    }
}

/// Flipping any single bit of a frame's wire bytes makes decoding fail:
/// a flip in the class leaves no known class, one in the length no longer
/// matches the byte count, and one anywhere else fails the checksum.
/// Decoding stays total: it gives one of these errors.
pub proof fn lemma_bit_flip_rejected(f: FrameView, i: int, k: u8)
    requires
        valid_frame(f),
        0 <= i < encode_frame(f).len(),
        k < 8,
    ensures
        ({
            let e2 = encode_frame(f).update(i, encode_frame(f)[i] ^ (1u8 << k));
            &&& i < 2 ==> decode_frame(e2) == Err::<FrameView, FrameError>(
                FrameError::UnknownIdentifier(le16_at(e2, 0)),
            )
            &&& 4 <= i < 8 ==> decode_frame(e2) == Err::<FrameView, FrameError>(
                FrameError::LengthMismatch {
                    expected: (MIN_PACKET_SIZE + le32_at(e2, 4)) as usize,
                    got: e2.len() as usize,
                },
            )
            &&& (2 <= i < 4 || 8 <= i) ==> decode_frame(e2) matches Err(FrameError::BadCrc { .. })
        }),
{
    let x = encode_frame(f)[i];
    assert(x ^ (1u8 << k) != x) by (bit_vector)
        requires
            k < 8,
    ;
    lemma_byte_change_rejected(f, i, x ^ (1u8 << k));
}

/// One frame of the wire protocol.
pub struct FramedPacket {
    header: PacketHeader,
    identifier: u16,
    payload: heapless::Vec<u8, 256>,
    crc: u16,
}

impl View for FramedPacket {
    type V = FrameView;

    closed spec fn view(&self) -> FrameView {
        FrameView {
            header: self.header,
            identifier: self.identifier,
            payload: payload_bytes(self.payload),
            crc: self.crc,
        }
    }
}

impl FramedPacket {
    /// Builds a frame and its checksum; a payload over the capacity is refused.
    pub fn new(header: PacketHeader, identifier: u16, payload: &[u8]) -> (r: Result<FramedPacket, FrameError>)
        ensures
            payload@.len() <= MAX_PAYLOAD_SIZE ==> (r matches Ok(p) && p@ == make_frame(header, identifier, payload@)),
            payload@.len() > MAX_PAYLOAD_SIZE ==> r == Err::<FramedPacket, FrameError>(FrameError::PayloadTooLarge),
    {
        let mut buf = payload_new();
        match payload_extend(&mut buf, payload) {
            Ok(()) => {},
            Err(()) => {
                return Err(FrameError::PayloadTooLarge);
            },
        }
        let crc = Self::compute_crc(header, identifier, payload.len() as u32, payload);
        Ok(FramedPacket { header, identifier, payload: buf, crc })
    }

    /// Builds a frame from a payload known to fit.
    pub fn with_payload(header: PacketHeader, identifier: u16, payload: &[u8]) -> (r: FramedPacket)
        requires
            payload@.len() <= MAX_PAYLOAD_SIZE,
        ensures
            r@ == make_frame(header, identifier, payload@),
    {
        let mut buf = payload_new();
        match payload_extend(&mut buf, payload) {
            Ok(()) => {},
            Err(()) => {
                proof {
                    assert(false);
                }
            },
        }
        let crc = Self::compute_crc(header, identifier, payload.len() as u32, payload);
        FramedPacket { header, identifier, payload: buf, crc }
    }

    pub fn header(&self) -> (r: PacketHeader)
        ensures
            r == self@.header,
    {
        self.header
    }

    pub fn identifier(&self) -> (r: u16)
        ensures
            r == self@.identifier,
    {
        self.identifier
    }

    pub fn payload(&self) -> (r: &[u8])
        ensures
            r@ == self@.payload,
    {
        payload_as_slice(&self.payload)
    }

    pub fn crc(&self) -> (r: u16)
        ensures
            r == self@.crc,
    {
        self.crc
    }

    pub fn len(&self) -> (r: u32)
        requires
            valid_frame(self@),
        ensures
            r == self@.payload.len(),
    {
        payload_as_slice(&self.payload).len() as u32
    }

    pub fn is_empty(&self) -> (r: bool)
        ensures
            r == (self@.payload.len() == 0),
    {
        payload_as_slice(&self.payload).len() == 0
    }

    /// The wire bytes of this frame.
    pub fn to_bytes(&self) -> (r: Vec<u8>)
        requires
            valid_frame(self@),
        ensures
            r@ == encode_frame(self@),
    {
        let payload = payload_as_slice(&self.payload);
        let mut out: Vec<u8> = Vec::new();
        push_le16(&mut out, self.header.as_u16());
        push_le16(&mut out, self.identifier);
        push_le32(&mut out, payload.len() as u32);
        let mut i: usize = 0;
        while i < payload.len()
            invariant
                i <= payload@.len(),
                out@ == u16_le(header_code(self.header)) + u16_le(self.identifier) + u32_le(
                    payload@.len() as u32,
                ) + payload@.subrange(0, i as int),
            decreases payload.len() - i,
        {
            out.push(payload[i]);
            i = i + 1;
            assert(out@ =~= u16_le(header_code(self.header)) + u16_le(self.identifier) + u32_le(
                payload@.len() as u32,
            ) + payload@.subrange(0, i as int));
        }
        assert(payload@.subrange(0, payload@.len() as int) =~= payload@);
        push_le16(&mut out, self.crc);
        out
    }

    /// Parses `bytes`, which must hold exactly one whole frame.
    pub fn from_bytes(bytes: &[u8]) -> (r: Result<FramedPacket, FrameError>)
        ensures
            r matches Ok(p) ==> decode_frame(bytes@) == Ok::<FrameView, FrameError>(p@) && valid_frame(p@),
            r matches Err(e) ==> decode_frame(bytes@) == Err::<FrameView, FrameError>(e),
    {
        if bytes.len() < MIN_PACKET_SIZE {
            return Err(FrameError::TooShort);
        }
        let header_raw = read_le16(bytes, 0);
        let header = match PacketHeader::from_u16(header_raw) {
            Some(h) => h,
            None => {
                return Err(FrameError::UnknownIdentifier(header_raw));
            },
        };
        let identifier = read_le16(bytes, 2);
        let len = read_le32(bytes, 4);
        let expected: u64 = MIN_PACKET_SIZE as u64 + len as u64;
        if bytes.len() as u64 != expected {
            return Err(FrameError::LengthMismatch { expected: expected as usize, got: bytes.len() });
        }
        let payload_end: usize = bytes.len() - 2;
        let payload_slice = slice_subrange(bytes, 8, payload_end);
        let mut payload = payload_new();
        match payload_extend(&mut payload, payload_slice) {
            Ok(()) => {},
            Err(()) => {
                return Err(FrameError::PayloadTooLarge);
            },
        }
        let received_crc = read_le16(bytes, payload_end);
        let computed_crc = Self::compute_crc(header, identifier, len, payload_slice);
        if received_crc != computed_crc {
            return Err(FrameError::BadCrc { expected: computed_crc, got: received_crc });
        }
        Ok(FramedPacket { header, identifier, payload, crc: received_crc })
    }

    /// Checksum over `class ‖ identifier ‖ len ‖ payload`.
    pub fn compute_crc(header: PacketHeader, identifier: u16, len: u32, payload: &[u8]) -> (r: u16)
        requires
            len == payload@.len(),
        ensures
            r == frame_crc(header, identifier, payload@),
    {
        let mut input: Vec<u8> = Vec::new();
        push_le16(&mut input, header.as_u16());
        push_le16(&mut input, identifier);
        push_le32(&mut input, len);
        let mut i: usize = 0;
        while i < payload.len()
            invariant
                i <= payload@.len(),
                input@ == u16_le(header_code(header)) + u16_le(identifier) + u32_le(len)
                    + payload@.subrange(0, i as int),
            decreases payload.len() - i,
        {
            input.push(payload[i]);
            i = i + 1;
            assert(input@ =~= u16_le(header_code(header)) + u16_le(identifier) + u32_le(len)
                + payload@.subrange(0, i as int));
        }
        assert(payload@.subrange(0, payload@.len() as int) =~= payload@);
        crc16_ccitt(input.as_slice())
    }
}

} // verus!
