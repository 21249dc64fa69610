//! Streaming parser: turns an arbitrarily chunked byte stream into validated
//! frames, resynchronising one byte at a time past noise and damage.

use std::collections::VecDeque;
use vstd::prelude::*;
use vstd::slice::{slice_subrange, slice_to_vec};

use crate::bytes::{le16_at, le32_at, read_le16, read_le32};
use crate::constants::{header_of_code, PacketHeader, HEADER_SIZE, MAX_PAYLOAD_SIZE, MIN_PACKET_SIZE};
use crate::bytes::u16_le;
use crate::firm_packets::{response_matches, FIRMResponsePacket};
use crate::framed_packet::{
    decode_frame, encode_frame, frame_body, frame_crc, lemma_decode_body, lemma_encoded_len,
    lemma_frame_round_trip, valid_frame, FrameView, FramedPacket,
};

verus! {

/// What the scan finds at one position of the buffer.
pub ghost enum ScanStep {
    /// The bytes from here on may still become a frame: wait for more input.
    NeedMore,
    /// No frame starts here: move on by one byte.
    Skip,
    /// A whole, checked frame starts here and ends before the given position.
    Found(FrameView, int),
}

/// The scan's decision at position `pos` of buffer `b`. A known class whose
/// frame is not all buffered yet waits, whatever length it declares; once it
/// is all there, a frame that fails to decode is passed over by one byte.
pub open spec fn scan_at(b: Seq<u8>, pos: int) -> ScanStep {
    if b.len() - pos < HEADER_SIZE {
        ScanStep::NeedMore
    } else if header_of_code(le16_at(b, pos)) is None {
        ScanStep::Skip
    } else if b.len() - pos < MIN_PACKET_SIZE {
        ScanStep::NeedMore
    } else if b.len() - pos < MIN_PACKET_SIZE + le32_at(b, pos + 4) {
        ScanStep::NeedMore
    } else {
        let end = pos + MIN_PACKET_SIZE + le32_at(b, pos + 4);
        match decode_frame(b.subrange(pos, end)) {
            Ok(f) => ScanStep::Found(f, end),
            Err(_) => ScanStep::Skip,
        }
    }
}

/// Scans `b` from `pos`: the frames found, in order, and the position where
/// the scan stopped to wait for more input.
pub open spec fn scan(b: Seq<u8>, pos: int) -> (Seq<FrameView>, int)
    decreases b.len() - pos,
{
    if pos < 0 || b.len() - pos < HEADER_SIZE {
        (seq![], pos)
    } else {
        match scan_at(b, pos) {
            ScanStep::NeedMore => (seq![], pos),
            ScanStep::Skip => scan(b, pos + 1),
            ScanStep::Found(f, end) => if pos < end <= b.len() {
                let rest = scan(b, end);
                (seq![f] + rest.0, rest.1)
            } else {
                (seq![], pos)
            },
        }
    }
}

/// The frames of `fs` whose class is `h`, in order.
pub open spec fn of_class(fs: Seq<FrameView>, h: PacketHeader) -> Seq<FrameView>
    decreases fs.len(),
{
    if fs.len() == 0 {
        seq![]
    } else if fs.last().header == h {
        of_class(fs.drop_last(), h).push(fs.last())
    } else {
        of_class(fs.drop_last(), h)
    }
}

/// Appending a frame extends the selection by it exactly when its class matches.
pub proof fn lemma_of_class_push(fs: Seq<FrameView>, f: FrameView, h: PacketHeader)
    ensures
        of_class(fs.push(f), h) == if f.header == h {
            of_class(fs, h).push(f)
        } else {
            of_class(fs, h)
        },
{
    assert(fs.push(f).drop_last() =~= fs);
}

/// Where the bytes of a valid frame stand in a buffer, the scan finds that
/// frame there.
pub proof fn lemma_frame_at(b: Seq<u8>, m: int, f: FrameView)
    requires
        valid_frame(f),
        0 <= m,
        m + encode_frame(f).len() <= b.len(),
        b.subrange(m, m + encode_frame(f).len()) == encode_frame(f),
    ensures
        scan_at(b, m) == ScanStep::Found(f, m + encode_frame(f).len()),
{
    let e = encode_frame(f);
    lemma_encoded_len(f);
    lemma_frame_round_trip(f);
    assert(b[m] == e[0] && b[m + 1] == e[1]);
    assert(b[m + 4] == e[4] && b[m + 5] == e[5] && b[m + 6] == e[6] && b[m + 7] == e[7]);
    assert(le16_at(b, m) == le16_at(e, 0));
    assert(le32_at(b, m + 4) == le32_at(e, 4));
}

/// Positions where no frame class starts are passed over one by one.
pub proof fn lemma_skip_run(b: Seq<u8>, from: int, to: int)
    requires
        0 <= from <= to,
        to + HEADER_SIZE <= b.len(),
        forall|j: int| from <= j < to ==> header_of_code(#[trigger] le16_at(b, j)) is None,
    ensures
        scan(b, from) == scan(b, to),
    decreases to - from,
{
    if from < to {
        lemma_skip_run(b, from + 1, to);
    }
}

/// The scan of a buffer that holds exactly one valid frame finds that frame
/// and consumes everything.
pub proof fn lemma_scan_whole_frame(f: FrameView)
    requires
        valid_frame(f),
    ensures
        scan(encode_frame(f), 0) == (seq![f], encode_frame(f).len() as int),
{
    let e = encode_frame(f);
    assert(e.subrange(0, e.len() as int) =~= e);
    lemma_frame_at(e, 0, f);
    assert(scan(e, e.len() as int) == (Seq::<FrameView>::empty(), e.len() as int));
    assert(seq![f] + Seq::<FrameView>::empty() =~= seq![f]);
}

/// A valid frame fed in pieces gives the frames it gives when fed whole: each
/// proper prefix finds nothing and is kept entire, so once the last piece
/// arrives the buffer holds the whole frame, and the scan finds exactly it.
pub proof fn lemma_split_feed(f: FrameView, k: int)
    requires
        valid_frame(f),
        0 <= k < encode_frame(f).len(),
    ensures
        ({
            let e = encode_frame(f);
            let p = e.subrange(0, k);
            &&& scan(p, 0) == (Seq::<FrameView>::empty(), 0int)
            &&& p.subrange(scan(p, 0).1, p.len() as int) + e.subrange(k, e.len() as int) == e
            &&& scan(e, 0) == (seq![f], e.len() as int)
        }),
{
    let e = encode_frame(f);
    let p = e.subrange(0, k);
    lemma_encoded_len(f);
    lemma_scan_whole_frame(f);
    if k >= HEADER_SIZE {
        assert(le16_at(p, 0) == le16_at(e, 0));
        if k >= MIN_PACKET_SIZE {
            assert(le32_at(p, 4) == le32_at(e, 4));
        }
    }
    assert(p.subrange(0, p.len() as int) + e.subrange(k, e.len() as int) =~= e);
}

/// Noise in which no frame class starts, put before a valid frame, is
/// consumed and yields nothing; the frame is found exactly once.
pub proof fn lemma_noise_prefix(g: Seq<u8>, f: FrameView)
    requires
        valid_frame(f),
        forall|j: int| 0 <= j < g.len() ==> header_of_code(#[trigger] le16_at(g + encode_frame(f), j)) is None,
    ensures
        scan(g + encode_frame(f), 0) == (seq![f], (g.len() + encode_frame(f).len()) as int),
{
    let e = encode_frame(f);
    let b = g + e;
    lemma_encoded_len(f);
    lemma_skip_run(b, 0, g.len() as int);
    assert(b.subrange(g.len() as int, b.len() as int) =~= e);
    lemma_frame_at(b, g.len() as int, f);
    assert(scan(b, b.len() as int) == (Seq::<FrameView>::empty(), b.len() as int));
    assert(seq![f] + Seq::<FrameView>::empty() =~= seq![f]);
    assert(scan(b, g.len() as int) == (seq![f], b.len() as int));
}

/// A frame whose checksum was damaged is never reported; the valid frame that
/// follows it is, provided no frame class starts inside the damaged bytes.
pub proof fn lemma_bad_crc_then_frame(f: FrameView, bad: u16, g: FrameView)
    requires
        valid_frame(f),
        valid_frame(g),
        bad != f.crc,
        forall|j: int|
            1 <= j < MIN_PACKET_SIZE + f.payload.len() ==> header_of_code(
                #[trigger] le16_at(frame_body(f.header, f.identifier, f.payload) + u16_le(bad) + encode_frame(g), j),
            ) is None,
    ensures
        ({
            let c = frame_body(f.header, f.identifier, f.payload) + u16_le(bad);
            scan(c + encode_frame(g), 0) == (seq![g], (c.len() + encode_frame(g).len()) as int)
        }),
{
    let c = frame_body(f.header, f.identifier, f.payload) + u16_le(bad);
    let e = encode_frame(g);
    let b = c + e;
    let cf = FrameView { crc: bad, ..f };
    assert(c == encode_frame(cf));
    lemma_encoded_len(cf);
    lemma_encoded_len(g);
    lemma_decode_body(f.header, f.identifier, f.payload, bad);
    assert(le16_at(b, 0) == le16_at(c, 0));
    assert(le32_at(b, 4) == le32_at(c, 4));
    assert(b.subrange(0, c.len() as int) =~= c);
    assert(scan_at(b, 0) is Skip);
    lemma_skip_run(b, 1, c.len() as int);
    assert(b.subrange(c.len() as int, b.len() as int) =~= e);
    lemma_frame_at(b, c.len() as int, g);
    assert(scan(b, b.len() as int) == (Seq::<FrameView>::empty(), b.len() as int));
    assert(seq![g] + Seq::<FrameView>::empty() =~= seq![g]);
    assert(scan(b, c.len() as int) == (seq![g], b.len() as int));
}

/// The scan stops inside the buffer, no earlier than where it started.
pub proof fn lemma_scan_bounds(b: Seq<u8>, pos: int)
    requires
        0 <= pos <= b.len(),
    ensures
        pos <= scan(b, pos).1 <= b.len(),
    decreases b.len() - pos,
{
    if b.len() - pos >= HEADER_SIZE {
        match scan_at(b, pos) {
            ScanStep::Skip => lemma_scan_bounds(b, pos + 1),
            ScanStep::Found(f, end) => if pos < end <= b.len() {
                lemma_scan_bounds(b, end);
            },
            ScanStep::NeedMore => {},
        }
    }
}

/// A decision that does not wait for more input stays the same when more
/// input arrives.
proof fn lemma_scan_at_extend(x: Seq<u8>, y: Seq<u8>, p: int)
    requires
        0 <= p,
        x.len() - p >= HEADER_SIZE,
        !(scan_at(x, p) is NeedMore),
    ensures
        scan_at(x + y, p) == scan_at(x, p),
{
    let b = x + y;
    assert(b[p] == x[p] && b[p + 1] == x[p + 1]);
    assert(le16_at(b, p) == le16_at(x, p));
    if header_of_code(le16_at(x, p)) is Some {
        assert(b[p + 4] == x[p + 4] && b[p + 5] == x[p + 5] && b[p + 6] == x[p + 6] && b[p + 7]
            == x[p + 7]);
        assert(le32_at(b, p + 4) == le32_at(x, p + 4));
        let end = p + MIN_PACKET_SIZE + le32_at(x, p + 4);
        assert(b.subrange(p, end) =~= x.subrange(p, end));
    }
}

/// Scanning a buffer that has grown finds first what the shorter buffer
/// gave, then continues from where that scan stopped.
pub proof fn lemma_scan_prefix(x: Seq<u8>, y: Seq<u8>, p: int)
    requires
        0 <= p <= x.len(),
    ensures
        scan(x + y, p) == (scan(x, p).0 + scan(x + y, scan(x, p).1).0, scan(x + y, scan(x, p).1).1),
    decreases x.len() - p,
{
    let b = x + y;
    let r = scan(x, p);
    if x.len() - p < HEADER_SIZE || scan_at(x, p) is NeedMore {
        assert(r == (Seq::<FrameView>::empty(), p));
        assert(Seq::<FrameView>::empty() + scan(b, p).0 =~= scan(b, p).0);
    } else {
        lemma_scan_at_extend(x, y, p);
        match scan_at(x, p) {
            ScanStep::Skip => {
                lemma_scan_prefix(x, y, p + 1);
            },
            ScanStep::Found(f, end) => {
                lemma_scan_prefix(x, y, end);
                let rx = scan(x, end);
                assert(seq![f] + (rx.0 + scan(b, rx.1).0) =~= (seq![f] + rx.0) + scan(b, rx.1).0);
            },
            ScanStep::NeedMore => {},
        }
    }
}

/// The scan's decision at `e[j]` shifted by the bytes in front of it.
pub open spec fn shift_step(st: ScanStep, k: int) -> ScanStep {
    match st {
        ScanStep::Found(f, end) => ScanStep::Found(f, end + k),
        _ => st,
    }
}

proof fn lemma_scan_at_shift(d: Seq<u8>, e: Seq<u8>, j: int)
    requires
        0 <= j,
        e.len() - j >= HEADER_SIZE,
    ensures
        scan_at(d + e, d.len() + j) == shift_step(scan_at(e, j), d.len() as int),
{
    let b = d + e;
    let q = d.len() + j;
    assert(b[q] == e[j] && b[q + 1] == e[j + 1]);
    assert(le16_at(b, q) == le16_at(e, j));
    if header_of_code(le16_at(e, j)) is Some && e.len() - j >= MIN_PACKET_SIZE {
        assert(b[q + 4] == e[j + 4] && b[q + 5] == e[j + 5] && b[q + 6] == e[j + 6] && b[q + 7]
            == e[j + 7]);
        assert(le32_at(b, q + 4) == le32_at(e, j + 4));
        let len = MIN_PACKET_SIZE + le32_at(e, j + 4);
        if e.len() - j >= len {
            assert(b.subrange(q, q + len) =~= e.subrange(j, j + len));
        }
    }
}

/// Bytes in front of a buffer shift where its frames end, and nothing else.
pub proof fn lemma_scan_shift(d: Seq<u8>, e: Seq<u8>, j: int)
    requires
        0 <= j <= e.len(),
    ensures
        scan(d + e, d.len() + j) == (scan(e, j).0, scan(e, j).1 + d.len()),
    decreases e.len() - j,
{
    if e.len() - j >= HEADER_SIZE {
        lemma_scan_at_shift(d, e, j);
        match scan_at(e, j) {
            ScanStep::Skip => lemma_scan_shift(d, e, j + 1),
            ScanStep::Found(f, end) => if j < end <= e.len() {
                lemma_scan_shift(d, e, end);
            },
            ScanStep::NeedMore => {},
        }
    }
}

/// Selecting by class distributes over concatenation.
pub proof fn lemma_of_class_concat(a: Seq<FrameView>, b: Seq<FrameView>, h: PacketHeader)
    ensures
        of_class(a + b, h) == of_class(a, h) + of_class(b, h),
    decreases b.len(),
{
    if b.len() == 0 {
        assert(a + b =~= a);
        assert(of_class(a, h) + of_class(b, h) =~= of_class(a, h));
    } else {
        assert((a + b).drop_last() =~= a + b.drop_last());
        assert((a + b).last() == b.last());
        lemma_of_class_concat(a, b.drop_last(), h);
        if b.last().header == h {
            assert(of_class(a, h) + of_class(b.drop_last(), h).push(b.last()) =~= (of_class(a, h)
                + of_class(b.drop_last(), h)).push(b.last()));
        }
    }
}

/// Feeding a buffer's worth of input in two pieces, keeping what the first
/// scan left over, gives the frames and the left-over bytes of feeding it
/// all at once. By induction on the pieces, so does any split of a stream
/// into any number of chunks: frames split across feed calls decode as if
/// whole.
pub proof fn lemma_feed_in_two(buf: Seq<u8>, c1: Seq<u8>, c2: Seq<u8>)
    ensures
        ({
            let b1 = buf + c1;
            let (f1, s1) = scan(b1, 0);
            let b2 = b1.subrange(s1, b1.len() as int) + c2;
            let (f2, s2) = scan(b2, 0);
            let w = buf + c1 + c2;
            let (fw, sw) = scan(w, 0);
            &&& f1 + f2 == fw
            &&& b2.subrange(s2, b2.len() as int) == w.subrange(sw, w.len() as int)
            &&& of_class(fw, PacketHeader::Data) == of_class(f1, PacketHeader::Data) + of_class(
                f2,
                PacketHeader::Data,
            )
            &&& of_class(fw, PacketHeader::Response) == of_class(f1, PacketHeader::Response)
                + of_class(f2, PacketHeader::Response)
        }),
{
    let b1 = buf + c1;
    let (f1, s1) = scan(b1, 0);
    lemma_scan_bounds(b1, 0);
    let d = b1.subrange(0, s1);
    let r1 = b1.subrange(s1, b1.len() as int);
    let b2 = r1 + c2;
    let w = buf + c1 + c2;
    assert(w =~= b1 + c2);
    lemma_scan_prefix(b1, c2, 0);
    assert(w =~= d + b2);
    lemma_scan_shift(d, b2, 0);
    let (f2, s2) = scan(b2, 0);
    lemma_scan_bounds(b2, 0);
    assert(b2.subrange(s2, b2.len() as int) =~= w.subrange(s2 + s1, w.len() as int));
    lemma_of_class_concat(f1, f2, PacketHeader::Data);
    lemma_of_class_concat(f1, f2, PacketHeader::Response);
}

/// The state of a parser, as plain values.
pub ghost struct ParserView {
    /// Bytes received but not yet consumed.
    pub buffer: Seq<u8>,
    /// Telemetry frames waiting to be taken.
    pub packets: Seq<FrameView>,
    /// Response frames waiting to be taken.
    pub responses: Seq<FrameView>,
}

enum Step {
    NeedMore,
    Skip,
    Found(FramedPacket, usize),
}

/// Decides what starts at `pos`; the exec counterpart of `scan_at`.
fn scan_step(b: &[u8], pos: usize) -> (r: Step)
    requires
        pos <= b@.len(),
    ensures
        r is NeedMore ==> scan_at(b@, pos as int) is NeedMore,
        r is Skip ==> scan_at(b@, pos as int) is Skip && pos + HEADER_SIZE <= b@.len(),
        r matches Step::Found(p, end) ==> scan_at(b@, pos as int) == ScanStep::Found(p@, end as int)
            && valid_frame(p@) && pos < end <= b@.len(),
{
    let n = b.len();
    if n - pos < HEADER_SIZE {
        return Step::NeedMore;
    }
    let class = read_le16(b, pos);
    if PacketHeader::from_u16(class).is_none() {
        return Step::Skip;
    }
    if n - pos < MIN_PACKET_SIZE {
        return Step::NeedMore;
    }
    let len = read_le32(b, pos + 4);
    if ((n - pos) as u64) < MIN_PACKET_SIZE as u64 + len as u64 {
        return Step::NeedMore;
    }
    let end: usize = pos + MIN_PACKET_SIZE + len as usize;
    match FramedPacket::from_bytes(slice_subrange(b, pos, end)) {
        Ok(p) => Step::Found(p, end),
        Err(_) => Step::Skip,
    }
}

/// Accumulates stream bytes and queues the frames found in them by class.
pub struct SerialParser {
    serial_bytes: Vec<u8>,
    parsed_packets: VecDeque<FramedPacket>,
    parsed_responses: VecDeque<FramedPacket>,
}

impl View for SerialParser {
    type V = ParserView;

    closed spec fn view(&self) -> ParserView {
        ParserView {
            buffer: self.serial_bytes@,
            packets: self.parsed_packets@.map_values(|p: FramedPacket| p@),
            responses: self.parsed_responses@.map_values(|p: FramedPacket| p@),
        }
    }
}

impl SerialParser {
    /// Every queued frame is one the codec would build.
    pub closed spec fn wf(&self) -> bool {
        &&& forall|i: int| 0 <= i < self.parsed_packets@.len() ==> valid_frame(#[trigger] self.parsed_packets@[i]@)
        &&& forall|i: int| 0 <= i < self.parsed_responses@.len() ==> valid_frame(#[trigger] self.parsed_responses@[i]@)
    }

    pub fn new() -> (r: SerialParser)
        ensures
            r.wf(),
            r@.buffer == Seq::<u8>::empty(),
            r@.packets == Seq::<FrameView>::empty(),
            r@.responses == Seq::<FrameView>::empty(),
    {
        let r = SerialParser {
            serial_bytes: Vec::new(),
            parsed_packets: VecDeque::new(),
            parsed_responses: VecDeque::new(),
        };
        assert(r@.packets =~= Seq::<FrameView>::empty());
        assert(r@.responses =~= Seq::<FrameView>::empty());
        r
    }

    /// Appends `bytes` to the buffer, scans it from the start, queues every
    /// telemetry and response frame found, and keeps only the bytes from the
    /// position where the scan stopped.
    pub fn parse_bytes(&mut self, bytes: &[u8])
        requires
            old(self).wf(),
        ensures
            final(self).wf(),
            ({
                let b = old(self)@.buffer + bytes@;
                let (found, stop) = scan(b, 0);
                &&& final(self)@.buffer == b.subrange(stop, b.len() as int)
                &&& final(self)@.packets == old(self)@.packets + of_class(found, PacketHeader::Data)
                &&& final(self)@.responses == old(self)@.responses + of_class(found, PacketHeader::Response)
            }),
    {
        let ghost old_packets = self@.packets;
        let ghost old_responses = self@.responses;
        self.serial_bytes.extend_from_slice(bytes);
        let ghost b = self.serial_bytes@;
        let mut pos: usize = 0;
        let ghost mut found: Seq<FrameView> = seq![];
        let n = self.serial_bytes.len();
        loop
            invariant
                b == self.serial_bytes@,
                n == b.len(),
                pos <= b.len(),
                scan(b, 0) == (found + scan(b, pos as int).0, scan(b, pos as int).1),
                self.wf(),
                self@.packets == old_packets + of_class(found, PacketHeader::Data),
                self@.responses == old_responses + of_class(found, PacketHeader::Response),
            ensures
                b == self.serial_bytes@,
                pos <= b.len(),
                scan(b, 0) == (found, pos as int),
                self.wf(),
                self@.packets == old_packets + of_class(found, PacketHeader::Data),
                self@.responses == old_responses + of_class(found, PacketHeader::Response),
            decreases b.len() - pos,
        {
            match scan_step(self.serial_bytes.as_slice(), pos) {
                Step::NeedMore => {
                    assert(scan(b, 0) == (found, pos as int)) by {
                        assert(found + seq![] =~= found);
                    }
                    break;
                },
                Step::Skip => {
                    pos = pos + 1;
                },
                Step::Found(p, end) => {
                    let ghost f = p@;
                    let ghost rest = scan(b, end as int);
                    assert(found + (seq![f] + rest.0) =~= found.push(f) + rest.0);
                    proof {
                        lemma_of_class_push(found, f, PacketHeader::Data);
                        lemma_of_class_push(found, f, PacketHeader::Response);
                    }
                    let h = p.header();
                    match h {
                        PacketHeader::Data => {
                            let ghost q = self.parsed_packets@;
                            self.parsed_packets.push_back(p);
                            assert(self.parsed_packets@.map_values(|p: FramedPacket| p@) =~= q.map_values(
                                |p: FramedPacket| p@,
                            ).push(f));
                        },
                        PacketHeader::Response => {
                            let ghost q = self.parsed_responses@;
                            self.parsed_responses.push_back(p);
                            assert(self.parsed_responses@.map_values(|p: FramedPacket| p@) =~= q.map_values(
                                |p: FramedPacket| p@,
                            ).push(f));
                        },
                        _ => {},
                    }
                    proof { found = found.push(f); }
                    pos = end;
                },
            }
        }
        let tail = slice_to_vec(slice_subrange(self.serial_bytes.as_slice(), pos, self.serial_bytes.len()));
        self.serial_bytes = tail;
        assert(b == old(self)@.buffer + bytes@);
        assert(self@.buffer == b.subrange(pos as int, b.len() as int));
    }

    /// Takes the oldest queued telemetry frame.
    pub fn get_packet(&mut self) -> (r: Option<FramedPacket>)
        requires
            old(self).wf(),
        ensures
            final(self).wf(),
            final(self)@.buffer == old(self)@.buffer,
            final(self)@.responses == old(self)@.responses,
            old(self)@.packets.len() == 0 ==> r is None && final(self)@.packets == old(self)@.packets,
            old(self)@.packets.len() > 0 ==> (r matches Some(p) && p@ == old(self)@.packets[0]
                && valid_frame(p@) && final(self)@.packets == old(self)@.packets.drop_first()),
    {
        let r = self.parsed_packets.pop_front();
        proof {
            if r is Some {
                assert(self@.packets =~= old(self)@.packets.drop_first());
            }
        }
        r
    }

    /// Takes the oldest queued response frame and decodes its payload.
    pub fn get_response(&mut self) -> (r: Option<FIRMResponsePacket>)
        requires
            old(self).wf(),
        ensures
            final(self).wf(),
            final(self)@.buffer == old(self)@.buffer,
            final(self)@.packets == old(self)@.packets,
            old(self)@.responses.len() == 0 ==> r is None && final(self)@.responses == old(self)@.responses,
            old(self)@.responses.len() > 0 ==> (r matches Some(x) && response_matches(
                old(self)@.responses[0].payload,
                x,
            ) && final(self)@.responses == old(self)@.responses.drop_first()),
    {
        match self.parsed_responses.pop_front() {
            Some(p) => {
                assert(self@.responses =~= old(self)@.responses.drop_first());
                Some(FIRMResponsePacket::from_bytes(p.payload()))
            },
            None => None,
        }
    }
}

} // verus!
