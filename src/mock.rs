//! Log decoder: turns a captured session file into telemetry samples for
//! replay, one per IMU record, each carrying the latest reading of every
//! sensor and the recorded time.
//!
//! A session file is a fixed-size header followed by records. A record is a
//! sensor id, a 24-bit big-endian tick counter and a raw payload whose size
//! depends on the sensor. A zero byte between records is padding; any other
//! unknown byte is skipped on its own, so the decoder finds the next record.

use std::collections::VecDeque;
use vstd::prelude::*;
use vstd::slice::{slice_subrange, slice_to_vec};

use crate::bytes::{le32_at, read_le32};
use crate::constants::{
    mock_type_of_byte, FIRMMockPacketType, BMP581_ID, BMP581_SIZE, HEADER_TOTAL_SIZE, ICM45686_ID,
    ICM45686_SIZE, MMC5983MA_ID, MMC5983MA_SIZE,
};
use crate::framed_packet::FrameError;

verus! {

/// Ticks in one turn of the 24-bit counter.
pub const TICK_MODULUS: u32 = 16777216;

/// Where the five scale factors start in the header.
pub const SCALE_FACTORS_OFFSET: usize = 206;

/// The scale factors of a session, as the IEEE-754 single-precision bit
/// patterns the header stores.
#[derive(Debug, Clone, Copy, PartialEq, Eq, Structural)]
pub struct LogScaleFactors {
    pub bmp_temp_bits: u32,
    pub bmp_pressure_bits: u32,
    pub icm_accel_bits: u32,
    pub icm_gyro_bits: u32,
    pub mmc_mag_bits: u32,
}

/// The scale factors stored at the end of header `h`.
pub open spec fn scale_factors_of(h: Seq<u8>) -> LogScaleFactors {
    LogScaleFactors {
        bmp_temp_bits: le32_at(h, 206),
        bmp_pressure_bits: le32_at(h, 210),
        icm_accel_bits: le32_at(h, 214),
        icm_gyro_bits: le32_at(h, 218),
        mmc_mag_bits: le32_at(h, 222),
    }
}

/// Whether `id` opens a sensor record.
pub open spec fn is_sensor_id(id: u8) -> bool {
    id == BMP581_ID || id == ICM45686_ID || id == MMC5983MA_ID
}

/// Raw payload bytes that follow the tick counter in a record of sensor `id`.
pub open spec fn record_size(id: u8) -> int {
    if id == BMP581_ID {
        BMP581_SIZE as int
    } else if id == ICM45686_ID {
        ICM45686_SIZE as int
    } else {
        MMC5983MA_SIZE as int
    }
}

/// The 24-bit big-endian tick count at `b[i..i + 3]`.
pub open spec fn tick_at(b: Seq<u8>, i: int) -> u32 {
    (b[i] as int * 65536 + b[i + 1] as int * 256 + b[i + 2] as int) as u32
}

/// One record: the sensor, its tick count, and its raw payload (the bytes
/// after the tick counter).
pub ghost struct LogRecordView {
    pub kind: FIRMMockPacketType,
    pub tick: u32,
    pub raw: Seq<u8>,
}

/// What the decoder finds at one position of its buffer.
pub ghost enum LogStep {
    /// Padding, or a byte that opens no record: move on by one byte.
    Skip,
    /// A record starts here but is not all buffered yet.
    NeedMore,
    /// A whole record starts here and ends before the given position.
    Record(LogRecordView, int),
}

pub open spec fn log_step(b: Seq<u8>, pos: int) -> LogStep {
    if !is_sensor_id(b[pos]) {
        LogStep::Skip
    } else if b.len() - pos < 4 + record_size(b[pos]) {
        LogStep::NeedMore
    } else {
        let end = pos + 4 + record_size(b[pos]);
        LogStep::Record(
            LogRecordView {
                kind: mock_type_of_byte(b[pos])->Some_0,
                tick: tick_at(b, pos + 1),
                raw: b.subrange(pos + 4, end),
            },
            end,
        )
    }
}

/// Decodes `b` from `pos`: the records found, in file order, and the
/// position of the first record that is not all there yet (or the end).
pub open spec fn log_scan(b: Seq<u8>, pos: int) -> (Seq<LogRecordView>, int)
    decreases b.len() - pos,
{
    if pos < 0 || pos >= b.len() {
        (seq![], pos)
    } else {
        match log_step(b, pos) {
            LogStep::Skip => log_scan(b, pos + 1),
            LogStep::NeedMore => (seq![], pos),
            LogStep::Record(r, end) => if pos < end <= b.len() {
                let rest = log_scan(b, end);
                (seq![r] + rest.0, rest.1)
            } else {
                (seq![], pos)
            },
        }
    }
}

/// Ticks from `prev` forward to `t` on the wrapping 24-bit counter (`t` is
/// a 24-bit count; `prev` is taken modulo the counter's turn).
pub open spec fn tick_delta(prev: u32, t: u32) -> u32 {
    ((t + TICK_MODULUS - prev % TICK_MODULUS) % (TICK_MODULUS as int)) as u32
}

/// `a + b`, capped at the largest `u64`.
pub open spec fn add_capped(a: u64, b: u64) -> u64 {
    if a + b > u64::MAX {
        u64::MAX
    } else {
        (a + b) as u64
    }
}

/// What the decoder knows after the records read so far: the last tick
/// count (zero before the first record), the recorded time since the header,
/// and the latest reading of each sensor (zero before its first record).
#[derive(Debug, Clone, Copy, PartialEq, Eq, Structural)]
pub struct LogState {
    pub last_tick: u32,
    pub elapsed_ticks: u64,
    pub baro: BaroCounts,
    pub imu: ImuCounts,
    pub mag: MagCounts,
}

/// The state at the start of a session.
pub open spec fn initial_log_state() -> LogState {
    LogState {
        last_tick: 0,
        elapsed_ticks: 0,
        baro: BaroCounts { temperature: 0, pressure: 0 },
        imu: ImuCounts { accel_x: 0, accel_y: 0, accel_z: 0, gyro_x: 0, gyro_y: 0, gyro_z: 0 },
        mag: MagCounts { x: 0, y: 0, z: 0 },
    }
}

/// The state after one more record.
pub open spec fn apply_record(st: LogState, r: LogRecordView) -> LogState {
    let timed = LogState {
        last_tick: r.tick,
        elapsed_ticks: add_capped(st.elapsed_ticks, tick_delta(st.last_tick, r.tick) as u64),
        ..st
    };
    match r.kind {
        FIRMMockPacketType::B => LogState { baro: baro_counts_of(r.raw), ..timed },
        FIRMMockPacketType::I => LogState { imu: imu_counts_of(r.raw), ..timed },
        FIRMMockPacketType::M => LogState { mag: mag_counts_of(r.raw), ..timed },
        FIRMMockPacketType::Header => timed,
    }
}

/// The state after the records `recs`, in order.
pub open spec fn run_records(st: LogState, recs: Seq<LogRecordView>) -> LogState
    decreases recs.len(),
{
    if recs.len() == 0 {
        st
    } else {
        apply_record(run_records(st, recs.drop_last()), recs.last())
    }
}

/// One replayed telemetry sample: recorded time since the header, and the
/// latest reading of each sensor.
#[derive(Debug, Clone, Copy, PartialEq, Eq, Structural)]
pub struct MockSample {
    pub elapsed_ticks: u64,
    pub baro: BaroCounts,
    pub imu: ImuCounts,
    pub mag: MagCounts,
}

/// The sample that a state stands for.
pub open spec fn sample_of(st: LogState) -> MockSample {
    MockSample { elapsed_ticks: st.elapsed_ticks, baro: st.baro, imu: st.imu, mag: st.mag }
}

/// The samples that `recs` yield from state `st`: one after each IMU
/// record, none for barometer and magnetometer records.
pub open spec fn log_samples(st: LogState, recs: Seq<LogRecordView>) -> Seq<MockSample>
    decreases recs.len(),
{
    if recs.len() == 0 {
        seq![]
    } else {
        let init = recs.drop_last();
        let r = recs.last();
        let before = log_samples(st, init);
        if r.kind == FIRMMockPacketType::I {
            before.push(sample_of(apply_record(run_records(st, init), r)))
        } else {
            before
        }
    }
}

/// Delay of a sample after the one taken before it: none for the first,
/// and never negative.
pub open spec fn sample_delay(prev: Option<u64>, t: u64) -> u64 {
    match prev {
        None => 0,
        Some(p) => if t >= p {
            (t - p) as u64
        } else {
            0
        },
    }
}

/// The state of a decoder, as plain values.
pub ghost struct MockParserView {
    pub buffer: Seq<u8>,
    pub samples: Seq<MockSample>,
    pub header_parsed: bool,
    pub scale_factors: LogScaleFactors,
    pub state: LogState,
    pub last_taken: Option<u64>,
}

/// Streaming decoder for session files.
pub struct MockParser {
    bytes: Vec<u8>,
    parsed_packets: VecDeque<MockSample>,
    header_parsed: bool,
    scale_factors: LogScaleFactors,
    state: LogState,
    last_taken: Option<u64>,
}

impl View for MockParser {
    type V = MockParserView;

    closed spec fn view(&self) -> MockParserView {
        MockParserView {
            buffer: self.bytes@,
            samples: self.parsed_packets@,
            header_parsed: self.header_parsed,
            scale_factors: self.scale_factors,
            state: self.state,
            last_taken: self.last_taken,
        }
    }
}

fn zero_state() -> (r: LogState)
    ensures
        r == initial_log_state(),
{
    LogState {
        last_tick: 0,
        elapsed_ticks: 0,
        baro: BaroCounts { temperature: 0, pressure: 0 },
        imu: ImuCounts { accel_x: 0, accel_y: 0, accel_z: 0, gyro_x: 0, gyro_y: 0, gyro_z: 0 },
        mag: MagCounts { x: 0, y: 0, z: 0 },
    }
}

impl MockParser {
    pub fn new() -> (r: MockParser)
        ensures
            r@.buffer == Seq::<u8>::empty(),
            r@.samples == Seq::<MockSample>::empty(),
            !r@.header_parsed,
            r@.state == initial_log_state(),
            r@.last_taken is None,
    {
        MockParser {
            bytes: Vec::new(),
            parsed_packets: VecDeque::new(),
            header_parsed: false,
            scale_factors: LogScaleFactors {
                bmp_temp_bits: 0,
                bmp_pressure_bits: 0,
                icm_accel_bits: 0,
                icm_gyro_bits: 0,
                mmc_mag_bits: 0,
            },
            state: zero_state(),
            last_taken: None,
        }
    }

    /// Reads the session header and starts a fresh replay: the scale factors
    /// are taken from it, and buffered bytes, queued samples and the decoder
    /// state are reset. A header of the wrong size is refused and changes
    /// nothing.
    pub fn read_header(&mut self, header_bytes: &[u8]) -> (r: Result<(), FrameError>)
        ensures
            header_bytes@.len() != HEADER_TOTAL_SIZE ==> r == Err::<(), FrameError>(
                FrameError::LengthMismatch { expected: HEADER_TOTAL_SIZE, got: header_bytes@.len() as usize },
            ) && final(self)@ == old(self)@,
            header_bytes@.len() == HEADER_TOTAL_SIZE ==> r is Ok && final(self)@ == (MockParserView {
                buffer: Seq::<u8>::empty(),
                samples: Seq::<MockSample>::empty(),
                header_parsed: true,
                scale_factors: scale_factors_of(header_bytes@),
                state: initial_log_state(),
                last_taken: None,
            }),
    {
        if header_bytes.len() != HEADER_TOTAL_SIZE {
            return Err(FrameError::LengthMismatch { expected: HEADER_TOTAL_SIZE, got: header_bytes.len() });
        }
        self.scale_factors = LogScaleFactors {
            bmp_temp_bits: read_le32(header_bytes, 206),
            bmp_pressure_bits: read_le32(header_bytes, 210),
            icm_accel_bits: read_le32(header_bytes, 214),
            icm_gyro_bits: read_le32(header_bytes, 218),
            mmc_mag_bits: read_le32(header_bytes, 222),
        };
        self.bytes = Vec::new();
        self.parsed_packets = VecDeque::new();
        self.state = zero_state();
        self.last_taken = None;
        self.header_parsed = true;
        Ok(())
    }

    /// The scale factors of the session.
    pub fn scale_factors(&self) -> (r: LogScaleFactors)
        ensures
            r == self@.scale_factors,
    {
        self.scale_factors
    }

    /// Whether a header has been read.
    pub fn header_parsed(&self) -> (r: bool)
        ensures
            r == self@.header_parsed,
    {
        self.header_parsed
    }

    /// Appends `chunk`, decodes every whole record in the buffer, queues one
    /// sample per IMU record, and keeps the bytes of a record that is not all
    /// there yet. Before a header has been read it does nothing.
    pub fn parse_bytes(&mut self, chunk: &[u8])
        ensures
            !old(self)@.header_parsed ==> final(self)@ == old(self)@,
            old(self)@.header_parsed ==> ({
                let b = old(self)@.buffer + chunk@;
                let (recs, stop) = log_scan(b, 0);
                &&& final(self)@.buffer == b.subrange(stop, b.len() as int)
                &&& final(self)@.samples == old(self)@.samples + log_samples(old(self)@.state, recs)
                &&& final(self)@.state == run_records(old(self)@.state, recs)
                &&& final(self)@.header_parsed
                &&& final(self)@.scale_factors == old(self)@.scale_factors
                &&& final(self)@.last_taken == old(self)@.last_taken
            }),
    {
        if !self.header_parsed {
            return;
        }
        let ghost old_samples = self@.samples;
        let ghost st0 = self.state;
        self.bytes.extend_from_slice(chunk);
        let ghost b = self.bytes@;
        let n = self.bytes.len();
        let mut pos: usize = 0;
        let ghost mut found: Seq<LogRecordView> = seq![];
        loop
            invariant
                b == self.bytes@,
                n == b.len(),
                pos <= n,
                log_scan(b, 0) == (found + log_scan(b, pos as int).0, log_scan(b, pos as int).1),
                self.header_parsed,
                self.scale_factors == old(self).scale_factors,
                self.last_taken == old(self).last_taken,
                self.state == run_records(st0, found),
                self@.samples == old_samples + log_samples(st0, found),
            ensures
                b == self.bytes@,
                pos <= n,
                log_scan(b, 0) == (found, pos as int),
                self.header_parsed,
                self.scale_factors == old(self).scale_factors,
                self.last_taken == old(self).last_taken,
                self.state == run_records(st0, found),
                self@.samples == old_samples + log_samples(st0, found),
            decreases n - pos,
        {
            if pos >= n {
                assert(found + seq![] =~= found);
                break;
            }
            let id = self.bytes[pos];
            if !(id == BMP581_ID || id == ICM45686_ID || id == MMC5983MA_ID) {
                pos = pos + 1;
                continue;
            }
            let size: usize = if id == BMP581_ID {
                BMP581_SIZE
            } else if id == ICM45686_ID {
                ICM45686_SIZE
            } else {
                MMC5983MA_SIZE
            };
            if n - pos < 4 + size {
                assert(found + seq![] =~= found);
                break;
            }
            let end: usize = pos + 4 + size;
            let tick: u32 = self.bytes[pos + 1] as u32 * 65536 + self.bytes[pos + 2] as u32 * 256
                + self.bytes[pos + 3] as u32;
            let delta: u32 = (tick + TICK_MODULUS - self.state.last_tick % TICK_MODULUS) % TICK_MODULUS;
            let elapsed: u64 = if self.state.elapsed_ticks <= u64::MAX - delta as u64 {
                self.state.elapsed_ticks + delta as u64
            } else {
                u64::MAX
            };
            let raw = slice_subrange(self.bytes.as_slice(), pos + 4, end);
            let ghost r = LogRecordView {
                kind: mock_type_of_byte(id)->Some_0,
                tick,
                raw: b.subrange(pos + 4, end as int),
            };
            let ghost rest = log_scan(b, end as int);
            assert(log_step(b, pos as int) == LogStep::Record(r, end as int));
            assert(found + (seq![r] + rest.0) =~= found.push(r) + rest.0);
            assert(found.push(r).drop_last() =~= found);
            let mut next = LogState { last_tick: tick, elapsed_ticks: elapsed, ..self.state };
            if id == BMP581_ID {
                if let Some(c) = decode_baro(raw) {
                    next.baro = c;
                }
            } else if id == ICM45686_ID {
                if let Some(c) = decode_imu(raw) {
                    next.imu = c;
                }
            } else {
                if let Some(c) = decode_mag(raw) {
                    next.mag = c;
                }
            }
            assert(next == apply_record(self.state, r));
            self.state = next;
            if id == ICM45686_ID {
                self.parsed_packets.push_back(
                    MockSample { elapsed_ticks: next.elapsed_ticks, baro: next.baro, imu: next.imu, mag: next.mag },
                );
            }
            proof {
                found = found.push(r);
            }
            pos = end;
        }
        let tail = slice_to_vec(slice_subrange(self.bytes.as_slice(), pos, n));
        self.bytes = tail;
        assert(b == old(self)@.buffer + chunk@);
        assert(self@.buffer == b.subrange(pos as int, b.len() as int));
    }

    /// Takes the oldest queued sample with its delay, in ticks, after the
    /// sample taken before it (none for the first one after the header).
    pub fn get_packet_with_delay(&mut self) -> (r: Option<(MockSample, u64)>)
        ensures
            final(self)@.buffer == old(self)@.buffer,
            final(self)@.header_parsed == old(self)@.header_parsed,
            final(self)@.scale_factors == old(self)@.scale_factors,
            final(self)@.state == old(self)@.state,
            old(self)@.samples.len() == 0 ==> r is None && final(self)@ == old(self)@,
            old(self)@.samples.len() > 0 ==> ({
                let s = old(self)@.samples[0];
                &&& r == Some((s, sample_delay(old(self)@.last_taken, s.elapsed_ticks)))
                &&& final(self)@.samples == old(self)@.samples.drop_first()
                &&& final(self)@.last_taken == Some(s.elapsed_ticks)
            }),
    {
        match self.parsed_packets.pop_front() {
            Some(s) => {
                let delay: u64 = match self.last_taken {
                    None => 0,
                    Some(p) => if s.elapsed_ticks >= p {
                        s.elapsed_ticks - p
                    } else {
                        0
                    },
                };
                self.last_taken = Some(s.elapsed_ticks);
                Some((s, delay))
            },
            None => None,
        }
    }

    /// Takes the oldest queued sample.
    pub fn get_packet(&mut self) -> (r: Option<MockSample>)
        ensures
            final(self)@.buffer == old(self)@.buffer,
            final(self)@.state == old(self)@.state,
            old(self)@.samples.len() == 0 ==> r is None && final(self)@.samples == old(self)@.samples,
            old(self)@.samples.len() > 0 ==> r == Some(old(self)@.samples[0]) && final(self)@.samples
                == old(self)@.samples.drop_first(),
    {
        match self.get_packet_with_delay() {
            Some(e) => Some(e.0),
            None => None,
        }
    }
}

/// A 20-bit two's-complement value read as a signed integer.
pub open spec fn signed20(v: int) -> int {
    if v >= 524288 {
        v - 1048576
    } else {
        v
    }
}

/// One accelerometer and gyroscope sample, in raw sensor counts.
#[derive(Debug, Clone, Copy, PartialEq, Eq, Structural)]
pub struct ImuCounts {
    pub accel_x: i32,
    pub accel_y: i32,
    pub accel_z: i32,
    pub gyro_x: i32,
    pub gyro_y: i32,
    pub gyro_z: i32,
}

/// One magnetometer sample, in raw 18-bit counts.
#[derive(Debug, Clone, Copy, PartialEq, Eq, Structural)]
pub struct MagCounts {
    pub x: u32,
    pub y: u32,
    pub z: u32,
}

/// One barometer sample, in raw 24-bit counts.
#[derive(Debug, Clone, Copy, PartialEq, Eq, Structural)]
pub struct BaroCounts {
    pub temperature: u32,
    pub pressure: u32,
}

/// The IMU sample packed in `p`: each axis is a 20-bit two's-complement
/// value whose top 16 bits are two whole bytes and whose low nibble sits in
/// bytes 12 to 14 (high nibble for acceleration, low for rotation).
pub open spec fn imu_counts_of(p: Seq<u8>) -> ImuCounts {
    ImuCounts {
        accel_x: signed20(p[0] * 4096 + p[1] * 16 + p[12] / 16) as i32,
        accel_y: signed20(p[2] * 4096 + p[3] * 16 + p[13] / 16) as i32,
        accel_z: signed20(p[4] * 4096 + p[5] * 16 + p[14] / 16) as i32,
        gyro_x: signed20(p[6] * 4096 + p[7] * 16 + p[12] % 16) as i32,
        gyro_y: signed20(p[8] * 4096 + p[9] * 16 + p[13] % 16) as i32,
        gyro_z: signed20(p[10] * 4096 + p[11] * 16 + p[14] % 16) as i32,
    }
}

/// The magnetometer sample packed in `p`: each axis is an 18-bit unsigned
/// value whose top 16 bits are two whole bytes and whose low two bits sit in
/// byte 6 (bits 7-6 for x, 5-4 for y, 3-2 for z).
pub open spec fn mag_counts_of(p: Seq<u8>) -> MagCounts {
    MagCounts {
        x: (p[0] * 1024 + p[1] * 4 + p[6] / 64) as u32,
        y: (p[2] * 1024 + p[3] * 4 + (p[6] / 16) % 4) as u32,
        z: (p[4] * 1024 + p[5] * 4 + (p[6] / 4) % 4) as u32,
    }
}

/// The barometer sample in `p`: two 24-bit little-endian counts.
pub open spec fn baro_counts_of(p: Seq<u8>) -> BaroCounts {
    BaroCounts {
        temperature: (p[0] + p[1] * 256 + p[2] * 65536) as u32,
        pressure: (p[3] + p[4] * 256 + p[5] * 65536) as u32,
    }
}

fn signed20_exec(v: u32) -> (r: i32)
    requires
        v < 1048576,
    ensures
        r == signed20(v as int),
{
    if v >= 524288 {
        v as i32 - 1048576
    } else {
        v as i32
    }
}

/// Unpacks the raw payload of an IMU record; a shorter payload gives `None`.
pub fn decode_imu(p: &[u8]) -> (r: Option<ImuCounts>)
    ensures
        p@.len() >= ICM45686_SIZE ==> r == Some(imu_counts_of(p@)),
        p@.len() < ICM45686_SIZE ==> r is None,
{
    if p.len() < ICM45686_SIZE {
        return None;
    }
    let ax = p[0] as u32 * 4096 + p[1] as u32 * 16 + p[12] as u32 / 16;
    let ay = p[2] as u32 * 4096 + p[3] as u32 * 16 + p[13] as u32 / 16;
    let az = p[4] as u32 * 4096 + p[5] as u32 * 16 + p[14] as u32 / 16;
    let gx = p[6] as u32 * 4096 + p[7] as u32 * 16 + p[12] as u32 % 16;
    let gy = p[8] as u32 * 4096 + p[9] as u32 * 16 + p[13] as u32 % 16;
    let gz = p[10] as u32 * 4096 + p[11] as u32 * 16 + p[14] as u32 % 16;
    Some(ImuCounts {
        accel_x: signed20_exec(ax),
        accel_y: signed20_exec(ay),
        accel_z: signed20_exec(az),
        gyro_x: signed20_exec(gx),
        gyro_y: signed20_exec(gy),
        gyro_z: signed20_exec(gz),
    })
}

/// Unpacks the raw payload of a magnetometer record; a shorter payload gives `None`.
pub fn decode_mag(p: &[u8]) -> (r: Option<MagCounts>)
    ensures
        p@.len() >= MMC5983MA_SIZE ==> r == Some(mag_counts_of(p@)),
        p@.len() < MMC5983MA_SIZE ==> r is None,
{
    if p.len() < MMC5983MA_SIZE {
        return None;
    }
    Some(MagCounts {
        x: p[0] as u32 * 1024 + p[1] as u32 * 4 + p[6] as u32 / 64,
        y: p[2] as u32 * 1024 + p[3] as u32 * 4 + (p[6] as u32 / 16) % 4,
        z: p[4] as u32 * 1024 + p[5] as u32 * 4 + (p[6] as u32 / 4) % 4,
    })
}

/// Reads the raw payload of a barometer record; a shorter payload gives `None`.
pub fn decode_baro(p: &[u8]) -> (r: Option<BaroCounts>)
    ensures
        p@.len() >= BMP581_SIZE ==> r == Some(baro_counts_of(p@)),
        p@.len() < BMP581_SIZE ==> r is None,
{
    if p.len() < BMP581_SIZE {
        return None;
    }
    Some(BaroCounts {
        temperature: p[0] as u32 + p[1] as u32 * 256 + p[2] as u32 * 65536,
        pressure: p[3] as u32 + p[4] as u32 * 256 + p[5] as u32 * 65536,
    })
}

} // verus!
