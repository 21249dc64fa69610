//! Decisions of the client engine: matching responses to the calls that wait
//! for them, and pacing a log replay. The engine's threads, channels and
//! clock run around these.
//!
//! Responses carry no request id: a waiting call names the kind of response
//! it expects and takes the oldest buffered one of that kind. This relies on
//! the device answering in request order, with at most one request of each
//! kind in flight at a time.

use vstd::prelude::*;

use crate::constants::TICKS_PER_SECOND;
use crate::firm_packets::FIRMResponsePacket;

verus! {

/// The kinds of response a call can wait for.
#[derive(Debug, Clone, Copy, PartialEq, Eq, Structural)]
pub enum ResponseKind {
    DeviceInfo,
    DeviceConfig,
    SetDeviceConfig,
    Cancel,
    Error,
}

/// The kind of a response.
pub open spec fn kind_of(r: FIRMResponsePacket) -> ResponseKind {
    match r {
        FIRMResponsePacket::GetDeviceInfo(_) => ResponseKind::DeviceInfo,
        FIRMResponsePacket::GetDeviceConfig(_) => ResponseKind::DeviceConfig,
        FIRMResponsePacket::SetDeviceConfig(_) => ResponseKind::SetDeviceConfig,
        FIRMResponsePacket::Cancel(_) => ResponseKind::Cancel,
        FIRMResponsePacket::Error(_) => ResponseKind::Error,
    }
}

impl ResponseKind {
    /// The kind of `r`.
    pub fn of(r: &FIRMResponsePacket) -> (k: ResponseKind)
        ensures
            k == kind_of(*r),
    {
        match r {
            FIRMResponsePacket::GetDeviceInfo(_) => ResponseKind::DeviceInfo,
            FIRMResponsePacket::GetDeviceConfig(_) => ResponseKind::DeviceConfig,
            FIRMResponsePacket::SetDeviceConfig(_) => ResponseKind::SetDeviceConfig,
            FIRMResponsePacket::Cancel(_) => ResponseKind::Cancel,
            FIRMResponsePacket::Error(_) => ResponseKind::Error,
        }
    }
}

/// Whether no response of kind `k` stands in `s[..n]`.
pub open spec fn none_of_kind(s: Seq<FIRMResponsePacket>, k: ResponseKind, n: int) -> bool {
    forall|j: int| 0 <= j < n ==> kind_of(#[trigger] s[j]) != k
}

/// Responses received but not yet claimed, oldest first.
pub struct PendingResponses {
    items: Vec<FIRMResponsePacket>,
}

impl View for PendingResponses {
    type V = Seq<FIRMResponsePacket>;

    closed spec fn view(&self) -> Seq<FIRMResponsePacket> {
        self.items@
    }
}

impl PendingResponses {
    pub fn new() -> (r: PendingResponses)
        ensures
            r@ == Seq::<FIRMResponsePacket>::empty(),
    {
        PendingResponses { items: Vec::new() }
    }

    pub fn len(&self) -> (r: usize)
        ensures
            r == self@.len(),
    {
        self.items.len()
    }

    /// Buffers a newly received response behind the others.
    pub fn push(&mut self, r: FIRMResponsePacket)
        ensures
            final(self)@ == old(self)@.push(r),
    {
        self.items.push(r);
    }

    /// Removes and returns the oldest buffered response of kind `k`; the
    /// others stay, in order, for later calls. With none of that kind,
    /// nothing changes.
    pub fn take_matching(&mut self, k: ResponseKind) -> (r: Option<FIRMResponsePacket>)
        ensures
            none_of_kind(old(self)@, k, old(self)@.len() as int) ==> r is None && final(self)@ == old(
                self,
            )@,
            !none_of_kind(old(self)@, k, old(self)@.len() as int) ==> exists|i: int|
                0 <= i < old(self)@.len() && none_of_kind(old(self)@, k, i) && kind_of(
                    #[trigger] old(self)@[i],
                ) == k && r == Some(old(self)@[i]) && final(self)@ == old(self)@.remove(i),
    {
        let mut i: usize = 0;
        while i < self.items.len()
            invariant
                self@ == old(self)@,
                i <= self@.len(),
                none_of_kind(self@, k, i as int),
            decreases self@.len() - i,
        {
            if ResponseKind::of(&self.items[i]) == k {
                let ghost s = self@;
                let r = self.items.remove(i);
                assert(kind_of(s[i as int]) == k);
                return Some(r);
            }
            i = i + 1;
        }
        None
    }
}

/// Nanoseconds in a second.
pub const NANOS_PER_SECOND: u64 = 1000000000;

/// A replay speed of one, in thousandths.
pub const REAL_TIME_SPEED_MILLI: u64 = 1000;

/// Wall-clock nanoseconds by which a replay running at `speed_milli`
/// thousandths of real time should have reached `ticks` of recorded time,
/// rounded down and capped at the largest `u64`.
pub open spec fn replay_target_nanos(ticks: u64, speed_milli: u64) -> u64 {
    let t = (ticks * NANOS_PER_SECOND * REAL_TIME_SPEED_MILLI) / (TICKS_PER_SECOND * speed_milli);
    if t > u64::MAX {
        u64::MAX
    } else {
        t as u64
    }
}

/// Whether the frame just sent closes a batch after the initial burst.
pub open spec fn ends_batch(sent: u64, burst: u64, batch: u64) -> bool {
    sent > burst && (sent - burst) % (batch as int) == 0
}

/// Paces a replay: the first `burst` frames go out at once, then one sleep
/// after every `batch` frames brings the wall clock up to the recorded time
/// scaled by the speed; no sleep is asked when the replay is already late.
pub struct ReplayPacer {
    burst: u64,
    batch: u64,
    speed_milli: u64,
    sent: u64,
    ticks: u64,
}

/// The state of a pacer, as plain values.
pub ghost struct PacerView {
    pub burst: u64,
    pub batch: u64,
    pub speed_milli: u64,
    pub sent: u64,
    pub ticks: u64,
}

impl View for ReplayPacer {
    type V = PacerView;

    closed spec fn view(&self) -> PacerView {
        PacerView {
            burst: self.burst,
            batch: self.batch,
            speed_milli: self.speed_milli,
            sent: self.sent,
            ticks: self.ticks,
        }
    }
}

impl ReplayPacer {
    pub fn new(burst: u64, batch: u64, speed_milli: u64) -> (r: ReplayPacer)
        requires
            batch > 0,
            speed_milli > 0,
        ensures
            r@ == (PacerView { burst, batch, speed_milli, sent: 0, ticks: 0 }),
    {
        ReplayPacer { burst, batch, speed_milli, sent: 0, ticks: 0 }
    }

    /// Records that one more frame, recorded `delay_ticks` after the one
    /// before, has been sent, with `elapsed_nanos` of wall-clock time since the
    /// replay began; returns how long to sleep now (zero for no sleep).
    pub fn on_frame_sent(&mut self, delay_ticks: u64, elapsed_nanos: u64) -> (sleep: u64)
        requires
            old(self)@.batch > 0,
            old(self)@.speed_milli > 0,
        ensures
            final(self)@ == (PacerView {
                sent: if old(self)@.sent == u64::MAX { u64::MAX } else { (old(self)@.sent + 1) as u64 },
                ticks: if old(self)@.ticks + delay_ticks > u64::MAX {
                    u64::MAX
                } else {
                    (old(self)@.ticks + delay_ticks) as u64
                },
                ..old(self)@
            }),
            ({
                let target = replay_target_nanos(final(self)@.ticks, final(self)@.speed_milli);
                sleep == if ends_batch(final(self)@.sent, final(self)@.burst, final(self)@.batch)
                    && elapsed_nanos < target {
                    (target - elapsed_nanos) as u64
                } else {
                    0
                }
            }),
    {
        if self.sent < u64::MAX {
            self.sent = self.sent + 1;
        }
        if self.ticks <= u64::MAX - delay_ticks {
            self.ticks = self.ticks + delay_ticks;
        } else {
            self.ticks = u64::MAX;
        }
        if !(self.sent > self.burst && (self.sent - self.burst) % self.batch == 0) {
            return 0;
        }
        let target = target_nanos(self.ticks, self.speed_milli);
        if elapsed_nanos < target {
            target - elapsed_nanos
        } else {
            0
        }
    }
}

/// Computes `replay_target_nanos`.
pub fn target_nanos(ticks: u64, speed_milli: u64) -> (r: u64)
    requires
        speed_milli > 0,
    ensures
        r == replay_target_nanos(ticks, speed_milli),
{
    assert(ticks as int * 1000000000000 <= 18446744073709551615 * 1000000000000) by (nonlinear_arith)
        requires
            ticks <= 18446744073709551615,
    ;
    assert(168000000 * speed_milli as int <= 168000000 * 18446744073709551615) by (nonlinear_arith)
        requires
            speed_milli <= 18446744073709551615,
    ;
    let num: u128 = ticks as u128 * 1000000000000u128;
    let den: u128 = 168000000u128 * speed_milli as u128;
    let t = num / den;
    if t > u64::MAX as u128 {
        u64::MAX
    } else {
        t as u64
    }
}

} // verus!
