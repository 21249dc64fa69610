use firm_core::client::{target_nanos, PendingResponses, ReplayPacer, ResponseKind};
use firm_core::firm_packets::FIRMResponsePacket;

#[test]
fn unmatched_wait_takes_nothing() {
    let mut pending = PendingResponses::new();
    pending.push(FIRMResponsePacket::Cancel(true));
    assert!(pending.take_matching(ResponseKind::DeviceInfo).is_none());
    assert_eq!(pending.len(), 1);
}

#[test]
fn oldest_match_is_taken_and_others_stay() {
    let mut pending = PendingResponses::new();
    pending.push(FIRMResponsePacket::Cancel(true));
    pending.push(FIRMResponsePacket::SetDeviceConfig(false));
    pending.push(FIRMResponsePacket::SetDeviceConfig(true));
    assert_eq!(
        pending.take_matching(ResponseKind::SetDeviceConfig),
        Some(FIRMResponsePacket::SetDeviceConfig(false))
    );
    assert_eq!(pending.len(), 2);
    assert_eq!(pending.take_matching(ResponseKind::Cancel), Some(FIRMResponsePacket::Cancel(true)));
    assert_eq!(
        pending.take_matching(ResponseKind::SetDeviceConfig),
        Some(FIRMResponsePacket::SetDeviceConfig(true))
    );
    assert_eq!(pending.len(), 0);
}

#[test]
fn pacing_target_scales_with_speed() {
    assert_eq!(target_nanos(168_000_000, 1000), 1_000_000_000);
    assert_eq!(target_nanos(168_000_000, 2000), 500_000_000);
    assert_eq!(target_nanos(168, 1000), 1_000);
    assert_eq!(target_nanos(u64::MAX, 1), u64::MAX);
}

#[test]
fn pacer_sleeps_once_per_batch_after_burst() {
    let mut pacer = ReplayPacer::new(2, 3, 1000);
    assert_eq!(pacer.on_frame_sent(168_000, 0), 0);
    assert_eq!(pacer.on_frame_sent(168_000, 0), 0);
    assert_eq!(pacer.on_frame_sent(168_000, 0), 0);
    assert_eq!(pacer.on_frame_sent(168_000, 0), 0);
    assert_eq!(pacer.on_frame_sent(168_000, 1_000_000), 4_000_000);
    assert_eq!(pacer.on_frame_sent(168_000, 0), 0);
    assert_eq!(pacer.on_frame_sent(168_000, 0), 0);
    assert_eq!(pacer.on_frame_sent(168_000, 9_000_000), 0);
}
