use std::collections::VecDeque;
use ar_drivers::sensor::{parse_air_report, parse_ov580_report, RawImuPair, RawSample};
use ar_drivers::session::{HeartbeatTimer, LightPoll, PollDirective, SharedSlot};
use ar_drivers::text_codec::Packet;

fn sample(ts: u64, x: i32, y: i32, z: i32) -> RawSample {
    RawSample { timestamp: ts, mul: 1, div: 1, x, y, z }
}

fn pair(ts: u64) -> RawImuPair {
    RawImuPair { gyro: sample(ts, 1, 2, 3), accel: sample(ts, 4, 5, 6) }
}

#[test]
fn heartbeat_close_polls_emit_at_most_once() {
    let mut hb = HeartbeatTimer::new(0);
    // First poll past the interval emits.
    assert!(hb.poll(300));
    // A second poll less than 250ms later does not.
    assert!(!hb.poll(451));
    assert!(!hb.poll(550));
}

#[test]
fn heartbeat_spaced_polls_each_emit() {
    let mut hb = HeartbeatTimer::new(0);
    assert!(hb.poll(251));
    assert!(hb.poll(502));
    assert!(hb.poll(753));
}

#[test]
fn heartbeat_timestamp_updates_only_on_emission() {
    let mut hb = HeartbeatTimer::new(100);
    assert!(!hb.poll(200));
    // Not emitting leaves the deadline anchored at 100, so 351 is due.
    assert!(hb.poll(351));
    // Emitting re-anchors at 351.
    assert!(!hb.poll(601));
    assert!(hb.poll(602));
}

#[test]
fn slot_overwrite_keeps_only_second_value() {
    let mut slot: SharedSlot<u32> = SharedSlot::new();
    slot.store(1);
    slot.store(2);
    assert_eq!(slot.take(), Some(2));
    assert_eq!(slot.take(), None);
}

#[test]
fn slot_delivers_then_empties() {
    let mut slot: SharedSlot<RawImuPair> = SharedSlot::new();
    assert_eq!(slot.take(), None);
    slot.store(pair(7));
    let got = slot.take().unwrap();
    assert_eq!(got.gyro.timestamp, 7);
    assert_eq!(slot.take(), None);
}

#[test]
fn poll_priority_motion_first() {
    let mut poll = LightPoll::new(0);
    poll.pending.push_back(Packet { category: b'5', cmd_id: b'K', data: b"UP".to_vec() });
    let (_, directive) = poll.poll_begin(10, Some(pair(1)), true);
    match directive {
        PollDirective::Motion(p) => assert_eq!(p.gyro.timestamp, 1),
        other => panic!("expected Motion, got a different directive: {}", kind(&other)),
    }
    // The pending discrete event was not consumed.
    assert_eq!(poll.pending.len(), 1);
}

#[test]
fn starved_discrete_event_under_sustained_motion() {
    // The slot is refreshed before every poll: the queued key event is
    // never delivered, however many polls run.
    let mut poll = LightPoll::new(0);
    poll.pending.push_back(Packet { category: b'5', cmd_id: b'K', data: b"UP".to_vec() });
    for t in 0..100u64 {
        let (_, directive) = poll.poll_begin(t, Some(pair(t)), true);
        assert!(matches!(directive, PollDirective::Motion(_)));
    }
    assert_eq!(poll.pending.len(), 1);
}

#[test]
fn poll_dead_thread_disconnects() {
    let mut poll = LightPoll::new(0);
    poll.pending.push_back(Packet { category: b'5', cmd_id: b'K', data: b"UP".to_vec() });
    let (_, directive) = poll.poll_begin::<RawImuPair>(10, None, false);
    assert!(matches!(directive, PollDirective::Disconnected));
}

#[test]
fn poll_drains_pending_in_order_then_reads() {
    let mut poll = LightPoll::new(0);
    poll.pending.push_back(Packet { category: b'5', cmd_id: b'K', data: b"UP".to_vec() });
    poll.pending.push_back(Packet { category: b'5', cmd_id: b'P', data: b"near".to_vec() });
    let (_, d1) = poll.poll_begin::<RawImuPair>(1, None, true);
    match d1 {
        PollDirective::Pending(p) => assert_eq!(p.data, b"UP".to_vec()),
        other => panic!("expected Pending, got a different directive: {}", kind(&other)),
    }
    let (_, d2) = poll.poll_begin::<RawImuPair>(2, None, true);
    match d2 {
        PollDirective::Pending(p) => assert_eq!(p.data, b"near".to_vec()),
        other => panic!("expected Pending, got a different directive: {}", kind(&other)),
    }
    let (_, d3) = poll.poll_begin::<RawImuPair>(3, None, true);
    assert!(matches!(d3, PollDirective::NeedRead));
}

#[test]
fn poll_emits_heartbeat_with_directive() {
    let mut poll = LightPoll::new(0);
    let (emit, _) = poll.poll_begin::<RawImuPair>(300, None, true);
    assert!(emit);
    let (emit2, _) = poll.poll_begin::<RawImuPair>(301, None, true);
    assert!(!emit2);
}

fn kind(d: &PollDirective<RawImuPair>) -> &'static str {
    match d {
        PollDirective::Motion(_) => "Motion",
        PollDirective::Disconnected => "Disconnected",
        PollDirective::Pending(_) => "Pending",
        PollDirective::NeedRead => "NeedRead",
    }
}

#[test]
fn ov580_report_fields_extract() {
    let mut report = vec![0u8; 0x80];
    report[0] = 1;
    // Gyro: timestamp 2_000_000 ticks -> 2000, mul 1, div 2, x -3, y 4, z 5.
    report[44..52].copy_from_slice(&2_000_000u64.to_le_bytes());
    report[52..56].copy_from_slice(&1u32.to_le_bytes());
    report[56..60].copy_from_slice(&2u32.to_le_bytes());
    report[60..64].copy_from_slice(&(-3i32).to_le_bytes());
    report[64..68].copy_from_slice(&4i32.to_le_bytes());
    report[68..72].copy_from_slice(&5i32.to_le_bytes());
    // Accel: timestamp 999 ticks -> 0, mul 9, div 81, x 7, y -8, z 9.
    report[72..80].copy_from_slice(&999u64.to_le_bytes());
    report[80..84].copy_from_slice(&9u32.to_le_bytes());
    report[84..88].copy_from_slice(&81u32.to_le_bytes());
    report[88..92].copy_from_slice(&7i32.to_le_bytes());
    report[92..96].copy_from_slice(&(-8i32).to_le_bytes());
    report[96..100].copy_from_slice(&9i32.to_le_bytes());

    let p = parse_ov580_report(&report).expect("marker byte set");
    assert_eq!(p.gyro.timestamp, 2000);
    assert_eq!(p.gyro.mul, 1);
    assert_eq!(p.gyro.div, 2);
    assert_eq!((p.gyro.x, p.gyro.y, p.gyro.z), (-3, 4, 5));
    assert_eq!(p.accel.timestamp, 0);
    assert_eq!(p.accel.mul, 9);
    assert_eq!(p.accel.div, 81);
    assert_eq!((p.accel.x, p.accel.y, p.accel.z), (7, -8, 9));
}

#[test]
fn ov580_report_needs_marker() {
    let mut report = vec![0u8; 0x80];
    report[0] = 2;
    assert!(parse_ov580_report(&report).is_none());
    assert!(parse_ov580_report(&[1u8; 10]).is_none());
}

#[test]
fn air_report_fields_extract() {
    let mut report = vec![0u8; 0x80];
    report[0] = 1;
    report[1] = 2;
    report[4..12].copy_from_slice(&90_000u64.to_le_bytes());
    report[12..14].copy_from_slice(&1u16.to_le_bytes());
    report[14..18].copy_from_slice(&1u32.to_le_bytes());
    // Gyro x: -2 as 24-bit little endian is FE FF FF.
    report[18..21].copy_from_slice(&[0xFE, 0xFF, 0xFF]);
    // Gyro y: 90.
    report[21..24].copy_from_slice(&[90, 0, 0]);
    // Gyro z: the most negative 24-bit value.
    report[24..27].copy_from_slice(&[0x00, 0x00, 0x80]);
    report[27..29].copy_from_slice(&3u16.to_le_bytes());
    report[29..33].copy_from_slice(&4u32.to_le_bytes());
    report[33..36].copy_from_slice(&[1, 0, 0]);
    report[36..39].copy_from_slice(&[0xFF, 0xFF, 0x7F]);
    report[39..42].copy_from_slice(&[5, 1, 0]);

    let p = parse_air_report(&report).expect("marker bytes set");
    assert_eq!(p.timestamp, 90);
    assert_eq!(p.gyro_mul, 1);
    assert_eq!(p.gyro_div, 1);
    assert_eq!((p.gyro_x, p.gyro_y, p.gyro_z), (-2, 90, -8_388_608));
    assert_eq!(p.accel_mul, 3);
    assert_eq!(p.accel_div, 4);
    assert_eq!((p.accel_x, p.accel_y, p.accel_z), (1, 8_388_607, 261));
}

#[test]
fn air_report_needs_both_markers() {
    let mut report = vec![0u8; 0x80];
    report[0] = 1;
    report[1] = 1;
    assert!(parse_air_report(&report).is_none());
}
