use std::collections::VecDeque;
use ar_drivers::binary_codec::{ImuPacket, McuPacket};
use ar_drivers::engine::{
    run_mcu_command_with, run_text_command_with, AckStep, CommandStep, ImuAckRun, McuRunError,
    McuStep, McuCommandRun, Ov580AckRun, RunError, TextCommandRun,
};
use ar_drivers::text_codec::Packet;

fn text_frame(category: u8, cmd_id: u8, data: &[u8]) -> Vec<u8> {
    Packet { category, cmd_id, data: data.to_vec() }.serialize().unwrap()
}

fn mcu_frame(cmd_id: u16, data: &[u8]) -> Vec<u8> {
    McuPacket { cmd_id, data: data.to_vec() }.serialize().unwrap()
}

#[test]
fn correlation_returns_payload_and_queues_unrelated() {
    // Three unrelated frames, then the one correlating with ('3', 'C').
    let responses = vec![
        text_frame(b'5', b'K', b"UP"),
        text_frame(b'5', b'P', b"near"),
        text_frame(b'4', b'X', b"zz"),
        text_frame(b'4', b'C', b"SERIAL42"),
    ];
    let mut pending: VecDeque<Packet> = VecDeque::new();
    let r = run_text_command_with(b'3', b'C', &responses, &mut pending);
    assert_eq!(r.unwrap(), b"SERIAL42".to_vec());
    // Exactly the three unrelated frames, in arrival order.
    assert_eq!(pending.len(), 3);
    assert_eq!(pending[0].category, b'5');
    assert_eq!(pending[0].cmd_id, b'K');
    assert_eq!(pending[0].data, b"UP".to_vec());
    assert_eq!(pending[1].data, b"near".to_vec());
    assert_eq!(pending[2].category, b'4');
    assert_eq!(pending[2].data, b"zz".to_vec());
}

#[test]
fn correlation_needs_category_plus_one() {
    // Same category as the request does not correlate.
    let responses = vec![text_frame(b'3', b'C', b"nope")];
    let mut pending: VecDeque<Packet> = VecDeque::new();
    let r = run_text_command_with(b'3', b'C', &responses, &mut pending);
    assert_eq!(r.unwrap_err(), RunError::Exhausted);
    assert_eq!(pending.len(), 1);
}

#[test]
fn junk_tolerance_seven_then_success() {
    let mut responses: Vec<Vec<u8>> = (0..7).map(|_| vec![0u8; 64]).collect();
    responses.push(text_frame(b'4', b'C', b"OK"));
    let mut pending: VecDeque<Packet> = VecDeque::new();
    let r = run_text_command_with(b'3', b'C', &responses, &mut pending);
    assert_eq!(r.unwrap(), b"OK".to_vec());
    assert!(pending.is_empty());
}

#[test]
fn junk_exhaustion_at_eight() {
    let responses: Vec<Vec<u8>> = (0..8).map(|_| vec![0u8; 64]).collect();
    let mut pending: VecDeque<Packet> = VecDeque::new();
    let r = run_text_command_with(b'3', b'C', &responses, &mut pending);
    assert_eq!(r.unwrap_err(), RunError::TooManyJunk);
    assert!(pending.is_empty());
}

#[test]
fn junk_counter_resets_after_well_formed_frame() {
    // 7 junk, one unrelated frame, 7 junk again, then the answer.
    let mut responses: Vec<Vec<u8>> = (0..7).map(|_| vec![0u8; 64]).collect();
    responses.push(text_frame(b'5', b'K', b"DN"));
    responses.extend((0..7).map(|_| vec![0u8; 64]));
    responses.push(text_frame(b'4', b'C', b"OK"));
    let mut pending: VecDeque<Packet> = VecDeque::new();
    let r = run_text_command_with(b'3', b'C', &responses, &mut pending);
    assert_eq!(r.unwrap(), b"OK".to_vec());
    assert_eq!(pending.len(), 1);
}

#[test]
fn unrelated_exhaustion_at_sixty_four() {
    let responses: Vec<Vec<u8>> = (0..64).map(|_| text_frame(b'5', b'K', b"UP")).collect();
    let mut pending: VecDeque<Packet> = VecDeque::new();
    let r = run_text_command_with(b'3', b'C', &responses, &mut pending);
    assert_eq!(r.unwrap_err(), RunError::TooManyUnrelated);
    // All 64 frames were still queued.
    assert_eq!(pending.len(), 64);
}

#[test]
fn empty_stream_exhausts() {
    let responses: Vec<Vec<u8>> = Vec::new();
    let mut pending: VecDeque<Packet> = VecDeque::new();
    let r = run_text_command_with(b'3', b'C', &responses, &mut pending);
    assert_eq!(r.unwrap_err(), RunError::Exhausted);
}

#[test]
fn step_machine_matches_batch_driver() {
    let mut run = TextCommandRun::new(b'3', b'C');
    let mut pending: VecDeque<Packet> = VecDeque::new();
    assert_eq!(run.feed(&vec![0u8; 64], &mut pending), CommandStep::Continue);
    assert_eq!(run.feed(&text_frame(b'5', b'P', b"away"), &mut pending), CommandStep::Continue);
    match run.feed(&text_frame(b'4', b'C', b"S"), &mut pending) {
        CommandStep::Done(v) => assert_eq!(v, b"S".to_vec()),
        other => panic!("expected Done, got {other:?}"),
    }
    assert_eq!(pending.len(), 1);
    assert_eq!(pending[0].data, b"away".to_vec());
}

#[test]
fn mcu_correlation_and_order() {
    let responses = vec![
        mcu_frame(0x6C05, &[2]),
        mcu_frame(0x6C09, b"err"),
        mcu_frame(0x15, b"\0AIRSER"),
    ];
    let mut pending: VecDeque<McuPacket> = VecDeque::new();
    let r = run_mcu_command_with(0x15, &responses, &mut pending);
    assert_eq!(r.unwrap(), b"\0AIRSER".to_vec());
    assert_eq!(pending.len(), 2);
    assert_eq!(pending[0].cmd_id, 0x6C05);
    assert_eq!(pending[1].cmd_id, 0x6C09);
}

#[test]
fn mcu_malformed_is_fatal() {
    let responses = vec![vec![0u8; 64], mcu_frame(0x15, b"\0X")];
    let mut pending: VecDeque<McuPacket> = VecDeque::new();
    let r = run_mcu_command_with(0x15, &responses, &mut pending);
    assert_eq!(r.unwrap_err(), McuRunError::Malformed);
    assert!(pending.is_empty());
}

#[test]
fn mcu_step_machine() {
    let mut run = McuCommandRun::new(0x7);
    let mut pending: VecDeque<McuPacket> = VecDeque::new();
    assert_eq!(run.feed(&mcu_frame(0x8, &[0]), &mut pending), McuStep::Continue);
    match run.feed(&mcu_frame(0x7, &[0, 3]), &mut pending) {
        McuStep::Done(v) => assert_eq!(v, vec![0, 3]),
        other => panic!("expected Done, got {other:?}"),
    }
    assert_eq!(pending.len(), 1);
}

#[test]
fn imu_ack_takes_any_valid_frame() {
    let mut run = ImuAckRun::new();
    assert_eq!(run.feed(&vec![0u8; 64]), AckStep::Continue);
    let frame = ImuPacket { cmd_id: 0x77, data: vec![9, 9] }.serialize().unwrap();
    match run.feed(&frame) {
        AckStep::Done(v) => assert_eq!(v, vec![9, 9]),
        other => panic!("expected Done, got {other:?}"),
    }
}

#[test]
fn ov580_ack_needs_leading_two() {
    let mut run = Ov580AckRun::new();
    let mut not_ack = vec![1u8; 128];
    not_ack[0] = 1;
    assert_eq!(run.feed(&not_ack), AckStep::Continue);
    let mut ack = vec![0u8; 128];
    ack[0] = 2;
    ack[1] = 1;
    ack[2] = 3;
    match run.feed(&ack) {
        AckStep::Done(v) => {
            assert_eq!(v.len(), 128);
            assert_eq!(&v[0..3], &[2, 1, 3]);
        },
        other => panic!("expected Done, got {other:?}"),
    }
}
