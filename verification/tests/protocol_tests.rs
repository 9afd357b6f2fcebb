use ar_drivers::protocol::{
    air_display_mode_request, air_mode_ack_ok, air_serial_payload, air_serial_request,
    air_set_mode_request, ambient_on_request, config_chunk_request, config_length_request,
    display_mode_request, heartbeat_request, imu_stream_request, light_set_mode_request,
    mode_ack_ok, ov580_command_report, parse_air_display_mode, parse_light_display_mode,
    sdk_on_request, serial_request, vsync_off_request, DisplayMode,
};

#[test]
fn light_requests_have_documented_shape() {
    let s = serial_request();
    assert_eq!((s.category, s.cmd_id), (b'3', b'C'));
    assert_eq!(s.data, b"x".to_vec());
    let d = display_mode_request();
    assert_eq!((d.category, d.cmd_id), (b'3', b'3'));
    let h = heartbeat_request();
    assert_eq!((h.category, h.cmd_id), (b'@', b'K'));
    let v = vsync_off_request();
    assert_eq!((v.category, v.cmd_id, v.data.clone()), (b'1', b'N', b"0".to_vec()));
    let k = sdk_on_request();
    assert_eq!((k.category, k.cmd_id, k.data.clone()), (b'@', b'3', b"1".to_vec()));
    let a = ambient_on_request();
    assert_eq!((a.category, a.cmd_id, a.data.clone()), (b'1', b'L', b"1".to_vec()));
}

#[test]
fn light_display_mode_bytes() {
    assert_eq!(parse_light_display_mode(&b"1&2D_1080".to_vec()), Some(DisplayMode::SameOnBoth));
    assert_eq!(parse_light_display_mode(&b"2&3D_540".to_vec()), Some(DisplayMode::Stereo));
    assert_eq!(parse_light_display_mode(&b"3&3D_1080".to_vec()), Some(DisplayMode::Stereo));
    assert_eq!(parse_light_display_mode(&b"4&3D_1080#72".to_vec()), Some(DisplayMode::Stereo));
    assert_eq!(parse_light_display_mode(&b"9".to_vec()), None);
    assert_eq!(parse_light_display_mode(&Vec::new()), None);
}

#[test]
fn light_set_mode_maps_and_rejects() {
    let (p, b) = light_set_mode_request(DisplayMode::SameOnBoth).unwrap();
    assert_eq!((p.category, p.cmd_id, p.data.clone(), b), (b'1', b'3', vec![b'1'], b'1'));
    let (p, b) = light_set_mode_request(DisplayMode::Stereo).unwrap();
    assert_eq!((p.data.clone(), b), (vec![b'3'], b'3'));
    // Modes the text family does not have.
    assert!(light_set_mode_request(DisplayMode::HalfSBS).is_none());
    assert!(light_set_mode_request(DisplayMode::HighRefreshRate).is_none());
    assert!(light_set_mode_request(DisplayMode::HighRefreshRateSBS).is_none());
}

#[test]
fn mode_ack_checks_first_byte() {
    assert!(mode_ack_ok(&vec![b'3', 0], b'3'));
    assert!(!mode_ack_ok(&vec![b'1'], b'3'));
    assert!(!mode_ack_ok(&Vec::new(), b'3'));
}

#[test]
fn air_serial_strips_status_byte() {
    let r = air_serial_request();
    assert_eq!(r.cmd_id, 0x15);
    assert_eq!(air_serial_payload(&b"\0SER123".to_vec()), Some(b"SER123".to_vec()));
    assert_eq!(air_serial_payload(&Vec::new()), None);
}

#[test]
fn air_display_mode_bytes() {
    let q = air_display_mode_request();
    assert_eq!(q.cmd_id, 0x7);
    assert_eq!(parse_air_display_mode(&vec![0, 1]), Some(DisplayMode::SameOnBoth));
    assert_eq!(parse_air_display_mode(&vec![0, 3]), Some(DisplayMode::Stereo));
    assert_eq!(parse_air_display_mode(&vec![0, 4]), Some(DisplayMode::HighRefreshRate));
    assert_eq!(parse_air_display_mode(&vec![0, 5]), Some(DisplayMode::SameOnBoth));
    assert_eq!(parse_air_display_mode(&vec![0, 8]), Some(DisplayMode::HalfSBS));
    assert_eq!(parse_air_display_mode(&vec![0, 9]), Some(DisplayMode::HighRefreshRate));
    assert_eq!(parse_air_display_mode(&vec![0, 10]), Some(DisplayMode::HighRefreshRate));
    assert_eq!(parse_air_display_mode(&vec![0, 11]), Some(DisplayMode::HighRefreshRate));
    assert_eq!(parse_air_display_mode(&vec![0, 2]), None);
    assert_eq!(parse_air_display_mode(&vec![0]), None);
}

#[test]
fn air_set_mode_maps_every_mode() {
    assert_eq!(air_set_mode_request(DisplayMode::SameOnBoth).data, vec![1]);
    assert_eq!(air_set_mode_request(DisplayMode::HalfSBS).data, vec![8]);
    assert_eq!(air_set_mode_request(DisplayMode::Stereo).data, vec![3]);
    assert_eq!(air_set_mode_request(DisplayMode::HighRefreshRate).data, vec![11]);
    assert_eq!(air_set_mode_request(DisplayMode::HighRefreshRateSBS).data, vec![9]);
    assert_eq!(air_set_mode_request(DisplayMode::Stereo).cmd_id, 0x8);
    assert!(air_mode_ack_ok(&vec![0]));
    assert!(!air_mode_ack_ok(&vec![1]));
    assert!(!air_mode_ack_ok(&Vec::new()));
}

#[test]
fn imu_and_ov580_commands() {
    assert_eq!(imu_stream_request(false).cmd_id, 0x19);
    assert_eq!(imu_stream_request(false).data, vec![0]);
    assert_eq!(imu_stream_request(true).data, vec![1]);
    assert_eq!(config_length_request().cmd_id, 0x14);
    assert_eq!(config_chunk_request().cmd_id, 0x15);
    assert_eq!(ov580_command_report(0x19, 0x1), vec![2, 0x19, 0x1, 0, 0, 0, 0]);
    assert_eq!(ov580_command_report(0x14, 0x0), vec![2, 0x14, 0, 0, 0, 0, 0]);
}
