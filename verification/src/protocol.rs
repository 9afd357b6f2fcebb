//! The commands each family sends and how their replies read.
//!
//! Display-mode control and the session handshake are fixed request
//! frames; the reply payloads are interpreted byte-wise. The text family
//! names modes with ASCII digit bytes, the HID family with small
//! integers.

use vstd::prelude::*;
use crate::binary_codec::{ImuPacket, McuPacket};
use crate::text_codec::Packet;

verus! {

/// The display modes the capability surface knows.
#[derive(Debug, PartialEq, Eq, Structural, Clone, Copy)]
pub enum DisplayMode {
    /// The same image on both displays.
    SameOnBoth,
    /// Side-by-side stereo.
    Stereo,
    /// Side-by-side stereo, horizontally stretched.
    HalfSBS,
    /// High refresh rate, same image on both displays.
    HighRefreshRate,
    /// High refresh rate, side-by-side stereo.
    HighRefreshRateSBS,
}

/// The text family's serial-number request.
pub fn serial_request() -> (r: Packet)
    ensures
        r.category == 51,
        r.cmd_id == 67,
        r.data@ =~= seq![0x78u8],
{
    Packet { category: 51, cmd_id: 67, data: vec![0x78u8] }
}

/// The text family's display-mode query.
pub fn display_mode_request() -> (r: Packet)
    ensures
        r.category == 51,
        r.cmd_id == 51,
        r.data@ =~= seq![0x78u8],
{
    Packet { category: 51, cmd_id: 51, data: vec![0x78u8] }
}

/// The text family's keep-alive frame.
pub fn heartbeat_request() -> (r: Packet)
    ensures
        r.category == 64,
        r.cmd_id == 75,
        r.data@ =~= seq![0x78u8],
{
    Packet { category: 64, cmd_id: 75, data: vec![0x78u8] }
}

/// Disable the vertical-sync event stream (sent at session start).
pub fn vsync_off_request() -> (r: Packet)
    ensures
        r.category == 49,
        r.cmd_id == 78,
        r.data@ =~= seq![48u8],
{
    Packet { category: 49, cmd_id: 78, data: vec![48u8] }
}

/// Announce a working SDK (needed for stereo display to work).
pub fn sdk_on_request() -> (r: Packet)
    ensures
        r.category == 64,
        r.cmd_id == 51,
        r.data@ =~= seq![49u8],
{
    Packet { category: 64, cmd_id: 51, data: vec![49u8] }
}

/// Enable the ambient-light event stream (sent at session start).
pub fn ambient_on_request() -> (r: Packet)
    ensures
        r.category == 49,
        r.cmd_id == 76,
        r.data@ =~= seq![49u8],
{
    Packet { category: 49, cmd_id: 76, data: vec![49u8] }
}

/// The display mode a text-family reply byte names: `'1'` is the mirror
/// mode, `'2'` to `'4'` are the stereo variants, anything else is
/// unknown.
pub open spec fn spec_light_mode_of(payload: Seq<u8>) -> Option<DisplayMode> {
    if payload.len() >= 1 && payload[0] == 49 {
        Some(DisplayMode::SameOnBoth)
    } else if payload.len() >= 1 && (payload[0] == 50 || payload[0] == 51 || payload[0] == 52) {
        Some(DisplayMode::Stereo)
    } else {
        None
    }
}

/// Read a text-family display-mode reply.
pub fn parse_light_display_mode(payload: &Vec<u8>) -> (r: Option<DisplayMode>)
    ensures
        r == spec_light_mode_of(payload@),
{
    if payload.len() >= 1 {
        let b = payload[0];
        if b == 49 {
            Some(DisplayMode::SameOnBoth)
        } else if b == 50 || b == 51 || b == 52 {
            Some(DisplayMode::Stereo)
        } else {
            None
        }
    } else {
        None
    }
}

/// The byte the text family is asked to switch to, for the modes it has.
pub open spec fn spec_light_mode_byte(mode: DisplayMode) -> Option<u8> {
    match mode {
        DisplayMode::SameOnBoth => Some(49u8),
        DisplayMode::Stereo => Some(51u8),
        _ => None,
    }
}

/// The text family's display-mode change request, for the modes it has.
pub fn light_set_mode_request(mode: DisplayMode) -> (r: Option<(Packet, u8)>)
    ensures
        match r {
            Some(pb) => {
                &&& spec_light_mode_byte(mode) == Some(pb.1)
                &&& pb.0.category == 49
                &&& pb.0.cmd_id == 51
                &&& pb.0.data@ =~= seq![pb.1]
            },
            None => spec_light_mode_byte(mode) is None,
        },
{
    let b: u8 = match mode {
        DisplayMode::SameOnBoth => 49,
        DisplayMode::Stereo => 51,
        _ => {
            return None;
        },
    };
    Some((Packet { category: 49, cmd_id: 51, data: vec![b] }, b))
}

/// Whether a mode-change reply acknowledges the requested byte.
pub fn mode_ack_ok(payload: &Vec<u8>, expected: u8) -> (r: bool)
    ensures
        r == (payload@.len() >= 1 && payload@[0] == expected),
{
    payload.len() >= 1 && payload[0] == expected
}

/// The HID family's serial-number request.
pub fn air_serial_request() -> (r: McuPacket)
    ensures
        r.cmd_id == 0x15,
        r.data@ =~= Seq::<u8>::empty(),
{
    McuPacket { cmd_id: 0x15, data: Vec::new() }
}

/// The serial number inside a HID-family serial reply: everything after
/// the leading status byte. An empty reply carries none.
pub fn air_serial_payload(payload: &Vec<u8>) -> (r: Option<Vec<u8>>)
    ensures
        match r {
            Some(v) => payload@.len() >= 1 && v@ == payload@.subrange(1, payload@.len() as int),
            None => payload@.len() == 0,
        },
{
    if payload.len() == 0 {
        return None;
    }
    Some(vstd::slice::slice_to_vec(vstd::slice::slice_subrange(
        payload.as_slice(),
        1,
        payload.len(),
    )))
}

/// The HID family's display-mode query.
pub fn air_display_mode_request() -> (r: McuPacket)
    ensures
        r.cmd_id == 0x7,
        r.data@ =~= Seq::<u8>::empty(),
{
    McuPacket { cmd_id: 0x7, data: Vec::new() }
}

/// The display mode a HID-family reply names in its second byte.
pub open spec fn spec_air_mode_of(payload: Seq<u8>) -> Option<DisplayMode> {
    if payload.len() < 2 {
        None
    } else if payload[1] == 1 || payload[1] == 5 {
        Some(DisplayMode::SameOnBoth)
    } else if payload[1] == 3 {
        Some(DisplayMode::Stereo)
    } else if payload[1] == 4 || payload[1] == 9 || payload[1] == 10 || payload[1] == 11 {
        Some(DisplayMode::HighRefreshRate)
    } else if payload[1] == 8 {
        Some(DisplayMode::HalfSBS)
    } else {
        None
    }
}

/// Read a HID-family display-mode reply.
pub fn parse_air_display_mode(payload: &Vec<u8>) -> (r: Option<DisplayMode>)
    ensures
        r == spec_air_mode_of(payload@),
{
    if payload.len() < 2 {
        return None;
    }
    let b = payload[1];
    if b == 1 || b == 5 {
        Some(DisplayMode::SameOnBoth)
    } else if b == 3 {
        Some(DisplayMode::Stereo)
    } else if b == 4 || b == 9 || b == 10 || b == 11 {
        Some(DisplayMode::HighRefreshRate)
    } else if b == 8 {
        Some(DisplayMode::HalfSBS)
    } else {
        None
    }
}

/// The byte the HID family is asked to switch to.
pub open spec fn spec_air_mode_byte(mode: DisplayMode) -> u8 {
    match mode {
        DisplayMode::SameOnBoth => 1u8,
        DisplayMode::HalfSBS => 8u8,
        DisplayMode::Stereo => 3u8,
        DisplayMode::HighRefreshRate => 11u8,
        DisplayMode::HighRefreshRateSBS => 9u8,
    }
}

/// The HID family's display-mode change request.
pub fn air_set_mode_request(mode: DisplayMode) -> (r: McuPacket)
    ensures
        r.cmd_id == 0x8,
        r.data@ =~= seq![spec_air_mode_byte(mode)],
{
    let b: u8 = match mode {
        DisplayMode::SameOnBoth => 1,
        DisplayMode::HalfSBS => 8,
        DisplayMode::Stereo => 3,
        DisplayMode::HighRefreshRate => 11,
        DisplayMode::HighRefreshRateSBS => 9,
    };
    McuPacket { cmd_id: 0x8, data: vec![b] }
}

/// Whether a HID-family mode-change reply reports success (leading zero).
pub fn air_mode_ack_ok(payload: &Vec<u8>) -> (r: bool)
    ensures
        r == (payload@.len() >= 1 && payload@[0] == 0),
{
    payload.len() >= 1 && payload[0] == 0
}

/// The HID family's telemetry-stream switch (off while reading
/// configuration, back on afterward).
pub fn imu_stream_request(on: bool) -> (r: ImuPacket)
    ensures
        r.cmd_id == 0x19,
        r.data@ =~= seq![(if on { 1u8 } else { 0u8 })],
{
    ImuPacket { cmd_id: 0x19, data: vec![if on { 1u8 } else { 0u8 }] }
}

/// The HID family's configuration-length query.
pub fn config_length_request() -> (r: ImuPacket)
    ensures
        r.cmd_id == 0x14,
        r.data@ =~= Seq::<u8>::empty(),
{
    ImuPacket { cmd_id: 0x14, data: Vec::new() }
}

/// The HID family's next-configuration-chunk request.
pub fn config_chunk_request() -> (r: ImuPacket)
    ensures
        r.cmd_id == 0x15,
        r.data@ =~= Seq::<u8>::empty(),
{
    ImuPacket { cmd_id: 0x15, data: Vec::new() }
}

/// The sensor unit's command report: a fixed 7-byte output report
/// carrying the command and subcommand bytes.
pub fn ov580_command_report(cmd: u8, subcmd: u8) -> (r: Vec<u8>)
    ensures
        r@ =~= seq![2u8, cmd, subcmd, 0u8, 0u8, 0u8, 0u8],
{
    vec![2u8, cmd, subcmd, 0u8, 0u8, 0u8, 0u8]
}

/// Sensor-unit command: switch the telemetry stream.
pub const OV580_IMU_STREAM: u8 = 0x19;

/// Sensor-unit command: begin the configuration transfer.
pub const OV580_CONFIG_START: u8 = 0x14;

/// Sensor-unit command: fetch the next configuration chunk.
pub const OV580_CONFIG_CHUNK: u8 = 0x15;

} // verus!
