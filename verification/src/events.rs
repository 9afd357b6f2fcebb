//! Classification of incoming frames into discrete events.
//!
//! Text-family frames with category `5` report keys, proximity, ambient
//! light and vertical sync; the ping-acknowledgment category is silently
//! ignored and everything else is reported as unknown for the caller to
//! log and discard. A malformed ambient-light payload is an error, not
//! an unknown frame.
//!
//! Control-channel frames of the HID family report key presses under one
//! command id and error reports under another; everything else is
//! discarded.

use vstd::prelude::*;
use crate::binary_codec::McuPacket;
use crate::hex::{parse_hex_u16, spec_hex_u16_ok, spec_hex_value};
use crate::text_codec::Packet;

verus! {

/// A discrete (non-motion) event from the glasses.
#[derive(Debug, PartialEq, Eq, Structural, Clone, Copy)]
pub enum DiscreteEvent {
    /// A key changed state; the id distinguishes release (0) and press (1)
    /// for the text family, and the key number for the HID family.
    KeyPress(u8),
    ProximityNear,
    ProximityFar,
    /// Ambient light level, parsed from the ASCII hex payload.
    AmbientLight(u16),
    VSync,
}

/// What a text-family frame means to the event loop.
#[derive(Debug, PartialEq, Eq, Structural, Clone, Copy)]
pub enum TextClass {
    /// A discrete event to hand to the caller.
    Event(DiscreteEvent),
    /// A ping acknowledgment: ignored without logging.
    PingAck,
    /// Anything else: logged and discarded.
    Unknown,
    /// An ambient-light payload that does not parse as hex: an error.
    BadAmbient,
}

/// The event category byte `'5'`.
pub const EVENT_CATEGORY: u8 = 53;

/// The ping-acknowledgment category byte.
pub const PING_CATEGORY: u8 = 65;

/// The classification of a text-family frame by category, command id
/// and payload.
pub open spec fn spec_classify_text(c: u8, k: u8, d: Seq<u8>) -> TextClass {
    if c == EVENT_CATEGORY {
        if k == 75 {
            // 'K': key state, payload "UP" or "DN"
            if d == seq![85u8, 80u8] {
                TextClass::Event(DiscreteEvent::KeyPress(0))
            } else if d == seq![68u8, 78u8] {
                TextClass::Event(DiscreteEvent::KeyPress(1))
            } else {
                TextClass::Unknown
            }
        } else if k == 80 {
            // 'P': proximity, payload "near" or "away"
            if d == seq![110u8, 101u8, 97u8, 114u8] {
                TextClass::Event(DiscreteEvent::ProximityNear)
            } else if d == seq![97u8, 119u8, 97u8, 121u8] {
                TextClass::Event(DiscreteEvent::ProximityFar)
            } else {
                TextClass::Unknown
            }
        } else if k == 76 {
            // 'L': ambient light, payload an ASCII hex level
            if spec_hex_u16_ok(d) {
                TextClass::Event(DiscreteEvent::AmbientLight(spec_hex_value(d) as u16))
            } else {
                TextClass::BadAmbient
            }
        } else if k == 83 {
            // 'S': vertical sync marker
            TextClass::Event(DiscreteEvent::VSync)
        } else {
            TextClass::Unknown
        }
    } else if c == PING_CATEGORY {
        TextClass::PingAck
    } else {
        TextClass::Unknown
    }
}

/// Whether a payload is exactly the two given bytes.
fn payload_is2(d: &Vec<u8>, a0: u8, a1: u8) -> (r: bool)
    ensures
        r == (d@ == seq![a0, a1]),
{
    let r = d.len() == 2 && d[0] == a0 && d[1] == a1;
    proof {
        if r {
            assert(d@ =~= seq![a0, a1]);
        }
    }
    r
}

/// Whether a payload is exactly the four given bytes.
fn payload_is4(d: &Vec<u8>, a0: u8, a1: u8, a2: u8, a3: u8) -> (r: bool)
    ensures
        r == (d@ == seq![a0, a1, a2, a3]),
{
    let r = d.len() == 4 && d[0] == a0 && d[1] == a1 && d[2] == a2 && d[3] == a3;
    proof {
        if r {
            assert(d@ =~= seq![a0, a1, a2, a3]);
        }
    }
    r
}

/// Classify one text-family frame.
pub fn classify_text(p: &Packet) -> (r: TextClass)
    ensures
        r == spec_classify_text(p.category, p.cmd_id, p.data@),
{
    if p.category == EVENT_CATEGORY {
        if p.cmd_id == 75 {
            if payload_is2(&p.data, 85, 80) {
                TextClass::Event(DiscreteEvent::KeyPress(0))
            } else if payload_is2(&p.data, 68, 78) {
                TextClass::Event(DiscreteEvent::KeyPress(1))
            } else {
                TextClass::Unknown
            }
        } else if p.cmd_id == 80 {
            if payload_is4(&p.data, 110, 101, 97, 114) {
                TextClass::Event(DiscreteEvent::ProximityNear)
            } else if payload_is4(&p.data, 97, 119, 97, 121) {
                TextClass::Event(DiscreteEvent::ProximityFar)
            } else {
                TextClass::Unknown
            }
        } else if p.cmd_id == 76 {
            match parse_hex_u16(p.data.as_slice()) {
                Some(level) => TextClass::Event(DiscreteEvent::AmbientLight(level)),
                None => TextClass::BadAmbient,
            }
        } else if p.cmd_id == 83 {
            TextClass::Event(DiscreteEvent::VSync)
        } else {
            TextClass::Unknown
        }
    } else if p.category == PING_CATEGORY {
        TextClass::PingAck
    } else {
        TextClass::Unknown
    }
}

/// What a control-channel frame means to the HID family's event loop.
#[derive(Debug, PartialEq, Eq, Structural, Clone, Copy)]
pub enum McuClass {
    /// A key press; the key number is the payload's first byte minus one.
    KeyPress(u8),
    /// A device error report: discarded.
    ErrorReport,
    /// Anything else: discarded.
    Other,
}

/// Command id of key-press frames.
pub const MCU_KEY_CMD: u16 = 0x6C05;

/// Command id of device error reports.
pub const MCU_ERROR_CMD: u16 = 0x6C09;

/// The classification of a control-channel frame. A key-press frame with
/// an empty payload, or a key byte of zero that no key can produce, is
/// discarded rather than misread.
pub open spec fn spec_classify_mcu(cmd: u16, d: Seq<u8>) -> McuClass {
    if cmd == MCU_KEY_CMD {
        if d.len() >= 1 && d[0] >= 1 {
            McuClass::KeyPress((d[0] - 1) as u8)
        } else {
            McuClass::Other
        }
    } else if cmd == MCU_ERROR_CMD {
        McuClass::ErrorReport
    } else {
        McuClass::Other
    }
}

/// Classify one control-channel frame.
pub fn classify_mcu(p: &McuPacket) -> (r: McuClass)
    ensures
        r == spec_classify_mcu(p.cmd_id, p.data@),
{
    if p.cmd_id == MCU_KEY_CMD {
        if p.data.len() >= 1 && p.data[0] >= 1 {
            McuClass::KeyPress(p.data[0] - 1)
        } else {
            McuClass::Other
        }
    } else if p.cmd_id == MCU_ERROR_CMD {
        McuClass::ErrorReport
    } else {
        McuClass::Other
    }
}

} // verus!
