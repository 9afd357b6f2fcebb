//! Frame codecs for the two binary wire formats, which share one pattern:
//! a head tag, a 4-byte little-endian checksum, a 2-byte little-endian
//! length, a command id, and a fixed payload area, all inside a 64-byte
//! buffer.
//!
//! The control format uses head tag `0xFD`, a 4-byte request id, a 4-byte
//! timestamp, 5 reserved bytes and 42 payload bytes; its length field is
//! `payload_len + 17`. The telemetry-control format uses head tag `0xAA`
//! and 56 payload bytes; its length field is `payload_len + 3`. The
//! checksum covers the bytes right after the checksum field through
//! `length` bytes. Decoding rejects a wrong head tag or an out-of-range
//! length and does not verify the checksum.

use vstd::prelude::*;
use vstd::bytes::{
    lemma_auto_spec_u16_to_from_le_bytes, lemma_auto_spec_u32_to_from_le_bytes,
    spec_u16_from_le_bytes, spec_u16_to_le_bytes, spec_u32_to_le_bytes, u16_from_le_bytes,
    u16_to_le_bytes, u32_to_le_bytes,
};
use vstd::slice::{slice_subrange, slice_to_vec};
use crate::checksum::{crc32_adler, spec_crc32_adler};

verus! {

/// Head tag of the control-channel format.
pub const MCU_HEAD: u8 = 0xFD;

/// Payload capacity of the control-channel format.
pub const MCU_MAX_PAYLOAD: usize = 42;

/// Header overhead counted by the control format's length field.
pub const MCU_OVERHEAD: usize = 17;

/// Head tag of the telemetry-control format.
pub const IMU_HEAD: u8 = 0xAA;

/// Payload capacity of the telemetry-control format.
pub const IMU_MAX_PAYLOAD: usize = 56;

/// Header overhead counted by the telemetry format's length field.
pub const IMU_OVERHEAD: usize = 3;

/// The fixed request id written into every encoded control frame.
pub const MCU_REQUEST_ID: u32 = 0x1337;

/// One decoded control-channel frame.
#[derive(Debug, PartialEq, Eq)]
pub struct McuPacket {
    pub cmd_id: u16,
    pub data: Vec<u8>,
}

impl Default for McuPacket {
    fn default() -> (r: Self)
        ensures
            r.cmd_id == 0,
            r.data@ =~= Seq::<u8>::empty(),
    {
        McuPacket { cmd_id: 0, data: Vec::new() }
    }
}

/// One decoded telemetry-control frame.
#[derive(Debug, PartialEq, Eq)]
pub struct ImuPacket {
    pub cmd_id: u8,
    pub data: Vec<u8>,
}

impl Default for ImuPacket {
    fn default() -> (r: Self)
        ensures
            r.cmd_id == 0,
            r.data@ =~= Seq::<u8>::empty(),
    {
        ImuPacket { cmd_id: 0, data: Vec::new() }
    }
}

/// The control-frame bytes the checksum covers: length field through payload.
pub open spec fn mcu_checksum_region(cmd: u16, d: Seq<u8>) -> Seq<u8> {
    spec_u16_to_le_bytes((d.len() + 17) as u16) + spec_u32_to_le_bytes(MCU_REQUEST_ID)
        + spec_u32_to_le_bytes(0) + spec_u16_to_le_bytes(cmd) + Seq::new(5, |i: int| 0u8) + d
}

/// The full 64-byte encoding of a control frame.
pub open spec fn spec_mcu_encode(cmd: u16, d: Seq<u8>) -> Seq<u8>
    recommends
        d.len() <= MCU_MAX_PAYLOAD,
{
    let region = mcu_checksum_region(cmd, d);
    seq![MCU_HEAD] + spec_u32_to_le_bytes(spec_crc32_adler(region)) + region + Seq::new(
        (42 - d.len()) as nat,
        |i: int| 0u8,
    )
}

/// Decoding a control frame: head tag, then the length field picks the
/// payload slice out of the fixed payload area.
pub open spec fn spec_mcu_decode(s: Seq<u8>) -> Option<(u16, Seq<u8>)> {
    if s.len() != 64 || s[0] != MCU_HEAD {
        None
    } else {
        let length = spec_u16_from_le_bytes(s.subrange(5, 7)) as int;
        if length < 17 || length > 59 {
            None
        } else {
            Some((spec_u16_from_le_bytes(s.subrange(15, 17)), s.subrange(22, 22 + (length - 17))))
        }
    }
}

/// The telemetry-frame bytes the checksum covers.
pub open spec fn imu_checksum_region(cmd: u8, d: Seq<u8>) -> Seq<u8> {
    spec_u16_to_le_bytes((d.len() + 3) as u16) + seq![cmd] + d
}

/// The full 64-byte encoding of a telemetry-control frame.
pub open spec fn spec_imu_encode(cmd: u8, d: Seq<u8>) -> Seq<u8>
    recommends
        d.len() <= IMU_MAX_PAYLOAD,
{
    let region = imu_checksum_region(cmd, d);
    seq![IMU_HEAD] + spec_u32_to_le_bytes(spec_crc32_adler(region)) + region + Seq::new(
        (56 - d.len()) as nat,
        |i: int| 0u8,
    )
}

/// Decoding a telemetry-control frame.
pub open spec fn spec_imu_decode(s: Seq<u8>) -> Option<(u8, Seq<u8>)> {
    if s.len() != 64 || s[0] != IMU_HEAD {
        None
    } else {
        let length = spec_u16_from_le_bytes(s.subrange(5, 7)) as int;
        if length < 3 || length > 59 {
            None
        } else {
            Some((s[7], s.subrange(8, 8 + (length - 3))))
        }
    }
}

impl McuPacket {
    /// Decode one raw 64-byte buffer. `None` means a wrong head tag,
    /// an out-of-range length field, or a buffer of the wrong size.
    pub fn deserialize(data: &[u8]) -> (r: Option<McuPacket>)
        ensures
            match r {
                Some(p) => spec_mcu_decode(data@) == Some((p.cmd_id, p.data@)),
                None => spec_mcu_decode(data@) is None,
            },
    {
        if data.len() != 64 || data[0] != MCU_HEAD {
            return None;
        }
        let length = u16_from_le_bytes(slice_subrange(data, 5, 7)) as usize;
        if length < 17 || length > 59 {
            return None;
        }
        let cmd_id = u16_from_le_bytes(slice_subrange(data, 15, 17));
        let payload = slice_to_vec(slice_subrange(data, 22, 22 + (length - 17)));
        Some(McuPacket { cmd_id, data: payload })
    }

    /// Encode into the fixed 64-byte buffer. `None` exactly when the
    /// payload exceeds the 42-byte payload area.
    pub fn serialize(&self) -> (r: Option<Vec<u8>>)
        ensures
            self.data@.len() <= MCU_MAX_PAYLOAD ==> (r matches Some(v) && v@ == spec_mcu_encode(
                self.cmd_id,
                self.data@,
            )),
            self.data@.len() > MCU_MAX_PAYLOAD ==> r is None,
    {
        if self.data.len() > MCU_MAX_PAYLOAD {
            return None;
        }
        let mut region: Vec<u8> = Vec::new();
        let mut lb = u16_to_le_bytes((self.data.len() + 17) as u16);
        region.append(&mut lb);
        let mut rid = u32_to_le_bytes(MCU_REQUEST_ID);
        region.append(&mut rid);
        let mut ts = u32_to_le_bytes(0);
        region.append(&mut ts);
        let mut cb = u16_to_le_bytes(self.cmd_id);
        region.append(&mut cb);
        let mut k: usize = 0;
        let ghost res_start = region@;
        while k < 5
            invariant
                k <= 5,
                region@ =~= res_start + Seq::new(k as nat, |i: int| 0u8),
            decreases 5 - k,
        {
            region.push(0);
            proof {
                assert(Seq::new((k + 1) as nat, |i: int| 0u8) =~= Seq::new(k as nat, |i: int| 0u8)
                    .push(0u8));
            }
            k = k + 1;
        }
        let mut dc = copy_bytes(&self.data);
        region.append(&mut dc);
        proof {
            assert(region@ =~= mcu_checksum_region(self.cmd_id, self.data@));
        }
        let cs = crc32_adler(region.as_slice());
        let mut buf: Vec<u8> = Vec::new();
        buf.push(MCU_HEAD);
        let mut csb = u32_to_le_bytes(cs);
        buf.append(&mut csb);
        buf.append(&mut region);
        let ghost head = seq![MCU_HEAD] + spec_u32_to_le_bytes(cs) + mcu_checksum_region(
            self.cmd_id,
            self.data@,
        );
        proof {
            assert(buf@ =~= head);
            assert(buf@ =~= head + Seq::new((buf@.len() - head.len()) as nat, |i: int| 0u8));
        }
        let mut j: usize = 0;
        let pad = MCU_MAX_PAYLOAD - self.data.len();
        while j < pad
            invariant
                j <= pad,
                pad == 42 - self.data@.len(),
                head.len() == 22 + self.data@.len(),
                buf@ =~= head + Seq::new(j as nat, |i: int| 0u8),
            decreases pad - j,
        {
            buf.push(0);
            proof {
                assert(Seq::new((j + 1) as nat, |i: int| 0u8) =~= Seq::new(j as nat, |i: int| 0u8)
                    .push(0u8));
            }
            j = j + 1;
        }
        proof {
            assert(buf@ =~= spec_mcu_encode(self.cmd_id, self.data@));
        }
        Some(buf)
    }
}

impl ImuPacket {
    /// Decode one raw 64-byte buffer. `None` means a wrong head tag,
    /// an out-of-range length field, or a buffer of the wrong size.
    pub fn deserialize(data: &[u8]) -> (r: Option<ImuPacket>)
        ensures
            match r {
                Some(p) => spec_imu_decode(data@) == Some((p.cmd_id, p.data@)),
                None => spec_imu_decode(data@) is None,
            },
    {
        if data.len() != 64 || data[0] != IMU_HEAD {
            return None;
        }
        let length = u16_from_le_bytes(slice_subrange(data, 5, 7)) as usize;
        if length < 3 || length > 59 {
            return None;
        }
        let cmd_id = data[7];
        let payload = slice_to_vec(slice_subrange(data, 8, 8 + (length - 3)));
        Some(ImuPacket { cmd_id, data: payload })
    }

    /// Encode into the fixed 64-byte buffer. `None` exactly when the
    /// payload exceeds the 56-byte payload area.
    pub fn serialize(&self) -> (r: Option<Vec<u8>>)
        ensures
            self.data@.len() <= IMU_MAX_PAYLOAD ==> (r matches Some(v) && v@ == spec_imu_encode(
                self.cmd_id,
                self.data@,
            )),
            self.data@.len() > IMU_MAX_PAYLOAD ==> r is None,
    {
        if self.data.len() > IMU_MAX_PAYLOAD {
            return None;
        }
        let mut region: Vec<u8> = Vec::new();
        let mut lb = u16_to_le_bytes((self.data.len() + 3) as u16);
        region.append(&mut lb);
        region.push(self.cmd_id);
        let mut dc = copy_bytes(&self.data);
        region.append(&mut dc);
        proof {
            assert(region@ =~= imu_checksum_region(self.cmd_id, self.data@));
        }
        let cs = crc32_adler(region.as_slice());
        let mut buf: Vec<u8> = Vec::new();
        buf.push(IMU_HEAD);
        let mut csb = u32_to_le_bytes(cs);
        buf.append(&mut csb);
        buf.append(&mut region);
        let ghost head = seq![IMU_HEAD] + spec_u32_to_le_bytes(cs) + imu_checksum_region(
            self.cmd_id,
            self.data@,
        );
        proof {
            assert(buf@ =~= head);
            assert(buf@ =~= head + Seq::new((buf@.len() - head.len()) as nat, |i: int| 0u8));
        }
        let mut j: usize = 0;
        let pad = IMU_MAX_PAYLOAD - self.data.len();
        while j < pad
            invariant
                j <= pad,
                pad == 56 - self.data@.len(),
                head.len() == 8 + self.data@.len(),
                buf@ =~= head + Seq::new(j as nat, |i: int| 0u8),
            decreases pad - j,
        {
            buf.push(0);
            proof {
                assert(Seq::new((j + 1) as nat, |i: int| 0u8) =~= Seq::new(j as nat, |i: int| 0u8)
                    .push(0u8));
            }
            j = j + 1;
        }
        proof {
            assert(buf@ =~= spec_imu_encode(self.cmd_id, self.data@));
        }
        Some(buf)
    }
}

/// A fresh copy of a byte vector.
fn copy_bytes(v: &Vec<u8>) -> (r: Vec<u8>)
    ensures
        r@ == v@,
{
    slice_to_vec(v.as_slice())
}

/// Round trip for the control format: decoding an encoded in-capacity
/// frame gives the frame back.
pub proof fn lemma_mcu_round_trip(cmd: u16, d: Seq<u8>)
    requires
        d.len() <= MCU_MAX_PAYLOAD,
    ensures
        spec_mcu_decode(spec_mcu_encode(cmd, d)) == Some((cmd, d)),
{
    let region = mcu_checksum_region(cmd, d);
    let s = spec_mcu_encode(cmd, d);
    let l = d.len() as int;
    lemma_auto_spec_u16_to_from_le_bytes();
    lemma_auto_spec_u32_to_from_le_bytes();
    assert(region.len() == 17 + l);
    assert(s.len() == 64);
    assert(s[0] == MCU_HEAD);
    assert(s.subrange(5, 7) =~= spec_u16_to_le_bytes((l + 17) as u16));
    assert(spec_u16_from_le_bytes(s.subrange(5, 7)) == l + 17);
    assert(s.subrange(15, 17) =~= spec_u16_to_le_bytes(cmd));
    assert(spec_u16_from_le_bytes(s.subrange(15, 17)) == cmd);
    assert(s.subrange(22, 22 + l) =~= d);
}

/// Round trip for the telemetry-control format.
pub proof fn lemma_imu_round_trip(cmd: u8, d: Seq<u8>)
    requires
        d.len() <= IMU_MAX_PAYLOAD,
    ensures
        spec_imu_decode(spec_imu_encode(cmd, d)) == Some((cmd, d)),
{
    let region = imu_checksum_region(cmd, d);
    let s = spec_imu_encode(cmd, d);
    let l = d.len() as int;
    lemma_auto_spec_u16_to_from_le_bytes();
    lemma_auto_spec_u32_to_from_le_bytes();
    assert(region.len() == 3 + l);
    assert(s.len() == 64);
    assert(s[0] == IMU_HEAD);
    assert(s.subrange(5, 7) =~= spec_u16_to_le_bytes((l + 3) as u16));
    assert(spec_u16_from_le_bytes(s.subrange(5, 7)) == l + 3);
    assert(s[7] == cmd);
    assert(s.subrange(8, 8 + l) =~= d);
}

} // verus!
