//! Raw inertial report parsing.
//!
//! Each raw report carries a gyroscope and an accelerometer reading as
//! little-endian integer fields: a tick-counter timestamp (divided by
//! 1000 for the reported unit), a scale numerator and denominator, and
//! three signed axis ticks. Turning ticks into physical units — scaling,
//! degree-to-radian conversion, standard gravity, the per-family axis
//! remap and bias correction — is floating-point work done by the layer
//! above on the integers extracted here.

use vstd::prelude::*;
use vstd::bytes::{
    spec_u16_from_le_bytes, spec_u32_from_le_bytes, spec_u64_from_le_bytes, u16_from_le_bytes,
    u32_from_le_bytes, u64_from_le_bytes,
};
use vstd::slice::slice_subrange;

verus! {

/// The signed value of a 4-byte little-endian field.
pub open spec fn spec_i32_from_le_bytes(s: Seq<u8>) -> int
    recommends
        s.len() == 4,
{
    let u = spec_u32_from_le_bytes(s) as int;
    if u >= 0x80000000 {
        u - 0x100000000
    } else {
        u
    }
}

/// The signed value of a 3-byte little-endian field.
pub open spec fn spec_i24_from_le_bytes(s: Seq<u8>) -> int
    recommends
        s.len() == 3,
{
    let u = s[0] + 256 * s[1] + 65536 * s[2];
    if u >= 0x800000 {
        u - 0x1000000
    } else {
        u
    }
}

/// Signed 4-byte little-endian read.
pub fn i32_from_le_bytes(s: &[u8]) -> (r: i32)
    requires
        s@.len() == 4,
    ensures
        r as int == spec_i32_from_le_bytes(s@),
{
    let u = u32_from_le_bytes(s);
    if u >= 0x80000000 {
        -((0xFFFFFFFFu32 - u) as i32) - 1
    } else {
        u as i32
    }
}

/// Signed 3-byte little-endian read.
pub fn i24_from_le_bytes(s: &[u8]) -> (r: i32)
    requires
        s@.len() == 3,
    ensures
        r as int == spec_i24_from_le_bytes(s@),
{
    let u: u32 = (s[0] as u32) + 256 * (s[1] as u32) + 65536 * (s[2] as u32);
    if u >= 0x800000 {
        (u as i32) - 0x1000000
    } else {
        u as i32
    }
}

/// One raw reading: tick timestamp already divided by 1000, scale
/// numerator and denominator, and the three signed axis ticks.
#[derive(Debug, PartialEq, Eq, Clone, Copy)]
pub struct RawSample {
    pub timestamp: u64,
    pub mul: u32,
    pub div: u32,
    pub x: i32,
    pub y: i32,
    pub z: i32,
}

/// The gyroscope/accelerometer pair one sensor-unit report yields.
#[derive(Debug, PartialEq, Eq, Clone, Copy)]
pub struct RawImuPair {
    pub gyro: RawSample,
    pub accel: RawSample,
}

/// Whether a sensor-unit report carries an inertial sample: the leading
/// marker byte is 1 and the buffer covers all the fields.
pub open spec fn ov580_report_ok(s: Seq<u8>) -> bool {
    s.len() >= 100 && s[0] == 1
}

/// Parse one sensor-unit report. The gyroscope fields start at offset
/// 44, the accelerometer fields follow; reports without the marker byte
/// carry no sample.
pub fn parse_ov580_report(report: &[u8]) -> (r: Option<RawImuPair>)
    ensures
        match r {
            Some(p) => {
                &&& ov580_report_ok(report@)
                &&& p.gyro.timestamp == spec_u64_from_le_bytes(report@.subrange(44, 52)) / 1000
                &&& p.gyro.mul == spec_u32_from_le_bytes(report@.subrange(52, 56))
                &&& p.gyro.div == spec_u32_from_le_bytes(report@.subrange(56, 60))
                &&& p.gyro.x as int == spec_i32_from_le_bytes(report@.subrange(60, 64))
                &&& p.gyro.y as int == spec_i32_from_le_bytes(report@.subrange(64, 68))
                &&& p.gyro.z as int == spec_i32_from_le_bytes(report@.subrange(68, 72))
                &&& p.accel.timestamp == spec_u64_from_le_bytes(report@.subrange(72, 80)) / 1000
                &&& p.accel.mul == spec_u32_from_le_bytes(report@.subrange(80, 84))
                &&& p.accel.div == spec_u32_from_le_bytes(report@.subrange(84, 88))
                &&& p.accel.x as int == spec_i32_from_le_bytes(report@.subrange(88, 92))
                &&& p.accel.y as int == spec_i32_from_le_bytes(report@.subrange(92, 96))
                &&& p.accel.z as int == spec_i32_from_le_bytes(report@.subrange(96, 100))
            },
            None => !ov580_report_ok(report@),
        },
{
    if report.len() < 100 || report[0] != 1 {
        return None;
    }
    let gyro = RawSample {
        timestamp: u64_from_le_bytes(slice_subrange(report, 44, 52)) / 1000,
        mul: u32_from_le_bytes(slice_subrange(report, 52, 56)),
        div: u32_from_le_bytes(slice_subrange(report, 56, 60)),
        x: i32_from_le_bytes(slice_subrange(report, 60, 64)),
        y: i32_from_le_bytes(slice_subrange(report, 64, 68)),
        z: i32_from_le_bytes(slice_subrange(report, 68, 72)),
    };
    let accel = RawSample {
        timestamp: u64_from_le_bytes(slice_subrange(report, 72, 80)) / 1000,
        mul: u32_from_le_bytes(slice_subrange(report, 80, 84)),
        div: u32_from_le_bytes(slice_subrange(report, 84, 88)),
        x: i32_from_le_bytes(slice_subrange(report, 88, 92)),
        y: i32_from_le_bytes(slice_subrange(report, 92, 96)),
        z: i32_from_le_bytes(slice_subrange(report, 96, 100)),
    };
    Some(RawImuPair { gyro, accel })
}

/// One raw HID-family inertial report: a shared tick timestamp divided
/// by 1000, and per-instrument scale and signed 24-bit axis ticks.
#[derive(Debug, PartialEq, Eq, Clone, Copy)]
pub struct AirRawReport {
    pub timestamp: u64,
    pub gyro_mul: u16,
    pub gyro_div: u32,
    pub gyro_x: i32,
    pub gyro_y: i32,
    pub gyro_z: i32,
    pub accel_mul: u16,
    pub accel_div: u32,
    pub accel_x: i32,
    pub accel_y: i32,
    pub accel_z: i32,
}

/// Whether a HID-family telemetry buffer carries an inertial report:
/// the two marker bytes are 1, 2 and the buffer covers all the fields.
pub open spec fn air_report_ok(s: Seq<u8>) -> bool {
    s.len() >= 42 && s[0] == 1 && s[1] == 2
}

/// Parse one HID-family inertial report. The fields start at offset 4;
/// buffers without the marker bytes carry no report and the caller
/// reads again.
pub fn parse_air_report(report: &[u8]) -> (r: Option<AirRawReport>)
    ensures
        match r {
            Some(p) => {
                &&& air_report_ok(report@)
                &&& p.timestamp == spec_u64_from_le_bytes(report@.subrange(4, 12)) / 1000
                &&& p.gyro_mul == spec_u16_from_le_bytes(report@.subrange(12, 14))
                &&& p.gyro_div == spec_u32_from_le_bytes(report@.subrange(14, 18))
                &&& p.gyro_x as int == spec_i24_from_le_bytes(report@.subrange(18, 21))
                &&& p.gyro_y as int == spec_i24_from_le_bytes(report@.subrange(21, 24))
                &&& p.gyro_z as int == spec_i24_from_le_bytes(report@.subrange(24, 27))
                &&& p.accel_mul == spec_u16_from_le_bytes(report@.subrange(27, 29))
                &&& p.accel_div == spec_u32_from_le_bytes(report@.subrange(29, 33))
                &&& p.accel_x as int == spec_i24_from_le_bytes(report@.subrange(33, 36))
                &&& p.accel_y as int == spec_i24_from_le_bytes(report@.subrange(36, 39))
                &&& p.accel_z as int == spec_i24_from_le_bytes(report@.subrange(39, 42))
            },
            None => !air_report_ok(report@),
        },
{
    if report.len() < 42 || report[0] != 1 || report[1] != 2 {
        return None;
    }
    Some(
        AirRawReport {
            timestamp: u64_from_le_bytes(slice_subrange(report, 4, 12)) / 1000,
            gyro_mul: u16_from_le_bytes(slice_subrange(report, 12, 14)),
            gyro_div: u32_from_le_bytes(slice_subrange(report, 14, 18)),
            gyro_x: i24_from_le_bytes(slice_subrange(report, 18, 21)),
            gyro_y: i24_from_le_bytes(slice_subrange(report, 21, 24)),
            gyro_z: i24_from_le_bytes(slice_subrange(report, 24, 27)),
            accel_mul: u16_from_le_bytes(slice_subrange(report, 27, 29)),
            accel_div: u32_from_le_bytes(slice_subrange(report, 29, 33)),
            accel_x: i24_from_le_bytes(slice_subrange(report, 33, 36)),
            accel_y: i24_from_le_bytes(slice_subrange(report, 36, 39)),
            accel_z: i24_from_le_bytes(slice_subrange(report, 39, 42)),
        },
    )
}

} // verus!
