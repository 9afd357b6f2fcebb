//! Driver core for two families of augmented-reality glasses.
//!
//! The crate verifies the protocol logic both device families share:
//! fixed-size frame codecs with per-family checksums, command/response
//! correlation, calibration-blob reassembly and extraction, raw inertial
//! report parsing, event classification, and the heartbeat, shared-slot
//! and polling state machines. Device I/O, threading and floating-point
//! normalization live outside this crate, feeding plain values in and out.

pub mod binary_codec;
pub mod calibration;
pub mod checksum;
pub mod engine;
pub mod events;
pub mod hex;
pub mod protocol;
pub mod sensor;
pub mod session;
pub mod text_codec;
