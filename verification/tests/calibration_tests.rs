use ar_drivers::calibration::{
    config_chunk_append, extract_calibration_json, parse_config_length, ConfigTransfer,
};
use tinyjson::JsonValue;

const CALIB_JSON: &str = "{\"IMU\": {\"device_1\": {\"accel_bias\": [0.125, -0.25, 0.5], \"gyro_bias\": [1.5, 2.5, -3.5]}}}";

/// A blob as the device stores it: a header region, the sentinel, the
/// JSON document, and a blank line before trailing data.
fn synthetic_blob() -> Vec<u8> {
    let mut blob = vec![0xEEu8; 0x30];
    blob.extend_from_slice(b"\n\n");
    blob.extend_from_slice(CALIB_JSON.as_bytes());
    blob.extend_from_slice(b"\n\nTRAILING-DATA");
    blob
}

/// Chunk a blob the way the sensor unit serves it: marker 2, subtype 1,
/// a declared length, then that many payload bytes.
fn chunks_of(blob: &[u8]) -> Vec<Vec<u8>> {
    let mut chunks = Vec::new();
    for part in blob.chunks(40) {
        let mut chunk = vec![2u8, 1u8, part.len() as u8];
        chunk.extend_from_slice(part);
        chunk.resize(128, 0);
        chunks.push(chunk);
    }
    // The terminating chunk does not match the marker pair.
    chunks.push(vec![2u8, 0u8, 0u8]);
    chunks
}

#[test]
fn chunked_blob_reassembles() {
    let blob = synthetic_blob();
    let mut acc: Vec<u8> = Vec::new();
    for chunk in chunks_of(&blob) {
        if !config_chunk_append(&mut acc, &chunk) {
            break;
        }
    }
    assert_eq!(acc, blob);
}

#[test]
fn extraction_recovers_bias_vectors() {
    let blob = synthetic_blob();
    let mut acc: Vec<u8> = Vec::new();
    for chunk in chunks_of(&blob) {
        if !config_chunk_append(&mut acc, &chunk) {
            break;
        }
    }
    let json = extract_calibration_json(&acc).expect("sentinel and end token present");
    assert_eq!(json, CALIB_JSON.as_bytes().to_vec());

    // The recovered text parses to exactly the stored bias vectors.
    let parsed: JsonValue = String::from_utf8(json).unwrap().parse().unwrap();
    let device = &parsed["IMU"]["device_1"];
    let accel: Vec<f64> =
        match &device["accel_bias"] {
            JsonValue::Array(a) => a.iter().map(|v| *v.get::<f64>().unwrap()).collect(),
            _ => panic!("accel_bias is an array"),
        };
    let gyro: Vec<f64> = match &device["gyro_bias"] {
        JsonValue::Array(a) => a.iter().map(|v| *v.get::<f64>().unwrap()).collect(),
        _ => panic!("gyro_bias is an array"),
    };
    assert_eq!(accel, vec![0.125, -0.25, 0.5]);
    assert_eq!(gyro, vec![1.5, 2.5, -3.5]);
}

#[test]
fn chunk_append_stops_on_marker_mismatch() {
    let mut acc: Vec<u8> = vec![7];
    assert!(!config_chunk_append(&mut acc, &[2, 0, 1, 9]));
    assert!(!config_chunk_append(&mut acc, &[0, 1, 1, 9]));
    assert!(!config_chunk_append(&mut acc, &[2, 1]));
    // A declared length past the end of the report also stops.
    assert!(!config_chunk_append(&mut acc, &[2, 1, 5, 9, 9]));
    assert_eq!(acc, vec![7]);
    // A well-formed chunk appends exactly its declared length.
    assert!(config_chunk_append(&mut acc, &[2, 1, 2, 8, 9, 0xFF]));
    assert_eq!(acc, vec![7, 8, 9]);
}

#[test]
fn extraction_fails_without_sentinel() {
    let blob = vec![0u8; 256];
    assert!(extract_calibration_json(&blob).is_none());
}

#[test]
fn extraction_fails_without_end_token() {
    let mut blob = vec![0u8; 0x30];
    blob.extend_from_slice(b"\n\n{\"a\": 1}");
    blob.extend_from_slice(&[0x20; 8]);
    assert!(extract_calibration_json(&blob).is_none());
}

#[test]
fn extraction_skips_header_region() {
    // A sentinel inside the first 0x28 bytes does not count.
    let mut blob = vec![0u8; 0x10];
    blob.extend_from_slice(b"\n\n{decoy");
    blob.resize(0x30, 0);
    blob.extend_from_slice(b"\n\n{\"real\": 1}\n\npad");
    let json = extract_calibration_json(&blob).unwrap();
    assert_eq!(json, b"{\"real\": 1}".to_vec());
}

#[test]
fn config_length_is_little_endian() {
    assert_eq!(parse_config_length(&[0x10, 0x02, 0, 0]), Some(0x210));
    assert_eq!(parse_config_length(&[1, 2, 3]), None);
    assert_eq!(parse_config_length(&[]), None);
}

#[test]
fn length_prefixed_transfer_accumulates() {
    let mut t = ConfigTransfer::new(10);
    assert!(t.needs_more());
    assert!(!t.push_chunk(&[1, 2, 3, 4]));
    assert!(!t.push_chunk(&[5, 6, 7, 8]));
    assert!(t.needs_more());
    assert!(t.push_chunk(&[9, 10, 11]));
    assert!(!t.needs_more());
    assert_eq!(t.buf, vec![1, 2, 3, 4, 5, 6, 7, 8, 9, 10, 11]);
}
