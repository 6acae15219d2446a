use base64::Engine;
use recovery_tools::markers::{meta_end_bytes, meta_start_bytes};
use recovery_tools::metadata::{decompress_gzip_to_bytes, recover_metadata};
use recovery_tools::RecoveryError;
use std::io::Write;

fn gzip(data: &[u8]) -> Vec<u8> {
    let mut encoder = flate2::write::GzEncoder::new(Vec::new(), flate2::Compression::default());
    encoder.write_all(data).unwrap();
    encoder.finish().unwrap()
}

fn metadata_buffer(blobs: &[&[u8]]) -> Vec<u8> {
    let entries: Vec<String> = blobs
        .iter()
        .map(|b| base64::engine::general_purpose::STANDARD.encode(b))
        .collect();
    let json = serde_json::to_vec(&entries).unwrap();
    let mut buf = meta_start_bytes();
    buf.extend_from_slice(&gzip(&json));
    buf.extend_from_slice(&meta_end_bytes());
    buf
}

#[test]
fn metadata_round_trip_reproduces_blobs() {
    let blobs: Vec<&[u8]> = vec![b"{\"name\": \"one\"}", b"{\"name\": \"two\"}", b"third blob"];
    let buf = metadata_buffer(&blobs);
    let out = recover_metadata(&buf).unwrap();
    assert_eq!(out.len(), 3);
    for (got, want) in out.iter().zip(blobs.iter()) {
        assert_eq!(got.as_slice(), *want);
    }
}

#[test]
fn metadata_round_trip_of_empty_array() {
    let buf = metadata_buffer(&[]);
    let out = recover_metadata(&buf).unwrap();
    assert_eq!(out.len(), 0);
}

#[test]
fn metadata_requires_meta_marker() {
    assert_eq!(recover_metadata(b"not a metadata memo"), Err(RecoveryError::ProtocolMismatch));
}

#[test]
fn metadata_rejects_malformed_gzip() {
    let mut buf = meta_start_bytes();
    buf.extend_from_slice(b"this is not gzip");
    buf.extend_from_slice(&meta_end_bytes());
    assert_eq!(recover_metadata(&buf), Err(RecoveryError::Decode));
}

#[test]
fn metadata_rejects_non_string_array_json() {
    let mut buf = meta_start_bytes();
    buf.extend_from_slice(&gzip(b"{\"not\": \"an array\"}"));
    buf.extend_from_slice(&meta_end_bytes());
    assert_eq!(recover_metadata(&buf), Err(RecoveryError::Decode));
}

#[test]
fn metadata_rejects_malformed_base64_entry() {
    let json = serde_json::to_vec(&vec![String::from("!!! not base64 !!!")]).unwrap();
    let mut buf = meta_start_bytes();
    buf.extend_from_slice(&gzip(&json));
    buf.extend_from_slice(&meta_end_bytes());
    assert_eq!(recover_metadata(&buf), Err(RecoveryError::Decode));
}

#[test]
fn gzip_inflation_round_trips() {
    let data = b"some payload to compress and restore";
    let compressed = gzip(data);
    assert_eq!(decompress_gzip_to_bytes(&compressed).unwrap(), data.to_vec());
}

#[test]
fn gzip_inflation_rejects_garbage() {
    assert_eq!(decompress_gzip_to_bytes(b"garbage"), Err(RecoveryError::Decode));
}
