use commandguard::decoder::{decode_base64_text, decode_bytes, decode_gzip_bytes, decode_hex_text, DecodeError};
use std::io::Write;

#[test]
fn decodes_unpadded_base64_text() {
    let out = decode_base64_text("SGVsbG8", 1024, 1024).unwrap();
    assert_eq!(out.text, "Hello");
}

#[test]
fn decodes_hex_text() {
    let out = decode_hex_text("6563686f206869", 1024, 1024).unwrap();
    assert_eq!(out.text, "echo hi");
}

#[test]
fn base64_variant_records_transform() {
    let out = decode_base64_text("ZWNobyBoaQ==", 1024, 1024).unwrap();
    assert_eq!(out.bytes, b"echo hi".to_vec());
    assert_eq!(out.variant.transform, "base64_decode");
    assert_eq!(out.variant.text, "echo hi");
    assert!(!out.variant.truncated);
}

#[test]
fn base64_ignores_whitespace() {
    let out = decode_base64_text(" SGVs\nbG8= ", 1024, 1024).unwrap();
    assert_eq!(out.text, "Hello");
}

#[test]
fn base64_url_safe_alphabet_is_accepted() {
    let out = decode_base64_text("-_8", 1024, 1024);
    assert!(matches!(out, Err(DecodeError::NotText)));
}

#[test]
fn base64_input_over_limit_is_refused() {
    assert_eq!(decode_base64_text("SGVsbG8", 3, 1024).unwrap_err(), DecodeError::InputTooLarge);
}

#[test]
fn base64_output_over_limit_is_refused() {
    assert_eq!(decode_base64_text("SGVsbG8", 1024, 2).unwrap_err(), DecodeError::OutputTooLarge);
}

#[test]
fn base64_garbage_is_invalid() {
    assert_eq!(decode_base64_text("!!!!", 1024, 1024).unwrap_err(), DecodeError::Invalid);
}

#[test]
fn base64_of_binary_is_not_text() {
    assert_eq!(decode_base64_text("/w==", 1024, 1024).unwrap_err(), DecodeError::NotText);
}

#[test]
fn hex_with_odd_digit_count_is_invalid() {
    assert_eq!(decode_hex_text("abc", 1024, 1024).unwrap_err(), DecodeError::Invalid);
}

#[test]
fn hex_skips_non_digits() {
    let out = decode_hex_text("68:69", 1024, 1024).unwrap();
    assert_eq!(out.text, "hi");
    assert_eq!(out.variant.transform, "hex_decode");
}

#[test]
fn gzip_round_trip_decodes() {
    let mut enc = flate2::write::GzEncoder::new(Vec::new(), flate2::Compression::default());
    enc.write_all(b"echo hi").unwrap();
    let gz = enc.finish().unwrap();
    let out = decode_gzip_bytes(&gz, 1024).unwrap();
    assert_eq!(out.text, "echo hi");
    assert_eq!(out.variant.transform, "gzip_decompress");
}

#[test]
fn gzip_output_over_limit_is_refused() {
    let mut enc = flate2::write::GzEncoder::new(Vec::new(), flate2::Compression::default());
    enc.write_all(b"echo hi").unwrap();
    let gz = enc.finish().unwrap();
    assert_eq!(decode_gzip_bytes(&gz, 3).unwrap_err(), DecodeError::OutputTooLarge);
}

#[test]
fn gzip_garbage_is_invalid() {
    assert_eq!(decode_gzip_bytes(b"not gzip", 1024).unwrap_err(), DecodeError::Invalid);
}

#[test]
fn decoded_bytes_become_text_within_limits() {
    let out = decode_bytes("base64_decode", b"echo hi".to_vec(), 16).unwrap();
    assert_eq!(out.text, "echo hi");
    assert_eq!(out.variant.transform, "base64_decode");
    assert_eq!(decode_bytes("x", b"echo hi".to_vec(), 3).unwrap_err(), DecodeError::OutputTooLarge);
    assert_eq!(decode_bytes("x", vec![0xff], 16).unwrap_err(), DecodeError::NotText);
}

#[test]
fn hex_input_over_limit_is_too_large() {
    assert_eq!(decode_hex_text("6563", 3, 1024).unwrap_err(), DecodeError::InputTooLarge);
    assert_eq!(decode_hex_text("656", 1024, 1024).unwrap_err(), DecodeError::Invalid);
}
