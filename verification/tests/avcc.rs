//! Start codes, length-prefixed payloads and decoder records.

use turbo_capture::avcc::{
    build_avcc_descriptor, build_codec_string, serialize_avcc_payload, strip_start_code,
};

#[test]
fn strip_4byte_start_code() {
    let data = [0x00, 0x00, 0x00, 0x01, 0x65, 0x88];
    assert_eq!(strip_start_code(&data), &[0x65, 0x88]);
}

#[test]
fn strip_3byte_start_code() {
    let data = [0x00, 0x00, 0x01, 0x65, 0x88];
    assert_eq!(strip_start_code(&data), &[0x65, 0x88]);
}

#[test]
fn strip_no_start_code_passthrough() {
    let data = [0x65, 0x88, 0x80];
    assert_eq!(strip_start_code(&data), &[0x65, 0x88, 0x80]);
}

#[test]
fn strip_empty_slice() {
    assert_eq!(strip_start_code(&[]), &[] as &[u8]);
}

#[test]
fn strip_removes_only_one_start_code() {
    assert_eq!(strip_start_code(&[0, 0, 1, 0, 0, 1, 0x65]), &[0, 0, 1, 0x65]);
    assert_eq!(strip_start_code(&[0, 0, 0]), &[0, 0, 0]);
    assert_eq!(strip_start_code(&[0, 0, 1]), &[] as &[u8]);
}

#[test]
fn avcc_single_nal_3byte_start_code() {
    let nals: &[&[u8]] = &[&[0x00, 0x00, 0x01, 0x41, 0xAA]];
    let payload = serialize_avcc_payload(nals);
    assert_eq!(payload, vec![0x00, 0x00, 0x00, 0x02, 0x41, 0xAA]);
}

#[test]
fn avcc_multi_nal_mixed_start_codes() {
    let nals: &[&[u8]] = &[
        &[0x00, 0x00, 0x00, 0x01, 0x67, 0x42], // SPS (4-byte)
        &[0x00, 0x00, 0x00, 0x01, 0x68, 0xCE], // PPS (4-byte)
        &[0x00, 0x00, 0x01, 0x65, 0x88, 0x80], // IDR (3-byte)
    ];
    let payload = serialize_avcc_payload(nals);
    let expected: Vec<u8> = vec![
        0x00, 0x00, 0x00, 0x02, 0x67, 0x42,
        0x00, 0x00, 0x00, 0x02, 0x68, 0xCE,
        0x00, 0x00, 0x00, 0x03, 0x65, 0x88, 0x80,
    ];
    assert_eq!(payload, expected);
}

#[test]
fn avcc_of_no_units_is_empty() {
    assert_eq!(serialize_avcc_payload(&[]), Vec::<u8>::new());
}

#[test]
fn codec_string_baseline_31_no_start_code() {
    let sps = vec![0x67, 0x42, 0x00, 0x1f, 0xE9];
    assert_eq!(build_codec_string(&sps), "avc1.42001f");
}

#[test]
fn codec_string_with_4byte_start_code() {
    let sps = vec![0x00, 0x00, 0x00, 0x01, 0x67, 0x42, 0x00, 0x1f, 0xE9];
    assert_eq!(build_codec_string(&sps), "avc1.42001f");
}

#[test]
fn codec_string_high_40() {
    let sps = vec![0x67, 0x64, 0x00, 0x28];
    assert_eq!(build_codec_string(&sps), "avc1.640028");
}

#[test]
fn avcc_descriptor_strips_start_codes() {
    let sps = vec![0x00, 0x00, 0x00, 0x01, 0x67, 0x42, 0xC0, 0x1E, 0xD9];
    let pps = vec![0x00, 0x00, 0x00, 0x01, 0x68, 0xCE, 0x38, 0x80];

    let desc = build_avcc_descriptor(&sps, &pps);
    let expected: Vec<u8> = vec![
        1,
        0x42, 0xC0, 0x1E,
        0xFF,
        0xE1,
        0x00, 0x05,
        0x67, 0x42, 0xC0, 0x1E, 0xD9,
        1,
        0x00, 0x04,
        0x68, 0xCE, 0x38, 0x80,
    ];
    assert_eq!(desc, expected);
}

#[test]
fn avcc_descriptor_without_start_codes() {
    let sps = vec![0x67, 0x42, 0xC0, 0x1E, 0xD9];
    let pps = vec![0x68, 0xCE, 0x38, 0x80];

    let desc = build_avcc_descriptor(&sps, &pps);
    assert_eq!(desc.len(), 11 + sps.len() + pps.len());
    assert_eq!(desc[1], 0x42);
    assert_eq!(desc[2], 0xC0);
    assert_eq!(desc[3], 0x1E);
}
