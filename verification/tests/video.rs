//! The private video protocol.

use turbo_capture::video::{
    decode_message, encode_event, serialize_avcc, AccessUnit, CodecConfiguration, VideoEvent,
    VideoMessage, VideoProtocolError, HEADER_SIZE, MAX_AVCC_SIZE,
};

/// Representative baseline-profile decoder configuration.
fn codec() -> CodecConfiguration {
    CodecConfiguration::new(
        7,
        1920,
        1200,
        &[0x00, 0x00, 0x00, 0x01, 0x67, 0x42, 0xC0, 0x1E, 0xD9],
        &[0x00, 0x00, 0x01, 0x68, 0xCE, 0x38, 0x80],
    )
    .unwrap()
}

/// Representative one-NAL AVCC access unit.
fn access_unit(keyframe: bool) -> AccessUnit {
    AccessUnit::new(
        7,
        16_667,
        keyframe,
        &[0, 0, 0, 3, if keyframe { 0x65 } else { 0x41 }, 0x88, 0x80],
    )
    .unwrap()
}

#[test]
fn codec_configuration_should_round_trip_without_start_codes() {
    let encoded = encode_event(&VideoEvent::CodecConfiguration(codec())).unwrap();
    let VideoMessage::CodecConfiguration(decoded) = decode_message(&encoded).unwrap() else {
        panic!("expected codec configuration");
    };

    assert_eq!(decoded, codec());
}

#[test]
fn access_unit_should_round_trip_keyframe_flag_and_timestamp() {
    let encoded = encode_event(&VideoEvent::AccessUnit(access_unit(true))).unwrap();
    let VideoMessage::AccessUnit(decoded) = decode_message(&encoded).unwrap() else {
        panic!("expected access unit");
    };

    assert_eq!(decoded, access_unit(true));
}

#[test]
fn serialize_avcc_should_strip_mixed_annex_b_prefixes() {
    let nal_units: &[&[u8]] = &[&[0, 0, 0, 1, 0x67, 0x42], &[0, 0, 1, 0x68, 0xCE]];
    let avcc = serialize_avcc(nal_units).unwrap();

    assert_eq!(avcc, [0, 0, 0, 2, 0x67, 0x42, 0, 0, 0, 2, 0x68, 0xCE]);
}

#[test]
fn parser_should_reject_every_header_length_mismatch() {
    let mut encoded = encode_event(&VideoEvent::AccessUnit(access_unit(false))).unwrap();
    encoded[4..8].copy_from_slice(&1u32.to_le_bytes());
    let actual = encoded.len() - HEADER_SIZE;

    assert_eq!(
        decode_message(&encoded).unwrap_err(),
        VideoProtocolError::PayloadLengthMismatch { declared: 1, actual }
    );
}

#[test]
fn parser_should_reject_truncated_avcc_nal_units() {
    let error = AccessUnit::new(1, 0, false, &[0, 0, 0, 5, 0x41]).unwrap_err();
    assert_eq!(
        error,
        VideoProtocolError::TruncatedNalUnit { declared: 5, remaining: 1 }
    );
}

#[test]
fn codec_helpers_should_build_webcodecs_values_without_panicking() {
    let codec = codec();

    assert_eq!(codec.codec_string(), "avc1.42c01e");
    assert_eq!(codec.avcc_description()[..6], [1, 0x42, 0xC0, 0x1E, 0xFF, 0xE1]);
}

#[test]
fn codec_message_bytes_follow_the_layout() {
    let encoded = encode_event(&VideoEvent::CodecConfiguration(codec())).unwrap();
    assert_eq!(
        encoded,
        vec![
            0x01, 0, 0, 0, 25, 0, 0, 0,
            7, 0, 0, 0, 0, 0, 0, 0,
            0x80, 0x07, 0xB0, 0x04,
            5, 0, 0x67, 0x42, 0xC0, 0x1E, 0xD9,
            4, 0, 0x68, 0xCE, 0x38, 0x80,
        ]
    );
}

#[test]
fn access_unit_bytes_follow_the_layout() {
    let encoded = encode_event(&VideoEvent::AccessUnit(access_unit(true))).unwrap();
    assert_eq!(
        encoded,
        vec![
            0x02, 1, 0, 0, 23, 0, 0, 0,
            7, 0, 0, 0, 0, 0, 0, 0,
            0x1B, 0x41, 0, 0, 0, 0, 0, 0,
            0, 0, 0, 3, 0x65, 0x88, 0x80,
        ]
    );
}

#[test]
fn codec_configuration_rejects_each_bad_field() {
    let sps: &[u8] = &[0x67, 0x42, 0xC0, 0x1E];
    let pps: &[u8] = &[0x68];
    assert_eq!(
        CodecConfiguration::new(1, 0, 4, sps, pps).unwrap_err(),
        VideoProtocolError::InvalidDimension { name: "width", value: 0 }
    );
    assert_eq!(
        CodecConfiguration::new(1, 4, 65_536, sps, pps).unwrap_err(),
        VideoProtocolError::InvalidDimension { name: "height", value: 65_536 }
    );
    assert_eq!(
        CodecConfiguration::new(1, 4, 4, &[0, 0, 1, 0x67, 0x42, 0xC0], pps).unwrap_err(),
        VideoProtocolError::SpsTooShort { length: 3 }
    );
    assert_eq!(
        CodecConfiguration::new(1, 4, 4, &vec![0x67; 65_536], pps).unwrap_err(),
        VideoProtocolError::ParameterSetTooLarge { kind: "sps", length: 65_536 }
    );
    assert_eq!(
        CodecConfiguration::new(1, 4, 4, sps, &vec![0x68; 65_537]).unwrap_err(),
        VideoProtocolError::ParameterSetTooLarge { kind: "pps", length: 65_537 }
    );
    assert!(CodecConfiguration::new(1, 65_535, 1, sps, pps).is_ok());
}

#[test]
fn access_units_reject_each_bad_body() {
    assert_eq!(
        AccessUnit::new(1, 0, false, &[]).unwrap_err(),
        VideoProtocolError::EmptyAvcc
    );
    assert_eq!(
        AccessUnit::new(1, 0, false, &[0, 0, 0, 0]).unwrap_err(),
        VideoProtocolError::EmptyNalUnit
    );
    assert_eq!(
        AccessUnit::new(1, 0, false, &vec![0; MAX_AVCC_SIZE + 1]).unwrap_err(),
        VideoProtocolError::PayloadTooLarge {
            length: MAX_AVCC_SIZE + 1,
            maximum: MAX_AVCC_SIZE,
        }
    );
}

#[test]
fn serialization_rejects_each_bad_unit() {
    assert_eq!(serialize_avcc(&[]).unwrap_err(), VideoProtocolError::EmptyAvcc);
    assert_eq!(
        serialize_avcc(&[&[0x41], &[0, 0, 1]]).unwrap_err(),
        VideoProtocolError::EmptyNalUnit
    );
}

#[test]
fn decoding_rejects_each_bad_header() {
    let valid = encode_event(&VideoEvent::AccessUnit(access_unit(false))).unwrap();

    assert_eq!(
        decode_message(&valid[..7]).unwrap_err(),
        VideoProtocolError::TruncatedHeader { length: 7 }
    );

    let mut reserved = valid.clone();
    reserved[3] = 1;
    assert_eq!(decode_message(&reserved).unwrap_err(), VideoProtocolError::ReservedHeaderBits);

    let mut unknown = valid.clone();
    unknown[0] = 9;
    assert_eq!(
        decode_message(&unknown).unwrap_err(),
        VideoProtocolError::UnknownMessageType { message_type: 9 }
    );

    let mut flagged = valid.clone();
    flagged[1] = 2;
    assert_eq!(
        decode_message(&flagged).unwrap_err(),
        VideoProtocolError::UnknownFlags { message_type: 2, flags: 2 }
    );

    assert_eq!(
        decode_message(&[2, 0, 0, 0, 3, 0, 0, 0, 1, 2, 3]).unwrap_err(),
        VideoProtocolError::TruncatedPayload { message: "access unit" }
    );
}

#[test]
fn decoding_rejects_trailing_codec_bytes() {
    let mut encoded = encode_event(&VideoEvent::CodecConfiguration(codec())).unwrap();
    encoded.push(0);
    encoded[4] += 1;
    assert_eq!(
        decode_message(&encoded).unwrap_err(),
        VideoProtocolError::TrailingCodecBytes { trailing: 1 }
    );
}

#[test]
fn serialized_units_make_an_access_unit() {
    let body = serialize_avcc(&[&[0, 0, 1, 0x65, 0x88], &[0x41]]).unwrap();
    let unit = AccessUnit::new(3, 4, true, &body).unwrap();
    assert_eq!(unit.avcc(), &[0, 0, 0, 2, 0x65, 0x88, 0, 0, 0, 1, 0x41]);
    assert_eq!(unit.codec_generation(), 3);
    let event = VideoEvent::AccessUnit(unit);
    let message = decode_message(&encode_event(&event).unwrap()).unwrap();
    assert_eq!(message, VideoMessage::from(event));
}

#[test]
fn protocol_errors_describe_themselves() {
    assert_eq!(
        VideoProtocolError::InvalidDimension { name: "width", value: 0 }.message(),
        "invalid codec width 0; expected 1..=65535"
    );
}

#[test]
fn oversized_messages_are_refused_by_their_header() {
    assert_eq!(
        decode_message(&[2, 0, 0, 0, 0, 0, 0, 2]).unwrap_err(),
        VideoProtocolError::PayloadTooLarge { length: 0x200_0000, maximum: 16_777_216 }
    );
}
