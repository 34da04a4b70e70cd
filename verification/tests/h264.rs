//! Annex B splitting and packetization.

use turbo_capture::h264::{split_annex_b, H264Packetizer, PacketizeError};
use turbo_capture::video::{decode_message, encode_event, VideoEvent, VideoMessage, VideoProtocolError};

/// Baseline parameter sets plus one IDR with mixed prefix lengths.
const FIRST_ACCESS_UNIT: &[u8] = &[
    0, 0, 0, 1, 0x67, 0x42, 0xC0, 0x1E,
    0, 0, 1, 0x68, 0xCE, 0x38,
    0, 0, 0, 1, 0x06, 0x05,
    0, 0, 1, 0x65, 0x88,
];

#[test]
fn splitter_should_preserve_unrecognized_nal_types() {
    let units = split_annex_b(FIRST_ACCESS_UNIT).unwrap();
    assert_eq!(units.iter().map(|unit| unit.kind).collect::<Vec<_>>(), [7, 8, 6, 5]);
}

#[test]
fn packetizer_should_publish_codec_before_first_keyframe() {
    let events = H264Packetizer::new(1920, 1200).packetize(FIRST_ACCESS_UNIT, 123).unwrap();

    assert!(matches!(events[0], VideoEvent::CodecConfiguration(_)));
    let &VideoEvent::AccessUnit(ref access_unit) = &events[1] else {
        panic!("expected access unit after codec configuration");
    };
    assert!(access_unit.is_keyframe());
    assert_eq!(access_unit.timestamp_us(), 123);
}

#[test]
fn packetizer_should_advance_generation_only_when_parameter_sets_change() {
    let mut packetizer = H264Packetizer::new(1280, 720);
    let initial = packetizer.packetize(FIRST_ACCESS_UNIT, 0).unwrap();
    let same = packetizer.packetize(&[0, 0, 1, 0x41, 0x80], 1).unwrap();
    let changed = packetizer
        .packetize(
            &[
                0, 0, 1, 0x67, 0x42, 0xC0, 0x20,
                0, 0, 1, 0x68, 0xCE, 0x38,
                0, 0, 1, 0x65, 0x80,
            ],
            2,
        )
        .unwrap();

    assert_eq!(initial.len(), 2);
    assert_eq!(same.len(), 1);
    let &VideoEvent::CodecConfiguration(ref codec) = &changed[0] else {
        panic!("changed SPS should publish codec configuration");
    };
    assert_eq!(codec.generation(), 2);
}

#[test]
fn packetizer_should_reject_picture_data_before_parameter_sets() {
    let error = H264Packetizer::new(1280, 720).packetize(&[0, 0, 1, 0x41, 0x80], 0).unwrap_err();
    assert!(error.message().contains("no SPS"));
}

#[test]
fn split_should_reject_trailing_empty_nal() {
    let error = split_annex_b(&[0, 0, 1]).unwrap_err();
    assert!(error.message().contains("empty"));
}

#[test]
fn core_protocol_error_remains_a_source() {
    let error = PacketizeError::InvalidAccessUnit(VideoProtocolError::EmptyAvcc);
    assert_eq!(error.source(), Some(&VideoProtocolError::EmptyAvcc));
}

#[test]
fn splitting_rejects_each_bad_stream() {
    assert_eq!(split_annex_b(&[]).unwrap_err(), PacketizeError::NoNalUnit);
    assert_eq!(split_annex_b(&[1, 2, 3]).unwrap_err(), PacketizeError::NoNalUnit);
    assert_eq!(split_annex_b(&[9, 0, 0, 1, 0x65]).unwrap_err(), PacketizeError::LeadingBytes);
    assert_eq!(
        split_annex_b(&[0, 0, 1, 0, 0, 1, 0x65]).unwrap_err(),
        PacketizeError::EmptyNalUnit
    );
}

#[test]
fn splitting_keeps_every_byte() {
    let units = split_annex_b(FIRST_ACCESS_UNIT).unwrap();
    let mut rejoined: Vec<u8> = Vec::new();
    for unit in &units {
        rejoined.extend_from_slice(unit.full);
        assert!(unit.full.ends_with(unit.payload));
    }
    assert_eq!(rejoined, FIRST_ACCESS_UNIT);
    assert_eq!(units[0].payload, &[0x67, 0x42, 0xC0, 0x1E]);
}

#[test]
fn packetizer_needs_both_parameter_sets() {
    let mut packetizer = H264Packetizer::new(1280, 720);
    let error = packetizer
        .packetize(&[0, 0, 1, 0x67, 0x42, 0xC0, 0x1E, 0, 0, 1, 0x65, 0x80], 0)
        .unwrap_err();
    assert_eq!(error, PacketizeError::MissingPps);
}

#[test]
fn short_parameter_sets_are_refused() {
    let error = H264Packetizer::new(1280, 720)
        .packetize(&[0, 0, 1, 0x67, 0x42, 0, 0, 1, 0x68, 0, 0, 1, 0x65], 0)
        .unwrap_err();
    assert_eq!(
        error,
        PacketizeError::InvalidParameterSets(VideoProtocolError::SpsTooShort { length: 2 })
    );
    assert_eq!(error.message(), "encoder produced invalid H.264 parameter sets");
}

#[test]
fn packetized_events_pass_through_the_protocol() {
    let events = H264Packetizer::new(1920, 1200).packetize(FIRST_ACCESS_UNIT, 9).unwrap();
    for event in events {
        let decoded = decode_message(&encode_event(&event).unwrap()).unwrap();
        assert_eq!(decoded, VideoMessage::from(event));
    }
}

#[test]
fn refused_parameter_sets_never_begin_a_generation() {
    let mut packetizer = H264Packetizer::new(1280, 720);
    let short = [0, 0, 1, 0x67, 0x42, 0, 0, 1, 0x68, 0xCE, 0, 0, 1, 0x65, 0x88];
    let first = packetizer.packetize(&short, 0).unwrap_err();
    assert_eq!(packetizer.packetize(&short, 1).unwrap_err(), first);

    let whole = [
        0, 0, 1, 0x67, 0x42, 0, 0x1F, 0, 0, 1, 0x68, 0xCE, 0, 0, 1, 0x65, 0x88,
    ];
    let events = packetizer.packetize(&whole, 2).unwrap();
    assert_eq!(events.len(), 2);
    let VideoEvent::CodecConfiguration(codec) = &events[0] else {
        panic!("expected a codec configuration");
    };
    assert_eq!(codec.generation(), 1);

    assert!(packetizer.packetize(&short, 3).is_err());
    let events = packetizer.packetize(&whole, 4).unwrap();
    assert_eq!(events.len(), 1);
    let VideoEvent::AccessUnit(unit) = &events[0] else {
        panic!("expected an access unit");
    };
    assert_eq!(unit.codec_generation(), 1);
}

#[test]
fn parameter_sets_may_come_one_by_one() {
    let mut packetizer = H264Packetizer::new(1280, 720);
    let sequence = [0, 0, 1, 0x67, 0x42, 0, 0x1F];
    assert_eq!(packetizer.packetize(&sequence, 0).unwrap_err(), PacketizeError::MissingPps);
    let events = packetizer.packetize(&[0, 0, 1, 0x68, 0xCE, 0, 0, 1, 0x65, 0x88], 1).unwrap();
    assert_eq!(events.len(), 2);
}
