//! The encoder's parameters and its output stream.

use turbo_capture::avcc::serialize_avcc_payload;
use turbo_capture::encoder::{
    find_h264_encoder, parse_nal_units, run_step, unpack_words, CodecSetting, EncoderAction,
    EncoderClock, EncoderPoll, EncoderSetup, H264EncoderConfig, NALUnit, NALUnitType, OutputType, ProtocolWriter, SampleTimes, SetupFailure, SetupStep, StreamMessage, VideoEncoderConfig, DEFAULT_BITRATE,
};
use turbo_capture::geometry::Size;
use turbo_capture::media::EncoderEvent;
use turbo_capture::wire::{flags, MessageType};

/// Create one synthetic Annex B NAL unit for protocol-only tests.
fn nal(unit_type: NALUnitType, header: u8, body: &[u8]) -> NALUnit {
    let mut data = vec![0, 0, 0, 1, header];
    data.extend_from_slice(body);
    NALUnit { unit_type, data }
}

#[test]
fn keyframe_preserves_codec_and_frame_wire_format() {
    let output = ProtocolWriter::new(Size::new(1920, 1200));
    let units = [
        nal(NALUnitType::SPS, 0x67, &[0x42, 0x00, 0x1F]),
        nal(NALUnitType::PPS, 0x68, &[0xCE, 0x38, 0x80]),
        nal(NALUnitType::IDR, 0x65, &[0x88, 0x84]),
    ];
    let messages = output.write_access_unit(&units, 16_667);
    assert_eq!(messages.len(), 2);

    assert_eq!(messages[0].message_type(), MessageType::CodecParams);
    let StreamMessage::CodecParams(codec) = &messages[0] else {
        panic!("expected codec parameters");
    };
    assert_eq!((codec.width, codec.height), (1920, 1200));
    assert_eq!(codec.sps, units[0].data);
    assert_eq!(codec.pps, units[1].data);

    assert_eq!(messages[1].message_type(), MessageType::Frame);
    let StreamMessage::Frame { flags: frame_flags, timestamp_us, avcc } = &messages[1] else {
        panic!("expected a frame");
    };
    assert_eq!(*frame_flags, flags::IS_KEYFRAME);
    assert_eq!(*timestamp_us, 16_667);
    let expected_avcc =
        serialize_avcc_payload(&units.iter().map(|unit| unit.data.as_slice()).collect::<Vec<_>>());
    assert_eq!(*avcc, expected_avcc);
}

#[test]
fn unchanged_codec_parameters_are_not_repeated() {
    let mut output = ProtocolWriter::new(Size::new(1920, 1200));
    let units = [
        nal(NALUnitType::SPS, 0x67, &[0x42, 0x00, 0x1F]),
        nal(NALUnitType::PPS, 0x68, &[0xCE, 0x38, 0x80]),
        nal(NALUnitType::IDR, 0x65, &[0x88]),
    ];
    let mut message_types = Vec::new();
    for timestamp_us in [1, 2] {
        for message in output.write_access_unit(&units, timestamp_us) {
            message_types.push(message.message_type());
        }
        output.written(&units, true);
    }
    assert_eq!(
        message_types,
        [MessageType::CodecParams, MessageType::Frame, MessageType::Frame]
    );
}

#[test]
fn non_idr_access_unit_is_not_marked_as_keyframe() {
    let output = ProtocolWriter::new(Size::new(1920, 1200));
    let messages = output.write_access_unit(&[nal(NALUnitType::NonIDR, 0x61, &[0xAA])], 3);

    assert_eq!(messages[0].message_type(), MessageType::Frame);
    let StreamMessage::Frame { flags, .. } = &messages[0] else {
        panic!("expected a frame");
    };
    assert_eq!(*flags, 0);
}

#[test]
fn nal_units_are_split_and_classified() {
    let data = [
        0, 0, 0, 1, 0x67, 0x42, 0, 0, 1, 0x68, 0xCE, 0, 0, 0, 1, 0x06, 0x05, 0, 0, 1, 0x65, 0x88, 0,
        0, 1, 0x41,
    ];
    let units = parse_nal_units(&data);
    let kinds: Vec<NALUnitType> = units.iter().map(|unit| unit.unit_type).collect();
    assert_eq!(
        kinds,
        [NALUnitType::SPS, NALUnitType::PPS, NALUnitType::IDR, NALUnitType::NonIDR]
    );
    assert_eq!(units[0].data, [0, 0, 0, 1, 0x67, 0x42]);
    assert_eq!(units[3].data, [0, 0, 1, 0x41]);
    assert_eq!(parse_nal_units(&[1, 2, 3]).len(), 0);
}

#[test]
fn unit_types_come_from_the_low_five_bits() {
    assert_eq!(NALUnitType::from_header(0x61), Some(NALUnitType::NonIDR));
    assert_eq!(NALUnitType::from_header(0x65), Some(NALUnitType::IDR));
    assert_eq!(NALUnitType::from_header(0x06), None);
}

#[test]
fn encoder_parameters_are_packed() {
    let config =
        H264EncoderConfig { frame_size: Size::new(1920, 1200), frame_rate: 60, bitrate: DEFAULT_BITRATE };
    assert_eq!(config.gop_size(), 120);
    assert_eq!(unpack_words(config.packed_frame_size()), (1920, 1200));
    assert_eq!(unpack_words(config.packed_frame_rate()), (60, 1));
    assert!(VideoEncoderConfig { frame_rate: 0, bitrate: 1 }.check().is_err());
    assert!(VideoEncoderConfig { frame_rate: 1, bitrate: 0 }.check().is_err());
    assert!(VideoEncoderConfig { frame_rate: 1, bitrate: 1 }.check().is_ok());
}

#[test]
fn the_nvidia_encoder_is_preferred() {
    let names = ["Software".to_owned(), "NVIDIA H.264 Encoder MFT".to_owned()];
    assert_eq!(find_h264_encoder(&names), Ok(1));
    assert!(find_h264_encoder(&names[..1]).is_err());
}

#[test]
fn sample_times_follow_the_clock() {
    let mut clock = EncoderClock::new();
    let first = clock.advance(16_666_700);
    assert_eq!(first, SampleTimes { time: 166_660, duration: 166_660 });
    let second = clock.advance(33_333_300);
    assert_eq!(second, SampleTimes { time: 500_000, duration: 333_330 });
}

#[test]
fn unwritten_parameters_are_offered_again() {
    let mut output = ProtocolWriter::new(Size::new(1920, 1200));
    let units = [
        nal(NALUnitType::SPS, 0x67, &[0x42, 0x00, 0x1F]),
        nal(NALUnitType::PPS, 0x68, &[0xCE, 0x38, 0x80]),
        nal(NALUnitType::IDR, 0x65, &[0x88]),
    ];
    let first = output.write_access_unit(&units, 1);
    assert_eq!(first.len(), 2);
    // The parameters were written, the frame was not.
    output.written(&units, false);
    assert_eq!(output.write_access_unit(&units, 1), first);
    output.written(&units, true);
    let repeated = output.write_access_unit(&units, 2);
    assert_eq!(repeated.len(), 1);
    assert_eq!(repeated[0].message_type(), MessageType::Frame);
    assert_eq!(output.write_access_unit(&[], 4).len(), 0);
}

#[test]
fn encoder_runs_do_what_the_encoder_asks_for() {
    let step = |event| run_step(EncoderPoll::Event(event));
    assert_eq!(step(EncoderEvent::NeedInput), EncoderAction::ProcessInput);
    assert_eq!(step(EncoderEvent::HaveOutput), EncoderAction::ProcessOutput);
    assert_eq!(step(EncoderEvent::DrainComplete), EncoderAction::Wait);
    assert_eq!(step(EncoderEvent::Other), EncoderAction::Wait);
    assert_eq!(run_step(EncoderPoll::Failed), EncoderAction::Wait);
}

#[test]
fn encoder_setups_are_ordered_and_tolerate_refused_settings() {
    let config = H264EncoderConfig {
        frame_size: Size::new(1920, 1200),
        frame_rate: 60,
        bitrate: DEFAULT_BITRATE,
    };
    let mut setup = EncoderSetup::new(config);
    let mut steps = Vec::new();
    while let Some(step) = setup.step() {
        steps.push(step);
        let accepted = !matches!(step, SetupStep::Configure(_));
        assert_eq!(setup.attempted(accepted), Ok(()));
    }
    assert_eq!(steps.len(), 15);
    assert_eq!(
        steps[4],
        SetupStep::SetOutputType(OutputType {
            bitrate: 8_000_000,
            frame_size: (1920 << 32) | 1200,
            frame_rate: (60 << 32) | 1,
            profile: 66,
        })
    );
    assert_eq!(steps[5], SetupStep::SetInputType(1));
    assert_eq!(steps[8], SetupStep::AttachManager);
    assert_eq!(steps[10], SetupStep::Configure(CodecSetting::GopSize(120)));
    assert_eq!(steps[14], SetupStep::StartStream);
}

#[test]
fn failed_setup_steps_are_reported() {
    let config = H264EncoderConfig { frame_size: Size::new(16, 16), frame_rate: 5, bitrate: 1 };
    let mut setup = EncoderSetup::new(config);
    assert_eq!(setup.attempted(false), Err(SetupFailure { context: None }));
    assert_eq!(setup.attempted(true), Ok(()));
    assert_eq!(
        setup.attempted(false),
        Err(SetupFailure { context: Some("failed to find H264Encoder") })
    );
    assert_eq!(setup.step(), Some(SetupStep::FindEncoder));
}
