//! The instance service.

use turbo_capture::config::{
    ConfigError, InstanceConfig, RenderProfiles, SelectionConfig, SelectionProfileConfig,
    SourceConfig, VideoConfig,
};
use turbo_capture::names::NameMap;
use turbo_capture::service::{
    request_keyframe, ApiError, ChannelCapacities, DecoderInitialization, Forward, InstanceService,
    MediaCompletion, OpeningStep, ServiceError, SocketInput, Viewer, ViewerAction, ViewerInput,
};
use turbo_capture::status::{CaptureState, MediaStatus, TargetSummary};
use turbo_capture::video::{AccessUnit, CodecConfiguration, VideoEvent};

/// Valid initial configuration.
fn test_config() -> InstanceConfig {
    let mut profiles = NameMap::new();
    profiles.insert(
        "code".to_owned(),
        SelectionProfileConfig { includes: vec!["Code.exe".to_owned()], excludes: vec![] },
    );
    InstanceConfig {
        selection: SelectionConfig {
            prefer_foreground: true,
            enabled: vec!["code".to_owned()],
            profiles,
        },
        source: SourceConfig::default(),
        video: VideoConfig { width: 1920, height: 1200, frame_rate: 60, bit_rate: None },
        render: RenderProfiles::default(),
    }
}

/// A service with its default channels.
fn test_service() -> InstanceService {
    InstanceService::new(test_config().validate().unwrap(), ChannelCapacities::default())
        .ok()
        .unwrap()
}

/// One decoder generation.
fn test_codec(generation: u64, suffix: u8) -> VideoEvent {
    VideoEvent::CodecConfiguration(
        CodecConfiguration::new(
            generation,
            1920,
            1200,
            &[0x67, 0x42, 0xC0, 0x1E, suffix],
            &[0x68, 0xCE, 0x38, suffix],
        )
        .unwrap(),
    )
}

/// One access unit.
fn test_access_unit(generation: u64, timestamp_us: u64, keyframe: bool) -> VideoEvent {
    let header = if keyframe { 0x65 } else { 0x41 };
    let avcc = [0, 0, 0, 2, header, timestamp_us as u8];
    VideoEvent::AccessUnit(AccessUnit::new(generation, timestamp_us, keyframe, &avcc).unwrap())
}

/// What a viewer is sent of some events.
fn delivered(viewer: &mut Viewer, events: &[VideoEvent]) -> Vec<VideoEvent> {
    let mut sent = Vec::new();
    for event in events {
        if viewer.forward_video_event(event) != Forward::Drop {
            sent.push(event.clone());
        }
    }
    sent
}

#[test]
fn status_should_combine_media_configuration_and_viewer_snapshots() {
    let mut service = test_service();
    let media = MediaStatus {
        state: CaptureState::Capturing,
        target: Some(TargetSummary {
            profile: "code".to_owned(),
            executable_name: "Code.exe".to_owned(),
            title: "capture-core".to_owned(),
        }),
        captured_frames: 10,
        encoded_frames: 9,
    };
    service.viewer_joined();

    let status = service.get_status(&media);

    assert_eq!(status.configuration_generation, 1);
    assert_eq!(status.state, CaptureState::Capturing);
    assert_eq!(status.target.unwrap().profile, "code");
    assert_eq!((status.output_width, status.output_height, status.frame_rate), (1920, 1200, 60));
    assert_eq!((status.captured_frames, status.encoded_frames), (10, 9));
    assert_eq!(status.viewer_count, 1);
}

#[test]
fn invalid_put_should_retain_the_last_valid_generation() {
    let mut service = test_service();
    let mut candidate = test_config();
    candidate.video.width = 1;

    let rejected = service.put_config(candidate).unwrap_err();
    assert_eq!(rejected.status, 422);
    assert_eq!(rejected.code, "invalid_configuration");
    assert_eq!(rejected.issues.len(), 1);

    assert_eq!(service.snapshot().generation, 1);
    assert_eq!(service.snapshot().config.config().video.width, 1920);
}

#[test]
fn malformed_json_should_use_the_structured_error_envelope() {
    let error = ApiError::malformed_json("expected value".to_owned());
    assert_eq!(error.status, 400);
    assert_eq!(error.code, "malformed_json");
    assert_eq!(error.message, "expected value");
}

#[test]
fn restart_required_put_should_report_fields_and_retain_generation() {
    let mut service = test_service();
    let mut candidate = test_config();
    candidate.video.frame_rate = 30;

    let rejected = service.put_config(candidate).unwrap_err();
    assert_eq!(rejected.status, 409);
    assert_eq!(rejected.restart_fields, ["video"]);
    assert_eq!(service.snapshot().generation, 1);
}

#[test]
fn valid_put_should_publish_one_complete_next_generation() {
    let mut service = test_service();
    let mut candidate = test_config();
    candidate.selection.prefer_foreground = false;

    assert_eq!(service.put_config(candidate), Ok(2));
    assert_eq!(service.snapshot().generation, 2);
    assert!(!service.snapshot().config.config().selection.prefer_foreground);
}

#[test]
fn exhausted_generations_should_be_internal_errors() {
    let large = ConfigError::TooLarge { path: "a.toml".to_owned(), limit: 3 };
    let error = ApiError::from_config(large);
    assert_eq!((error.status, error.code), (500, "configuration_state_error"));
    assert_eq!(error.message, "configuration a.toml exceeds the 3 byte limit");
    let error = ApiError::from_config(ConfigError::GenerationExhausted);
    assert_eq!((error.status, error.code), (500, "configuration_state_error"));
}

#[test]
fn viewer_count_should_follow_connection_lifetime() {
    let mut service = test_service();
    let media = MediaStatus::default();
    service.viewer_joined();
    assert_eq!(service.get_status(&media).viewer_count, 1);
    service.viewer_left();
    assert_eq!(service.get_status(&media).viewer_count, 0);
}

#[test]
fn reconnecting_viewer_should_require_a_distinct_fresh_keyframe() {
    let mut service = test_service();
    service.observe_event(&test_codec(1, 0xD9));

    for timestamp_us in [10, 20] {
        let mut viewer = service.admit_viewer();
        let stale = test_access_unit(1, timestamp_us - 1, false);
        let fresh = test_access_unit(1, timestamp_us, true);
        assert_eq!(delivered(&mut viewer, &[stale, fresh.clone()]), [fresh]);
    }
}

#[test]
fn fake_host_should_gate_late_viewer_and_codec_changes_on_fresh_idrs() {
    let mut service = test_service();
    service.observe_event(&test_codec(1, 0xD9));
    let mut viewer = service.admit_viewer();

    assert_eq!(viewer.forward_video_event(&test_access_unit(1, 1, false)), Forward::Drop);
    assert_eq!(viewer.forward_video_event(&test_access_unit(1, 2, true)), Forward::Send);
    assert_eq!(
        viewer.forward_video_event(&test_codec(2, 0xDA)),
        Forward::SendAndRequestKeyframe
    );
    assert_eq!(viewer.forward_video_event(&test_access_unit(2, 3, false)), Forward::Drop);
    assert_eq!(viewer.forward_video_event(&test_access_unit(2, 4, true)), Forward::Send);
    assert_eq!(viewer.forward_video_event(&test_access_unit(2, 5, false)), Forward::Send);
    assert_eq!(viewer.forward_video_event(&test_access_unit(1, 6, true)), Forward::Drop);
}

#[test]
fn render_configuration_should_be_sent_when_it_changes() {
    let mut service = test_service();
    let mut viewer = service.admit_viewer();
    let media = MediaStatus::default();

    let first = viewer.current_render(service.snapshot(), &media).unwrap();
    assert_eq!(first.configuration_generation, 1);
    assert_eq!(first.profile, None);
    assert!(viewer.current_render(service.snapshot(), &media).is_none());

    service.put_config(test_config()).unwrap();
    let second = viewer.current_render(service.snapshot(), &media).unwrap();
    assert_eq!(second.configuration_generation, 2);
}

#[test]
fn initialization_should_announce_the_cached_decoder() {
    let mut service = test_service();
    let media = MediaStatus::default();
    assert!(service.get_initialization(&media).decoder.is_none());
    assert!(service.cached_codec().is_none());

    service.observe_event(&test_codec(1, 0xD9));
    let decoder = service.get_initialization(&media).decoder.unwrap();
    assert_eq!(decoder.generation, 1);
    assert_eq!(decoder.codec, "avc1.42c01e");
    assert_eq!((decoder.width, decoder.height), (1920, 1200));
    assert_eq!(decoder.description, "AULAHv/hAAVnQsAe2QEABGjOONk=");
    assert_eq!(&decoder, &DecoderInitialization::of(service.cached_codec().unwrap()));
}

#[test]
fn empty_channels_should_be_refused() {
    let capacities = ChannelCapacities { encoded_output: 0, ..ChannelCapacities::default() };
    let error = InstanceService::new(test_config().validate().unwrap(), capacities).err().unwrap();
    assert_eq!(error, ServiceError::ZeroChannelCapacity { name: "encoded_output" });
    assert!(error.message().contains("encoded_output"));
}

#[test]
fn routers_should_start_once_inside_a_runtime() {
    let mut service = test_service();
    assert_eq!(service.start_router(false), Err(ServiceError::MissingTokioRuntime));
    assert_eq!(service.start_router(true), Ok(()));
    assert_eq!(service.start_router(true), Err(ServiceError::RouterAlreadyStarted));
    assert!(service.take_media_completion());
    assert!(!service.take_media_completion());
}

#[test]
fn media_completion_should_become_a_result() {
    assert_eq!(MediaCompletion::Clean.into_result(), Ok(()));
    assert_eq!(
        MediaCompletion::Fatal { message: "device removed".to_owned() }.into_result(),
        Err("device removed".to_owned())
    );
}

#[test]
fn refused_keyframe_requests_should_be_explained() {
    assert_eq!(request_keyframe(true), Ok(()));
    let error = request_keyframe(false).unwrap_err();
    assert_eq!(error.code, "media_command_unavailable");
    assert_eq!(error.message, "media owner cannot accept a fresh-keyframe request");
}

#[test]
fn viewers_should_open_without_a_codec() {
    let opening = test_service().open_viewer(&MediaStatus::default());
    assert_eq!(opening.steps.len(), 2);
    assert!(matches!(opening.steps[0], OpeningStep::SendRender(_)));
    assert_eq!(opening.steps[1], OpeningStep::RequestKeyframe);
}

#[test]
fn viewers_should_be_opened_and_handled() {
    let mut service = test_service();
    service.observe_event(&test_codec(1, 0xD9));
    let media = MediaStatus::default();
    let opening = service.open_viewer(&media);
    let mut viewer = opening.viewer;
    let [
        OpeningStep::SendRender(render),
        OpeningStep::SendCodec(codec),
        OpeningStep::RequestKeyframe,
    ] = opening.steps.as_slice() else {
        panic!("expected render parameters, a codec configuration, and a keyframe request");
    };
    assert_eq!(render.configuration_generation, 1);
    assert_eq!(codec.generation(), 1);

    let snapshot = service.snapshot();
    let wait = viewer.handle_viewer(ViewerInput::Socket(SocketInput::Other), snapshot, &media);
    assert_eq!(wait, ViewerAction::Wait);
    let quiet = viewer.handle_viewer(ViewerInput::Snapshots { closed: false }, snapshot, &media);
    assert_eq!(quiet, ViewerAction::Wait);
    let stale = test_access_unit(1, 1, false);
    assert_eq!(
        viewer.handle_viewer(ViewerInput::Video(&stale), snapshot, &media),
        ViewerAction::Wait
    );
    let fresh = test_access_unit(1, 2, true);
    assert_eq!(
        viewer.handle_viewer(ViewerInput::Video(&fresh), snapshot, &media),
        ViewerAction::SendVideo { request_keyframe: false }
    );
    let changed = test_codec(2, 0xDA);
    assert_eq!(
        viewer.handle_viewer(ViewerInput::Video(&changed), snapshot, &media),
        ViewerAction::SendVideo { request_keyframe: true }
    );
    for input in [
        ViewerInput::VideoLost,
        ViewerInput::Snapshots { closed: true },
        ViewerInput::Socket(SocketInput::Close),
        ViewerInput::Socket(SocketInput::Failed),
        ViewerInput::Socket(SocketInput::Ended),
    ] {
        assert_eq!(viewer.handle_viewer(input, snapshot, &media), ViewerAction::Stop);
    }

    service.put_config(test_config()).unwrap();
    let action = viewer.handle_viewer(
        ViewerInput::Snapshots { closed: false },
        service.snapshot(),
        &media,
    );
    let ViewerAction::SendRender(message) = action else {
        panic!("expected render parameters");
    };
    assert_eq!(message.configuration_generation, 2);
}
