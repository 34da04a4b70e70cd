//! The media owner, its clock and its status.

use turbo_capture::config::{
    ConfigSnapshot, CropRect, InstanceConfig, RenderProfiles, SelectionConfig,
    SelectionProfileConfig, SourceConfig, VideoConfig,
};
use turbo_capture::frame::{FrameDraw, FrameError, SourceRegion, SURFACE_COUNT};
use turbo_capture::geometry::Size;
use turbo_capture::media::{
    is_device_lost, CaptureOutcome, CommandPoll, ConfigurationPoll, EncoderEvent, FrameClock, MediaError,
    MediaOwner, MediaStep, OwnedDecision, SelectionAction, StatusReporter, ERROR_DEVICE_HUNG,
    ERROR_DEVICE_REMOVED, ERROR_DEVICE_RESET,
};
use turbo_capture::names::NameMap;
use turbo_capture::selector::{ObservationId, ObservedWindow, WindowBounds};
use turbo_capture::status::CaptureState;
use turbo_capture::video::{AccessUnit, VideoEvent};

/// A snapshot with one profile.
fn snapshot(crop: Option<CropRect>) -> ConfigSnapshot {
    let mut profiles = NameMap::new();
    profiles.insert(
        "code".to_owned(),
        SelectionProfileConfig { includes: vec!["Code.exe".to_owned()], excludes: vec![] },
    );
    let config = InstanceConfig {
        selection: SelectionConfig {
            prefer_foreground: true,
            enabled: vec!["code".to_owned()],
            profiles,
        },
        source: SourceConfig { capture_cursor: false, crop },
        video: VideoConfig { width: 1920, height: 1200, frame_rate: 60, bit_rate: None },
        render: RenderProfiles::default(),
    };
    ConfigSnapshot::initial(config.validate().unwrap())
}

/// An eligible window.
fn window(id: u64) -> ObservedWindow {
    ObservedWindow {
        id: ObservationId(id),
        process_id: 7,
        executable_name: "Code.exe".to_owned(),
        executable_path: None,
        title: "Editor".to_owned(),
        visible: true,
        foreground: true,
        bounds: WindowBounds { left: 0, top: 0, width: 1280, height: 720 },
    }
}

/// An owner that captures window 5.
fn capturing(crop: Option<CropRect>) -> MediaOwner {
    let mut owner = MediaOwner::new(snapshot(crop), 0).ok().unwrap();
    let observations = [window(5)];
    let decision = owner.decide(&observations);
    let SelectionAction::Open { index, target, draw } =
        owner.apply_selection(decision, &observations).unwrap()
    else {
        panic!("expected a new target");
    };
    assert_eq!((index, draw), (0, FrameDraw::Nothing));
    assert_eq!(target.id, ObservationId(5));
    owner.session_opened(target);
    owner
}

#[test]
fn frame_clock_should_produce_positive_fixed_media_duration() {
    let clock = FrameClock::new(60, 16_666_666, 0).unwrap();
    let (timestamp, duration) = clock.sample_times(0).unwrap();
    assert!(timestamp >= 0);
    assert_eq!(duration, 166_666);
}

#[test]
fn frame_clock_should_count_to_its_deadline() {
    assert_eq!(FrameClock::new(0, 1, 0), Err(MediaError::ZeroFrameRate));
    let mut clock = FrameClock::new(50, 20_000_000, 100).unwrap();
    assert_eq!(clock.remaining(40), 60);
    assert_eq!(clock.remaining(200), 0);
    clock.restart(1_000);
    assert_eq!(clock.remaining(1_000), 20_000_000);
    assert_eq!(clock.sample_times(12_345), Ok((123, 200_000)));
    assert_eq!(clock.sample_times(u128::MAX), Err(MediaError::TimestampExhausted));
}

#[test]
fn status_rates_should_use_delta_counts() {
    let mut reporter = StatusReporter::new();
    reporter.captured().unwrap();
    reporter.encoded().unwrap();
    let seconds = 2.0;
    let counts = reporter.tick(2_000_000_000).unwrap();

    assert!(counts.captured as f64 / seconds > 0.4);
    assert!(counts.encoded as f64 / seconds > 0.4);
    assert_eq!(reporter.tick(500_000_000), None);
    let idle = reporter.tick(1_000_000_000).unwrap();
    assert_eq!((idle.captured, idle.encoded), (0, 0));
}

#[test]
fn owners_should_open_the_selected_window() {
    let owner = capturing(None);
    let status = owner.status().snapshot();
    assert_eq!(status.state, CaptureState::Capturing);
    assert_eq!(status.target.as_ref().unwrap().profile, "code");
    assert_eq!(owner.decide(&[window(5)]), OwnedDecision::Keep {
        id: ObservationId(5),
        profile: "code".to_owned(),
    });
    assert_eq!(owner.decide(&[]), OwnedDecision::Wait);
}

#[test]
fn owners_should_draw_what_they_capture() {
    let crop = CropRect { min_x: 10, min_y: 10, max_x: 110, max_y: 60 };
    let mut owner = capturing(Some(crop));
    assert_eq!(
        owner.capture_latest(CaptureOutcome::Frame { size: Size::new(100, 100) }),
        Ok(FrameDraw::Source(SourceRegion { min_x: 10, min_y: 10, max_x: 100, max_y: 60 }))
    );
    assert_eq!(owner.status().snapshot().captured_frames, 1);
    assert_eq!(owner.capture_latest(CaptureOutcome::Empty), Ok(FrameDraw::Nothing));
    assert_eq!(
        owner.capture_latest(CaptureOutcome::Failed { device_lost: true }),
        Err(MediaError::DeviceLostOnCapture)
    );
    assert_eq!(
        owner.capture_latest(CaptureOutcome::Failed { device_lost: false }),
        Ok(FrameDraw::Clear)
    );
    assert_eq!(owner.status().snapshot().state, CaptureState::Waiting);
}

#[test]
fn vanished_targets_should_be_cleared() {
    let mut owner = capturing(None);
    owner.capture_latest(CaptureOutcome::Frame { size: Size::new(100, 100) }).unwrap();
    let decision = owner.decide(&[]);
    assert_eq!(
        owner.apply_selection(decision, &[]),
        Ok(SelectionAction::Wait { draw: FrameDraw::Clear })
    );
    assert_eq!(owner.status().snapshot().target, None);
    let stray = OwnedDecision::Switch { id: ObservationId(9), profile: "code".to_owned() };
    assert_eq!(
        owner.apply_selection(stray, &[window(5)]),
        Err(MediaError::UnknownObservation)
    );
}

#[test]
fn requested_inputs_should_be_served_from_free_surfaces() {
    let mut owner = capturing(None);
    assert_eq!(owner.next_step(), MediaStep::AwaitEvent);
    assert_eq!(owner.note_event(EncoderEvent::NeedInput), Ok(false));
    let MediaStep::Submit { slot } = owner.next_step() else {
        panic!("expected a submission");
    };
    assert_eq!(owner.prepare_slot(slot), Ok(true));
    assert_eq!(owner.prepare_slot(slot), Ok(true));
    assert_eq!(owner.slot_converted(slot), Ok(()));
    assert_eq!(owner.prepare_slot(slot), Ok(false));
    assert_eq!(
        owner.slot_converted(SURFACE_COUNT),
        Err(MediaError::Frame(FrameError::SlotOutOfRange))
    );
    assert!(owner.keyframe_due());
    owner.submitted();
    assert!(!owner.keyframe_due());
    assert_eq!(owner.recycle_surfaces(&[slot]), Ok(()));
    assert_eq!(
        owner.recycle_surfaces(&[slot]),
        Err(MediaError::Frame(FrameError::ReleasedTwice { slot }))
    );
    assert_eq!(owner.note_event(EncoderEvent::HaveOutput), Ok(true));
}

#[test]
fn owners_should_follow_their_channels() {
    let mut owner = capturing(None);
    let idle = CommandPoll { keyframe_requested: false, closed: false };
    assert_eq!(owner.apply_commands(ConfigurationPoll::Unchanged, idle), Ok(()));
    assert_eq!(
        owner.apply_commands(ConfigurationPoll::Closed, idle),
        Err(MediaError::ConfigurationClosed)
    );
    let closed = CommandPoll { keyframe_requested: false, closed: true };
    assert_eq!(
        owner.apply_commands(ConfigurationPoll::Unchanged, closed),
        Err(MediaError::CommandsClosed)
    );
}

#[test]
fn observations_should_be_spaced() {
    let mut owner = MediaOwner::new(snapshot(None), 0).ok().unwrap();
    assert!(owner.observation_due(0));
    assert!(!owner.observation_due(499));
    assert!(owner.observation_due(500));
}

#[test]
fn published_access_units_should_be_counted() {
    let mut owner = capturing(None);
    let unit = AccessUnit::new(1, 2, true, &[0, 0, 0, 1, 0x65]).unwrap();
    owner.published(&VideoEvent::AccessUnit(unit)).unwrap();
    assert_eq!(owner.status().snapshot().encoded_frames, 1);
    assert_eq!(MediaError::DeviceLostOnCapture.message().is_empty(), false);
}

#[test]
fn only_terminal_codes_lose_the_device() {
    for code in [ERROR_DEVICE_REMOVED, ERROR_DEVICE_RESET, ERROR_DEVICE_HUNG] {
        assert!(is_device_lost(&[0x8000_4005, code]));
    }
    assert_eq!(ERROR_DEVICE_REMOVED, 0x887A_0005);
    assert!(!is_device_lost(&[0x8000_4005, 0x887A_0001]));
    assert!(!is_device_lost(&[]));
}
