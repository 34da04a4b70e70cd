//! Supervision of the stream's workers.

use turbo_capture::capture::CropBox;
use turbo_capture::geometry::Size;
use turbo_capture::launch::{failure, Cleanup, Cohort, Launch, LaunchStep};
use turbo_capture::observation::WindowInfo;
use turbo_capture::proof_run::{poll, ProofStep, WorkerStatus};
use turbo_capture::restart::{Component, RecoveryScope};
use turbo_capture::shared_texture::RESOURCE_GENERATION_LOST_EXIT_CODE;
use turbo_capture::stream::{
    capture_arguments, encoder_arguments, first_exit, relay_arguments, selector_arguments,
    validate_args, ChildExit, MainSupervisor, ObservedExit, SharedOutput, StreamArgs, StreamMode,
    ValidatedMode,
};
use turbo_capture::youtube_music::{
    find_window, Config, Discovery, MonitorStep, StartOutcome, Supervisor,
};

/// Valid arguments of main mode.
fn main_args() -> StreamArgs {
    StreamArgs {
        mode: StreamMode::Main,
        selector: Some(Ok("selector.exe".to_owned())),
        encoder: Ok("encoder.exe".to_owned()),
        relay: Ok("relay.exe".to_owned()),
        config: Some(Ok("profiles.toml".to_owned())),
        server: "ws://localhost:3000".to_owned(),
        info_url: Some("http://localhost:3000/info".to_owned()),
        stream_id: None,
        width: None,
        height: None,
        fps: None,
        youtube_music_title: None,
        poll_interval_seconds: None,
        fault_abandon_selector_after_publications: None,
    }
}

/// Valid arguments of YouTube Music mode.
fn youtube_args() -> StreamArgs {
    StreamArgs {
        mode: StreamMode::YoutubeMusic,
        selector: None,
        config: None,
        info_url: None,
        youtube_music_title: Some("YouTube Music".to_owned()),
        ..main_args()
    }
}

/// One visible window.
fn titled(hwnd: u64, title: &str) -> WindowInfo {
    WindowInfo {
        hwnd,
        pid: 1,
        title: title.to_owned(),
        executable_path: String::new(),
        width: 10,
        height: 10,
    }
}

#[test]
fn main_mode_fills_in_its_defaults() {
    let Ok(ValidatedMode::Main { config, info_url }) = validate_args(main_args()) else {
        panic!("expected main mode");
    };
    assert_eq!(config.stream_id, "main");
    assert_eq!(config.size, Size::new(1920, 1200));
    assert_eq!(config.fps, 60);
    assert_eq!(info_url, "http://localhost:3000/info");
}

#[test]
fn youtube_mode_fills_in_its_defaults() {
    let Ok(ValidatedMode::YoutubeMusic(settings)) = validate_args(youtube_args()) else {
        panic!("expected YouTube Music mode");
    };
    assert_eq!(settings.stream_id, "youtube-music");
    assert_eq!(settings.poll_interval_seconds, 5);
    let config = Config::new("capture.exe".to_owned(), settings);
    assert_eq!(config.capture, "capture.exe");
    assert_eq!(config.title, "YouTube Music");
}

#[test]
fn arguments_report_each_refusal() {
    let refused = |args: StreamArgs| validate_args(args).unwrap_err();
    assert_eq!(
        refused(StreamArgs { stream_id: Some("  ".to_owned()), ..main_args() }),
        "stream ID must not be empty"
    );
    assert_eq!(
        refused(StreamArgs { server: "http://x".to_owned(), ..main_args() }),
        "--server must be a ws:// or wss:// URL"
    );
    assert_eq!(
        refused(StreamArgs { info_url: None, ..main_args() }),
        "--info-url is required for --mode main"
    );
    assert_eq!(
        refused(StreamArgs { info_url: Some("ftp://x".to_owned()), ..main_args() }),
        "--info-url must be an http:// or https:// URL"
    );
    assert_eq!(
        refused(StreamArgs { selector: None, ..main_args() }),
        "--selector is required for --mode main"
    );
    assert_eq!(
        refused(StreamArgs { config: None, ..main_args() }),
        "--config is required for --mode main"
    );
    assert_eq!(
        refused(StreamArgs { encoder: Err("no such file".to_owned()), ..main_args() }),
        "no such file"
    );
    assert_eq!(
        refused(StreamArgs { poll_interval_seconds: Some(1), ..main_args() }),
        "--youtube-music-title and --poll-interval-seconds require --mode youtube-music"
    );
    assert!(refused(StreamArgs { width: Some(1919), ..main_args() }).contains("1919"));
    assert_eq!(
        refused(StreamArgs { width: Some(16), ..youtube_args() }),
        "selector, config, metadata, dimensions, and selector fault options require --mode main"
    );
    assert_eq!(
        refused(StreamArgs { youtube_music_title: None, ..youtube_args() }),
        "--youtube-music-title is required for --mode youtube-music"
    );
    assert_eq!(
        refused(StreamArgs { youtube_music_title: Some(String::new()), ..youtube_args() }),
        "YouTube Music title prefix must not be empty"
    );
}

#[test]
fn the_first_exit_is_attributed() {
    let exit = ChildExit { code: Some(1), stable_for: 5 };
    assert_eq!(first_exit(None, None, None), None);
    assert_eq!(
        first_exit(None, Some(exit), Some(exit)),
        Some(ObservedExit { component: Component::Encoder, exit })
    );
    assert_eq!(first_exit(Some(exit), None, None).unwrap().component, Component::Capture);
    assert_eq!(first_exit(None, None, Some(exit)).unwrap().component, Component::Relay);
}

#[test]
fn recovery_stops_no_more_than_it_must() {
    let mut supervisor = MainSupervisor::new(Some(3));
    assert_eq!(supervisor.begin_generation(), Ok(1));
    assert_eq!(supervisor.pending_fault(), Some(3));
    supervisor.capture_launched();
    assert_eq!(supervisor.pending_fault(), None);
    supervisor.generation_started();

    let local = ObservedExit {
        component: Component::Capture,
        exit: ChildExit { code: Some(1), stable_for: 0 },
    };
    let plan = supervisor.recover(local, 0).unwrap();
    assert_eq!((plan.scope, plan.delay), (RecoveryScope::Capture, 250));
    supervisor.capture_restarted();

    let lost = ObservedExit {
        component: Component::Encoder,
        exit: ChildExit { code: Some(RESOURCE_GENERATION_LOST_EXIT_CODE), stable_for: 0 },
    };
    let plan = supervisor.recover(lost, 0).unwrap();
    assert_eq!(plan.scope, RecoveryScope::ResourceGeneration);
    assert_eq!(supervisor.begin_generation(), Ok(2));
}

#[test]
fn workers_are_given_their_arguments() {
    let Ok(ValidatedMode::Main { config, .. }) = validate_args(main_args()) else {
        panic!("expected main mode");
    };
    let output = SharedOutput { handle: 300, adapter: "0x000000000000002A".to_owned() };
    assert_eq!(
        selector_arguments(&config, &output, Some(4)),
        [
            "--config", "profiles.toml", "--width", "1920", "--height", "1200",
            "--shared-handle", "300", "--adapter-luid", "0x000000000000002A",
            "--fault-abandon-after-publications", "4",
        ]
    );
    assert_eq!(
        encoder_arguments(true, Size::new(16, 32), 60, "main", &output),
        [
            "--mode", "shared", "--width", "16", "--height", "32", "--fps", "60",
            "--stream-id", "main", "--shared-handle", "300", "--adapter-luid",
            "0x000000000000002A",
        ]
    );
    assert_eq!(
        relay_arguments("ws://x", "main"),
        ["--mode", "video", "--server", "ws://x", "--stream-id", "main"]
    );
    let crop = CropBox { min_x: 2, min_y: 682, max_x: 1262, max_y: 750 };
    assert_eq!(
        capture_arguments(66, crop, Size::new(1264, 80), &output),
        [
            "--hwnd", "66", "--crop-min-x", "2", "--crop-min-y", "682", "--crop-max-x", "1262",
            "--crop-max-y", "750", "--width", "1264", "--height", "80", "--no-preview",
            "--shared-handle", "300", "--adapter-luid", "0x000000000000002A",
        ]
    );
}

#[test]
fn windows_are_found_by_title_prefix() {
    let windows =
        [titled(1, "Editor"), titled(2, "YouTube Music - A"), titled(3, "YouTube Music - B")];
    assert_eq!(
        find_window(&windows, "YouTube Music"),
        Some(Discovery { index: 1, ambiguous: true })
    );
    assert_eq!(find_window(&windows, "Edit"), Some(Discovery { index: 0, ambiguous: false }));
    assert_eq!(find_window(&windows, "Music"), None);
}

#[test]
fn launches_follow_their_path() {
    let mut launch = Launch::new(Cohort::YoutubeMusic);
    let mut steps = Vec::new();
    while let Some(step) = launch.step() {
        steps.push((step, launch.cleanup()));
        launch.succeeded();
    }
    let undo = |revoke: bool, encoder: bool, capture: bool| Cleanup { revoke, encoder, capture };
    assert_eq!(
        steps,
        [
            (LaunchStep::CreateMailbox, undo(false, false, false)),
            (LaunchStep::InheritForCapture, undo(false, false, false)),
            (LaunchStep::SpawnCapture, undo(true, false, false)),
            (LaunchStep::RevokeAfterCapture, undo(false, false, true)),
            (LaunchStep::InheritForEncoder, undo(false, false, true)),
            (LaunchStep::SpawnEncoder, undo(true, false, true)),
            (LaunchStep::RevokeAfterEncoder, undo(false, true, true)),
            (LaunchStep::TakeEncodedOutput, undo(false, true, true)),
            (LaunchStep::SpawnRelay, undo(false, true, true)),
        ]
    );
    let mut launch = Launch::new(Cohort::EncoderRelay);
    while launch.step() != Some(LaunchStep::SpawnRelay) {
        launch.succeeded();
    }
    assert_eq!(launch.cleanup(), undo(false, true, false));
    let mut launch = Launch::new(Cohort::Selector);
    while launch.step() != Some(LaunchStep::StartReader) {
        launch.succeeded();
    }
    assert_eq!(launch.cleanup(), undo(false, false, true));
}

#[test]
fn failed_steps_are_described() {
    assert_eq!(
        failure(Cohort::EncoderRelay, LaunchStep::SpawnRelay, 3, "relay.exe").as_deref(),
        Some("generation 3: failed to launch relay.exe")
    );
    assert_eq!(
        failure(Cohort::YoutubeMusic, LaunchStep::SpawnRelay, 3, "relay.exe").as_deref(),
        Some("failed to launch relay.exe")
    );
    assert_eq!(
        failure(Cohort::Selector, LaunchStep::TakeSelectorOutput, 1, "").as_deref(),
        Some("generation 1: selector stdout pipe was not created")
    );
    assert_eq!(
        failure(Cohort::YoutubeMusic, LaunchStep::TakeEncodedOutput, 1, "").as_deref(),
        Some("YouTube Music encoder stdout pipe was not created")
    );
    assert_eq!(
        failure(Cohort::Selector, LaunchStep::RevokeAfterCapture, 1, "").as_deref(),
        Some("failed to revoke mailbox inheritance after selector spawn")
    );
    assert_eq!(failure(Cohort::Selector, LaunchStep::InheritForCapture, 1, ""), None);
}

#[test]
fn youtube_pipelines_are_retried() {
    let mut supervisor = Supervisor::new(5_000);
    assert_eq!(supervisor.monitor(false), MonitorStep::Start);
    assert_eq!(supervisor.monitor(true), MonitorStep::Finish);
    assert_eq!(supervisor.try_start_pipeline(StartOutcome::NoWindow), Ok(5_000));
    assert_eq!(supervisor.try_start_pipeline(StartOutcome::LaunchFailed), Ok(250));
    supervisor.try_start_pipeline(StartOutcome::Started).unwrap();
    assert_eq!(supervisor.monitor(false), MonitorStep::Watch);
    supervisor.worker_exited(0).unwrap();
    assert_eq!(supervisor.monitor(false), MonitorStep::Start);
}

#[test]
fn proof_runs_end_with_either_worker() {
    let clean = || WorkerStatus { success: true, shown: "exit code: 0".to_owned() };
    let failed = || WorkerStatus { success: false, shown: "exit code: 3".to_owned() };
    assert_eq!(poll(None, None, false), ProofStep::Continue);
    assert_eq!(poll(None, Some(clean()), false), ProofStep::Finish(Ok(())));
    assert_eq!(
        poll(None, Some(failed()), false),
        ProofStep::Finish(Err("encoder worker exited with exit code: 3".to_owned()))
    );
    assert_eq!(
        poll(Some(clean()), None, false),
        ProofStep::Finish(Err(
            "selector worker exited unexpectedly with exit code: 0".to_owned()
        ))
    );
    assert_eq!(poll(None, None, true), ProofStep::Finish(Ok(())));
}
