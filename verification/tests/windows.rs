//! Foreground selection, previews, publication and window observation.

use turbo_capture::capture::CropBox;
use turbo_capture::config::SelectionProfileConfig;
use turbo_capture::foreground::{ForegroundSelector, SelectorCommand, SelectorConfig};
use turbo_capture::geometry::Size;
use turbo_capture::names::NameMap;
use turbo_capture::observation::{
    decode_wide, executable_name, is_capturable, retain_foreign, translate_window, WindowInfo,
};
use turbo_capture::patterns::PresetConfig;
use turbo_capture::preview::{
    initial_target, FrameTransform, PreviewEvent, PreviewRequest, PreviewSetup, PreviewState, Recovery,
    SelectedTarget,
};
use turbo_capture::profiles::{PolicyError, SelectorDocument};
use turbo_capture::publisher::{
    next_key, plan_draw, seed, PublishDraw, PublishError, PublishStep, SharedPublisher,
};
use turbo_capture::selector::ObservationId;
use turbo_capture::shared_texture::{AcquireStatus, CONSUMER_KEY, PRODUCER_KEY};
use turbo_capture::source::CaptureSource;
use turbo_capture::swap::{coalesce, format_hwnd, ForegroundWindow, PostTask, SelectorLoop};

/// A foreground window.
fn foreground(hwnd: i64, executable_path: &str) -> ForegroundWindow {
    ForegroundWindow {
        hwnd,
        title: "Editor".to_owned(),
        executable_path: executable_path.to_owned(),
    }
}

/// A document that allows one executable.
fn document(rule: &str) -> SelectorDocument {
    let mut definitions = NameMap::new();
    definitions.insert(
        "code".to_owned(),
        SelectionProfileConfig { includes: vec![rule.to_owned()], excludes: vec![] },
    );
    SelectorDocument { enabled: vec!["code".to_owned()], definitions }
}

/// A metadata task.
fn task(hwnd: i64, is_swap: bool) -> PostTask {
    PostTask {
        hwnd,
        title: String::new(),
        file_description: String::new(),
        mode: None,
        is_swap,
    }
}

#[test]
fn translation_should_preserve_native_identity_only_beside_plain_facts() {
    let translated = translate_window(
        WindowInfo {
            hwnd: 42,
            pid: 7,
            title: "Disposable target".to_owned(),
            executable_path: r"C:\Windows\System32\notepad.exe".to_owned(),
            width: 800,
            height: 600,
        },
        Some(42),
    );

    assert_eq!(translated.hwnd, 42);
    assert_eq!(translated.fact.id, ObservationId(42));
    assert_eq!(translated.fact.executable_name, "notepad.exe");
    assert!(translated.fact.foreground);
}

#[test]
fn wide_text_ends_at_its_terminator() {
    let units: Vec<u16> = "Ünï \u{1F600}\0rest".encode_utf16().collect();
    assert_eq!(decode_wide(&units), "Ünï \u{1F600}");
    assert_eq!(decode_wide(&[0x41, 0xD800, 0x42]), "A\u{FFFD}B");
    assert_eq!(decode_wide(&[0xDC00]), "\u{FFFD}");
    assert_eq!(decode_wide(&[]), "");
}

#[test]
fn only_real_components_are_executable_names() {
    for (path, name) in [
        ("", ""),
        ("b.exe", "b.exe"),
        (r"C:b.exe", "b.exe"),
        (r"C:\", ""),
        (r"C:", ""),
        (r"C:..", ""),
        (r"C:.", ""),
        (r"C:.\b.exe", "b.exe"),
        (r"C:\a\..", ""),
        (r"C:/a/b.exe/./", "b.exe"),
        (r"..\b.exe", "b.exe"),
        (r"\\server\share", ""),
        (r"\\server\share\", ""),
        (r"//server/share/b.exe", "b.exe"),
        (r"\\server", "server"),
        (r"\\.\COM42", ""),
        (r"\\?\C:", ""),
        (r"\\?\C:\a\b.exe", "b.exe"),
        (r"\\?\C:\a\.", ""),
        (r"\\?\C:\a/b.exe", "a/b.exe"),
        (r"\\?\C:/b.exe", "b.exe"),
        (r"\\?\C:/a/b.exe", "a/b.exe"),
        (r"\\?\C:/", ""),
        (r"\\?\C:\/b.exe", "/b.exe"),
        (r"\\?\UNC\server\share", ""),
        (r"\\?\UNC\server\share\b.exe", "b.exe"),
        (r"\\?\volume", ""),
    ] {
        assert_eq!(executable_name(path), name, "{path}");
    }
}

#[test]
fn windows_are_filtered() {
    assert_eq!(executable_name(r"C:\a\b.exe"), "b.exe");
    assert!(is_capturable(true, false, false, "Editor"));
    assert!(!is_capturable(false, false, false, "Editor"));
    assert!(!is_capturable(true, true, false, "Editor"));
    assert!(!is_capturable(true, false, true, "Editor"));
    assert!(!is_capturable(true, false, false, ""));
    let info = |pid: u32| WindowInfo {
        hwnd: 1,
        pid,
        title: String::new(),
        executable_path: String::new(),
        width: 1,
        height: 1,
    };
    let kept = retain_foreign(vec![info(1), info(2), info(1)], 1);
    assert_eq!(kept, [info(2)]);
}

#[test]
fn selection_follows_the_policy() {
    let config = SelectorConfig {
        config_path: "profiles.toml".to_owned(),
        ignored_hwnd: 99,
        poll_interval_ms: 100,
    };
    let mut selector = ForegroundSelector::new(&config, 0);
    let editor = foreground(5, "C:/Apps/Code.exe");
    assert!(!selector.selects(&editor, 7));

    let (changed, command) = selector.reload_policy(Ok(document("Code.exe")));
    assert_eq!((changed, command), (Ok(true), None));
    assert!(selector.selects(&editor, 7));
    assert!(!selector.selects(&foreground(99, "C:/Apps/Code.exe"), 7));
    let command = selector.select_foreground(&editor, 7, Some("Visual Studio Code".to_owned()));
    let Some(SelectorCommand::Select { hwnd, .. }) = command else {
        panic!("expected a selection");
    };
    assert_eq!(hwnd, 5);
    assert_eq!(selector.select_foreground(&editor, 7, None), None);

    let broken = PolicyError::Unreadable { reason: "gone".to_owned() };
    let (result, command) = selector.reload_policy(Err(broken.clone()));
    assert_eq!((result, command), (Err(broken), None));

    let (changed, command) = selector.reload_policy(Ok(document("game.exe")));
    assert_eq!((changed, command), (Ok(true), Some(SelectorCommand::Clear)));
}

#[test]
fn swaps_follow_the_patterns() {
    let mut selector = SelectorLoop::new();
    assert!(selector.config_due());
    assert!(!selector.config_due());
    let mut presets = NameMap::new();
    presets.insert("main".to_owned(), vec!["@code Code.exe".to_owned()]);
    selector.refresh(Some(PresetConfig { preset: "main".to_owned(), presets }));

    let editor = foreground(0x1234, "C:/Code.exe");
    assert!(selector.stage(&editor).is_some());
    let tick = selector.tick(Some(editor.clone()), Some("Code".to_owned()));
    assert_eq!(tick.swap.unwrap().hwnd, 0x1234);
    let task = tick.task.unwrap();
    assert!(task.is_swap);
    assert_eq!(task.mode.as_deref(), Some("code"));
    assert_eq!(task.file_description, "Code");

    let tick = selector.tick(Some(editor), None);
    assert!(tick.swap.is_none());
    assert_eq!(format_hwnd(0x1234), "0x1234");
}

#[test]
fn swaps_are_never_dropped() {
    assert_eq!(coalesce(&[task(1, false), task(2, false)]), 1);
    let kept = coalesce(&[task(1, false), task(2, true), task(3, false)]);
    assert!(kept >= 1);
    assert_eq!(coalesce(&[task(1, true)]), 0);
}

#[test]
fn previews_follow_the_latest_selection() {
    let setup = PreviewSetup {
        output: Size::new(1920, 1200),
        publishes: true,
        fixed_source: false,
        preview_enabled: true,
    };
    let mut state = PreviewState::new(setup, None, 0);
    assert_eq!(state.ensure_capture(0), None);
    let select = |hwnd| SelectorCommand::Select { hwnd, capture_info: "Code".to_owned() };
    state.apply_latest_selection(vec![select(1), SelectorCommand::Clear, select(2)], 10);
    assert_eq!(state.ensure_capture(10), Some(2));
    assert_eq!(state.session_failed(10), Recovery::Retry);
    assert_eq!(state.ensure_capture(50), None);
    assert_eq!(state.ensure_capture(110), Some(2));
    state.session_opened();
    assert_eq!(state.ensure_capture(200), None);
    let frame = state.render_next_frame();
    assert!(frame.present);
    assert_eq!(frame.publish, Some(FrameTransform::Resample));
    assert_eq!(state.handle_window_event(PreviewEvent::Occluded(true)), PreviewRequest::Nothing);
    assert!(!state.render_next_frame().present);
    assert_eq!(state.handle_window_event(PreviewEvent::CloseRequested), PreviewRequest::Exit);
    assert_eq!(
        state.handle_window_event(PreviewEvent::Resized(Size::new(10, 10))),
        PreviewRequest::Restore(Size::new(1920, 1200))
    );
}

#[test]
fn hidden_previews_take_no_frames() {
    let setup = PreviewSetup {
        output: Size::new(1920, 1200),
        publishes: false,
        fixed_source: false,
        preview_enabled: true,
    };
    let mut state = PreviewState::new(setup, None, 0);
    assert!(!state.takes_frame());
    let select = SelectorCommand::Select { hwnd: 1, capture_info: "Code".to_owned() };
    state.apply_latest_selection(vec![select], 0);
    state.session_opened();
    assert!(state.takes_frame());
    assert_eq!(state.handle_window_event(PreviewEvent::Occluded(true)), PreviewRequest::Nothing);
    assert!(!state.takes_frame());
    assert_eq!(state.wake_delay(), 50);
}

#[test]
fn fixed_sources_end_with_their_window() {
    let setup = PreviewSetup {
        output: Size::new(1264, 80),
        publishes: true,
        fixed_source: true,
        preview_enabled: false,
    };
    let crop = CropBox { min_x: 2, min_y: 682, max_x: 1262, max_y: 750 };
    let target = initial_target(&CaptureSource::Crop { hwnd: 3, crop });
    assert_eq!(
        target,
        Some(SelectedTarget {
            hwnd: 3,
            capture_info: "managed HWND 0x3".to_owned(),
            transform: FrameTransform::Crop(crop),
        })
    );
    assert_eq!(initial_target(&CaptureSource::Profiles("profiles.toml".to_owned())), None);
    let mut state = PreviewState::new(setup, target, 0);
    assert_eq!(state.ensure_capture(0), Some(3));
    assert_eq!(state.session_failed(0), Recovery::Exit);
}

#[test]
fn publication_follows_the_mailbox() {
    let mut publisher = SharedPublisher::new(Some(2));
    assert_eq!(publisher.publish(AcquireStatus::Timeout), Ok(PublishStep::Skip));
    assert_eq!(publisher.publish(AcquireStatus::Acquired), Ok(PublishStep::Draw));
    assert_eq!(publisher.publish(AcquireStatus::Acquired), Ok(PublishStep::AbandonDeliberately));
    assert_eq!(publisher.publish(AcquireStatus::Abandoned), Err(PublishError::Abandoned));
    assert!(PublishError::Abandoned.loses_generation());
    assert_eq!(publisher.metrics.misses, 1);

    assert_eq!(next_key(true), CONSUMER_KEY);
    assert_eq!(next_key(false), PRODUCER_KEY);
    assert_eq!(seed(AcquireStatus::Acquired), Ok(CONSUMER_KEY));
    assert_eq!(seed(AcquireStatus::Abandoned), Err(PublishError::NewAbandoned));
    assert_eq!(seed(AcquireStatus::Timeout), Err(PublishError::NewUnavailable));
}

#[test]
fn draws_are_planned_by_transform() {
    assert_eq!(
        plan_draw(Size::new(10, 10), FrameTransform::Resample),
        Ok(PublishDraw::Resample)
    );
    assert_eq!(
        plan_draw(Size::new(0, 10), FrameTransform::Resample),
        Err(PublishError::EmptyFrame)
    );
    let crop = CropBox { min_x: 50, min_y: 50, max_x: 60, max_y: 60 };
    assert_eq!(plan_draw(Size::new(10, 10), FrameTransform::Crop(crop)), Ok(PublishDraw::Nothing));
    let PublishDraw::Copy(region) =
        plan_draw(Size::new(55, 100), FrameTransform::Crop(crop)).unwrap()
    else {
        panic!("expected a copy");
    };
    assert_eq!((region.left, region.right), (50, 55));
}
