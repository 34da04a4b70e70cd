//! Decisions of the preview event loop, and the preview's view of selector patterns.
use vstd::prelude::*;
use crate::capture::CropBox;
use crate::foreground::SelectorCommand;
use crate::geometry::Size;
use crate::source::CaptureSource;
use crate::{patterns, swap, text};

verus! {

/// Capture retry delay in milliseconds after a window closes or capture reports an error.
pub const CAPTURE_RETRY_INTERVAL_MS: u64 = 100;

/// Event-loop wake cadence in milliseconds while waiting for the next captured frame.
pub const ACTIVE_WAKE_INTERVAL_MS: u64 = 1;

/// Reduced wake cadence in milliseconds while no target is available or the preview is hidden.
pub const IDLE_WAKE_INTERVAL_MS: u64 = 50;

/// Determine whether a window should be previewed by the active patterns.
///
/// Exclusion matches veto the window regardless of pattern order. Otherwise, any include match
/// accepts the window. Modes other than `exclude` do not matter to a preview.
pub fn should_capture(patterns: &[String], executable_path: &str, title: &str) -> (matched: bool)
    ensures
        matched == (!patterns::any_excludes(text::texts(patterns@), executable_path@, title@)
            && patterns::any_includes(text::texts(patterns@), executable_path@, title@)),
{
    patterns::should_capture(patterns, executable_path, title).is_some()
}

/// Operation that maps one captured frame into the fixed output.
#[derive(Debug, Clone, Copy, PartialEq, Eq, Structural)]
pub enum FrameTransform {
    /// Aspect-preserving scale with clear-color letterboxing.
    Resample,
    /// Native-pixel subrectangle with right/bottom encoder padding.
    Crop(CropBox),
}

/// Last selector target, retained so that a failed session can be recreated without waiting for
/// the foreground window to change.
#[derive(Debug, PartialEq, Eq)]
pub struct SelectedTarget {
    /// Window handle chosen by the foreground matcher.
    pub hwnd: i64,
    /// Human-readable executable description used in lifecycle logs.
    pub capture_info: String,
    /// Fixed-output operation applied before presentation.
    pub transform: FrameTransform,
}

/// What a selected target says.
pub struct SelectedTargetModel {
    pub hwnd: i64,
    pub capture_info: Seq<char>,
    pub transform: FrameTransform,
}

impl View for SelectedTarget {
    type V = SelectedTargetModel;

    open spec fn view(&self) -> SelectedTargetModel {
        SelectedTargetModel {
            hwnd: self.hwnd,
            capture_info: self.capture_info@,
            transform: self.transform,
        }
    }
}

/// Chooses the target that a preview starts with: a resolved crop is fixed, profiles are waited
/// for.
pub fn initial_target(source: &CaptureSource) -> (target: Option<SelectedTarget>)
    ensures
        match (source, target) {
            (CaptureSource::Profiles(_), target) => target is None,
            (CaptureSource::Crop { hwnd, crop }, Some(target)) => target@ == (SelectedTargetModel {
                hwnd: *hwnd,
                capture_info: "managed HWND "@ + swap::hwnd_text(*hwnd),
                transform: FrameTransform::Crop(*crop),
            }),
            (CaptureSource::Crop { .. }, None) => false,
        },
{
    match source {
        CaptureSource::Profiles(_) => None,
        CaptureSource::Crop { hwnd, crop } => {
            let mut capture_info = "managed HWND ".to_owned();
            let handle = swap::format_hwnd(*hwnd);
            text::push_text(&mut capture_info, handle.as_str());
            Some(
                SelectedTarget { hwnd: *hwnd, capture_info, transform: FrameTransform::Crop(*crop) },
            )
        },
    }
}

/// Window event that concerns the preview.
#[derive(Debug, Clone, Copy, PartialEq, Eq, Structural)]
pub enum PreviewEvent {
    CloseRequested,
    Occluded(bool),
    Resized(Size),
    Other,
}

/// What a window event asks for.
#[derive(Debug, Clone, Copy, PartialEq, Eq, Structural)]
pub enum PreviewRequest {
    Nothing,
    /// Leave the event loop.
    Exit,
    /// Restore the fixed client size.
    Restore(Size),
}

/// What follows a failed session.
#[derive(Debug, Clone, Copy, PartialEq, Eq, Structural)]
pub enum Recovery {
    /// Hand the failure to the supervisor.
    Exit,
    /// Try again later.
    Retry,
}

/// What is done with one captured frame.
#[derive(Debug, Clone, Copy, PartialEq, Eq, Structural)]
pub struct FrameUse {
    /// Present it in the preview.
    pub present: bool,
    /// Publish it under this transform.
    pub publish: Option<FrameTransform>,
}

/// Fixed properties of one preview.
#[derive(Debug, Clone, Copy, PartialEq, Eq, Structural)]
pub struct PreviewSetup {
    /// Fixed client size.
    pub output: Size,
    /// Whether frames are also published to a shared output.
    pub publishes: bool,
    /// Whether a failed session should return control to window discovery.
    pub fixed_source: bool,
    /// Whether frames are presented locally.
    pub preview_enabled: bool,
}

/// Mutable preview lifecycle state.
pub struct PreviewState {
    setup: PreviewSetup,
    selected: Option<SelectedTarget>,
    capturing: bool,
    retry_at: u64,
    occluded: bool,
}

/// What the preview knows.
pub struct PreviewModel {
    pub setup: PreviewSetup,
    pub selected: Option<SelectedTargetModel>,
    pub capturing: bool,
    pub retry_at: u64,
    pub occluded: bool,
}

impl View for PreviewState {
    type V = PreviewModel;

    closed spec fn view(&self) -> PreviewModel {
        PreviewModel {
            setup: self.setup,
            selected: match self.selected {
                Some(target) => Some(target@),
                None => None,
            },
            capturing: self.capturing,
            retry_at: self.retry_at,
            occluded: self.occluded,
        }
    }
}

impl PreviewModel {
    /// A session belongs to a selected target.
    pub open spec fn well_formed(self) -> bool {
        self.capturing ==> self.selected is Some
    }

    /// Whether a frame would be seen by anyone.
    pub open spec fn has_active_output(self) -> bool {
        !self.occluded || self.setup.publishes
    }

    /// Whether the newest frame of a session is taken: a hidden preview that publishes nothing
    /// leaves it.
    pub open spec fn takes_frame(self) -> bool {
        self.has_active_output() && self.capturing
    }
}

impl PreviewState {
    /// Starts with an optional fixed target.
    pub fn new(setup: PreviewSetup, selected: Option<SelectedTarget>, now_ms: u64) -> (state:
        PreviewState)
        ensures
            state@.well_formed(),
            state@ == (PreviewModel {
                setup,
                selected: match selected {
                    Some(target) => Some(target@),
                    None => None,
                },
                capturing: false,
                retry_at: now_ms,
                occluded: false,
            }),
    {
        PreviewState { setup, selected, capturing: false, retry_at: now_ms, occluded: false }
    }

    /// Handle close, occlusion, and attempts to change the fixed client size.
    pub fn handle_window_event(&mut self, event: PreviewEvent) -> (request: PreviewRequest)
        ensures
            final(self)@ == match event {
                PreviewEvent::Occluded(occluded) => PreviewModel { occluded, ..old(self)@ },
                _ => old(self)@,
            },
            request == match event {
                PreviewEvent::CloseRequested => PreviewRequest::Exit,
                PreviewEvent::Resized(size) => if size.width > 0 && size.height > 0 && size
                    != old(self)@.setup.output {
                    PreviewRequest::Restore(old(self)@.setup.output)
                } else {
                    PreviewRequest::Nothing
                },
                _ => PreviewRequest::Nothing,
            },
    {
        match event {
            PreviewEvent::CloseRequested => PreviewRequest::Exit,
            PreviewEvent::Occluded(occluded) => {
                self.occluded = occluded;
                PreviewRequest::Nothing
            },
            PreviewEvent::Resized(size) => {
                let expected = self.setup.output;
                if size.width > 0 && size.height > 0 && size != expected {
                    PreviewRequest::Restore(expected)
                } else {
                    PreviewRequest::Nothing
                }
            },
            PreviewEvent::Other => PreviewRequest::Nothing,
        }
    }

    /// Apply only the newest queued selection because intermediate targets can no longer be
    /// foreground by the time the event loop observes them.
    ///
    /// Tells whether the output has to be cleared, so that nothing of the old target is shown.
    pub fn apply_latest_selection(&mut self, commands: Vec<SelectorCommand>, now_ms: u64) -> (clear:
        bool)
        ensures
            old(self)@.well_formed() ==> final(self)@.well_formed(),
            clear == (commands@.len() > 0),
            final(self)@ == if clear {
                PreviewModel {
                    selected: match commands@.last() {
                        SelectorCommand::Select { hwnd, capture_info } => Some(
                            SelectedTargetModel {
                                hwnd,
                                capture_info: capture_info@,
                                transform: FrameTransform::Resample,
                            },
                        ),
                        SelectorCommand::Clear => None,
                    },
                    capturing: false,
                    retry_at: now_ms,
                    ..old(self)@
                }
            } else {
                old(self)@
            },
    {
        let mut commands = commands;
        let latest = match commands.pop() {
            Some(command) => command,
            None => {
                return false;
            },
        };
        self.selected = match latest {
            SelectorCommand::Select { hwnd, capture_info } => Some(
                SelectedTarget { hwnd, capture_info, transform: FrameTransform::Resample },
            ),
            SelectorCommand::Clear => None,
        };
        self.capturing = false;
        self.retry_at = now_ms;
        true
    }

    /// Tells which window a missing session is to be opened for, after the retry backoff.
    pub fn ensure_capture(&self, now_ms: u64) -> (open: Option<i64>)
        ensures
            open == if !self@.has_active_output() || self@.capturing || now_ms < self@.retry_at {
                None::<i64>
            } else {
                match self@.selected {
                    Some(target) => Some(target.hwnd),
                    None => None,
                }
            },
    {
        if self.occluded && !self.setup.publishes {
            return None;
        }
        if self.capturing || now_ms < self.retry_at {
            return None;
        }
        match &self.selected {
            Some(target) => Some(target.hwnd),
            None => None,
        }
    }

    /// Notes that the session of the selected target is open.
    pub fn session_opened(&mut self)
        requires
            old(self)@.selected is Some,
        ensures
            final(self)@.well_formed(),
            final(self)@ == (PreviewModel { capturing: true, ..old(self)@ }),
    {
        self.capturing = true;
    }

    /// Notes that a session could not be opened or broke down. A fixed source is given up; any
    /// other is tried again after a delay.
    pub fn session_failed(&mut self, now_ms: u64) -> (recovery: Recovery)
        requires
            now_ms + CAPTURE_RETRY_INTERVAL_MS <= u64::MAX,
        ensures
            recovery == if old(self)@.setup.fixed_source {
                Recovery::Exit
            } else {
                Recovery::Retry
            },
            final(self)@ == if old(self)@.setup.fixed_source {
                old(self)@
            } else {
                PreviewModel {
                    capturing: false,
                    retry_at: (now_ms + CAPTURE_RETRY_INTERVAL_MS) as u64,
                    ..old(self)@
                }
            },
    {
        if self.setup.fixed_source {
            return Recovery::Exit;
        }
        self.capturing = false;
        self.retry_at = now_ms + CAPTURE_RETRY_INTERVAL_MS;
        Recovery::Retry
    }

    /// Tells whether the newest frame is taken from the session.
    pub fn takes_frame(&self) -> (taken: bool)
        ensures
            taken == self@.takes_frame(),
    {
        (!self.occluded || self.setup.publishes) && self.capturing
    }

    /// Decides what is done with the newest frame.
    pub fn render_next_frame(&self) -> (action: FrameUse)
        requires
            self@.well_formed(),
            self@.capturing,
        ensures
            action.present == (self@.setup.preview_enabled && !self@.occluded),
            action.publish == if self@.setup.publishes {
                Some(self@.selected->Some_0.transform)
            } else {
                None::<FrameTransform>
            },
    {
        let publish = if self.setup.publishes {
            match &self.selected {
                Some(target) => Some(target.transform),
                None => None,
            }
        } else {
            None
        };
        FrameUse { present: self.setup.preview_enabled && !self.occluded, publish }
    }

    /// Chooses a bounded wake interval so that an idle preview does not busy-spin.
    pub fn wake_delay(&self) -> (delay_ms: u64)
        ensures
            delay_ms == if self@.takes_frame() {
                ACTIVE_WAKE_INTERVAL_MS
            } else {
                IDLE_WAKE_INTERVAL_MS
            },
    {
        if self.takes_frame() {
            ACTIVE_WAKE_INTERVAL_MS
        } else {
            IDLE_WAKE_INTERVAL_MS
        }
    }
}

/// A preview shows exactly the windows that the patterns capture, whatever their mode.
pub proof fn law_previews_show_what_patterns_capture(
    patterns: &[String],
    path: &str,
    title: &str,
    matched: bool,
    found: Option<patterns::CaptureMatch>,
)
    requires
        call_ensures(should_capture, (patterns, path, title), matched),
        call_ensures(patterns::should_capture, (patterns, path, title), found),
    ensures
        matched <==> found is Some,
{
}

/// A preview starts with the crop it is given, and without a target where profiles choose one.
pub proof fn law_crops_are_fixed_targets(source: CaptureSource, target: Option<SelectedTarget>)
    requires
        call_ensures(initial_target, (&source,), target),
    ensures
        source is Profiles <==> target is None,
        source matches CaptureSource::Crop { hwnd, crop } ==> target->Some_0.hwnd == hwnd
            && target->Some_0.transform == FrameTransform::Crop(crop),
{
}

/// Of several queued commands the last one decides; any command ends the session, asks for a clear
/// output and lets the next session open at once.
pub proof fn law_newest_selection_decides(
    state: &mut PreviewState,
    commands: Vec<SelectorCommand>,
    now_ms: u64,
    clear: bool,
)
    requires
        call_ensures(PreviewState::apply_latest_selection, (state, commands, now_ms), clear),
    ensures
        clear <==> commands@.len() > 0,
        !clear ==> final(state)@ == old(state)@,
        clear ==> !final(state)@.capturing && final(state)@.retry_at == now_ms,
        clear && commands@.last() == SelectorCommand::Clear ==> final(state)@.selected is None,
        clear ==> (commands@.last() matches SelectorCommand::Select { hwnd, capture_info }
            ==> final(state)@.selected is Some && final(state)@.selected->Some_0.hwnd == hwnd
            && final(state)@.selected->Some_0.capture_info == capture_info@),
        final(state)@.occluded == old(state)@.occluded && final(state)@.setup == old(state)@.setup,
{
}

/// A session is opened for the selected window exactly if there is one without a session, the delay
/// is over and someone sees its frames; a session that failed is tried again a tenth of a second
/// later, unless its source is fixed.
pub proof fn law_sessions_are_opened_and_retried(
    state: &mut PreviewState,
    now_ms: u64,
    later_ms: u64,
    recovery: Recovery,
    open: Option<i64>,
)
    requires
        now_ms + 100 <= u64::MAX,
        call_ensures(PreviewState::session_failed, (state, now_ms), recovery),
        call_ensures(PreviewState::ensure_capture, (final(state), later_ms), open),
    ensures
        recovery == Recovery::Exit <==> old(state)@.setup.fixed_source,
        recovery == Recovery::Exit ==> final(state)@ == old(state)@,
        recovery == Recovery::Retry ==> {
            &&& !final(state)@.capturing
            &&& final(state)@.selected == old(state)@.selected
            &&& open is Some <==> old(state)@.selected is Some && later_ms >= now_ms + 100 && (
            !old(state)@.occluded || old(state)@.setup.publishes)
            &&& open matches Some(hwnd) ==> hwnd == old(state)@.selected->Some_0.hwnd
        },
{
}

/// While a session runs none is opened.
pub proof fn law_running_sessions_are_left_alone(
    state: &mut PreviewState,
    now_ms: u64,
    open: Option<i64>,
    taken: bool,
    delay_ms: u64,
)
    requires
        old(state)@.selected is Some,
        call_ensures(PreviewState::session_opened, (state,), ()),
        call_ensures(PreviewState::ensure_capture, (final(state), now_ms), open),
        call_ensures(PreviewState::takes_frame, (final(state),), taken),
        call_ensures(PreviewState::wake_delay, (final(state),), delay_ms),
    ensures
        final(state)@.capturing,
        open is None,
        taken <==> !old(state)@.occluded || old(state)@.setup.publishes,
        taken ==> delay_ms == 1,
        !taken ==> delay_ms == 50,
{
}

/// A frame is presented in an enabled preview that is not hidden, and published, hidden or not,
/// where there is a shared output, as its target says.
pub proof fn law_frames_are_used(state: PreviewState, action: FrameUse)
    requires
        state@.capturing && state@.selected is Some,
        call_ensures(PreviewState::render_next_frame, (&state,), action),
    ensures
        action.present <==> state@.setup.preview_enabled && !state@.occluded,
        action.publish is Some <==> state@.setup.publishes,
        action.publish matches Some(transform) ==> transform == state@.selected->Some_0.transform,
{
}

/// Closing ends the preview, and a client area of another size is restored unless it is empty.
pub proof fn law_window_events_are_handled(
    state: &mut PreviewState,
    event: PreviewEvent,
    request: PreviewRequest,
)
    requires
        call_ensures(PreviewState::handle_window_event, (state, event), request),
    ensures
        request == PreviewRequest::Exit <==> event == PreviewEvent::CloseRequested,
        event matches PreviewEvent::Resized(size) ==> (request is Restore <==> size.width > 0
            && size.height > 0 && (size.width != old(state)@.setup.output.width || size.height
            != old(state)@.setup.output.height)),
        request matches PreviewRequest::Restore(size) ==> size == old(state)@.setup.output,
        event matches PreviewEvent::Occluded(hidden) ==> final(state)@.occluded == hidden,
        final(state)@.selected == old(state)@.selected,
        final(state)@.capturing == old(state)@.capturing,
{
}

} // verus!
