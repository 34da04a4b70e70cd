//! Window discovery and supervision of the YouTube Music stream.
use vstd::prelude::*;
use crate::capture::CropBox;
use crate::geometry::Size;
use crate::observation::WindowInfo;
use crate::restart::{self, RestartBackoff};
use crate::source::{SourceArgs, SourceError};
use crate::stream::YoutubeSettings;
use crate::text;

verus! {

/// Validated immutable configuration for the fixed crop topology.
#[derive(Debug, Clone, PartialEq, Eq)]
pub struct Config {
    /// Canonical generic capture executable path.
    pub capture: String,
    /// Canonical shared-texture encoder executable path.
    pub encoder: String,
    /// Canonical relay executable path.
    pub relay: String,
    /// Relay WebSocket destination.
    pub server: String,
    /// Well-known transport identifier.
    pub stream_id: String,
    /// Window title prefix used only by supervisor discovery.
    pub title: String,
    /// Encoded output frame rate.
    pub fps: u32,
    /// Seconds between window discovery attempts while unavailable.
    pub poll_interval_seconds: u64,
}

impl Config {
    /// Adds the capture executable to validated settings.
    pub fn new(capture: String, settings: YoutubeSettings) -> (config: Config)
        ensures
            config == (Config {
                capture,
                encoder: settings.encoder,
                relay: settings.relay,
                server: settings.server,
                stream_id: settings.stream_id,
                title: settings.title,
                fps: settings.fps,
                poll_interval_seconds: settings.poll_interval_seconds,
            }),
    {
        Config {
            capture,
            encoder: settings.encoder,
            relay: settings.relay,
            server: settings.server,
            stream_id: settings.stream_id,
            title: settings.title,
            fps: settings.fps,
            poll_interval_seconds: settings.poll_interval_seconds,
        }
    }
}

/// A discovered window, and whether others match too.
#[derive(Debug, Clone, Copy, PartialEq, Eq, Structural)]
pub struct Discovery {
    /// Index of the first matching window.
    pub index: usize,
    /// Whether another window matches.
    pub ambiguous: bool,
}

/// Whether the title of a window begins with a prefix.
pub open spec fn matches_prefix(window: WindowInfo, prefix: Seq<char>) -> bool {
    text::stands_at(window.title@, prefix, 0)
}

/// Whether no title of the first `count` windows begins with a prefix.
pub open spec fn none_before(windows: Seq<WindowInfo>, prefix: Seq<char>, count: int) -> bool {
    forall|k: int| 0 <= k < count ==> !matches_prefix(#[trigger] windows[k], prefix)
}

/// Whether the title of a window behind a place begins with a prefix.
pub open spec fn some_behind(windows: Seq<WindowInfo>, prefix: Seq<char>, at: int) -> bool {
    exists|k: int| at < k < windows.len() && matches_prefix(#[trigger] windows[k], prefix)
}

/// Find the first window whose title begins with the configured prefix.
pub fn find_window(windows: &[WindowInfo], prefix: &str) -> (found: Option<Discovery>)
    ensures
        match found {
            Some(found) => {
                &&& found.index < windows@.len()
                &&& matches_prefix(windows@[found.index as int], prefix@)
                &&& none_before(windows@, prefix@, found.index as int)
                &&& found.ambiguous == some_behind(windows@, prefix@, found.index as int)
            },
            None => none_before(windows@, prefix@, windows@.len() as int),
        },
{
    let mut i: usize = 0;
    while i < windows.len()
        invariant
            i <= windows@.len(),
            forall|k: int| 0 <= k < i ==> !matches_prefix(#[trigger] windows@[k], prefix@),
        decreases windows@.len() - i,
    {
        if text::begins_with(windows[i].title.as_str(), prefix) {
            let mut other: usize = i + 1;
            while other < windows.len()
                invariant
                    i < other <= windows@.len(),
                    i < windows@.len(),
                    matches_prefix(windows@[i as int], prefix@),
                    forall|k: int| 0 <= k < i ==> !matches_prefix(#[trigger] windows@[k], prefix@),
                    forall|k: int|
                        i < k < other ==> !matches_prefix(#[trigger] windows@[k], prefix@),
                decreases windows@.len() - other,
            {
                if text::begins_with(windows[other].title.as_str(), prefix) {
                    assert(matches_prefix(windows@[other as int], prefix@));
                    return Some(Discovery { index: i, ambiguous: true });
                }
                other = other + 1;
            }
            return Some(Discovery { index: i, ambiguous: false });
        }
        i = i + 1;
    }
    None
}

/// Round native crop dimensions up to the encoder's 16-pixel alignment.
pub fn encoder_output_size(crop: CropBox) -> (size: Size)
    requires
        crop.paddable(),
    ensures
        size.width == crop.padded_size().0,
        size.height == crop.padded_size().1,
        size.width % 16 == 0,
        size.height % 16 == 0,
{
    crop.output_size()
}

/// The arguments a supervised capture worker is launched with.
pub open spec fn supervised_source(hwnd: i64, crop: CropBox) -> SourceArgs {
    SourceArgs {
        config: None,
        hwnd: Some(hwnd),
        crop_min_x: Some(crop.min_x),
        crop_min_y: Some(crop.min_y),
        crop_max_x: Some(crop.max_x),
        crop_max_y: Some(crop.max_y),
        width: crop.padded_size().0 as u32,
        height: crop.padded_size().1 as u32,
        no_preview: true,
        shared_output: true,
    }
}

/// The capture worker accepts every crop with an area that the supervisor hands it together
/// with the padded size.
pub proof fn law_supervised_crops_are_accepted(hwnd: i64, crop: CropBox)
    requires
        crop.paddable(),
        crop.min_x < crop.max_x,
        crop.min_y < crop.max_y,
        crop.padded_size().0 <= u32::MAX,
        crop.padded_size().1 <= u32::MAX,
    ensures
        supervised_source(hwnd, crop).in_range(),
        supervised_source(hwnd, crop).fault() == None::<SourceError>,
        supervised_source(hwnd, crop).crop() == crop,
{
}

/// How an attempt to start the pipeline ended.
#[derive(Debug, Clone, Copy, PartialEq, Eq, Structural)]
pub enum StartOutcome {
    /// No window matches.
    NoWindow,
    /// The crop of the window could not be computed.
    NoCrop,
    /// All workers run.
    Started,
    /// A worker could not be launched.
    LaunchFailed,
}

/// What one round of supervision does.
#[derive(Debug, Clone, Copy, PartialEq, Eq, Structural)]
pub enum MonitorStep {
    /// The bounded run is complete.
    Finish,
    /// A window is discovered and its workers are started.
    Start,
    /// The workers are polled for an exit.
    Watch,
}

/// Supervision of the current discovered window and its workers.
pub struct Supervisor {
    pipeline: bool,
    backoff: RestartBackoff,
    poll_interval_ms: u64,
}

/// What the supervisor knows.
pub struct YoutubeModel {
    pub pipeline: bool,
    pub failures: u32,
    pub poll_interval_ms: u64,
}

impl View for Supervisor {
    type V = YoutubeModel;

    closed spec fn view(&self) -> YoutubeModel {
        YoutubeModel {
            pipeline: self.pipeline,
            failures: self.backoff@,
            poll_interval_ms: self.poll_interval_ms,
        }
    }
}

/// Why no further attempt is made.
pub open spec fn exhausted_text(failures: u32) -> Seq<char> {
    restart::exhaustion_text("YouTube Music capture/encoder/live-ws"@, failures)
}

impl Supervisor {
    /// Starts without a pipeline.
    pub fn new(poll_interval_ms: u64) -> (supervisor: Supervisor)
        ensures
            supervisor@ == (YoutubeModel { pipeline: false, failures: 0, poll_interval_ms }),
    {
        Supervisor { pipeline: false, backoff: RestartBackoff::default(), poll_interval_ms }
    }

    /// Decides on one round of supervision: a bounded run ends at its deadline, a missing pipeline
    /// is started, a running one is watched.
    pub fn monitor(&self, deadline_passed: bool) -> (step: MonitorStep)
        ensures
            step == if deadline_passed {
                MonitorStep::Finish
            } else if self@.pipeline {
                MonitorStep::Watch
            } else {
                MonitorStep::Start
            },
    {
        if deadline_passed {
            MonitorStep::Finish
        } else if self.pipeline {
            MonitorStep::Watch
        } else {
            MonitorStep::Start
        }
    }

    /// Notes how an attempt to start ended, and tells how many milliseconds to wait.
    ///
    /// Waiting for a window costs no restart; a failed launch does.
    pub fn try_start_pipeline(&mut self, outcome: StartOutcome) -> (result: Result<u64, String>)
        ensures
            match outcome {
                StartOutcome::NoWindow => result == Ok::<u64, String>(old(self)@.poll_interval_ms)
                    && final(self)@ == old(self)@,
                StartOutcome::NoCrop => result == Ok::<u64, String>(old(self)@.poll_interval_ms)
                    && final(self)@ == old(self)@,
                StartOutcome::Started => result == Ok::<u64, String>(0) && final(self)@ == (
                YoutubeModel { pipeline: true, ..old(self)@ }),
                StartOutcome::LaunchFailed => match result {
                    Ok(delay) => old(self)@.failures < restart::MAX_CONSECUTIVE_RESTARTS && delay
                        == restart::delay_after(old(self)@.failures as nat) && final(self)@ == (
                    YoutubeModel { failures: (old(self)@.failures + 1) as u32, ..old(self)@ }),
                    Err(message) => old(self)@.failures >= restart::MAX_CONSECUTIVE_RESTARTS
                        && message@ == exhausted_text(old(self)@.failures) && final(self)@
                        == old(self)@,
                },
            },
    {
        match outcome {
            StartOutcome::NoWindow => Ok(self.poll_interval_ms),
            StartOutcome::NoCrop => Ok(self.poll_interval_ms),
            StartOutcome::Started => {
                self.pipeline = true;
                Ok(0)
            },
            StartOutcome::LaunchFailed => restart::next_delay(
                &mut self.backoff,
                0,
                "YouTube Music capture/encoder/live-ws",
            ),
        }
    }

    /// Drops the pipeline after one of its workers exited, and tells how many milliseconds to
    /// wait before the next attempt.
    pub fn worker_exited(&mut self, stable_for: u64) -> (result: Result<u64, String>)
        ensures
            ({
                let counted = restart::charged(old(self)@.failures, stable_for);
                match result {
                    Ok(delay) => counted < restart::MAX_CONSECUTIVE_RESTARTS && delay
                        == restart::delay_after(counted as nat) && final(self)@ == (YoutubeModel {
                        pipeline: false,
                        failures: (counted + 1) as u32,
                        ..old(self)@
                    }),
                    Err(message) => counted >= restart::MAX_CONSECUTIVE_RESTARTS && message@
                        == exhausted_text(counted) && final(self)@ == (YoutubeModel {
                        pipeline: false,
                        failures: counted,
                        ..old(self)@
                    }),
                }
            }),
    {
        self.pipeline = false;
        restart::next_delay(
            &mut self.backoff,
            stable_for,
            "YouTube Music capture/encoder/live-ws",
        )
    }
}

/// The window found is the first whose title begins with the prefix, and it is ambiguous exactly if
/// a later one's does too.
pub proof fn law_first_titled_window_is_found(
    windows: &[WindowInfo],
    prefix: &str,
    found: Option<Discovery>,
    other: int,
)
    requires
        call_ensures(find_window, (windows, prefix), found),
        0 <= other < windows@.len(),
    ensures
        found is None ==> !prefix@.is_prefix_of(windows@[other].title@),
        found matches Some(discovery) ==> {
            &&& discovery.index < windows@.len()
            &&& prefix@.is_prefix_of(windows@[discovery.index as int].title@)
            &&& other < discovery.index ==> !prefix@.is_prefix_of(windows@[other].title@)
            &&& other > discovery.index && !discovery.ambiguous ==> !prefix@.is_prefix_of(
                windows@[other].title@,
            )
            &&& discovery.ambiguous ==> exists|k: int|
                discovery.index < k < windows@.len() && prefix@.is_prefix_of(
                    (#[trigger] windows@[k]).title@,
                )
        },
{
    assert forall|k: int| 0 <= k < windows@.len() implies matches_prefix(
        #[trigger] windows@[k],
        prefix@,
    ) == prefix@.is_prefix_of(windows@[k].title@) by {
        let title = windows@[k].title@;
        if prefix@.len() <= title.len() {
            assert(title.subrange(0, prefix@.len() as int) =~= title.take(prefix@.len() as int));
        }
    }
}

/// The output of a crop is each of its dimensions, padded to the next multiple of sixteen.
pub proof fn law_outputs_hold_their_crop(crop: CropBox, size: Size)
    requires
        crop.min_x <= crop.max_x && crop.min_y <= crop.max_y,
        crop.max_x - crop.min_x + 15 <= u32::MAX && crop.max_y - crop.min_y + 15 <= u32::MAX,
        call_ensures(encoder_output_size, (crop,), size),
    ensures
        size.width % 16 == 0 && size.height % 16 == 0,
        crop.max_x - crop.min_x <= size.width < crop.max_x - crop.min_x + 16,
        crop.max_y - crop.min_y <= size.height < crop.max_y - crop.min_y + 16,
{
}

/// A bounded run ends at its deadline; before it a pipeline that runs is watched, and one that does
/// not is started.
pub proof fn law_pipelines_are_started_and_watched(
    supervisor: Supervisor,
    deadline_passed: bool,
    step: MonitorStep,
)
    requires
        call_ensures(Supervisor::monitor, (&supervisor, deadline_passed), step),
    ensures
        step == MonitorStep::Finish <==> deadline_passed,
        step == MonitorStep::Watch <==> !deadline_passed && supervisor@.pipeline,
        step == MonitorStep::Start <==> !deadline_passed && !supervisor@.pipeline,
{
}

/// Waiting for a window or its crop costs no restart; a failed launch costs one and waits longer
/// each time; a started pipeline runs.
pub proof fn law_only_failed_launches_are_charged(
    supervisor: &mut Supervisor,
    outcome: StartOutcome,
    result: Result<u64, String>,
)
    requires
        call_ensures(Supervisor::try_start_pipeline, (supervisor, outcome), result),
    ensures
        ({
            let before = old(supervisor)@;
            let after = final(supervisor)@;
            &&& outcome == StartOutcome::NoWindow || outcome == StartOutcome::NoCrop ==> result
                == Ok::<u64, String>(before.poll_interval_ms) && after == before
            &&& outcome == StartOutcome::Started ==> result == Ok::<u64, String>(0)
                && after.pipeline && after.failures == before.failures
            &&& outcome == StartOutcome::LaunchFailed ==> {
                &&& result is Ok <==> before.failures < 6
                &&& result is Ok ==> after.failures == before.failures + 1
                &&& after.pipeline == before.pipeline
                &&& result matches Ok(delay) ==> delay == match before.failures {
                    0 => 250int,
                    1 => 500int,
                    2 => 1_000int,
                    3 => 2_000int,
                    _ => 4_000int,
                }
            }
        }),
{
    reveal_with_fuel(restart::delay_after, 7);
}

/// After a worker exited the pipeline is no longer taken to run; half a minute of uptime forgets
/// earlier failures.
pub proof fn law_exited_pipelines_are_dropped(
    supervisor: &mut Supervisor,
    stable_for: u64,
    result: Result<u64, String>,
)
    requires
        call_ensures(Supervisor::worker_exited, (supervisor, stable_for), result),
    ensures
        !final(supervisor)@.pipeline,
        result is Ok <==> old(supervisor)@.failures < 6 || stable_for >= 30_000,
        stable_for >= 30_000 ==> final(supervisor)@.failures == 1 && result == Ok::<u64, String>(250),
        stable_for < 30_000 && result is Ok ==> final(supervisor)@.failures == old(
            supervisor,
        )@.failures + 1,
        final(supervisor)@.poll_interval_ms == old(supervisor)@.poll_interval_ms,
{
    reveal_with_fuel(restart::delay_after, 7);
}

/// A supervisor starts without a pipeline and without failures.
pub proof fn law_supervisors_start_without_a_pipeline(poll_interval_ms: u64, supervisor: Supervisor)
    requires
        call_ensures(Supervisor::new, (poll_interval_ms,), supervisor),
    ensures
        !supervisor@.pipeline && supervisor@.failures == 0 && supervisor@.poll_interval_ms
            == poll_interval_ms,
{
}

} // verus!
