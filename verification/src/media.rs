//! Decisions of the native media owner: pacing, selection, capture, and published status.
use vstd::prelude::*;
use crate::config::{ConfigSnapshot, InstanceModel};
use crate::frame::{self, FixedFrame, FrameDraw, FrameError, Nv12Pool, PoolModel, SourceRegion};
use crate::geometry::Size;
use crate::selector::{self, ObservationId, ObservedWindow, PolicyModel, SelectionDecision};
use crate::status::{self, CaptureState, MediaStatus, TargetModel, TargetSummary};
use crate::video::{EventModel, VideoEvent};

verus! {

/// Milliseconds between two window observations without a reason to hurry.
pub const OBSERVATION_INTERVAL_MS: u64 = 500;

/// Nanoseconds between two refreshes of the published rates.
pub const RATE_INTERVAL_NS: u64 = 1_000_000_000;

/// Failures that end the media owner.
#[derive(Debug, Clone, Copy, PartialEq, Eq, Structural)]
pub enum MediaError {
    /// A clock cannot tick zero times per second.
    ZeroFrameRate,
    /// The media time does not fit its field any more.
    TimestampExhausted,
    /// The captured-frame counter is full.
    CapturedExhausted,
    /// The encoded-frame counter is full.
    EncodedExhausted,
    /// The encoder asked for more inputs than can be counted.
    InputRequestsExhausted,
    /// A selected identity is not in the snapshot it was selected from.
    UnknownObservation,
    /// The graphics device was lost while switching targets.
    DeviceLostOnSwitch,
    /// The graphics device was lost while capturing.
    DeviceLostOnCapture,
    /// The configuration channel closed.
    ConfigurationClosed,
    /// The command channel closed.
    CommandsClosed,
    /// The fixed frame or its surfaces failed.
    Frame(FrameError),
}

impl MediaError {
    /// The diagnostic text of this failure.
    pub open spec fn text(self) -> Seq<char> {
        match self {
            MediaError::ZeroFrameRate => "frame rate must be non-zero"@,
            MediaError::TimestampExhausted => "media timestamp exhausted i64"@,
            MediaError::CapturedExhausted => "captured-frame counter exhausted"@,
            MediaError::EncodedExhausted => "encoded-frame counter exhausted"@,
            MediaError::InputRequestsExhausted => "encoder input-request count overflowed"@,
            MediaError::UnknownObservation =>
                "selector returned an identity absent from its native snapshot"@,
            MediaError::DeviceLostOnSwitch => "D3D device lost during target switch"@,
            MediaError::DeviceLostOnCapture => "D3D device lost during capture"@,
            MediaError::ConfigurationClosed =>
                "configuration channel closed while media owner was active"@,
            MediaError::CommandsClosed => "media command channel closed while media owner was active"@,
            MediaError::Frame(error) => error.text(),
        }
    }

    /// Describes this failure.
    pub fn message(&self) -> (message: String)
        ensures
            message@ == self.text(),
    {
        match self {
            MediaError::ZeroFrameRate => "frame rate must be non-zero".to_owned(),
            MediaError::TimestampExhausted => "media timestamp exhausted i64".to_owned(),
            MediaError::CapturedExhausted => "captured-frame counter exhausted".to_owned(),
            MediaError::EncodedExhausted => "encoded-frame counter exhausted".to_owned(),
            MediaError::InputRequestsExhausted =>
                "encoder input-request count overflowed".to_owned(),
            MediaError::UnknownObservation =>
                "selector returned an identity absent from its native snapshot".to_owned(),
            MediaError::DeviceLostOnSwitch => "D3D device lost during target switch".to_owned(),
            MediaError::DeviceLostOnCapture => "D3D device lost during capture".to_owned(),
            MediaError::ConfigurationClosed =>
                "configuration channel closed while media owner was active".to_owned(),
            MediaError::CommandsClosed =>
                "media command channel closed while media owner was active".to_owned(),
            MediaError::Frame(error) => error.message(),
        }
    }
}

/// The device was physically removed or its driver replaced.
pub const ERROR_DEVICE_REMOVED: u32 = 0x887A_0005;

/// The device stopped responding to malformed commands.
pub const ERROR_DEVICE_HUNG: u32 = 0x887A_0006;

/// The device was reset after a malformed command.
pub const ERROR_DEVICE_RESET: u32 = 0x887A_0007;

/// Whether an error code says that the device is gone for good.
pub open spec fn names_device_loss(code: u32) -> bool {
    code == ERROR_DEVICE_REMOVED || code == ERROR_DEVICE_RESET || code == ERROR_DEVICE_HUNG
}

/// Whether one of some error codes says that the device is gone for good.
pub open spec fn holds_device_loss(codes: Seq<u32>) -> bool {
    exists|i: int| 0 <= i < codes.len() && names_device_loss(#[trigger] codes[i])
}

/// Whether a chain of error codes holds a terminal device loss.
pub fn is_device_lost(codes: &[u32]) -> (lost: bool)
    ensures
        lost == holds_device_loss(codes@),
{
    let mut i: usize = 0;
    while i < codes.len()
        invariant
            i <= codes@.len(),
            forall|k: int| 0 <= k < i ==> !names_device_loss(#[trigger] codes@[k]),
        decreases codes@.len() - i,
    {
        let code: u32 = codes[i];
        if code == ERROR_DEVICE_REMOVED || code == ERROR_DEVICE_RESET || code
            == ERROR_DEVICE_HUNG {
            assert(names_device_loss(codes@[i as int]));
            return true;
        }
        i = i + 1;
    }
    false
}

/// Media-clock pacing that skips accumulated deadlines after a stall.
///
/// All times are nanoseconds on one monotonic clock.
#[derive(Debug, Clone, Copy, PartialEq, Eq, Structural)]
pub struct FrameClock {
    /// When the next frame is due.
    pub next_deadline: u64,
    /// Time between two frames.
    pub interval: u64,
    /// Duration of one media sample in units of 100 ns.
    pub duration_100ns: i64,
}

impl FrameClock {
    /// The duration of one sample at a frame rate, in units of 100 ns.
    pub open spec fn sample_duration(frame_rate: u32) -> int {
        let duration = 10_000_000int / (frame_rate as int);
        if duration < 1 {
            1
        } else {
            duration
        }
    }

    /// Construct a fixed cadence from a validated non-zero frame rate.
    pub fn new(frame_rate: u32, interval: u64, started: u64) -> (result: Result<
        FrameClock,
        MediaError,
    >)
        ensures
            match result {
                Ok(clock) => frame_rate > 0 && clock.next_deadline == started && clock.interval
                    == interval && clock.duration_100ns == FrameClock::sample_duration(frame_rate),
                Err(error) => frame_rate == 0 && error == MediaError::ZeroFrameRate,
            },
    {
        if frame_rate == 0 {
            return Err(MediaError::ZeroFrameRate);
        }
        let duration: u64 = 10_000_000u64 / (frame_rate as u64);
        let duration_100ns: i64 = if duration < 1 {
            1
        } else {
            duration as i64
        };
        Ok(FrameClock { next_deadline: started, interval, duration_100ns })
    }

    /// How long to sleep before the next useful deadline.
    pub fn remaining(&self, now: u64) -> (remaining: u64)
        ensures
            remaining == if now < self.next_deadline {
                self.next_deadline - now
            } else {
                0
            },
    {
        if now < self.next_deadline {
            self.next_deadline - now
        } else {
            0
        }
    }

    /// Set the deadline after a frame begins, discarding accumulated lag.
    pub fn restart(&mut self, now: u64)
        requires
            now + old(self).interval <= u64::MAX,
        ensures
            *final(self) == (FrameClock {
                next_deadline: (now + old(self).interval) as u64,
                ..*old(self)
            }),
    {
        self.next_deadline = now + self.interval;
    }

    /// Return monotonic sample time and duration in 100 ns units.
    pub fn sample_times(&self, elapsed_ns: u128) -> (result: Result<(i64, i64), MediaError>)
        ensures
            match result {
                Ok((timestamp, duration)) => timestamp == elapsed_ns / 100 && duration
                    == self.duration_100ns,
                Err(error) => elapsed_ns / 100 > i64::MAX && error
                    == MediaError::TimestampExhausted,
            },
    {
        let elapsed: u128 = elapsed_ns / 100;
        if elapsed > 0x7FFF_FFFF_FFFF_FFFF {
            return Err(MediaError::TimestampExhausted);
        }
        Ok((elapsed as i64, self.duration_100ns))
    }
}

/// Frames counted between two refreshes of the rates.
#[derive(Debug, Clone, Copy, PartialEq, Eq, Structural)]
pub struct RateCounts {
    pub captured: u64,
    pub encoded: u64,
}

/// Latest status plus one-second rate baselines.
pub struct StatusReporter {
    snapshot: MediaStatus,
    captured_baseline: u64,
    encoded_baseline: u64,
}

/// What a status reporter knows.
pub struct StatusModel {
    pub state: CaptureState,
    pub target: Option<TargetModel>,
    pub captured: u64,
    pub encoded: u64,
    pub captured_baseline: u64,
    pub encoded_baseline: u64,
}

impl View for StatusReporter {
    type V = StatusModel;

    closed spec fn view(&self) -> StatusModel {
        StatusModel {
            state: self.snapshot.state,
            target: status::optional_target(self.snapshot.target),
            captured: self.snapshot.captured_frames,
            encoded: self.snapshot.encoded_frames,
            captured_baseline: self.captured_baseline,
            encoded_baseline: self.encoded_baseline,
        }
    }
}

impl StatusReporter {
    /// The baselines never run ahead of the counters.
    #[verifier::type_invariant]
    spec fn well_formed(&self) -> bool {
        self.captured_baseline <= self.snapshot.captured_frames && self.encoded_baseline
            <= self.snapshot.encoded_frames
    }

    /// Begin in the externally defined waiting state.
    pub fn new() -> (reporter: StatusReporter)
        ensures
            reporter@ == (StatusModel {
                state: CaptureState::Waiting,
                target: None,
                captured: 0,
                encoded: 0,
                captured_baseline: 0,
                encoded_baseline: 0,
            }),
    {
        StatusReporter {
            snapshot: MediaStatus::default(),
            captured_baseline: 0,
            encoded_baseline: 0,
        }
    }

    /// Returns the status to publish.
    pub fn snapshot(&self) -> (snapshot: &MediaStatus)
        ensures
            snapshot.state == self@.state,
            status::optional_target(snapshot.target) == self@.target,
            snapshot.captured_frames == self@.captured,
            snapshot.encoded_frames == self@.encoded,
    {
        &self.snapshot
    }

    /// Apply a visible lifecycle transition atomically to the next snapshot.
    pub fn transition(&mut self, state: CaptureState, target: Option<TargetSummary>)
        ensures
            final(self)@ == (StatusModel {
                state,
                target: status::optional_target(target),
                ..old(self)@
            }),
    {
        proof {
            use_type_invariant(&*self);
        }
        self.snapshot.state = state;
        self.snapshot.target = target;
    }

    /// Count one newly captured frame with checked lifetime arithmetic.
    pub fn captured(&mut self) -> (result: Result<(), MediaError>)
        ensures
            match result {
                Ok(()) => old(self)@.captured < u64::MAX && final(self)@ == (StatusModel {
                    captured: (old(self)@.captured + 1) as u64,
                    ..old(self)@
                }),
                Err(error) => old(self)@.captured == u64::MAX && error
                    == MediaError::CapturedExhausted && final(self)@ == old(self)@,
            },
    {
        proof {
            use_type_invariant(&*self);
        }
        match self.snapshot.captured_frames.checked_add(1) {
            Some(count) => {
                self.snapshot.captured_frames = count;
                Ok(())
            },
            None => Err(MediaError::CapturedExhausted),
        }
    }

    /// Count one encoded access unit with checked lifetime arithmetic.
    pub fn encoded(&mut self) -> (result: Result<(), MediaError>)
        ensures
            match result {
                Ok(()) => old(self)@.encoded < u64::MAX && final(self)@ == (StatusModel {
                    encoded: (old(self)@.encoded + 1) as u64,
                    ..old(self)@
                }),
                Err(error) => old(self)@.encoded == u64::MAX && error
                    == MediaError::EncodedExhausted && final(self)@ == old(self)@,
            },
    {
        proof {
            use_type_invariant(&*self);
        }
        match self.snapshot.encoded_frames.checked_add(1) {
            Some(count) => {
                self.snapshot.encoded_frames = count;
                Ok(())
            },
            None => Err(MediaError::EncodedExhausted),
        }
    }

    /// Give the frames counted since the last refresh, no more than once per second.
    pub fn tick(&mut self, elapsed_ns: u64) -> (counts: Option<RateCounts>)
        ensures
            match counts {
                None => elapsed_ns < RATE_INTERVAL_NS && final(self)@ == old(self)@,
                Some(counts) => {
                    &&& elapsed_ns >= RATE_INTERVAL_NS
                    &&& counts.captured == old(self)@.captured - old(self)@.captured_baseline
                    &&& counts.encoded == old(self)@.encoded - old(self)@.encoded_baseline
                    &&& final(self)@ == (StatusModel {
                        captured_baseline: old(self)@.captured,
                        encoded_baseline: old(self)@.encoded,
                        ..old(self)@
                    })
                },
            },
    {
        proof {
            use_type_invariant(&*self);
        }
        if elapsed_ns < RATE_INTERVAL_NS {
            return None;
        }
        let counts = RateCounts {
            captured: self.snapshot.captured_frames - self.captured_baseline,
            encoded: self.snapshot.encoded_frames - self.encoded_baseline,
        };
        self.captured_baseline = self.snapshot.captured_frames;
        self.encoded_baseline = self.snapshot.encoded_frames;
        Some(counts)
    }
}

/// One active capture session and its core-facing identity.
#[derive(Debug, PartialEq, Eq)]
pub struct CurrentTarget {
    pub id: ObservationId,
    pub summary: TargetSummary,
}

/// Selector result detached from the snapshot it was made from.
#[derive(Debug, PartialEq, Eq)]
pub enum OwnedDecision {
    /// Continue with the current target.
    Keep {
        id: ObservationId,
        profile: String,
    },
    /// Replace the current target.
    Switch {
        id: ObservationId,
        profile: String,
    },
    /// Capture nothing.
    Wait,
}

/// What the encoder announces.
#[derive(Debug, Clone, Copy, PartialEq, Eq, Structural)]
pub enum EncoderEvent {
    NeedInput,
    HaveOutput,
    DrainComplete,
    Other,
}

/// What the owner does next.
#[derive(Debug, Clone, Copy, PartialEq, Eq, Structural)]
pub enum MediaStep {
    /// Submit a frame in this slot.
    Submit {
        slot: usize,
    },
    /// Wait for the encoder.
    AwaitEvent,
}

/// Latest configuration as the owner finds it.
pub enum ConfigurationPoll {
    Changed(ConfigSnapshot),
    Unchanged,
    Closed,
}

/// Commands drained by the owner, and whether their channel is gone.
#[derive(Debug, Clone, Copy, PartialEq, Eq, Structural)]
pub struct CommandPoll {
    pub keyframe_requested: bool,
    pub closed: bool,
}

/// What the capture session gave.
#[derive(Debug, Clone, Copy, PartialEq, Eq, Structural)]
pub enum CaptureOutcome {
    /// The newest complete frame.
    Frame {
        size: Size,
    },
    /// No new frame.
    Empty,
    /// An error, and whether it means that the device is lost.
    Failed {
        device_lost: bool,
    },
}

/// What follows a selector decision.
#[derive(Debug, PartialEq, Eq)]
pub enum SelectionAction {
    /// The current target goes on.
    Keep,
    /// Draw, then open a session for this observation of the snapshot.
    Open {
        index: usize,
        target: CurrentTarget,
        draw: FrameDraw,
    },
    /// Draw, and capture nothing.
    Wait {
        draw: FrameDraw,
    },
}

/// The first observation with an identity, if any.
pub open spec fn is_first_with_id(
    observations: Seq<ObservedWindow>,
    id: ObservationId,
    index: int,
) -> bool {
    &&& 0 <= index < observations.len()
    &&& observations[index].id == id
    &&& forall|i: int| 0 <= i < index ==> (#[trigger] observations[i]).id != id
}

/// No observation has an identity.
pub open spec fn is_absent(observations: Seq<ObservedWindow>, id: ObservationId) -> bool {
    forall|i: int| 0 <= i < observations.len() ==> (#[trigger] observations[i]).id != id
}

/// Find the native half of a selection made from the same complete snapshot.
pub fn find_observation(observations: &[ObservedWindow], id: ObservationId) -> (result: Result<
    usize,
    MediaError,
>)
    ensures
        match result {
            Ok(index) => is_first_with_id(observations@, id, index as int),
            Err(error) => is_absent(observations@, id) && error == MediaError::UnknownObservation,
        },
{
    let mut i: usize = 0;
    while i < observations.len()
        invariant
            i <= observations@.len(),
            forall|k: int| 0 <= k < i ==> (#[trigger] observations@[k]).id != id,
        decreases observations@.len() - i,
    {
        if observations[i].id == id {
            return Ok(i);
        }
        i = i + 1;
    }
    Err(MediaError::UnknownObservation)
}

/// What is told of an observation that a profile admitted.
pub open spec fn summary_model(window: ObservedWindow, profile: Seq<char>) -> TargetModel {
    TargetModel { profile, executable_name: window.executable_name@, title: window.title@ }
}

/// Build a stable operator-facing target summary without exposing native identities.
pub fn summary(observation: &ObservedWindow, profile: String) -> (summary: TargetSummary)
    ensures
        summary@ == summary_model(*observation, profile@),
{
    TargetSummary {
        profile,
        executable_name: observation.executable_name.clone(),
        title: observation.title.clone(),
    }
}

/// Whether an identity and a profile belong to the best candidate of a snapshot.
pub open spec fn names_best(
    policy: PolicyModel,
    windows: Seq<ObservedWindow>,
    only: Option<u64>,
    id: ObservationId,
    profile: Seq<char>,
) -> bool {
    exists|i: int|
        #[trigger] policy.best(selector::window_models(windows), only, i) && windows[i].id == id
            && profile == policy.profiles[policy.profile_of(windows[i]@.executable)].name
}

/// All mutable media state, confined to one owner.
pub struct MediaOwner {
    configuration: ConfigSnapshot,
    frame: FixedFrame,
    pool: Nv12Pool,
    current_target: Option<CurrentTarget>,
    last_source: Option<Size>,
    force_transform: bool,
    next_observation: u64,
    force_observation: bool,
    force_keyframe: bool,
    pending_inputs: usize,
    status: StatusReporter,
}

/// What the media owner knows.
pub struct MediaModel {
    pub generation: u64,
    pub config: InstanceModel,
    pub frame: FixedFrame,
    pub slots: PoolModel,
    pub contents: Seq<Option<u64>>,
    pub target: Option<(ObservationId, TargetModel)>,
    pub last_source: Option<Size>,
    pub force_transform: bool,
    pub next_observation: u64,
    pub force_observation: bool,
    pub force_keyframe: bool,
    pub pending_inputs: usize,
    pub status: StatusModel,
}

impl View for MediaOwner {
    type V = MediaModel;

    closed spec fn view(&self) -> MediaModel {
        MediaModel {
            generation: self.configuration.generation,
            config: self.configuration.config@,
            frame: self.frame,
            slots: self.pool.slots(),
            contents: self.pool.contents(),
            target: match self.current_target {
                Some(target) => Some((target.id, target.summary@)),
                None => None,
            },
            last_source: self.last_source,
            force_transform: self.force_transform,
            next_observation: self.next_observation,
            force_observation: self.force_observation,
            force_keyframe: self.force_keyframe,
            pending_inputs: self.pending_inputs,
            status: self.status@,
        }
    }
}

/// The pool after some releases in order, or the failure of the first release that is refused.
pub open spec fn recycled(pool: PoolModel, slots: Seq<usize>) -> Result<PoolModel, FrameError>
    decreases slots.len(),
{
    if slots.len() == 0 {
        Ok(pool)
    } else {
        match recycled(pool, slots.drop_last()) {
            Err(error) => Err(error),
            Ok(before) => if before.retains(slots.last() as int) {
                Ok(before.released(slots.last()))
            } else if slots.last() >= before.in_use.len() {
                Err(FrameError::ReleasedOutOfRange)
            } else {
                Err(FrameError::ReleasedTwice { slot: slots.last() })
            },
        }
    }
}

impl MediaModel {
    /// The pool is consistent, and without a target nothing stale is shown or claimed.
    pub open spec fn well_formed(self) -> bool {
        &&& self.slots.well_formed()
        &&& self.slots.in_use.len() == self.contents.len()
        &&& forall|i: int|
            0 <= i < self.contents.len() ==> (#[trigger] self.contents[i] matches Some(held)
                ==> held <= self.frame.revision)
        &&& self.target is None ==> self.frame.is_clear && self.last_source is None
        &&& self.target is Some <==> self.status.state == CaptureState::Capturing
        &&& self.target matches Some(target) ==> self.status.target == Some(target.1)
        &&& self.status.state == CaptureState::Waiting ==> self.status.target is None
    }

    /// Whether the frame can still be cleared.
    pub open spec fn can_clear(self) -> bool {
        self.frame.is_clear || self.frame.revision < u64::MAX
    }

    /// The frame with the clear color alone.
    pub open spec fn cleared_frame(self) -> FixedFrame {
        if self.frame.is_clear {
            self.frame
        } else {
            FixedFrame {
                size: self.frame.size,
                revision: (self.frame.revision + 1) as u64,
                is_clear: true,
            }
        }
    }

    /// What clearing the frame draws.
    pub open spec fn clear_draw(self) -> FrameDraw {
        if self.frame.is_clear {
            FrameDraw::Nothing
        } else {
            FrameDraw::Clear
        }
    }

    /// The owner once its target was given up, before anything is drawn or told.
    pub open spec fn released(self) -> MediaModel {
        MediaModel { target: None, last_source: None, force_transform: false, ..self }
    }

    /// The owner without a target, showing nothing.
    pub open spec fn without_target(self, state: CaptureState, shown: Option<TargetModel>) -> MediaModel {
        MediaModel {
            frame: self.cleared_frame(),
            status: StatusModel { state, target: shown, ..self.status },
            ..self.released()
        }
    }

    /// The owner after an ordinary target race.
    pub open spec fn recovered(self) -> MediaModel {
        MediaModel {
            force_observation: true,
            force_keyframe: true,
            ..self.without_target(CaptureState::Waiting, None)
        }
    }

    /// The frame after a source of a size was drawn.
    pub open spec fn drawn_frame(self, source: Size) -> FixedFrame {
        FixedFrame {
            size: self.frame.size,
            revision: (self.frame.revision + 1) as u64,
            is_clear: SourceRegion::drawn(source, self.config.source.crop) is None,
        }
    }

    /// The frame where a source of a size could not be drawn: out of bounds, it is no longer
    /// taken for clear.
    pub open spec fn refused_frame(self, source: Size) -> FixedFrame {
        FixedFrame {
            is_clear: self.frame.is_clear && SourceRegion::drawn(
                source,
                self.config.source.crop,
            ) is Some,
            ..self.frame
        }
    }

    /// The owner after the current frame was converted into a slot.
    pub open spec fn converted(self, slot: int) -> MediaModel {
        MediaModel { contents: self.contents.update(slot, Some(self.frame.revision)), ..self }
    }

    /// What is drawn for a source of a size.
    pub open spec fn source_draw(self, source: Size) -> FrameDraw {
        match SourceRegion::drawn(source, self.config.source.crop) {
            Some(region) => FrameDraw::Source(region),
            None => FrameDraw::Clear,
        }
    }
}

/// Whenever something is drawn, no surface passes for holding it already: each is converted
/// again before it is submitted.
pub proof fn law_new_content_is_converted(media: MediaModel, source: Size, slot: int)
    requires
        media.well_formed(),
        media.frame.revision < u64::MAX,
        0 <= slot < media.contents.len(),
    ensures
        media.contents[slot] != Some(media.drawn_frame(source).revision),
        !media.frame.is_clear ==> media.contents[slot] != Some(media.cleared_frame().revision),
{
}

impl MediaOwner {
    /// Prepares the owner of a validated configuration; such a configuration always describes
    /// a frame and its surfaces.
    pub fn new(configuration: ConfigSnapshot, now_ms: u64) -> (result: Result<
        MediaOwner,
        MediaError,
    >)
        ensures
            result is Ok,
            result matches Ok(owner) && owner@.well_formed() && owner@ == (MediaModel {
                generation: configuration.generation,
                config: configuration.config@,
                frame: FixedFrame {
                    size: Size {
                        width: configuration.config@.video.width,
                        height: configuration.config@.video.height,
                    },
                    revision: 1,
                    is_clear: true,
                },
                slots: PoolModel::fresh(frame::SURFACE_COUNT),
                contents: Seq::new(frame::SURFACE_COUNT as nat, |i: int| None::<u64>),
                target: None,
                last_source: None,
                force_transform: false,
                next_observation: now_ms,
                force_observation: true,
                force_keyframe: true,
                pending_inputs: 0,
                status: StatusModel {
                    state: CaptureState::Waiting,
                    target: None,
                    captured: 0,
                    encoded: 0,
                    captured_baseline: 0,
                    encoded_baseline: 0,
                },
            }),
    {
        proof {
            use_type_invariant(&configuration.config);
        }
        let video = configuration.config.config().video;
        let size = Size { width: video.width, height: video.height };
        let frame = match FixedFrame::new(size) {
            Ok(frame) => frame,
            Err(error) => {
                return Err(MediaError::Frame(error));
            },
        };
        let pool = match Nv12Pool::new(size) {
            Ok(pool) => pool,
            Err(error) => {
                return Err(MediaError::Frame(error));
            },
        };
        Ok(
            MediaOwner {
                configuration,
                frame,
                pool,
                current_target: None,
                last_source: None,
                force_transform: false,
                next_observation: now_ms,
                force_observation: true,
                force_keyframe: true,
                pending_inputs: 0,
                status: StatusReporter::new(),
            },
        )
    }

    /// Returns the reporter of the published status.
    pub fn status(&self) -> (status: &StatusReporter)
        ensures
            status@ == self@.status,
    {
        &self.status
    }

    /// Decides the next step without allowing more than the requested inputs.
    pub fn next_step(&mut self) -> (step: MediaStep)
        requires
            old(self)@.well_formed(),
        ensures
            final(self)@.well_formed(),
            match step {
                MediaStep::Submit { slot } => {
                    &&& old(self)@.pending_inputs > 0
                    &&& old(self)@.slots.free.len() > 0
                    &&& slot == old(self)@.slots.free[0]
                    &&& slot < old(self)@.contents.len()
                    &&& final(self)@ == (MediaModel {
                        pending_inputs: (old(self)@.pending_inputs - 1) as usize,
                        slots: old(self)@.slots.acquired(),
                        ..old(self)@
                    })
                },
                MediaStep::AwaitEvent => (old(self)@.pending_inputs == 0
                    || old(self)@.slots.free.len() == 0) && final(self)@ == old(self)@,
            },
    {
        if self.pending_inputs > 0 {
            if let Some(slot) = self.pool.acquire() {
                self.pending_inputs = self.pending_inputs - 1;
                return MediaStep::Submit { slot };
            }
        }
        MediaStep::AwaitEvent
    }

    /// Notes an encoder event, and tells whether an output is to be published.
    pub fn note_event(&mut self, event: EncoderEvent) -> (result: Result<bool, MediaError>)
        ensures
            match result {
                Ok(publish) => publish == (event == EncoderEvent::HaveOutput) && if event
                    == EncoderEvent::NeedInput {
                    old(self)@.pending_inputs < usize::MAX && final(self)@ == (MediaModel {
                        pending_inputs: (old(self)@.pending_inputs + 1) as usize,
                        ..old(self)@
                    })
                } else {
                    final(self)@ == old(self)@
                },
                Err(error) => event == EncoderEvent::NeedInput && old(self)@.pending_inputs
                    == usize::MAX && error == MediaError::InputRequestsExhausted && final(self)@
                    == old(self)@,
            },
    {
        match event {
            EncoderEvent::NeedInput => match self.pending_inputs.checked_add(1) {
                Some(pending) => {
                    self.pending_inputs = pending;
                    Ok(false)
                },
                None => Err(MediaError::InputRequestsExhausted),
            },
            EncoderEvent::HaveOutput => Ok(true),
            EncoderEvent::DrainComplete => Ok(false),
            EncoderEvent::Other => Ok(false),
        }
    }

    /// Apply every completed tracked-sample callback.
    pub fn recycle_surfaces(&mut self, released: &[usize]) -> (result: Result<(), MediaError>)
        requires
            old(self)@.well_formed(),
        ensures
            final(self)@.well_formed(),
            match result {
                Ok(()) => recycled(old(self)@.slots, released@) matches Ok(slots) && final(self)@
                    == (MediaModel { slots, ..old(self)@ }),
                Err(MediaError::Frame(error)) => exists|n: int|
                    {
                        &&& 0 < n <= released@.len()
                        &&& #[trigger] recycled(old(self)@.slots, released@.take(n)) == Err::<
                            PoolModel,
                            FrameError,
                        >(error)
                        &&& recycled(old(self)@.slots, released@.take(n - 1)) matches Ok(slots)
                            && final(self)@ == (MediaModel { slots, ..old(self)@ })
                    },
                Err(_) => false,
            },
    {
        let ghost start = self@;
        let mut i: usize = 0;
        assert(released@.take(0) =~= Seq::empty());
        while i < released.len()
            invariant
                i <= released@.len(),
                start == old(self)@,
                self@.well_formed(),
                recycled(start.slots, released@.take(i as int)) == Ok::<PoolModel, FrameError>(
                    self@.slots,
                ),
                self@ == (MediaModel { slots: self@.slots, ..start }),
            decreases released@.len() - i,
        {
            let slot: usize = released[i];
            proof {
                let next = released@.take(i + 1);
                assert(next.drop_last() =~= released@.take(i as int));
                assert(next.last() == slot);
            }
            let outcome = self.pool.release(slot);
            if let Err(error) = outcome {
                proof {
                    let n = i + 1;
                    assert(recycled(start.slots, released@.take(n)) == Err::<
                        PoolModel,
                        FrameError,
                    >(error));
                    assert(released@.take(n - 1) =~= released@.take(i as int));
                }
                return Err(MediaError::Frame(error));
            }
            i = i + 1;
        }
        assert(released@.take(i as int) =~= released@);
        Ok(())
    }

    /// Apply latest-value configuration and all rare media commands.
    pub fn apply_commands(&mut self, configuration: ConfigurationPoll, commands: CommandPoll) -> (result:
        Result<(), MediaError>)
        ensures
            old(self)@.well_formed() ==> final(self)@.well_formed(),
            result == if configuration is Closed {
                Err::<(), MediaError>(MediaError::ConfigurationClosed)
            } else if commands.closed {
                Err(MediaError::CommandsClosed)
            } else {
                Ok(())
            },
            final(self)@ == match configuration {
                ConfigurationPoll::Changed(snapshot) => MediaModel {
                    generation: snapshot.generation,
                    config: snapshot.config@,
                    force_observation: true,
                    force_transform: true,
                    force_keyframe: old(self)@.force_keyframe || commands.keyframe_requested,
                    ..old(self)@
                },
                ConfigurationPoll::Unchanged => MediaModel {
                    force_keyframe: old(self)@.force_keyframe || commands.keyframe_requested,
                    ..old(self)@
                },
                ConfigurationPoll::Closed => old(self)@,
            },
    {
        match configuration {
            ConfigurationPoll::Changed(snapshot) => {
                self.configuration = snapshot;
                self.force_observation = true;
                self.force_transform = true;
            },
            ConfigurationPoll::Unchanged => {},
            ConfigurationPoll::Closed => {
                return Err(MediaError::ConfigurationClosed);
            },
        }
        if commands.keyframe_requested {
            self.force_keyframe = true;
        }
        if commands.closed {
            return Err(MediaError::CommandsClosed);
        }
        Ok(())
    }

    /// Tells whether windows are to be observed: on a bounded cadence, or immediately after
    /// policy loss.
    pub fn observation_due(&mut self, now_ms: u64) -> (due: bool)
        requires
            now_ms + OBSERVATION_INTERVAL_MS <= u64::MAX,
        ensures
            due == (old(self)@.force_observation || now_ms >= old(self)@.next_observation),
            final(self)@ == if due {
                MediaModel {
                    force_observation: false,
                    next_observation: (now_ms + OBSERVATION_INTERVAL_MS) as u64,
                    ..old(self)@
                }
            } else {
                old(self)@
            },
    {
        if !self.force_observation && now_ms < self.next_observation {
            return false;
        }
        self.force_observation = false;
        self.next_observation = now_ms + OBSERVATION_INTERVAL_MS;
        true
    }

    /// Re-run pure selection on one complete snapshot.
    pub fn decide(&self, observations: &[ObservedWindow]) -> (decision: OwnedDecision)
        ensures
            ({
                let policy = self@.config.selection.policy();
                let windows = selector::window_models(observations@);
                match decision {
                    OwnedDecision::Keep { id, profile } => self@.target matches Some(target)
                        && target.0 == id && names_best(
                        policy,
                        observations@,
                        Some(id.0),
                        id,
                        profile@,
                    ),
                    OwnedDecision::Switch { id, profile } => {
                        &&& self@.target matches Some(target) ==> policy.none(
                            windows,
                            Some(target.0.0),
                        )
                        &&& names_best(policy, observations@, None, id, profile@)
                    },
                    OwnedDecision::Wait => policy.none(windows, None),
                }
            }),
    {
        let current = match &self.current_target {
            Some(target) => Some(target.id),
            None => None,
        };
        let policy = self.configuration.config.selector();
        match selector::select_window(policy, observations, current) {
            SelectionDecision::Keep(selection) => {
                let id = selection.window.id;
                let profile = selection.profile.to_owned();
                proof {
                    let only = Some(current->Some_0.0);
                    let i = choose|i: int|
                        #[trigger] policy@.best(
                            selector::window_models(observations@),
                            only,
                            i,
                        ) && *selection.window == observations@[i] && selection.profile@
                            == policy@.profiles[policy@.profile_of(
                            observations@[i]@.executable,
                        )].name;
                    assert(policy@.best(selector::window_models(observations@), only, i));
                    assert(observations@[i].id == id);
                    assert(selector::window_models(observations@)[i].id == id.0);
                }
                OwnedDecision::Keep { id, profile }
            },
            SelectionDecision::Switch(selection) => {
                let id = selection.window.id;
                let profile = selection.profile.to_owned();
                proof {
                    let i = choose|i: int|
                        #[trigger] policy@.best(
                            selector::window_models(observations@),
                            None,
                            i,
                        ) && *selection.window == observations@[i] && selection.profile@
                            == policy@.profiles[policy@.profile_of(
                            observations@[i]@.executable,
                        )].name;
                    assert(policy@.best(selector::window_models(observations@), None, i));
                    assert(observations@[i].id == id);
                }
                OwnedDecision::Switch { id, profile }
            },
            SelectionDecision::Wait => OwnedDecision::Wait,
        }
    }

    /// Translate a pure selector decision back to one observation of its snapshot.
    pub fn apply_selection(
        &mut self,
        decision: OwnedDecision,
        observations: &[ObservedWindow],
    ) -> (result: Result<SelectionAction, MediaError>)
        requires
            old(self)@.well_formed(),
        ensures
            result is Ok && (decision is Keep ==> old(self)@.target is Some)
                ==> final(self)@.well_formed(),
            match (decision, result) {
                (OwnedDecision::Keep { id, profile }, Ok(action)) => exists|i: int|
                    {
                        &&& #[trigger] is_first_with_id(observations@, id, i)
                        &&& action == SelectionAction::Keep
                        &&& final(self)@ == (MediaModel {
                            target: match old(self)@.target {
                                Some(target) => Some(
                                    (target.0, summary_model(observations@[i], profile@)),
                                ),
                                None => None,
                            },
                            status: StatusModel {
                                state: CaptureState::Capturing,
                                target: Some(summary_model(observations@[i], profile@)),
                                ..old(self)@.status
                            },
                            ..old(self)@
                        })
                    },
                (OwnedDecision::Switch { id, profile }, Ok(action)) => {
                    &&& old(self)@.can_clear()
                    &&& action matches SelectionAction::Open { index, target, draw }
                    &&& is_first_with_id(observations@, id, index as int)
                    &&& target.id == id
                    &&& target.summary@ == summary_model(observations@[index as int], profile@)
                    &&& draw == old(self)@.clear_draw()
                    &&& final(self)@ == (MediaModel {
                        force_keyframe: true,
                        ..old(self)@.without_target(CaptureState::Switching, Some(target.summary@))
                    })
                },
                (OwnedDecision::Wait, Ok(action)) => {
                    &&& old(self)@.can_clear()
                    &&& action == SelectionAction::Wait { draw: old(self)@.clear_draw() }
                    &&& final(self)@ == old(self)@.without_target(CaptureState::Waiting, None)
                },
                (OwnedDecision::Keep { id, .. }, Err(error)) => is_absent(observations@, id)
                    && error == MediaError::UnknownObservation && final(self)@ == old(self)@,
                (OwnedDecision::Switch { id, profile }, Err(error)) => if is_absent(
                    observations@,
                    id,
                ) {
                    error == MediaError::UnknownObservation && final(self)@ == old(self)@
                } else {
                    &&& !old(self)@.can_clear()
                    &&& error == MediaError::Frame(FrameError::RevisionExhausted)
                    &&& exists|i: int|
                        #[trigger] is_first_with_id(observations@, id, i) && final(self)@ == (
                        MediaModel {
                            status: StatusModel {
                                state: CaptureState::Switching,
                                target: Some(summary_model(observations@[i], profile@)),
                                ..old(self)@.status
                            },
                            ..old(self)@.released()
                        })
                },
                (OwnedDecision::Wait, Err(error)) => !old(self)@.can_clear() && error
                    == MediaError::Frame(FrameError::RevisionExhausted) && final(self)@ == old(
                    self,
                )@.released(),
            },
    {
        match decision {
            OwnedDecision::Keep { id, profile } => {
                let index = match find_observation(observations, id) {
                    Ok(index) => index,
                    Err(error) => {
                        return Err(error);
                    },
                };
                let told = summary(&observations[index], profile);
                let mut current: Option<CurrentTarget> = None;
                std::mem::swap(&mut current, &mut self.current_target);
                self.current_target = match current {
                    Some(target) => Some(CurrentTarget { id: target.id, summary: told.clone() }),
                    None => None,
                };
                self.status.transition(CaptureState::Capturing, Some(told));
                assert(is_first_with_id(observations@, id, index as int));
                Ok(SelectionAction::Keep)
            },
            OwnedDecision::Switch { id, profile } => {
                let index = match find_observation(observations, id) {
                    Ok(index) => index,
                    Err(error) => {
                        return Err(error);
                    },
                };
                let told = summary(&observations[index], profile);
                assert(!is_absent(observations@, id));
                self.status.transition(CaptureState::Switching, Some(told.clone()));
                self.current_target = None;
                self.last_source = None;
                self.force_transform = false;
                let draw = match self.frame.clear() {
                    Ok(draw) => draw,
                    Err(error) => {
                        return Err(MediaError::Frame(error));
                    },
                };
                self.force_keyframe = true;
                Ok(
                    SelectionAction::Open {
                        index,
                        target: CurrentTarget { id, summary: told },
                        draw,
                    },
                )
            },
            OwnedDecision::Wait => {
                self.current_target = None;
                self.last_source = None;
                self.force_transform = false;
                let draw = match self.frame.clear() {
                    Ok(draw) => draw,
                    Err(error) => {
                        return Err(MediaError::Frame(error));
                    },
                };
                self.status.transition(CaptureState::Waiting, None);
                Ok(SelectionAction::Wait { draw })
            },
        }
    }

    /// Notes that the session of a new target is open.
    pub fn session_opened(&mut self, target: CurrentTarget)
        requires
            old(self)@.well_formed(),
        ensures
            final(self)@.well_formed(),
            final(self)@ == (MediaModel {
                target: Some((target.id, target.summary@)),
                status: StatusModel {
                    state: CaptureState::Capturing,
                    target: Some(target.summary@),
                    ..old(self)@.status
                },
                ..old(self)@
            }),
    {
        let told = target.summary.clone();
        self.current_target = Some(target);
        self.status.transition(CaptureState::Capturing, Some(told));
    }

    /// Notes that the session of a new target could not be opened.
    pub fn session_failed(&mut self, device_lost: bool) -> (result: Result<FrameDraw, MediaError>)
        requires
            old(self)@.well_formed(),
        ensures
            match result {
                Ok(draw) => !device_lost && old(self)@.can_clear() && draw
                    == old(self)@.clear_draw() && final(self)@ == old(self)@.recovered()
                    && final(self)@.well_formed(),
                Err(error) => if device_lost {
                    error == MediaError::DeviceLostOnSwitch && final(self)@ == old(self)@
                } else {
                    !old(self)@.can_clear() && error == MediaError::Frame(
                        FrameError::RevisionExhausted,
                    ) && final(self)@ == old(self)@.released()
                },
            },
    {
        if device_lost {
            return Err(MediaError::DeviceLostOnSwitch);
        }
        self.recover_target()
    }

    /// Use what the capture session gave: the newest complete frame is drawn, and without one
    /// the last frame is kept, redrawn only if the configuration changed since.
    pub fn capture_latest(&mut self, outcome: CaptureOutcome) -> (result: Result<
        FrameDraw,
        MediaError,
    >)
        requires
            old(self)@.well_formed(),
        ensures
            result is Ok ==> final(self)@.well_formed(),
            if old(self)@.target is None {
                result == Ok::<FrameDraw, MediaError>(FrameDraw::Nothing) && final(self)@
                    == old(self)@
            } else {
                match outcome {
                    CaptureOutcome::Frame { size } => match result {
                        Ok(draw) => {
                            &&& old(self)@.frame.revision < u64::MAX
                            &&& old(self)@.status.captured < u64::MAX
                            &&& draw == old(self)@.source_draw(size)
                            &&& final(self)@ == (MediaModel {
                                frame: old(self)@.drawn_frame(size),
                                last_source: Some(size),
                                force_transform: false,
                                status: StatusModel {
                                    captured: (old(self)@.status.captured + 1) as u64,
                                    ..old(self)@.status
                                },
                                ..old(self)@
                            })
                        },
                        Err(error) => if old(self)@.frame.revision == u64::MAX {
                            error == MediaError::Frame(FrameError::RevisionExhausted)
                                && final(self)@ == (MediaModel {
                                frame: old(self)@.refused_frame(size),
                                ..old(self)@
                            })
                        } else {
                            old(self)@.status.captured == u64::MAX && error
                                == MediaError::CapturedExhausted && final(self)@ == (MediaModel {
                                frame: old(self)@.drawn_frame(size),
                                last_source: Some(size),
                                force_transform: false,
                                ..old(self)@
                            })
                        },
                    },
                    CaptureOutcome::Empty => match (
                        old(self)@.force_transform,
                        old(self)@.last_source,
                        result,
                    ) {
                        (true, Some(size), Ok(draw)) => old(self)@.frame.revision < u64::MAX
                            && draw == old(self)@.source_draw(size) && final(self)@ == (MediaModel {
                            frame: old(self)@.drawn_frame(size),
                            force_transform: false,
                            ..old(self)@
                        }),
                        (true, Some(size), Err(error)) => old(self)@.frame.revision == u64::MAX
                            && error == MediaError::Frame(FrameError::RevisionExhausted)
                            && final(self)@ == (MediaModel {
                            frame: old(self)@.refused_frame(size),
                            ..old(self)@
                        }),
                        (_, _, Ok(draw)) => draw == FrameDraw::Nothing && final(self)@
                            == old(self)@,
                        (_, _, Err(_)) => false,
                    },
                    CaptureOutcome::Failed { device_lost } => match result {
                        Ok(draw) => !device_lost && old(self)@.can_clear() && draw
                            == old(self)@.clear_draw() && final(self)@ == old(self)@.recovered(),
                        Err(error) => if device_lost {
                            error == MediaError::DeviceLostOnCapture && final(self)@ == old(self)@
                        } else {
                            !old(self)@.can_clear() && error == MediaError::Frame(
                                FrameError::RevisionExhausted,
                            ) && final(self)@ == old(self)@.released()
                        },
                    },
                }
            },
    {
        if self.current_target.is_none() {
            return Ok(FrameDraw::Nothing);
        }
        let crop = self.configuration.config.config().source.crop;
        match outcome {
            CaptureOutcome::Frame { size } => {
                let draw = match self.frame.update(size, crop) {
                    Ok(draw) => draw,
                    Err(error) => {
                        return Err(MediaError::Frame(error));
                    },
                };
                self.last_source = Some(size);
                self.force_transform = false;
                match self.status.captured() {
                    Ok(()) => Ok(draw),
                    Err(error) => Err(error),
                }
            },
            CaptureOutcome::Empty => {
                if self.force_transform {
                    if let Some(size) = self.last_source {
                        let draw = match self.frame.update(size, crop) {
                            Ok(draw) => draw,
                            Err(error) => {
                                return Err(MediaError::Frame(error));
                            },
                        };
                        self.force_transform = false;
                        return Ok(draw);
                    }
                }
                Ok(FrameDraw::Nothing)
            },
            CaptureOutcome::Failed { device_lost } => {
                if device_lost {
                    return Err(MediaError::DeviceLostOnCapture);
                }
                self.recover_target()
            },
        }
    }

    /// Convert an ordinary target race into clear/waiting state and reselection.
    pub fn recover_target(&mut self) -> (result: Result<FrameDraw, MediaError>)
        requires
            old(self)@.well_formed(),
        ensures
            match result {
                Ok(draw) => old(self)@.can_clear() && draw == old(self)@.clear_draw()
                    && final(self)@ == old(self)@.recovered() && final(self)@.well_formed(),
                Err(error) => !old(self)@.can_clear() && error == MediaError::Frame(
                    FrameError::RevisionExhausted,
                ) && final(self)@ == old(self)@.released(),
            },
    {
        self.current_target = None;
        self.last_source = None;
        self.force_transform = false;
        let draw = match self.frame.clear() {
            Ok(draw) => draw,
            Err(error) => {
                return Err(MediaError::Frame(error));
            },
        };
        self.force_observation = true;
        self.force_keyframe = true;
        self.status.transition(CaptureState::Waiting, None);
        Ok(draw)
    }

    /// Tells whether the current frame has to be converted into a slot before it is submitted.
    pub fn prepare_slot(&self, slot: usize) -> (result: Result<bool, MediaError>)
        ensures
            result == if slot < self@.contents.len() {
                Ok::<bool, MediaError>(
                    self@.contents[slot as int] != Some(self@.frame.revision),
                )
            } else {
                Err(MediaError::Frame(FrameError::SlotOutOfRange))
            },
    {
        match self.pool.prepare(slot, self.frame.revision) {
            Ok(convert) => Ok(convert),
            Err(error) => Err(MediaError::Frame(error)),
        }
    }

    /// Notes that the current frame was converted into a slot.
    pub fn slot_converted(&mut self, slot: usize) -> (result: Result<(), MediaError>)
        ensures
            old(self)@.well_formed() ==> final(self)@.well_formed(),
            match result {
                Ok(()) => slot < old(self)@.contents.len() && final(self)@ == old(
                    self,
                )@.converted(slot as int),
                Err(error) => slot >= old(self)@.contents.len() && error == MediaError::Frame(
                    FrameError::SlotOutOfRange,
                ) && final(self)@ == old(self)@,
            },
    {
        let revision: u64 = self.frame.revision;
        match self.pool.converted(slot, revision) {
            Ok(()) => Ok(()),
            Err(error) => Err(MediaError::Frame(error)),
        }
    }

    /// Tells whether the next submission has to be a keyframe.
    pub fn keyframe_due(&self) -> (due: bool)
        ensures
            due == self@.force_keyframe,
    {
        self.force_keyframe
    }

    /// Notes that the encoder took a submission: a keyframe that was due is no longer.
    pub fn submitted(&mut self)
        ensures
            old(self)@.well_formed() ==> final(self)@.well_formed(),
            final(self)@ == (MediaModel { force_keyframe: false, ..old(self)@ }),
    {
        self.force_keyframe = false;
    }

    /// Counts a published event.
    pub fn published(&mut self, event: &VideoEvent) -> (result: Result<(), MediaError>)
        ensures
            old(self)@.well_formed() ==> final(self)@.well_formed(),
            match (event@, result) {
                (EventModel::Codec(_), Ok(())) => final(self)@ == old(self)@,
                (EventModel::Codec(_), Err(_)) => false,
                (EventModel::Unit(_), Ok(())) => old(self)@.status.encoded < u64::MAX
                    && final(self)@ == (MediaModel {
                    status: StatusModel {
                        encoded: (old(self)@.status.encoded + 1) as u64,
                        ..old(self)@.status
                    },
                    ..old(self)@
                }),
                (EventModel::Unit(_), Err(error)) => old(self)@.status.encoded == u64::MAX
                    && error == MediaError::EncodedExhausted && final(self)@ == old(self)@,
            },
    {
        match event {
            VideoEvent::CodecConfiguration(_) => Ok(()),
            VideoEvent::AccessUnit(_) => self.status.encoded(),
        }
    }

    /// Refreshes the rate baselines at most once per second.
    pub fn tick(&mut self, elapsed_ns: u64) -> (counts: Option<RateCounts>)
        ensures
            old(self)@.well_formed() ==> final(self)@.well_formed(),
            match counts {
                None => elapsed_ns < RATE_INTERVAL_NS && final(self)@ == old(self)@,
                Some(counts) => {
                    &&& elapsed_ns >= RATE_INTERVAL_NS
                    &&& counts.captured == old(self)@.status.captured
                        - old(self)@.status.captured_baseline
                    &&& counts.encoded == old(self)@.status.encoded
                        - old(self)@.status.encoded_baseline
                    &&& final(self)@ == (MediaModel {
                        status: StatusModel {
                            captured_baseline: old(self)@.status.captured,
                            encoded_baseline: old(self)@.status.encoded,
                            ..old(self)@.status
                        },
                        ..old(self)@
                    })
                },
            },
    {
        self.status.tick(elapsed_ns)
    }
}

/// A device is lost exactly if one of the three codes of a removed, hung or reset device is among
/// the codes.
pub proof fn law_device_loss_has_three_codes(codes: &[u32], lost: bool)
    requires
        call_ensures(is_device_lost, (codes,), lost),
    ensures
        lost <==> codes@.contains(0x887A_0005u32) || codes@.contains(0x887A_0006u32)
            || codes@.contains(0x887A_0007u32),
{
    if lost {
        let i = choose|i: int| 0 <= i < codes@.len() && names_device_loss(#[trigger] codes@[i]);
        assert(codes@.contains(codes@[i]));
        assert(codes@.contains(0x887A_0005u32) || codes@.contains(0x887A_0006u32)
            || codes@.contains(0x887A_0007u32));
    } else {
        assert forall|i: int| 0 <= i < codes@.len() implies #[trigger] codes@[i] != 0x887A_0005u32
            && codes@[i] != 0x887A_0006u32 && codes@[i] != 0x887A_0007u32 by {
            assert(!names_device_loss(codes@[i]));
        }
    }
}

/// A clock is due at its start and then one interval behind each frame, however late that was; the
/// samples last a frame each, in units of 100 ns, and one unit at least.
pub proof fn law_clocks_discard_their_lag(
    frame_rate: u32,
    interval: u64,
    started: u64,
    result: Result<FrameClock, MediaError>,
    clock: &mut FrameClock,
    now: u64,
    at: u64,
    remaining: u64,
    elapsed_ns: u128,
    times: Result<(i64, i64), MediaError>,
)
    requires
        now + old(clock).interval <= u64::MAX,
        call_ensures(FrameClock::new, (frame_rate, interval, started), result),
        call_ensures(FrameClock::restart, (clock, now), ()),
        call_ensures(FrameClock::remaining, (final(clock), at), remaining),
        call_ensures(FrameClock::sample_times, (final(clock), elapsed_ns), times),
    ensures
        result is Ok <==> frame_rate > 0,
        result matches Ok(made) ==> made.next_deadline == started && made.interval == interval
            && made.duration_100ns >= 1 && (frame_rate <= 10_000_000 ==> made.duration_100ns
            == 10_000_000int / frame_rate as int),
        final(clock).interval == old(clock).interval,
        now <= at < now + old(clock).interval ==> remaining == now + old(clock).interval - at,
        at >= now + old(clock).interval ==> remaining == 0,
        times is Ok <==> elapsed_ns / 100 <= 0x7FFF_FFFF_FFFF_FFFF,
        times matches Ok((time, duration)) ==> time == elapsed_ns / 100 && duration
            == old(clock).duration_100ns,
{
    if 0 < frame_rate <= 10_000_000 {
        assert(10_000_000int / frame_rate as int >= 1) by (nonlinear_arith)
            requires
                0 < frame_rate <= 10_000_000,
        ;
    }
}

/// Captured and encoded frames are counted one by one, and rates cover exactly what was counted
/// since the last refresh, at most once a second.
pub proof fn law_frames_are_counted(
    reporter: &mut StatusReporter,
    encoding: &mut StatusReporter,
    ticking: &mut StatusReporter,
    following: &mut StatusReporter,
    elapsed: (u64, u64),
    results: (Result<(), MediaError>, Result<(), MediaError>),
    counts: (Option<RateCounts>, Option<RateCounts>),
)
    requires
        old(reporter)@.captured < u64::MAX && old(reporter)@.encoded < u64::MAX,
        old(reporter)@.captured_baseline <= old(reporter)@.captured,
        old(reporter)@.encoded_baseline <= old(reporter)@.encoded,
        call_ensures(StatusReporter::captured, (reporter,), results.0),
        *old(encoding) == *final(reporter),
        call_ensures(StatusReporter::encoded, (encoding,), results.1),
        *old(ticking) == *final(encoding),
        call_ensures(StatusReporter::tick, (ticking, elapsed.0), counts.0),
        *old(following) == *final(ticking),
        call_ensures(StatusReporter::tick, (following, elapsed.1), counts.1),
    ensures
        results.0 is Ok && results.1 is Ok,
        final(encoding)@.captured == old(reporter)@.captured + 1,
        final(encoding)@.encoded == old(reporter)@.encoded + 1,
        final(following)@.captured == final(encoding)@.captured,
        final(following)@.encoded == final(encoding)@.encoded,
        counts.0 is Some <==> elapsed.0 >= 1_000_000_000,
        counts.0 matches Some(counted) ==> counted.captured == old(reporter)@.captured + 1 - old(
            reporter,
        )@.captured_baseline && counted.encoded == old(reporter)@.encoded + 1 - old(
            reporter,
        )@.encoded_baseline,
        counts.0 is Some ==> (counts.1 matches Some(counted) ==> counted.captured == 0
            && counted.encoded == 0),
{
}

/// The status starts out waiting, without a target or a frame; a transition publishes the state and
/// the target it is given.
pub proof fn law_transitions_are_published(
    fresh: StatusReporter,
    reporter: &mut StatusReporter,
    state: CaptureState,
    target: Option<TargetSummary>,
    first: MediaStatus,
    shown: MediaStatus,
)
    requires
        call_ensures(StatusReporter::new, (), fresh),
        call_ensures(StatusReporter::snapshot, (&fresh,), &first),
        call_ensures(StatusReporter::transition, (reporter, state, target), ()),
        call_ensures(StatusReporter::snapshot, (final(reporter),), &shown),
    ensures
        first.state == CaptureState::Waiting && first.target is None,
        first.captured_frames == 0 && first.encoded_frames == 0,
        shown.state == state,
        shown.target is Some <==> target is Some,
        target matches Some(target) ==> shown.target->Some_0@ == target@,
        shown.captured_frames == old(reporter)@.captured,
        shown.encoded_frames == old(reporter)@.encoded,
{
}

/// What the owner decides is what the selector decides for the policy and the target in force.
pub proof fn law_decisions_are_the_selectors<'a>(
    owner: MediaOwner,
    policy: &'a crate::selector::SelectorPolicy,
    observations: &'a [ObservedWindow],
    current: Option<ObservationId>,
    selected: SelectionDecision<'a>,
    decision: OwnedDecision,
)
    requires
        policy@ == owner@.config.selection.policy(),
        current is Some <==> owner@.target is Some,
        current matches Some(id) ==> owner@.target->Some_0.0 == id,
        call_ensures(selector::select_window, (policy, observations, current), selected),
        call_ensures(MediaOwner::decide, (&owner, observations), decision),
    ensures
        match selected {
            SelectionDecision::Keep(selection) => decision matches OwnedDecision::Keep {
                id,
                profile,
            } && id == selection.window.id && profile@ == selection.profile@,
            SelectionDecision::Switch(selection) => decision matches OwnedDecision::Switch {
                id,
                profile,
            } && id == selection.window.id && profile@ == selection.profile@,
            SelectionDecision::Wait => decision is Wait,
        },
{
    let model = policy@;
    let windows = selector::window_models(observations@);
    let only = match current {
        Some(id) => Some(id.0),
        None => None,
    };
    assert forall|i: int, j: int|
        #[trigger] model.best(windows, None, i) && #[trigger] model.best(
            windows,
            None,
            j,
        ) implies i == j by {
        lemma_best_is_one(model, windows, None, i, j);
    }
    assert forall|i: int, j: int|
        #[trigger] model.best(windows, only, i) && #[trigger] model.best(
            windows,
            only,
            j,
        ) implies i == j by {
        lemma_best_is_one(model, windows, only, i, j);
    }
    assert forall|i: int| #[trigger] model.best(windows, only, i) implies !model.none(windows, None)
        && !model.none(windows, only) by {
        assert(model.candidate(windows[i], only));
        assert(model.candidate(windows[i], None));
    }
    assert forall|i: int| #[trigger] model.best(windows, None, i) implies !model.none(windows, None) by {
        assert(model.candidate(windows[i], None));
    }
    match selected {
        SelectionDecision::Keep(selection) => {
            assert(selection.is_best(model, observations@, only));
        },
        SelectionDecision::Switch(selection) => {
            assert(selection.is_best(model, observations@, None));
        },
        SelectionDecision::Wait => {},
    }
}

proof fn lemma_best_is_one(
    policy: PolicyModel,
    windows: Seq<selector::WindowModel>,
    only: Option<u64>,
    i: int,
    j: int,
)
    requires
        policy.best(windows, only, i),
        policy.best(windows, only, j),
    ensures
        i == j,
{
    assert(policy.candidate(windows[i], only));
    assert(policy.candidate(windows[j], only));
}

/// Windows are observed at the start, then every half second, and at once where it was asked for;
/// an observation takes the request with it.
pub proof fn law_windows_are_observed_in_time(
    owner: &mut MediaOwner,
    now_ms: u64,
    due: bool,
)
    requires
        now_ms + 500 <= u64::MAX,
        call_ensures(MediaOwner::observation_due, (owner, now_ms), due),
    ensures
        due <==> old(owner)@.force_observation || now_ms >= old(owner)@.next_observation,
        due ==> final(owner)@.next_observation == now_ms + 500 && !final(owner)@.force_observation,
        !due ==> final(owner)@ == old(owner)@,
        final(owner)@.target == old(owner)@.target && final(owner)@.frame == old(owner)@.frame,
{
}

/// A changed configuration is observed and drawn anew; a requested keyframe stays due until one is
/// submitted; a closed channel ends the owner.
pub proof fn law_commands_are_applied(
    owner: &mut MediaOwner,
    configuration: ConfigurationPoll,
    commands: CommandPoll,
    result: Result<(), MediaError>,
    due: bool,
    submitting: &mut MediaOwner,
    later: bool,
)
    requires
        call_ensures(MediaOwner::apply_commands, (owner, configuration, commands), result),
        call_ensures(MediaOwner::keyframe_due, (final(owner),), due),
        *old(submitting) == *final(owner),
        call_ensures(MediaOwner::submitted, (submitting,), ()),
        call_ensures(MediaOwner::keyframe_due, (final(submitting),), later),
    ensures
        result is Ok <==> !(configuration is Closed) && !commands.closed,
        configuration matches ConfigurationPoll::Changed(snapshot) ==> {
            &&& final(owner)@.generation == snapshot.generation
            &&& final(owner)@.config == snapshot.config@
            &&& final(owner)@.force_observation
            &&& final(owner)@.force_transform
        },
        configuration is Unchanged ==> final(owner)@.config == old(owner)@.config && final(owner)@.force_observation == old(owner)@.force_observation,
        configuration !is Closed ==> (due <==> old(owner)@.force_keyframe
            || commands.keyframe_requested),
        !later,
        final(owner)@.target == old(owner)@.target,
        final(owner)@.frame == old(owner)@.frame,
{
}

/// A frame is submitted only on request and into a free surface, the one free for longest; each
/// request is served once.
pub proof fn law_requested_inputs_are_served(
    owner: &mut MediaOwner,
    serving: &mut MediaOwner,
    event: EncoderEvent,
    result: Result<bool, MediaError>,
    step: MediaStep,
)
    requires
        old(owner)@.pending_inputs < usize::MAX,
        call_ensures(MediaOwner::note_event, (owner, event), result),
        *old(serving) == *final(owner),
        call_ensures(MediaOwner::next_step, (serving,), step),
    ensures
        result == Ok::<bool, MediaError>(event == EncoderEvent::HaveOutput),
        final(owner)@.pending_inputs == old(owner)@.pending_inputs + if event
            == EncoderEvent::NeedInput {
            1int
        } else {
            0
        },
        step is Submit <==> final(owner)@.pending_inputs > 0 && old(owner)@.slots.free.len() > 0,
        step matches MediaStep::Submit { slot } ==> {
            &&& slot == old(owner)@.slots.free[0]
            &&& final(serving)@.pending_inputs == final(owner)@.pending_inputs - 1
            &&& final(serving)@.slots.free == old(owner)@.slots.free.skip(1)
        },
        step is AwaitEvent ==> final(serving)@ == final(owner)@,
{
}

/// Giving up a target clears what it showed and publishes that nothing is captured; a failed
/// session also asks for another observation and a keyframe.
pub proof fn law_lost_targets_leave_nothing_behind(
    owner: &mut MediaOwner,
    result: Result<FrameDraw, MediaError>,
)
    requires
        old(owner)@.frame.is_clear || old(owner)@.frame.revision < u64::MAX,
        call_ensures(MediaOwner::recover_target, (owner,), result),
    ensures
        result is Ok,
        result->Ok_0 == FrameDraw::Nothing <==> old(owner)@.frame.is_clear,
        result->Ok_0 == FrameDraw::Clear <==> !old(owner)@.frame.is_clear,
        final(owner)@.target is None,
        final(owner)@.last_source is None,
        final(owner)@.frame.is_clear,
        final(owner)@.frame.size == old(owner)@.frame.size,
        final(owner)@.status.state == CaptureState::Waiting && final(owner)@.status.target is None,
        final(owner)@.force_observation && final(owner)@.force_keyframe,
        final(owner)@.status.captured == old(owner)@.status.captured,
        final(owner)@.status.encoded == old(owner)@.status.encoded,
{
}

/// A device that is lost ends the owner, on opening a session and on capturing; any other failure
/// is recovered from like a lost target.
pub proof fn law_failures_are_told_apart(
    owner: &mut MediaOwner,
    capturing: &mut MediaOwner,
    recovering: &mut MediaOwner,
    lost: bool,
    results: (Result<FrameDraw, MediaError>, Result<FrameDraw, MediaError>),
    recovered: Result<FrameDraw, MediaError>,
)
    requires
        old(owner)@.frame.is_clear || old(owner)@.frame.revision < u64::MAX,
        old(owner)@.target is Some,
        *old(capturing) == *old(owner),
        *old(recovering) == *old(owner),
        call_ensures(MediaOwner::session_failed, (owner, lost), results.0),
        call_ensures(
            MediaOwner::capture_latest,
            (capturing, CaptureOutcome::Failed { device_lost: lost }),
            results.1,
        ),
        call_ensures(MediaOwner::recover_target, (recovering,), recovered),
    ensures
        lost ==> results.0 == Err::<FrameDraw, _>(MediaError::DeviceLostOnSwitch),
        lost ==> results.1 == Err::<FrameDraw, _>(MediaError::DeviceLostOnCapture),
        !lost ==> results.0 == recovered && final(owner)@ == final(recovering)@,
        !lost ==> results.1 == recovered && final(capturing)@ == final(recovering)@,
{
}

/// A captured frame is counted and drawn, cropped as configured; without a new one the last is
/// drawn again only where the configuration changed since; and without a target nothing is drawn.
pub proof fn law_captured_frames_are_drawn(
    owner: &mut MediaOwner,
    outcome: CaptureOutcome,
    size: Size,
    region: Option<SourceRegion>,
    result: Result<FrameDraw, MediaError>,
)
    requires
        old(owner)@.frame.revision < u64::MAX && old(owner)@.status.captured < u64::MAX,
        outcome == (CaptureOutcome::Frame { size }) || outcome == CaptureOutcome::Empty,
        outcome == CaptureOutcome::Empty ==> old(owner)@.last_source == Some(size),
        call_ensures(
            SourceRegion::clamped,
            (size, old(owner)@.config.source.crop),
            region,
        ),
        call_ensures(MediaOwner::capture_latest, (owner, outcome), result),
    ensures
        ({
            let before = old(owner)@;
            let after = final(owner)@;
            let captured = before.target is Some && outcome != CaptureOutcome::Empty;
            let redrawn = before.target is Some && outcome == CaptureOutcome::Empty
                && before.force_transform;
            &&& result is Ok
            &&& captured || redrawn ==> {
                &&& result->Ok_0 == match region {
                    Some(region) => FrameDraw::Source(region),
                    None => FrameDraw::Clear,
                }
                &&& after.frame.revision == before.frame.revision + 1
                &&& after.frame.is_clear <==> region is None
                &&& after.last_source == Some(size)
                &&& !after.force_transform
            }
            &&& !captured && !redrawn ==> result->Ok_0 == FrameDraw::Nothing && after == before
            &&& after.status.captured == before.status.captured + if captured {
                1int
            } else {
                0
            }
            &&& after.target == before.target
        }),
{
}

/// A switch opens the observation of the selected identity, clears what the old target showed and
/// asks for a keyframe; the new target is captured once its session is open.
pub proof fn law_switches_open_the_selected_window(
    owner: &mut MediaOwner,
    opened: &mut MediaOwner,
    observations: &[ObservedWindow],
    id: ObservationId,
    profile: String,
    action: SelectionAction,
    target: CurrentTarget,
)
    requires
        call_ensures(
            MediaOwner::apply_selection,
            (owner, OwnedDecision::Switch { id, profile }, observations),
            Ok::<_, MediaError>(action),
        ),
        *old(opened) == *final(owner),
        action matches SelectionAction::Open { target: chosen, .. } ==> chosen == target,
        call_ensures(MediaOwner::session_opened, (opened, target), ()),
    ensures
        action is Open,
        ({
            let index = action->Open_index as int;
            &&& 0 <= index < observations@.len()
            &&& observations@[index].id == id
            &&& target.id == id
            &&& target.summary.profile@ == profile@
            &&& target.summary.executable_name@ == observations@[index].executable_name@
            &&& target.summary.title@ == observations@[index].title@
        }),
        final(owner)@.target is None && final(owner)@.frame.is_clear && final(owner)@.force_keyframe,
        final(owner)@.status.state == CaptureState::Switching,
        final(opened)@.target matches Some(current) && current.0 == id,
        final(opened)@.status.state == CaptureState::Capturing,
        final(opened)@.status.target == Some(target.summary@),
{
}

/// Waiting gives up the target and draws nothing of it; keeping changes only what is told of the
/// target.
pub proof fn law_waiting_and_keeping(
    owner: &mut MediaOwner,
    keeping: &mut MediaOwner,
    observations: &[ObservedWindow],
    id: ObservationId,
    profile: String,
    actions: (SelectionAction, SelectionAction),
)
    requires
        old(keeping)@.target is Some,
        call_ensures(
            MediaOwner::apply_selection,
            (owner, OwnedDecision::Wait, observations),
            Ok::<_, MediaError>(actions.0),
        ),
        call_ensures(
            MediaOwner::apply_selection,
            (keeping, OwnedDecision::Keep { id, profile }, observations),
            Ok::<_, MediaError>(actions.1),
        ),
    ensures
        actions.0 matches SelectionAction::Wait { draw } && (draw == FrameDraw::Nothing <==> old(
            owner,
        )@.frame.is_clear),
        final(owner)@.target is None && final(owner)@.frame.is_clear,
        final(owner)@.status.state == CaptureState::Waiting && final(owner)@.status.target is None,
        actions.1 == SelectionAction::Keep,
        final(keeping)@.frame == old(keeping)@.frame,
        final(keeping)@.target is Some && final(keeping)@.target->Some_0.0 == old(
            keeping,
        )@.target->Some_0.0,
        final(keeping)@.target->Some_0.1.profile == profile@,
        final(keeping)@.status.state == CaptureState::Capturing,
        final(keeping)@.status.target == Some(final(keeping)@.target->Some_0.1),
        final(keeping)@.force_keyframe == old(keeping)@.force_keyframe,
{
}

/// Only access units count as encoded.
pub proof fn law_access_units_are_counted(
    owner: &mut MediaOwner,
    event: VideoEvent,
    result: Result<(), MediaError>,
)
    requires
        old(owner)@.status.encoded < u64::MAX,
        call_ensures(MediaOwner::published, (owner, &event), result),
    ensures
        result is Ok,
        final(owner)@.status.encoded == old(owner)@.status.encoded + if event is AccessUnit {
            1int
        } else {
            0
        },
        final(owner)@.status.captured == old(owner)@.status.captured,
        final(owner)@.status.state == old(owner)@.status.state,
{
}

/// An owner starts without a target, clear and waiting, in the size of its output, with windows to
/// observe and a keyframe due.
pub proof fn law_owners_start_waiting(
    configuration: ConfigSnapshot,
    now_ms: u64,
    result: Result<MediaOwner, MediaError>,
)
    requires
        call_ensures(MediaOwner::new, (configuration, now_ms), result),
    ensures
        result is Ok,
        ({
            let owner = result->Ok_0@;
            &&& owner.target is None && owner.frame.is_clear
            &&& owner.frame.size.width == configuration.config@.video.width
            &&& owner.frame.size.height == configuration.config@.video.height
            &&& owner.slots.free.len() == 3 && owner.contents.len() == 3
            &&& owner.force_observation && owner.force_keyframe
            &&& owner.pending_inputs == 0
            &&& owner.status.state == CaptureState::Waiting && owner.status.target is None
            &&& owner.generation == configuration.generation
        }),
{
}

/// A slot that is submitted holds the frame shown: it is converted into unless it does already.
pub proof fn law_submitted_slots_hold_the_frame(
    before: MediaOwner,
    owner: &mut MediaOwner,
    slot: usize,
    due: Result<bool, MediaError>,
    result: Result<(), MediaError>,
    again: Result<bool, MediaError>,
)
    requires
        slot < before@.contents.len(),
        *old(owner) == before,
        call_ensures(MediaOwner::prepare_slot, (&before, slot), due),
        call_ensures(MediaOwner::slot_converted, (owner, slot), result),
        call_ensures(MediaOwner::prepare_slot, (final(owner), slot), again),
    ensures
        due == Ok::<bool, MediaError>(before@.contents[slot as int] != Some(before@.frame.revision)),
        result is Ok,
        again == Ok::<bool, MediaError>(false),
        final(owner)@.frame == before@.frame,
{
}

/// A surface that comes back is free again, behind those that already are; one that is not retained
/// is refused.
pub proof fn law_released_surfaces_are_free_again(
    owner: &mut MediaOwner,
    released: &[usize],
    result: Result<(), MediaError>,
)
    requires
        released@.len() == 1,
        call_ensures(MediaOwner::recycle_surfaces, (owner, released), result),
    ensures
        ({
            let slot = released@[0];
            let before = old(owner)@;
            let after = final(owner)@;
            &&& result is Ok <==> slot < before.slots.in_use.len() && before.slots.in_use[slot as int]
            &&& result is Ok ==> after.slots.free == before.slots.free.push(slot)
                && !after.slots.in_use[slot as int]
            &&& result is Err ==> after.slots == before.slots
            &&& after.target == before.target && after.frame == before.frame
        }),
{
    let slots = old(owner)@.slots;
    assert(released@.drop_last() =~= Seq::empty());
    assert(released@.last() == released@[0]);
    assert(released@.take(1) =~= released@);
    assert(released@.take(0) =~= Seq::empty());
    reveal_with_fuel(recycled, 2);
    if let Err(MediaError::Frame(error)) = result {
        let n = choose|n: int|
            {
                &&& 0 < n <= released@.len()
                &&& #[trigger] recycled(slots, released@.take(n)) == Err::<PoolModel, FrameError>(
                    error,
                )
                &&& recycled(slots, released@.take(n - 1)) matches Ok(kept) && final(owner)@ == (
                MediaModel { slots: kept, ..old(owner)@ })
            };
        assert(n == 1);
    }
}

/// An observation is found by its identity, the first that has it, and is told by its profile, its
/// executable and its title.
pub proof fn law_observations_are_found_by_identity(
    observations: &[ObservedWindow],
    id: ObservationId,
    found: Result<usize, MediaError>,
    observation: ObservedWindow,
    profile: String,
    told: TargetSummary,
    other: int,
)
    requires
        call_ensures(find_observation, (observations, id), found),
        call_ensures(summary, (&observation, profile), told),
        0 <= other < observations@.len(),
    ensures
        found matches Ok(index) ==> index < observations@.len() && observations@[index as int].id
            == id && (other < index ==> observations@[other].id != id),
        found is Err ==> observations@[other].id != id,
        told.profile@ == profile@,
        told.executable_name@ == observation.executable_name@,
        told.title@ == observation.title@,
{
}

/// A decision for an observed identity is carried out, as long as the frame can be cleared where it
/// has to be; one for an identity that was not observed is refused and changes nothing.
pub proof fn law_decisions_are_carried_out(
    owner: &mut MediaOwner,
    waiting: &mut MediaOwner,
    keeping: &mut MediaOwner,
    observations: &[ObservedWindow],
    id: ObservationId,
    profile: String,
    found: Result<usize, MediaError>,
    switched: Result<SelectionAction, MediaError>,
    waited: Result<SelectionAction, MediaError>,
    kept: Result<SelectionAction, MediaError>,
)
    requires
        *old(waiting) == *old(owner) && *old(keeping) == *old(owner),
        old(owner)@.frame.is_clear || old(owner)@.frame.revision < u64::MAX,
        call_ensures(find_observation, (observations, id), found),
        call_ensures(
            MediaOwner::apply_selection,
            (owner, OwnedDecision::Switch { id, profile }, observations),
            switched,
        ),
        call_ensures(
            MediaOwner::apply_selection,
            (waiting, OwnedDecision::Wait, observations),
            waited,
        ),
        call_ensures(
            MediaOwner::apply_selection,
            (keeping, OwnedDecision::Keep { id, profile }, observations),
            kept,
        ),
    ensures
        switched is Ok <==> found is Ok,
        kept is Ok <==> found is Ok,
        waited is Ok,
        found matches Ok(index) ==> switched->Ok_0 is Open && switched->Ok_0->Open_index == index,
        found is Err ==> switched == Err::<SelectionAction, _>(MediaError::UnknownObservation)
            && final(owner)@ == old(owner)@,
        found is Err ==> kept == Err::<SelectionAction, _>(MediaError::UnknownObservation)
            && final(keeping)@ == old(keeping)@,
{
    if let Ok(index) = found {
        assert(is_first_with_id(observations@, id, index as int));
        assert(observations@[index as int].id == id);
        if let Ok(action) = switched {
            let at = action->Open_index as int;
            assert(is_first_with_id(observations@, id, at));
            assert(at == index);
        }
    } else {
        assert(is_absent(observations@, id));
        assert forall|i: int| !is_first_with_id(observations@, id, i) by {
            if 0 <= i < observations@.len() {
                assert(observations@[i].id != id);
            }
        }
    }
}

/// Several surfaces that come back are all free again, in the order in which they came.
pub proof fn law_all_released_surfaces_are_free_again(
    owner: &mut MediaOwner,
    released: &[usize],
    result: Result<(), MediaError>,
)
    requires
        released@.len() == 2,
        released@[0] != released@[1],
        released@[0] < old(owner)@.slots.in_use.len(),
        old(owner)@.slots.in_use[released@[0] as int],
        released@[1] < old(owner)@.slots.in_use.len(),
        old(owner)@.slots.in_use[released@[1] as int],
        call_ensures(MediaOwner::recycle_surfaces, (owner, released), result),
    ensures
        result is Ok,
        final(owner)@.slots.free == old(owner)@.slots.free.push(released@[0]).push(released@[1]),
        !final(owner)@.slots.in_use[released@[0] as int],
        !final(owner)@.slots.in_use[released@[1] as int],
{
    let slots = old(owner)@.slots;
    let one = released@.drop_last();
    assert(one.drop_last() =~= Seq::empty());
    assert(one.last() == released@[0]);
    assert(released@.last() == released@[1]);
    reveal_with_fuel(recycled, 3);
    assert(recycled(slots, one.drop_last()) == Ok::<PoolModel, FrameError>(slots));
    assert(recycled(slots, one) == Ok::<PoolModel, FrameError>(slots.released(released@[0])));
    assert(recycled(slots, released@) is Ok);
    if let Err(MediaError::Frame(error)) = result {
        let n = choose|n: int|
            {
                &&& 0 < n <= released@.len()
                &&& #[trigger] recycled(slots, released@.take(n)) == Err::<PoolModel, FrameError>(
                    error,
                )
                &&& recycled(slots, released@.take(n - 1)) matches Ok(kept) && final(owner)@ == (
                MediaModel { slots: kept, ..old(owner)@ })
            };
        if n == 1 {
            assert(released@.take(1) =~= one);
        } else {
            assert(released@.take(2) =~= released@);
        }
    }
}

/// A target that is given up leaves a clear frame of the same size, one revision on unless it was
/// clear already.
pub proof fn law_cleared_frames_are_one_revision_on(
    waiting: &mut MediaOwner,
    recovering: &mut MediaOwner,
    observations: &[ObservedWindow],
    action: SelectionAction,
    draw: FrameDraw,
)
    requires
        *old(waiting) == *old(recovering),
        call_ensures(
            MediaOwner::apply_selection,
            (waiting, OwnedDecision::Wait, observations),
            Ok::<_, MediaError>(action),
        ),
        call_ensures(MediaOwner::recover_target, (recovering,), Ok::<_, MediaError>(draw)),
    ensures
        final(waiting)@.frame.is_clear,
        final(waiting)@.frame.size == old(waiting)@.frame.size,
        old(waiting)@.frame.is_clear ==> final(waiting)@.frame.revision == old(
            waiting,
        )@.frame.revision,
        !old(waiting)@.frame.is_clear ==> final(waiting)@.frame.revision == old(
            waiting,
        )@.frame.revision + 1,
        final(recovering)@.frame == final(waiting)@.frame,
{
}

} // verus!
