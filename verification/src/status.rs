//! Diagnostic status supplied by the native media owner.
use vstd::prelude::*;

verus! {

/// Externally meaningful lifecycle state of a running stream process.
#[derive(Debug, Clone, Copy, PartialEq, Eq, Structural)]
pub enum CaptureState {
    /// No eligible capture target currently exists.
    Waiting,
    /// The media owner is replacing one ordinary target with another.
    Switching,
    /// Frames from the selected target are being captured and encoded.
    Capturing,
}

impl Default for CaptureState {
    fn default() -> (state: CaptureState)
        ensures
            state == CaptureState::Waiting,
    {
        CaptureState::Waiting
    }
}

/// Human-meaningful target facts that deliberately omit native identities.
#[derive(Debug, PartialEq, Eq)]
pub struct TargetSummary {
    /// Selector profile that admitted the current target.
    pub profile: String,
    /// Executable name suitable for operator diagnostics.
    pub executable_name: String,
    /// Current window title.
    pub title: String,
}

/// What a target summary says.
pub struct TargetModel {
    pub profile: Seq<char>,
    pub executable_name: Seq<char>,
    pub title: Seq<char>,
}

impl View for TargetSummary {
    type V = TargetModel;

    open spec fn view(&self) -> TargetModel {
        TargetModel {
            profile: self.profile@,
            executable_name: self.executable_name@,
            title: self.title@,
        }
    }
}

/// What an optional target summary says.
pub open spec fn optional_target(target: Option<TargetSummary>) -> Option<TargetModel> {
    match target {
        Some(target) => Some(target@),
        None => None,
    }
}

impl Clone for TargetSummary {
    fn clone(&self) -> (copy: TargetSummary)
        ensures
            copy@ == self@,
    {
        TargetSummary {
            profile: self.profile.clone(),
            executable_name: self.executable_name.clone(),
            title: self.title.clone(),
        }
    }
}

/// A second optional summary that says the same.
pub fn clone_target(target: &Option<TargetSummary>) -> (copy: Option<TargetSummary>)
    ensures
        optional_target(copy) == optional_target(*target),
{
    match target {
        Some(target) => Some(target.clone()),
        None => None,
    }
}

/// Latest-value status snapshot published by the native media thread.
#[derive(Debug, PartialEq, Eq)]
pub struct MediaStatus {
    /// Current target/capture lifecycle state.
    pub state: CaptureState,
    /// Current target summary, absent while waiting.
    pub target: Option<TargetSummary>,
    /// Total captured frames since process startup.
    pub captured_frames: u64,
    /// Total encoded access units since process startup.
    pub encoded_frames: u64,
}

impl Default for MediaStatus {
    fn default() -> (status: MediaStatus)
        ensures
            status.state == CaptureState::Waiting,
            status.target is None,
            status.captured_frames == 0,
            status.encoded_frames == 0,
    {
        MediaStatus {
            state: CaptureState::Waiting,
            target: None,
            captured_frames: 0,
            encoded_frames: 0,
        }
    }
}

impl MediaStatus {
    /// The profile of the current target.
    pub open spec fn profile(&self) -> Option<Seq<char>> {
        match self.target {
            Some(target) => Some(target.profile@),
            None => None,
        }
    }

    /// Returns the profile of the current target.
    pub fn target_profile(&self) -> (profile: Option<&str>)
        ensures
            crate::config::optional_text(profile) == self.profile(),
    {
        match &self.target {
            Some(target) => Some(target.profile.as_str()),
            None => None,
        }
    }
}

/// A new status waits, without a target and without frames.
pub proof fn law_new_statuses_wait(state: CaptureState, status: MediaStatus)
    requires
        call_ensures(CaptureState::default, (), state),
        call_ensures(MediaStatus::default, (), status),
    ensures
        state == CaptureState::Waiting,
        status.state == CaptureState::Waiting && status.target is None,
        status.captured_frames == 0 && status.encoded_frames == 0,
{
}

/// The profile told of a status is that of its target.
pub proof fn law_profiles_are_those_of_targets(status: MediaStatus, profile: Option<&str>)
    requires
        call_ensures(MediaStatus::target_profile, (&status,), profile),
    ensures
        profile is Some <==> status.target is Some,
        status.target matches Some(target) ==> profile->Some_0@ == target.profile@,
{
}

/// A copied target says the same.
pub proof fn law_copied_targets_say_the_same(
    target: Option<TargetSummary>,
    copy: Option<TargetSummary>,
)
    requires
        call_ensures(clone_target, (&target,), copy),
    ensures
        copy is Some <==> target is Some,
        target matches Some(told) ==> copy->Some_0.profile@ == told.profile@
            && copy->Some_0.executable_name@ == told.executable_name@ && copy->Some_0.title@
            == told.title@,
{
    if let Some(told) = target {
        assert(copy->Some_0@ == told@);
    }
}

} // verus!
