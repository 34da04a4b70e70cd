//! Selector transitions as they are posted to the server.
use vstd::prelude::*;
use crate::patterns;
use crate::text;

verus! {

/// Maximum accepted selector metadata line, in bytes.
pub const MAX_EVENT_BYTES: usize = 65_536;

/// Event emitted by a selector.
#[derive(Debug, Clone, PartialEq, Eq)]
pub enum SelectorEvent {
    /// A complete safety-policy match selected a capture target.
    Selected {
        /// Hexadecimal window handle, kept as text so that it is never truncated.
        hwnd: String,
        /// Current window title.
        title: String,
        /// Executable description, falling back to the title.
        file_description: String,
        /// First matching enabled selector profile.
        profile: String,
    },
    /// Active policy revoked the prior target.
    Cleared,
}

/// Server request body.
#[derive(Debug, Clone, PartialEq, Eq)]
pub struct StreamInfoUpdate {
    /// Whether target-specific computed strings should be present.
    pub active: bool,
    /// Opaque window handle retained for compatibility and server diagnostics.
    pub hwnd: String,
    /// Window title used when no executable description exists.
    pub title: String,
    /// Preferred human-readable capture label.
    pub file_description: String,
    /// Selector profile label used by frontend presentation policy.
    pub mode: Option<String>,
    /// Supervisor-owned stream topology name.
    pub capture_mode: String,
}

impl StreamInfoUpdate {
    /// Whether this clears everything that belongs to a target.
    pub open spec fn clears(&self) -> bool {
        &&& !self.active
        &&& self.hwnd@.len() == 0
        &&& self.title@.len() == 0
        &&& self.file_description@.len() == 0
        &&& self.mode is None
    }

    /// Convert a selector transition without interpreting its safety policy.
    pub fn from_event(event: SelectorEvent, capture_mode: &str) -> (update: StreamInfoUpdate)
        ensures
            update.capture_mode@ == capture_mode@,
            match event {
                SelectorEvent::Selected { hwnd, title, file_description, profile } => {
                    &&& update.active
                    &&& update.hwnd@ == hwnd@
                    &&& update.title@ == title@
                    &&& update.file_description@ == file_description@
                    &&& patterns::optional_string(update.mode) == Some(profile@)
                },
                SelectorEvent::Cleared => update.clears(),
            },
    {
        match event {
            SelectorEvent::Selected { hwnd, title, file_description, profile } => StreamInfoUpdate {
                active: true,
                hwnd,
                title,
                file_description,
                mode: Some(profile),
                capture_mode: capture_mode.to_owned(),
            },
            SelectorEvent::Cleared => StreamInfoUpdate::inactive(capture_mode),
        }
    }

    /// Clear target-specific metadata while retaining the supervisor mode.
    pub fn inactive(capture_mode: &str) -> (update: StreamInfoUpdate)
        ensures
            update.clears(),
            update.capture_mode@ == capture_mode@,
    {
        proof {
            reveal_strlit("");
        }
        StreamInfoUpdate {
            active: false,
            hwnd: "".to_owned(),
            title: "".to_owned(),
            file_description: "".to_owned(),
            mode: None,
            capture_mode: capture_mode.to_owned(),
        }
    }
}

/// Work item tagged with its resource generation for diagnostics.
#[derive(Debug, Clone, PartialEq, Eq)]
pub struct PostTask {
    /// Resource generation active when this transition was observed.
    pub generation: u64,
    /// Complete server update.
    pub update: StreamInfoUpdate,
}

/// Tags one selector transition with its generation.
pub fn post_event(generation: u64, event: SelectorEvent, capture_mode: &str) -> (task: PostTask)
    ensures
        task.generation == generation,
        task.update.capture_mode@ == capture_mode@,
        match event {
            SelectorEvent::Selected { hwnd, title, file_description, profile } => {
                &&& task.update.active
                &&& task.update.hwnd@ == hwnd@
                &&& task.update.title@ == title@
                &&& task.update.file_description@ == file_description@
                &&& patterns::optional_string(task.update.mode) == Some(profile@)
            },
            SelectorEvent::Cleared => task.update.clears(),
        },
{
    PostTask { generation, update: StreamInfoUpdate::from_event(event, capture_mode) }
}

/// Tags an explicit inactive state for startup or generation replacement.
pub fn post_inactive(generation: u64, capture_mode: &str) -> (task: PostTask)
    ensures
        task.generation == generation,
        task.update.clears(),
        task.update.capture_mode@ == capture_mode@,
{
    PostTask { generation, update: StreamInfoUpdate::inactive(capture_mode) }
}

/// Returns what is parsed of a line: the line without white space at its end, or nothing if it
/// is oversized.
pub fn event_line(line: &str) -> (document: Option<String>)
    ensures
        match document {
            Some(document) => vstd::utf8::encode_utf8(line@).len() <= MAX_EVENT_BYTES && document@
                == text::trimmed_end(line@),
            None => vstd::utf8::encode_utf8(line@).len() > MAX_EVENT_BYTES,
        },
{
    let bytes = line.as_bytes();
    if bytes.len() > MAX_EVENT_BYTES {
        return None;
    }
    Some(text::trim_end(line))
}

/// A selected target is posted as it was told, under its generation and topology; a revoked one
/// and an explicit inactive state leave nothing of a target.
pub proof fn law_transitions_are_posted_unchanged(
    generation: u64,
    event: SelectorEvent,
    capture_mode: &str,
    task: PostTask,
    inactive: PostTask,
    update: StreamInfoUpdate,
)
    requires
        call_ensures(post_event, (generation, event, capture_mode), task),
        call_ensures(post_inactive, (generation, capture_mode), inactive),
        call_ensures(StreamInfoUpdate::from_event, (event, capture_mode), update),
    ensures
        task.generation == generation && inactive.generation == generation,
        task.update.capture_mode@ == capture_mode@ && inactive.update.capture_mode@
            == capture_mode@ && update.capture_mode@ == capture_mode@,
        task.update.active <==> event is Selected,
        update.active <==> event is Selected,
        event matches SelectorEvent::Selected { hwnd, title, file_description, profile } ==> {
            &&& task.update.hwnd@ == hwnd@ && update.hwnd@ == hwnd@
            &&& task.update.title@ == title@ && update.title@ == title@
            &&& task.update.file_description@ == file_description@ && update.file_description@
                == file_description@
            &&& task.update.mode is Some && task.update.mode->Some_0@ == profile@
            &&& update.mode is Some && update.mode->Some_0@ == profile@
        },
        event is Cleared ==> task.update.hwnd@.len() == 0 && task.update.title@.len() == 0
            && task.update.file_description@.len() == 0 && task.update.mode is None,
        !inactive.update.active && inactive.update.hwnd@.len() == 0 && inactive.update.title@.len()
            == 0 && inactive.update.file_description@.len() == 0 && inactive.update.mode is None,
{
}

/// A line of up to 65536 bytes is taken without the white space it ends with; a longer one is not.
pub proof fn law_event_lines_are_bounded(line: &str, document: Option<String>, trimmed: String)
    requires
        call_ensures(event_line, (line,), document),
        call_ensures(text::trim_end, (line,), trimmed),
    ensures
        document is Some <==> vstd::utf8::encode_utf8(line@).len() <= 65_536,
        document matches Some(taken) ==> taken@ == trimmed@,
{
}

/// An inactive state tells nothing but the topology.
pub proof fn law_inactive_states_tell_nothing(capture_mode: &str, update: StreamInfoUpdate)
    requires
        call_ensures(StreamInfoUpdate::inactive, (capture_mode,), update),
    ensures
        !update.active && update.hwnd@.len() == 0 && update.title@.len() == 0,
        update.file_description@.len() == 0 && update.mode is None,
        update.capture_mode@ == capture_mode@,
{
}

} // verus!
