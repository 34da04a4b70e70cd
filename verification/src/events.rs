//! Server events: capture metadata as computed strings, and tagged messages for viewers.
use vstd::prelude::*;
use crate::service::SocketInput;
use crate::strings::{self, StoreModel, StringStore};
use crate::{names, text};

verus! {

/// Human-readable label for the captured window.
pub const CSID_CAPTURE_INFO: &'static str = "$captureInfo";

/// Supervisor-owned capture topology (e.g. `"main"`).
pub const CSID_CAPTURE_MODE: &'static str = "$captureMode";

/// Profile matched by the selected window (e.g. `"code"`, `"game"`).
pub const CSID_LIVE_PROFILE: &'static str = "$liveProfile";

/// Capture metadata posted by a supervisor.
#[derive(Debug, Clone, PartialEq, Eq)]
pub struct StreamInfoBody {
    /// Whether the stream currently has an allowed selected target.
    pub active: bool,
    /// Window handle, received but not used.
    pub hwnd: String,
    /// Window title.
    pub title: String,
    /// Executable description.
    pub file_description: String,
    /// Selector profile label used by frontend color-key selection.
    pub profile: Option<String>,
    /// Supervisor-owned topology name.
    pub capture_mode: String,
}

impl StreamInfoBody {
    /// What the captured window is called: its description, or its title without one.
    pub open spec fn label(self) -> Seq<char> {
        if self.file_description@.len() == 0 {
            self.title@
        } else {
            self.file_description@
        }
    }

    /// The strings after the metadata is taken over.
    pub open spec fn applied(self, store: StoreModel) -> StoreModel {
        let with_mode = store.with_computed("$captureMode"@, self.capture_mode@);
        if self.active {
            let with_info = with_mode.with_computed("$captureInfo"@, self.label());
            match self.profile {
                Some(profile) => with_info.with_computed("$liveProfile"@, profile@),
                None => with_info.without_computed("$liveProfile"@),
            }
        } else {
            with_mode.without_computed("$captureInfo"@).without_computed("$liveProfile"@)
        }
    }
}

/// Takes over capture transition metadata.
pub fn stream_info(store: &mut StringStore, body: StreamInfoBody)
    ensures
        final(store)@ == body.applied(old(store)@),
{
    proof {
        reveal_strlit("$captureInfo");
        reveal_strlit("$captureMode");
        reveal_strlit("$liveProfile");
    }
    store.set_computed(CSID_CAPTURE_MODE, body.capture_mode);
    if body.active {
        let info = if body.file_description.as_str().is_empty() {
            body.title
        } else {
            body.file_description
        };
        store.set_computed(CSID_CAPTURE_INFO, info);
        match body.profile {
            Some(profile) => store.set_computed(CSID_LIVE_PROFILE, profile),
            None => store.clear_computed(CSID_LIVE_PROFILE),
        }
    } else {
        store.clear_computed(CSID_CAPTURE_INFO);
        store.clear_computed(CSID_LIVE_PROFILE);
    }
}

/// The tagged message of a keystroke rate.
pub open spec fn kpm_text(value: Option<i64>) -> Seq<char> {
    match value {
        Some(value) => "{\"type\":\"kpm\",\"kpm\":"@ + text::signed_decimal(value as int) + "}"@,
        None => "{\"type\":\"kpm\",\"kpm\":null}"@,
    }
}

/// Format a keystroke rate as a tagged JSON text frame.
pub fn kpm_message(value: Option<i64>) -> (message: String)
    ensures
        message@ == kpm_text(value),
{
    match value {
        Some(value) => {
            let mut message = "{\"type\":\"kpm\",\"kpm\":".to_owned();
            text::push_signed(&mut message, value);
            text::push_text(&mut message, "}");
            message
        },
        None => "{\"type\":\"kpm\",\"kpm\":null}".to_owned(),
    }
}

/// The tagged message of a snapshot of all strings, which is a JSON object itself.
pub open spec fn strings_text(snapshot: Seq<char>) -> Seq<char> {
    "{\"type\":\"strings\",\"data\":"@ + snapshot + "}"@
}

/// Tag a snapshot of all strings.
pub fn strings_message(snapshot: &str) -> (message: String)
    ensures
        message@ == strings_text(snapshot@),
{
    let mut message = "{\"type\":\"strings\",\"data\":".to_owned();
    text::push_text(&mut message, snapshot);
    text::push_text(&mut message, "}");
    message
}

/// Serialize the current merged strings as a tagged JSON text frame.
pub fn send_strings_snapshot(store: &StringStore) -> (message: String)
    ensures
        strings::json_text(store@.merged()) matches Some(snapshot) && message@ == strings_text(
            snapshot,
        ),
{
    let snapshot = store.snapshot_text();
    strings_message(snapshot.as_str())
}

/// What wakes the handler of an events viewer.
#[derive(Debug, Clone, Copy, PartialEq, Eq, Structural)]
pub enum EventsInput {
    /// The keystroke rate changed, or its source closed.
    Kpm {
        /// Whether the source closed.
        closed: bool,
        /// The current rate.
        value: Option<i64>,
    },
    /// The strings changed, or their source closed.
    Strings {
        /// Whether the source closed.
        closed: bool,
    },
    /// The socket gave something.
    Socket(SocketInput),
}

/// What the handler of an events viewer does next.
#[derive(Debug, Clone, PartialEq, Eq)]
pub enum EventsAction {
    /// It ends.
    Stop,
    /// It waits on.
    Wait,
    /// It sends this text.
    SendText(String),
    /// It sends a snapshot of all strings.
    SendStrings,
}

/// Decides what one wake-up of an events viewer's handler leads to.
pub fn handle_events(input: EventsInput) -> (action: EventsAction)
    ensures
        match input {
            EventsInput::Kpm { closed, value } => match action {
                EventsAction::Stop => closed,
                EventsAction::SendText(message) => !closed && message@ == kpm_text(value),
                _ => false,
            },
            EventsInput::Strings { closed } => action == if closed {
                EventsAction::Stop
            } else {
                EventsAction::SendStrings
            },
            EventsInput::Socket(given) => action == if given == SocketInput::Other {
                EventsAction::Wait
            } else {
                EventsAction::Stop
            },
        },
{
    match input {
        EventsInput::Kpm { closed, value } => if closed {
            EventsAction::Stop
        } else {
            EventsAction::SendText(kpm_message(value))
        },
        EventsInput::Strings { closed } => if closed {
            EventsAction::Stop
        } else {
            EventsAction::SendStrings
        },
        EventsInput::Socket(given) => if given == SocketInput::Other {
            EventsAction::Wait
        } else {
            EventsAction::Stop
        },
    }
}

/// The revision timestamp that a version-control command printed, if it printed one.
pub fn revision_timestamp(printed: &[u8]) -> (timestamp: Option<String>)
    ensures
        match timestamp {
            Some(timestamp) => timestamp@ == text::trimmed(text::utf8_lossy(printed@))
                && timestamp@.len() > 0,
            None => text::trimmed(text::utf8_lossy(printed@)).len() == 0,
        },
{
    let decoded = text::decode_lossy(printed);
    let trimmed = text::trim(decoded.as_str());
    if trimmed.as_str().is_empty() {
        None
    } else {
        Some(trimmed)
    }
}

/// What is posted of a capture is read from the strings: its topology always, its label and its
/// profile while it is active; what an inactive capture had is gone, and no other string changes.
pub proof fn law_capture_metadata_becomes_strings(
    store: &mut StringStore,
    body: StreamInfoBody,
    other: Seq<char>,
)
    requires
        names::ascending(old(store)@.computed),
        call_ensures(stream_info, (store, body), ()),
        other != "$captureMode"@ && other != "$captureInfo"@ && other != "$liveProfile"@,
    ensures
        ({
            let after = final(store)@.computed;
            let info = names::lookup(after, "$captureInfo"@);
            let profile = names::lookup(after, "$liveProfile"@);
            &&& names::lookup(after, "$captureMode"@) == Some(body.capture_mode@)
            &&& body.active && body.file_description@.len() > 0 ==> info == Some(
                body.file_description@,
            )
            &&& body.active && body.file_description@.len() == 0 ==> info == Some(body.title@)
            &&& !body.active ==> info is None && profile is None
            &&& body.active && body.profile is Some ==> profile == Some(body.profile->Some_0@)
            &&& body.active && body.profile is None ==> profile is None
            &&& names::lookup(after, other) == names::lookup(old(store)@.computed, other)
            &&& final(store)@.user == old(store)@.user
        }),
{
    reveal_strlit("$captureMode");
    reveal_strlit("$captureInfo");
    reveal_strlit("$liveProfile");
    let mode = "$captureMode"@;
    let info = "$captureInfo"@;
    let profile = "$liveProfile"@;
    assert(mode[8] != info[8] && mode[1] != profile[1] && info[1] != profile[1]);
    let first = old(store)@.computed;
    let second = names::with_entry(first, mode, body.capture_mode@);
    lemma_change(first, mode, body.capture_mode@, seq![mode, info, profile, other]);
    if body.active {
        let third = names::with_entry(second, info, body.label());
        lemma_change(second, info, body.label(), seq![mode, info, profile, other]);
        let told = match body.profile {
            Some(told) => told@,
            None => Seq::empty(),
        };
        lemma_change(third, profile, told, seq![mode, info, profile, other]);
    } else {
        let third = names::without_entry(second, info);
        lemma_change(second, info, Seq::empty(), seq![mode, info, profile, other]);
        lemma_change(third, profile, Seq::empty(), seq![mode, info, profile, other]);
    }
}

proof fn lemma_change(
    entries: strings::Entries,
    name: Seq<char>,
    value: Seq<char>,
    keys: Seq<Seq<char>>,
)
    requires
        names::ascending(entries),
    ensures
        names::ascending(names::with_entry(entries, name, value)),
        names::ascending(names::without_entry(entries, name)),
        names::lookup(names::with_entry(entries, name, value), name) == Some(value),
        names::lookup(names::without_entry(entries, name), name) is None,
        forall|k: int|
            0 <= k < keys.len() && #[trigger] keys[k] != name ==> names::lookup(
                names::with_entry(entries, name, value),
                keys[k],
            ) == names::lookup(entries, keys[k]) && names::lookup(
                names::without_entry(entries, name),
                keys[k],
            ) == names::lookup(entries, keys[k]),
{
    names::lemma_with_entry_ascending(entries, name, value);
    names::lemma_without_entry_ascending(entries, name);
    names::law_reads_follow_writes(entries, name, value, name);
    assert forall|k: int| 0 <= k < keys.len() && #[trigger] keys[k] != name implies names::lookup(
        names::with_entry(entries, name, value),
        keys[k],
    ) == names::lookup(entries, keys[k]) && names::lookup(
        names::without_entry(entries, name),
        keys[k],
    ) == names::lookup(entries, keys[k]) by {
        names::law_reads_follow_writes(entries, name, value, keys[k]);
    }
}

/// A keystroke rate is told as a number, with a sign where it is negative, or as null.
pub proof fn law_keystroke_rates_are_tagged(
    value: Option<i64>,
    message: String,
    snapshot: &str,
    tagged: String,
)
    requires
        call_ensures(kpm_message, (value,), message),
        call_ensures(strings_message, (snapshot,), tagged),
    ensures
        value is None ==> message@ == "{\"type\":\"kpm\",\"kpm\":null}"@,
        value matches Some(value) ==> (value >= 0 ==> message@ == "{\"type\":\"kpm\",\"kpm\":"@
            + text::decimal(value as nat) + "}"@),
        value matches Some(value) ==> (value < 0 ==> message@ == "{\"type\":\"kpm\",\"kpm\":"@ + (
        seq!['-'] + text::decimal((-value) as nat)) + "}"@),
        tagged@ == "{\"type\":\"strings\",\"data\":"@ + snapshot@ + "}"@,
{
}

/// A viewer is sent what changed, and its handler ends with a closed source or its socket.
pub proof fn law_changes_are_sent(
    input: EventsInput,
    action: EventsAction,
    rate: Option<i64>,
    message: String,
)
    requires
        call_ensures(handle_events, (input,), action),
        call_ensures(kpm_message, (rate,), message),
        input matches EventsInput::Kpm { value, .. } ==> value == rate,
    ensures
        action is Stop <==> match input {
            EventsInput::Kpm { closed, .. } => closed,
            EventsInput::Strings { closed } => closed,
            EventsInput::Socket(given) => given != SocketInput::Other,
        },
        action is SendStrings <==> (input matches EventsInput::Strings { closed } && !closed),
        action is SendText <==> (input matches EventsInput::Kpm { closed, .. } && !closed),
        action matches EventsAction::SendText(text) ==> text@ == message@,
{
}

/// What a command printed is its timestamp without white space around it, if anything is left.
pub proof fn law_printed_timestamps_are_trimmed(printed: &[u8], timestamp: Option<String>)
    requires
        call_ensures(revision_timestamp, (printed,), timestamp),
    ensures
        timestamp is Some <==> text::trimmed(text::utf8_lossy(printed@)).len() > 0,
        timestamp matches Some(taken) ==> taken@ == text::trimmed(text::utf8_lossy(printed@)),
{
}

/// A snapshot is the JSON form of all strings, tagged.
pub proof fn law_snapshots_hold_all_strings(
    store: StringStore,
    message: String,
    snapshot: String,
    slice: &str,
    tagged: String,
)
    requires
        call_ensures(send_strings_snapshot, (&store,), message),
        call_ensures(StringStore::snapshot_text, (&store,), snapshot),
        slice@ == snapshot@,
        call_ensures(strings_message, (slice,), tagged),
    ensures
        message@ == tagged@,
{
}

} // verus!
