//! Decisions of the stdin-to-WebSocket relay: which messages are cached for replay, when a
//! connection is retried, and how dropped messages are counted.
use vstd::prelude::*;
use vstd::slice::slice_to_vec;
use crate::wire::{self, MessageType};
use crate::{bytes, text};

verus! {

/// Delay before the first reconnection attempt.
pub const INITIAL_BACKOFF_MS: u64 = 500;

/// Longest delay between reconnection attempts.
pub const MAX_BACKOFF_MS: u64 = 4000;

/// Which messages a relay keeps for replay.
#[derive(Debug, Clone, Copy, PartialEq, Eq, Structural)]
pub enum RelayMode {
    /// Plain framed forwarding with auto-reconnect.
    Default,
    /// Keeps the last codec parameters and the last keyframe.
    Video,
    /// Keeps the last audio configuration.
    Audio,
}

/// The name by which a mode is chosen.
pub open spec fn mode_name(mode: RelayMode) -> Seq<char> {
    match mode {
        RelayMode::Default => "default"@,
        RelayMode::Video => "video"@,
        RelayMode::Audio => "audio"@,
    }
}

/// Parses a mode name; any other text is refused with a message that quotes it.
pub fn parse_mode(s: &str) -> (result: Result<RelayMode, String>)
    ensures
        match result {
            Ok(mode) => s@ == mode_name(mode),
            Err(message) => {
                &&& forall|mode: RelayMode| #![trigger mode_name(mode)] s@ != mode_name(mode)
                &&& message@ == "unknown mode '"@ + s@
                    + "' (expected 'default', 'video', or 'audio')"@
            },
        },
{
    if text::same_text(s, "default") {
        Ok(RelayMode::Default)
    } else if text::same_text(s, "video") {
        Ok(RelayMode::Video)
    } else if text::same_text(s, "audio") {
        Ok(RelayMode::Audio)
    } else {
        let mut message = "unknown mode '".to_owned();
        text::push_text(&mut message, s);
        text::push_text(&mut message, "' (expected 'default', 'video', or 'audio')");
        Err(message)
    }
}

/// Whether a raw message carries codec parameters.
pub open spec fn is_codec_params(raw: Seq<u8>) -> bool {
    raw.len() >= 8 && raw[0] == MessageType::CodecParams.byte()
}

/// Whether a raw message carries a keyframe.
pub open spec fn is_keyframe(raw: Seq<u8>) -> bool {
    raw.len() >= 8 && raw[0] == MessageType::Frame.byte() && raw[1] & wire::flags::IS_KEYFRAME != 0
}

/// Whether a raw message carries an audio configuration.
pub open spec fn is_audio_config(raw: Seq<u8>) -> bool {
    raw.len() >= 8 && raw[0] == MessageType::AudioConfig.byte()
}

/// Updates the video-mode caches from an incoming raw message.
pub fn update_video_cache(
    raw: &[u8],
    cached_codec_params: &mut Option<Vec<u8>>,
    cached_keyframe: &mut Option<Vec<u8>>,
)
    ensures
        bytes::optional_bytes(*final(cached_codec_params)) == if is_codec_params(raw@) {
            Some(raw@)
        } else {
            bytes::optional_bytes(*old(cached_codec_params))
        },
        bytes::optional_bytes(*final(cached_keyframe)) == if is_keyframe(raw@) {
            Some(raw@)
        } else {
            bytes::optional_bytes(*old(cached_keyframe))
        },
{
    if raw.len() < wire::HEADER_SIZE {
        return ;
    }
    if raw[0] == MessageType::CodecParams.to_byte() {
        *cached_codec_params = Some(slice_to_vec(raw));
    } else if raw[0] == MessageType::Frame.to_byte() && (raw[1] & wire::flags::IS_KEYFRAME) != 0 {
        *cached_keyframe = Some(slice_to_vec(raw));
    }
}

/// Updates the audio-mode cache from an incoming raw message.
pub fn update_audio_cache(raw: &[u8], cached_audio_config: &mut Option<Vec<u8>>)
    ensures
        bytes::optional_bytes(*final(cached_audio_config)) == if is_audio_config(raw@) {
            Some(raw@)
        } else {
            bytes::optional_bytes(*old(cached_audio_config))
        },
{
    if raw.len() < wire::HEADER_SIZE {
        return ;
    }
    if raw[0] == MessageType::AudioConfig.to_byte() {
        *cached_audio_config = Some(slice_to_vec(raw));
    }
}

/// What a relay remembers.
pub struct RelayModel {
    pub mode: RelayMode,
    pub backoff_ms: u64,
    pub codec_params: Option<Seq<u8>>,
    pub keyframe: Option<Seq<u8>>,
    pub audio_config: Option<Seq<u8>>,
}

/// Zero or one message.
pub open spec fn optional_message(message: Option<Seq<u8>>) -> Seq<Seq<u8>> {
    match message {
        Some(raw) => seq![raw],
        None => Seq::empty(),
    }
}

/// The delay that follows `backoff_ms`.
pub open spec fn doubled(backoff_ms: u64) -> u64 {
    if 2 * backoff_ms > MAX_BACKOFF_MS {
        MAX_BACKOFF_MS
    } else {
        (2 * backoff_ms) as u64
    }
}

impl RelayModel {
    /// A relay that has neither connected nor seen a message.
    pub open spec fn initial(mode: RelayMode) -> RelayModel {
        RelayModel {
            mode,
            backoff_ms: INITIAL_BACKOFF_MS,
            codec_params: None,
            keyframe: None,
            audio_config: None,
        }
    }

    /// The state after one more message was handed to the relay.
    pub open spec fn observing(self, raw: Seq<u8>) -> RelayModel {
        RelayModel {
            codec_params: if self.mode == RelayMode::Video && is_codec_params(raw) {
                Some(raw)
            } else {
                self.codec_params
            },
            keyframe: if self.mode == RelayMode::Video && is_keyframe(raw) {
                Some(raw)
            } else {
                self.keyframe
            },
            audio_config: if self.mode == RelayMode::Audio && is_audio_config(raw) {
                Some(raw)
            } else {
                self.audio_config
            },
            ..self
        }
    }

    /// The messages sent first on a new connection.
    pub open spec fn replayed(self) -> Seq<Seq<u8>> {
        match self.mode {
            RelayMode::Video => optional_message(self.codec_params) + optional_message(
                self.keyframe,
            ),
            RelayMode::Audio => optional_message(self.audio_config),
            RelayMode::Default => Seq::empty(),
        }
    }
}

/// The bytes of each message.
pub open spec fn message_bytes(messages: Seq<Vec<u8>>) -> Seq<Seq<u8>> {
    Seq::new(messages.len(), |i: int| messages[i]@)
}

/// The delay before the next connection attempt.
pub struct RetryDelay {
    backoff_ms: u64,
}

impl View for RetryDelay {
    type V = u64;

    closed spec fn view(&self) -> u64 {
        self.backoff_ms
    }
}

impl RetryDelay {
    #[verifier::type_invariant]
    spec fn well_formed(&self) -> bool {
        INITIAL_BACKOFF_MS <= self.backoff_ms <= MAX_BACKOFF_MS
    }

    /// The delay before the first attempt after a connection.
    pub fn new() -> (delay: RetryDelay)
        ensures
            delay@ == INITIAL_BACKOFF_MS,
    {
        RetryDelay { backoff_ms: INITIAL_BACKOFF_MS }
    }

    /// Returns the delay to wait now and doubles the one that follows, up to the cap.
    pub fn advance(&mut self) -> (delay_ms: u64)
        ensures
            delay_ms == old(self)@,
            INITIAL_BACKOFF_MS <= delay_ms <= MAX_BACKOFF_MS,
            final(self)@ == doubled(old(self)@),
    {
        proof {
            use_type_invariant(&*self);
        }
        let delay_ms: u64 = self.backoff_ms;
        let next: u64 = delay_ms * 2;
        self.backoff_ms = if next > MAX_BACKOFF_MS {
            MAX_BACKOFF_MS
        } else {
            next
        };
        delay_ms
    }
}

/// Connection state of one relay.
pub struct Relay {
    mode: RelayMode,
    backoff: RetryDelay,
    codec_params: Option<Vec<u8>>,
    keyframe: Option<Vec<u8>>,
    audio_config: Option<Vec<u8>>,
}

impl View for Relay {
    type V = RelayModel;

    closed spec fn view(&self) -> RelayModel {
        RelayModel {
            mode: self.mode,
            backoff_ms: self.backoff@,
            codec_params: bytes::optional_bytes(self.codec_params),
            keyframe: bytes::optional_bytes(self.keyframe),
            audio_config: bytes::optional_bytes(self.audio_config),
        }
    }
}

fn push_cached(messages: &mut Vec<Vec<u8>>, cached: &Option<Vec<u8>>)
    ensures
        message_bytes(final(messages)@) == message_bytes(old(messages)@) + optional_message(
            bytes::optional_bytes(*cached),
        ),
{
    match cached {
        Some(raw) => {
            messages.push(slice_to_vec(raw.as_slice()));
            assert(message_bytes(messages@) =~= message_bytes(old(messages)@) + optional_message(
                bytes::optional_bytes(*cached),
            ));
        },
        None => {
            assert(message_bytes(messages@) =~= message_bytes(old(messages)@) + optional_message(
                bytes::optional_bytes(*cached),
            ));
        },
    }
}

impl Relay {
    /// A relay that has neither connected nor seen a message.
    pub fn new(mode: RelayMode) -> (relay: Relay)
        ensures
            relay@ == RelayModel::initial(mode),
    {
        Relay {
            mode,
            backoff: RetryDelay::new(),
            codec_params: None,
            keyframe: None,
            audio_config: None,
        }
    }

    /// A connection was made: the next failure waits the initial delay again. Returns what is
    /// replayed before forwarding resumes, codec parameters before the keyframe.
    pub fn connected(&mut self) -> (messages: Vec<Vec<u8>>)
        ensures
            final(self)@ == (RelayModel { backoff_ms: INITIAL_BACKOFF_MS, ..old(self)@ }),
            message_bytes(messages@) == old(self)@.replayed(),
    {
        self.backoff = RetryDelay::new();
        let mut messages: Vec<Vec<u8>> = Vec::new();
        assert(message_bytes(messages@) =~= Seq::empty());
        match self.mode {
            RelayMode::Video => {
                push_cached(&mut messages, &self.codec_params);
                push_cached(&mut messages, &self.keyframe);
                assert(message_bytes(messages@) =~= old(self)@.replayed());
            },
            RelayMode::Audio => {
                push_cached(&mut messages, &self.audio_config);
                assert(message_bytes(messages@) =~= old(self)@.replayed());
            },
            RelayMode::Default => {},
        }
        messages
    }

    /// A connection failed or was lost. Returns how long to wait before the next attempt.
    pub fn retry_delay(&mut self) -> (delay_ms: u64)
        ensures
            delay_ms == old(self)@.backoff_ms,
            INITIAL_BACKOFF_MS <= delay_ms <= MAX_BACKOFF_MS,
            final(self)@ == (RelayModel { backoff_ms: doubled(old(self)@.backoff_ms), ..old(self)@ }),
    {
        self.backoff.advance()
    }

    /// Notes a message that is about to be forwarded.
    pub fn observe(&mut self, raw: &[u8])
        ensures
            final(self)@ == old(self)@.observing(raw@),
    {
        match self.mode {
            RelayMode::Video => {
                let mut codec_params = self.codec_params.take();
                let mut keyframe = self.keyframe.take();
                update_video_cache(raw, &mut codec_params, &mut keyframe);
                self.codec_params = codec_params;
                self.keyframe = keyframe;
            },
            RelayMode::Audio => {
                let mut audio_config = self.audio_config.take();
                update_audio_cache(raw, &mut audio_config);
                self.audio_config = audio_config;
            },
            RelayMode::Default => {},
        }
    }
}

/// What happened to a relay's connection or to its input.
#[derive(Debug, Clone, PartialEq, Eq)]
pub enum RelayEvent {
    /// A connection was made.
    Connected,
    /// A connection could not be made.
    ConnectFailed,
    /// The replayed messages were sent.
    Replayed,
    /// A replayed message could not be sent.
    ReplayFailed,
    /// The producer gave a message.
    Message(Vec<u8>),
    /// The message was sent.
    Sent,
    /// The message could not be sent.
    SendFailed,
    /// The delay is over.
    Waited,
    /// The producer is gone.
    ProducerGone,
}

/// What a relay does next.
#[derive(Debug, Clone, PartialEq, Eq)]
pub enum RelayAction {
    /// It connects.
    Connect,
    /// It sends these messages, in order.
    Replay(Vec<Vec<u8>>),
    /// It waits for a message of the producer.
    Receive,
    /// It forwards this message.
    Send(Vec<u8>),
    /// It waits before it connects again.
    Wait {
        /// How long it waits.
        delay_ms: u64,
        /// Whether the messages that queued up meanwhile are thrown away first.
        discard_queued: bool,
    },
    /// It ends.
    Finish,
}

impl RelayModel {
    /// The state after an event.
    pub open spec fn after(self, event: RelayEvent) -> RelayModel {
        match event {
            RelayEvent::Connected => RelayModel { backoff_ms: INITIAL_BACKOFF_MS, ..self },
            RelayEvent::ConnectFailed => RelayModel {
                backoff_ms: doubled(self.backoff_ms),
                ..self
            },
            RelayEvent::SendFailed => RelayModel { backoff_ms: doubled(self.backoff_ms), ..self },
            RelayEvent::Message(raw) => self.observing(raw@),
            _ => self,
        }
    }

    /// Whether an action is what follows an event.
    pub open spec fn follows(self, event: RelayEvent, action: RelayAction) -> bool {
        match event {
            RelayEvent::Connected => action matches RelayAction::Replay(messages) && message_bytes(
                messages@,
            ) == self.replayed(),
            RelayEvent::ConnectFailed => action == (RelayAction::Wait {
                delay_ms: self.backoff_ms,
                discard_queued: false,
            }),
            RelayEvent::Replayed => action == RelayAction::Receive,
            RelayEvent::ReplayFailed => action == RelayAction::Connect,
            RelayEvent::Message(raw) => action == RelayAction::Send(raw),
            RelayEvent::Sent => action == RelayAction::Receive,
            RelayEvent::SendFailed => action == (RelayAction::Wait {
                delay_ms: self.backoff_ms,
                discard_queued: true,
            }),
            RelayEvent::Waited => action == RelayAction::Connect,
            RelayEvent::ProducerGone => action == RelayAction::Finish,
        }
    }
}

impl Relay {
    /// Decides what follows an event: reconnection with growing delays, replay of what a new
    /// connection needs first, and forwarding.
    pub fn ws_writer(&mut self, event: RelayEvent) -> (action: RelayAction)
        ensures
            final(self)@ == old(self)@.after(event),
            old(self)@.follows(event, action),
    {
        match event {
            RelayEvent::Connected => RelayAction::Replay(self.connected()),
            RelayEvent::ConnectFailed => RelayAction::Wait {
                delay_ms: self.retry_delay(),
                discard_queued: false,
            },
            RelayEvent::Replayed => RelayAction::Receive,
            RelayEvent::ReplayFailed => RelayAction::Connect,
            RelayEvent::Message(raw) => {
                self.observe(raw.as_slice());
                RelayAction::Send(raw)
            },
            RelayEvent::Sent => RelayAction::Receive,
            RelayEvent::SendFailed => RelayAction::Wait {
                delay_ms: self.retry_delay(),
                discard_queued: true,
            },
            RelayEvent::Waited => RelayAction::Connect,
            RelayEvent::ProducerGone => RelayAction::Finish,
        }
    }
}

/// What happened to one message handed to the channel.
#[derive(Debug, Clone, Copy, PartialEq, Eq, Structural)]
pub enum DropReport {
    /// Nothing to report.
    Quiet,
    /// The first of a run of drops.
    Started,
    /// A message went through after this many were dropped.
    Recovered(u64),
}

/// Counts consecutive messages that the channel did not take.
pub struct DropCounter {
    dropped: u64,
}

impl View for DropCounter {
    type V = u64;

    closed spec fn view(&self) -> u64 {
        self.dropped
    }
}

impl DropCounter {
    /// No message dropped yet.
    pub fn new() -> (counter: DropCounter)
        ensures
            counter@ == 0,
    {
        DropCounter { dropped: 0 }
    }

    /// Counts one message and says what to report: the first drop of a run when it happens,
    /// the length of the run when a message goes through again.
    pub fn record(&mut self, sent: bool) -> (report: DropReport)
        requires
            !sent ==> old(self)@ < u64::MAX,
        ensures
            final(self)@ == if sent {
                0
            } else {
                (old(self)@ + 1) as u64
            },
            report == if !sent {
                if old(self)@ == 0 {
                    DropReport::Started
                } else {
                    DropReport::Quiet
                }
            } else if old(self)@ > 0 {
                DropReport::Recovered(old(self)@)
            } else {
                DropReport::Quiet
            },
    {
        let before: u64 = self.dropped;
        if !sent {
            self.dropped = before + 1;
            if before == 0 {
                DropReport::Started
            } else {
                DropReport::Quiet
            }
        } else {
            self.dropped = 0;
            if before > 0 {
                DropReport::Recovered(before)
            } else {
                DropReport::Quiet
            }
        }
    }
}

/// The state of a relay after a run of messages.
pub open spec fn observed_all(state: RelayModel, messages: Seq<Seq<u8>>) -> RelayModel
    decreases messages.len(),
{
    if messages.len() == 0 {
        state
    } else {
        observed_all(state, messages.drop_last()).observing(messages.last())
    }
}

/// The last message that satisfies a condition.
pub open spec fn last_such(messages: Seq<Seq<u8>>, condition: spec_fn(Seq<u8>) -> bool) -> Option<
    Seq<u8>,
>
    decreases messages.len(),
{
    if messages.len() == 0 {
        None
    } else if condition(messages.last()) {
        Some(messages.last())
    } else {
        last_such(messages.drop_last(), condition)
    }
}

/// On reconnection a video relay replays the last codec parameters and then the last keyframe
/// it saw, an audio relay the last audio configuration, and a plain relay nothing.
pub proof fn law_replay_is_the_latest_state(mode: RelayMode, messages: Seq<Seq<u8>>)
    ensures
        observed_all(RelayModel::initial(mode), messages).replayed() == match mode {
            RelayMode::Video => optional_message(
                last_such(messages, |raw: Seq<u8>| is_codec_params(raw)),
            ) + optional_message(last_such(messages, |raw: Seq<u8>| is_keyframe(raw))),
            RelayMode::Audio => optional_message(
                last_such(messages, |raw: Seq<u8>| is_audio_config(raw)),
            ),
            RelayMode::Default => Seq::empty(),
        },
{
    lemma_caches(mode, messages);
}

proof fn lemma_caches(mode: RelayMode, messages: Seq<Seq<u8>>)
    ensures
        observed_all(RelayModel::initial(mode), messages).mode == mode,
        mode == RelayMode::Video ==> observed_all(RelayModel::initial(mode), messages).codec_params
            == last_such(messages, |raw: Seq<u8>| is_codec_params(raw)),
        mode == RelayMode::Video ==> observed_all(RelayModel::initial(mode), messages).keyframe
            == last_such(messages, |raw: Seq<u8>| is_keyframe(raw)),
        mode == RelayMode::Audio ==> observed_all(RelayModel::initial(mode), messages).audio_config
            == last_such(messages, |raw: Seq<u8>| is_audio_config(raw)),
    decreases messages.len(),
{
    if messages.len() > 0 {
        lemma_caches(mode, messages.drop_last());
    }
}

/// Delays between failed attempts double from the initial delay and stay at the longest one.
pub proof fn law_delays_double_up_to_the_cap(backoff_ms: u64)
    requires
        INITIAL_BACKOFF_MS <= backoff_ms <= MAX_BACKOFF_MS,
    ensures
        INITIAL_BACKOFF_MS <= doubled(backoff_ms) <= MAX_BACKOFF_MS,
        doubled(backoff_ms) == 2 * backoff_ms || doubled(backoff_ms) == MAX_BACKOFF_MS,
        doubled(doubled(doubled(backoff_ms))) == MAX_BACKOFF_MS,
{
}

/// A mode is chosen by exactly its name.
pub proof fn law_modes_are_chosen_by_name(s: &str, result: Result<RelayMode, String>)
    requires
        call_ensures(parse_mode, (s,), result),
    ensures
        s@ == "default"@ <==> result == Ok::<_, String>(RelayMode::Default),
        s@ == "video"@ <==> result == Ok::<_, String>(RelayMode::Video),
        s@ == "audio"@ <==> result == Ok::<_, String>(RelayMode::Audio),
        result is Err ==> s@ != "default"@ && s@ != "video"@ && s@ != "audio"@,
{
    reveal_strlit("default");
    reveal_strlit("video");
    reveal_strlit("audio");
    assert("video"@[0] != "audio"@[0]);
    assert(mode_name(RelayMode::Default) == "default"@);
    assert(mode_name(RelayMode::Video) == "video"@);
    assert(mode_name(RelayMode::Audio) == "audio"@);
}

/// A video relay keeps codec parameters, which have type one, and frames of type two whose lowest
/// flag is set; an audio relay keeps type 0x11; nothing else is kept, nor without a whole header.
pub proof fn law_messages_are_kept_by_type(relay: &mut Relay, raw: &[u8])
    requires
        call_ensures(Relay::observe, (relay, raw), ()),
    ensures
        ({
            let before = old(relay)@;
            let after = final(relay)@;
            let whole = raw@.len() >= 8;
            let parameters = before.mode == RelayMode::Video && whole && raw@[0] == 0x01;
            let keyframe = before.mode == RelayMode::Video && whole && raw@[0] == 0x02 && raw@[1]
                % 2 == 1;
            let audio = before.mode == RelayMode::Audio && whole && raw@[0] == 0x11;
            &&& parameters ==> after.codec_params == Some(raw@)
            &&& !parameters ==> after.codec_params == before.codec_params
            &&& keyframe ==> after.keyframe == Some(raw@)
            &&& !keyframe ==> after.keyframe == before.keyframe
            &&& audio ==> after.audio_config == Some(raw@)
            &&& !audio ==> after.audio_config == before.audio_config
            &&& after.mode == before.mode
            &&& after.backoff_ms == before.backoff_ms
        }),
{
    let flags = raw@[1];
    assert((flags & 1 != 0) == (flags % 2 == 1)) by (bit_vector);
}

/// The caches of single functions follow the same types.
pub proof fn law_caches_follow_types(
    raw: &[u8],
    codec_params: &mut Option<Vec<u8>>,
    keyframe: &mut Option<Vec<u8>>,
    audio_config: &mut Option<Vec<u8>>,
)
    requires
        call_ensures(update_video_cache, (raw, codec_params, keyframe), ()),
        call_ensures(update_audio_cache, (raw, audio_config), ()),
    ensures
        raw@.len() >= 8 && raw@[0] == 0x01 ==> bytes::optional_bytes(
            *final(codec_params),
        ) == Some(raw@),
        raw@.len() >= 8 && raw@[0] == 0x02 && raw@[1] % 2 == 1 ==> bytes::optional_bytes(
            *final(keyframe),
        ) == Some(raw@),
        raw@.len() >= 8 && raw@[0] == 0x11 ==> bytes::optional_bytes(
            *final(audio_config),
        ) == Some(raw@),
        raw@.len() < 8 || raw@[0] != 0x01 ==> bytes::optional_bytes(*final(codec_params))
            == bytes::optional_bytes(*old(codec_params)),
        raw@.len() < 8 || raw@[0] != 0x02 || raw@[1] % 2 == 0 ==> bytes::optional_bytes(
            *final(keyframe),
        ) == bytes::optional_bytes(*old(keyframe)),
        raw@.len() < 8 || raw@[0] != 0x11 ==> bytes::optional_bytes(*final(audio_config))
            == bytes::optional_bytes(*old(audio_config)),
{
    let flags = raw@[1];
    assert((flags & 1 != 0) == (flags % 2 == 1)) by (bit_vector);
}

/// A new connection is sent first what its relay keeps, codec parameters in front of the keyframe,
/// and waits half a second again after its next failure.
pub proof fn law_connections_are_sent_what_is_kept(relay: &mut Relay, messages: Vec<Vec<u8>>)
    requires
        call_ensures(Relay::connected, (relay,), messages),
    ensures
        ({
            let before = old(relay)@;
            let video = before.mode == RelayMode::Video;
            let first: int = if video && before.codec_params is Some {
                1
            } else {
                0
            };
            let second: int = if video && before.keyframe is Some {
                1
            } else {
                0
            };
            &&& video ==> messages@.len() == first + second
            &&& first == 1 ==> messages@[0]@ == before.codec_params->Some_0
            &&& second == 1 ==> messages@[first]@ == before.keyframe->Some_0
            &&& before.mode == RelayMode::Default ==> messages@.len() == 0
            &&& before.mode == RelayMode::Audio && before.audio_config is None ==> messages@.len() == 0
            &&& before.mode == RelayMode::Audio && before.audio_config is Some ==> messages@.len()
                == 1 && messages@[0]@ == before.audio_config->Some_0
            &&& final(relay)@.backoff_ms == 500
            &&& final(relay)@.codec_params == before.codec_params
            &&& final(relay)@.keyframe == before.keyframe
            &&& final(relay)@.audio_config == before.audio_config
        }),
{
    let listed = message_bytes(messages@);
    assert(listed.len() == messages@.len());
    assert(forall|i: int| 0 <= i < messages@.len() ==> #[trigger] messages@[i]@ == listed[i]);
}

/// The first failure waits half a second, each further one twice as long, and none longer than four
/// seconds.
pub proof fn law_failures_wait_longer(
    mode: RelayMode,
    relay: Relay,
    first: &mut Relay,
    second: &mut Relay,
    any: &mut Relay,
    following: &mut Relay,
    delays: (u64, u64),
    later: (u64, u64),
)
    requires
        call_ensures(Relay::new, (mode,), relay),
        *old(first) == relay,
        call_ensures(Relay::retry_delay, (first,), delays.0),
        *old(second) == *final(first),
        call_ensures(Relay::retry_delay, (second,), delays.1),
        call_ensures(Relay::retry_delay, (any,), later.0),
        *old(following) == *final(any),
        call_ensures(Relay::retry_delay, (following,), later.1),
    ensures
        delays.0 == 500,
        delays.1 == 1000,
        later.1 == if later.0 * 2 >= 4000 {
            4000int
        } else {
            later.0 * 2
        },
        relay@.mode == mode && relay@.codec_params is None && relay@.keyframe is None
            && relay@.audio_config is None,
{
}

/// Messages are forwarded unchanged as they come; a failure waits and connects again, and throws
/// away what queued up where a message was lost; only the end of the producer ends the relay.
pub proof fn law_relays_forward_and_reconnect(
    relay: &mut Relay,
    connecting: &mut Relay,
    event: RelayEvent,
    action: RelayAction,
    kept: Vec<Vec<u8>>,
    waiting: &mut Relay,
    delay: u64,
)
    requires
        *old(connecting) == *old(relay),
        *old(waiting) == *old(relay),
        call_ensures(Relay::ws_writer, (relay, event), action),
        call_ensures(Relay::connected, (connecting,), kept),
        call_ensures(Relay::retry_delay, (waiting,), delay),
    ensures
        event matches RelayEvent::Message(raw) ==> action == RelayAction::Send(raw),
        event == RelayEvent::Connected ==> (action matches RelayAction::Replay(messages)
            && message_bytes(messages@) == message_bytes(kept@) && final(relay)@
            == final(connecting)@),
        event == RelayEvent::ConnectFailed ==> action == (RelayAction::Wait {
            delay_ms: delay,
            discard_queued: false,
        }) && final(relay)@ == final(waiting)@,
        event == RelayEvent::SendFailed ==> action == (RelayAction::Wait {
            delay_ms: delay,
            discard_queued: true,
        }) && final(relay)@ == final(waiting)@,
        event == RelayEvent::Replayed || event == RelayEvent::Sent ==> action
            == RelayAction::Receive,
        event == RelayEvent::ReplayFailed || event == RelayEvent::Waited ==> action
            == RelayAction::Connect,
        event == RelayEvent::ProducerGone <==> action == RelayAction::Finish,
        event == RelayEvent::Replayed || event == RelayEvent::ReplayFailed || event
            == RelayEvent::Sent || event == RelayEvent::Waited || event == RelayEvent::ProducerGone
            ==> final(relay)@ == old(relay)@,
{
}

/// A message that is forwarded is also kept as it would be without forwarding.
pub proof fn law_forwarded_messages_are_kept(
    relay: &mut Relay,
    observing: &mut Relay,
    raw: Vec<u8>,
    slice: &[u8],
    action: RelayAction,
)
    requires
        slice@ == raw@,
        *old(observing) == *old(relay),
        call_ensures(Relay::ws_writer, (relay, RelayEvent::Message(raw)), action),
        call_ensures(Relay::observe, (observing, slice), ()),
    ensures
        final(relay)@ == final(observing)@,
{
}

/// A run of drops is reported when it begins and when it is over, then with its length.
pub proof fn law_runs_of_drops_are_reported(
    counter: DropCounter,
    first: &mut DropCounter,
    second: &mut DropCounter,
    third: &mut DropCounter,
    fourth: &mut DropCounter,
    reports: (DropReport, DropReport, DropReport, DropReport),
)
    requires
        call_ensures(DropCounter::new, (), counter),
        *old(first) == counter,
        call_ensures(DropCounter::record, (first, false), reports.0),
        *old(second) == *final(first),
        call_ensures(DropCounter::record, (second, false), reports.1),
        *old(third) == *final(second),
        call_ensures(DropCounter::record, (third, true), reports.2),
        *old(fourth) == *final(third),
        call_ensures(DropCounter::record, (fourth, true), reports.3),
    ensures
        reports.0 == DropReport::Started,
        reports.1 == DropReport::Quiet,
        reports.2 == DropReport::Recovered(2),
        reports.3 == DropReport::Quiet,
{
}

/// A drop adds one to the run, and a message that goes through ends it.
pub proof fn law_drops_are_counted(counter: &mut DropCounter, sent: bool, report: DropReport)
    requires
        old(counter)@ < 0xFFFF_FFFF_FFFF_FFFF,
        call_ensures(DropCounter::record, (counter, sent), report),
    ensures
        sent ==> final(counter)@ == 0,
        !sent ==> final(counter)@ == old(counter)@ + 1,
        sent && old(counter)@ > 0 ==> report == DropReport::Recovered(old(counter)@),
        !sent && old(counter)@ > 0 ==> report == DropReport::Quiet,
{
}

} // verus!
