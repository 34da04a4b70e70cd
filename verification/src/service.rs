//! Decisions of one instance service: configuration replacement, viewer gating, and responses.
use vstd::prelude::*;
use crate::config::{self, ConfigError, ConfigSnapshot, InstanceConfig, RenderConfig, RenderModel,
    ValidatedInstanceConfig, ValidationIssue};
use crate::status::{self, CaptureState, MediaStatus, TargetSummary};
use crate::video::{CodecConfiguration, CodecModel, EventModel, VideoEvent};
use crate::{avcc, text};

verus! {

/// Capacities for every queued communication boundary of one instance.
#[derive(Debug, Clone, Copy, PartialEq, Eq, Structural)]
pub struct ChannelCapacities {
    /// Rare commands from viewer handling to the media owner.
    pub media_commands: usize,
    /// Encoded events applying backpressure between media and async domains.
    pub encoded_output: usize,
    /// Per-viewer broadcast history before a lagging viewer is disconnected.
    pub video_fanout: usize,
}

impl Default for ChannelCapacities {
    fn default() -> (capacities: ChannelCapacities)
        ensures
            capacities == (ChannelCapacities {
                media_commands: 8,
                encoded_output: 8,
                video_fanout: 32,
            }),
    {
        ChannelCapacities { media_commands: 8, encoded_output: 8, video_fanout: 32 }
    }
}

/// Rare request delivered from the service domain to the media owner.
#[derive(Debug, Clone, Copy, PartialEq, Eq, Structural)]
pub enum MediaCommand {
    /// Force the next independently decodable H.264 IDR access unit.
    RequestKeyframe,
}

/// Terminal result sent once when the native media owner exits.
#[derive(Debug, Clone, PartialEq, Eq)]
pub enum MediaCompletion {
    /// The media owner completed without a fatal failure.
    Clean,
    /// A foundational media invariant failed and the process should exit.
    Fatal {
        /// Complete operator-facing failure diagnostic.
        message: String,
    },
}

impl MediaCompletion {
    /// The result of the process: a clean exit, or the diagnostic of a fatal one.
    pub fn into_result(self) -> (result: Result<(), String>)
        ensures
            match self {
                MediaCompletion::Clean => result is Ok,
                MediaCompletion::Fatal { message } => result == Err::<(), String>(message),
            },
    {
        match self {
            MediaCompletion::Clean => Ok(()),
            MediaCompletion::Fatal { message } => Err(message),
        }
    }
}

/// Failures constructing or starting the instance service.
#[derive(Debug, Clone, Copy, PartialEq, Eq)]
pub enum ServiceError {
    /// A bounded channel was configured with no usable slots.
    ZeroChannelCapacity {
        /// Invalid capacity field name.
        name: &'static str,
    },
    /// Router startup requires an active async runtime for the dispatcher.
    MissingTokioRuntime,
    /// The encoded-output receiver was already transferred to a dispatcher.
    RouterAlreadyStarted,
}

impl ServiceError {
    /// The diagnostic text of this failure.
    pub open spec fn text(self) -> Seq<char> {
        match self {
            ServiceError::ZeroChannelCapacity { name } => "channel "@ + name@
                + " must have non-zero capacity"@,
            ServiceError::MissingTokioRuntime =>
                "capture-core router requires an active Tokio runtime"@,
            ServiceError::RouterAlreadyStarted => "capture-core router has already been started"@,
        }
    }

    /// Describes this failure.
    pub fn message(&self) -> (message: String)
        ensures
            message@ == self.text(),
    {
        match *self {
            ServiceError::ZeroChannelCapacity { name } => {
                let mut message = "channel ".to_owned();
                text::push_text(&mut message, name);
                text::push_text(&mut message, " must have non-zero capacity");
                message
            },
            ServiceError::MissingTokioRuntime =>
                "capture-core router requires an active Tokio runtime".to_owned(),
            ServiceError::RouterAlreadyStarted =>
                "capture-core router has already been started".to_owned(),
        }
    }
}

impl ChannelCapacities {
    /// The first channel without a slot, by name.
    pub open spec fn unusable(self) -> Option<&'static str> {
        if self.media_commands == 0 {
            Some("media_commands")
        } else if self.encoded_output == 0 {
            Some("encoded_output")
        } else if self.video_fanout == 0 {
            Some("video_fanout")
        } else {
            None
        }
    }

    /// Rejects capacities with which a channel would be unusable.
    pub fn check(&self) -> (result: Result<(), ServiceError>)
        ensures
            match result {
                Ok(()) => self.unusable() is None,
                Err(error) => self.unusable() is Some && error
                    == (ServiceError::ZeroChannelCapacity { name: self.unusable()->Some_0 }),
            },
    {
        if self.media_commands == 0 {
            return Err(ServiceError::ZeroChannelCapacity { name: "media_commands" });
        }
        if self.encoded_output == 0 {
            return Err(ServiceError::ZeroChannelCapacity { name: "encoded_output" });
        }
        if self.video_fanout == 0 {
            return Err(ServiceError::ZeroChannelCapacity { name: "video_fanout" });
        }
        Ok(())
    }
}

/// The standard, padded Base64 form of some bytes.
pub uninterp spec fn base64_standard(data: Seq<u8>) -> Seq<char>;

/// Encodes bytes with `base64::engine::general_purpose::STANDARD`: the standard alphabet with
/// padding, four characters for every started group of three bytes. The text is a function of
/// the bytes alone. Input near the size of the address space, on which the encoder panics, is
/// left out.
#[verifier::external_body]
fn encode_base64(data: &[u8]) -> (text: String)
    requires
        data@.len() <= 0x4000_0000,
    ensures
        text@ == base64_standard(data@),
        text@.len() == (data@.len() + 2) / 3 * 4,
{
    base64::Engine::encode(&base64::engine::general_purpose::STANDARD, data)
}

/// The current WebCodecs decoder configuration as it is announced to viewers.
#[derive(Debug, Clone, PartialEq, Eq)]
pub struct DecoderInitialization {
    pub generation: u64,
    pub codec: String,
    pub width: u16,
    pub height: u16,
    pub description: String,
}

impl DecoderInitialization {
    /// Announces a configuration under an already encoded description.
    pub fn with_description(config: &CodecConfiguration, description: String) -> (result:
        DecoderInitialization)
        ensures
            result.generation == config@.generation,
            result.codec@ == avcc::codec_name(config@.sps),
            result.width == config@.width,
            result.height == config@.height,
            result.description == description,
    {
        DecoderInitialization {
            generation: config.generation(),
            codec: config.codec_string(),
            width: config.width(),
            height: config.height(),
            description,
        }
    }

    /// Announces a configuration; the description is its Base64-encoded decoder record.
    pub fn of(config: &CodecConfiguration) -> (result: DecoderInitialization)
        ensures
            result.generation == config@.generation,
            result.codec@ == avcc::codec_name(config@.sps),
            result.width == config@.width,
            result.height == config@.height,
            result.description@ == base64_standard(avcc::decoder_record(config@.sps, config@.pps)),
    {
        let record = config.avcc_description();
        let description = encode_base64(record.as_slice());
        DecoderInitialization::with_description(config, description)
    }
}

/// Public status assembled from media, configuration, and viewer snapshots.
#[derive(Debug, PartialEq, Eq)]
pub struct StatusResponse {
    pub configuration_generation: u64,
    pub state: CaptureState,
    pub target: Option<TargetSummary>,
    pub output_width: u32,
    pub output_height: u32,
    pub frame_rate: u32,
    pub captured_frames: u64,
    pub encoded_frames: u64,
    pub viewer_count: usize,
}

/// Viewer initialization response available before opening the stream.
#[derive(Debug, PartialEq)]
pub struct InitializationResponse {
    pub configuration_generation: u64,
    pub render: RenderConfig,
    pub decoder: Option<DecoderInitialization>,
}

/// Expected API failure paired with its HTTP classification.
#[derive(Debug, Clone, PartialEq, Eq)]
pub struct ApiError {
    pub status: u16,
    pub code: &'static str,
    pub message: String,
    pub issues: Vec<ValidationIssue>,
    pub restart_fields: Vec<String>,
}

impl ApiError {
    /// Gives a request body that is no valid document the service's stable error shape.
    pub fn malformed_json(body_text: String) -> (error: ApiError)
        ensures
            error.status == 400,
            error.code@ == "malformed_json"@,
            error.message == body_text,
            error.issues@.len() == 0,
            error.restart_fields@.len() == 0,
    {
        ApiError {
            status: 400,
            code: "malformed_json",
            message: body_text,
            issues: Vec::new(),
            restart_fields: Vec::new(),
        }
    }

    /// Whether this carries a status, a code and a message.
    pub open spec fn tells(&self, status: u16, code: Seq<char>, message: Seq<char>) -> bool {
        self.status == status && self.code@ == code && self.message@ == message
    }

    /// Whether this reports that validation found faults.
    pub open spec fn reports_invalid(&self) -> bool {
        self.tells(422, "invalid_configuration"@, "configuration failed semantic validation"@)
            && self.restart_fields@.len() == 0
    }

    /// Whether this reports that a change needs a restart.
    pub open spec fn reports_restart(&self) -> bool {
        self.tells(409, "restart_required"@, "configuration changes startup-only media settings"@)
            && self.issues@.len() == 0
    }

    /// Whether this reports that no generation number is left.
    pub open spec fn reports_exhaustion(&self) -> bool {
        self.tells(500, "configuration_state_error"@, "configuration generation is exhausted"@)
            && self.issues@.len() == 0 && self.restart_fields@.len() == 0
    }

    /// Whether this is how a configuration failure is answered.
    pub open spec fn answers(&self, error: ConfigError) -> bool {
        match error {
            ConfigError::Invalid { issues } => self.reports_invalid() && self.issues == issues,
            ConfigError::RestartRequired { fields } => self.reports_restart()
                && self.restart_fields == fields,
            _ => self.tells(500, "configuration_state_error"@, error.text()) && self.issues@.len()
                == 0 && self.restart_fields@.len() == 0,
        }
    }

    /// Translates typed configuration failures without losing validation detail.
    pub fn from_config(error: ConfigError) -> (result: ApiError)
        ensures
            result.answers(error),
    {
        match error {
            ConfigError::Invalid { issues } => ApiError {
                status: 422,
                code: "invalid_configuration",
                message: "configuration failed semantic validation".to_owned(),
                issues,
                restart_fields: Vec::new(),
            },
            ConfigError::RestartRequired { fields } => ApiError {
                status: 409,
                code: "restart_required",
                message: "configuration changes startup-only media settings".to_owned(),
                issues: Vec::new(),
                restart_fields: fields,
            },
            error => ApiError {
                status: 500,
                code: "configuration_state_error",
                message: error.message(),
                issues: Vec::new(),
                restart_fields: Vec::new(),
            },
        }
    }
}

/// State of one configured instance behind its handlers.
pub struct InstanceService {
    config: ConfigSnapshot,
    codec: Option<CodecConfiguration>,
    viewer_count: usize,
    router_started: bool,
    completion_taken: bool,
}

/// What an instance service remembers.
pub struct ServiceModel {
    pub generation: u64,
    pub config: config::InstanceModel,
    pub codec: Option<crate::video::CodecModel>,
    pub viewer_count: usize,
    pub router_started: bool,
    pub completion_taken: bool,
}

impl View for InstanceService {
    type V = ServiceModel;

    closed spec fn view(&self) -> ServiceModel {
        ServiceModel {
            generation: self.config.generation,
            config: self.config.config@,
            codec: match self.codec {
                Some(codec) => Some(codec@),
                None => None,
            },
            viewer_count: self.viewer_count,
            router_started: self.router_started,
            completion_taken: self.completion_taken,
        }
    }
}

impl InstanceService {
    /// Constructs the state of an instance for a validated startup configuration.
    pub fn new(initial_config: ValidatedInstanceConfig, capacities: ChannelCapacities) -> (result:
        Result<InstanceService, ServiceError>)
        ensures
            match result {
                Ok(service) => capacities.unusable() is None && service@ == (ServiceModel {
                    generation: 1,
                    config: initial_config@,
                    codec: None,
                    viewer_count: 0,
                    router_started: false,
                    completion_taken: false,
                }),
                Err(error) => capacities.unusable() is Some && error
                    == (ServiceError::ZeroChannelCapacity { name: capacities.unusable()->Some_0 }),
            },
    {
        capacities.check()?;
        Ok(
            InstanceService {
                config: ConfigSnapshot::initial(initial_config),
                codec: None,
                viewer_count: 0,
                router_started: false,
                completion_taken: false,
            },
        )
    }

    /// Claims the one encoded-output dispatcher; a second claim, or one without an active
    /// runtime, is refused.
    pub fn start_router(&mut self, runtime_active: bool) -> (result: Result<(), ServiceError>)
        ensures
            match result {
                Ok(()) => runtime_active && !old(self)@.router_started && final(self)@
                    == (ServiceModel { router_started: true, ..old(self)@ }),
                Err(error) => final(self)@ == old(self)@ && error == if !runtime_active {
                    ServiceError::MissingTokioRuntime
                } else {
                    ServiceError::RouterAlreadyStarted
                } && (!runtime_active || old(self)@.router_started),
            },
    {
        if !runtime_active {
            return Err(ServiceError::MissingTokioRuntime);
        }
        if self.router_started {
            return Err(ServiceError::RouterAlreadyStarted);
        }
        self.router_started = true;
        Ok(())
    }

    /// Takes the one-shot media completion; a second call gets nothing.
    pub fn take_media_completion(&mut self) -> (available: bool)
        ensures
            available == !old(self)@.completion_taken,
            final(self)@ == (ServiceModel { completion_taken: true, ..old(self)@ }),
    {
        let available = !self.completion_taken;
        self.completion_taken = true;
        available
    }

    /// Returns the active configuration snapshot.
    pub fn snapshot(&self) -> (snapshot: &ConfigSnapshot)
        ensures
            snapshot.generation == self@.generation,
            snapshot.config@ == self@.config,
    {
        &self.config
    }

    /// Validates and atomically replaces one complete candidate.
    ///
    /// An accepted candidate becomes the next generation as a whole; a refused one leaves
    /// everything as it was.
    pub fn put_config(&mut self, candidate: InstanceConfig) -> (result: Result<u64, ApiError>)
        ensures
            match result {
                Ok(generation) => {
                    &&& candidate@.issues().len() == 0
                    &&& candidate@.video == old(self)@.config.video
                    &&& old(self)@.generation < u64::MAX
                    &&& generation == old(self)@.generation + 1
                    &&& final(self)@ == (ServiceModel {
                        generation,
                        config: candidate@.canonical(),
                        ..old(self)@
                    })
                },
                Err(error) => {
                    &&& final(self)@ == old(self)@
                    &&& candidate@.issues().len() > 0 ==> error.reports_invalid()
                        && config::issue_models(error.issues@) == candidate@.issues()
                    &&& candidate@.issues().len() == 0 && candidate@.video
                        != old(self)@.config.video ==> error.reports_restart() && text::texts(
                        error.restart_fields@,
                    ) == seq!["video"@]
                    &&& candidate@.issues().len() == 0 && candidate@.video
                        == old(self)@.config.video ==> error.reports_exhaustion()
                        && old(self)@.generation == u64::MAX
                },
            },
    {
        match self.config.config.validate_replacement(candidate) {
            Err(error) => Err(ApiError::from_config(error)),
            Ok(validated) => match self.config.replaced(validated) {
                Err(error) => Err(ApiError::from_config(error)),
                Ok(next) => {
                    let generation: u64 = next.generation;
                    self.config = next;
                    Ok(generation)
                },
            },
        }
    }

    /// Notes an encoded event before it is fanned out: the latest codec configuration is kept
    /// for viewers that join later.
    pub fn observe_event(&mut self, event: &VideoEvent)
        ensures
            final(self)@ == (ServiceModel {
                codec: match event@ {
                    EventModel::Codec(codec) => Some(codec),
                    EventModel::Unit(_) => old(self)@.codec,
                },
                ..old(self)@
            }),
    {
        if let VideoEvent::CodecConfiguration(config) = event {
            self.codec = Some(config.clone());
        }
    }

    /// Counts a viewer for the time it is connected.
    pub fn viewer_joined(&mut self)
        requires
            old(self)@.viewer_count < usize::MAX,
        ensures
            final(self)@ == (ServiceModel {
                viewer_count: (old(self)@.viewer_count + 1) as usize,
                ..old(self)@
            }),
    {
        self.viewer_count = self.viewer_count + 1;
    }

    /// Stops counting a viewer.
    pub fn viewer_left(&mut self)
        requires
            old(self)@.viewer_count > 0,
        ensures
            final(self)@ == (ServiceModel {
                viewer_count: (old(self)@.viewer_count - 1) as usize,
                ..old(self)@
            }),
    {
        self.viewer_count = self.viewer_count - 1;
    }

    /// Answers `GET /api/status`.
    pub fn get_status(&self, media: &MediaStatus) -> (response: StatusResponse)
        ensures
            response.configuration_generation == self@.generation,
            response.state == media.state,
            status::optional_target(response.target) == status::optional_target(media.target),
            response.output_width == self@.config.video.width,
            response.output_height == self@.config.video.height,
            response.frame_rate == self@.config.video.frame_rate,
            response.captured_frames == media.captured_frames,
            response.encoded_frames == media.encoded_frames,
            response.viewer_count == self@.viewer_count,
    {
        let video = &self.config.config.config().video;
        StatusResponse {
            configuration_generation: self.config.generation,
            state: media.state,
            target: status::clone_target(&media.target),
            output_width: video.width,
            output_height: video.height,
            frame_rate: video.frame_rate,
            captured_frames: media.captured_frames,
            encoded_frames: media.encoded_frames,
            viewer_count: self.viewer_count,
        }
    }

    /// Answers `GET /api/initialization` with the render parameters of the current target and
    /// the decoder configuration seen last.
    pub fn get_initialization(&self, media: &MediaStatus) -> (response: InitializationResponse)
        ensures
            response.configuration_generation == self@.generation,
            response.render@ == self@.config.render.chosen(media.profile()),
            match response.decoder {
                None => self@.codec is None,
                Some(decoder) => self@.codec matches Some(codec) && decoder.generation
                    == codec.generation && decoder.codec@ == avcc::codec_name(codec.sps)
                    && decoder.width == codec.width && decoder.height == codec.height
                    && decoder.description@ == base64_standard(
                    avcc::decoder_record(codec.sps, codec.pps),
                ),
            },
    {
        let render = self.config.config.render_for_profile(media.target_profile()).clone();
        let decoder = match &self.codec {
            Some(codec) => Some(DecoderInitialization::of(codec)),
            None => None,
        };
        InitializationResponse { configuration_generation: self.config.generation, render, decoder }
    }

    /// Opens a viewer on the stream as it stands, with what is done before it is forwarded
    /// anything: it is told the render parameters, sent the cached codec configuration, if there
    /// is one, and one fresh keyframe is requested for it.
    pub fn open_viewer(&self, media: &MediaStatus) -> (opening: ViewerOpening)
        ensures
            opening.viewer@ == ViewerModel::joined(self@.codec),
            ({
                let render = RenderMessageModel::current(
                    self@.generation,
                    self@.config,
                    media.profile(),
                );
                &&& opening.viewer.shown() == Some(render)
                &&& step_models(opening.steps@) == opening_steps(render, self@.codec)
            }),
    {
        let mut viewer = self.admit_viewer();
        let render = render_message(&self.config, media);
        viewer.last_render = Some(render_message(&self.config, media));
        let mut steps: Vec<OpeningStep> = Vec::new();
        steps.push(OpeningStep::SendRender(render));
        if let Some(codec) = &self.codec {
            steps.push(OpeningStep::SendCodec(codec.clone()));
        }
        steps.push(OpeningStep::RequestKeyframe);
        assert(step_models(steps@) =~= opening_steps(render@, self@.codec));
        ViewerOpening { viewer, steps }
    }

    /// Admits a viewer to the stream as it stands.
    pub fn admit_viewer(&self) -> (viewer: Viewer)
        ensures
            viewer@ == ViewerModel::joined(self@.codec),
            viewer.shown() is None,
    {
        let codec_generation: Option<u64> = match &self.codec {
            Some(codec) => Some(codec.generation()),
            None => None,
        };
        Viewer { codec_generation, waiting_for_keyframe: true, last_render: None }
    }

    /// Returns the codec configuration sent to a viewer when it joins.
    pub fn cached_codec(&self) -> (codec: Option<&CodecConfiguration>)
        ensures
            match codec {
                Some(codec) => self@.codec == Some(codec@),
                None => self@.codec is None,
            },
    {
        match &self.codec {
            Some(codec) => Some(codec),
            None => None,
        }
    }
}

/// Complete render parameters selected from configuration and media status.
#[derive(Debug, PartialEq)]
pub struct RenderMessage {
    pub configuration_generation: u64,
    pub profile: Option<String>,
    pub render: RenderConfig,
}

/// What a render message says.
pub struct RenderMessageModel {
    pub configuration_generation: u64,
    pub profile: Option<Seq<char>>,
    pub render: RenderModel,
}

impl View for RenderMessage {
    type V = RenderMessageModel;

    open spec fn view(&self) -> RenderMessageModel {
        RenderMessageModel {
            configuration_generation: self.configuration_generation,
            profile: match self.profile {
                Some(profile) => Some(profile@),
                None => None,
            },
            render: self.render@,
        }
    }
}

impl RenderMessageModel {
    /// Whether two messages tell a viewer the same.
    pub open spec fn equals(self, other: RenderMessageModel) -> bool {
        &&& self.configuration_generation == other.configuration_generation
        &&& self.profile == other.profile
        &&& self.render.equals(other.render)
    }

    /// The message for a configuration and the profile of the current target.
    pub open spec fn current(
        generation: u64,
        config: config::InstanceModel,
        profile: Option<Seq<char>>,
    ) -> RenderMessageModel {
        RenderMessageModel {
            configuration_generation: generation,
            profile,
            render: config.render.chosen(profile),
        }
    }
}

impl RenderMessage {
    /// Whether two messages tell a viewer the same.
    fn equals(&self, other: &RenderMessage) -> (equal: bool)
        ensures
            equal == self@.equals(other@),
    {
        let same_profile = match (&self.profile, &other.profile) {
            (Some(left), Some(right)) => text::same_text(left.as_str(), right.as_str()),
            (None, None) => true,
            _ => false,
        };
        self.configuration_generation == other.configuration_generation && same_profile
            && self.render.equals(&other.render)
    }
}

/// Selects the render parameters for a configuration and the profile of the current target.
fn render_message(snapshot: &ConfigSnapshot, media: &MediaStatus) -> (message: RenderMessage)
    ensures
        message@ == RenderMessageModel::current(
            snapshot.generation,
            snapshot.config@,
            media.profile(),
        ),
{
    let profile = media.target_profile();
    let render = snapshot.config.render_for_profile(profile).clone();
    let named: Option<String> = match profile {
        Some(profile) => Some(profile.to_owned()),
        None => None,
    };
    RenderMessage { configuration_generation: snapshot.generation, profile: named, render }
}

/// The refusal told to a viewer when the media owner takes no keyframe request.
#[derive(Debug, Clone, Copy, PartialEq, Eq)]
pub struct ControlError {
    pub code: &'static str,
    pub message: &'static str,
}

/// Decides on a fresh-keyframe request: once the command is queued the viewer goes on, otherwise
/// it is told why it cannot be initialized and dropped.
pub fn request_keyframe(queued: bool) -> (result: Result<(), ControlError>)
    ensures
        match result {
            Ok(()) => queued,
            Err(error) => !queued && error.code@ == "media_command_unavailable"@ && error.message@
                == "media owner cannot accept a fresh-keyframe request"@,
        },
{
    if queued {
        return Ok(());
    }
    Err(
        ControlError {
            code: "media_command_unavailable",
            message: "media owner cannot accept a fresh-keyframe request",
        },
    )
}

/// What is done with one broadcast event for one viewer.
#[derive(Debug, Clone, Copy, PartialEq, Eq, Structural)]
pub enum Forward {
    /// The event is not for this viewer yet.
    Drop,
    /// The event is sent.
    Send,
    /// The event is sent, and then a fresh keyframe is requested.
    SendAndRequestKeyframe,
}

/// Decoder gates of one viewer.
pub struct ViewerModel {
    pub codec_generation: Option<u64>,
    pub waiting_for_keyframe: bool,
}

impl ViewerModel {
    /// The gates of a viewer that joins where a codec configuration is cached.
    pub open spec fn joined(codec: Option<CodecModel>) -> ViewerModel {
        ViewerModel {
            codec_generation: match codec {
                Some(codec) => Some(codec.generation),
                None => None,
            },
            waiting_for_keyframe: true,
        }
    }

    /// What is done with an event.
    pub open spec fn forwards(self, event: EventModel) -> Forward {
        match event {
            EventModel::Codec(codec) => if self.codec_generation is Some && self.codec_generation
                != Some(codec.generation) {
                Forward::SendAndRequestKeyframe
            } else {
                Forward::Send
            },
            EventModel::Unit(unit) => if self.codec_generation != Some(unit.codec_generation) || (
            self.waiting_for_keyframe && !unit.keyframe) {
                Forward::Drop
            } else {
                Forward::Send
            },
        }
    }

    /// The gates after an event.
    pub open spec fn after(self, event: EventModel) -> ViewerModel {
        match event {
            EventModel::Codec(codec) => ViewerModel {
                codec_generation: Some(codec.generation),
                waiting_for_keyframe: true,
            },
            EventModel::Unit(_) => if self.forwards(event) == Forward::Drop {
                self
            } else {
                ViewerModel { waiting_for_keyframe: false, ..self }
            },
        }
    }
}

/// One connected viewer.
pub struct Viewer {
    codec_generation: Option<u64>,
    waiting_for_keyframe: bool,
    last_render: Option<RenderMessage>,
}

/// One step of opening a viewer.
#[derive(Debug, PartialEq)]
pub enum OpeningStep {
    /// Render parameters are sent.
    SendRender(RenderMessage),
    /// The codec configuration seen last is sent.
    SendCodec(CodecConfiguration),
    /// A fresh keyframe is requested.
    RequestKeyframe,
}

/// A viewer that joins, and what is done for it first, in order.
pub struct ViewerOpening {
    /// The viewer.
    pub viewer: Viewer,
    /// What is done before anything is forwarded; the viewer is dropped where a step fails.
    pub steps: Vec<OpeningStep>,
}

/// What is done for a viewer.
pub enum ViewerStep {
    /// It is told render parameters.
    Render(RenderMessageModel),
    /// It is sent a video event.
    Event(EventModel),
    /// A fresh keyframe is requested for it.
    KeyframeRequest,
}

impl View for OpeningStep {
    type V = ViewerStep;

    open spec fn view(&self) -> ViewerStep {
        match self {
            OpeningStep::SendRender(message) => ViewerStep::Render(message@),
            OpeningStep::SendCodec(codec) => ViewerStep::Event(EventModel::Codec(codec@)),
            OpeningStep::RequestKeyframe => ViewerStep::KeyframeRequest,
        }
    }
}

/// The models of some steps.
pub open spec fn step_models(steps: Seq<OpeningStep>) -> Seq<ViewerStep> {
    steps.map_values(|step: OpeningStep| step@)
}

/// What is done for a viewer that joins.
pub open spec fn opening_steps(render: RenderMessageModel, codec: Option<CodecModel>) -> Seq<
    ViewerStep,
> {
    match codec {
        Some(codec) => seq![
            ViewerStep::Render(render),
            ViewerStep::Event(EventModel::Codec(codec)),
            ViewerStep::KeyframeRequest,
        ],
        None => seq![ViewerStep::Render(render), ViewerStep::KeyframeRequest],
    }
}

impl View for Viewer {
    type V = ViewerModel;

    closed spec fn view(&self) -> ViewerModel {
        ViewerModel {
            codec_generation: self.codec_generation,
            waiting_for_keyframe: self.waiting_for_keyframe,
        }
    }
}

impl Viewer {
    /// The render parameters the viewer was told last.
    pub closed spec fn shown(&self) -> Option<RenderMessageModel> {
        match self.last_render {
            Some(message) => Some(message@),
            None => None,
        }
    }

    /// Applies decoder-generation and fresh-keyframe gates to one broadcast event.
    pub fn forward_video_event(&mut self, event: &VideoEvent) -> (forward: Forward)
        ensures
            forward == old(self)@.forwards(event@),
            final(self)@ == old(self)@.after(event@),
            final(self).shown() == old(self).shown(),
    {
        match event {
            VideoEvent::CodecConfiguration(config) => {
                let generation: u64 = config.generation();
                let discontinuity = match self.codec_generation {
                    Some(current) => current != generation,
                    None => false,
                };
                self.codec_generation = Some(generation);
                self.waiting_for_keyframe = true;
                if discontinuity {
                    Forward::SendAndRequestKeyframe
                } else {
                    Forward::Send
                }
            },
            VideoEvent::AccessUnit(unit) => {
                let current = match self.codec_generation {
                    Some(generation) => generation == unit.codec_generation(),
                    None => false,
                };
                if !current || (self.waiting_for_keyframe && !unit.is_keyframe()) {
                    return Forward::Drop;
                }
                self.waiting_for_keyframe = false;
                Forward::Send
            },
        }
    }

    /// Gives the render configuration matching the latest config and target profile, unless the
    /// viewer was told the same last.
    pub fn current_render(&mut self, snapshot: &ConfigSnapshot, media: &MediaStatus) -> (message:
        Option<RenderMessage>)
        ensures
            final(self)@ == old(self)@,
            ({
                let current = RenderMessageModel::current(
                    snapshot.generation,
                    snapshot.config@,
                    media.profile(),
                );
                match message {
                    Some(message) => message@ == current && final(self).shown() == Some(current)
                        && !(old(self).shown() matches Some(shown) && shown.equals(current)),
                    None => final(self).shown() == old(self).shown() && (old(self).shown() matches Some(
                        shown,
                    ) && shown.equals(current)),
                }
            }),
    {
        let message = render_message(snapshot, media);
        let told = match &self.last_render {
            None => false,
            Some(last) => last.equals(&message),
        };
        if told {
            return None;
        }
        self.last_render = Some(render_message(snapshot, media));
        Some(message)
    }
}

/// What a viewer's socket gives.
#[derive(Debug, Clone, Copy, PartialEq, Eq, Structural)]
pub enum SocketInput {
    /// The viewer asked to close.
    Close,
    /// The socket failed.
    Failed,
    /// The socket ended.
    Ended,
    /// Any other message.
    Other,
}

/// What wakes the handler of a viewer.
#[derive(Debug, Clone, Copy, PartialEq, Eq)]
pub enum ViewerInput<'a> {
    /// The socket gave something.
    Socket(SocketInput),
    /// The configuration or the media status changed, or its channel closed.
    Snapshots {
        /// Whether the channel closed.
        closed: bool,
    },
    /// A video event was broadcast.
    Video(&'a VideoEvent),
    /// The viewer lagged behind the broadcast, or the broadcast closed.
    VideoLost,
}

/// What the handler of a viewer does next.
#[derive(Debug, PartialEq)]
pub enum ViewerAction {
    /// It ends.
    Stop,
    /// It waits on.
    Wait,
    /// It sends render parameters.
    SendRender(RenderMessage),
    /// It sends the video event that woke it.
    SendVideo {
        /// Whether a fresh keyframe is requested afterwards.
        request_keyframe: bool,
    },
}

impl Viewer {
    /// Decides what one wake-up of the viewer's handler leads to.
    pub fn handle_viewer(
        &mut self,
        input: ViewerInput,
        snapshot: &ConfigSnapshot,
        media: &MediaStatus,
    ) -> (action: ViewerAction)
        ensures
            match input {
                ViewerInput::Socket(given) => final(self)@ == old(self)@ && final(self).shown()
                    == old(self).shown() && action == if given == SocketInput::Other {
                    ViewerAction::Wait
                } else {
                    ViewerAction::Stop
                },
                ViewerInput::VideoLost => final(self)@ == old(self)@ && final(self).shown()
                    == old(self).shown() && action == ViewerAction::Stop,
                ViewerInput::Video(event) => {
                    &&& final(self)@ == old(self)@.after(event@)
                    &&& final(self).shown() == old(self).shown()
                    &&& action == match old(self)@.forwards(event@) {
                        Forward::Drop => ViewerAction::Wait,
                        Forward::Send => ViewerAction::SendVideo { request_keyframe: false },
                        Forward::SendAndRequestKeyframe => ViewerAction::SendVideo {
                            request_keyframe: true,
                        },
                    }
                },
                ViewerInput::Snapshots { closed } => {
                    let current = RenderMessageModel::current(
                        snapshot.generation,
                        snapshot.config@,
                        media.profile(),
                    );
                    let told = old(self).shown() matches Some(shown) && shown.equals(current);
                    &&& final(self)@ == old(self)@
                    &&& final(self).shown() == if closed || told {
                        old(self).shown()
                    } else {
                        Some(current)
                    }
                    &&& match action {
                        ViewerAction::Stop => closed,
                        ViewerAction::Wait => !closed && told,
                        ViewerAction::SendRender(message) => !closed && !told && message@
                            == current,
                        ViewerAction::SendVideo { .. } => false,
                    }
                },
            },
    {
        match input {
            ViewerInput::Socket(given) => if given == SocketInput::Other {
                ViewerAction::Wait
            } else {
                ViewerAction::Stop
            },
            ViewerInput::VideoLost => ViewerAction::Stop,
            ViewerInput::Video(event) => match self.forward_video_event(event) {
                Forward::Drop => ViewerAction::Wait,
                Forward::Send => ViewerAction::SendVideo { request_keyframe: false },
                Forward::SendAndRequestKeyframe => ViewerAction::SendVideo {
                    request_keyframe: true,
                },
            },
            ViewerInput::Snapshots { closed } => {
                if closed {
                    return ViewerAction::Stop;
                }
                match self.current_render(snapshot, media) {
                    Some(message) => ViewerAction::SendRender(message),
                    None => ViewerAction::Wait,
                }
            },
        }
    }
}

/// The events of a run that reach a viewer.
pub open spec fn forwarded(viewer: ViewerModel, events: Seq<EventModel>) -> Seq<EventModel>
    decreases events.len(),
{
    if events.len() == 0 {
        Seq::empty()
    } else {
        let rest = forwarded(viewer.after(events[0]), events.skip(1));
        if viewer.forwards(events[0]) == Forward::Drop {
            rest
        } else {
            seq![events[0]] + rest
        }
    }
}

/// Whether a decoder takes a run of events: every access unit is of the generation configured
/// last, and the first one behind each configuration is a keyframe.
pub open spec fn decodable(generation: Option<u64>, ready: bool, events: Seq<EventModel>) -> bool
    decreases events.len(),
{
    if events.len() == 0 {
        true
    } else {
        match events[0] {
            EventModel::Codec(codec) => decodable(
                Some(codec.generation),
                false,
                events.skip(1),
            ),
            EventModel::Unit(unit) => generation == Some(unit.codec_generation) && (unit.keyframe
                || ready) && decodable(generation, true, events.skip(1)),
        }
    }
}

/// Whatever the encoder publishes, a viewer's decoder can take everything that is forwarded.
pub proof fn law_forwarded_streams_are_decodable(viewer: ViewerModel, events: Seq<EventModel>)
    ensures
        decodable(
            viewer.codec_generation,
            !viewer.waiting_for_keyframe,
            forwarded(viewer, events),
        ),
    decreases events.len(),
{
    if events.len() > 0 {
        let next = viewer.after(events[0]);
        let rest = forwarded(next, events.skip(1));
        law_forwarded_streams_are_decodable(next, events.skip(1));
        let all = forwarded(viewer, events);
        if viewer.forwards(events[0]) != Forward::Drop {
            assert(all.skip(1) =~= rest);
            assert(all[0] == events[0]);
        }
    }
}

/// A viewer that joins at any point of the stream, and is sent the cached configuration first,
/// gets a stream that its decoder can take from the beginning.
pub proof fn law_joined_streams_are_decodable(codec: Option<CodecModel>, events: Seq<EventModel>)
    ensures
        ({
            let opened = match codec {
                Some(codec) => seq![EventModel::Codec(codec)],
                None => Seq::empty(),
            };
            decodable(None, false, opened + forwarded(ViewerModel::joined(codec), events))
        }),
{
    let joined = ViewerModel::joined(codec);
    let rest = forwarded(joined, events);
    law_forwarded_streams_are_decodable(joined, events);
    match codec {
        Some(codec) => {
            let all = seq![EventModel::Codec(codec)] + rest;
            assert(all.skip(1) =~= rest);
            assert(all[0] == EventModel::Codec(codec));
        },
        None => {
            assert(Seq::<EventModel>::empty() + rest =~= rest);
        },
    }
}

/// What can wake the handler of a viewer and lead to anything.
pub enum WakeModel {
    /// A video event was broadcast.
    Event(EventModel),
    /// These are the current render parameters.
    Snapshots(RenderMessageModel),
}

/// The broadcast events among some wake-ups.
pub open spec fn broadcast(wakes: Seq<WakeModel>) -> Seq<EventModel>
    decreases wakes.len(),
{
    if wakes.len() == 0 {
        Seq::empty()
    } else {
        match wakes[0] {
            WakeModel::Event(event) => seq![event] + broadcast(wakes.skip(1)),
            WakeModel::Snapshots(_) => broadcast(wakes.skip(1)),
        }
    }
}

/// What some wake-ups lead to for a viewer that was told some render parameters last.
pub open spec fn handled(
    viewer: ViewerModel,
    shown: RenderMessageModel,
    wakes: Seq<WakeModel>,
) -> Seq<ViewerStep>
    decreases wakes.len(),
{
    if wakes.len() == 0 {
        Seq::empty()
    } else {
        match wakes[0] {
            WakeModel::Event(event) => {
                let rest = handled(viewer.after(event), shown, wakes.skip(1));
                match viewer.forwards(event) {
                    Forward::Drop => rest,
                    Forward::Send => seq![ViewerStep::Event(event)] + rest,
                    Forward::SendAndRequestKeyframe => seq![
                        ViewerStep::Event(event),
                        ViewerStep::KeyframeRequest,
                    ] + rest,
                }
            },
            WakeModel::Snapshots(current) => if shown.equals(current) {
                handled(viewer, shown, wakes.skip(1))
            } else {
                seq![ViewerStep::Render(current)] + handled(viewer, current, wakes.skip(1))
            },
        }
    }
}

/// The video events among some steps.
pub open spec fn sent_events(steps: Seq<ViewerStep>) -> Seq<EventModel>
    decreases steps.len(),
{
    if steps.len() == 0 {
        Seq::empty()
    } else {
        match steps[0] {
            ViewerStep::Event(event) => seq![event] + sent_events(steps.skip(1)),
            _ => sent_events(steps.skip(1)),
        }
    }
}

/// How many fresh keyframes some steps request.
pub open spec fn keyframe_requests(steps: Seq<ViewerStep>) -> nat
    decreases steps.len(),
{
    if steps.len() == 0 {
        0
    } else {
        keyframe_requests(steps.skip(1)) + if steps[0] is KeyframeRequest {
            1nat
        } else {
            0
        }
    }
}

/// How often some events change the codec generation, once one is known.
pub open spec fn generation_changes(known: Option<u64>, events: Seq<EventModel>) -> nat
    decreases events.len(),
{
    if events.len() == 0 {
        0
    } else {
        match events[0] {
            EventModel::Codec(codec) => generation_changes(
                Some(codec.generation),
                events.skip(1),
            ) + if known is Some && known != Some(codec.generation) {
                1nat
            } else {
                0
            },
            EventModel::Unit(_) => generation_changes(known, events.skip(1)),
        }
    }
}

proof fn lemma_first_step(step: ViewerStep, rest: Seq<ViewerStep>)
    ensures
        sent_events(seq![step] + rest) == match step {
            ViewerStep::Event(event) => seq![event] + sent_events(rest),
            _ => sent_events(rest),
        },
        keyframe_requests(seq![step] + rest) == keyframe_requests(rest) + if step is KeyframeRequest {
            1nat
        } else {
            0
        },
{
    let all = seq![step] + rest;
    assert(all.skip(1) =~= rest);
    assert(all[0] == step);
}

proof fn lemma_handled(viewer: ViewerModel, shown: RenderMessageModel, wakes: Seq<WakeModel>)
    ensures
        ({
            let steps = handled(viewer, shown, wakes);
            let events = broadcast(wakes);
            &&& sent_events(steps) == forwarded(viewer, events)
            &&& keyframe_requests(steps) == generation_changes(viewer.codec_generation, events)
        }),
    decreases wakes.len(),
{
    if wakes.len() > 0 {
        match wakes[0] {
            WakeModel::Event(event) => {
                let next = viewer.after(event);
                let rest = handled(next, shown, wakes.skip(1));
                lemma_handled(next, shown, wakes.skip(1));
                let events = broadcast(wakes);
                assert(events[0] == event);
                assert(events.skip(1) =~= broadcast(wakes.skip(1)));
                match viewer.forwards(event) {
                    Forward::Drop => {},
                    Forward::Send => {
                        lemma_first_step(ViewerStep::Event(event), rest);
                    },
                    Forward::SendAndRequestKeyframe => {
                        let behind = seq![ViewerStep::KeyframeRequest] + rest;
                        lemma_first_step(ViewerStep::KeyframeRequest, rest);
                        lemma_first_step(ViewerStep::Event(event), behind);
                        assert(seq![ViewerStep::Event(event), ViewerStep::KeyframeRequest] + rest
                            =~= seq![ViewerStep::Event(event)] + behind);
                    },
                }
            },
            WakeModel::Snapshots(current) => {
                if shown.equals(current) {
                    lemma_handled(viewer, shown, wakes.skip(1));
                } else {
                    let rest = handled(viewer, current, wakes.skip(1));
                    lemma_handled(viewer, current, wakes.skip(1));
                    lemma_first_step(ViewerStep::Render(current), rest);
                }
            },
        }
    }
}

/// Over a whole connection a viewer is told render parameters first, then sent the cached codec
/// configuration, if there is one; its decoder can take every video event it is sent; and one
/// fresh keyframe is requested on connecting and one for each change of a known generation.
pub proof fn law_connections_are_gated(
    render: RenderMessageModel,
    codec: Option<CodecModel>,
    wakes: Seq<WakeModel>,
)
    ensures
        ({
            let steps = opening_steps(render, codec) + handled(
                ViewerModel::joined(codec),
                render,
                wakes,
            );
            let known = ViewerModel::joined(codec).codec_generation;
            &&& steps[0] == ViewerStep::Render(render)
            &&& match codec {
                Some(codec) => steps[1] == ViewerStep::Event(EventModel::Codec(codec)) && steps[2]
                    == ViewerStep::KeyframeRequest,
                None => steps[1] == ViewerStep::KeyframeRequest,
            }
            &&& decodable(None, false, sent_events(steps))
            &&& keyframe_requests(steps) == 1 + generation_changes(known, broadcast(wakes))
        }),
{
    let joined = ViewerModel::joined(codec);
    let rest = handled(joined, render, wakes);
    let events = broadcast(wakes);
    lemma_handled(joined, render, wakes);
    law_joined_streams_are_decodable(codec, events);
    let asked = seq![ViewerStep::KeyframeRequest] + rest;
    lemma_first_step(ViewerStep::KeyframeRequest, rest);
    match codec {
        Some(codec) => {
            let opened = ViewerStep::Event(EventModel::Codec(codec));
            let configured = seq![opened] + asked;
            lemma_first_step(opened, asked);
            lemma_first_step(ViewerStep::Render(render), configured);
            assert(opening_steps(render, Some(codec)) + rest =~= seq![ViewerStep::Render(render)]
                + configured);
        },
        None => {
            lemma_first_step(ViewerStep::Render(render), asked);
            assert(opening_steps(render, None) + rest =~= seq![ViewerStep::Render(render)]
                + asked);
            assert(Seq::<EventModel>::empty() + forwarded(joined, events) =~= forwarded(
                joined,
                events,
            ));
        },
    }
}

/// A keyframe of the current generation always reaches a viewer, and so do the
/// access units of that generation that follow it.
pub proof fn law_keyframes_start_delivery(
    viewer: ViewerModel,
    keyframe: crate::video::UnitModel,
    following: crate::video::UnitModel,
)
    requires
        viewer.codec_generation == Some(keyframe.codec_generation),
        keyframe.keyframe,
        following.codec_generation == keyframe.codec_generation,
    ensures
        viewer.forwards(EventModel::Unit(keyframe)) == Forward::Send,
        viewer.after(EventModel::Unit(keyframe)).forwards(EventModel::Unit(following))
            == Forward::Send,
{
}

/// An access unit reaches a viewer exactly if it is of the codec generation that the viewer was
/// configured with last, and no keyframe is outstanding or it is one; from then on none is.
pub proof fn law_access_units_pass_the_gates(
    viewer: &mut Viewer,
    unit: crate::video::AccessUnit,
    forward: Forward,
)
    requires
        call_ensures(Viewer::forward_video_event, (viewer, &VideoEvent::AccessUnit(unit)), forward),
    ensures
        ({
            let passes = old(viewer)@.codec_generation == Some(unit@.codec_generation) && (
            unit@.keyframe || !old(viewer)@.waiting_for_keyframe);
            &&& passes <==> forward == Forward::Send
            &&& !passes <==> forward == Forward::Drop
            &&& passes ==> !final(viewer)@.waiting_for_keyframe
            &&& !passes ==> final(viewer)@.waiting_for_keyframe == old(viewer)@.waiting_for_keyframe
            &&& final(viewer)@.codec_generation == old(viewer)@.codec_generation
        }),
{
}

/// A decoder configuration always reaches a viewer and makes it wait for a keyframe, which is
/// requested where the viewer was configured with another generation before.
pub proof fn law_codec_configurations_reach_viewers(
    viewer: &mut Viewer,
    codec: CodecConfiguration,
    forward: Forward,
)
    requires
        call_ensures(
            Viewer::forward_video_event,
            (viewer, &VideoEvent::CodecConfiguration(codec)),
            forward,
        ),
    ensures
        forward != Forward::Drop,
        forward == Forward::SendAndRequestKeyframe <==> old(viewer)@.codec_generation is Some && old(
            viewer,
        )@.codec_generation->Some_0 != codec@.generation,
        final(viewer)@.codec_generation == Some(codec@.generation),
        final(viewer)@.waiting_for_keyframe,
{
}

/// Behind a decoder configuration the pictures of its generation are held back up to the first
/// keyframe, and forwarded from there on.
pub proof fn law_pictures_are_held_back_up_to_a_keyframe(
    configured: &mut Viewer,
    early: &mut Viewer,
    keyed: &mut Viewer,
    later: &mut Viewer,
    codec: CodecConfiguration,
    units: (crate::video::AccessUnit, crate::video::AccessUnit, crate::video::AccessUnit),
    forwards: (Forward, Forward, Forward, Forward),
)
    requires
        units.0@.codec_generation == codec@.generation && !units.0@.keyframe,
        units.1@.codec_generation == codec@.generation && units.1@.keyframe,
        units.2@.codec_generation == codec@.generation,
        call_ensures(
            Viewer::forward_video_event,
            (configured, &VideoEvent::CodecConfiguration(codec)),
            forwards.0,
        ),
        *old(early) == *final(configured),
        call_ensures(
            Viewer::forward_video_event,
            (early, &VideoEvent::AccessUnit(units.0)),
            forwards.1,
        ),
        *old(keyed) == *final(early),
        call_ensures(
            Viewer::forward_video_event,
            (keyed, &VideoEvent::AccessUnit(units.1)),
            forwards.2,
        ),
        *old(later) == *final(keyed),
        call_ensures(
            Viewer::forward_video_event,
            (later, &VideoEvent::AccessUnit(units.2)),
            forwards.3,
        ),
    ensures
        forwards.0 != Forward::Drop,
        forwards.1 == Forward::Drop,
        forwards.2 == Forward::Send,
        forwards.3 == Forward::Send,
{
}

/// The handler of a viewer sends exactly what the gates let pass, requests a keyframe exactly where
/// they ask for one, and ends only with the socket, the channels or the broadcast.
pub proof fn law_handlers_follow_the_gates(
    viewer: &mut Viewer,
    handled: &mut Viewer,
    event: VideoEvent,
    snapshot: ConfigSnapshot,
    media: MediaStatus,
    forward: Forward,
    action: ViewerAction,
)
    requires
        *old(viewer) == *old(handled),
        call_ensures(Viewer::forward_video_event, (viewer, &event), forward),
        call_ensures(
            Viewer::handle_viewer,
            (handled, ViewerInput::Video(&event), &snapshot, &media),
            action,
        ),
    ensures
        forward == Forward::Drop <==> action == ViewerAction::Wait,
        forward == Forward::Send <==> action == (ViewerAction::SendVideo {
            request_keyframe: false,
        }),
        forward == Forward::SendAndRequestKeyframe <==> action == (ViewerAction::SendVideo {
            request_keyframe: true,
        }),
        final(handled)@ == final(viewer)@,
{
}

/// What a viewer's socket gives ends its handler, unless it is some other message; so does a lost
/// broadcast and a closed channel.
pub proof fn law_handlers_end_with_their_inputs(
    viewer: &mut Viewer,
    given: SocketInput,
    lost: &mut Viewer,
    closed: &mut Viewer,
    snapshot: ConfigSnapshot,
    media: MediaStatus,
    actions: (ViewerAction, ViewerAction, ViewerAction),
)
    requires
        call_ensures(
            Viewer::handle_viewer,
            (viewer, ViewerInput::Socket(given), &snapshot, &media),
            actions.0,
        ),
        call_ensures(
            Viewer::handle_viewer,
            (lost, ViewerInput::VideoLost, &snapshot, &media),
            actions.1,
        ),
        call_ensures(
            Viewer::handle_viewer,
            (closed, ViewerInput::Snapshots { closed: true }, &snapshot, &media),
            actions.2,
        ),
    ensures
        actions.0 == ViewerAction::Stop <==> given == SocketInput::Close || given
            == SocketInput::Failed || given == SocketInput::Ended,
        given == SocketInput::Other ==> actions.0 == ViewerAction::Wait,
        actions.1 == ViewerAction::Stop,
        actions.2 == ViewerAction::Stop,
{
}

/// A viewer is told the render parameters in force once: it gets the override of the current
/// target's profile, or the default parameters, and nothing while they stay the same.
pub proof fn law_render_parameters_are_told_once(
    viewer: &mut Viewer,
    again: &mut Viewer,
    snapshot: ConfigSnapshot,
    media: MediaStatus,
    profile: &str,
    told: RenderConfig,
    messages: (Option<RenderMessage>, Option<RenderMessage>),
)
    requires
        old(viewer).shown() is None,
        is_number(snapshot, media),
        media.target is None ==> call_ensures(
            ValidatedInstanceConfig::render_for_profile,
            (&snapshot.config, None::<&str>),
            &told,
        ),
        media.target matches Some(target) ==> profile@ == target.profile@ && call_ensures(
            ValidatedInstanceConfig::render_for_profile,
            (&snapshot.config, Some(profile)),
            &told,
        ),
        call_ensures(Viewer::current_render, (viewer, &snapshot, &media), messages.0),
        *old(again) == *final(viewer),
        call_ensures(Viewer::current_render, (again, &snapshot, &media), messages.1),
    ensures
        messages.0 is Some,
        messages.0->Some_0.configuration_generation == snapshot.generation,
        messages.0->Some_0.render@ == told@,
        media.target is None ==> messages.0->Some_0.profile is None,
        media.target matches Some(target) ==> messages.0->Some_0.profile is Some
            && messages.0->Some_0.profile->Some_0@ == target.profile@,
        messages.1 is None,
{
}

/// Whether the knee edges in force are numbers, as they are in every accepted configuration.
pub open spec fn is_number(snapshot: ConfigSnapshot, media: MediaStatus) -> bool {
    let knee = snapshot.config@.render.chosen(media.profile()).color_key_knee;
    config::magnitude(knee.low@) <= config::SINGLE_INFINITY && config::magnitude(knee.high@)
        <= config::SINGLE_INFINITY
}

/// A replacement is taken as the next generation exactly if it is valid, keeps the output settings
/// and a generation is left; it is answered with 422, 409 or 500 otherwise, and nothing changes.
pub proof fn law_replacements_are_taken_whole(
    service: &mut InstanceService,
    candidate: InstanceConfig,
    alone: Result<ValidatedInstanceConfig, ConfigError>,
    result: Result<u64, ApiError>,
)
    requires
        call_ensures(InstanceConfig::validate, (candidate,), alone),
        call_ensures(InstanceService::put_config, (service, candidate), result),
    ensures
        ({
            let before = old(service)@;
            let after = final(service)@;
            let kept = candidate.video == before.config.video;
            &&& result is Ok <==> alone is Ok && kept && before.generation < 0xFFFF_FFFF_FFFF_FFFF
            &&& result matches Ok(generation) ==> generation == before.generation + 1
                && after.generation == generation && after.config == alone->Ok_0@
            &&& result is Err ==> after.generation == before.generation && after.config
                == before.config
            &&& after.codec == before.codec && after.viewer_count == before.viewer_count
            &&& alone is Err <==> result is Err && result->Err_0.status == 422
            &&& alone is Ok && !kept <==> result is Err && result->Err_0.status == 409
            &&& alone is Ok && kept && result is Err ==> result->Err_0.status == 500
            &&& result matches Err(error) ==> error.status == 422 ==> error.code@
                == "invalid_configuration"@ && config::issue_models(error.issues@)
                == config::issue_models(alone->Err_0->Invalid_issues@)
            &&& result matches Err(error) ==> error.status == 409 ==> error.code@
                == "restart_required"@ && error.restart_fields@.len() == 1
                && error.restart_fields@[0]@ == "video"@
        }),
{
    if let Err(error) = result {
        assert(text::texts(error.restart_fields@).len() == error.restart_fields@.len());
        if error.status == 409 {
            assert(text::texts(error.restart_fields@)[0] == error.restart_fields@[0]@);
        }
    }
}

/// Typed configuration failures are answered with 422 and all issues, 409 and all fields, or 500.
pub proof fn law_failures_keep_their_detail(error: ConfigError, result: ApiError)
    requires
        call_ensures(ApiError::from_config, (error,), result),
    ensures
        error matches ConfigError::Invalid { issues } ==> result.status == 422 && result.issues
            == issues && result.code@ == "invalid_configuration"@ && result.restart_fields@.len()
            == 0,
        error matches ConfigError::RestartRequired { fields } ==> result.status == 409
            && result.restart_fields == fields && result.code@ == "restart_required"@
            && result.issues@.len() == 0,
        error !is Invalid && error !is RestartRequired ==> result.status == 500 && result.code@
            == "configuration_state_error"@ && result.issues@.len() == 0
            && result.restart_fields@.len() == 0,
{
}

/// The decoder configuration seen last is the one that viewers are announced and sent; access units
/// leave it alone.
pub proof fn law_last_codec_is_announced(
    service: &mut InstanceService,
    after: &mut InstanceService,
    codec: CodecConfiguration,
    unit: crate::video::AccessUnit,
    media: MediaStatus,
    response: InitializationResponse,
    viewer: Viewer,
    name: String,
)
    requires
        call_ensures(
            InstanceService::observe_event,
            (service, &VideoEvent::CodecConfiguration(codec)),
            (),
        ),
        *old(after) == *final(service),
        call_ensures(InstanceService::observe_event, (after, &VideoEvent::AccessUnit(unit)), ()),
        call_ensures(InstanceService::get_initialization, (final(after), &media), response),
        call_ensures(InstanceService::admit_viewer, (final(after),), viewer),
        call_ensures(CodecConfiguration::codec_string, (&codec,), name),
    ensures
        final(after)@.codec == Some(codec@),
        response.decoder is Some,
        response.decoder->Some_0.generation == codec@.generation,
        response.decoder->Some_0.width == codec@.width,
        response.decoder->Some_0.height == codec@.height,
        response.decoder->Some_0.codec@ == name@,
        viewer@.codec_generation == Some(codec@.generation),
        viewer@.waiting_for_keyframe,
{
}

/// Before anything is seen of a codec, none is announced, and a viewer waits for a configuration.
pub proof fn law_new_services_announce_no_codec(
    config: ValidatedInstanceConfig,
    capacities: ChannelCapacities,
    service: InstanceService,
    media: MediaStatus,
    response: InitializationResponse,
    status: StatusResponse,
    viewer: Viewer,
)
    requires
        call_ensures(
            InstanceService::new,
            (config, capacities),
            Ok::<_, ServiceError>(service),
        ),
        call_ensures(InstanceService::get_initialization, (&service, &media), response),
        call_ensures(InstanceService::get_status, (&service, &media), status),
        call_ensures(InstanceService::admit_viewer, (&service,), viewer),
    ensures
        response.decoder is None,
        response.configuration_generation == 1,
        status.configuration_generation == 1,
        status.viewer_count == 0,
        status.output_width == config@.video.width,
        status.output_height == config@.video.height,
        status.frame_rate == config@.video.frame_rate,
        status.state == media.state,
        status.captured_frames == media.captured_frames,
        status.encoded_frames == media.encoded_frames,
        status.target is Some <==> media.target is Some,
        viewer@.codec_generation is None,
        viewer@.waiting_for_keyframe,
{
}

/// A viewer that joins is told render parameters first, then sent the codec configuration that is
/// cached, if one is, and last a keyframe is requested for it.
pub proof fn law_viewers_are_opened_in_order(
    service: InstanceService,
    media: MediaStatus,
    opening: ViewerOpening,
)
    requires
        call_ensures(InstanceService::open_viewer, (&service, &media), opening),
    ensures
        ({
            let steps = opening.steps@;
            &&& steps.len() == if service@.codec is Some {
                3int
            } else {
                2
            }
            &&& steps[0] matches OpeningStep::SendRender(message)
                && message.configuration_generation == service@.generation
            &&& service@.codec matches Some(cached) ==> (steps[1] matches OpeningStep::SendCodec(
                codec,
            ) && codec@ == cached)
            &&& steps.last() is RequestKeyframe
            &&& opening.viewer@.waiting_for_keyframe
            &&& service@.codec matches Some(cached) ==> opening.viewer@.codec_generation == Some(
                cached.generation,
            )
            &&& service@.codec is None ==> opening.viewer@.codec_generation is None
        }),
{
    let steps = opening.steps@;
    let models = step_models(steps);
    assert(models.len() == steps.len());
    assert(forall|i: int| 0 <= i < steps.len() ==> #[trigger] models[i] == steps[i]@);
    assert(models[0] == steps[0]@);
    assert(models[1] == steps[1]@);
    assert(models[steps.len() - 1] == steps[steps.len() - 1]@);
}

/// Joining and leaving count viewers up and down, and touch nothing else.
pub proof fn law_viewers_are_counted(
    service: &mut InstanceService,
    left: &mut InstanceService,
)
    requires
        old(service)@.viewer_count < usize::MAX,
        call_ensures(InstanceService::viewer_joined, (service,), ()),
        *old(left) == *final(service),
        call_ensures(InstanceService::viewer_left, (left,), ()),
    ensures
        final(service)@.viewer_count == old(service)@.viewer_count + 1,
        final(left)@ == old(service)@,
{
}

/// The router is started once, and only inside a runtime; the completion of the media owner is
/// handed out once.
pub proof fn law_routers_start_once(
    service: &mut InstanceService,
    again: &mut InstanceService,
    taken: &mut InstanceService,
    retaken: &mut InstanceService,
    active: (bool, bool),
    results: (Result<(), ServiceError>, Result<(), ServiceError>),
    available: (bool, bool),
)
    requires
        !old(service)@.router_started && !old(taken)@.completion_taken,
        call_ensures(InstanceService::start_router, (service, active.0), results.0),
        *old(again) == *final(service),
        call_ensures(InstanceService::start_router, (again, active.1), results.1),
        call_ensures(InstanceService::take_media_completion, (taken,), available.0),
        *old(retaken) == *final(taken),
        call_ensures(InstanceService::take_media_completion, (retaken,), available.1),
    ensures
        results.0 is Ok <==> active.0,
        !active.0 ==> results.0 == Err::<(), _>(ServiceError::MissingTokioRuntime),
        active.0 && active.1 ==> results.1 == Err::<(), _>(ServiceError::RouterAlreadyStarted),
        !active.0 && active.1 ==> results.1 is Ok,
        available.0,
        !available.1,
{
}

/// Every channel needs a slot; by default there are eight commands, eight encoded events and
/// thirty-two broadcast events.
pub proof fn law_channels_have_slots(
    capacities: ChannelCapacities,
    usual: ChannelCapacities,
    result: Result<(), ServiceError>,
)
    requires
        call_ensures(ChannelCapacities::check, (&capacities,), result),
        call_ensures(ChannelCapacities::default, (), usual),
    ensures
        result is Ok <==> capacities.media_commands > 0 && capacities.encoded_output > 0
            && capacities.video_fanout > 0,
        usual.media_commands == 8 && usual.encoded_output == 8 && usual.video_fanout == 32,
{
}

/// A clean completion is a clean exit, a fatal one its diagnostic; a keyframe request that is not
/// taken costs the viewer its connection; a body that is no document is answered with 400.
pub proof fn law_completions_and_refusals(
    completion: MediaCompletion,
    exit: Result<(), String>,
    queued: bool,
    requested: Result<(), ControlError>,
    body: String,
    malformed: ApiError,
)
    requires
        call_ensures(MediaCompletion::into_result, (completion,), exit),
        call_ensures(request_keyframe, (queued,), requested),
        call_ensures(ApiError::malformed_json, (body,), malformed),
    ensures
        exit is Ok <==> completion is Clean,
        completion matches MediaCompletion::Fatal { message } ==> exit == Err::<(), String>(message),
        requested is Ok <==> queued,
        malformed.status == 400 && malformed.code@ == "malformed_json"@ && malformed.message == body,
{
}

/// A viewer that joins is sent the configuration that was observed last, announced under its own
/// codec and size.
pub proof fn law_cached_codecs_are_those_observed(
    service: InstanceService,
    cached: Option<&CodecConfiguration>,
    config: CodecConfiguration,
    description: String,
    announced: DecoderInitialization,
    name: String,
)
    requires
        call_ensures(InstanceService::cached_codec, (&service,), cached),
        call_ensures(
            DecoderInitialization::with_description,
            (&config, description),
            announced,
        ),
        call_ensures(CodecConfiguration::codec_string, (&config,), name),
    ensures
        cached is Some <==> service@.codec is Some,
        cached matches Some(codec) ==> codec@ == service@.codec->Some_0,
        announced.generation == config@.generation,
        announced.width == config@.width && announced.height == config@.height,
        announced.codec@ == name@,
        announced.description == description,
{
}

/// The description that is announced is the Base64 form of the decoder record.
pub proof fn law_descriptions_are_decoder_records(
    config: CodecConfiguration,
    record: Vec<u8>,
    announced: DecoderInitialization,
)
    requires
        call_ensures(CodecConfiguration::avcc_description, (&config,), record),
        call_ensures(DecoderInitialization::of, (&config,), announced),
    ensures
        announced.description@ == base64_standard(record@),
        announced.generation == config@.generation,
        announced.width == config@.width && announced.height == config@.height,
{
}

/// A viewer that joins, one that asks for the initialization, and one whose handler wakes are all
/// told the parameters of the current target's profile; who was told them on joining is not told
/// again while they stay.
pub proof fn law_viewers_are_told_the_same(
    service: InstanceService,
    snapshot: ConfigSnapshot,
    media: MediaStatus,
    profile: &str,
    told: RenderConfig,
    opening: ViewerOpening,
    response: InitializationResponse,
    joined: &mut Viewer,
    again: Option<RenderMessage>,
    waking: &mut Viewer,
    action: ViewerAction,
)
    requires
        call_ensures(InstanceService::snapshot, (&service,), &snapshot),
        is_number(snapshot, media),
        media.target is None ==> call_ensures(
            ValidatedInstanceConfig::render_for_profile,
            (&snapshot.config, None::<&str>),
            &told,
        ),
        media.target matches Some(target) ==> profile@ == target.profile@ && call_ensures(
            ValidatedInstanceConfig::render_for_profile,
            (&snapshot.config, Some(profile)),
            &told,
        ),
        call_ensures(InstanceService::open_viewer, (&service, &media), opening),
        call_ensures(InstanceService::get_initialization, (&service, &media), response),
        *old(joined) == opening.viewer,
        call_ensures(Viewer::current_render, (joined, &snapshot, &media), again),
        *old(waking) == opening.viewer,
        call_ensures(
            Viewer::handle_viewer,
            (waking, ViewerInput::Snapshots { closed: false }, &snapshot, &media),
            action,
        ),
    ensures
        opening.steps@.len() > 0,
        opening.steps@[0] matches OpeningStep::SendRender(message) && message.render@ == told@
            && message.configuration_generation == snapshot.generation && (message.profile is Some
            <==> media.target is Some),
        response.render@ == told@ && response.configuration_generation == snapshot.generation,
        again is None,
        action == ViewerAction::Wait,
{
    let models = step_models(opening.steps@);
    assert(models.len() == opening.steps@.len());
    assert(models[0] == opening.steps@[0]@);
}

/// A handler that wakes tells its viewer what a look at the snapshots would.
pub proof fn law_wakes_tell_what_is_current(
    viewer: &mut Viewer,
    waking: &mut Viewer,
    snapshot: ConfigSnapshot,
    media: MediaStatus,
    message: Option<RenderMessage>,
    action: ViewerAction,
)
    requires
        *old(viewer) == *old(waking),
        call_ensures(Viewer::current_render, (viewer, &snapshot, &media), message),
        call_ensures(
            Viewer::handle_viewer,
            (waking, ViewerInput::Snapshots { closed: false }, &snapshot, &media),
            action,
        ),
    ensures
        message is Some <==> action is SendRender,
        message is None <==> action == ViewerAction::Wait,
        action matches ViewerAction::SendRender(sent) ==> sent@ == message->Some_0@,
        final(viewer)@ == final(waking)@,
{
}

/// A viewer is told render parameters again exactly if the generation, the profile or a parameter
/// has changed since.
pub proof fn law_changed_render_parameters_are_told(
    viewer: &mut Viewer,
    later: &mut Viewer,
    snapshots: (ConfigSnapshot, ConfigSnapshot),
    media: (MediaStatus, MediaStatus),
    renders: (RenderConfig, RenderConfig),
    messages: (Option<RenderMessage>, Option<RenderMessage>),
    equal: bool,
)
    requires
        old(viewer).shown() is None,
        call_ensures(Viewer::current_render, (viewer, &snapshots.0, &media.0), messages.0),
        renders.0@ == messages.0->Some_0.render@,
        *old(later) == *final(viewer),
        call_ensures(Viewer::current_render, (later, &snapshots.1, &media.1), messages.1),
        renders.1@ == snapshots.1.config@.render.chosen(media.1.profile()),
        call_ensures(RenderConfig::equals, (&renders.1, &renders.0), equal),
    ensures
        messages.0 is Some,
        messages.1 is None <==> {
            &&& snapshots.0.generation == snapshots.1.generation
            &&& media.0.target is Some <==> media.1.target is Some
            &&& media.0.target is Some ==> media.0.target->Some_0.profile@
                == media.1.target->Some_0.profile@
            &&& equal
        },
{
}

} // verus!
