//! Stream topologies, their validated settings, and the supervisor's recovery decisions.
use vstd::prelude::*;
use crate::capture::CropBox;
use crate::geometry::Size;
use crate::restart::{self, Component, RecoveryScope, RestartBackoff};
use crate::text;
use crate::texture;

verus! {

/// User-facing stream topologies owned exclusively by the supervisor.
#[derive(Debug, Clone, Copy, PartialEq, Eq, Structural)]
pub enum StreamMode {
    /// Local profile selector, shared-texture encoder, and video relay.
    Main,
    /// YouTube Music window discovery, generic crop encoder, and video relay.
    YoutubeMusic,
}

impl StreamMode {
    /// The spelling of this topology.
    pub open spec fn label(self) -> Seq<char> {
        match self {
            StreamMode::Main => "main"@,
            StreamMode::YoutubeMusic => "youtube-music"@,
        }
    }

    /// The frame rate used when none is given.
    pub open spec fn fps(self) -> u32 {
        match self {
            StreamMode::Main => 60,
            StreamMode::YoutubeMusic => 15,
        }
    }

    /// Stable command-line/metadata spelling for this topology.
    pub fn name(self) -> (name: &'static str)
        ensures
            name@ == self.label(),
    {
        match self {
            StreamMode::Main => "main",
            StreamMode::YoutubeMusic => "youtube-music",
        }
    }

    /// Well-known transport identifier used when the caller omits one.
    pub fn default_stream_id(self) -> (id: &'static str)
        ensures
            id@ == self.label(),
    {
        self.name()
    }

    /// Existing per-stream frame-rate defaults.
    pub fn default_fps(self) -> (fps: u32)
        ensures
            fps == self.fps(),
    {
        match self {
            StreamMode::Main => 60,
            StreamMode::YoutubeMusic => 15,
        }
    }
}

/// A required file: its canonical path, or why it cannot be used.
pub type FileCheck = Result<String, String>;

/// Supervisor arguments, with every named file looked up.
#[derive(Debug, PartialEq, Eq)]
pub struct StreamArgs {
    /// Topology selection.
    pub mode: StreamMode,
    /// Selector executable required by main mode.
    pub selector: Option<FileCheck>,
    /// Encoder executable.
    pub encoder: FileCheck,
    /// Relay executable.
    pub relay: FileCheck,
    /// Local selector document carried unchanged by main mode.
    pub config: Option<FileCheck>,
    /// WebSocket ingestion URL.
    pub server: String,
    /// HTTP endpoint receiving main-mode selection metadata.
    pub info_url: Option<String>,
    /// Transport identifier; defaults to the selected mode's well-known one.
    pub stream_id: Option<String>,
    /// Fixed mailbox and encoded-stream width.
    pub width: Option<u32>,
    /// Fixed mailbox and encoded-stream height.
    pub height: Option<u32>,
    /// Encoder output frame rate.
    pub fps: Option<u32>,
    /// Window title prefix required by YouTube Music mode.
    pub youtube_music_title: Option<String>,
    /// YouTube Music window rediscovery interval after capture loss.
    pub poll_interval_seconds: Option<u64>,
    /// Inject one selector exit while holding the producer's key.
    pub fault_abandon_selector_after_publications: Option<u64>,
}

/// Validated immutable main-stream configuration shared by every generation.
#[derive(Debug, Clone, PartialEq, Eq)]
pub struct MainConfig {
    pub selector: String,
    pub encoder: String,
    pub relay: String,
    pub selector_config: String,
    pub server: String,
    pub stream_id: String,
    pub size: Size,
    pub fps: u32,
    pub abandonment_fault: Option<u64>,
}

/// Validated settings of the fixed crop topology.
#[derive(Debug, Clone, PartialEq, Eq)]
pub struct YoutubeSettings {
    pub encoder: String,
    pub relay: String,
    pub server: String,
    pub stream_id: String,
    pub title: String,
    pub fps: u32,
    pub poll_interval_seconds: u64,
}

/// Fully validated mode-specific invocation.
#[derive(Debug, Clone, PartialEq, Eq)]
pub enum ValidatedMode {
    /// Safe profile selector and shared-texture cohort.
    Main {
        /// Resource and worker configuration.
        config: MainConfig,
        /// Server endpoint for selector transition metadata.
        info_url: String,
    },
    /// Fixed YouTube Music crop producer and relay.
    YoutubeMusic(YoutubeSettings),
}

/// Whether a URL names one of two schemes.
pub open spec fn has_scheme(url: Seq<char>, plain: Seq<char>, secure: Seq<char>) -> bool {
    text::stands_at(url, plain, 0) || text::stands_at(url, secure, 0)
}

/// The failure of a file lookup, if it failed.
pub open spec fn file_fault(file: FileCheck) -> Option<Seq<char>> {
    match file {
        Ok(_) => None,
        Err(reason) => Some(reason@),
    }
}

impl StreamArgs {
    /// The transport identifier in force.
    pub open spec fn id(self) -> Seq<char> {
        match self.stream_id {
            Some(id) => id@,
            None => self.mode.label(),
        }
    }

    /// The width in force.
    pub open spec fn output_width(self) -> u32 {
        match self.width {
            Some(width) => width,
            None => 1920,
        }
    }

    /// The height in force.
    pub open spec fn output_height(self) -> u32 {
        match self.height {
            Some(height) => height,
            None => 1200,
        }
    }

    /// The frame rate in force.
    pub open spec fn rate(self) -> u32 {
        match self.fps {
            Some(fps) => fps,
            None => self.mode.fps(),
        }
    }

    /// What is wrong with the arguments that both topologies share.
    pub open spec fn common_fault(self) -> Option<Seq<char>> {
        if text::trimmed(self.id()).len() == 0 {
            Some("stream ID must not be empty"@)
        } else if !has_scheme(self.server@, "ws://"@, "wss://"@) {
            Some("--server must be a ws:// or wss:// URL"@)
        } else if file_fault(self.encoder) is Some {
            file_fault(self.encoder)
        } else {
            file_fault(self.relay)
        }
    }

    /// What is wrong with the arguments of main mode.
    pub open spec fn main_fault(self) -> Option<Seq<char>> {
        if self.youtube_music_title is Some || self.poll_interval_seconds is Some {
            Some(
                "--youtube-music-title and --poll-interval-seconds require --mode youtube-music"@,
            )
        } else if self.output_width() % 16 != 0 || self.output_height() % 16 != 0 {
            Some(texture::alignment_text(self.output_width(), self.output_height()))
        } else if self.info_url is None {
            Some("--info-url is required for --mode main"@)
        } else if !has_scheme(self.info_url->Some_0@, "http://"@, "https://"@) {
            Some("--info-url must be an http:// or https:// URL"@)
        } else if self.selector is None {
            Some("--selector is required for --mode main"@)
        } else if self.config is None {
            Some("--config is required for --mode main"@)
        } else if file_fault(self.selector->Some_0) is Some {
            file_fault(self.selector->Some_0)
        } else {
            file_fault(self.config->Some_0)
        }
    }

    /// What is wrong with the arguments of YouTube Music mode.
    pub open spec fn youtube_fault(self) -> Option<Seq<char>> {
        if self.selector is Some || self.config is Some || self.info_url is Some || self.width
            is Some || self.height is Some || self.fault_abandon_selector_after_publications
            is Some {
            Some(
                "selector, config, metadata, dimensions, and selector fault options require --mode main"@,
            )
        } else if self.youtube_music_title is None {
            Some("--youtube-music-title is required for --mode youtube-music"@)
        } else if self.youtube_music_title->Some_0@.len() == 0 {
            Some("YouTube Music title prefix must not be empty"@)
        } else {
            None
        }
    }

    /// What is wrong with the arguments, if anything is.
    pub open spec fn fault(self) -> Option<Seq<char>> {
        if self.common_fault() is Some {
            self.common_fault()
        } else {
            match self.mode {
                StreamMode::Main => self.main_fault(),
                StreamMode::YoutubeMusic => self.youtube_fault(),
            }
        }
    }

    /// Whether a validated mode carries these arguments.
    pub open spec fn carried_by(self, validated: ValidatedMode) -> bool {
        match validated {
            ValidatedMode::Main { config, info_url } => {
                &&& self.mode == StreamMode::Main
                &&& self.selector matches Some(Ok(selector)) && config.selector@ == selector@
                &&& self.encoder matches Ok(encoder) && config.encoder@ == encoder@
                &&& self.relay matches Ok(relay) && config.relay@ == relay@
                &&& self.config matches Some(Ok(document)) && config.selector_config@ == document@
                &&& config.server@ == self.server@
                &&& config.stream_id@ == self.id()
                &&& config.size == (Size {
                    width: self.output_width(),
                    height: self.output_height(),
                })
                &&& config.fps == self.rate()
                &&& config.abandonment_fault == self.fault_abandon_selector_after_publications
                &&& self.info_url matches Some(url) && info_url@ == url@
            },
            ValidatedMode::YoutubeMusic(settings) => {
                &&& self.mode == StreamMode::YoutubeMusic
                &&& self.encoder matches Ok(encoder) && settings.encoder@ == encoder@
                &&& self.relay matches Ok(relay) && settings.relay@ == relay@
                &&& settings.server@ == self.server@
                &&& settings.stream_id@ == self.id()
                &&& self.youtube_music_title matches Some(title) && settings.title@ == title@
                &&& settings.fps == self.rate()
                &&& settings.poll_interval_seconds == match self.poll_interval_seconds {
                    Some(seconds) => seconds,
                    None => 5,
                }
            },
        }
    }
}

fn validate_main(
    args: StreamArgs,
    stream_id: String,
    encoder: String,
    relay: String,
) -> (result: Result<ValidatedMode, String>)
    requires
        args.mode == StreamMode::Main,
        args.common_fault() is None,
        stream_id@ == args.id(),
        args.encoder matches Ok(path) && path@ == encoder@,
        args.relay matches Ok(path) && path@ == relay@,
    ensures
        match result {
            Ok(validated) => args.main_fault() is None && args.carried_by(validated),
            Err(message) => args.main_fault() == Some(message@),
        },
{
    if args.youtube_music_title.is_some() || args.poll_interval_seconds.is_some() {
        return Err(
            "--youtube-music-title and --poll-interval-seconds require --mode youtube-music".to_owned(),
        );
    }
    let width: u32 = match args.width {
        Some(width) => width,
        None => 1920,
    };
    let height: u32 = match args.height {
        Some(height) => height,
        None => 1200,
    };
    if let Err(message) = texture::validate_dimensions(width, height) {
        return Err(message);
    }
    let info_url = match args.info_url {
        Some(url) => url,
        None => {
            return Err("--info-url is required for --mode main".to_owned());
        },
    };
    if !text::begins_with(info_url.as_str(), "http://") && !text::begins_with(
        info_url.as_str(),
        "https://",
    ) {
        return Err("--info-url must be an http:// or https:// URL".to_owned());
    }
    let selector = match args.selector {
        Some(selector) => selector,
        None => {
            return Err("--selector is required for --mode main".to_owned());
        },
    };
    let selector_config = match args.config {
        Some(config) => config,
        None => {
            return Err("--config is required for --mode main".to_owned());
        },
    };
    let selector = match selector {
        Ok(path) => path,
        Err(message) => {
            return Err(message);
        },
    };
    let selector_config = match selector_config {
        Ok(path) => path,
        Err(message) => {
            return Err(message);
        },
    };
    let fps: u32 = match args.fps {
        Some(fps) => fps,
        None => args.mode.default_fps(),
    };
    Ok(
        ValidatedMode::Main {
            config: MainConfig {
                selector,
                encoder,
                relay,
                selector_config,
                server: args.server,
                stream_id,
                size: Size { width, height },
                fps,
                abandonment_fault: args.fault_abandon_selector_after_publications,
            },
            info_url,
        },
    )
}

fn validate_youtube(
    args: StreamArgs,
    stream_id: String,
    encoder: String,
    relay: String,
) -> (result: Result<ValidatedMode, String>)
    requires
        args.mode == StreamMode::YoutubeMusic,
        args.common_fault() is None,
        stream_id@ == args.id(),
        args.encoder matches Ok(path) && path@ == encoder@,
        args.relay matches Ok(path) && path@ == relay@,
    ensures
        match result {
            Ok(validated) => args.youtube_fault() is None && args.carried_by(validated),
            Err(message) => args.youtube_fault() == Some(message@),
        },
{
    if args.selector.is_some() || args.config.is_some() || args.info_url.is_some()
        || args.width.is_some() || args.height.is_some()
        || args.fault_abandon_selector_after_publications.is_some() {
        return Err(
            "selector, config, metadata, dimensions, and selector fault options require --mode main".to_owned(),
        );
    }
    let title = match args.youtube_music_title {
        Some(title) => title,
        None => {
            return Err("--youtube-music-title is required for --mode youtube-music".to_owned());
        },
    };
    if title.as_str().is_empty() {
        return Err("YouTube Music title prefix must not be empty".to_owned());
    }
    let fps: u32 = match args.fps {
        Some(fps) => fps,
        None => args.mode.default_fps(),
    };
    let poll_interval_seconds: u64 = match args.poll_interval_seconds {
        Some(seconds) => seconds,
        None => 5,
    };
    Ok(
        ValidatedMode::YoutubeMusic(
            YoutubeSettings {
                encoder,
                relay,
                server: args.server,
                stream_id,
                title,
                fps,
                poll_interval_seconds,
            },
        ),
    )
}

/// Reject ambiguous mode combinations before creating any kernel resource.
pub fn validate_args(args: StreamArgs) -> (result: Result<ValidatedMode, String>)
    ensures
        match result {
            Ok(validated) => args.fault() is None && args.carried_by(validated),
            Err(message) => args.fault() == Some(message@),
        },
{
    let stream_id = match &args.stream_id {
        Some(id) => id.clone(),
        None => args.mode.default_stream_id().to_owned(),
    };
    let trimmed = text::trim(stream_id.as_str());
    if trimmed.as_str().is_empty() {
        return Err("stream ID must not be empty".to_owned());
    }
    if !text::begins_with(args.server.as_str(), "ws://") && !text::begins_with(
        args.server.as_str(),
        "wss://",
    ) {
        return Err("--server must be a ws:// or wss:// URL".to_owned());
    }
    let encoder = match &args.encoder {
        Ok(path) => path.clone(),
        Err(message) => {
            return Err(message.clone());
        },
    };
    let relay = match &args.relay {
        Ok(path) => path.clone(),
        Err(message) => {
            return Err(message.clone());
        },
    };
    match args.mode {
        StreamMode::Main => validate_main(args, stream_id, encoder, relay),
        StreamMode::YoutubeMusic => validate_youtube(args, stream_id, encoder, relay),
    }
}

/// Exit of one child, with the uptime of its group in milliseconds.
#[derive(Debug, Clone, Copy, PartialEq, Eq, Structural)]
pub struct ChildExit {
    /// Exit code, absent if the process ended otherwise.
    pub code: Option<i32>,
    /// Uptime of the failed component group.
    pub stable_for: u64,
}

/// One child exit paired with the role that chooses the restart boundary.
#[derive(Debug, Clone, Copy, PartialEq, Eq, Structural)]
pub struct ObservedExit {
    pub component: Component,
    pub exit: ChildExit,
}

/// Returns the first observed child exit: capture before encoder before relay.
pub fn first_exit(
    capture: Option<ChildExit>,
    encoder: Option<ChildExit>,
    relay: Option<ChildExit>,
) -> (observed: Option<ObservedExit>)
    ensures
        observed == match (capture, encoder, relay) {
            (Some(exit), _, _) => Some(ObservedExit { component: Component::Capture, exit }),
            (None, Some(exit), _) => Some(ObservedExit { component: Component::Encoder, exit }),
            (None, None, Some(exit)) => Some(ObservedExit { component: Component::Relay, exit }),
            (None, None, None) => None,
        },
{
    if let Some(exit) = capture {
        return Some(ObservedExit { component: Component::Capture, exit });
    }
    if let Some(exit) = encoder {
        return Some(ObservedExit { component: Component::Encoder, exit });
    }
    if let Some(exit) = relay {
        return Some(ObservedExit { component: Component::Relay, exit });
    }
    None
}

/// Recovery of one exit: what is restarted, and after how many milliseconds.
#[derive(Debug, Clone, Copy, PartialEq, Eq, Structural)]
pub struct RecoveryPlan {
    pub scope: RecoveryScope,
    pub delay: u64,
}

/// Process and resource bookkeeping of one supervised stream.
pub struct MainSupervisor {
    generation: u64,
    mailbox: bool,
    capture: bool,
    pipeline: bool,
    capture_backoff: RestartBackoff,
    pipeline_backoff: RestartBackoff,
    generation_backoff: RestartBackoff,
    abandonment_fault: Option<u64>,
}

/// What a supervisor knows.
pub struct SupervisorModel {
    /// Resource-generation identifier.
    pub generation: u64,
    /// Whether the shared texture exists.
    pub mailbox: bool,
    /// Whether the capture worker runs.
    pub capture: bool,
    /// Whether the encoder and its relay run.
    pub pipeline: bool,
    pub capture_failures: u32,
    pub pipeline_failures: u32,
    pub generation_failures: u32,
    /// Fault that the next capture worker is launched with.
    pub abandonment_fault: Option<u64>,
}

impl View for MainSupervisor {
    type V = SupervisorModel;

    closed spec fn view(&self) -> SupervisorModel {
        SupervisorModel {
            generation: self.generation,
            mailbox: self.mailbox,
            capture: self.capture,
            pipeline: self.pipeline,
            capture_failures: self.capture_backoff@,
            pipeline_failures: self.pipeline_backoff@,
            generation_failures: self.generation_backoff@,
            abandonment_fault: self.abandonment_fault,
        }
    }
}

impl SupervisorModel {
    /// No worker outlives the shared texture.
    pub open spec fn well_formed(self) -> bool {
        self.capture || self.pipeline ==> self.mailbox
    }

    /// What is left running when a scope is recovered.
    pub open spec fn stopped(self, scope: RecoveryScope) -> SupervisorModel {
        match scope {
            RecoveryScope::Capture => SupervisorModel { capture: false, ..self },
            RecoveryScope::EncoderRelay => SupervisorModel { pipeline: false, ..self },
            RecoveryScope::ResourceGeneration => SupervisorModel {
                mailbox: false,
                capture: false,
                pipeline: false,
                ..self
            },
        }
    }

    /// The failures counted for a scope.
    pub open spec fn failures(self, scope: RecoveryScope) -> u32 {
        match scope {
            RecoveryScope::Capture => self.capture_failures,
            RecoveryScope::EncoderRelay => self.pipeline_failures,
            RecoveryScope::ResourceGeneration => self.generation_failures,
        }
    }

    /// The supervisor with other failures counted for a scope.
    pub open spec fn with_failures(self, scope: RecoveryScope, failures: u32) -> SupervisorModel {
        match scope {
            RecoveryScope::Capture => SupervisorModel { capture_failures: failures, ..self },
            RecoveryScope::EncoderRelay => SupervisorModel { pipeline_failures: failures, ..self },
            RecoveryScope::ResourceGeneration => SupervisorModel {
                generation_failures: failures,
                ..self
            },
        }
    }
}

/// What a scope is called in diagnostics.
pub open spec fn scope_label(scope: RecoveryScope) -> Seq<char> {
    match scope {
        RecoveryScope::Capture => "live-selector"@,
        RecoveryScope::EncoderRelay => "live-encoder/live-ws"@,
        RecoveryScope::ResourceGeneration => "resource generation"@,
    }
}

impl MainSupervisor {
    /// Construct an empty supervisor before the first generation attempt.
    pub fn new(abandonment_fault: Option<u64>) -> (supervisor: MainSupervisor)
        ensures
            supervisor@.well_formed(),
            supervisor@ == (SupervisorModel {
                generation: 0,
                mailbox: false,
                capture: false,
                pipeline: false,
                capture_failures: 0,
                pipeline_failures: 0,
                generation_failures: 0,
                abandonment_fault,
            }),
    {
        MainSupervisor {
            generation: 0,
            mailbox: false,
            capture: false,
            pipeline: false,
            capture_backoff: RestartBackoff::default(),
            pipeline_backoff: RestartBackoff::default(),
            generation_backoff: RestartBackoff::default(),
            abandonment_fault,
        }
    }

    /// Begins one complete worker/resource cohort and numbers it.
    pub fn begin_generation(&mut self) -> (result: Result<u64, &'static str>)
        ensures
            match result {
                Ok(generation) => old(self)@.generation < u64::MAX && generation
                    == old(self)@.generation + 1 && final(self)@ == (SupervisorModel {
                    generation,
                    ..old(self)@
                }),
                Err(message) => old(self)@.generation == u64::MAX && message@
                    == "resource generation counter overflowed"@ && final(self)@ == old(self)@,
            },
    {
        match self.generation.checked_add(1) {
            Some(generation) => {
                self.generation = generation;
                Ok(generation)
            },
            None => Err("resource generation counter overflowed"),
        }
    }

    /// Returns the fault that the next capture worker of a new generation is launched with.
    pub fn pending_fault(&self) -> (fault: Option<u64>)
        ensures
            fault == self@.abandonment_fault,
    {
        self.abandonment_fault
    }

    /// Notes that the capture worker of a new generation is launched; its fault, if it had one,
    /// is never launched again.
    pub fn capture_launched(&mut self)
        ensures
            final(self)@ == (SupervisorModel { abandonment_fault: None, ..old(self)@ }),
    {
        self.abandonment_fault = None;
    }

    /// Publishes one complete cohort, and forgets the failures of single components.
    pub fn generation_started(&mut self)
        ensures
            final(self)@.well_formed(),
            final(self)@ == (SupervisorModel {
                mailbox: true,
                capture: true,
                pipeline: true,
                capture_failures: 0,
                pipeline_failures: 0,
                ..old(self)@
            }),
    {
        self.mailbox = true;
        self.capture = true;
        self.pipeline = true;
        self.capture_backoff.reset();
        self.pipeline_backoff.reset();
    }

    fn charge(&mut self, scope: RecoveryScope, stable_for: u64) -> (result: Result<u64, String>)
        ensures
            ({
                let counted = restart::charged(old(self)@.failures(scope), stable_for);
                match result {
                    Ok(delay) => counted < restart::MAX_CONSECUTIVE_RESTARTS && delay
                        == restart::delay_after(counted as nat) && final(self)@
                        == old(self)@.with_failures(scope, (counted + 1) as u32),
                    Err(message) => counted >= restart::MAX_CONSECUTIVE_RESTARTS && message@
                        == restart::exhaustion_text(scope_label(scope), counted) && final(self)@
                        == old(self)@.with_failures(scope, counted),
                }
            }),
    {
        match scope {
            RecoveryScope::Capture => restart::next_delay(
                &mut self.capture_backoff,
                stable_for,
                "live-selector",
            ),
            RecoveryScope::EncoderRelay => restart::next_delay(
                &mut self.pipeline_backoff,
                stable_for,
                "live-encoder/live-ws",
            ),
            RecoveryScope::ResourceGeneration => restart::next_delay(
                &mut self.generation_backoff,
                stable_for,
                "resource generation",
            ),
        }
    }

    /// Stops the smallest scope that recovers an exit, and charges its restart.
    ///
    /// A lost resource generation is charged with the uptime of the whole generation.
    pub fn recover(&mut self, observed: ObservedExit, generation_uptime: u64) -> (result: Result<
        RecoveryPlan,
        String,
    >)
        requires
            old(self)@.well_formed(),
        ensures
            final(self)@.well_formed(),
            ({
                let scope = restart::scope_of(observed.component, observed.exit.code);
                let stable_for = if scope == RecoveryScope::ResourceGeneration {
                    generation_uptime
                } else {
                    observed.exit.stable_for
                };
                let counted = restart::charged(old(self)@.failures(scope), stable_for);
                match result {
                    Ok(plan) => {
                        &&& counted < restart::MAX_CONSECUTIVE_RESTARTS
                        &&& plan.scope == scope
                        &&& plan.delay == restart::delay_after(counted as nat)
                        &&& final(self)@ == old(self)@.stopped(scope).with_failures(
                            scope,
                            (counted + 1) as u32,
                        )
                    },
                    Err(message) => {
                        &&& counted >= restart::MAX_CONSECUTIVE_RESTARTS
                        &&& message@ == restart::exhaustion_text(scope_label(scope), counted)
                        &&& final(self)@ == old(self)@.stopped(scope).with_failures(
                            scope,
                            counted,
                        )
                    },
                }
            }),
    {
        let scope = restart::recovery_scope(observed.component, observed.exit.code);
        let stable_for: u64 = match scope {
            RecoveryScope::Capture => {
                self.capture = false;
                observed.exit.stable_for
            },
            RecoveryScope::EncoderRelay => {
                self.pipeline = false;
                observed.exit.stable_for
            },
            RecoveryScope::ResourceGeneration => {
                self.mailbox = false;
                self.capture = false;
                self.pipeline = false;
                generation_uptime
            },
        };
        match self.charge(scope, stable_for) {
            Ok(delay) => Ok(RecoveryPlan { scope, delay }),
            Err(message) => Err(message),
        }
    }

    /// Charges a failed restart, which lasted no time at all.
    pub fn retry(&mut self, scope: RecoveryScope) -> (result: Result<u64, String>)
        ensures
            match result {
                Ok(delay) => old(self)@.failures(scope) < restart::MAX_CONSECUTIVE_RESTARTS && delay
                    == restart::delay_after(old(self)@.failures(scope) as nat) && final(self)@
                    == old(self)@.with_failures(scope, (old(self)@.failures(scope) + 1) as u32),
                Err(message) => old(self)@.failures(scope) >= restart::MAX_CONSECUTIVE_RESTARTS
                    && message@ == restart::exhaustion_text(
                    scope_label(scope),
                    old(self)@.failures(scope),
                ) && final(self)@ == old(self)@,
            },
    {
        self.charge(scope, 0)
    }

    /// Notes that the capture worker runs again on the retained texture.
    pub fn capture_restarted(&mut self)
        requires
            old(self)@.mailbox,
        ensures
            final(self)@.well_formed(),
            final(self)@ == (SupervisorModel { capture: true, ..old(self)@ }),
    {
        self.capture = true;
    }

    /// Notes that the encoder and its relay run again on the retained texture.
    pub fn pipeline_restarted(&mut self)
        requires
            old(self)@.mailbox,
        ensures
            final(self)@.well_formed(),
            final(self)@ == (SupervisorModel { pipeline: true, ..old(self)@ }),
    {
        self.pipeline = true;
    }
}

/// A local recovery leaves the shared texture and the other worker alone; only the loss of the
/// resources replaces everything.
pub proof fn law_recovery_stops_no_more_than_it_must(supervisor: SupervisorModel)
    ensures
        ({
            let capture = supervisor.stopped(RecoveryScope::Capture);
            capture.mailbox == supervisor.mailbox && capture.pipeline == supervisor.pipeline
        }),
        ({
            let pipeline = supervisor.stopped(RecoveryScope::EncoderRelay);
            pipeline.mailbox == supervisor.mailbox && pipeline.capture == supervisor.capture
        }),
        ({
            let all = supervisor.stopped(RecoveryScope::ResourceGeneration);
            !all.mailbox && !all.capture && !all.pipeline
        }),
{
}

fn push_option(arguments: &mut Vec<String>, name: &str, value: String)
    ensures
        text::texts(final(arguments)@) == text::texts(old(arguments)@) + seq![name@, value@],
{
    let ghost before = text::texts(arguments@);
    arguments.push(name.to_owned());
    arguments.push(value);
    assert(text::texts(arguments@) =~= before + seq![name@, value@]);
}

fn decimal_of(value: u64) -> (text: String)
    ensures
        text@ == text::decimal(value as nat),
{
    let mut text = "".to_owned();
    proof {
        reveal_strlit("");
    }
    text::push_decimal(&mut text, value);
    assert(text@ =~= text::decimal(value as nat));
    text
}

/// Where the shared texture is found: its inherited handle and its adapter.
#[derive(Debug, Clone, PartialEq, Eq)]
pub struct SharedOutput {
    /// Inherited handle.
    pub handle: u64,
    /// Adapter identity as it is written on the command line.
    pub adapter: String,
}

/// The command line of the selector.
pub open spec fn selector_line(config: MainConfig, output: SharedOutput, fault: Option<u64>) -> Seq<
    Seq<char>,
> {
    seq![
        "--config"@,
        config.selector_config@,
        "--width"@,
        text::decimal(config.size.width as nat),
        "--height"@,
        text::decimal(config.size.height as nat),
        "--shared-handle"@,
        text::decimal(output.handle as nat),
        "--adapter-luid"@,
        output.adapter@,
    ] + match fault {
        Some(after) => seq!["--fault-abandon-after-publications"@, text::decimal(after as nat)],
        None => Seq::empty(),
    }
}

/// Builds the command line of the selector.
pub fn selector_arguments(config: &MainConfig, output: &SharedOutput, fault: Option<u64>) -> (result:
    Vec<String>)
    ensures
        text::texts(result@) == selector_line(*config, *output, fault),
{
    let mut arguments: Vec<String> = Vec::new();
    assert(text::texts(arguments@) =~= Seq::empty());
    push_option(&mut arguments, "--config", config.selector_config.clone());
    push_option(&mut arguments, "--width", decimal_of(config.size.width as u64));
    push_option(&mut arguments, "--height", decimal_of(config.size.height as u64));
    push_option(&mut arguments, "--shared-handle", decimal_of(output.handle));
    push_option(&mut arguments, "--adapter-luid", output.adapter.clone());
    if let Some(after) = fault {
        push_option(&mut arguments, "--fault-abandon-after-publications", decimal_of(after));
    }
    assert(text::texts(arguments@) =~= selector_line(*config, *output, fault));
    arguments
}

/// The command line of the encoder.
pub open spec fn encoder_line(
    shared_mode: bool,
    size: Size,
    fps: u32,
    stream_id: Seq<char>,
    output: SharedOutput,
) -> Seq<Seq<char>> {
    (if shared_mode {
        seq!["--mode"@, "shared"@]
    } else {
        Seq::empty()
    }) + seq![
        "--width"@,
        text::decimal(size.width as nat),
        "--height"@,
        text::decimal(size.height as nat),
        "--fps"@,
        text::decimal(fps as nat),
        "--stream-id"@,
        stream_id,
        "--shared-handle"@,
        text::decimal(output.handle as nat),
        "--adapter-luid"@,
        output.adapter@,
    ]
}

/// Builds the command line of the encoder; main streams name the shared mode explicitly.
pub fn encoder_arguments(
    shared_mode: bool,
    size: Size,
    fps: u32,
    stream_id: &str,
    output: &SharedOutput,
) -> (result: Vec<String>)
    ensures
        text::texts(result@) == encoder_line(shared_mode, size, fps, stream_id@, *output),
{
    let mut arguments: Vec<String> = Vec::new();
    assert(text::texts(arguments@) =~= Seq::empty());
    if shared_mode {
        push_option(&mut arguments, "--mode", "shared".to_owned());
    }
    push_option(&mut arguments, "--width", decimal_of(size.width as u64));
    push_option(&mut arguments, "--height", decimal_of(size.height as u64));
    push_option(&mut arguments, "--fps", decimal_of(fps as u64));
    push_option(&mut arguments, "--stream-id", stream_id.to_owned());
    push_option(&mut arguments, "--shared-handle", decimal_of(output.handle));
    push_option(&mut arguments, "--adapter-luid", output.adapter.clone());
    assert(text::texts(arguments@) =~= encoder_line(shared_mode, size, fps, stream_id@, *output));
    arguments
}

/// The command line of the relay.
pub open spec fn relay_line(server: Seq<char>, stream_id: Seq<char>) -> Seq<Seq<char>> {
    seq!["--mode"@, "video"@, "--server"@, server, "--stream-id"@, stream_id]
}

/// Builds the command line of the relay.
pub fn relay_arguments(server: &str, stream_id: &str) -> (result: Vec<String>)
    ensures
        text::texts(result@) == relay_line(server@, stream_id@),
{
    let mut arguments: Vec<String> = Vec::new();
    assert(text::texts(arguments@) =~= Seq::empty());
    push_option(&mut arguments, "--mode", "video".to_owned());
    push_option(&mut arguments, "--server", server.to_owned());
    push_option(&mut arguments, "--stream-id", stream_id.to_owned());
    assert(text::texts(arguments@) =~= relay_line(server@, stream_id@));
    arguments
}

/// The command line of a capture worker with a fixed crop.
pub open spec fn capture_line(hwnd: u64, crop: CropBox, size: Size, output: SharedOutput) -> Seq<
    Seq<char>,
> {
    seq![
        "--hwnd"@,
        text::decimal(hwnd as nat),
        "--crop-min-x"@,
        text::decimal(crop.min_x as nat),
        "--crop-min-y"@,
        text::decimal(crop.min_y as nat),
        "--crop-max-x"@,
        text::decimal(crop.max_x as nat),
        "--crop-max-y"@,
        text::decimal(crop.max_y as nat),
        "--width"@,
        text::decimal(size.width as nat),
        "--height"@,
        text::decimal(size.height as nat),
        "--no-preview"@,
        "--shared-handle"@,
        text::decimal(output.handle as nat),
        "--adapter-luid"@,
        output.adapter@,
    ]
}

/// Builds the command line of a capture worker with a fixed crop.
pub fn capture_arguments(hwnd: u64, crop: CropBox, size: Size, output: &SharedOutput) -> (result:
    Vec<String>)
    ensures
        text::texts(result@) == capture_line(hwnd, crop, size, *output),
{
    let mut arguments: Vec<String> = Vec::new();
    assert(text::texts(arguments@) =~= Seq::empty());
    push_option(&mut arguments, "--hwnd", decimal_of(hwnd));
    push_option(&mut arguments, "--crop-min-x", decimal_of(crop.min_x as u64));
    push_option(&mut arguments, "--crop-min-y", decimal_of(crop.min_y as u64));
    push_option(&mut arguments, "--crop-max-x", decimal_of(crop.max_x as u64));
    push_option(&mut arguments, "--crop-max-y", decimal_of(crop.max_y as u64));
    push_option(&mut arguments, "--width", decimal_of(size.width as u64));
    push_option(&mut arguments, "--height", decimal_of(size.height as u64));
    let ghost before = text::texts(arguments@);
    arguments.push("--no-preview".to_owned());
    assert(text::texts(arguments@) =~= before.push("--no-preview"@));
    push_option(&mut arguments, "--shared-handle", decimal_of(output.handle));
    push_option(&mut arguments, "--adapter-luid", output.adapter.clone());
    assert(text::texts(arguments@) =~= capture_line(hwnd, crop, size, *output));
    arguments
}

/// After an exit the worker that exited is no longer taken to run. Unless the shared resources
/// were lost, the shared texture and the other workers are left as they were; a lost resource
/// generation stops everything.
pub proof fn law_exited_workers_are_stopped(
    supervisor: &mut MainSupervisor,
    observed: ObservedExit,
    generation_uptime: u64,
    result: Result<RecoveryPlan, String>,
)
    requires
        call_ensures(MainSupervisor::recover, (supervisor, observed, generation_uptime), result),
    ensures
        observed.component == Component::Capture ==> !final(supervisor)@.capture,
        observed.component == Component::Encoder || observed.component == Component::Relay
            ==> !final(supervisor)@.pipeline,
        observed.exit.code != Some(75i32) ==> {
            &&& final(supervisor)@.mailbox == old(supervisor)@.mailbox
            &&& observed.component == Component::Capture ==> final(supervisor)@.pipeline == old(
                supervisor,
            )@.pipeline
            &&& observed.component != Component::Capture ==> final(supervisor)@.capture == old(
                supervisor,
            )@.capture
        },
        observed.exit.code == Some(75i32) ==> {
            &&& !final(supervisor)@.mailbox
            &&& !final(supervisor)@.capture
            &&& !final(supervisor)@.pipeline
        },
        final(supervisor)@.generation == old(supervisor)@.generation,
        final(supervisor)@.abandonment_fault == old(supervisor)@.abandonment_fault,
{
}

/// An exit is charged to the failures of the part that is restarted and to no others. It is
/// recovered as long as fewer than six failures came before it without half a minute of uptime in
/// between: that of the worker, or of the whole generation where its resources were lost.
pub proof fn law_exits_are_charged_to_their_part(
    supervisor: &mut MainSupervisor,
    observed: ObservedExit,
    generation_uptime: u64,
    result: Result<RecoveryPlan, String>,
)
    requires
        call_ensures(MainSupervisor::recover, (supervisor, observed, generation_uptime), result),
    ensures
        ({
            let lost = observed.exit.code == Some(75i32);
            let captured = observed.component == Component::Capture;
            let before = old(supervisor)@;
            let after = final(supervisor)@;
            let uptime = if lost {
                generation_uptime
            } else {
                observed.exit.stable_for
            };
            let (failures, counted) = if lost {
                (before.generation_failures, after.generation_failures)
            } else if captured {
                (before.capture_failures, after.capture_failures)
            } else {
                (before.pipeline_failures, after.pipeline_failures)
            };
            &&& result is Ok <==> failures < 6 || uptime >= 30_000
            &&& result is Ok ==> counted == if uptime >= 30_000 {
                1int
            } else {
                failures + 1
            }
            &&& result is Err ==> counted == failures
            &&& result matches Ok(plan) ==> {
                &&& plan.delay == match counted {
                    1 => 250int,
                    2 => 500int,
                    3 => 1_000int,
                    4 => 2_000int,
                    _ => 4_000int,
                }
                &&& plan.scope == if lost {
                    RecoveryScope::ResourceGeneration
                } else if captured {
                    RecoveryScope::Capture
                } else {
                    RecoveryScope::EncoderRelay
                }
            }
            &&& !lost ==> after.generation_failures == before.generation_failures
            &&& lost || !captured ==> after.capture_failures == before.capture_failures
            &&& lost || captured ==> after.pipeline_failures == before.pipeline_failures
        }),
{
    reveal_with_fuel(restart::delay_after, 7);
}

/// A failed restart is charged like an exit without any uptime, and stops nothing.
pub proof fn law_failed_restarts_are_charged(
    supervisor: &mut MainSupervisor,
    scope: RecoveryScope,
    result: Result<u64, String>,
)
    requires
        call_ensures(MainSupervisor::retry, (supervisor, scope), result),
    ensures
        ({
            let before = old(supervisor)@;
            let after = final(supervisor)@;
            let failures = match scope {
                RecoveryScope::Capture => before.capture_failures,
                RecoveryScope::EncoderRelay => before.pipeline_failures,
                RecoveryScope::ResourceGeneration => before.generation_failures,
            };
            let extra: int = if result is Ok {
                1
            } else {
                0
            };
            &&& result is Ok <==> failures < 6
            &&& result matches Ok(delay) ==> delay == match failures {
                0 => 250int,
                1 => 500int,
                2 => 1_000int,
                3 => 2_000int,
                _ => 4_000int,
            }
            &&& after.capture_failures == before.capture_failures + if scope
                == RecoveryScope::Capture {
                extra
            } else {
                0
            }
            &&& after.pipeline_failures == before.pipeline_failures + if scope
                == RecoveryScope::EncoderRelay {
                extra
            } else {
                0
            }
            &&& after.generation_failures == before.generation_failures + if scope
                == RecoveryScope::ResourceGeneration {
                extra
            } else {
                0
            }
            &&& after.mailbox == before.mailbox
            &&& after.capture == before.capture
            &&& after.pipeline == before.pipeline
            &&& after.generation == before.generation
        }),
{
    reveal_with_fuel(restart::delay_after, 7);
}

/// A recovered worker runs again, beside whatever was left running.
pub proof fn law_recovered_workers_run_again(
    supervisor: &mut MainSupervisor,
    restarted: &mut MainSupervisor,
    observed: ObservedExit,
    generation_uptime: u64,
    result: Result<RecoveryPlan, String>,
)
    requires
        old(supervisor)@.mailbox && old(supervisor)@.capture && old(supervisor)@.pipeline,
        observed.exit.code != Some(75i32),
        call_ensures(MainSupervisor::recover, (supervisor, observed, generation_uptime), result),
        *old(restarted) == *final(supervisor),
        observed.component == Component::Capture ==> call_ensures(
            MainSupervisor::capture_restarted,
            (restarted,),
            (),
        ),
        observed.component != Component::Capture ==> call_ensures(
            MainSupervisor::pipeline_restarted,
            (restarted,),
            (),
        ),
    ensures
        final(restarted)@.mailbox,
        final(restarted)@.capture,
        final(restarted)@.pipeline,
        final(restarted)@.capture_failures == final(supervisor)@.capture_failures,
        final(restarted)@.pipeline_failures == final(supervisor)@.pipeline_failures,
        final(restarted)@.generation_failures == final(supervisor)@.generation_failures,
{
}

/// Generations are numbered from one without gaps. A started generation runs whole, and forgets
/// what single workers failed before, but not what whole generations did.
pub proof fn law_generations_are_numbered_and_run_whole(
    fault: Option<u64>,
    supervisor: MainSupervisor,
    first: &mut MainSupervisor,
    started: &mut MainSupervisor,
    second: &mut MainSupervisor,
    results: (Result<u64, &'static str>, Result<u64, &'static str>),
)
    requires
        call_ensures(MainSupervisor::new, (fault,), supervisor),
        *old(first) == supervisor,
        call_ensures(MainSupervisor::begin_generation, (first,), results.0),
        old(started)@.generation == final(first)@.generation,
        call_ensures(MainSupervisor::generation_started, (started,), ()),
        *old(second) == *final(started),
        call_ensures(MainSupervisor::begin_generation, (second,), results.1),
    ensures
        !supervisor@.mailbox && !supervisor@.capture && !supervisor@.pipeline,
        supervisor@.capture_failures == 0 && supervisor@.pipeline_failures == 0
            && supervisor@.generation_failures == 0,
        results.0 == Ok::<u64, &'static str>(1),
        results.1 == Ok::<u64, &'static str>(2),
        final(started)@.mailbox && final(started)@.capture && final(started)@.pipeline,
        final(started)@.capture_failures == 0 && final(started)@.pipeline_failures == 0,
        final(started)@.generation_failures == old(started)@.generation_failures,
        final(started)@.abandonment_fault == old(started)@.abandonment_fault,
{
}

/// A fault is handed to the first capture worker that is launched, and to no later one.
pub proof fn law_faults_are_launched_once(
    fault: Option<u64>,
    supervisor: MainSupervisor,
    pending: Option<u64>,
    launched: &mut MainSupervisor,
    after: Option<u64>,
)
    requires
        call_ensures(MainSupervisor::new, (fault,), supervisor),
        call_ensures(MainSupervisor::pending_fault, (&supervisor,), pending),
        *old(launched) == supervisor,
        call_ensures(MainSupervisor::capture_launched, (launched,), ()),
        call_ensures(MainSupervisor::pending_fault, (final(launched),), after),
    ensures
        pending == fault,
        after is None,
{
}

/// The exit that is handled is one that was seen, under the worker it was seen of; one of the
/// capture worker comes before the others, and one of the encoder before the relay's.
pub proof fn law_first_exits_are_seen_exits(
    capture: Option<ChildExit>,
    encoder: Option<ChildExit>,
    relay: Option<ChildExit>,
    observed: Option<ObservedExit>,
)
    requires
        call_ensures(first_exit, (capture, encoder, relay), observed),
    ensures
        observed is None <==> capture is None && encoder is None && relay is None,
        observed matches Some(observed) ==> match observed.component {
            Component::Capture => capture == Some(observed.exit),
            Component::Encoder => capture is None && encoder == Some(observed.exit),
            Component::Relay => capture is None && encoder is None && relay == Some(observed.exit),
        },
{
}

/// Arguments of main mode are accepted exactly if the stream has a name, the server is reached by
/// WebSocket and the metadata endpoint by HTTP, every file was found, given dimensions are
/// multiples of sixteen, and no option of the other mode is there.
pub proof fn law_main_arguments_are_accepted(
    args: StreamArgs,
    result: Result<ValidatedMode, String>,
)
    requires
        args.mode == StreamMode::Main,
        call_ensures(validate_args, (args,), result),
    ensures
        result is Ok <==> {
            &&& args.stream_id matches Some(id) ==> text::trimmed(id@).len() > 0
            &&& "ws://"@.is_prefix_of(args.server@) || "wss://"@.is_prefix_of(args.server@)
            &&& args.info_url is Some && ("http://"@.is_prefix_of(args.info_url->Some_0@)
                || "https://"@.is_prefix_of(args.info_url->Some_0@))
            &&& args.encoder is Ok && args.relay is Ok
            &&& args.selector is Some && args.selector->Some_0 is Ok
            &&& args.config is Some && args.config->Some_0 is Ok
            &&& args.width matches Some(width) ==> width % 16 == 0
            &&& args.height matches Some(height) ==> height % 16 == 0
            &&& args.youtube_music_title is None && args.poll_interval_seconds is None
        },
{
    lemma_modes_name_streams(args.mode);
    lemma_prefixes(args.server@, "ws://"@);
    lemma_prefixes(args.server@, "wss://"@);
    if let Some(url) = args.info_url {
        lemma_prefixes(url@, "http://"@);
        lemma_prefixes(url@, "https://"@);
    }
}

/// Arguments of YouTube Music mode are accepted exactly if the stream has a name, the server is
/// reached by WebSocket, both executables were found, a title is given and is not empty, and no
/// option of the other mode is there.
pub proof fn law_youtube_music_arguments_are_accepted(
    args: StreamArgs,
    result: Result<ValidatedMode, String>,
)
    requires
        args.mode == StreamMode::YoutubeMusic,
        call_ensures(validate_args, (args,), result),
    ensures
        result is Ok <==> {
            &&& args.stream_id matches Some(id) ==> text::trimmed(id@).len() > 0
            &&& "ws://"@.is_prefix_of(args.server@) || "wss://"@.is_prefix_of(args.server@)
            &&& args.encoder is Ok && args.relay is Ok
            &&& args.youtube_music_title is Some && args.youtube_music_title->Some_0@.len() > 0
            &&& args.selector is None && args.config is None && args.info_url is None
            &&& args.width is None && args.height is None
            &&& args.fault_abandon_selector_after_publications is None
        },
{
    lemma_modes_name_streams(args.mode);
    lemma_prefixes(args.server@, "ws://"@);
    lemma_prefixes(args.server@, "wss://"@);
}

proof fn lemma_prefixes(whole: Seq<char>, part: Seq<char>)
    ensures
        text::stands_at(whole, part, 0) == part.is_prefix_of(whole),
{
    if part.len() <= whole.len() {
        assert(whole.subrange(0, part.len() as int) =~= whole.take(part.len() as int));
    }
}

proof fn lemma_modes_name_streams(mode: StreamMode)
    ensures
        text::trimmed(mode.label()).len() > 0,
{
    reveal_strlit("main");
    reveal_strlit("youtube-music");
    let name = mode.label();
    assert(text::trimmed_start(name) == name);
    assert(text::trimmed_end(name) == name);
}

/// What is accepted is carried unchanged; where an option is absent, a main stream has 1920 by 1200
/// pixels, 60 frames per second and the name `main`, and a YouTube Music stream has 15 frames per
/// second, a search every five seconds and the name `youtube-music`.
pub proof fn law_accepted_arguments_are_carried(args: StreamArgs, validated: ValidatedMode)
    requires
        call_ensures(validate_args, (args,), Ok::<_, String>(validated)),
    ensures
        args.mode == StreamMode::Main <==> validated is Main,
        validated matches ValidatedMode::Main { config, info_url } ==> {
            &&& config.selector@ == args.selector->Some_0->Ok_0@
            &&& config.encoder@ == args.encoder->Ok_0@
            &&& config.relay@ == args.relay->Ok_0@
            &&& config.selector_config@ == args.config->Some_0->Ok_0@
            &&& config.server@ == args.server@
            &&& info_url@ == args.info_url->Some_0@
            &&& args.stream_id matches Some(id) ==> config.stream_id@ == id@
            &&& args.stream_id is None ==> config.stream_id@ == "main"@
            &&& args.width matches Some(width) ==> config.size.width == width
            &&& args.width is None ==> config.size.width == 1920
            &&& args.height matches Some(height) ==> config.size.height == height
            &&& args.height is None ==> config.size.height == 1200
            &&& args.fps matches Some(fps) ==> config.fps == fps
            &&& args.fps is None ==> config.fps == 60
            &&& config.abandonment_fault == args.fault_abandon_selector_after_publications
        },
        validated matches ValidatedMode::YoutubeMusic(settings) ==> {
            &&& settings.encoder@ == args.encoder->Ok_0@
            &&& settings.relay@ == args.relay->Ok_0@
            &&& settings.server@ == args.server@
            &&& settings.title@ == args.youtube_music_title->Some_0@
            &&& args.stream_id matches Some(id) ==> settings.stream_id@ == id@
            &&& args.stream_id is None ==> settings.stream_id@ == "youtube-music"@
            &&& args.fps matches Some(fps) ==> settings.fps == fps
            &&& args.fps is None ==> settings.fps == 15
            &&& args.poll_interval_seconds matches Some(seconds)
                ==> settings.poll_interval_seconds == seconds
            &&& args.poll_interval_seconds is None ==> settings.poll_interval_seconds == 5
        },
{
}

/// Whether an option stands on a command line at some place, with its value behind it.
pub open spec fn given(line: Seq<String>, at: int, name: Seq<char>, value: Seq<char>) -> bool {
    0 <= at && at + 1 < line.len() && line[at]@ == name && line[at + 1]@ == value
}

/// The selector is told its document, the size of the texture, its handle and its adapter, and the
/// fault that it is launched with, if there is one.
pub proof fn law_selectors_are_told_their_output(
    config: MainConfig,
    output: SharedOutput,
    fault: Option<u64>,
    line: Vec<String>,
)
    requires
        call_ensures(selector_arguments, (&config, &output, fault), line),
    ensures
        given(line@, 0, "--config"@, config.selector_config@),
        given(line@, 2, "--width"@, text::decimal(config.size.width as nat)),
        given(line@, 4, "--height"@, text::decimal(config.size.height as nat)),
        given(line@, 6, "--shared-handle"@, text::decimal(output.handle as nat)),
        given(line@, 8, "--adapter-luid"@, output.adapter@),
        fault is None ==> line@.len() == 10,
        fault matches Some(after) ==> line@.len() == 12 && given(
            line@,
            10,
            "--fault-abandon-after-publications"@,
            text::decimal(after as nat),
        ),
{
    lemma_line(line@, selector_line(config, output, fault));
}

/// The encoder is told its mode where the texture is shared by a selector, and always the size,
/// the frame rate, the stream, the handle of the texture and its adapter.
pub proof fn law_encoders_are_told_their_input(
    shared_mode: bool,
    size: Size,
    fps: u32,
    stream_id: &str,
    output: SharedOutput,
    line: Vec<String>,
)
    requires
        call_ensures(encoder_arguments, (shared_mode, size, fps, stream_id, &output), line),
    ensures
        ({
            let from: int = if shared_mode {
                2
            } else {
                0
            };
            &&& line@.len() == from + 12
            &&& shared_mode ==> given(line@, 0, "--mode"@, "shared"@)
            &&& given(line@, from, "--width"@, text::decimal(size.width as nat))
            &&& given(line@, from + 2, "--height"@, text::decimal(size.height as nat))
            &&& given(line@, from + 4, "--fps"@, text::decimal(fps as nat))
            &&& given(line@, from + 6, "--stream-id"@, stream_id@)
            &&& given(line@, from + 8, "--shared-handle"@, text::decimal(output.handle as nat))
            &&& given(line@, from + 10, "--adapter-luid"@, output.adapter@)
        }),
{
    lemma_line(line@, encoder_line(shared_mode, size, fps, stream_id@, output));
}

/// The relay is told that it carries video, and where to, and for which stream.
pub proof fn law_relays_are_told_their_server(server: &str, stream_id: &str, line: Vec<String>)
    requires
        call_ensures(relay_arguments, (server, stream_id), line),
    ensures
        line@.len() == 6,
        given(line@, 0, "--mode"@, "video"@),
        given(line@, 2, "--server"@, server@),
        given(line@, 4, "--stream-id"@, stream_id@),
{
    lemma_line(line@, relay_line(server@, stream_id@));
}

/// A capture worker with a fixed crop is told its window, both corners of the crop, the size of the
/// texture, its handle and its adapter, and that it shows no preview.
pub proof fn law_captures_are_told_their_crop(
    hwnd: u64,
    crop: CropBox,
    size: Size,
    output: SharedOutput,
    line: Vec<String>,
)
    requires
        call_ensures(capture_arguments, (hwnd, crop, size, &output), line),
    ensures
        line@.len() == 19,
        given(line@, 0, "--hwnd"@, text::decimal(hwnd as nat)),
        given(line@, 2, "--crop-min-x"@, text::decimal(crop.min_x as nat)),
        given(line@, 4, "--crop-min-y"@, text::decimal(crop.min_y as nat)),
        given(line@, 6, "--crop-max-x"@, text::decimal(crop.max_x as nat)),
        given(line@, 8, "--crop-max-y"@, text::decimal(crop.max_y as nat)),
        given(line@, 10, "--width"@, text::decimal(size.width as nat)),
        given(line@, 12, "--height"@, text::decimal(size.height as nat)),
        line@[14]@ == "--no-preview"@,
        given(line@, 15, "--shared-handle"@, text::decimal(output.handle as nat)),
        given(line@, 17, "--adapter-luid"@, output.adapter@),
{
    lemma_line(line@, capture_line(hwnd, crop, size, output));
}

proof fn lemma_line(line: Seq<String>, texts: Seq<Seq<char>>)
    requires
        text::texts(line) == texts,
    ensures
        line.len() == texts.len(),
        forall|i: int| 0 <= i < line.len() ==> (#[trigger] line[i])@ == texts[i],
{
    assert(text::texts(line).len() == line.len());
    assert forall|i: int| 0 <= i < line.len() implies (#[trigger] line[i])@ == texts[i] by {
        assert(text::texts(line)[i] == line[i]@);
    }
}

/// Topologies are named `main` and `youtube-music`, and their streams are by default.
pub proof fn law_topologies_are_named(
    mode: StreamMode,
    name: &'static str,
    id: &'static str,
    fps: u32,
)
    requires
        call_ensures(StreamMode::name, (mode,), name),
        call_ensures(StreamMode::default_stream_id, (mode,), id),
        call_ensures(StreamMode::default_fps, (mode,), fps),
    ensures
        name@ == id@,
        mode == StreamMode::Main ==> name@ == "main"@ && fps == 60,
        mode == StreamMode::YoutubeMusic ==> name@ == "youtube-music"@ && fps == 15,
{
}

} // verus!
