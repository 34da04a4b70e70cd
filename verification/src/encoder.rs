//! H.264 encoder output: Annex B parsing, stream messages and input checks.
use vstd::prelude::*;
use vstd::slice::{slice_subrange, slice_to_vec};
use crate::geometry::Size;
use crate::media::EncoderEvent;
use crate::wire::{self, MessageType};
use crate::{avcc, bytes, text};

verus! {

/// NAL unit types of a baseline-profile stream without B-frames.
#[derive(Debug, Clone, Copy, PartialEq, Eq, Structural)]
pub enum NALUnitType {
    /// Non-IDR slice (inter-predicted P-frame).
    NonIDR,
    /// Instantaneous Decoder Refresh (keyframe).
    IDR,
    /// Sequence Parameter Set: codec configuration.
    SPS,
    /// Picture Parameter Set: picture-level parameters.
    PPS,
}

/// The type that a NAL header byte carries in its five low-order bits.
pub open spec fn unit_type_of(header: u8) -> Option<NALUnitType> {
    if header % 32 == 1 {
        Some(NALUnitType::NonIDR)
    } else if header % 32 == 5 {
        Some(NALUnitType::IDR)
    } else if header % 32 == 7 {
        Some(NALUnitType::SPS)
    } else if header % 32 == 8 {
        Some(NALUnitType::PPS)
    } else {
        None
    }
}

impl NALUnitType {
    /// Parses the NAL unit type from the first byte after a start code; types that are not
    /// handled give `None`.
    pub fn from_header(header: u8) -> (result: Option<NALUnitType>)
        ensures
            result == unit_type_of(header),
    {
        assert(header & 0x1F == header % 32) by (bit_vector);
        match header & 0x1F {
            1 => Some(NALUnitType::NonIDR),
            5 => Some(NALUnitType::IDR),
            7 => Some(NALUnitType::SPS),
            8 => Some(NALUnitType::PPS),
            _ => None,
        }
    }
}

/// A single encoded H.264 NAL unit.
#[derive(Debug, Clone)]
pub struct NALUnit {
    /// Type of this NAL unit.
    pub unit_type: NALUnitType,
    /// Raw NAL unit data including the Annex B start code.
    pub data: Vec<u8>,
}

/// What one NAL unit says.
pub struct UnitView {
    pub unit_type: NALUnitType,
    pub data: Seq<u8>,
}

impl View for NALUnit {
    type V = UnitView;

    open spec fn view(&self) -> UnitView {
        UnitView { unit_type: self.unit_type, data: self.data@ }
    }
}

/// What some NAL units say.
pub open spec fn unit_views(units: Seq<NALUnit>) -> Seq<UnitView> {
    Seq::new(units.len(), |i: int| units[i]@)
}

/// The first position from `from` on where a start code stands, or the end of the data.
pub open spec fn next_start(data: Seq<u8>, from: int) -> int
    decreases data.len() - from,
{
    if from >= data.len() {
        data.len() as int
    } else if avcc::start_code_len(data.skip(from)) > 0 {
        from
    } else {
        next_start(data, from + 1)
    }
}

/// The handled NAL units from `from` on. A unit reaches to the next start code behind its
/// header byte; a start code with nothing behind it ends the stream.
pub open spec fn units_in(data: Seq<u8>, from: int) -> Seq<UnitView>
    decreases data.len() - from,
    when 0 <= from <= data.len()
    via units_in_decreases
{
    let start = next_start(data, from);
    let header = start + avcc::start_code_len(data.skip(start));
    if start >= data.len() || header >= data.len() {
        Seq::empty()
    } else {
        let end = next_start(data, header + 1);
        let rest = units_in(data, end);
        match unit_type_of(data[header]) {
            Some(unit_type) => seq![UnitView { unit_type, data: data.subrange(start, end) }] + rest,
            None => rest,
        }
    }
}

#[via_fn]
proof fn units_in_decreases(data: Seq<u8>, from: int) {
    let start = next_start(data, from);
    lemma_next_start(data, from);
    let header = start + avcc::start_code_len(data.skip(start));
    if start < data.len() && header < data.len() {
        lemma_next_start(data, header + 1);
    }
}

proof fn lemma_next_start(data: Seq<u8>, from: int)
    requires
        0 <= from <= data.len(),
    ensures
        from <= next_start(data, from) <= data.len(),
        next_start(data, from) < data.len() ==> avcc::start_code_len(
            data.skip(next_start(data, from)),
        ) > 0,
        forall|i: int|
            from <= i < next_start(data, from) ==> avcc::start_code_len(#[trigger] data.skip(i))
                == 0,
    decreases data.len() - from,
{
    if from < data.len() && avcc::start_code_len(data.skip(from)) == 0 {
        lemma_next_start(data, from + 1);
    }
}

/// Finds the first start code from `from` on and its length; `data.len()` and zero where there
/// is none.
fn find_start(data: &[u8], from: usize) -> (found: (usize, usize))
    requires
        from <= data@.len(),
    ensures
        found.0 == next_start(data@, from as int),
        from <= found.0 <= data@.len(),
        found.0 < data@.len() ==> found.1 == avcc::start_code_len(data@.skip(found.0 as int))
            && found.1 > 0 && found.0 + found.1 <= data@.len(),
{
    let mut position: usize = from;
    while position < data.len()
        invariant
            from <= position <= data@.len(),
            next_start(data@, position as int) == next_start(data@, from as int),
        decreases data@.len() - position,
    {
        let rest = slice_subrange(data, position, data.len());
        assert(rest@ == data@.skip(position as int));
        let length: usize = rest.len() - avcc::strip_start_code(rest).len();
        if length > 0 {
            return (position, length);
        }
        position = position + 1;
    }
    (data.len(), 0)
}

/// Parses the handled NAL units of one encoder output buffer by Annex B start codes.
pub fn parse_nal_units(data: &[u8]) -> (units: Vec<NALUnit>)
    ensures
        unit_views(units@) == units_in(data@, 0),
{
    let mut units: Vec<NALUnit> = Vec::new();
    let mut position: usize = 0;
    assert(unit_views(units@) =~= Seq::empty());
    assert(Seq::<UnitView>::empty() + units_in(data@, 0) =~= units_in(data@, 0));
    while position < data.len()
        invariant
            position <= data@.len(),
            unit_views(units@) + units_in(data@, position as int) == units_in(data@, 0),
        decreases data@.len() - position,
    {
        let (start, length) = find_start(data, position);
        if start >= data.len() || start + length >= data.len() {
            assert(units_in(data@, position as int) =~= Seq::empty());
            assert(unit_views(units@) + Seq::<UnitView>::empty() =~= unit_views(units@));
            return units;
        }
        let header: usize = start + length;
        let (end, _next) = find_start(data, header + 1);
        let ghost before = unit_views(units@);
        let ghost rest = units_in(data@, end as int);
        if let Some(unit_type) = NALUnitType::from_header(data[header]) {
            let unit = slice_to_vec(slice_subrange(data, start, end));
            units.push(NALUnit { unit_type, data: unit });
            proof {
                let view = UnitView { unit_type, data: unit@ };
                assert(unit_views(units@) =~= before.push(view));
                assert(before + (seq![view] + rest) =~= before.push(view) + rest);
            }
        }
        position = end;
    }
    assert(units_in(data@, position as int) =~= Seq::empty()) by {
        lemma_next_start(data@, position as int);
    }
    assert(unit_views(units@) + Seq::<UnitView>::empty() =~= unit_views(units@));
    units
}

/// Every parsed unit begins with a start code, carries its type in the byte behind it, and
/// holds no further start code behind that byte.
pub proof fn law_parsed_units_are_single(data: Seq<u8>, from: int)
    requires
        0 <= from <= data.len(),
    ensures
        forall|i: int|
            0 <= i < units_in(data, from).len() ==> {
                let unit = #[trigger] units_in(data, from)[i];
                let header = avcc::start_code_len(unit.data) as int;
                &&& 0 < header < unit.data.len()
                &&& unit_type_of(unit.data[header]) == Some(unit.unit_type)
                &&& forall|k: int|
                    header < k < unit.data.len() ==> avcc::start_code_len(
                        #[trigger] unit.data.skip(k),
                    ) == 0
            },
    decreases data.len() - from,
{
    let all = units_in(data, from);
    let start = next_start(data, from);
    lemma_next_start(data, from);
    let length = avcc::start_code_len(data.skip(start));
    let header = start + length;
    if start < data.len() && header < data.len() {
        lemma_next_start(data, header + 1);
        let end = next_start(data, header + 1);
        law_parsed_units_are_single(data, end);
        let rest = units_in(data, end);
        if let Some(unit_type) = unit_type_of(data[header]) {
            let unit = data.subrange(start, end);
            let tail = data.skip(start);
            assert(forall|k: int| 0 <= k < unit.len() ==> unit[k] == tail[k]);
            assert(avcc::start_code_len(unit) == length);
            assert forall|k: int| length < k < unit.len() implies avcc::start_code_len(
                #[trigger] unit.skip(k),
            ) == 0 by {
                let here = unit.skip(k);
                let there = data.skip(start + k);
                assert(avcc::start_code_len(there) == 0);
                assert(forall|j: int| 0 <= j < here.len() ==> here[j] == there[j]);
            }
            assert forall|i: int| 0 <= i < all.len() implies {
                let unit = #[trigger] all[i];
                let header = avcc::start_code_len(unit.data) as int;
                &&& 0 < header < unit.data.len()
                &&& unit_type_of(unit.data[header]) == Some(unit.unit_type)
                &&& forall|k: int|
                    header < k < unit.data.len() ==> avcc::start_code_len(
                        #[trigger] unit.data.skip(k),
                    ) == 0
            } by {
                if i > 0 {
                    assert(all[i] == rest[i - 1]);
                }
            }
        } else {
            assert(all == rest);
        }
    }
}

/// Bitrate of the encoded stream, in bits per second.
pub const DEFAULT_BITRATE: u32 = 8_000_000;

/// Settings that affect the encoded H.264 stream without describing its input.
#[derive(Debug, Clone, Copy, PartialEq, Eq, Hash, Structural)]
pub struct VideoEncoderConfig {
    /// Constant output frame rate, in frames per second.
    pub frame_rate: u32,
    /// Constant target bitrate, in bits per second.
    pub bitrate: u32,
}

impl VideoEncoderConfig {
    /// Rejects a configuration that encodes nothing.
    pub fn check(&self) -> (result: Result<(), &'static str>)
        ensures
            result == if self.frame_rate == 0 {
                Err::<(), &'static str>("encoder frame rate must be non-zero")
            } else if self.bitrate == 0 {
                Err("encoder bitrate must be non-zero")
            } else {
                Ok(())
            },
    {
        if self.frame_rate == 0 {
            return Err("encoder frame rate must be non-zero");
        }
        if self.bitrate == 0 {
            return Err("encoder bitrate must be non-zero");
        }
        Ok(())
    }
}

/// Construction parameters of the hardware encoder.
#[derive(Debug, Clone, Copy, PartialEq, Eq, Structural)]
pub struct H264EncoderConfig {
    pub frame_size: Size,
    pub frame_rate: u32,
    pub bitrate: u32,
}

impl H264EncoderConfig {
    /// Frames per group of pictures: every frame is an IDR at five frames per second and
    /// below, two seconds of frames otherwise.
    pub fn gop_size(&self) -> (frames: u32)
        requires
            self.frame_rate <= u32::MAX / 2,
        ensures
            frames == self.group_length(),
            frames == if self.frame_rate <= 5 {
                1
            } else {
                2 * self.frame_rate
            },
    {
        if self.frame_rate <= 5 {
            1
        } else {
            self.frame_rate * 2
        }
    }

    /// Width and height packed into one attribute value, width in the high word.
    pub fn packed_frame_size(&self) -> (packed: u64)
        ensures
            packed == self.frame_size.width * 0x1_0000_0000 + self.frame_size.height,
    {
        pack_words(self.frame_size.width, self.frame_size.height)
    }

    /// The frame rate as a packed ratio over one second.
    pub fn packed_frame_rate(&self) -> (packed: u64)
        ensures
            packed == self.frame_rate * 0x1_0000_0000 + 1,
    {
        pack_words(self.frame_rate, 1)
    }
}

/// The number of the H.264 baseline profile, which has no B-frames.
pub const PROFILE_BASELINE: u32 = 66;

/// The number of constant-bitrate rate control.
pub const RATE_CONTROL_CONSTANT: u32 = 0;

/// Which of the encoder's input types is planar 4:2:0.
pub const INPUT_TYPE_INDEX: u32 = 1;

/// How many steps the setup of an encoder has.
pub const SETUP_STEPS: usize = 15;

/// The encoded media type that is asked for.
#[derive(Debug, Clone, Copy, PartialEq, Eq, Structural)]
pub struct OutputType {
    /// Average bits per second.
    pub bitrate: u32,
    /// Packed width and height.
    pub frame_size: u64,
    /// Packed frame rate.
    pub frame_rate: u64,
    /// Profile number.
    pub profile: u32,
}

/// A low-latency setting that an encoder may do without.
#[derive(Debug, Clone, Copy, PartialEq, Eq, Structural)]
pub enum CodecSetting {
    /// B-frames between two reference frames.
    BFrameCount(u32),
    /// Frames per group of pictures.
    GopSize(u32),
    /// Low-latency mode.
    LowLatency(bool),
    /// Rate control mode.
    RateControl(u32),
}

/// One step of an encoder's setup.
#[derive(Debug, Clone, Copy, PartialEq, Eq, Structural)]
pub enum SetupStep {
    /// Start the media platform.
    StartPlatform,
    /// Find a hardware encoder.
    FindEncoder,
    /// Take the encoder's source of events.
    TakeEvents,
    /// Unlock asynchronous operation.
    UnlockAsync,
    /// Set the encoded media type.
    SetOutputType(OutputType),
    /// Set the offered input type with this index.
    SetInputType(u32),
    /// Create a device manager.
    CreateManager,
    /// Register the device with the manager.
    RegisterDevice,
    /// Attach the manager to the encoder.
    AttachManager,
    /// Apply a setting.
    Configure(CodecSetting),
    /// Announce that streaming begins.
    BeginStreaming,
    /// Announce the first sample.
    StartStream,
}

impl H264EncoderConfig {
    /// Whether a hardware encoder takes frames of this kind.
    pub open spec fn encodable(self) -> bool {
        &&& self.frame_size.width % 16 == 0
        &&& self.frame_size.height % 16 == 0
        &&& self.frame_rate <= u32::MAX / 2
    }

    /// The media type of the encoded stream.
    pub open spec fn output_type(self) -> OutputType {
        OutputType {
            bitrate: self.bitrate,
            frame_size: (self.frame_size.width * 0x1_0000_0000 + self.frame_size.height) as u64,
            frame_rate: (self.frame_rate * 0x1_0000_0000 + 1) as u64,
            profile: PROFILE_BASELINE,
        }
    }

    /// Frames per group of pictures.
    pub open spec fn group_length(self) -> u32 {
        if self.frame_rate <= 5 {
            1
        } else {
            (2 * self.frame_rate) as u32
        }
    }

    /// The steps of the setup, in order.
    pub open spec fn setup_path(self) -> Seq<SetupStep> {
        seq![
            SetupStep::StartPlatform,
            SetupStep::FindEncoder,
            SetupStep::TakeEvents,
            SetupStep::UnlockAsync,
            SetupStep::SetOutputType(self.output_type()),
            SetupStep::SetInputType(INPUT_TYPE_INDEX),
            SetupStep::CreateManager,
            SetupStep::RegisterDevice,
            SetupStep::AttachManager,
            SetupStep::Configure(CodecSetting::BFrameCount(0)),
            SetupStep::Configure(CodecSetting::GopSize(self.group_length())),
            SetupStep::Configure(CodecSetting::LowLatency(true)),
            SetupStep::Configure(CodecSetting::RateControl(RATE_CONTROL_CONSTANT)),
            SetupStep::BeginStreaming,
            SetupStep::StartStream,
        ]
    }
}

/// What a failed step is reported with, if with anything.
pub open spec fn setup_context(step: SetupStep) -> Option<Seq<char>> {
    match step {
        SetupStep::FindEncoder => Some("failed to find H264Encoder"@),
        SetupStep::TakeEvents => Some("failed to get IMFMediaEventGenerator interface"@),
        SetupStep::UnlockAsync => Some("failed to unlock async MFT"@),
        SetupStep::SetOutputType(_) => Some("failed to set output type"@),
        SetupStep::SetInputType(_) => Some("failed to set input type"@),
        SetupStep::RegisterDevice => Some("failed to register D3D11 device with DXGI manager"@),
        SetupStep::AttachManager => Some("failed to set D3D manager"@),
        _ => None,
    }
}

/// A setup that cannot go on.
#[derive(Debug, Clone, Copy, PartialEq, Eq)]
pub struct SetupFailure {
    /// What the failure is reported with, if with anything.
    pub context: Option<&'static str>,
}

impl SetupFailure {
    /// Whether this reports the failure of a step.
    pub open spec fn reports(self, step: SetupStep) -> bool {
        match self.context {
            Some(context) => setup_context(step) == Some(context@),
            None => setup_context(step) is None,
        }
    }
}

/// The setup of an encoder.
pub struct EncoderSetup {
    config: H264EncoderConfig,
    position: usize,
}

/// A setup: what it is for, and how many of its steps are done.
pub struct SetupModel {
    pub config: H264EncoderConfig,
    pub done: int,
}

impl View for EncoderSetup {
    type V = SetupModel;

    closed spec fn view(&self) -> SetupModel {
        SetupModel { config: self.config, done: self.position as int }
    }
}

impl SetupModel {
    /// The step that comes next, if one is left.
    pub open spec fn next(self) -> Option<SetupStep> {
        if self.done < self.config.setup_path().len() {
            Some(self.config.setup_path()[self.done])
        } else {
            None
        }
    }
}

impl EncoderSetup {
    #[verifier::type_invariant]
    spec fn valid(self) -> bool {
        self.config.encodable() && self.position <= SETUP_STEPS
    }

    /// Prepares the setup of an encoder.
    pub fn new(config: H264EncoderConfig) -> (setup: EncoderSetup)
        requires
            config.encodable(),
        ensures
            setup@ == (SetupModel { config, done: 0 }),
    {
        EncoderSetup { config, position: 0 }
    }

    /// Tells the next step; nothing when the encoder is ready.
    pub fn step(&self) -> (step: Option<SetupStep>)
        ensures
            step == self@.next(),
    {
        proof {
            use_type_invariant(self);
        }
        let config = self.config;
        let at: usize = self.position;
        if at == 0 {
            Some(SetupStep::StartPlatform)
        } else if at == 1 {
            Some(SetupStep::FindEncoder)
        } else if at == 2 {
            Some(SetupStep::TakeEvents)
        } else if at == 3 {
            Some(SetupStep::UnlockAsync)
        } else if at == 4 {
            let output_type = OutputType {
                bitrate: config.bitrate,
                frame_size: config.packed_frame_size(),
                frame_rate: config.packed_frame_rate(),
                profile: PROFILE_BASELINE,
            };
            Some(SetupStep::SetOutputType(output_type))
        } else if at == 5 {
            Some(SetupStep::SetInputType(INPUT_TYPE_INDEX))
        } else if at == 6 {
            Some(SetupStep::CreateManager)
        } else if at == 7 {
            Some(SetupStep::RegisterDevice)
        } else if at == 8 {
            Some(SetupStep::AttachManager)
        } else if at == 9 {
            Some(SetupStep::Configure(CodecSetting::BFrameCount(0)))
        } else if at == 10 {
            Some(SetupStep::Configure(CodecSetting::GopSize(config.gop_size())))
        } else if at == 11 {
            Some(SetupStep::Configure(CodecSetting::LowLatency(true)))
        } else if at == 12 {
            Some(SetupStep::Configure(CodecSetting::RateControl(RATE_CONTROL_CONSTANT)))
        } else if at == 13 {
            Some(SetupStep::BeginStreaming)
        } else if at == 14 {
            Some(SetupStep::StartStream)
        } else {
            None
        }
    }

    /// Notes how the next step ended. An encoder may refuse a setting; every other failure ends
    /// the setup.
    pub fn attempted(&mut self, succeeded: bool) -> (result: Result<(), SetupFailure>)
        requires
            old(self)@.next() is Some,
        ensures
            ({
                let step = old(self)@.next()->Some_0;
                match result {
                    Ok(()) => (succeeded || step is Configure) && final(self)@ == (SetupModel {
                        done: old(self)@.done + 1,
                        ..old(self)@
                    }),
                    Err(failure) => !succeeded && step !is Configure && failure.reports(step)
                        && final(self)@ == old(self)@,
                }
            }),
    {
        proof {
            use_type_invariant(&*self);
        }
        let optional = match self.step() {
            Some(SetupStep::Configure(_)) => true,
            _ => false,
        };
        if succeeded || optional {
            self.position = self.position + 1;
            return Ok(());
        }
        let context = match self.step() {
            Some(SetupStep::FindEncoder) => Some("failed to find H264Encoder"),
            Some(SetupStep::TakeEvents) => Some("failed to get IMFMediaEventGenerator interface"),
            Some(SetupStep::UnlockAsync) => Some("failed to unlock async MFT"),
            Some(SetupStep::SetOutputType(_)) => Some("failed to set output type"),
            Some(SetupStep::SetInputType(_)) => Some("failed to set input type"),
            Some(SetupStep::RegisterDevice) => Some(
                "failed to register D3D11 device with DXGI manager",
            ),
            Some(SetupStep::AttachManager) => Some("failed to set D3D manager"),
            _ => None,
        };
        Err(SetupFailure { context })
    }
}

/// Both media types are set before a device manager is attached, the output type first; settings
/// follow the manager, and streaming begins behind everything else.
pub proof fn law_setup_is_ordered(config: H264EncoderConfig, earlier: int, later: int)
    requires
        0 <= earlier < later < config.setup_path().len(),
    ensures
        ({
            let first = config.setup_path()[earlier];
            let second = config.setup_path()[later];
            &&& second is SetOutputType ==> first !is SetInputType
            &&& second is SetOutputType || second is SetInputType ==> first !is AttachManager
            &&& second is AttachManager ==> first !is Configure
            &&& first is BeginStreaming ==> second is StartStream
            &&& first !is StartStream
        }),
{
}

/// Frame times of an encoder run, in nanoseconds.
#[derive(Debug, Clone, Copy, PartialEq, Eq, Structural)]
pub struct EncoderClock {
    /// Frames submitted so far.
    pub frame_count: u64,
    /// Time from the start to the last frame.
    pub elapsed_ns: u64,
}

/// Time and duration of one media sample, in units of 100 ns.
#[derive(Debug, Clone, Copy, PartialEq, Eq, Structural)]
pub struct SampleTimes {
    pub time: i64,
    pub duration: i64,
}

impl EncoderClock {
    /// Starts before the first frame.
    pub fn new() -> (clock: EncoderClock)
        ensures
            clock == (EncoderClock { frame_count: 0, elapsed_ns: 0 }),
    {
        EncoderClock { frame_count: 0, elapsed_ns: 0 }
    }

    /// Counts a frame, and gives its sample times in whole microseconds.
    pub fn advance(&mut self, since_last_ns: u64) -> (times: SampleTimes)
        requires
            old(self).frame_count < u64::MAX,
            old(self).elapsed_ns + since_last_ns <= u64::MAX,
        ensures
            final(self).frame_count == old(self).frame_count + 1,
            final(self).elapsed_ns == old(self).elapsed_ns + since_last_ns,
            times.time == (old(self).elapsed_ns + since_last_ns) / 1000 * 10,
            times.duration == since_last_ns as int / 1000 * 10,
    {
        self.frame_count = self.frame_count + 1;
        self.elapsed_ns = self.elapsed_ns + since_last_ns;
        SampleTimes {
            time: (self.elapsed_ns / 1000 * 10) as i64,
            duration: (since_last_ns / 1000 * 10) as i64,
        }
    }
}

/// What waiting for the encoder gave.
#[derive(Debug, Clone, Copy, PartialEq, Eq, Structural)]
pub enum EncoderPoll {
    /// No event could be read.
    Failed,
    /// The encoder gave an event.
    Event(EncoderEvent),
}

/// What an encoder run does next.
#[derive(Debug, Clone, Copy, PartialEq, Eq, Structural)]
pub enum EncoderAction {
    /// It waits for the next event.
    Wait,
    /// It submits one frame.
    ProcessInput,
    /// It takes one encoded access unit out.
    ProcessOutput,
}

/// Decides what follows a wait: frames go in and access units come out only as the encoder asks
/// for it, and nothing else ends the run.
pub fn run_step(poll: EncoderPoll) -> (action: EncoderAction)
    ensures
        action == match poll {
            EncoderPoll::Event(EncoderEvent::NeedInput) => EncoderAction::ProcessInput,
            EncoderPoll::Event(EncoderEvent::HaveOutput) => EncoderAction::ProcessOutput,
            _ => EncoderAction::Wait,
        },
{
    match poll {
        EncoderPoll::Failed => EncoderAction::Wait,
        EncoderPoll::Event(event) => match event {
            EncoderEvent::NeedInput => EncoderAction::ProcessInput,
            EncoderEvent::HaveOutput => EncoderAction::ProcessOutput,
            EncoderEvent::DrainComplete => EncoderAction::Wait,
            EncoderEvent::Other => EncoderAction::Wait,
        },
    }
}

/// Picks a hardware encoder by its friendly name: the first that names NVIDIA in any case.
pub fn find_h264_encoder(names: &[String]) -> (result: Result<usize, &'static str>)
    ensures
        match result {
            Ok(index) => {
                &&& index < names@.len()
                &&& names_nvidia(names@[index as int]@)
                &&& forall|k: int| 0 <= k < index ==> !names_nvidia(#[trigger] names@[k]@)
            },
            Err(message) => {
                &&& forall|k: int| 0 <= k < names@.len() ==> !names_nvidia(#[trigger] names@[k]@)
                &&& message@ == if names@.len() == 0 {
                    "no hardware H.264 encoder found"@
                } else {
                    "no matching hardware H.264 encoder found for the current adapter"@
                }
            },
        },
{
    if names.len() == 0 {
        return Err("no hardware H.264 encoder found");
    }
    let mut i: usize = 0;
    while i < names.len()
        invariant
            i <= names@.len(),
            forall|k: int| 0 <= k < i ==> !names_nvidia(#[trigger] names@[k]@),
        decreases names@.len() - i,
    {
        let lower = text::to_ascii_lowercase(names[i].as_str());
        if text::contains_text(lower.as_str(), "nvidia") {
            return Ok(i);
        }
        i = i + 1;
    }
    Err("no matching hardware H.264 encoder found for the current adapter")
}

/// Whether a name holds `nvidia`, in any case.
pub open spec fn names_nvidia(name: Seq<char>) -> bool {
    text::has_part(text::ascii_lowercase(name), "nvidia"@)
}

fn pack_words(high: u32, low: u32) -> (packed: u64)
    ensures
        packed == high * 0x1_0000_0000 + low,
{
    high as u64 * 0x1_0000_0000 + low as u64
}

/// Splits a packed attribute value into its high and its low word.
pub fn unpack_words(packed: u64) -> (words: (u32, u32))
    ensures
        packed == words.0 * 0x1_0000_0000 + words.1,
{
    ((packed / 0x1_0000_0000) as u32, (packed % 0x1_0000_0000) as u32)
}

/// Codec initialization of one stream.
#[derive(Debug, Clone, PartialEq, Eq)]
pub struct CodecParams {
    pub sps: Vec<u8>,
    pub pps: Vec<u8>,
    pub width: u32,
    pub height: u32,
}

/// One message of the encoded stream before its payload is laid out in bytes.
#[derive(Debug, Clone, PartialEq, Eq)]
pub enum StreamMessage {
    /// Codec initialization for the frames that follow.
    CodecParams(CodecParams),
    /// One encoded frame.
    Frame {
        /// Header flags of the frame.
        flags: u8,
        /// Wall-clock time of the frame.
        timestamp_us: u64,
        /// Length-prefixed NAL units of the frame.
        avcc: Vec<u8>,
    },
}

impl StreamMessage {
    /// The wire type of this message.
    pub fn message_type(&self) -> (message_type: MessageType)
        ensures
            message_type == match self {
                StreamMessage::CodecParams(_) => MessageType::CodecParams,
                StreamMessage::Frame { .. } => MessageType::Frame,
            },
    {
        match self {
            StreamMessage::CodecParams(_) => MessageType::CodecParams,
            StreamMessage::Frame { .. } => MessageType::Frame,
        }
    }
}

/// What one stream message says.
pub enum MessageView {
    Codec { sps: Seq<u8>, pps: Seq<u8>, size: Size },
    Frame { flags: u8, timestamp_us: u64, avcc: Seq<u8> },
}

impl View for StreamMessage {
    type V = MessageView;

    open spec fn view(&self) -> MessageView {
        match self {
            StreamMessage::CodecParams(params) => MessageView::Codec {
                sps: params.sps@,
                pps: params.pps@,
                size: Size { width: params.width, height: params.height },
            },
            StreamMessage::Frame { flags, timestamp_us, avcc } => MessageView::Frame {
                flags: *flags,
                timestamp_us: *timestamp_us,
                avcc: avcc@,
            },
        }
    }
}

/// What some stream messages say.
pub open spec fn message_views(messages: Seq<StreamMessage>) -> Seq<MessageView> {
    Seq::new(messages.len(), |i: int| messages[i]@)
}

/// The first unit of a type.
pub open spec fn first_of_type(units: Seq<UnitView>, unit_type: NALUnitType) -> Option<Seq<u8>>
    decreases units.len(),
{
    if units.len() == 0 {
        None
    } else if units[0].unit_type == unit_type {
        Some(units[0].data)
    } else {
        first_of_type(units.skip(1), unit_type)
    }
}

/// The data of some units.
pub open spec fn unit_data(units: Seq<UnitView>) -> Seq<Seq<u8>> {
    Seq::new(units.len(), |i: int| units[i].data)
}

/// Whether some unit is an IDR slice.
pub open spec fn has_idr(units: Seq<UnitView>) -> bool {
    exists|i: int| 0 <= i < units.len() && (#[trigger] units[i]).unit_type == NALUnitType::IDR
}

/// What a stream writer remembers of the codec parameters it sent.
pub struct WriterView {
    pub frame_size: Size,
    pub last_sps: Option<Seq<u8>>,
    pub last_pps: Option<Seq<u8>>,
}

impl WriterView {
    /// Whether an access unit brings both parameter sets and one of them is new.
    pub open spec fn announces(self, units: Seq<UnitView>) -> bool {
        let sps = first_of_type(units, NALUnitType::SPS);
        let pps = first_of_type(units, NALUnitType::PPS);
        sps is Some && pps is Some && (sps != self.last_sps || pps != self.last_pps)
    }

    /// The state after an access unit that was written.
    pub open spec fn after(self, units: Seq<UnitView>) -> WriterView {
        if self.announces(units) {
            WriterView {
                last_sps: first_of_type(units, NALUnitType::SPS),
                last_pps: first_of_type(units, NALUnitType::PPS),
                ..self
            }
        } else {
            self
        }
    }

    /// The state after an access unit's messages were handed to the output: only a unit that was
    /// written whole is remembered.
    pub open spec fn noting(self, units: Seq<UnitView>, succeeded: bool) -> WriterView {
        if succeeded {
            self.after(units)
        } else {
            self
        }
    }

    /// The messages of an access unit: changed codec parameters, then the frame.
    pub open spec fn messages(self, units: Seq<UnitView>, timestamp_us: u64) -> Seq<MessageView> {
        let frame = MessageView::Frame {
            flags: if has_idr(units) {
                wire::flags::IS_KEYFRAME
            } else {
                0
            },
            timestamp_us,
            avcc: avcc::avcc_of(avcc::stripped_units(unit_data(units))),
        };
        if units.len() == 0 {
            Seq::empty()
        } else if self.announces(units) {
            seq![
                MessageView::Codec {
                    sps: first_of_type(units, NALUnitType::SPS)->Some_0,
                    pps: first_of_type(units, NALUnitType::PPS)->Some_0,
                    size: self.frame_size,
                },
                frame,
            ]
        } else {
            seq![frame]
        }
    }
}

/// Stateful serializer for codec initialization and encoded access units.
///
/// Parameter sets are remembered so that unchanged ones are not repeated.
pub struct ProtocolWriter {
    frame_size: Size,
    last_sps: Option<Vec<u8>>,
    last_pps: Option<Vec<u8>>,
}

impl View for ProtocolWriter {
    type V = WriterView;

    closed spec fn view(&self) -> WriterView {
        WriterView {
            frame_size: self.frame_size,
            last_sps: bytes::optional_bytes(self.last_sps),
            last_pps: bytes::optional_bytes(self.last_pps),
        }
    }
}

fn find_unit(units: &[NALUnit], unit_type: NALUnitType) -> (found: Option<usize>)
    ensures
        match found {
            Some(i) => i < units@.len() && first_of_type(unit_views(units@), unit_type) == Some(
                units@[i as int].data@,
            ),
            None => first_of_type(unit_views(units@), unit_type) is None,
        },
{
    let ghost views = unit_views(units@);
    let mut i: usize = 0;
    assert(views.skip(0) =~= views);
    while i < units.len()
        invariant
            i <= units@.len(),
            views == unit_views(units@),
            first_of_type(views.skip(i as int), unit_type) == first_of_type(views, unit_type),
        decreases units@.len() - i,
    {
        assert(views.skip(i as int)[0] == views[i as int]);
        if units[i].unit_type == unit_type {
            return Some(i);
        }
        assert(views.skip(i as int).skip(1) =~= views.skip(i + 1));
        i = i + 1;
    }
    None
}

fn any_idr(units: &[NALUnit]) -> (found: bool)
    ensures
        found == has_idr(unit_views(units@)),
{
    let ghost views = unit_views(units@);
    let mut i: usize = 0;
    while i < units.len()
        invariant
            i <= units@.len(),
            views == unit_views(units@),
            forall|k: int| 0 <= k < i ==> (#[trigger] views[k]).unit_type != NALUnitType::IDR,
        decreases units@.len() - i,
    {
        assert(views[i as int] == units@[i as int]@);
        if units[i].unit_type == NALUnitType::IDR {
            return true;
        }
        i = i + 1;
    }
    false
}

fn borrow_data<'a>(units: &'a [NALUnit]) -> (data: Vec<&'a [u8]>)
    ensures
        avcc::contents(data@) == unit_data(unit_views(units@)),
{
    let mut data: Vec<&'a [u8]> = Vec::new();
    let mut i: usize = 0;
    while i < units.len()
        invariant
            i <= units@.len(),
            data@.len() == i,
            forall|k: int| 0 <= k < i ==> (#[trigger] data@[k])@ == units@[k].data@,
        decreases units@.len() - i,
    {
        data.push(units[i].data.as_slice());
        i = i + 1;
    }
    assert(avcc::contents(data@) =~= unit_data(unit_views(units@)));
    data
}

fn remembers(remembered: &Option<Vec<u8>>, set: &[u8]) -> (same: bool)
    ensures
        same == (bytes::optional_bytes(*remembered) == Some(set@)),
{
    match remembered {
        Some(bytes) => bytes::same_bytes(bytes.as_slice(), set),
        None => false,
    }
}

impl ProtocolWriter {
    /// Creates a serializer for one fixed-resolution video stream.
    pub fn new(frame_size: Size) -> (writer: ProtocolWriter)
        ensures
            writer@ == (WriterView { frame_size, last_sps: None, last_pps: None }),
    {
        ProtocolWriter { frame_size, last_sps: None, last_pps: None }
    }

    /// Gives any changed codec parameters followed by one encoded frame; empty encoder outputs
    /// give nothing. Nothing counts as sent until `written` is told that all of it was.
    pub fn write_access_unit(&self, nal_units: &[NALUnit], timestamp_us: u64) -> (messages: Vec<
        StreamMessage,
    >)
        ensures
            message_views(messages@) == self@.messages(unit_views(nal_units@), timestamp_us),
    {
        let ghost views = unit_views(nal_units@);
        let mut messages: Vec<StreamMessage> = Vec::new();
        if nal_units.len() == 0 {
            assert(message_views(messages@) =~= Seq::empty());
            return messages;
        }
        let sps = find_unit(nal_units, NALUnitType::SPS);
        let pps = find_unit(nal_units, NALUnitType::PPS);
        if let (Some(sps_index), Some(pps_index)) = (sps, pps) {
            let sps_data = nal_units[sps_index].data.as_slice();
            let pps_data = nal_units[pps_index].data.as_slice();
            if !remembers(&self.last_sps, sps_data) || !remembers(&self.last_pps, pps_data) {
                messages.push(
                    StreamMessage::CodecParams(
                        CodecParams {
                            sps: slice_to_vec(sps_data),
                            pps: slice_to_vec(pps_data),
                            width: self.frame_size.width,
                            height: self.frame_size.height,
                        },
                    ),
                );
            }
        }
        let flags: u8 = if any_idr(nal_units) {
            wire::flags::IS_KEYFRAME
        } else {
            0
        };
        let data = borrow_data(nal_units);
        let payload = avcc::serialize_avcc_payload(data.as_slice());
        messages.push(StreamMessage::Frame { flags, timestamp_us, avcc: payload });
        assert(message_views(messages@) =~= self@.messages(views, timestamp_us));
        messages
    }

    /// Notes whether all messages of an access unit were written. If so, its codec parameters
    /// are not repeated; after a failure of any write, nothing is remembered of the unit.
    pub fn written(&mut self, nal_units: &[NALUnit], succeeded: bool)
        ensures
            final(self)@ == old(self)@.noting(unit_views(nal_units@), succeeded),
    {
        if !succeeded {
            return;
        }
        let sps = find_unit(nal_units, NALUnitType::SPS);
        let pps = find_unit(nal_units, NALUnitType::PPS);
        if let (Some(sps_index), Some(pps_index)) = (sps, pps) {
            self.last_sps = Some(slice_to_vec(nal_units[sps_index].data.as_slice()));
            self.last_pps = Some(slice_to_vec(nal_units[pps_index].data.as_slice()));
        }
    }
}

/// After any failed write of an access unit the same unit gives the same messages again, codec
/// parameters among them if they were announced.
pub proof fn law_failed_writes_are_announced_again(
    state: WriterView,
    units: Seq<UnitView>,
    first_us: u64,
    retry_us: u64,
)
    ensures
        state.noting(units, false).announces(units) == state.announces(units),
        state.noting(units, false).messages(units, first_us) == state.messages(units, first_us),
        units.len() > 0 && state.announces(units) ==> {
            let retry = state.noting(units, false).messages(units, retry_us);
            &&& retry.len() == 2
            &&& retry[0] is Codec && retry[0] == state.messages(units, first_us)[0]
            &&& retry[1] is Frame
        },
{
}

/// A writer after some access units, each of which was written or not.
pub open spec fn writer_after(start: WriterView, writes: Seq<(Seq<UnitView>, bool)>) -> WriterView
    decreases writes.len(),
{
    if writes.len() == 0 {
        start
    } else {
        writer_after(start, writes.drop_last()).noting(writes.last().0, writes.last().1)
    }
}

/// Codec parameters are left out of a stream only if they were announced by an access unit that
/// was written whole, and nothing else was announced and written since.
pub proof fn law_remembered_parameters_were_written(
    frame_size: Size,
    writes: Seq<(Seq<UnitView>, bool)>,
)
    ensures
        ({
            let fresh = WriterView { frame_size, last_sps: None, last_pps: None };
            let state = writer_after(fresh, writes);
            &&& state.frame_size == frame_size
            &&& state.last_sps is Some <==> state.last_pps is Some
            &&& state.last_sps is Some ==> exists|i: int|
                {
                    &&& 0 <= i < writes.len()
                    &&& (#[trigger] writes[i]).1
                    &&& writer_after(fresh, writes.take(i)).announces(writes[i].0)
                    &&& first_of_type(writes[i].0, NALUnitType::SPS) == state.last_sps
                    &&& first_of_type(writes[i].0, NALUnitType::PPS) == state.last_pps
                    &&& forall|j: int|
                        i < j < writes.len() && (#[trigger] writes[j]).1 ==> !writer_after(
                            fresh,
                            writes.take(j),
                        ).announces(writes[j].0)
                }
        }),
    decreases writes.len(),
{
    let fresh = WriterView { frame_size, last_sps: None, last_pps: None };
    if writes.len() > 0 {
        let shorter = writes.drop_last();
        let last = writes.len() - 1;
        law_remembered_parameters_were_written(frame_size, shorter);
        let before = writer_after(fresh, shorter);
        let state = writer_after(fresh, writes);
        assert(writes.take(last) =~= shorter);
        if writes[last].1 && before.announces(writes[last].0) {
            assert(first_of_type(writes[last].0, NALUnitType::SPS) == state.last_sps);
        } else if state.last_sps is Some {
            let i = choose|i: int|
                {
                    &&& 0 <= i < shorter.len()
                    &&& (#[trigger] shorter[i]).1
                    &&& writer_after(fresh, shorter.take(i)).announces(shorter[i].0)
                    &&& first_of_type(shorter[i].0, NALUnitType::SPS) == before.last_sps
                    &&& first_of_type(shorter[i].0, NALUnitType::PPS) == before.last_pps
                    &&& forall|j: int|
                        i < j < shorter.len() && (#[trigger] shorter[j]).1 ==> !writer_after(
                            fresh,
                            shorter.take(j),
                        ).announces(shorter[j].0)
                };
            assert(writes[i] == shorter[i]);
            assert(writes.take(i) =~= shorter.take(i));
            assert forall|j: int| i < j < writes.len() && (#[trigger] writes[j]).1 implies !writer_after(
                fresh,
                writes.take(j),
            ).announces(writes[j].0) by {
                if j < last {
                    assert(writes[j] == shorter[j]);
                    assert(writes.take(j) =~= shorter.take(j));
                }
            }
        }
    }
}

/// Codec parameters precede the first frame that brings both sets, and are not repeated while
/// they stay the same.
pub proof fn law_unchanged_parameters_are_not_repeated(
    state: WriterView,
    units: Seq<UnitView>,
    first_us: u64,
    second_us: u64,
)
    requires
        units.len() > 0,
    ensures
        state.messages(units, first_us).last() is Frame,
        !state.after(units).announces(units),
        state.after(units).messages(units, second_us).len() == 1,
        state.last_sps is None && first_of_type(units, NALUnitType::SPS) is Some && first_of_type(
            units,
            NALUnitType::PPS,
        ) is Some ==> state.messages(units, first_us)[0] is Codec,
{
}

/// The five low-order bits of a NAL header tell its type: 1, 5, 7 and 8 are handled.
pub proof fn law_headers_tell_their_type(header: u8, result: Option<NALUnitType>)
    requires
        call_ensures(NALUnitType::from_header, (header,), result),
    ensures
        result == Some(NALUnitType::NonIDR) <==> header % 32 == 1,
        result == Some(NALUnitType::IDR) <==> header % 32 == 5,
        result == Some(NALUnitType::SPS) <==> header % 32 == 7,
        result == Some(NALUnitType::PPS) <==> header % 32 == 8,
{
}

/// Whether a start code begins at a place: two zeros and a one, or three zeros and a one.
pub open spec fn code_at(data: Seq<u8>, at: int) -> bool {
    ||| at + 2 < data.len() && data[at] == 0 && data[at + 1] == 0 && data[at + 2] == 1
    ||| at + 3 < data.len() && data[at] == 0 && data[at + 1] == 0 && data[at + 2] == 0 && data[at
        + 3] == 1
}

proof fn lemma_codes(data: Seq<u8>, at: int)
    requires
        0 <= at <= data.len(),
    ensures
        code_at(data, at) <==> avcc::start_code_len(data.skip(at)) > 0,
{
    let rest = data.skip(at);
    assert(forall|k: int| 0 <= k < rest.len() ==> rest[k] == data[at + k]);
    if at + 2 < data.len() {
        assert(rest[0] == data[at] && rest[1] == data[at + 1] && rest[2] == data[at + 2]);
    }
    if at + 3 < data.len() {
        assert(rest[3] == data[at + 3]);
    }
}

/// Bytes in front of the first start code are no unit.
pub proof fn law_leading_bytes_are_skipped(
    data: &[u8],
    rest: &[u8],
    front: Seq<u8>,
    all: Vec<NALUnit>,
    units: Vec<NALUnit>,
)
    requires
        data@ == front + rest@,
        forall|k: int| 0 <= k < front.len() ==> !#[trigger] code_at(data@, k),
        call_ensures(parse_nal_units, (data,), all),
        call_ensures(parse_nal_units, (rest,), units),
    ensures
        unit_views(all@) == unit_views(units@),
{
    let whole = front + rest@;
    assert forall|k: int| 0 <= k < front.len() implies avcc::start_code_len(
        #[trigger] whole.skip(k),
    ) == 0 by {
        lemma_codes(whole, k);
    }
    lemma_next_start_behind(whole, 0, front.len() as int);
    lemma_next_start_shifts(front, rest@, 0);
    lemma_units_from_start(whole, 0, front.len() as int);
    lemma_units_shift(front, rest@, 0);
}

proof fn lemma_next_start_behind(data: Seq<u8>, from: int, to: int)
    requires
        0 <= from <= to <= data.len(),
        forall|k: int| from <= k < to ==> avcc::start_code_len(#[trigger] data.skip(k)) == 0,
    ensures
        next_start(data, from) == next_start(data, to),
    decreases to - from,
{
    if from < to {
        assert(avcc::start_code_len(data.skip(from)) == 0);
        lemma_next_start_behind(data, from + 1, to);
    }
}

proof fn lemma_next_start_shifts(front: Seq<u8>, rest: Seq<u8>, from: int)
    requires
        0 <= from <= rest.len(),
    ensures
        next_start(front + rest, front.len() + from) == front.len() + next_start(rest, from),
    decreases rest.len() - from,
{
    assert((front + rest).skip(front.len() + from) =~= rest.skip(from));
    if from < rest.len() {
        lemma_next_start_shifts(front, rest, from + 1);
    }
}

proof fn lemma_units_from_start(data: Seq<u8>, from: int, to: int)
    requires
        0 <= from <= to <= data.len(),
        next_start(data, from) == next_start(data, to),
    ensures
        units_in(data, from) == units_in(data, to),
{
}

proof fn lemma_units_shift(front: Seq<u8>, rest: Seq<u8>, from: int)
    requires
        0 <= from <= rest.len(),
    ensures
        units_in(front + rest, front.len() + from) == units_in(rest, from),
    decreases rest.len() - from,
{
    let whole = front + rest;
    let start = next_start(rest, from);
    lemma_next_start_shifts(front, rest, from);
    lemma_next_start(rest, from);
    assert(whole.skip(front.len() + start) =~= rest.skip(start));
    let header = start + avcc::start_code_len(rest.skip(start));
    if start < rest.len() && header < rest.len() {
        let end = next_start(rest, header + 1);
        lemma_next_start(rest, header + 1);
        lemma_next_start_shifts(front, rest, header + 1);
        lemma_units_shift(front, rest, end);
        assert(whole[front.len() + header] == rest[header]);
        assert(whole.subrange(front.len() + start, front.len() + end) =~= rest.subrange(
            start,
            end,
        ));
    }
}

/// A unit reaches from its start code up to the next one; it comes out with its start code and
/// under its type if that is handled, in front of the units that follow.
pub proof fn law_units_come_out_in_order(
    data: &[u8],
    code: Seq<u8>,
    unit: Seq<u8>,
    rest: &[u8],
    header: Option<NALUnitType>,
    all: Vec<NALUnit>,
    units: Vec<NALUnit>,
)
    requires
        code == seq![0u8, 0u8, 1u8] || code == seq![0u8, 0u8, 0u8, 1u8],
        unit.len() > 0,
        data@ == code + unit + rest@,
        forall|k: int|
            code.len() < k < code.len() + unit.len() ==> !#[trigger] code_at(data@, k),
        rest@.len() > 0 ==> code_at(rest@, 0),
        call_ensures(NALUnitType::from_header, (unit[0],), header),
        call_ensures(parse_nal_units, (data,), all),
        call_ensures(parse_nal_units, (rest,), units),
    ensures
        unit_views(all@) == match header {
            Some(unit_type) => seq![UnitView { unit_type, data: code + unit }] + unit_views(units@),
            None => unit_views(units@),
        },
{
    let front = code + unit;
    let whole = front + rest@;
    let at = code.len() as int;
    let end = front.len() as int;
    assert(whole =~= data@);
    assert(whole.skip(0) =~= whole);
    assert(forall|k: int| 0 <= k < at ==> whole[k] == code[k]);
    assert(whole[0] == code[0] && whole[1] == code[1] && whole[2] == code[2]);
    if at == 4 {
        assert(whole[3] == code[3]);
    }
    assert(avcc::start_code_len(whole.skip(0)) == at);
    assert(next_start(whole, 0) == 0);
    assert(whole[at] == unit[0]);
    assert forall|k: int| at + 1 <= k < end implies avcc::start_code_len(#[trigger] whole.skip(k))
        == 0 by {
        assert(!code_at(data@, k));
        lemma_codes(whole, k);
    }
    lemma_next_start_behind(whole, at + 1, end);
    lemma_next_start_shifts(front, rest@, 0);
    if rest@.len() > 0 {
        lemma_codes(rest@, 0);
    }
    assert(next_start(rest@, 0) == 0);
    assert(next_start(whole, at + 1) == end);
    lemma_units_shift(front, rest@, 0);
    assert(whole.subrange(0, end) =~= front);
}

/// Whether the first unit of a type stands at a place.
pub open spec fn first_at(units: Seq<NALUnit>, unit_type: NALUnitType, at: int) -> bool {
    &&& 0 <= at < units.len()
    &&& units[at].unit_type == unit_type
    &&& forall|k: int| 0 <= k < at ==> (#[trigger] units[k]).unit_type != unit_type
}

proof fn lemma_first_of_type(units: Seq<NALUnit>, unit_type: NALUnitType, from: int)
    requires
        0 <= from <= units.len(),
        forall|k: int| 0 <= k < from ==> (#[trigger] units[k]).unit_type != unit_type,
    ensures
        match first_of_type(unit_views(units).skip(from), unit_type) {
            Some(data) => exists|at: int|
                first_at(units, unit_type, at) && (#[trigger] units[at]).data@ == data,
            None => forall|k: int| 0 <= k < units.len() ==> (#[trigger] units[k]).unit_type
                != unit_type,
        },
    decreases units.len() - from,
{
    let views = unit_views(units);
    let rest = views.skip(from);
    if from < units.len() {
        assert(rest[0] == units[from]@);
        if units[from].unit_type == unit_type {
            assert(first_at(units, unit_type, from) && units[from].data@ == rest[0].data);
        } else {
            assert(rest.skip(1) =~= views.skip(from + 1));
            lemma_first_of_type(units, unit_type, from + 1);
        }
    }
}

/// An access unit without NAL units gives nothing. Any other gives one frame, last, under its
/// timestamp, marked as a keyframe exactly if an IDR slice is among the NAL units, and with all of
/// them framed.
pub proof fn law_access_units_become_frames(
    writer: ProtocolWriter,
    units: &[NALUnit],
    timestamp_us: u64,
    messages: Vec<StreamMessage>,
    data: &[&[u8]],
    payload: Vec<u8>,
)
    requires
        data@.len() == units@.len(),
        forall|i: int| 0 <= i < units@.len() ==> (#[trigger] data@[i])@ == units@[i].data@,
        call_ensures(avcc::serialize_avcc_payload, (data,), payload),
        call_ensures(ProtocolWriter::write_access_unit, (&writer, units, timestamp_us), messages),
    ensures
        units@.len() == 0 <==> messages@.len() == 0,
        messages@.len() <= 2,
        messages@.len() > 0 ==> (messages@.last() matches StreamMessage::Frame {
            flags,
            timestamp_us: time,
            avcc,
        } && time == timestamp_us && avcc@ == payload@ && (flags == 1 <==> exists|i: int|
            0 <= i < units@.len() && (#[trigger] units@[i]).unit_type == NALUnitType::IDR) && (flags
            == 0 || flags == 1)),
        messages@.len() == 2 ==> messages@[0] is CodecParams,
{
    let views = unit_views(units@);
    let listed = message_views(messages@);
    assert(listed.len() == messages@.len());
    assert(avcc::contents(data@) =~= unit_data(views));
    if messages@.len() > 0 {
        assert(listed.last() == messages@.last()@);
        assert(listed[0] == messages@[0]@);
    }
    if has_idr(views) {
        let i = choose|i: int|
            0 <= i < views.len() && (#[trigger] views[i]).unit_type == NALUnitType::IDR;
        assert(units@[i].unit_type == NALUnitType::IDR);
    }
    if exists|i: int|
        0 <= i < units@.len() && (#[trigger] units@[i]).unit_type == NALUnitType::IDR {
        let i = choose|i: int|
            0 <= i < units@.len() && (#[trigger] units@[i]).unit_type == NALUnitType::IDR;
        assert(views[i].unit_type == NALUnitType::IDR);
    }
}

/// Codec parameters are announced in front of the frame exactly if an access unit brings both
/// parameter sets and one of them is not what was written last; they are the first of each kind,
/// for the size of the stream.
pub proof fn law_changed_parameters_are_announced(
    writer: ProtocolWriter,
    units: &[NALUnit],
    timestamp_us: u64,
    messages: Vec<StreamMessage>,
    sps: int,
    pps: int,
)
    requires
        call_ensures(ProtocolWriter::write_access_unit, (&writer, units, timestamp_us), messages),
        first_at(units@, NALUnitType::SPS, sps),
        first_at(units@, NALUnitType::PPS, pps),
    ensures
        messages@.len() == 2 <==> writer@.last_sps != Some(units@[sps].data@) || writer@.last_pps
            != Some(units@[pps].data@),
        messages@.len() == 2 ==> (messages@[0] matches StreamMessage::CodecParams(params)
            && params.sps@ == units@[sps].data@ && params.pps@ == units@[pps].data@ && params.width
            == writer@.frame_size.width && params.height == writer@.frame_size.height),
{
    let views = unit_views(units@);
    let listed = message_views(messages@);
    assert(listed.len() == messages@.len());
    assert(views.skip(0) =~= views);
    lemma_first_of_type(units@, NALUnitType::SPS, 0);
    lemma_first_of_type(units@, NALUnitType::PPS, 0);
    if messages@.len() == 2 {
        assert(listed[0] == messages@[0]@);
    }
}

/// Without both parameter sets nothing is announced.
pub proof fn law_half_parameters_are_not_announced(
    writer: ProtocolWriter,
    units: &[NALUnit],
    timestamp_us: u64,
    messages: Vec<StreamMessage>,
)
    requires
        call_ensures(ProtocolWriter::write_access_unit, (&writer, units, timestamp_us), messages),
        units@.len() > 0,
        (forall|k: int| 0 <= k < units@.len() ==> (#[trigger] units@[k]).unit_type
            != NALUnitType::SPS) || (forall|k: int|
            0 <= k < units@.len() ==> (#[trigger] units@[k]).unit_type != NALUnitType::PPS),
    ensures
        messages@.len() == 1,
{
    let views = unit_views(units@);
    assert(message_views(messages@).len() == messages@.len());
    assert(views.skip(0) =~= views);
    lemma_first_of_type(units@, NALUnitType::SPS, 0);
    lemma_first_of_type(units@, NALUnitType::PPS, 0);
}

/// What was written whole is not announced again; what failed is.
pub proof fn law_written_parameters_are_remembered(
    size: Size,
    writer: ProtocolWriter,
    noted: &mut ProtocolWriter,
    units: &[NALUnit],
    succeeded: bool,
    times: (u64, u64),
    messages: (Vec<StreamMessage>, Vec<StreamMessage>),
    sps: int,
    pps: int,
)
    requires
        call_ensures(ProtocolWriter::new, (size,), writer),
        first_at(units@, NALUnitType::SPS, sps),
        first_at(units@, NALUnitType::PPS, pps),
        call_ensures(ProtocolWriter::write_access_unit, (&writer, units, times.0), messages.0),
        *old(noted) == writer,
        call_ensures(ProtocolWriter::written, (noted, units, succeeded), ()),
        call_ensures(ProtocolWriter::write_access_unit, (final(noted), units, times.1), messages.1),
    ensures
        messages.0@.len() == 2,
        messages.1@.len() == if succeeded {
            1int
        } else {
            2
        },
        writer@.frame_size == size && final(noted)@.frame_size == size,
{
    let views = unit_views(units@);
    assert(message_views(messages.0@).len() == messages.0@.len());
    assert(message_views(messages.1@).len() == messages.1@.len());
    assert(views.skip(0) =~= views);
    lemma_first_of_type(units@, NALUnitType::SPS, 0);
    lemma_first_of_type(units@, NALUnitType::PPS, 0);
}

/// An encoder needs a frame rate and a bitrate; a group of pictures has one frame at five frames
/// per second and below, and those of two seconds otherwise; packed values split into what was
/// packed.
pub proof fn law_encoders_are_parameterized(
    settings: VideoEncoderConfig,
    result: Result<(), &'static str>,
    config: H264EncoderConfig,
    group: u32,
    size: u64,
    rate: u64,
    size_words: (u32, u32),
    rate_words: (u32, u32),
)
    requires
        call_ensures(VideoEncoderConfig::check, (&settings,), result),
        call_ensures(H264EncoderConfig::gop_size, (&config,), group),
        call_ensures(H264EncoderConfig::packed_frame_size, (&config,), size),
        call_ensures(H264EncoderConfig::packed_frame_rate, (&config,), rate),
        call_ensures(unpack_words, (size,), size_words),
        call_ensures(unpack_words, (rate,), rate_words),
    ensures
        result is Ok <==> settings.frame_rate > 0 && settings.bitrate > 0,
        config.frame_rate <= 5 ==> group == 1,
        config.frame_rate > 5 ==> group == 2 * config.frame_rate,
        size_words == (config.frame_size.width, config.frame_size.height),
        rate_words == (config.frame_rate, 1u32),
{
}

/// A setup goes through the platform, the encoder, its media types, its device manager and its
/// settings before it streams; the output type carries bitrate, size, rate and the baseline
/// profile, and there are no B-frames.
pub proof fn law_setups_take_their_steps(setup: EncoderSetup, step: Option<SetupStep>)
    requires
        setup@.done >= 0,
        call_ensures(EncoderSetup::step, (&setup,), step),
    ensures
        setup@.done == 0 ==> step == Some(SetupStep::StartPlatform),
        setup@.done == 1 ==> step == Some(SetupStep::FindEncoder),
        setup@.done == 2 ==> step == Some(SetupStep::TakeEvents),
        setup@.done == 3 ==> step == Some(SetupStep::UnlockAsync),
        setup@.done == 4 ==> (step matches Some(SetupStep::SetOutputType(output)) && output.bitrate
            == setup@.config.bitrate && output.frame_size == setup@.config.frame_size.width
            * 0x1_0000_0000 + setup@.config.frame_size.height && output.frame_rate
            == setup@.config.frame_rate * 0x1_0000_0000 + 1 && output.profile == 66),
        setup@.done == 5 ==> step == Some(SetupStep::SetInputType(1)),
        setup@.done == 6 ==> step == Some(SetupStep::CreateManager),
        setup@.done == 7 ==> step == Some(SetupStep::RegisterDevice),
        setup@.done == 8 ==> step == Some(SetupStep::AttachManager),
        setup@.done == 9 ==> step == Some(SetupStep::Configure(CodecSetting::BFrameCount(0))),
        setup@.done == 10 && 5 < setup@.config.frame_rate <= 0x7FFF_FFFF ==> step == Some(
            SetupStep::Configure(CodecSetting::GopSize((2 * setup@.config.frame_rate) as u32)),
        ),
        setup@.done == 11 ==> step == Some(SetupStep::Configure(CodecSetting::LowLatency(true))),
        setup@.done == 12 ==> step == Some(SetupStep::Configure(CodecSetting::RateControl(0))),
        setup@.done == 13 ==> step == Some(SetupStep::BeginStreaming),
        setup@.done == 14 ==> step == Some(SetupStep::StartStream),
        setup@.done >= 15 ==> step is None,
{
}

/// A setup goes on behind a step that succeeded, and behind a setting that was refused; any other
/// failure ends it where it is.
pub proof fn law_setups_tolerate_refused_settings(
    config: H264EncoderConfig,
    fresh: EncoderSetup,
    before: EncoderSetup,
    setup: &mut EncoderSetup,
    step: SetupStep,
    succeeded: bool,
    result: Result<(), SetupFailure>,
)
    requires
        call_ensures(EncoderSetup::new, (config,), fresh),
        *old(setup) == before,
        call_ensures(EncoderSetup::step, (&before,), Some(step)),
        call_ensures(EncoderSetup::attempted, (setup, succeeded), result),
    ensures
        fresh@.done == 0 && fresh@.config == config,
        result is Ok <==> succeeded || step is Configure,
        result is Ok ==> final(setup)@.done == old(setup)@.done + 1,
        result is Err ==> final(setup)@.done == old(setup)@.done,
        final(setup)@.config == old(setup)@.config,
{
}

/// Frames are timed from the start in units of a tenth of a microsecond, whole microseconds only.
pub proof fn law_frames_are_timed_from_the_start(
    clock: EncoderClock,
    first: &mut EncoderClock,
    second: &mut EncoderClock,
    gaps: (u64, u64),
    times: (SampleTimes, SampleTimes),
)
    requires
        gaps.0 + gaps.1 <= u64::MAX,
        call_ensures(EncoderClock::new, (), clock),
        *old(first) == clock,
        call_ensures(EncoderClock::advance, (first, gaps.0), times.0),
        *old(second) == *final(first),
        call_ensures(EncoderClock::advance, (second, gaps.1), times.1),
    ensures
        times.0.time == gaps.0 as int / 1000 * 10,
        times.0.duration == gaps.0 as int / 1000 * 10,
        times.1.time == (gaps.0 + gaps.1) / 1000 * 10,
        times.1.duration == gaps.1 as int / 1000 * 10,
        final(second).frame_count == 2,
{
}

/// A frame goes in exactly where the encoder needs one, and an access unit comes out exactly where
/// it has one.
pub proof fn law_encoders_are_served(poll: EncoderPoll, action: EncoderAction)
    requires
        call_ensures(run_step, (poll,), action),
    ensures
        action == EncoderAction::ProcessInput <==> poll == EncoderPoll::Event(
            EncoderEvent::NeedInput,
        ),
        action == EncoderAction::ProcessOutput <==> poll == EncoderPoll::Event(
            EncoderEvent::HaveOutput,
        ),
{
}

/// The hardware encoder taken is the first whose name holds `nvidia`, however it is capitalized.
pub proof fn law_first_nvidia_encoder_is_taken(
    names: &[String],
    result: Result<usize, &'static str>,
)
    requires
        call_ensures(find_h264_encoder, (names,), result),
    ensures
        result matches Ok(index) ==> {
            &&& index < names@.len()
            &&& text::parts_around(text::ascii_lowercase(names@[index as int]@), "nvidia"@)
            &&& forall|i: int|
                0 <= i < index ==> !text::parts_around(
                    text::ascii_lowercase((#[trigger] names@[i])@),
                    "nvidia"@,
                )
        },
        result is Err ==> forall|i: int|
            0 <= i < names@.len() ==> !text::parts_around(
                text::ascii_lowercase((#[trigger] names@[i])@),
                "nvidia"@,
            ),
{
    assert forall|i: int| 0 <= i < names@.len() implies (text::parts_around(
        text::ascii_lowercase((#[trigger] names@[i])@),
        "nvidia"@,
    ) <==> names_nvidia(names@[i]@)) by {
        text::law_parts_stand_between_others(text::ascii_lowercase(names@[i]@), "nvidia"@);
    }
}

/// Codec parameters and frames go out under their own types.
pub proof fn law_messages_have_their_type(message: StreamMessage, message_type: MessageType)
    requires
        call_ensures(StreamMessage::message_type, (&message,), message_type),
    ensures
        message is CodecParams <==> message_type == MessageType::CodecParams,
        message is Frame <==> message_type == MessageType::Frame,
{
}

} // verus!
