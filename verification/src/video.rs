//! Checked private video framing and WebCodecs initialization values.
use vstd::prelude::*;
use vstd::slice::{slice_subrange, slice_to_vec};
use crate::{avcc, bytes, text};

verus! {

/// Size of the aligned private video message header.
pub const HEADER_SIZE: usize = 8;

/// Keyframe bit carried by access-unit headers.
pub const FLAG_KEYFRAME: u8 = 1;

/// Maximum complete payload accepted by the private parser.
pub const MAX_PAYLOAD_SIZE: usize = 16_777_216;

/// Fixed generation and timestamp prefix in every access-unit payload.
pub const ACCESS_UNIT_PREFIX_SIZE: usize = 16;

/// Largest AVCC body whose typed access unit is always serializable.
pub const MAX_AVCC_SIZE: usize = 16_777_200;

/// Typed failures produced by the private video contract.
#[derive(Debug, Clone, PartialEq, Eq)]
pub enum VideoProtocolError {
    /// A coded dimension is zero or cannot be represented by the protocol.
    InvalidDimension {
        /// Dimension name.
        name: &'static str,
        /// Rejected caller value.
        value: u32,
    },
    /// The SPS cannot supply profile, compatibility, and level bytes.
    SpsTooShort {
        /// Stripped SPS byte count.
        length: usize,
    },
    /// An SPS or PPS exceeds its two-byte private-protocol length.
    ParameterSetTooLarge {
        /// Parameter-set kind.
        kind: &'static str,
        /// Rejected byte count.
        length: usize,
    },
    /// No NAL units were supplied for an access unit.
    EmptyAvcc,
    /// A supplied NAL becomes empty after stripping its Annex B start code.
    EmptyNalUnit,
    /// A NAL unit exceeds the four-byte AVCC length field.
    NalUnitTooLarge {
        /// Rejected NAL byte count.
        length: usize,
    },
    /// Checked payload-size arithmetic overflowed `usize`.
    PayloadSizeOverflow,
    /// A payload exceeds the bounded private-message limit.
    PayloadTooLarge {
        /// Rejected payload size.
        length: usize,
        /// Maximum accepted payload size.
        maximum: usize,
    },
    /// Fewer than eight header bytes were supplied.
    TruncatedHeader {
        /// Available byte count.
        length: usize,
    },
    /// Reserved header bytes were non-zero.
    ReservedHeaderBits,
    /// The header payload length does not match the message.
    PayloadLengthMismatch {
        /// Header-declared byte count.
        declared: usize,
        /// Actual byte count after the header.
        actual: usize,
    },
    /// The message type is not part of the private video contract.
    UnknownMessageType {
        /// Rejected type byte.
        message_type: u8,
    },
    /// Flags outside the message type's allowed mask were set.
    UnknownFlags {
        /// Message type whose flag byte was rejected.
        message_type: u8,
        /// Rejected flag byte.
        flags: u8,
    },
    /// A typed payload ended before all fixed or variable fields were present.
    TruncatedPayload {
        /// Payload kind used in diagnostics.
        message: &'static str,
    },
    /// Bytes remained after parsing the exact codec payload.
    TrailingCodecBytes {
        /// Unexpected byte count.
        trailing: usize,
    },
    /// An AVCC length prefix extends beyond the supplied access-unit payload.
    TruncatedNalUnit {
        /// Length prefix value.
        declared: usize,
        /// Available bytes after the prefix.
        remaining: usize,
    },
}

impl VideoProtocolError {
    /// The diagnostic text of this failure.
    pub open spec fn text(self) -> Seq<char> {
        match self {
            VideoProtocolError::InvalidDimension { name, value } => "invalid codec "@ + name@
                + " "@ + text::decimal(value as nat) + "; expected 1..="@ + text::decimal(
                u16::MAX as nat,
            ),
            VideoProtocolError::SpsTooShort { length } => "SPS is too short: "@ + text::decimal(
                length as nat,
            ) + " bytes"@,
            VideoProtocolError::ParameterSetTooLarge { kind, length } => kind@
                + " parameter set is too large: "@ + text::decimal(length as nat) + " bytes"@,
            VideoProtocolError::EmptyAvcc => "AVCC access unit is empty"@,
            VideoProtocolError::EmptyNalUnit => "AVCC contains an empty NAL unit"@,
            VideoProtocolError::NalUnitTooLarge { length } => "NAL unit is too large: "@
                + text::decimal(length as nat) + " bytes"@,
            VideoProtocolError::PayloadSizeOverflow => "video payload size overflowed"@,
            VideoProtocolError::PayloadTooLarge { length, maximum } => "video payload is "@
                + text::decimal(length as nat) + " bytes; maximum is "@ + text::decimal(
                maximum as nat,
            ),
            VideoProtocolError::TruncatedHeader { length } => "video header is truncated: "@
                + text::decimal(length as nat) + " bytes"@,
            VideoProtocolError::ReservedHeaderBits => "reserved video header bits are non-zero"@,
            VideoProtocolError::PayloadLengthMismatch { declared, actual } =>
                "declared payload length "@ + text::decimal(declared as nat)
                + " does not match actual length "@ + text::decimal(actual as nat),
            VideoProtocolError::UnknownMessageType { message_type } =>
                "unknown video message type 0x"@ + text::hex_lower(message_type as nat, 2),
            VideoProtocolError::UnknownFlags { message_type, flags } => "unknown flags 0x"@
                + text::hex_lower(flags as nat, 2) + " for video message type 0x"@
                + text::hex_lower(message_type as nat, 2),
            VideoProtocolError::TruncatedPayload { message } => message@
                + " payload is truncated"@,
            VideoProtocolError::TrailingCodecBytes { trailing } => "codec configuration contains "@
                + text::decimal(trailing as nat) + " trailing bytes"@,
            VideoProtocolError::TruncatedNalUnit { declared, remaining } => "AVCC NAL declares "@
                + text::decimal(declared as nat) + " bytes with only "@ + text::decimal(
                remaining as nat,
            ) + " remaining"@,
        }
    }

    /// Describes this failure.
    pub fn message(&self) -> (message: String)
        ensures
            message@ == self.text(),
    {
        match self {
            VideoProtocolError::InvalidDimension { name, value } => {
                let mut message = "invalid codec ".to_owned();
                text::push_text(&mut message, name);
                text::push_text(&mut message, " ");
                text::push_decimal(&mut message, *value as u64);
                text::push_text(&mut message, "; expected 1..=");
                text::push_decimal(&mut message, u16::MAX as u64);
                message
            },
            VideoProtocolError::SpsTooShort { length } => {
                let mut message = "SPS is too short: ".to_owned();
                text::push_decimal(&mut message, *length as u64);
                text::push_text(&mut message, " bytes");
                message
            },
            VideoProtocolError::ParameterSetTooLarge { kind, length } => {
                let mut message = (*kind).to_owned();
                text::push_text(&mut message, " parameter set is too large: ");
                text::push_decimal(&mut message, *length as u64);
                text::push_text(&mut message, " bytes");
                message
            },
            VideoProtocolError::EmptyAvcc => "AVCC access unit is empty".to_owned(),
            VideoProtocolError::EmptyNalUnit => "AVCC contains an empty NAL unit".to_owned(),
            VideoProtocolError::NalUnitTooLarge { length } => {
                let mut message = "NAL unit is too large: ".to_owned();
                text::push_decimal(&mut message, *length as u64);
                text::push_text(&mut message, " bytes");
                message
            },
            VideoProtocolError::PayloadSizeOverflow => "video payload size overflowed".to_owned(),
            VideoProtocolError::PayloadTooLarge { length, maximum } => {
                let mut message = "video payload is ".to_owned();
                text::push_decimal(&mut message, *length as u64);
                text::push_text(&mut message, " bytes; maximum is ");
                text::push_decimal(&mut message, *maximum as u64);
                message
            },
            VideoProtocolError::TruncatedHeader { length } => {
                let mut message = "video header is truncated: ".to_owned();
                text::push_decimal(&mut message, *length as u64);
                text::push_text(&mut message, " bytes");
                message
            },
            VideoProtocolError::ReservedHeaderBits =>
                "reserved video header bits are non-zero".to_owned(),
            VideoProtocolError::PayloadLengthMismatch { declared, actual } => {
                let mut message = "declared payload length ".to_owned();
                text::push_decimal(&mut message, *declared as u64);
                text::push_text(&mut message, " does not match actual length ");
                text::push_decimal(&mut message, *actual as u64);
                message
            },
            VideoProtocolError::UnknownMessageType { message_type } => {
                let mut message = "unknown video message type 0x".to_owned();
                text::push_hex_lower(&mut message, *message_type as u64, 2);
                message
            },
            VideoProtocolError::UnknownFlags { message_type, flags } => {
                let mut message = "unknown flags 0x".to_owned();
                text::push_hex_lower(&mut message, *flags as u64, 2);
                text::push_text(&mut message, " for video message type 0x");
                text::push_hex_lower(&mut message, *message_type as u64, 2);
                message
            },
            VideoProtocolError::TruncatedPayload { message: kind } => {
                let mut message = (*kind).to_owned();
                text::push_text(&mut message, " payload is truncated");
                message
            },
            VideoProtocolError::TrailingCodecBytes { trailing } => {
                let mut message = "codec configuration contains ".to_owned();
                text::push_decimal(&mut message, *trailing as u64);
                text::push_text(&mut message, " trailing bytes");
                message
            },
            VideoProtocolError::TruncatedNalUnit { declared, remaining } => {
                let mut message = "AVCC NAL declares ".to_owned();
                text::push_decimal(&mut message, *declared as u64);
                text::push_text(&mut message, " bytes with only ");
                text::push_decimal(&mut message, *remaining as u64);
                text::push_text(&mut message, " remaining");
                message
            },
        }
    }
}

/// What one decoder configuration says.
pub struct CodecModel {
    pub generation: u64,
    pub width: u16,
    pub height: u16,
    pub sps: Seq<u8>,
    pub pps: Seq<u8>,
}

impl CodecModel {
    /// Dimensions are non-zero, the SPS identifies its codec, both sets have two-byte lengths.
    pub open spec fn valid(self) -> bool {
        &&& self.width > 0
        &&& self.height > 0
        &&& 4 <= self.sps.len() <= u16::MAX
        &&& self.pps.len() <= u16::MAX
    }
}

/// Why raw parameter sets and dimensions are refused, or the configuration they make.
pub open spec fn checked_codec(
    generation: u64,
    width: u32,
    height: u32,
    sps: Seq<u8>,
    pps: Seq<u8>,
) -> Result<CodecModel, VideoProtocolError> {
    let sequence = avcc::stripped(sps);
    let picture = avcc::stripped(pps);
    if width == 0 || width > u16::MAX {
        Err(VideoProtocolError::InvalidDimension { name: "width", value: width })
    } else if height == 0 || height > u16::MAX {
        Err(VideoProtocolError::InvalidDimension { name: "height", value: height })
    } else if sequence.len() < 4 {
        Err(VideoProtocolError::SpsTooShort { length: sequence.len() as usize })
    } else if sequence.len() > u16::MAX {
        Err(VideoProtocolError::ParameterSetTooLarge { kind: "sps", length: sequence.len() as usize })
    } else if picture.len() > u16::MAX {
        Err(VideoProtocolError::ParameterSetTooLarge { kind: "pps", length: picture.len() as usize })
    } else {
        Ok(
            CodecModel {
                generation,
                width: width as u16,
                height: height as u16,
                sps: sequence,
                pps: picture,
            },
        )
    }
}

/// Decoder media type and H.264 parameter sets for one codec generation.
#[derive(Debug, PartialEq, Eq)]
pub struct CodecConfiguration {
    generation: u64,
    width: u16,
    height: u16,
    profile: u8,
    compatibility: u8,
    level: u8,
    sps: Vec<u8>,
    pps: Vec<u8>,
}

impl View for CodecConfiguration {
    type V = CodecModel;

    closed spec fn view(&self) -> CodecModel {
        CodecModel {
            generation: self.generation,
            width: self.width,
            height: self.height,
            sps: self.sps@,
            pps: self.pps@,
        }
    }
}

impl CodecConfiguration {
    #[verifier::type_invariant]
    spec fn well_formed(&self) -> bool {
        &&& self@.valid()
        &&& self.profile == self.sps@[1]
        &&& self.compatibility == self.sps@[2]
        &&& self.level == self.sps@[3]
    }

    /// Constructs one checked decoder configuration.
    pub fn new(generation: u64, width: u32, height: u32, sps: &[u8], pps: &[u8]) -> (result: Result<
        CodecConfiguration,
        VideoProtocolError,
    >)
        ensures
            match result {
                Ok(codec) => checked_codec(generation, width, height, sps@, pps@) == Ok::<
                    CodecModel,
                    VideoProtocolError,
                >(codec@) && codec@.valid(),
                Err(error) => checked_codec(generation, width, height, sps@, pps@) == Err::<
                    CodecModel,
                    VideoProtocolError,
                >(error),
            },
    {
        if width == 0 || width > 65_535 {
            return Err(VideoProtocolError::InvalidDimension { name: "width", value: width });
        }
        if height == 0 || height > 65_535 {
            return Err(VideoProtocolError::InvalidDimension { name: "height", value: height });
        }
        let sequence = avcc::strip_start_code(sps);
        let picture = avcc::strip_start_code(pps);
        if sequence.len() < 4 {
            return Err(VideoProtocolError::SpsTooShort { length: sequence.len() });
        }
        validate_parameter_set("sps", sequence)?;
        validate_parameter_set("pps", picture)?;
        Ok(
            CodecConfiguration {
                generation,
                width: width as u16,
                height: height as u16,
                profile: sequence[1],
                compatibility: sequence[2],
                level: sequence[3],
                sps: slice_to_vec(sequence),
                pps: slice_to_vec(picture),
            },
        )
    }

    /// Returns the codec generation carried by matching access units.
    pub fn generation(&self) -> (generation: u64)
        ensures
            generation == self@.generation,
    {
        self.generation
    }

    /// Returns the encoded width in pixels.
    pub fn width(&self) -> (width: u16)
        ensures
            width == self@.width,
    {
        self.width
    }

    /// Returns the encoded height in pixels.
    pub fn height(&self) -> (height: u16)
        ensures
            height == self@.height,
    {
        self.height
    }

    /// Returns the raw SPS without an Annex B start code.
    pub fn sps(&self) -> (sps: &[u8])
        ensures
            sps@ == self@.sps,
    {
        self.sps.as_slice()
    }

    /// Returns the raw PPS without an Annex B start code.
    pub fn pps(&self) -> (pps: &[u8])
        ensures
            pps@ == self@.pps,
    {
        self.pps.as_slice()
    }

    /// Builds the `avc1.PPCCLL` identifier consumed by WebCodecs.
    pub fn codec_string(&self) -> (name: String)
        ensures
            name@ == avcc::codec_name(self@.sps),
    {
        proof {
            use_type_invariant(self);
        }
        avcc::codec_string_of(self.profile, self.compatibility, self.level)
    }

    /// Builds an ISO 14496-15 AVCDecoderConfigurationRecord.
    pub fn avcc_description(&self) -> (record: Vec<u8>)
        ensures
            record@ == avcc::decoder_record(self@.sps, self@.pps),
            record@.len() == 11 + self@.sps.len() + self@.pps.len(),
            self@.valid(),
    {
        proof {
            use_type_invariant(self);
            bytes::lemma_be_bytes_len(self.sps@.len(), 2);
            bytes::lemma_be_bytes_len(self.pps@.len(), 2);
        }
        avcc::decoder_record_of(self.sps.as_slice(), self.pps.as_slice())
    }
}

impl Clone for CodecConfiguration {
    fn clone(&self) -> (copy: CodecConfiguration)
        ensures
            copy@ == self@,
    {
        proof {
            use_type_invariant(self);
        }
        CodecConfiguration {
            generation: self.generation,
            width: self.width,
            height: self.height,
            profile: self.profile,
            compatibility: self.compatibility,
            level: self.level,
            sps: slice_to_vec(self.sps.as_slice()),
            pps: slice_to_vec(self.pps.as_slice()),
        }
    }
}

/// Ensures a parameter set can be represented by the private codec payload.
fn validate_parameter_set(kind: &'static str, parameter_set: &[u8]) -> (result: Result<
    (),
    VideoProtocolError,
>)
    ensures
        result == if parameter_set@.len() > u16::MAX {
            Err::<(), _>(
                VideoProtocolError::ParameterSetTooLarge {
                    kind,
                    length: parameter_set@.len() as usize,
                },
            )
        } else {
            Ok(())
        },
{
    if parameter_set.len() > 65_535 {
        Err(VideoProtocolError::ParameterSetTooLarge { kind, length: parameter_set.len() })
    } else {
        Ok(())
    }
}

/// The NAL units of the AVCC bytes from `position` on, or the first framing failure.
pub open spec fn units_from(payload: Seq<u8>, position: nat) -> Result<
    Seq<Seq<u8>>,
    VideoProtocolError,
>
    decreases payload.len() - position,
{
    if position >= payload.len() {
        Ok(Seq::empty())
    } else if position + 4 > payload.len() {
        Err(
            VideoProtocolError::TruncatedNalUnit {
                declared: 4,
                remaining: (payload.len() - position) as usize,
            },
        )
    } else {
        let length = bytes::be_value(payload.subrange(position as int, (position + 4) as int));
        let start = position + 4;
        if length == 0 {
            Err(VideoProtocolError::EmptyNalUnit)
        } else if start + length > usize::MAX {
            Err(VideoProtocolError::PayloadSizeOverflow)
        } else if start + length > payload.len() {
            Err(
                VideoProtocolError::TruncatedNalUnit {
                    declared: length as usize,
                    remaining: (payload.len() - start) as usize,
                },
            )
        } else {
            match units_from(payload, start + length) {
                Ok(rest) => Ok(
                    seq![payload.subrange(start as int, (start + length) as int)] + rest,
                ),
                Err(error) => Err(error),
            }
        }
    }
}

/// The NAL units of a complete access-unit body, or why it is refused.
pub open spec fn avcc_units(payload: Seq<u8>) -> Result<Seq<Seq<u8>>, VideoProtocolError> {
    if payload.len() == 0 {
        Err(VideoProtocolError::EmptyAvcc)
    } else if payload.len() > MAX_AVCC_SIZE {
        Err(
            VideoProtocolError::PayloadTooLarge {
                length: payload.len() as usize,
                maximum: MAX_AVCC_SIZE,
            },
        )
    } else {
        units_from(payload, 0)
    }
}

/// Validates that an AVCC payload is an exact non-empty sequence of NAL units.
fn validate_avcc(payload: &[u8]) -> (result: Result<(), VideoProtocolError>)
    ensures
        match result {
            Ok(()) => avcc_units(payload@) is Ok,
            Err(error) => avcc_units(payload@) == Err::<Seq<Seq<u8>>, _>(error),
        },
{
    if payload.len() == 0 {
        return Err(VideoProtocolError::EmptyAvcc);
    }
    if payload.len() > MAX_AVCC_SIZE {
        return Err(
            VideoProtocolError::PayloadTooLarge { length: payload.len(), maximum: MAX_AVCC_SIZE },
        );
    }
    let mut position: usize = 0;
    while position < payload.len()
        invariant
            position <= payload@.len() <= MAX_AVCC_SIZE,
            units_from(payload@, 0) is Ok <==> units_from(payload@, position as nat) is Ok,
            units_from(payload@, 0) is Err ==> units_from(payload@, 0) == units_from(
                payload@,
                position as nat,
            ),
        decreases payload@.len() - position,
    {
        let prefix_end: usize = position + 4;
        if prefix_end > payload.len() {
            return Err(
                VideoProtocolError::TruncatedNalUnit {
                    declared: 4,
                    remaining: payload.len() - position,
                },
            );
        }
        let prefix = slice_subrange(payload, position, prefix_end);
        proof {
            bytes::lemma_byte_capacities();
        }
        let length: usize = bytes::read_be(prefix) as usize;
        if length == 0 {
            return Err(VideoProtocolError::EmptyNalUnit);
        }
        match prefix_end.checked_add(length) {
            None => {
                return Err(VideoProtocolError::PayloadSizeOverflow);
            },
            Some(nal_end) => {
                if nal_end > payload.len() {
                    return Err(
                        VideoProtocolError::TruncatedNalUnit {
                            declared: length,
                            remaining: payload.len() - prefix_end,
                        },
                    );
                }
                position = nal_end;
            },
        }
    }
    Ok(())
}

/// What one access unit says.
pub struct UnitModel {
    pub codec_generation: u64,
    pub timestamp_us: u64,
    pub keyframe: bool,
    pub avcc: Seq<u8>,
}

impl UnitModel {
    /// The body is an exact non-empty sequence of NAL units within the size limit.
    pub open spec fn valid(self) -> bool {
        avcc_units(self.avcc) is Ok
    }
}

/// Why an access-unit body is refused, or the access unit it makes.
pub open spec fn checked_unit(
    codec_generation: u64,
    timestamp_us: u64,
    keyframe: bool,
    payload: Seq<u8>,
) -> Result<UnitModel, VideoProtocolError> {
    match avcc_units(payload) {
        Ok(_) => Ok(UnitModel { codec_generation, timestamp_us, keyframe, avcc: payload }),
        Err(error) => Err(error),
    }
}

/// One AVCC-formatted H.264 access unit.
#[derive(Debug, PartialEq, Eq)]
pub struct AccessUnit {
    codec_generation: u64,
    timestamp_us: u64,
    keyframe: bool,
    avcc: Vec<u8>,
}

impl View for AccessUnit {
    type V = UnitModel;

    closed spec fn view(&self) -> UnitModel {
        UnitModel {
            codec_generation: self.codec_generation,
            timestamp_us: self.timestamp_us,
            keyframe: self.keyframe,
            avcc: self.avcc@,
        }
    }
}

impl AccessUnit {
    #[verifier::type_invariant]
    spec fn well_formed(&self) -> bool {
        self@.valid()
    }

    /// Constructs one access unit after validating all AVCC length prefixes.
    pub fn new(codec_generation: u64, timestamp_us: u64, keyframe: bool, avcc: &[u8]) -> (result:
        Result<AccessUnit, VideoProtocolError>)
        ensures
            match result {
                Ok(unit) => checked_unit(codec_generation, timestamp_us, keyframe, avcc@) == Ok::<
                    UnitModel,
                    VideoProtocolError,
                >(unit@),
                Err(error) => checked_unit(codec_generation, timestamp_us, keyframe, avcc@)
                    == Err::<UnitModel, VideoProtocolError>(error),
            },
    {
        validate_avcc(avcc)?;
        Ok(AccessUnit { codec_generation, timestamp_us, keyframe, avcc: slice_to_vec(avcc) })
    }

    /// Returns the codec generation required to decode this access unit.
    pub fn codec_generation(&self) -> (generation: u64)
        ensures
            generation == self@.codec_generation,
    {
        self.codec_generation
    }

    /// Returns the microsecond presentation timestamp.
    pub fn timestamp_us(&self) -> (timestamp: u64)
        ensures
            timestamp == self@.timestamp_us,
    {
        self.timestamp_us
    }

    /// Returns whether this access unit is an independently decodable IDR.
    pub fn is_keyframe(&self) -> (keyframe: bool)
        ensures
            keyframe == self@.keyframe,
    {
        self.keyframe
    }

    /// Returns the directly WebCodecs-compatible AVCC bytes.
    pub fn avcc(&self) -> (payload: &[u8])
        ensures
            payload@ == self@.avcc,
    {
        self.avcc.as_slice()
    }
}

impl Clone for AccessUnit {
    fn clone(&self) -> (copy: AccessUnit)
        ensures
            copy@ == self@,
    {
        proof {
            use_type_invariant(self);
        }
        AccessUnit {
            codec_generation: self.codec_generation,
            timestamp_us: self.timestamp_us,
            keyframe: self.keyframe,
            avcc: slice_to_vec(self.avcc.as_slice()),
        }
    }
}

/// What one video event or message says.
pub enum EventModel {
    Codec(CodecModel),
    Unit(UnitModel),
}

impl EventModel {
    /// The configuration or access unit is one that its constructor accepts.
    pub open spec fn valid(self) -> bool {
        match self {
            EventModel::Codec(codec) => codec.valid(),
            EventModel::Unit(unit) => unit.valid(),
        }
    }
}

/// Typed media event sent by the native host through the bounded output channel.
#[derive(Debug, PartialEq, Eq)]
pub enum VideoEvent {
    /// Decoder configuration that begins or replaces a codec generation.
    CodecConfiguration(CodecConfiguration),
    /// Encoded picture associated with one codec generation.
    AccessUnit(AccessUnit),
}

impl Clone for VideoEvent {
    fn clone(&self) -> (copy: VideoEvent)
        ensures
            copy@ == self@,
    {
        match self {
            VideoEvent::CodecConfiguration(config) => VideoEvent::CodecConfiguration(config.clone()),
            VideoEvent::AccessUnit(unit) => VideoEvent::AccessUnit(unit.clone()),
        }
    }
}

impl View for VideoEvent {
    type V = EventModel;

    open spec fn view(&self) -> EventModel {
        match self {
            VideoEvent::CodecConfiguration(config) => EventModel::Codec(config@),
            VideoEvent::AccessUnit(unit) => EventModel::Unit(unit@),
        }
    }
}

/// Complete private video message decoded from one WebSocket binary message.
#[derive(Debug, PartialEq, Eq)]
pub enum VideoMessage {
    /// Decoder configuration that begins or replaces a codec generation.
    CodecConfiguration(CodecConfiguration),
    /// Encoded picture associated with one codec generation.
    AccessUnit(AccessUnit),
}

impl Clone for VideoMessage {
    fn clone(&self) -> (copy: VideoMessage)
        ensures
            copy@ == self@,
    {
        match self {
            VideoMessage::CodecConfiguration(config) => VideoMessage::CodecConfiguration(config.clone()),
            VideoMessage::AccessUnit(unit) => VideoMessage::AccessUnit(unit.clone()),
        }
    }
}

impl View for VideoMessage {
    type V = EventModel;

    open spec fn view(&self) -> EventModel {
        match self {
            VideoMessage::CodecConfiguration(config) => EventModel::Codec(config@),
            VideoMessage::AccessUnit(unit) => EventModel::Unit(unit@),
        }
    }
}

impl From<VideoEvent> for VideoMessage {
    fn from(event: VideoEvent) -> (message: VideoMessage) {
        match event {
            VideoEvent::CodecConfiguration(config) => VideoMessage::CodecConfiguration(config),
            VideoEvent::AccessUnit(unit) => VideoMessage::AccessUnit(unit),
        }
    }
}

impl vstd::std_specs::convert::FromSpecImpl<VideoEvent> for VideoMessage {
    open spec fn obeys_from_spec() -> bool {
        true
    }

    open spec fn from_spec(event: VideoEvent) -> VideoMessage {
        match event {
            VideoEvent::CodecConfiguration(config) => VideoMessage::CodecConfiguration(config),
            VideoEvent::AccessUnit(unit) => VideoMessage::AccessUnit(unit),
        }
    }
}

/// The fixed header of a message.
pub open spec fn header(message_type: u8, flags: u8, payload_length: nat) -> Seq<u8> {
    seq![message_type, flags, 0u8, 0u8] + bytes::le_bytes(payload_length, 4)
}

/// The payload of a codec-configuration message.
pub open spec fn codec_payload(codec: CodecModel) -> Seq<u8> {
    bytes::le_bytes(codec.generation as nat, 8) + bytes::le_bytes(codec.width as nat, 2)
        + bytes::le_bytes(codec.height as nat, 2) + bytes::le_bytes(codec.sps.len(), 2) + codec.sps
        + bytes::le_bytes(codec.pps.len(), 2) + codec.pps
}

/// The payload of an access-unit message.
pub open spec fn unit_payload(unit: UnitModel) -> Seq<u8> {
    bytes::le_bytes(unit.codec_generation as nat, 8) + bytes::le_bytes(unit.timestamp_us as nat, 8)
        + unit.avcc
}

/// The complete private message of an event.
pub open spec fn message(event: EventModel) -> Seq<u8> {
    match event {
        EventModel::Codec(codec) => header(1, 0, codec_payload(codec).len()) + codec_payload(codec),
        EventModel::Unit(unit) => header(
            2,
            if unit.keyframe {
                FLAG_KEYFRAME
            } else {
                0
            },
            unit_payload(unit).len(),
        ) + unit_payload(unit),
    }
}

/// Serializes one typed event into a complete private message. Every event that exists fits.
pub fn encode_event(event: &VideoEvent) -> (result: Result<Vec<u8>, VideoProtocolError>)
    ensures
        result is Ok,
        result->Ok_0@ == message(event@),
{
    match event {
        VideoEvent::CodecConfiguration(config) => encode_codec_configuration(config),
        VideoEvent::AccessUnit(unit) => encode_access_unit(unit),
    }
}

proof fn lemma_payload_lengths(event: EventModel)
    ensures
        event matches EventModel::Codec(codec) ==> codec_payload(codec).len() == 16
            + codec.sps.len() + codec.pps.len(),
        event matches EventModel::Unit(unit) ==> unit_payload(unit).len() == 16 + unit.avcc.len(),
{
    match event {
        EventModel::Codec(codec) => {
            bytes::lemma_le_bytes_len(codec.generation as nat, 8);
            bytes::lemma_le_bytes_len(codec.width as nat, 2);
            bytes::lemma_le_bytes_len(codec.height as nat, 2);
            bytes::lemma_le_bytes_len(codec.sps.len(), 2);
            bytes::lemma_le_bytes_len(codec.pps.len(), 2);
        },
        EventModel::Unit(unit) => {
            bytes::lemma_le_bytes_len(unit.codec_generation as nat, 8);
            bytes::lemma_le_bytes_len(unit.timestamp_us as nat, 8);
        },
    }
}

/// Serializes one decoder configuration payload and aligned header.
fn encode_codec_configuration(config: &CodecConfiguration) -> (result: Result<
    Vec<u8>,
    VideoProtocolError,
>)
    ensures
        result is Ok,
        result->Ok_0@ == message(EventModel::Codec(config@)),
{
    proof {
        use_type_invariant(config);
        lemma_payload_lengths(EventModel::Codec(config@));
    }
    let payload_length: usize = 16 + config.sps.len() + config.pps.len();
    let mut out = message_with_header(1, 0, payload_length)?;
    bytes::push_le(&mut out, config.generation, 8);
    bytes::push_le(&mut out, config.width as u64, 2);
    bytes::push_le(&mut out, config.height as u64, 2);
    bytes::push_le(&mut out, config.sps.len() as u64, 2);
    bytes::push_slice(&mut out, config.sps.as_slice());
    bytes::push_le(&mut out, config.pps.len() as u64, 2);
    bytes::push_slice(&mut out, config.pps.as_slice());
    assert(out@ =~= message(EventModel::Codec(config@)));
    Ok(out)
}

/// Serializes one encoded access unit payload and aligned header.
fn encode_access_unit(unit: &AccessUnit) -> (result: Result<Vec<u8>, VideoProtocolError>)
    ensures
        result is Ok,
        result->Ok_0@ == message(EventModel::Unit(unit@)),
{
    proof {
        use_type_invariant(unit);
        lemma_payload_lengths(EventModel::Unit(unit@));
    }
    let payload_length: usize = ACCESS_UNIT_PREFIX_SIZE + unit.avcc.len();
    let flags: u8 = if unit.keyframe {
        FLAG_KEYFRAME
    } else {
        0
    };
    let mut out = message_with_header(2, flags, payload_length)?;
    bytes::push_le(&mut out, unit.codec_generation, 8);
    bytes::push_le(&mut out, unit.timestamp_us, 8);
    bytes::push_slice(&mut out, unit.avcc.as_slice());
    assert(out@ =~= message(EventModel::Unit(unit@)));
    Ok(out)
}

/// Starts one message with its checked fixed header.
fn message_with_header(message_type: u8, flags: u8, payload_length: usize) -> (result: Result<
    Vec<u8>,
    VideoProtocolError,
>)
    ensures
        match result {
            Ok(out) => payload_length <= MAX_PAYLOAD_SIZE && out@ == header(
                message_type,
                flags,
                payload_length as nat,
            ),
            Err(error) => payload_length > MAX_PAYLOAD_SIZE && error
                == (VideoProtocolError::PayloadTooLarge {
                length: payload_length,
                maximum: MAX_PAYLOAD_SIZE,
            }),
        },
{
    if payload_length > MAX_PAYLOAD_SIZE {
        return Err(
            VideoProtocolError::PayloadTooLarge { length: payload_length, maximum: MAX_PAYLOAD_SIZE },
        );
    }
    let mut out: Vec<u8> = Vec::new();
    out.push(message_type);
    out.push(flags);
    out.push(0);
    out.push(0);
    assert(out@ =~= seq![message_type, flags, 0u8, 0u8]);
    bytes::push_le(&mut out, payload_length as u64, 4);
    Ok(out)
}

/// The configuration that a codec payload holds, or why it is refused.
pub open spec fn decoded_codec(payload: Seq<u8>) -> Result<CodecModel, VideoProtocolError> {
    let truncated = VideoProtocolError::TruncatedPayload { message: "codec configuration" };
    let sps_length = bytes::le_value(payload.subrange(12, 14));
    let pps_at = 14 + sps_length;
    let pps_length = bytes::le_value(payload.subrange(pps_at as int, (pps_at + 2) as int));
    let end = pps_at + 2 + pps_length;
    if payload.len() < 14 || payload.len() < pps_at + 2 || payload.len() < end {
        Err(truncated)
    } else if payload.len() > end {
        Err(VideoProtocolError::TrailingCodecBytes { trailing: (payload.len() - end) as usize })
    } else {
        checked_codec(
            bytes::le_value(payload.subrange(0, 8)) as u64,
            bytes::le_value(payload.subrange(8, 10)) as u32,
            bytes::le_value(payload.subrange(10, 12)) as u32,
            payload.subrange(14, pps_at as int),
            payload.subrange((pps_at + 2) as int, end as int),
        )
    }
}

/// The access unit that an access-unit payload holds, or why it is refused.
pub open spec fn decoded_unit(payload: Seq<u8>, keyframe: bool) -> Result<
    UnitModel,
    VideoProtocolError,
> {
    if payload.len() < 16 {
        Err(VideoProtocolError::TruncatedPayload { message: "access unit" })
    } else {
        checked_unit(
            bytes::le_value(payload.subrange(0, 8)) as u64,
            bytes::le_value(payload.subrange(8, 16)) as u64,
            keyframe,
            payload.skip(16),
        )
    }
}

/// The event that a complete private message carries, or why it is refused.
pub open spec fn decoded(data: Seq<u8>) -> Result<EventModel, VideoProtocolError> {
    let declared = bytes::le_value(data.subrange(4, 8));
    if data.len() < HEADER_SIZE {
        Err(VideoProtocolError::TruncatedHeader { length: data.len() as usize })
    } else if data[2] != 0 || data[3] != 0 {
        Err(VideoProtocolError::ReservedHeaderBits)
    } else if declared > MAX_PAYLOAD_SIZE {
        Err(
            VideoProtocolError::PayloadTooLarge {
                length: declared as usize,
                maximum: MAX_PAYLOAD_SIZE,
            },
        )
    } else if declared != data.len() - 8 {
        Err(
            VideoProtocolError::PayloadLengthMismatch {
                declared: declared as usize,
                actual: (data.len() - 8) as usize,
            },
        )
    } else if data[0] == 1 {
        if data[1] != 0 {
            Err(VideoProtocolError::UnknownFlags { message_type: 1, flags: data[1] })
        } else {
            match decoded_codec(data.skip(8)) {
                Ok(codec) => Ok(EventModel::Codec(codec)),
                Err(error) => Err(error),
            }
        }
    } else if data[0] == 2 {
        if data[1] > 1 {
            Err(VideoProtocolError::UnknownFlags { message_type: 2, flags: data[1] })
        } else {
            match decoded_unit(data.skip(8), data[1] == FLAG_KEYFRAME) {
                Ok(unit) => Ok(EventModel::Unit(unit)),
                Err(error) => Err(error),
            }
        }
    } else {
        Err(VideoProtocolError::UnknownMessageType { message_type: data[0] })
    }
}

/// Parses one complete private video message.
pub fn decode_message(data: &[u8]) -> (result: Result<VideoMessage, VideoProtocolError>)
    ensures
        match result {
            Ok(message) => decoded(data@) == Ok::<EventModel, VideoProtocolError>(message@),
            Err(error) => decoded(data@) == Err::<EventModel, VideoProtocolError>(error),
        },
{
    if data.len() < HEADER_SIZE {
        return Err(VideoProtocolError::TruncatedHeader { length: data.len() });
    }
    let message_type: u8 = data[0];
    let flags: u8 = data[1];
    if data[2] != 0 || data[3] != 0 {
        return Err(VideoProtocolError::ReservedHeaderBits);
    }
    proof {
        bytes::lemma_byte_capacities();
    }
    let payload_length: usize = bytes::read_le(slice_subrange(data, 4, 8)) as usize;
    if payload_length > MAX_PAYLOAD_SIZE {
        return Err(
            VideoProtocolError::PayloadTooLarge { length: payload_length, maximum: MAX_PAYLOAD_SIZE },
        );
    }
    let actual: usize = data.len() - HEADER_SIZE;
    if payload_length != actual {
        return Err(VideoProtocolError::PayloadLengthMismatch { declared: payload_length, actual });
    }
    let payload = slice_subrange(data, HEADER_SIZE, data.len());
    match message_type {
        1 => {
            if flags != 0 {
                return Err(VideoProtocolError::UnknownFlags { message_type: 1, flags });
            }
            match decode_codec_configuration(payload) {
                Ok(config) => Ok(VideoMessage::CodecConfiguration(config)),
                Err(error) => Err(error),
            }
        },
        2 => {
            assert(flags & !1u8 != 0 <==> flags > 1) by (bit_vector);
            assert(flags & 1u8 != 0 <==> flags % 2 == 1) by (bit_vector);
            if flags & !FLAG_KEYFRAME != 0 {
                return Err(VideoProtocolError::UnknownFlags { message_type: 2, flags });
            }
            match decode_access_unit(payload, flags & FLAG_KEYFRAME != 0) {
                Ok(unit) => Ok(VideoMessage::AccessUnit(unit)),
                Err(error) => Err(error),
            }
        },
        _ => Err(VideoProtocolError::UnknownMessageType { message_type }),
    }
}

/// Decodes the exact codec-configuration payload layout.
fn decode_codec_configuration(payload: &[u8]) -> (result: Result<
    CodecConfiguration,
    VideoProtocolError,
>)
    ensures
        match result {
            Ok(codec) => decoded_codec(payload@) == Ok::<CodecModel, VideoProtocolError>(codec@),
            Err(error) => decoded_codec(payload@) == Err::<CodecModel, VideoProtocolError>(error),
        },
{
    let mut reader = PayloadReader::new(payload, "codec configuration");
    let generation: u64 = reader.read_u64()?;
    let width: u16 = reader.read_u16()?;
    let height: u16 = reader.read_u16()?;
    let sps_length: usize = reader.read_u16()? as usize;
    let sps = reader.read_bytes(sps_length)?;
    let pps_length: usize = reader.read_u16()? as usize;
    let pps = reader.read_bytes(pps_length)?;
    if reader.remaining() != 0 {
        return Err(VideoProtocolError::TrailingCodecBytes { trailing: reader.remaining() });
    }
    CodecConfiguration::new(generation, width as u32, height as u32, sps, pps)
}

/// Decodes the exact access-unit payload layout and validates AVCC framing.
fn decode_access_unit(payload: &[u8], keyframe: bool) -> (result: Result<
    AccessUnit,
    VideoProtocolError,
>)
    ensures
        match result {
            Ok(unit) => decoded_unit(payload@, keyframe) == Ok::<UnitModel, VideoProtocolError>(
                unit@,
            ),
            Err(error) => decoded_unit(payload@, keyframe) == Err::<UnitModel, VideoProtocolError>(
                error,
            ),
        },
{
    let mut reader = PayloadReader::new(payload, "access unit");
    let generation: u64 = reader.read_u64()?;
    let timestamp_us: u64 = reader.read_u64()?;
    let length: usize = reader.remaining();
    let body = reader.read_bytes(length)?;
    AccessUnit::new(generation, timestamp_us, keyframe, body)
}

/// Bounds-checked little-endian reader for one already-bounded payload.
struct PayloadReader<'a> {
    data: &'a [u8],
    position: usize,
    message: &'static str,
}

impl<'a> PayloadReader<'a> {
    spec fn well_formed(&self) -> bool {
        self.position <= self.data@.len()
    }

    /// The reader moved past `length` bytes of the same payload.
    spec fn advanced(&self, before: &Self, length: int) -> bool {
        &&& self.data@ == before.data@
        &&& self.message == before.message
        &&& self.position == before.position + length
        &&& self.position <= self.data@.len()
    }

    spec fn truncation(&self) -> VideoProtocolError {
        VideoProtocolError::TruncatedPayload { message: self.message }
    }

    /// Constructs a reader whose failures name the payload kind.
    fn new(data: &'a [u8], message: &'static str) -> (reader: PayloadReader<'a>)
        ensures
            reader.data@ == data@,
            reader.message == message,
            reader.position == 0,
    {
        PayloadReader { data, position: 0, message }
    }

    /// Returns the unread byte count without advancing.
    fn remaining(&self) -> (count: usize)
        requires
            self.well_formed(),
        ensures
            count == self.data@.len() - self.position,
    {
        self.data.len() - self.position
    }

    /// Reads one little-endian `u16`.
    fn read_u16(&mut self) -> (result: Result<u16, VideoProtocolError>)
        requires
            old(self).well_formed(),
        ensures
            match result {
                Ok(value) => final(self).advanced(old(self), 2) && value == bytes::le_value(
                    old(self).data@.subrange(old(self).position as int, old(self).position + 2),
                ),
                Err(error) => old(self).position + 2 > old(self).data@.len() && error == old(
                    self,
                ).truncation(),
            },
    {
        let field = self.read_bytes(2)?;
        proof {
            bytes::lemma_byte_capacities();
        }
        Ok(bytes::read_le(field) as u16)
    }

    /// Reads one little-endian `u64`.
    fn read_u64(&mut self) -> (result: Result<u64, VideoProtocolError>)
        requires
            old(self).well_formed(),
        ensures
            match result {
                Ok(value) => final(self).advanced(old(self), 8) && value == bytes::le_value(
                    old(self).data@.subrange(old(self).position as int, old(self).position + 8),
                ),
                Err(error) => old(self).position + 8 > old(self).data@.len() && error == old(
                    self,
                ).truncation(),
            },
    {
        let field = self.read_bytes(8)?;
        Ok(bytes::read_le(field))
    }

    /// Borrows an exact number of bytes and advances the cursor.
    fn read_bytes(&mut self, length: usize) -> (result: Result<&'a [u8], VideoProtocolError>)
        requires
            old(self).well_formed(),
        ensures
            match result {
                Ok(field) => final(self).advanced(old(self), length as int) && field@ == old(
                    self,
                ).data@.subrange(old(self).position as int, old(self).position + length),
                Err(error) => old(self).position + length > old(self).data@.len() && error == old(
                    self,
                ).truncation(),
            },
    {
        match self.position.checked_add(length) {
            None => {
                assert(self.data.len() == self.data@.len());
                Err(self.truncated())
            },
            Some(end) => {
                if end > self.data.len() {
                    return Err(self.truncated());
                }
                let data: &'a [u8] = self.data;
                let field = slice_subrange(data, self.position, end);
                self.position = end;
                Ok(field)
            },
        }
    }

    /// Builds a payload-specific truncation error.
    fn truncated(&self) -> (error: VideoProtocolError)
        ensures
            error == self.truncation(),
    {
        VideoProtocolError::TruncatedPayload { message: self.message }
    }
}

/// Why the first of some stripped NAL units cannot be framed, if one cannot.
pub open spec fn framing_fault(units: Seq<Seq<u8>>) -> Option<VideoProtocolError>
    decreases units.len(),
{
    if units.len() == 0 {
        None
    } else {
        match framing_fault(units.drop_last()) {
            Some(error) => Some(error),
            None => if units.last().len() == 0 {
                Some(VideoProtocolError::EmptyNalUnit)
            } else if units.last().len() > u32::MAX {
                Some(VideoProtocolError::NalUnitTooLarge { length: units.last().len() as usize })
            } else if avcc::avcc_len(units) > usize::MAX {
                Some(VideoProtocolError::PayloadSizeOverflow)
            } else {
                None
            },
        }
    }
}

/// The AVCC payload of Annex B NAL units, or why they make none.
pub open spec fn serialized(nal_units: Seq<Seq<u8>>) -> Result<Seq<u8>, VideoProtocolError> {
    let units = avcc::stripped_units(nal_units);
    if units.len() == 0 {
        Err(VideoProtocolError::EmptyAvcc)
    } else {
        match framing_fault(units) {
            Some(error) => Err(error),
            None => if avcc::avcc_len(units) > MAX_AVCC_SIZE {
                Err(
                    VideoProtocolError::PayloadTooLarge {
                        length: avcc::avcc_len(units) as usize,
                        maximum: MAX_AVCC_SIZE,
                    },
                )
            } else {
                Ok(avcc::avcc_of(units))
            },
        }
    }
}

/// Converts Annex B NAL units into one checked AVCC access-unit payload.
pub fn serialize_avcc(nal_units: &[&[u8]]) -> (result: Result<Vec<u8>, VideoProtocolError>)
    ensures
        match result {
            Ok(payload) => serialized(avcc::contents(nal_units@)) == Ok::<
                Seq<u8>,
                VideoProtocolError,
            >(payload@),
            Err(error) => serialized(avcc::contents(nal_units@)) == Err::<
                Seq<u8>,
                VideoProtocolError,
            >(error),
        },
{
    if nal_units.len() == 0 {
        return Err(VideoProtocolError::EmptyAvcc);
    }
    let ghost units = avcc::stripped_units(avcc::contents(nal_units@));
    let mut total: usize = 0;
    let mut i: usize = 0;
    assert(units.take(0) =~= Seq::empty());
    while i < nal_units.len()
        invariant
            i <= nal_units@.len(),
            nal_units@.len() > 0,
            units == avcc::stripped_units(avcc::contents(nal_units@)),
            framing_fault(units.take(i as int)) is None,
            total == avcc::avcc_len(units.take(i as int)),
        decreases nal_units@.len() - i,
    {
        let ghost prefix = units.take(i + 1);
        let nal = avcc::strip_start_code(nal_units[i]);
        proof {
            assert(prefix.drop_last() =~= units.take(i as int));
            assert(prefix.last() == nal@);
            if framing_fault(prefix) is Some {
                lemma_fault_persists(units, i + 1);
            }
        }
        if nal.len() == 0 {
            return Err(VideoProtocolError::EmptyNalUnit);
        }
        if nal.len() as u64 > 0xFFFF_FFFF {
            return Err(VideoProtocolError::NalUnitTooLarge { length: nal.len() });
        }
        let with_prefix = total.checked_add(4);
        let sum: Option<usize> = match with_prefix {
            None => None,
            Some(sum) => sum.checked_add(nal.len()),
        };
        match sum {
            None => {
                return Err(VideoProtocolError::PayloadSizeOverflow);
            },
            Some(sum) => {
                total = sum;
            },
        }
        i = i + 1;
    }
    assert(units.take(i as int) =~= units);
    if total > MAX_AVCC_SIZE {
        return Err(VideoProtocolError::PayloadTooLarge { length: total, maximum: MAX_AVCC_SIZE });
    }
    Ok(avcc::serialize_avcc_payload(nal_units))
}

/// A fault of a prefix is the fault of the whole.
proof fn lemma_fault_persists(units: Seq<Seq<u8>>, length: int)
    requires
        0 <= length <= units.len(),
        framing_fault(units.take(length)) is Some,
    ensures
        framing_fault(units) == framing_fault(units.take(length)),
    decreases units.len() - length,
{
    if length < units.len() {
        assert(units.take(length + 1).drop_last() =~= units.take(length));
        lemma_fault_persists(units, length + 1);
    } else {
        assert(units.take(length) =~= units);
    }
}

/// Every unit is non-empty and its length fits in four bytes.
pub open spec fn frameable(units: Seq<Seq<u8>>) -> bool {
    forall|i: int| 0 <= i < units.len() ==> 0 < #[trigger] units[i].len() <= u32::MAX
}

proof fn lemma_faultless_units(units: Seq<Seq<u8>>)
    requires
        framing_fault(units) is None,
    ensures
        frameable(units),
    decreases units.len(),
{
    if units.len() > 0 {
        lemma_faultless_units(units.drop_last());
        assert forall|i: int| 0 <= i < units.len() implies 0 < #[trigger] units[i].len()
            <= u32::MAX by {
            if i < units.len() - 1 {
                assert(units.drop_last()[i] == units[i]);
            }
        }
    }
}

/// Framed units are read back from where they start.
proof fn lemma_units_read_back(payload: Seq<u8>, position: nat, units: Seq<Seq<u8>>)
    requires
        position <= payload.len() <= usize::MAX,
        payload.skip(position as int) == avcc::avcc_of(units),
        frameable(units),
    ensures
        units_from(payload, position) == Ok::<_, VideoProtocolError>(units),
    decreases units.len(),
{
    let tail = payload.skip(position as int);
    if units.len() == 0 {
        assert(tail.len() == 0);
        assert(units =~= Seq::empty());
    } else {
        let unit = units[0];
        let rest = units.skip(1);
        assert(units =~= seq![unit] + rest);
        avcc::lemma_avcc_front(unit, rest);
        bytes::lemma_byte_capacities();
        bytes::lemma_be_round_trip(unit.len(), 4);
        let start = position + 4;
        let end = start + unit.len();
        assert(tail == avcc::framed(unit) + avcc::avcc_of(rest));
        assert(payload.subrange(position as int, start as int) =~= tail.take(4));
        assert(tail.take(4) =~= bytes::be_bytes(unit.len(), 4));
        assert(payload.subrange(start as int, end as int) =~= tail.subrange(4, 4 + unit.len() as int));
        assert(tail.subrange(4, 4 + unit.len() as int) =~= unit);
        assert(payload.skip(end as int) =~= tail.skip(4 + unit.len() as int));
        assert(tail.skip(4 + unit.len() as int) =~= avcc::avcc_of(rest));
        assert(frameable(rest)) by {
            assert forall|i: int| 0 <= i < rest.len() implies 0 < #[trigger] rest[i].len()
                <= u32::MAX by {
                assert(rest[i] == units[i + 1]);
            }
        }
        lemma_units_read_back(payload, end, rest);
    }
}

/// Bytes that split into units are exactly those units framed.
proof fn lemma_units_cover(payload: Seq<u8>, position: nat)
    requires
        position <= payload.len(),
        units_from(payload, position) is Ok,
    ensures
        payload.skip(position as int) == avcc::avcc_of(units_from(payload, position)->Ok_0),
        frameable(units_from(payload, position)->Ok_0),
    decreases payload.len() - position,
{
    let tail = payload.skip(position as int);
    let units = units_from(payload, position)->Ok_0;
    if position >= payload.len() {
        assert(tail =~= Seq::empty());
    } else {
        let start = position + 4;
        let prefix = payload.subrange(position as int, start as int);
        let length = bytes::be_value(prefix);
        let end = start + length;
        let unit = payload.subrange(start as int, end as int);
        lemma_units_cover(payload, end);
        let rest = units_from(payload, end)->Ok_0;
        avcc::lemma_avcc_front(unit, rest);
        bytes::lemma_byte_capacities();
        bytes::lemma_be_value_bound(prefix);
        assert(tail =~= prefix + unit + payload.skip(end as int));
        assert(tail =~= avcc::framed(unit) + avcc::avcc_of(rest));
        assert forall|i: int| 0 <= i < units.len() implies 0 < #[trigger] units[i].len()
            <= u32::MAX by {
            if i > 0 {
                assert(units[i] == rest[i - 1]);
            }
        }
    }
}

/// An access-unit body is accepted exactly when it is a non-empty run of non-empty framed NAL
/// units within the size limit, and then it is the framing of the units read from it.
pub proof fn law_accepted_bodies_are_framed_units(payload: Seq<u8>)
    ensures
        avcc_units(payload) matches Ok(units) ==> units.len() > 0 && frameable(units) && payload
            == avcc::avcc_of(units) && payload.len() <= MAX_AVCC_SIZE,
{
    if avcc_units(payload) is Ok {
        lemma_units_cover(payload, 0);
        assert(payload.skip(0) =~= payload);
    }
}

/// Framing frameable units within the size limit gives a body that reads back as those units.
pub proof fn law_framed_units_are_accepted(units: Seq<Seq<u8>>)
    requires
        units.len() > 0,
        frameable(units),
        avcc::avcc_of(units).len() <= MAX_AVCC_SIZE,
    ensures
        avcc_units(avcc::avcc_of(units)) == Ok::<_, VideoProtocolError>(units),
{
    let payload = avcc::avcc_of(units);
    assert(payload.skip(0) =~= payload);
    lemma_units_read_back(payload, 0, units);
    if payload.len() == 0 {
        assert(units_from(payload, 0) == Ok::<Seq<Seq<u8>>, VideoProtocolError>(Seq::empty()));
    }
}

/// Whatever `serialize_avcc` produces is a body that `AccessUnit::new` accepts, and it holds
/// the given NAL units without their start codes.
pub proof fn law_serialized_bodies_are_accepted(nal_units: Seq<Seq<u8>>)
    ensures
        serialized(nal_units) matches Ok(payload) ==> avcc_units(payload) == Ok::<
            _,
            VideoProtocolError,
        >(avcc::stripped_units(nal_units)),
{
    if serialized(nal_units) is Ok {
        let units = avcc::stripped_units(nal_units);
        lemma_faultless_units(units);
        avcc::lemma_avcc_len(units);
        law_framed_units_are_accepted(units);
    }
}

/// The parameter sets do not begin with a start code of their own.
pub open spec fn start_code_free(event: EventModel) -> bool {
    match event {
        EventModel::Codec(codec) => avcc::start_code_len(codec.sps) == 0 && avcc::start_code_len(
            codec.pps,
        ) == 0,
        EventModel::Unit(_) => true,
    }
}

/// Decoding the message of an event gives the event back, unless a stored parameter set
/// itself begins with a start code.
pub proof fn law_decoding_undoes_encoding(event: EventModel)
    requires
        event.valid(),
        start_code_free(event),
    ensures
        decoded(message(event)) == Ok::<_, VideoProtocolError>(event),
{
    match event {
        EventModel::Codec(codec) => {
            lemma_payload_lengths(event);
            lemma_codec_payload_round_trip(codec);
            lemma_headed(1, 0, codec_payload(codec));
        },
        EventModel::Unit(unit) => {
            let flags = if unit.keyframe {
                FLAG_KEYFRAME
            } else {
                0
            };
            lemma_payload_lengths(event);
            lemma_unit_payload_round_trip(unit);
            lemma_headed(2, flags, unit_payload(unit));
        },
    }
}

/// What is read of a header is what was written.
proof fn lemma_headed(message_type: u8, flags: u8, payload: Seq<u8>)
    requires
        payload.len() <= MAX_PAYLOAD_SIZE,
    ensures
        ({
            let data = header(message_type, flags, payload.len()) + payload;
            &&& data.len() == 8 + payload.len()
            &&& data[0] == message_type
            &&& data[1] == flags
            &&& data[2] == 0
            &&& data[3] == 0
            &&& bytes::le_value(data.subrange(4, 8)) == payload.len()
            &&& data.skip(8) == payload
        }),
{
    let data = header(message_type, flags, payload.len()) + payload;
    bytes::lemma_byte_capacities();
    bytes::lemma_le_bytes_len(payload.len(), 4);
    bytes::lemma_le_round_trip(payload.len(), 4);
    assert(data.subrange(4, 8) =~= bytes::le_bytes(payload.len(), 4));
    assert(data.skip(8) =~= payload);
}

proof fn lemma_unit_payload_round_trip(unit: UnitModel)
    requires
        unit.valid(),
    ensures
        decoded_unit(unit_payload(unit), unit.keyframe) == Ok::<_, VideoProtocolError>(unit),
{
    let payload = unit_payload(unit);
    lemma_payload_lengths(EventModel::Unit(unit));
    bytes::lemma_byte_capacities();
    bytes::lemma_le_round_trip(unit.codec_generation as nat, 8);
    bytes::lemma_le_round_trip(unit.timestamp_us as nat, 8);
    bytes::lemma_le_bytes_len(unit.codec_generation as nat, 8);
    assert(payload.subrange(0, 8) =~= bytes::le_bytes(unit.codec_generation as nat, 8));
    assert(payload.subrange(8, 16) =~= bytes::le_bytes(unit.timestamp_us as nat, 8));
    assert(payload.skip(16) =~= unit.avcc);
}

proof fn lemma_codec_payload_round_trip(codec: CodecModel)
    requires
        codec.valid(),
        avcc::start_code_len(codec.sps) == 0,
        avcc::start_code_len(codec.pps) == 0,
    ensures
        decoded_codec(codec_payload(codec)) == Ok::<_, VideoProtocolError>(codec),
{
    let payload = codec_payload(codec);
    lemma_payload_lengths(EventModel::Codec(codec));
    bytes::lemma_byte_capacities();
    bytes::lemma_le_round_trip(codec.generation as nat, 8);
    bytes::lemma_le_round_trip(codec.width as nat, 2);
    bytes::lemma_le_round_trip(codec.height as nat, 2);
    bytes::lemma_le_round_trip(codec.sps.len(), 2);
    bytes::lemma_le_round_trip(codec.pps.len(), 2);
    let pps_at = (14 + codec.sps.len()) as int;
    assert(payload.subrange(0, 8) =~= bytes::le_bytes(codec.generation as nat, 8));
    assert(payload.subrange(8, 10) =~= bytes::le_bytes(codec.width as nat, 2));
    assert(payload.subrange(10, 12) =~= bytes::le_bytes(codec.height as nat, 2));
    assert(payload.subrange(12, 14) =~= bytes::le_bytes(codec.sps.len(), 2));
    assert(payload.subrange(14, pps_at) =~= codec.sps);
    assert(payload.subrange(pps_at, pps_at + 2) =~= bytes::le_bytes(codec.pps.len(), 2));
    assert(payload.subrange(pps_at + 2, pps_at + 2 + codec.pps.len()) =~= codec.pps);
    assert(codec.sps.skip(0) =~= codec.sps);
    assert(codec.pps.skip(0) =~= codec.pps);
}

/// Only valid events come out of the decoder, and an access-unit message is the only encoding
/// of the access unit that it decodes to.
pub proof fn law_decoded_events_are_valid(data: Seq<u8>)
    requires
        data.len() <= usize::MAX,
    ensures
        decoded(data) matches Ok(event) ==> event.valid(),
        decoded(data) matches Ok(EventModel::Unit(unit)) ==> message(EventModel::Unit(unit))
            == data,
{
    if let Ok(EventModel::Unit(unit)) = decoded(data) {
        let payload = data.skip(8);
        bytes::lemma_byte_capacities();
        bytes::lemma_le_value_bound(data.subrange(4, 8));
        bytes::lemma_le_value_bound(payload.subrange(0, 8));
        bytes::lemma_le_value_bound(payload.subrange(8, 16));
        assert(payload =~= unit_payload(unit));
        assert(message(EventModel::Unit(unit)) =~= data);
    }
}

/// A decoder configuration is sent as type one without flags: generation, width, height and both
/// parameter sets behind their lengths, all numbers little-endian, with nothing behind them.
pub proof fn law_codec_messages_are_laid_out(
    config: CodecConfiguration,
    result: Result<Vec<u8>, VideoProtocolError>,
)
    requires
        config@.valid(),
        call_ensures(encode_event, (&VideoEvent::CodecConfiguration(config),), result),
    ensures
        result is Ok,
        ({
            let out = result->Ok_0@;
            let sps = config@.sps.len() as int;
            let pps = config@.pps.len() as int;
            &&& out.len() == 24 + sps + pps
            &&& out[0] == 1 && out[1] == 0 && out[2] == 0 && out[3] == 0
            &&& bytes::le_value(out.subrange(4, 8)) == 16 + sps + pps
            &&& bytes::le_value(out.subrange(8, 16)) == config@.generation
            &&& bytes::le_value(out.subrange(16, 18)) == config@.width
            &&& bytes::le_value(out.subrange(18, 20)) == config@.height
            &&& bytes::le_value(out.subrange(20, 22)) == sps
            &&& out.subrange(22, 22 + sps) == config@.sps
            &&& bytes::le_value(out.subrange(22 + sps, 24 + sps)) == pps
            &&& out.subrange(24 + sps, 24 + sps + pps) == config@.pps
        }),
{
    let codec = config@;
    let payload = codec_payload(codec);
    let out = result->Ok_0@;
    let sps = codec.sps.len() as int;
    lemma_payload_lengths(EventModel::Codec(codec));
    lemma_headed(1, 0, payload);
    bytes::lemma_byte_capacities();
    bytes::lemma_le_round_trip(codec.generation as nat, 8);
    bytes::lemma_le_round_trip(codec.width as nat, 2);
    bytes::lemma_le_round_trip(codec.height as nat, 2);
    bytes::lemma_le_round_trip(codec.sps.len(), 2);
    bytes::lemma_le_round_trip(codec.pps.len(), 2);
    assert(out.subrange(8, 16) =~= bytes::le_bytes(codec.generation as nat, 8));
    assert(out.subrange(16, 18) =~= bytes::le_bytes(codec.width as nat, 2));
    assert(out.subrange(18, 20) =~= bytes::le_bytes(codec.height as nat, 2));
    assert(out.subrange(20, 22) =~= bytes::le_bytes(codec.sps.len(), 2));
    assert(out.subrange(22, 22 + sps) =~= codec.sps);
    assert(out.subrange(22 + sps, 24 + sps) =~= bytes::le_bytes(codec.pps.len(), 2));
    assert(out.subrange(24 + sps, 24 + sps + codec.pps.len()) =~= codec.pps);
}

/// An access unit is sent as type two, with one flag for a keyframe: codec generation and timestamp,
/// both little-endian, and the unchanged body.
pub proof fn law_access_unit_messages_are_laid_out(
    unit: AccessUnit,
    result: Result<Vec<u8>, VideoProtocolError>,
)
    requires
        unit@.avcc.len() <= 16_777_200,
        call_ensures(encode_event, (&VideoEvent::AccessUnit(unit),), result),
    ensures
        result is Ok,
        ({
            let out = result->Ok_0@;
            &&& out.len() == 24 + unit@.avcc.len()
            &&& out[0] == 2 && out[2] == 0 && out[3] == 0
            &&& out[1] == if unit@.keyframe {
                1int
            } else {
                0
            }
            &&& bytes::le_value(out.subrange(4, 8)) == 16 + unit@.avcc.len()
            &&& bytes::le_value(out.subrange(8, 16)) == unit@.codec_generation
            &&& bytes::le_value(out.subrange(16, 24)) == unit@.timestamp_us
            &&& out.skip(24) == unit@.avcc
        }),
{
    let payload = unit_payload(unit@);
    let out = result->Ok_0@;
    lemma_payload_lengths(EventModel::Unit(unit@));
    lemma_headed(
        2,
        if unit@.keyframe {
            FLAG_KEYFRAME
        } else {
            0
        },
        payload,
    );
    bytes::lemma_byte_capacities();
    bytes::lemma_le_round_trip(unit@.codec_generation as nat, 8);
    bytes::lemma_le_round_trip(unit@.timestamp_us as nat, 8);
    assert(out.subrange(8, 16) =~= bytes::le_bytes(unit@.codec_generation as nat, 8));
    assert(out.subrange(16, 24) =~= bytes::le_bytes(unit@.timestamp_us as nat, 8));
    assert(out.skip(24) =~= unit@.avcc);
}

/// Whatever is encoded decodes to what it says, unless a parameter set begins with a start code of
/// its own.
pub proof fn law_encoded_events_are_decoded(
    event: VideoEvent,
    data: Vec<u8>,
    slice: &[u8],
    result: Result<VideoMessage, VideoProtocolError>,
)
    requires
        event@.valid(),
        start_code_free(event@),
        call_ensures(encode_event, (&event,), Ok::<_, VideoProtocolError>(data)),
        slice@ == data@,
        call_ensures(decode_message, (slice,), result),
    ensures
        result is Ok,
        match event {
            VideoEvent::CodecConfiguration(sent) => result->Ok_0 matches
                VideoMessage::CodecConfiguration(received) && received@ == sent@,
            VideoEvent::AccessUnit(sent) => result->Ok_0 matches VideoMessage::AccessUnit(
                received,
            ) && received@ == sent@,
        },
{
    law_decoding_undoes_encoding(event@);
}

/// A message that decodes to an access unit has a whole header without reserved bits, whose length
/// is that of what follows; type, flag, codec generation, timestamp and body stand at fixed places.
pub proof fn law_access_units_are_read_by_place(data: &[u8], unit: AccessUnit)
    requires
        call_ensures(
            decode_message,
            (data,),
            Ok::<_, VideoProtocolError>(VideoMessage::AccessUnit(unit)),
        ),
    ensures
        data@.len() > 24,
        data@[0] == 2 && data@[1] <= 1 && data@[2] == 0 && data@[3] == 0,
        bytes::le_value(data@.subrange(4, 8)) == data@.len() - 8,
        data@.len() - 8 <= 16_777_216,
        unit@.keyframe <==> data@[1] == 1,
        unit@.codec_generation == bytes::le_value(data@.subrange(8, 16)),
        unit@.timestamp_us == bytes::le_value(data@.subrange(16, 24)),
        unit@.avcc == data@.skip(24),
{
    lemma_places(data@, 0, 0);
    let payload = data@.skip(8);
    bytes::lemma_byte_capacities();
    bytes::lemma_le_value_bound(payload.subrange(0, 8));
    bytes::lemma_le_value_bound(payload.subrange(8, 16));
}

/// A message that decodes to a decoder configuration has a whole header without reserved bits, whose
/// length is that of what follows; type, generation, dimensions and parameter sets stand at the
/// places that the lengths in front of them give, and nothing stands behind.
pub proof fn law_codec_configurations_are_read_by_place(
    data: &[u8],
    config: CodecConfiguration,
    sps: &[u8],
    pps: &[u8],
    sequence: &[u8],
    picture: &[u8],
)
    requires
        call_ensures(
            decode_message,
            (data,),
            Ok::<_, VideoProtocolError>(VideoMessage::CodecConfiguration(config)),
        ),
        sps@ == data@.subrange(22, 22int + bytes::le_value(data@.subrange(20, 22))),
        pps@ == data@.subrange(24 + sps@.len() as int, data@.len() as int),
        call_ensures(avcc::strip_start_code, (sps,), sequence),
        call_ensures(avcc::strip_start_code, (pps,), picture),
    ensures
        data@.len() == 24 + sps@.len() + pps@.len(),
        data@[0] == 1 && data@[1] == 0 && data@[2] == 0 && data@[3] == 0,
        bytes::le_value(data@.subrange(4, 8)) == data@.len() - 8,
        bytes::le_value(data@.subrange(20, 22)) == sps@.len(),
        bytes::le_value(data@.subrange(22 + sps@.len() as int, 24 + sps@.len() as int))
            == pps@.len(),
        config@.generation == bytes::le_value(data@.subrange(8, 16)),
        config@.width == bytes::le_value(data@.subrange(16, 18)),
        config@.height == bytes::le_value(data@.subrange(18, 20)),
        config@.width > 0 && config@.height > 0,
        config@.sps == sequence@ && config@.pps == picture@,
        sequence@.len() >= 4,
{
    let payload = data@.skip(8);
    let length = bytes::le_value(payload.subrange(12, 14)) as int;
    lemma_places(data@, length, 0);
    lemma_places(
        data@,
        length,
        bytes::le_value(payload.subrange(14 + length, 16 + length)) as int,
    );
    bytes::lemma_byte_capacities();
    bytes::lemma_le_value_bound(payload.subrange(0, 8));
    bytes::lemma_le_value_bound(payload.subrange(8, 10));
    bytes::lemma_le_value_bound(payload.subrange(10, 12));
}

proof fn lemma_places(data: Seq<u8>, sps: int, pps: int)
    requires
        data.len() >= 8,
        sps >= 0,
        pps >= 0,
    ensures
        ({
            let payload = data.skip(8);
            &&& data.len() >= 16 ==> payload.subrange(0, 8) == data.subrange(8, 16)
            &&& data.len() >= 18 ==> payload.subrange(8, 10) == data.subrange(16, 18)
            &&& data.len() >= 20 ==> payload.subrange(10, 12) == data.subrange(18, 20)
            &&& data.len() >= 22 ==> payload.subrange(12, 14) == data.subrange(20, 22)
            &&& data.len() >= 24 ==> payload.subrange(8, 16) == data.subrange(16, 24)
            &&& data.len() >= 24 ==> payload.skip(16) == data.skip(24)
            &&& data.len() >= 24 + sps ==> payload.subrange(14, 14 + sps) == data.subrange(
                22,
                22 + sps,
            ) && payload.subrange(14 + sps, 16 + sps) == data.subrange(22 + sps, 24 + sps)
            &&& data.len() >= 24 + sps + pps ==> payload.subrange(16 + sps, 16 + sps + pps)
                == data.subrange(24 + sps, 24 + sps + pps)
        }),
{
    let payload = data.skip(8);
    if data.len() >= 16 {
        assert(payload.subrange(0, 8) =~= data.subrange(8, 16));
    }
    if data.len() >= 18 {
        assert(payload.subrange(8, 10) =~= data.subrange(16, 18));
    }
    if data.len() >= 20 {
        assert(payload.subrange(10, 12) =~= data.subrange(18, 20));
    }
    if data.len() >= 22 {
        assert(payload.subrange(12, 14) =~= data.subrange(20, 22));
    }
    if data.len() >= 24 {
        assert(payload.subrange(8, 16) =~= data.subrange(16, 24));
        assert(payload.skip(16) =~= data.skip(24));
    }
    if data.len() >= 24 + sps {
        assert(payload.subrange(14, 14 + sps) =~= data.subrange(22, 22 + sps));
        assert(payload.subrange(14 + sps, 16 + sps) =~= data.subrange(22 + sps, 24 + sps));
    }
    if data.len() >= 24 + sps + pps {
        assert(payload.subrange(16 + sps, 16 + sps + pps) =~= data.subrange(
            24 + sps,
            24 + sps + pps,
        ));
    }
}

/// What is wrong with a header is found in order: a missing byte, a reserved bit, a length beyond
/// the limit, a length that is not that of what follows, an unknown type, an unknown flag.
pub proof fn law_faulty_headers_are_refused(
    data: &[u8],
    result: Result<VideoMessage, VideoProtocolError>,
)
    requires
        call_ensures(decode_message, (data,), result),
    ensures
        ({
            let length = data@.len();
            let reserved = data@[2] != 0 || data@[3] != 0;
            let declared = bytes::le_value(data@.subrange(4, 8));
            let headed = length >= 8 && !reserved && declared <= 16_777_216 && declared == length
                - 8;
            &&& length < 8 <==> (result matches Err(VideoProtocolError::TruncatedHeader { .. }))
            &&& length >= 8 && reserved <==> result == Err::<VideoMessage, _>(
                VideoProtocolError::ReservedHeaderBits,
            )
            &&& length >= 8 && !reserved && declared <= 16_777_216 && declared != length - 8 <==> (
            result matches Err(VideoProtocolError::PayloadLengthMismatch { .. }))
            &&& headed && data@[0] != 1 && data@[0] != 2 <==> (result matches Err(
                VideoProtocolError::UnknownMessageType { .. },
            ))
            &&& headed && (data@[0] == 1 && data@[1] != 0 || data@[0] == 2 && data@[1] > 1) <==> (
            result matches Err(VideoProtocolError::UnknownFlags { .. }))
            &&& result matches Err(VideoProtocolError::UnknownFlags { message_type, flags })
                ==> message_type == data@[0] && flags == data@[1]
            &&& length >= 8 && !reserved && declared > 16_777_216 ==> (result matches Err(
                VideoProtocolError::PayloadTooLarge { .. },
            ))
        }),
{
    let payload = data@.skip(8);
    if data@.len() >= 24 {
        lemma_unit_faults(payload.skip(16), 0);
    }
}

proof fn lemma_unit_faults(payload: Seq<u8>, position: nat)
    ensures
        units_from(payload, position) matches Err(error) ==> error is EmptyNalUnit || error is
            PayloadSizeOverflow || error is TruncatedNalUnit,
    decreases payload.len() - position,
{
    if position + 4 <= payload.len() {
        let length = bytes::be_value(payload.subrange(position as int, (position + 4) as int));
        if length > 0 && position + 4 + length <= payload.len() {
            lemma_unit_faults(payload, position + 4 + length);
        }
    }
}

/// A configuration is made exactly of dimensions from 1 to 65535, an SPS of four bytes at least and
/// parameter sets whose lengths fit in two bytes, start codes not counted; it keeps them without
/// their start codes.
pub proof fn law_codec_configurations_are_checked(
    generation: u64,
    width: u32,
    height: u32,
    sps: &[u8],
    pps: &[u8],
    sequence: &[u8],
    picture: &[u8],
    result: Result<CodecConfiguration, VideoProtocolError>,
)
    requires
        call_ensures(avcc::strip_start_code, (sps,), sequence),
        call_ensures(avcc::strip_start_code, (pps,), picture),
        call_ensures(CodecConfiguration::new, (generation, width, height, sps, pps), result),
    ensures
        result is Ok <==> 1 <= width <= 65_535 && 1 <= height <= 65_535 && 4 <= sequence@.len()
            <= 65_535 && picture@.len() <= 65_535,
        result matches Ok(config) ==> {
            &&& config@.generation == generation
            &&& config@.width == width
            &&& config@.height == height
            &&& config@.sps == sequence@
            &&& config@.pps == picture@
        },
{
}

/// The body of an access unit is read from the front: a length of four big-endian bytes, which is
/// not zero, and as many bytes behind it. What follows a unit is a body of its own, or nothing.
pub proof fn law_bodies_are_read_unit_by_unit(
    body: &[u8],
    unit: Seq<u8>,
    rest: &[u8],
    keyframe: bool,
    times: (u64, u64),
    result: Result<AccessUnit, VideoProtocolError>,
    remaining: Result<AccessUnit, VideoProtocolError>,
)
    requires
        body@.len() <= 16_777_200,
        body@ == bytes::be_bytes(unit.len(), 4) + unit + rest@,
        unit.len() > 0,
        call_ensures(AccessUnit::new, (times.0, times.1, keyframe, body), result),
        call_ensures(AccessUnit::new, (times.0, times.1, keyframe, rest), remaining),
    ensures
        result is Ok <==> rest@.len() == 0 || remaining is Ok,
        result matches Ok(made) ==> {
            &&& made@.codec_generation == times.0
            &&& made@.timestamp_us == times.1
            &&& made@.keyframe == keyframe
            &&& made@.avcc == body@
        },
{
    let front = bytes::be_bytes(unit.len(), 4) + unit;
    bytes::lemma_byte_capacities();
    bytes::lemma_be_bytes_len(unit.len(), 4);
    bytes::lemma_be_round_trip(unit.len(), 4);
    assert(body@.subrange(0, 4) =~= bytes::be_bytes(unit.len(), 4));
    assert(body@ =~= front + rest@);
    lemma_units_behind(front, rest@, 0);
}

proof fn lemma_units_behind(front: Seq<u8>, rest: Seq<u8>, position: nat)
    requires
        front.len() + rest.len() <= usize::MAX,
    ensures
        units_from(front + rest, front.len() + position) is Ok <==> units_from(rest, position)
            is Ok,
    decreases rest.len() - position,
{
    let whole = front + rest;
    let from = front.len() + position;
    if position + 4 <= rest.len() {
        assert(whole.subrange(from as int, from as int + 4) =~= rest.subrange(
            position as int,
            position as int + 4,
        ));
        let length = bytes::be_value(rest.subrange(position as int, (position + 4) as int));
        if length > 0 && position + 4 + length <= rest.len() {
            lemma_units_behind(front, rest, position + 4 + length);
        }
    }
}

/// No access unit has an empty body, a body above the limit, a unit of length zero, or a unit that
/// is cut off.
pub proof fn law_faulty_bodies_are_refused(
    body: &[u8],
    keyframe: bool,
    times: (u64, u64),
    result: Result<AccessUnit, VideoProtocolError>,
)
    requires
        call_ensures(AccessUnit::new, (times.0, times.1, keyframe, body), result),
    ensures
        body@.len() == 0 ==> result == Err::<AccessUnit, _>(VideoProtocolError::EmptyAvcc),
        body@.len() > 16_777_200 ==> (result matches Err(
            VideoProtocolError::PayloadTooLarge { length, maximum },
        ) && maximum == 16_777_200 && (body@.len() <= usize::MAX ==> length == body@.len())),
        0 < body@.len() < 4 ==> (result matches Err(VideoProtocolError::TruncatedNalUnit { .. })),
        4 <= body@.len() <= 16_777_200 && bytes::be_value(body@.subrange(0, 4)) == 0 ==> result
            == Err::<AccessUnit, _>(VideoProtocolError::EmptyNalUnit),
        4 <= body@.len() <= 16_777_200 && bytes::be_value(body@.subrange(0, 4)) > body@.len() - 4
            ==> result is Err,
{
}

/// Annex B units are put into one body exactly if there is one at least, none is empty behind its
/// start code and the body stays within the limit; it frames the units one by one.
pub proof fn law_units_are_serialized_within_the_limit(
    units: &[&[u8]],
    framed: Vec<u8>,
    result: Result<Vec<u8>, VideoProtocolError>,
)
    requires
        call_ensures(avcc::serialize_avcc_payload, (units,), framed),
        call_ensures(serialize_avcc, (units,), result),
    ensures
        result is Ok <==> {
            &&& units@.len() > 0
            &&& forall|i: int|
                0 <= i < units@.len() ==> avcc::stripped((#[trigger] units@[i])@).len() > 0
            &&& framed@.len() <= 16_777_200
        },
        result matches Ok(payload) ==> payload@ == framed@,
        units@.len() == 0 ==> result == Err::<Vec<u8>, _>(VideoProtocolError::EmptyAvcc),
{
    let stripped = avcc::stripped_units(avcc::contents(units@));
    avcc::lemma_avcc_len(stripped);
    if result is Ok {
        lemma_faultless_units(stripped);
        assert forall|i: int| 0 <= i < units@.len() implies avcc::stripped(
            (#[trigger] units@[i])@,
        ).len() > 0 by {
            assert(stripped[i] == avcc::stripped(units@[i]@));
        }
    } else if framed@.len() <= 16_777_200 && forall|i: int|
        0 <= i < units@.len() ==> avcc::stripped((#[trigger] units@[i])@).len() > 0 {
        assert forall|i: int| 0 <= i < stripped.len() implies (#[trigger] stripped[i]).len() > 0 by {
            assert(stripped[i] == avcc::stripped(units@[i]@));
        }
        lemma_small_units_are_faultless(stripped);
    }
}

proof fn lemma_small_units_are_faultless(units: Seq<Seq<u8>>)
    requires
        forall|i: int| 0 <= i < units.len() ==> (#[trigger] units[i]).len() > 0,
        avcc::avcc_len(units) <= 16_777_200,
    ensures
        framing_fault(units) is None,
    decreases units.len(),
{
    if units.len() > 0 {
        assert forall|i: int| 0 <= i < units.drop_last().len() implies (
        #[trigger] units.drop_last()[i]).len() > 0 by {
            assert(units.drop_last()[i] == units[i]);
        }
        lemma_small_units_are_faultless(units.drop_last());
    }
}

/// A configuration is described like its parameter sets are, and gives out what it holds.
pub proof fn law_configurations_describe_their_sets(
    config: CodecConfiguration,
    sps: &[u8],
    pps: &[u8],
    name: String,
    record: Vec<u8>,
    same_name: String,
    same_record: Vec<u8>,
)
    requires
        avcc::start_code_len(config@.sps) == 0 && avcc::start_code_len(config@.pps) == 0,
        call_ensures(CodecConfiguration::sps, (&config,), sps),
        call_ensures(CodecConfiguration::pps, (&config,), pps),
        call_ensures(CodecConfiguration::codec_string, (&config,), name),
        call_ensures(CodecConfiguration::avcc_description, (&config,), record),
        call_ensures(avcc::build_codec_string, (sps,), same_name),
        call_ensures(avcc::build_avcc_descriptor, (sps, pps), same_record),
    ensures
        sps@ == config@.sps && pps@ == config@.pps,
        name@ == same_name@,
        record@ == same_record@,
{
    assert(config@.sps.skip(0) =~= config@.sps);
    assert(config@.pps.skip(0) =~= config@.pps);
}

/// What a configuration or an access unit is made of can be read from it.
pub proof fn law_parts_can_be_read(
    config: CodecConfiguration,
    unit: AccessUnit,
    generation: u64,
    size: (u16, u16),
    of: u64,
    timestamp_us: u64,
    keyframe: bool,
    body: &[u8],
)
    requires
        call_ensures(CodecConfiguration::generation, (&config,), generation),
        call_ensures(CodecConfiguration::width, (&config,), size.0),
        call_ensures(CodecConfiguration::height, (&config,), size.1),
        call_ensures(AccessUnit::codec_generation, (&unit,), of),
        call_ensures(AccessUnit::timestamp_us, (&unit,), timestamp_us),
        call_ensures(AccessUnit::is_keyframe, (&unit,), keyframe),
        call_ensures(AccessUnit::avcc, (&unit,), body),
    ensures
        generation == config@.generation && size == (config@.width, config@.height),
        of == unit@.codec_generation && timestamp_us == unit@.timestamp_us,
        keyframe == unit@.keyframe && body@ == unit@.avcc,
{
}

/// Whether a message has a header of a type with flags, and a payload of the length it declares.
pub open spec fn headed(data: Seq<u8>, message_type: u8, flags: u8) -> bool {
    &&& 8 <= data.len() <= 16_777_224
    &&& data[0] == message_type && data[1] == flags && data[2] == 0 && data[3] == 0
    &&& bytes::le_value(data.subrange(4, 8)) == data.len() - 8
}

/// A message with an access unit is accepted exactly if its body is, with the codec generation and
/// the timestamp in front of it; a payload without them is cut off.
pub proof fn law_access_unit_payloads_are_accepted(
    data: &[u8],
    keyframe: bool,
    body: &[u8],
    unit: Result<AccessUnit, VideoProtocolError>,
    result: Result<VideoMessage, VideoProtocolError>,
)
    requires
        headed(data@, 2, if keyframe {
            1
        } else {
            0
        }),
        data@.len() >= 24 ==> body@ == data@.skip(24),
        call_ensures(
            AccessUnit::new,
            (
                bytes::le_value(data@.subrange(8, 16)) as u64,
                bytes::le_value(data@.subrange(16, 24)) as u64,
                keyframe,
                body,
            ),
            unit,
        ),
        call_ensures(decode_message, (data,), result),
    ensures
        data@.len() < 24 ==> (result matches Err(VideoProtocolError::TruncatedPayload { .. })),
        data@.len() >= 24 ==> (result is Ok <==> unit is Ok),
        data@.len() >= 24 && unit is Err ==> result == Err::<VideoMessage, _>(unit->Err_0),
        data@.len() >= 24 && unit is Ok ==> (result->Ok_0 matches VideoMessage::AccessUnit(decoded)
            && decoded@ == unit->Ok_0@),
{
    lemma_places(data@, 0, 0);
}

/// A message with a decoder configuration is accepted exactly if its fields make one and nothing
/// stands behind them; a payload that ends before them is cut off.
pub proof fn law_codec_payloads_are_accepted(
    data: &[u8],
    sps: &[u8],
    pps: &[u8],
    config: Result<CodecConfiguration, VideoProtocolError>,
    result: Result<VideoMessage, VideoProtocolError>,
)
    requires
        headed(data@, 1, 0),
        data@.len() >= 24 + sps@.len() + pps@.len(),
        sps@ == data@.subrange(22, 22 + sps@.len() as int),
        bytes::le_value(data@.subrange(20, 22)) == sps@.len(),
        pps@ == data@.subrange(24 + sps@.len() as int, 24 + sps@.len() as int + pps@.len() as int),
        bytes::le_value(data@.subrange(22 + sps@.len() as int, 24 + sps@.len() as int))
            == pps@.len(),
        call_ensures(
            CodecConfiguration::new,
            (
                bytes::le_value(data@.subrange(8, 16)) as u64,
                bytes::le_value(data@.subrange(16, 18)) as u32,
                bytes::le_value(data@.subrange(18, 20)) as u32,
                sps,
                pps,
            ),
            config,
        ),
        call_ensures(decode_message, (data,), result),
    ensures
        data@.len() > 24 + sps@.len() + pps@.len() ==> (result matches Err(
            VideoProtocolError::TrailingCodecBytes { .. },
        )),
        data@.len() == 24 + sps@.len() + pps@.len() ==> {
            &&& result is Ok <==> config is Ok
            &&& config is Err ==> result == Err::<VideoMessage, _>(config->Err_0)
            &&& config is Ok ==> (result->Ok_0 matches VideoMessage::CodecConfiguration(decoded)
                && decoded@ == config->Ok_0@)
        },
{
    lemma_places(data@, sps@.len() as int, pps@.len() as int);
}

/// A decoder configuration whose lengths reach behind the end of its message is cut off.
pub proof fn law_short_codec_payloads_are_cut_off(
    data: &[u8],
    result: Result<VideoMessage, VideoProtocolError>,
)
    requires
        headed(data@, 1, 0),
        call_ensures(decode_message, (data,), result),
    ensures
        data@.len() < 22 ==> (result matches Err(VideoProtocolError::TruncatedPayload { .. })),
        data@.len() >= 22 && data@.len() < 24 + bytes::le_value(data@.subrange(20, 22)) ==> (
        result matches Err(VideoProtocolError::TruncatedPayload { .. })),
        data@.len() >= 22 ==> {
            let pps_at = 24 + bytes::le_value(data@.subrange(20, 22)) as int;
            data@.len() >= pps_at && data@.len() < pps_at + bytes::le_value(
                data@.subrange(pps_at - 2, pps_at),
            ) ==> (result matches Err(VideoProtocolError::TruncatedPayload { .. }))
        },
{
    lemma_places(data@, 0, 0);
    if data@.len() >= 22 {
        let sps = bytes::le_value(data@.subrange(20, 22)) as int;
        if data@.len() >= 24 + sps {
            lemma_places(data@, sps, 0);
        }
    }
}

} // verus!
