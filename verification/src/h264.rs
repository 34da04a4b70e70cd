//! Annex B packetization of encoder output into video events.
use vstd::prelude::*;
use vstd::slice::{slice_subrange, slice_to_vec};
use crate::{avcc, bytes, text, video};
use crate::video::{
    AccessUnit, CodecConfiguration, CodecModel, EventModel, VideoEvent, VideoProtocolError,
};

verus! {

/// Why encoder output could not be turned into video events.
#[derive(Debug, Clone, PartialEq, Eq)]
pub enum PacketizeError {
    /// The output holds no start code.
    NoNalUnit,
    /// Bytes other than zero stand before the first start code.
    LeadingBytes,
    /// Nothing stands between a start code and what follows it.
    EmptyNalUnit,
    /// No sequence parameter set has been seen yet.
    MissingSps,
    /// No picture parameter set has been seen yet.
    MissingPps,
    /// The codec generation cannot be advanced further.
    GenerationExhausted,
    /// The parameter sets do not make a decoder configuration.
    InvalidParameterSets(VideoProtocolError),
    /// No decoder configuration precedes the access unit.
    MissingCodec,
    /// The NAL units do not make an AVCC payload.
    InvalidAnnexB(VideoProtocolError),
    /// The AVCC payload does not make an access unit.
    InvalidAccessUnit(VideoProtocolError),
}

impl PacketizeError {
    /// The diagnostic text of this failure.
    pub open spec fn text(&self) -> Seq<char> {
        match self {
            PacketizeError::NoNalUnit => "encoder output contains no Annex B NAL unit"@,
            PacketizeError::LeadingBytes =>
                "encoder output contains bytes before its first Annex B start code"@,
            PacketizeError::EmptyNalUnit => "encoder output contains an empty Annex B NAL unit"@,
            PacketizeError::MissingSps => "encoder output has no SPS for its active codec"@,
            PacketizeError::MissingPps => "encoder output has no PPS for its active codec"@,
            PacketizeError::GenerationExhausted => "H.264 codec generation exhausted"@,
            PacketizeError::InvalidParameterSets(_) =>
                "encoder produced invalid H.264 parameter sets"@,
            PacketizeError::MissingCodec =>
                "encoder emitted an access unit before codec configuration"@,
            PacketizeError::InvalidAnnexB(_) => "encoder produced invalid Annex B output"@,
            PacketizeError::InvalidAccessUnit(_) => "encoder produced an invalid access unit"@,
        }
    }

    /// Describes this failure.
    pub fn message(&self) -> (message: String)
        ensures
            message@ == self.text(),
    {
        let message = match self {
            PacketizeError::NoNalUnit => "encoder output contains no Annex B NAL unit",
            PacketizeError::LeadingBytes =>
                "encoder output contains bytes before its first Annex B start code",
            PacketizeError::EmptyNalUnit => "encoder output contains an empty Annex B NAL unit",
            PacketizeError::MissingSps => "encoder output has no SPS for its active codec",
            PacketizeError::MissingPps => "encoder output has no PPS for its active codec",
            PacketizeError::GenerationExhausted => "H.264 codec generation exhausted",
            PacketizeError::InvalidParameterSets(_) =>
                "encoder produced invalid H.264 parameter sets",
            PacketizeError::MissingCodec =>
                "encoder emitted an access unit before codec configuration",
            PacketizeError::InvalidAnnexB(_) => "encoder produced invalid Annex B output",
            PacketizeError::InvalidAccessUnit(_) => "encoder produced an invalid access unit",
        };
        message.to_owned()
    }

    /// The protocol failure behind this one, where there is one.
    pub open spec fn cause(&self) -> Option<VideoProtocolError> {
        match self {
            PacketizeError::InvalidParameterSets(error) => Some(*error),
            PacketizeError::InvalidAnnexB(error) => Some(*error),
            PacketizeError::InvalidAccessUnit(error) => Some(*error),
            _ => None,
        }
    }

    /// Returns the protocol failure behind this one, where there is one.
    pub fn source(&self) -> (source: Option<&VideoProtocolError>)
        ensures
            match source {
                Some(error) => self.cause() == Some(*error),
                None => self.cause() is None,
            },
    {
        match self {
            PacketizeError::InvalidParameterSets(error) => Some(error),
            PacketizeError::InvalidAnnexB(error) => Some(error),
            PacketizeError::InvalidAccessUnit(error) => Some(error),
            _ => None,
        }
    }
}

/// The start codes of `data` from `from` on, as position and length, found left to right
/// without overlap; where both forms fit, the four-byte form is taken.
pub open spec fn start_codes(data: Seq<u8>, from: int) -> Seq<(int, int)>
    decreases data.len() - from,
{
    let length = avcc::start_code_len(data.skip(from)) as int;
    if from < 0 || data.len() - from < 3 {
        Seq::empty()
    } else if length > 0 {
        seq![(from, length)] + start_codes(data, from + length)
    } else {
        start_codes(data, from + 1)
    }
}

/// One NAL unit with and without its start code.
pub struct NalModel {
    pub full: Seq<u8>,
    pub payload: Seq<u8>,
    pub kind: u8,
}

/// Where the unit behind the `i`th start code ends.
pub open spec fn unit_end(data: Seq<u8>, starts: Seq<(int, int)>, i: int) -> int {
    if i + 1 < starts.len() {
        starts[i + 1].0
    } else {
        data.len() as int
    }
}

/// The unit behind the `i`th start code.
pub open spec fn unit_at(data: Seq<u8>, starts: Seq<(int, int)>, i: int) -> NalModel {
    let payload = data.subrange(starts[i].0 + starts[i].1, unit_end(data, starts, i));
    NalModel {
        full: data.subrange(starts[i].0, unit_end(data, starts, i)),
        payload,
        kind: payload[0] & 0x1F,
    }
}

/// Whether nothing stands behind the `i`th start code.
pub open spec fn unit_is_empty(data: Seq<u8>, starts: Seq<(int, int)>, i: int) -> bool {
    starts[i].0 + starts[i].1 >= unit_end(data, starts, i)
}

/// The NAL units of an Annex B byte stream, or why it is refused.
pub open spec fn split(data: Seq<u8>) -> Result<Seq<NalModel>, PacketizeError> {
    let starts = start_codes(data, 0);
    if starts.len() == 0 {
        Err(PacketizeError::NoNalUnit)
    } else if exists|i: int| 0 <= i < starts[0].0 && data[i] != 0 {
        Err(PacketizeError::LeadingBytes)
    } else if exists|i: int| 0 <= i < starts.len() && unit_is_empty(data, starts, i) {
        Err(PacketizeError::EmptyNalUnit)
    } else {
        Ok(Seq::new(starts.len(), |i: int| unit_at(data, starts, i)))
    }
}

/// One borrowed NAL unit, with its start code and without it.
#[derive(Debug, Clone, Copy, PartialEq, Eq)]
pub struct NalUnit<'a> {
    pub full: &'a [u8],
    pub payload: &'a [u8],
    pub kind: u8,
}

impl<'a> View for NalUnit<'a> {
    type V = NalModel;

    open spec fn view(&self) -> NalModel {
        NalModel { full: self.full@, payload: self.payload@, kind: self.kind }
    }
}

/// The models of borrowed units.
pub open spec fn unit_models(units: Seq<NalUnit>) -> Seq<NalModel> {
    Seq::new(units.len(), |i: int| units[i]@)
}

/// Every start code found lies within the data and behind the one before it.
proof fn lemma_start_codes_ordered(data: Seq<u8>, from: int)
    requires
        0 <= from <= data.len(),
    ensures
        forall|i: int|
            0 <= i < start_codes(data, from).len() ==> {
                let code = #[trigger] start_codes(data, from)[i];
                &&& from <= code.0
                &&& code.1 == 3 || code.1 == 4
                &&& code.0 + code.1 <= data.len()
                &&& avcc::start_code_len(data.skip(code.0)) == code.1
            },
        forall|i: int, j: int|
            0 <= i < j < start_codes(data, from).len() ==> (#[trigger] start_codes(data, from)[i]).0
                + start_codes(data, from)[i].1 <= (#[trigger] start_codes(data, from)[j]).0,
    decreases data.len() - from,
{
    let length = avcc::start_code_len(data.skip(from)) as int;
    let codes = start_codes(data, from);
    if data.len() - from >= 3 {
        if length > 0 {
            lemma_start_codes_ordered(data, from + length);
            let rest = start_codes(data, from + length);
            assert forall|i: int| 0 <= i < codes.len() implies {
                let code = #[trigger] codes[i];
                &&& from <= code.0
                &&& code.1 == 3 || code.1 == 4
                &&& code.0 + code.1 <= data.len()
                &&& avcc::start_code_len(data.skip(code.0)) == code.1
            } by {
                if i > 0 {
                    assert(codes[i] == rest[i - 1]);
                }
            }
            assert forall|i: int, j: int| 0 <= i < j < codes.len() implies (#[trigger] codes[i]).0
                + codes[i].1 <= (#[trigger] codes[j]).0 by {
                assert(codes[j] == rest[j - 1]);
                if i > 0 {
                    assert(codes[i] == rest[i - 1]);
                }
            }
        } else {
            lemma_start_codes_ordered(data, from + 1);
            assert(codes == start_codes(data, from + 1));
        }
    } else {
        assert(codes.len() == 0);
    }
}

/// Finds the start codes of `data`.
fn find_start_codes(data: &[u8]) -> (starts: Vec<(usize, usize)>)
    ensures
        starts@.len() == start_codes(data@, 0).len(),
        forall|i: int|
            0 <= i < starts@.len() ==> start_codes(data@, 0)[i] == (
                (#[trigger] starts@[i]).0 as int,
                starts@[i].1 as int,
            ),
{
    let mut starts: Vec<(usize, usize)> = Vec::new();
    let mut position: usize = 0;
    let ghost all = start_codes(data@, 0);
    while data.len() - position >= 3
        invariant
            position <= data@.len(),
            all == start_codes(data@, 0),
            starts@.len() + start_codes(data@, position as int).len() == all.len(),
            forall|i: int|
                0 <= i < starts@.len() ==> all[i] == (
                    (#[trigger] starts@[i]).0 as int,
                    starts@[i].1 as int,
                ),
            all.skip(starts@.len() as int) == start_codes(data@, position as int),
        decreases data@.len() - position,
    {
        let rest = slice_subrange(data, position, data.len());
        assert(rest@ == data@.skip(position as int));
        let stripped = avcc::strip_start_code(rest);
        let length: usize = rest.len() - stripped.len();
        let ghost tail = start_codes(data@, position as int);
        if length > 0 {
            proof {
                let later = start_codes(data@, position + length);
                assert(tail == seq![(position as int, length as int)] + later);
                assert(all[starts@.len() as int] == tail[0]);
                assert(all.skip(starts@.len() as int + 1) =~= tail.skip(1));
                assert(tail.skip(1) =~= later);
            }
            starts.push((position, length));
            position = position + length;
        } else {
            position = position + 1;
        }
    }
    starts
}

/// Splits both standard Annex B prefix forms while retaining every NAL type.
pub fn split_annex_b<'a>(data: &'a [u8]) -> (result: Result<Vec<NalUnit<'a>>, PacketizeError>)
    ensures
        match result {
            Ok(units) => split(data@) == Ok::<_, PacketizeError>(unit_models(units@)),
            Err(error) => split(data@) == Err::<Seq<NalModel>, _>(error),
        },
{
    let starts = find_start_codes(data);
    let ghost codes = start_codes(data@, 0);
    proof {
        lemma_start_codes_ordered(data@, 0);
    }
    if starts.len() == 0 {
        return Err(PacketizeError::NoNalUnit);
    }
    let first: usize = starts[0].0;
    assert(codes[0].0 == first);
    let mut i: usize = 0;
    while i < first
        invariant
            i <= first <= data@.len(),
            codes == start_codes(data@, 0),
            codes.len() > 0,
            codes[0].0 == first,
            forall|k: int| 0 <= k < i ==> data@[k] == 0,
        decreases first - i,
    {
        if data[i] != 0 {
            return Err(PacketizeError::LeadingBytes);
        }
        i = i + 1;
    }
    let mut units: Vec<NalUnit<'a>> = Vec::new();
    let mut index: usize = 0;
    while index < starts.len()
        invariant
            index <= starts@.len(),
            codes == start_codes(data@, 0),
            codes.len() == starts@.len(),
            codes.len() > 0,
            forall|k: int| 0 <= k < codes[0].0 ==> data@[k] == 0,
            forall|k: int|
                0 <= k < codes.len() ==> codes[k] == (
                    (#[trigger] starts@[k]).0 as int,
                    starts@[k].1 as int,
                ),
            forall|k: int|
                0 <= k < codes.len() ==> {
                    let code = #[trigger] codes[k];
                    &&& 0 <= code.0
                    &&& code.1 == 3 || code.1 == 4
                    &&& code.0 + code.1 <= data@.len()
                },
            forall|k: int, l: int|
                0 <= k < l < codes.len() ==> (#[trigger] codes[k]).0 + codes[k].1 <= (
                #[trigger] codes[l]).0,
            units@.len() == index,
            forall|k: int| 0 <= k < index ==> (#[trigger] units@[k])@ == unit_at(data@, codes, k),
            forall|k: int| 0 <= k < index ==> !#[trigger] unit_is_empty(data@, codes, k),
        decreases starts@.len() - index,
    {
        let start: usize = starts[index].0;
        let prefix_length: usize = starts[index].1;
        assert(codes[index as int] == (start as int, prefix_length as int));
        let end: usize = if index + 1 < starts.len() {
            starts[index + 1].0
        } else {
            data.len()
        };
        assert(end == unit_end(data@, codes, index as int)) by {
            if index + 1 < codes.len() {
                assert(codes[index + 1] == (starts@[index + 1].0 as int, starts@[index + 1].1 as int));
            }
        }
        let payload_start: usize = start + prefix_length;
        if payload_start >= end {
            assert(unit_is_empty(data@, codes, index as int));
            return Err(PacketizeError::EmptyNalUnit);
        }
        let payload = slice_subrange(data, payload_start, end);
        let unit = NalUnit {
            full: slice_subrange(data, start, end),
            payload,
            kind: payload[0] & 0x1F,
        };
        units.push(unit);
        index = index + 1;
    }
    assert(unit_models(units@) =~= Seq::new(codes.len(), |k: int| unit_at(data@, codes, k)));
    Ok(units)
}

/// The full byte strings of some units.
pub open spec fn full_units(units: Seq<NalModel>) -> Seq<Seq<u8>> {
    Seq::new(units.len(), |i: int| units[i].full)
}

/// The payload of the last unit of a kind.
pub open spec fn last_of_kind(units: Seq<NalModel>, kind: u8) -> Option<Seq<u8>>
    decreases units.len(),
{
    if units.len() == 0 {
        None
    } else if units.last().kind == kind {
        Some(units.last().payload)
    } else {
        last_of_kind(units.drop_last(), kind)
    }
}

/// Whether some unit is an IDR slice.
pub open spec fn has_keyframe(units: Seq<NalModel>) -> bool {
    exists|i: int| 0 <= i < units.len() && (#[trigger] units[i]).kind == 5
}

/// What a packetizer remembers.
pub struct PacketizerModel {
    pub width: u32,
    pub height: u32,
    pub generation: u64,
    pub sps: Option<Seq<u8>>,
    pub pps: Option<Seq<u8>>,
}

impl PacketizerModel {
    /// Whether `units` bring a parameter set that differs from the remembered one.
    pub open spec fn changed_by(self, units: Seq<NalModel>) -> bool {
        ||| (last_of_kind(units, 7) is Some && last_of_kind(units, 7) != self.sps)
        ||| (last_of_kind(units, 8) is Some && last_of_kind(units, 8) != self.pps)
    }

    /// The remembered parameter sets, replaced by those that `units` bring.
    pub open spec fn observing(self, units: Seq<NalModel>) -> PacketizerModel {
        PacketizerModel {
            sps: if last_of_kind(units, 7) is Some {
                last_of_kind(units, 7)
            } else {
                self.sps
            },
            pps: if last_of_kind(units, 8) is Some {
                last_of_kind(units, 8)
            } else {
                self.pps
            },
            ..self
        }
    }

    /// The state with the next codec generation.
    pub open spec fn next_generation(self) -> PacketizerModel {
        PacketizerModel { generation: (self.generation + 1) as u64, ..self }
    }

    /// The access unit of `units` under the current generation.
    pub open spec fn unit_event(self, units: Seq<NalModel>, timestamp_us: u64) -> Result<
        EventModel,
        PacketizeError,
    > {
        if self.generation == 0 {
            Err(PacketizeError::MissingCodec)
        } else {
            match video::serialized(full_units(units)) {
                Err(error) => Err(PacketizeError::InvalidAnnexB(error)),
                Ok(payload) => match video::checked_unit(
                    self.generation,
                    timestamp_us,
                    has_keyframe(units),
                    payload,
                ) {
                    Err(error) => Err(PacketizeError::InvalidAccessUnit(error)),
                    Ok(unit) => Ok(EventModel::Unit(unit)),
                },
            }
        }
    }

    /// The codec configuration of the remembered parameter sets.
    pub open spec fn configuration(self) -> Result<CodecModel, VideoProtocolError> {
        video::checked_codec(
            self.generation,
            self.width,
            self.height,
            self.sps->Some_0,
            self.pps->Some_0,
        )
    }

    /// The events of `units` in a new codec generation: its configuration and the access unit.
    pub open spec fn announced(self, units: Seq<NalModel>, timestamp_us: u64) -> Result<
        Seq<EventModel>,
        PacketizeError,
    > {
        match self.configuration() {
            Err(error) => Err(PacketizeError::InvalidParameterSets(error)),
            Ok(codec) => match self.unit_event(units, timestamp_us) {
                Ok(event) => Ok(seq![EventModel::Codec(codec), event]),
                Err(error) => Err(error),
            },
        }
    }

    /// The state after one encoder output, and the events or the failure it gives. A parameter
    /// set that comes before its counterpart is kept; a pair counts as known, and its generation
    /// as begun, only once its configuration was given out.
    pub open spec fn packetized(self, data: Seq<u8>, timestamp_us: u64) -> (
        PacketizerModel,
        Result<Seq<EventModel>, PacketizeError>,
    ) {
        match split(data) {
            Err(error) => (self, Err(error)),
            Ok(units) => {
                let seen = self.observing(units);
                let next = seen.next_generation();
                if seen.sps is None {
                    (seen, Err(PacketizeError::MissingSps))
                } else if seen.pps is None {
                    (seen, Err(PacketizeError::MissingPps))
                } else if !self.changed_by(units) {
                    (
                        self,
                        match self.unit_event(units, timestamp_us) {
                            Ok(event) => Ok(seq![event]),
                            Err(error) => Err(error),
                        },
                    )
                } else if self.generation == u64::MAX {
                    (self, Err(PacketizeError::GenerationExhausted))
                } else {
                    match next.announced(units, timestamp_us) {
                        Ok(events) => (next, Ok(events)),
                        Err(error) => (self, Err(error)),
                    }
                }
            },
        }
    }
}

/// The models of some events.
pub open spec fn event_models(events: Seq<VideoEvent>) -> Seq<EventModel> {
    Seq::new(events.len(), |i: int| events[i]@)
}

/// Stateful parameter-set cache and codec-generation owner.
pub struct H264Packetizer {
    width: u32,
    height: u32,
    generation: u64,
    sps: Option<Vec<u8>>,
    pps: Option<Vec<u8>>,
}

impl View for H264Packetizer {
    type V = PacketizerModel;

    closed spec fn view(&self) -> PacketizerModel {
        PacketizerModel {
            width: self.width,
            height: self.height,
            generation: self.generation,
            sps: bytes::optional_bytes(self.sps),
            pps: bytes::optional_bytes(self.pps),
        }
    }
}

/// Finds the last unit of a kind.
fn find_last<'a>(units: &Vec<NalUnit<'a>>, kind: u8) -> (found: Option<&'a [u8]>)
    ensures
        match found {
            Some(payload) => last_of_kind(unit_models(units@), kind) == Some(payload@),
            None => last_of_kind(unit_models(units@), kind) is None,
        },
{
    let ghost models = unit_models(units@);
    let mut found: Option<&'a [u8]> = None;
    let mut i: usize = 0;
    while i < units.len()
        invariant
            i <= units@.len(),
            models == unit_models(units@),
            match found {
                Some(payload) => last_of_kind(models.take(i as int), kind) == Some(payload@),
                None => last_of_kind(models.take(i as int), kind) is None,
            },
        decreases units@.len() - i,
    {
        assert(models.take(i + 1).drop_last() =~= models.take(i as int));
        if units[i].kind == kind {
            found = Some(units[i].payload);
        }
        i = i + 1;
    }
    assert(models.take(i as int) =~= models);
    found
}

/// Whether some unit is an IDR slice.
fn contains_keyframe<'a>(units: &Vec<NalUnit<'a>>) -> (found: bool)
    ensures
        found == has_keyframe(unit_models(units@)),
{
    let ghost models = unit_models(units@);
    let mut i: usize = 0;
    while i < units.len()
        invariant
            i <= units@.len(),
            models == unit_models(units@),
            forall|k: int| 0 <= k < i ==> (#[trigger] models[k]).kind != 5,
        decreases units@.len() - i,
    {
        assert(models[i as int] == units@[i as int]@);
        if units[i].kind == 5 {
            return true;
        }
        i = i + 1;
    }
    false
}

/// The full byte strings of some units, borrowed.
fn borrow_full<'a>(units: &Vec<NalUnit<'a>>) -> (full: Vec<&'a [u8]>)
    ensures
        avcc::contents(full@) == full_units(unit_models(units@)),
{
    let mut full: Vec<&'a [u8]> = Vec::new();
    let mut i: usize = 0;
    while i < units.len()
        invariant
            i <= units@.len(),
            full@.len() == i,
            forall|k: int| 0 <= k < i ==> (#[trigger] full@[k])@ == units@[k].full@,
        decreases units@.len() - i,
    {
        full.push(units[i].full);
        i = i + 1;
    }
    assert(avcc::contents(full@) =~= full_units(unit_models(units@)));
    full
}

/// Whether an observed parameter set is there and differs from the remembered one.
fn differs(observed: Option<&[u8]>, remembered: &Option<Vec<u8>>) -> (differs: bool)
    ensures
        differs == match observed {
            Some(payload) => bytes::optional_bytes(*remembered) != Some(payload@),
            None => false,
        },
{
    match observed {
        None => false,
        Some(payload) => match remembered {
            None => true,
            Some(bytes) => !bytes::same_bytes(bytes.as_slice(), payload),
        },
    }
}

/// An observed parameter set, or else the remembered one.
fn latest(observed: Option<&[u8]>, remembered: &Option<Vec<u8>>) -> (set: Option<Vec<u8>>)
    ensures
        bytes::optional_bytes(set) == match observed {
            Some(payload) => Some(payload@),
            None => bytes::optional_bytes(*remembered),
        },
{
    match observed {
        Some(payload) => Some(slice_to_vec(payload)),
        None => match remembered {
            Some(bytes) => Some(slice_to_vec(bytes.as_slice())),
            None => None,
        },
    }
}

impl H264Packetizer {
    /// Creates an uninitialized packetizer for fixed output dimensions.
    pub fn new(width: u32, height: u32) -> (packetizer: H264Packetizer)
        ensures
            packetizer@ == (PacketizerModel { width, height, generation: 0, sps: None, pps: None }),
    {
        H264Packetizer { width, height, generation: 0, sps: None, pps: None }
    }

    /// Converts one complete Annex B encoder output into ordered events.
    ///
    /// A changed SPS/PPS pair advances the decoder generation and is emitted immediately
    /// before any access unit referring to that generation.
    pub fn packetize(&mut self, annex_b: &[u8], timestamp_us: u64) -> (result: Result<
        Vec<VideoEvent>,
        PacketizeError,
    >)
        ensures
            final(self)@ == old(self)@.packetized(annex_b@, timestamp_us).0,
            match result {
                Ok(events) => old(self)@.packetized(annex_b@, timestamp_us).1 == Ok::<
                    _,
                    PacketizeError,
                >(event_models(events@)),
                Err(error) => old(self)@.packetized(annex_b@, timestamp_us).1 == Err::<
                    Seq<EventModel>,
                    _,
                >(error),
            },
    {
        let nal_units = split_annex_b(annex_b)?;
        let ghost models = unit_models(nal_units@);
        let observed_sequence = find_last(&nal_units, 7);
        let observed_picture = find_last(&nal_units, 8);
        let keyframe = contains_keyframe(&nal_units);
        let changed = differs(observed_sequence, &self.sps) || differs(observed_picture, &self.pps);
        let sps = latest(observed_sequence, &self.sps);
        let pps = latest(observed_picture, &self.pps);
        let ghost seen = self@.observing(models);
        assert(changed == self@.changed_by(models));
        assert(bytes::optional_bytes(sps) == seen.sps);
        assert(bytes::optional_bytes(pps) == seen.pps);
        if sps.is_none() || pps.is_none() {
            let error = if sps.is_none() {
                PacketizeError::MissingSps
            } else {
                PacketizeError::MissingPps
            };
            self.sps = sps;
            self.pps = pps;
            assert(self@ == seen);
            return Err(error);
        }
        assert(!changed ==> seen == self@);
        let mut events: Vec<VideoEvent> = Vec::new();
        let mut generation: u64 = self.generation;
        if changed {
            if generation == u64::MAX {
                return Err(PacketizeError::GenerationExhausted);
            }
            generation = generation + 1;
            if let (Some(sequence), Some(picture)) = (&sps, &pps) {
                match CodecConfiguration::new(
                    generation,
                    self.width,
                    self.height,
                    sequence.as_slice(),
                    picture.as_slice(),
                ) {
                    Err(error) => {
                        return Err(PacketizeError::InvalidParameterSets(error));
                    },
                    Ok(codec) => {
                        events.push(VideoEvent::CodecConfiguration(codec));
                    },
                }
            }
        }
        if generation == 0 {
            return Err(PacketizeError::MissingCodec);
        }
        let full = borrow_full(&nal_units);
        let payload = match video::serialize_avcc(full.as_slice()) {
            Err(error) => {
                return Err(PacketizeError::InvalidAnnexB(error));
            },
            Ok(payload) => payload,
        };
        match AccessUnit::new(generation, timestamp_us, keyframe, payload.as_slice()) {
            Err(error) => Err(PacketizeError::InvalidAccessUnit(error)),
            Ok(unit) => {
                let ghost before = event_models(events@);
                events.push(VideoEvent::AccessUnit(unit));
                assert(event_models(events@) =~= before.push(EventModel::Unit(unit@)));
                proof {
                    if changed {
                        assert(event_models(events@) =~= seq![before[0], EventModel::Unit(unit@)]);
                    } else {
                        assert(event_models(events@) =~= seq![EventModel::Unit(unit@)]);
                    }
                }
                if changed {
                    self.generation = generation;
                    self.sps = sps;
                    self.pps = pps;
                }
                Ok(events)
            },
        }
    }
}

/// The payloads of some units.
pub open spec fn payloads(units: Seq<NalModel>) -> Seq<Seq<u8>> {
    Seq::new(units.len(), |i: int| units[i].payload)
}

proof fn lemma_unit_stripped(data: Seq<u8>, i: int)
    requires
        split(data) is Ok,
        0 <= i < split(data)->Ok_0.len(),
    ensures
        avcc::stripped(split(data)->Ok_0[i].full) == split(data)->Ok_0[i].payload,
        split(data)->Ok_0[i].payload.len() > 0,
        split(data)->Ok_0[i].kind == split(data)->Ok_0[i].payload[0] & 0x1F,
{
    let starts = start_codes(data, 0);
    lemma_start_codes_ordered(data, 0);
    let (start, length) = starts[i];
    let end = unit_end(data, starts, i);
    let unit = unit_at(data, starts, i);
    assert(!unit_is_empty(data, starts, i));
    assert(end <= data.len()) by {
        if i + 1 < starts.len() {
            assert(starts[i + 1].0 + starts[i + 1].1 <= data.len());
        }
    }
    let tail = data.skip(start);
    assert(avcc::start_code_len(tail) == length);
    assert(forall|k: int| 0 <= k < unit.full.len() ==> unit.full[k] == tail[k]);
    assert(unit.full.skip(length) =~= unit.payload);
}

/// Every unit that is split off carries a payload, and stripping its start code leaves just
/// that payload. So an access unit's body holds the payloads of all units in order.
pub proof fn law_units_are_prefixed_payloads(data: Seq<u8>)
    ensures
        split(data) matches Ok(units) ==> avcc::stripped_units(full_units(units)) == payloads(units)
            && forall|i: int| 0 <= i < units.len() ==> (#[trigger] units[i]).payload.len() > 0,
{
    if let Ok(units) = split(data) {
        assert forall|i: int| 0 <= i < units.len() implies avcc::stripped(
            (#[trigger] units[i]).full,
        ) == units[i].payload && units[i].payload.len() > 0 by {
            lemma_unit_stripped(data, i);
        }
        assert(avcc::stripped_units(full_units(units)) =~= payloads(units));
    }
}

proof fn lemma_fulls_join(data: Seq<u8>, count: int)
    requires
        split(data) is Ok,
        0 < count <= split(data)->Ok_0.len(),
    ensures
        full_units(split(data)->Ok_0).take(count).flatten_alt() == data.subrange(
            start_codes(data, 0)[0].0,
            unit_end(data, start_codes(data, 0), count - 1),
        ),
    decreases count,
{
    let starts = start_codes(data, 0);
    let fulls = full_units(split(data)->Ok_0);
    lemma_start_codes_ordered(data, 0);
    assert(starts[0].0 + starts[0].1 <= data.len());
    assert(fulls.take(count).drop_last() =~= fulls.take(count - 1));
    assert(fulls.take(count).last() == fulls[count - 1]);
    if count > 1 {
        lemma_fulls_join(data, count - 1);
        assert(starts[0].0 + starts[0].1 <= starts[count - 1].0);
        assert(starts[count - 1].0 + starts[count - 1].1 <= data.len());
        if count < starts.len() {
            assert(starts[count].0 + starts[count].1 <= data.len());
            assert(starts[count - 1].0 + starts[count - 1].1 <= starts[count].0);
        }
        assert(data.subrange(starts[0].0, starts[count - 1].0) + data.subrange(
            starts[count - 1].0,
            unit_end(data, starts, count - 1),
        ) =~= data.subrange(starts[0].0, unit_end(data, starts, count - 1)));
    } else {
        assert(fulls.take(0) =~= Seq::empty());
        assert(Seq::<Seq<u8>>::empty().flatten_alt() =~= Seq::empty());
        assert(Seq::<u8>::empty() + fulls[0] =~= fulls[0]);
    }
}

/// Splitting loses nothing: the units joined, behind zero bytes, are the encoder output.
pub proof fn law_splitting_loses_nothing(data: Seq<u8>)
    ensures
        split(data) matches Ok(units) ==> {
            let joined = full_units(units).flatten();
            &&& joined.len() <= data.len()
            &&& data.skip(data.len() - joined.len()) == joined
            &&& forall|i: int| 0 <= i < data.len() - joined.len() ==> data[i] == 0
        },
{
    if let Ok(units) = split(data) {
        let starts = start_codes(data, 0);
        let fulls = full_units(units);
        lemma_start_codes_ordered(data, 0);
        assert(starts[0].0 + starts[0].1 <= data.len());
        lemma_fulls_join(data, units.len() as int);
        assert(fulls.take(units.len() as int) =~= fulls);
        fulls.lemma_flatten_and_flatten_alt_are_equivalent();
        assert(data.skip(starts[0].0) =~= data.subrange(starts[0].0, data.len() as int));
    }
}

impl PacketizerModel {
    /// What holds of every packetizer: remembered parameter sets are of their kind, and once
    /// both are known a codec generation has begun.
    pub open spec fn consistent(self) -> bool {
        &&& self.sps matches Some(sps) ==> sps.len() > 0 && sps[0] & 0x1F == 7
        &&& self.pps matches Some(pps) ==> pps.len() > 0 && pps[0] & 0x1F == 8
        &&& self.sps is Some && self.pps is Some ==> self.generation > 0
    }
}

proof fn lemma_last_of_kind(data: Seq<u8>, count: int, kind: u8)
    requires
        split(data) is Ok,
        0 <= count <= split(data)->Ok_0.len(),
    ensures
        last_of_kind(split(data)->Ok_0.take(count), kind) matches Some(payload) ==> payload.len()
            > 0 && payload[0] & 0x1F == kind,
    decreases count,
{
    let units = split(data)->Ok_0;
    if count > 0 {
        lemma_last_of_kind(data, count - 1, kind);
        lemma_unit_stripped(data, count - 1);
        assert(units.take(count).drop_last() =~= units.take(count - 1));
    }
}

proof fn lemma_no_start_code(set: Seq<u8>, kind: u8)
    requires
        set.len() > 0,
        set[0] & 0x1F == kind,
        kind != 0,
    ensures
        avcc::start_code_len(set) == 0,
        avcc::stripped(set) == set,
{
    assert(0u8 & 0x1F == 0) by (bit_vector);
    assert(set.skip(0) =~= set);
}

/// A new packetizer is consistent and every output keeps it so; the generation advances by at
/// most one; no access unit is refused for want of a codec configuration.
pub proof fn law_packetizers_stay_consistent(
    state: PacketizerModel,
    data: Seq<u8>,
    timestamp_us: u64,
)
    requires
        state.consistent(),
    ensures
        state.packetized(data, timestamp_us).0.consistent(),
        state.generation <= state.packetized(data, timestamp_us).0.generation <= state.generation
            + 1,
        state.packetized(data, timestamp_us).1 != Err::<Seq<EventModel>, _>(
            PacketizeError::MissingCodec,
        ),
{
    if let Ok(units) = split(data) {
        lemma_last_of_kind(data, units.len() as int, 7);
        lemma_last_of_kind(data, units.len() as int, 8);
        assert(units.take(units.len() as int) =~= units);
        if state.observing(units).sps is Some && state.observing(units).pps is Some
            && !state.changed_by(units) {
            assert(state.observing(units).sps == state.sps);
            assert(state.observing(units).pps == state.pps);
        }
    }
}

/// Successful output is one access unit of the current generation, preceded by a codec
/// configuration of that generation exactly when the parameter sets changed.
pub proof fn law_codec_precedes_its_access_units(
    state: PacketizerModel,
    data: Seq<u8>,
    timestamp_us: u64,
)
    ensures
        state.packetized(data, timestamp_us) matches (next, Ok(events)) ==> {
            let last = events.last();
            &&& last matches EventModel::Unit(unit) && unit.codec_generation == next.generation
                && unit.timestamp_us == timestamp_us
            &&& events.len() == 1 || events.len() == 2
            &&& events.len() == 1 <==> next.generation == state.generation
            &&& events.len() == 2 ==> (events[0] matches EventModel::Codec(codec)
                && codec.generation == next.generation && next.generation == state.generation + 1)
        },
{
}

/// The last codec configuration among some events.
pub open spec fn last_codec(events: Seq<EventModel>) -> Option<CodecModel>
    decreases events.len(),
{
    if events.len() == 0 {
        None
    } else {
        match events.last() {
            EventModel::Codec(codec) => Some(codec),
            EventModel::Unit(_) => last_codec(events.drop_last()),
        }
    }
}

/// A packetizer after some encoder outputs, and the events that it gave out for them. An output
/// that is refused gives no events.
pub open spec fn run(start: PacketizerModel, outputs: Seq<(Seq<u8>, u64)>) -> (
    PacketizerModel,
    Seq<EventModel>,
)
    decreases outputs.len(),
{
    if outputs.len() == 0 {
        (start, Seq::empty())
    } else {
        let (state, events) = run(start, outputs.drop_last());
        let (next, result) = state.packetized(outputs.last().0, outputs.last().1);
        match result {
            Ok(more) => (next, events + more),
            Err(_) => (next, events),
        }
    }
}

/// Whether each access unit is preceded by the configuration of its generation, with no other
/// configuration in between.
pub open spec fn units_follow_their_codec(events: Seq<EventModel>) -> bool {
    forall|k: int|
        0 <= k < events.len() ==> match #[trigger] events[k] {
            EventModel::Unit(unit) => last_codec(events.take(k)) matches Some(codec)
                && codec.generation == unit.codec_generation,
            EventModel::Codec(codec) => last_codec(events.take(k)) matches Some(earlier)
                ==> earlier.generation < codec.generation,
        }
}

proof fn lemma_units_follow_push(events: Seq<EventModel>, event: EventModel)
    requires
        units_follow_their_codec(events),
        match event {
            EventModel::Unit(unit) => last_codec(events) matches Some(codec) && codec.generation
                == unit.codec_generation,
            EventModel::Codec(codec) => last_codec(events) matches Some(earlier)
                ==> earlier.generation < codec.generation,
        },
    ensures
        units_follow_their_codec(events.push(event)),
        last_codec(events.push(event)) == match event {
            EventModel::Codec(codec) => Some(codec),
            EventModel::Unit(_) => last_codec(events),
        },
{
    let more = events.push(event);
    assert(more.drop_last() =~= events);
    assert forall|k: int| 0 <= k < more.len() implies match #[trigger] more[k] {
        EventModel::Unit(unit) => last_codec(more.take(k)) matches Some(codec)
            && codec.generation == unit.codec_generation,
        EventModel::Codec(codec) => last_codec(more.take(k)) matches Some(earlier)
            ==> earlier.generation < codec.generation,
    } by {
        if k < events.len() {
            assert(more[k] == events[k]);
            assert(more.take(k) =~= events.take(k));
        } else {
            assert(more.take(k) =~= events);
        }
    }
}

/// Over any run of a packetizer, whatever outputs are refused in between: no access unit comes
/// before the configuration of its generation, generations only advance, and the configuration
/// given out last is that of the remembered parameter sets.
pub proof fn law_generations_are_announced(
    width: u32,
    height: u32,
    outputs: Seq<(Seq<u8>, u64)>,
)
    ensures
        ({
            let fresh = PacketizerModel { width, height, generation: 0, sps: None, pps: None };
            let (state, events) = run(fresh, outputs);
            &&& units_follow_their_codec(events)
            &&& state.consistent()
            &&& state.width == width && state.height == height
            &&& match last_codec(events) {
                Some(codec) => state.generation == codec.generation && state.sps is Some
                    && state.pps is Some && state.configuration() == Ok::<_, VideoProtocolError>(
                    codec,
                ),
                None => state.generation == 0,
            }
        }),
    decreases outputs.len(),
{
    let fresh = PacketizerModel { width, height, generation: 0, sps: None, pps: None };
    if outputs.len() > 0 {
        law_generations_are_announced(width, height, outputs.drop_last());
        let (state, events) = run(fresh, outputs.drop_last());
        let (data, timestamp_us) = outputs.last();
        law_packetizers_stay_consistent(state, data, timestamp_us);
        law_codec_precedes_its_access_units(state, data, timestamp_us);
        let (next, result) = state.packetized(data, timestamp_us);
        if let Ok(more) = result {
            if more.len() == 2 {
                lemma_units_follow_push(events, more[0]);
                lemma_units_follow_push(events.push(more[0]), more[1]);
                assert(events + more =~= events.push(more[0]).push(more[1]));
            } else {
                lemma_units_follow_push(events, more[0]);
                assert(events + more =~= events.push(more[0]));
            }
        }
    }
}

/// Every event of a consistent packetizer is decoded from its own message unchanged.
pub proof fn law_packetized_events_survive_the_wire(
    state: PacketizerModel,
    data: Seq<u8>,
    timestamp_us: u64,
)
    requires
        state.consistent(),
    ensures
        state.packetized(data, timestamp_us).1 matches Ok(events) ==> forall|i: int|
            0 <= i < events.len() ==> video::decoded(video::message(#[trigger] events[i])) == Ok::<
                _,
                VideoProtocolError,
            >(events[i]),
{
    if let Ok(events) = state.packetized(data, timestamp_us).1 {
        let units = split(data)->Ok_0;
        let next = state.packetized(data, timestamp_us).0;
        law_packetizers_stay_consistent(state, data, timestamp_us);
        law_codec_precedes_its_access_units(state, data, timestamp_us);
        assert forall|i: int| 0 <= i < events.len() implies video::decoded(
            video::message(#[trigger] events[i]),
        ) == Ok::<_, VideoProtocolError>(events[i]) by {
            if let EventModel::Codec(codec) = events[i] {
                lemma_no_start_code(next.sps->Some_0, 7);
                lemma_no_start_code(next.pps->Some_0, 8);
            }
            video::law_decoding_undoes_encoding(events[i]);
        }
    }
}

/// A start code stands where one of the found ones does, or inside a longer one that was found.
proof fn lemma_start_codes_complete(data: Seq<u8>, from: int, at: int)
    requires
        0 <= from <= at,
        at + 3 <= data.len(),
        data[at] == 0 && data[at + 1] == 0 && data[at + 2] == 1,
    ensures
        exists|k: int|
            0 <= k < start_codes(data, from).len() && ((#[trigger] start_codes(data, from)[k]).0
                == at || (start_codes(data, from)[k].0 == at - 1 && start_codes(data, from)[k].1
                == 4)),
    decreases data.len() - from,
{
    let tail = data.skip(from);
    let length = avcc::start_code_len(tail) as int;
    let codes = start_codes(data, from);
    assert(tail.len() == data.len() - from);
    assert(forall|i: int| 0 <= i < tail.len() ==> tail[i] == data[from + i]);
    if from == at {
        assert(length > 0);
        assert(codes[0] == (from, length));
    } else if length > 0 {
        if at < from + length {
            assert(tail[at - from] == 0 && tail[at - from + 2] == 1);
            assert(codes[0] == (from, length));
        } else {
            lemma_start_codes_complete(data, from + length, at);
            let rest = start_codes(data, from + length);
            let k = choose|k: int|
                0 <= k < rest.len() && ((#[trigger] rest[k]).0 == at || (rest[k].0 == at - 1
                    && rest[k].1 == 4));
            assert(codes[k + 1] == rest[k]);
        }
    } else {
        lemma_start_codes_complete(data, from + 1, at);
    }
}

/// Each unit that is split off is a start code of either form and a payload behind it, its kind
/// is told by the low five bits of the payload's first byte, and no start code stands inside the
/// payload.
pub proof fn law_units_lie_between_start_codes<'a>(
    data: &'a [u8],
    units: Vec<NalUnit<'a>>,
    i: int,
    at: int,
)
    requires
        call_ensures(split_annex_b, (data,), Ok::<_, PacketizeError>(units)),
        0 <= i < units@.len(),
    ensures
        units@[i].full@ == seq![0u8, 0u8, 1u8] + units@[i].payload@ || units@[i].full@ == seq![
            0u8,
            0u8,
            0u8,
            1u8,
        ] + units@[i].payload@,
        units@[i].payload@.len() > 0,
        units@[i].kind == units@[i].payload@[0] & 0x1F,
        0 <= at && at + 3 <= units@[i].payload@.len() ==> !(units@[i].payload@[at] == 0
            && units@[i].payload@[at + 1] == 0 && units@[i].payload@[at + 2] == 1),
{
    let models = unit_models(units@);
    let starts = start_codes(data@, 0);
    lemma_start_codes_ordered(data@, 0);
    assert(split(data@) == Ok::<_, PacketizeError>(models));
    assert(models.len() == starts.len()) by {
        assert(split(data@)->Ok_0.len() == starts.len());
    }
    assert(0 <= i < starts.len());
    lemma_unit_stripped(data@, i);
    assert(models[i] == units@[i]@);
    let unit = unit_at(data@, starts, i);
    assert(models[i] == unit);
    let (start, length) = starts[i];
    let end = unit_end(data@, starts, i);
    assert(!unit_is_empty(data@, starts, i));
    assert(end <= data@.len()) by {
        if i + 1 < starts.len() {
            assert(starts[i + 1].0 + starts[i + 1].1 <= data@.len());
        }
    }
    let tail = data@.skip(start);
    assert(avcc::start_code_len(tail) == length);
    if length == 3 {
        assert(unit.full =~= seq![0u8, 0u8, 1u8] + unit.payload);
    } else {
        assert(unit.full =~= seq![0u8, 0u8, 0u8, 1u8] + unit.payload);
    }
    if 0 <= at && at + 3 <= unit.payload.len() && unit.payload[at] == 0 && unit.payload[at + 1] == 0
        && unit.payload[at + 2] == 1 {
        let place = start + length + at;
        assert(data@[place] == unit.payload[at]);
        assert(data@[place + 1] == unit.payload[at + 1]);
        assert(data@[place + 2] == unit.payload[at + 2]);
        lemma_start_codes_complete(data@, 0, place);
        let k = choose|k: int|
            0 <= k < starts.len() && ((#[trigger] starts[k]).0 == place || (starts[k].0 == place - 1
                && starts[k].1 == 4));
        if k < i {
            assert(starts[k].0 + starts[k].1 <= starts[i].0);
        } else if k > i {
            if k > i + 1 {
                assert(starts[i + 1].0 + starts[i + 1].1 <= starts[k].0);
            }
            assert(starts[k].0 >= end);
        }
        assert(false);
    }
}

/// The access unit made of an encoder output holds the payloads of all its units, in order, and
/// is marked as a keyframe exactly if the type of one of them, in the low five bits of its first
/// byte, is that of an IDR slice. Both can be read off the body alone.
pub proof fn law_keyframes_are_idr_pictures<'a>(
    packetizer: &mut H264Packetizer,
    data: &'a [u8],
    timestamp_us: u64,
    events: Vec<VideoEvent>,
    units: Vec<NalUnit<'a>>,
    unit: AccessUnit,
    body: Seq<Seq<u8>>,
)
    requires
        call_ensures(
            H264Packetizer::packetize,
            (packetizer, data, timestamp_us),
            Ok::<_, PacketizeError>(events),
        ),
        call_ensures(split_annex_b, (data,), Ok::<_, PacketizeError>(units)),
        events@.last() == VideoEvent::AccessUnit(unit),
        video::frameable(body),
        unit@.avcc == avcc::avcc_of(body),
    ensures
        events@.len() > 0,
        body.len() == units@.len(),
        forall|i: int| 0 <= i < body.len() ==> #[trigger] body[i] == units@[i].payload@,
        unit@.keyframe <==> exists|i: int|
            0 <= i < body.len() && (#[trigger] body[i])[0] & 0x1F == 5,
        unit@.keyframe <==> exists|i: int|
            0 <= i < units@.len() && (#[trigger] units@[i]).payload@[0] & 0x1F == 5,
        unit@.timestamp_us == timestamp_us,
{
    let models = unit_models(units@);
    assert(split(data@) == Ok::<_, PacketizeError>(models));
    assert(event_models(events@).last() == EventModel::Unit(unit@));
    law_units_are_prefixed_payloads(data@);
    video::law_serialized_bodies_are_accepted(full_units(models));
    video::law_accepted_bodies_are_framed_units(unit@.avcc);
    assert(video::avcc_units(unit@.avcc) == Ok::<_, VideoProtocolError>(payloads(models)));
    if body.len() == 0 {
        assert(unit@.avcc.len() == 0);
    }
    video::law_framed_units_are_accepted(body);
    assert(body == payloads(models));
    assert forall|i: int| 0 <= i < models.len() implies (#[trigger] models[i]).kind
        == models[i].payload[0] & 0x1F && models[i].payload == units@[i].payload@ by {
        lemma_unit_stripped(data@, i);
    }
    assert(unit@.keyframe == has_keyframe(models));
    if has_keyframe(models) {
        let i = choose|i: int| 0 <= i < models.len() && (#[trigger] models[i]).kind == 5;
        assert(body[i][0] & 0x1F == 5);
        assert(units@[i].payload@[0] & 0x1F == 5);
    }
    if exists|i: int| 0 <= i < body.len() && (#[trigger] body[i])[0] & 0x1F == 5 {
        let i = choose|i: int| 0 <= i < body.len() && (#[trigger] body[i])[0] & 0x1F == 5;
        assert(models[i].kind == 5);
    }
    if exists|i: int| 0 <= i < units@.len() && (#[trigger] units@[i]).payload@[0] & 0x1F == 5 {
        let i = choose|i: int| 0 <= i < units@.len() && (#[trigger] units@[i]).payload@[0] & 0x1F == 5;
        assert(models[i].kind == 5);
    }
}

proof fn lemma_last_of_kind_is_last(units: Seq<NalModel>, kind: u8, i: int)
    requires
        0 <= i < units.len(),
        units[i].kind == kind,
        forall|k: int| i < k < units.len() ==> (#[trigger] units[k]).kind != kind,
    ensures
        last_of_kind(units, kind) == Some(units[i].payload),
    decreases units.len(),
{
    if i < units.len() - 1 {
        assert(units[units.len() - 1].kind != kind);
        assert forall|k: int| i < k < units.drop_last().len() implies (
        #[trigger] units.drop_last()[k]).kind != kind by {
            assert(units[k].kind != kind);
        }
        lemma_last_of_kind_is_last(units.drop_last(), kind, i);
    }
}

/// The last parameter set of each kind in an encoder output, told by the low five bits of its
/// first byte, is the one in force behind it: it is announced, unless the same one was in force
/// before.
pub proof fn law_last_parameter_sets_are_in_force<'a>(
    packetizer: &mut H264Packetizer,
    data: &'a [u8],
    timestamp_us: u64,
    events: Vec<VideoEvent>,
    units: Vec<NalUnit<'a>>,
    sequence: int,
    picture: int,
)
    requires
        call_ensures(
            H264Packetizer::packetize,
            (packetizer, data, timestamp_us),
            Ok::<_, PacketizeError>(events),
        ),
        call_ensures(split_annex_b, (data,), Ok::<_, PacketizeError>(units)),
        0 <= sequence < units@.len(),
        units@[sequence].payload@[0] & 0x1F == 7,
        forall|k: int|
            sequence < k < units@.len() ==> (#[trigger] units@[k]).payload@[0] & 0x1F != 7,
        0 <= picture < units@.len(),
        units@[picture].payload@[0] & 0x1F == 8,
        forall|k: int|
            picture < k < units@.len() ==> (#[trigger] units@[k]).payload@[0] & 0x1F != 8,
    ensures
        final(packetizer)@.sps == Some(units@[sequence].payload@),
        final(packetizer)@.pps == Some(units@[picture].payload@),
        old(packetizer)@.sps == final(packetizer)@.sps && old(packetizer)@.pps
            == final(packetizer)@.pps ==> events@.len() == 1,
        old(packetizer)@.sps != final(packetizer)@.sps || old(packetizer)@.pps
            != final(packetizer)@.pps ==> events@.len() == 2 && (
        events@[0] matches VideoEvent::CodecConfiguration(codec) && codec@.sps
            == units@[sequence].payload@ && codec@.pps == units@[picture].payload@
            && codec@.generation == old(packetizer)@.generation + 1 && codec@.width
            == old(packetizer)@.width && codec@.height == old(packetizer)@.height),
{
    let models = unit_models(units@);
    assert forall|i: int| 0 <= i < models.len() implies (#[trigger] models[i]).kind
        == units@[i].payload@[0] & 0x1F && models[i].payload == units@[i].payload@ by {
        lemma_unit_stripped(data@, i);
    }
    assert forall|k: int| sequence < k < models.len() implies (#[trigger] models[k]).kind != 7 by {
        assert(units@[k].payload@[0] & 0x1F != 7);
    }
    assert forall|k: int| picture < k < models.len() implies (#[trigger] models[k]).kind != 8 by {
        assert(units@[k].payload@[0] & 0x1F != 8);
    }
    lemma_last_of_kind_is_last(models, 7, sequence);
    lemma_last_of_kind_is_last(models, 8, picture);
    lemma_unit_stripped(data@, sequence);
    lemma_unit_stripped(data@, picture);
    lemma_no_start_code(units@[sequence].payload@, 7);
    lemma_no_start_code(units@[picture].payload@, 8);
    assert(event_models(events@).len() == events@.len());
    if events@.len() == 2 {
        assert(event_models(events@)[0] == events@[0]@);
    }
}

/// Whether some unit is of a type, told by the low five bits of its first byte.
pub open spec fn brings<'a>(units: Seq<NalUnit<'a>>, kind: u8) -> bool {
    exists|i: int| 0 <= i < units.len() && (#[trigger] units[i]).payload@[0] & 0x1F == kind
}

proof fn lemma_brings<'a>(data: &'a [u8], units: Vec<NalUnit<'a>>, kind: u8)
    requires
        split(data@) == Ok::<_, PacketizeError>(unit_models(units@)),
    ensures
        brings(units@, kind) <==> last_of_kind(unit_models(units@), kind) is Some,
{
    let models = unit_models(units@);
    assert forall|i: int| 0 <= i < models.len() implies (#[trigger] models[i]).kind
        == units@[i].payload@[0] & 0x1F by {
        lemma_unit_stripped(data@, i);
    }
    lemma_last_of_kind_occurs(models, kind);
    if brings(units@, kind) {
        let i = choose|i: int|
            0 <= i < units@.len() && (#[trigger] units@[i]).payload@[0] & 0x1F == kind;
        assert(models[i].kind == kind);
    }
    if last_of_kind(models, kind) is Some {
        let i = choose|i: int| 0 <= i < models.len() && (#[trigger] models[i]).kind == kind;
        assert(units@[i].payload@[0] & 0x1F == kind);
    }
}

proof fn lemma_last_of_kind_occurs(units: Seq<NalModel>, kind: u8)
    ensures
        last_of_kind(units, kind) is Some <==> exists|i: int|
            0 <= i < units.len() && (#[trigger] units[i]).kind == kind,
    decreases units.len(),
{
    if units.len() > 0 {
        let shorter = units.drop_last();
        lemma_last_of_kind_occurs(shorter, kind);
        if units.last().kind == kind {
            assert(units[units.len() - 1].kind == kind);
        }
        if last_of_kind(shorter, kind) is Some {
            let i = choose|i: int| 0 <= i < shorter.len() && (#[trigger] shorter[i]).kind == kind;
            assert(units[i].kind == kind);
        }
        if exists|i: int| 0 <= i < units.len() && (#[trigger] units[i]).kind == kind {
            let i = choose|i: int| 0 <= i < units.len() && (#[trigger] units[i]).kind == kind;
            if i < units.len() - 1 {
                assert(shorter[i].kind == kind);
            }
        }
    }
}

/// An output that cannot be split is refused for that. A parameter set of each kind has to be known
/// or to come with the output; where one is missing the other is kept. Any other refusal changes
/// nothing.
pub proof fn law_refused_outputs_change_no_generation<'a>(
    packetizer: &mut H264Packetizer,
    data: &'a [u8],
    timestamp_us: u64,
    result: Result<Vec<VideoEvent>, PacketizeError>,
    splitted: Result<Vec<NalUnit<'a>>, PacketizeError>,
)
    requires
        call_ensures(H264Packetizer::packetize, (packetizer, data, timestamp_us), result),
        call_ensures(split_annex_b, (data,), splitted),
    ensures
        result is Err ==> final(packetizer)@.generation == old(packetizer)@.generation,
        splitted matches Err(error) ==> result == Err::<Vec<VideoEvent>, _>(error) && final(
            packetizer)@ == old(packetizer)@,
        splitted matches Ok(units) ==> {
            let sequence = old(packetizer)@.sps is Some || brings(units@, 7);
            let picture = old(packetizer)@.pps is Some || brings(units@, 8);
            &&& !sequence <==> result == Err::<Vec<VideoEvent>, _>(PacketizeError::MissingSps)
            &&& sequence && !picture <==> result == Err::<Vec<VideoEvent>, _>(
                PacketizeError::MissingPps,
            )
            &&& sequence && !picture ==> final(packetizer)@.sps is Some
            &&& !sequence && brings(units@, 8) ==> final(packetizer)@.pps is Some
            &&& sequence && picture && result is Err ==> final(packetizer)@ == old(packetizer)@
        },
{
    if let Ok(units) = splitted {
        lemma_brings(data, units, 7);
        lemma_brings(data, units, 8);
        lemma_unit_faults(old(packetizer)@, unit_models(units@), timestamp_us);
        lemma_unit_faults(
            old(packetizer)@.observing(unit_models(units@)).next_generation(),
            unit_models(units@),
            timestamp_us,
        );
    }
}

proof fn lemma_unit_faults(state: PacketizerModel, units: Seq<NalModel>, timestamp_us: u64)
    ensures
        state.unit_event(units, timestamp_us) matches Err(error) ==> error !is MissingSps && error
            !is MissingPps,
        state.announced(units, timestamp_us) matches Err(error) ==> error !is MissingSps && error
            !is MissingPps,
{
}

/// An output without parameter sets, once both are in force, gives exactly one access unit of the
/// generation in force, with all its units framed, and changes nothing.
pub proof fn law_plain_outputs_become_access_units<'a>(
    packetizer: &mut H264Packetizer,
    data: &'a [u8],
    timestamp_us: u64,
    units: Vec<NalUnit<'a>>,
    full: &[&[u8]],
    payload: Vec<u8>,
    result: Result<Vec<VideoEvent>, PacketizeError>,
)
    requires
        call_ensures(H264Packetizer::packetize, (packetizer, data, timestamp_us), result),
        call_ensures(split_annex_b, (data,), Ok::<_, PacketizeError>(units)),
        !brings(units@, 7) && !brings(units@, 8),
        old(packetizer)@.sps is Some && old(packetizer)@.pps is Some,
        old(packetizer)@.generation > 0,
        full@.len() == units@.len(),
        forall|i: int| 0 <= i < full@.len() ==> (#[trigger] full@[i])@ == units@[i].full@,
        call_ensures(video::serialize_avcc, (full,), Ok::<_, VideoProtocolError>(payload)),
    ensures
        result is Ok && result->Ok_0@.len() == 1,
        result->Ok_0@[0] matches VideoEvent::AccessUnit(unit) && unit@.codec_generation == old(
            packetizer,
        )@.generation && unit@.timestamp_us == timestamp_us && unit@.avcc == payload@,
        final(packetizer)@ == old(packetizer)@,
{
    let models = unit_models(units@);
    lemma_brings(data, units, 7);
    lemma_brings(data, units, 8);
    assert(avcc::contents(full@) =~= full_units(models));
    video::law_serialized_bodies_are_accepted(full_units(models));
    if let Ok(events) = result {
        assert(event_models(events@).len() == events@.len());
        assert(event_models(events@)[0] == events@[0]@);
    }
}

/// An output that brings both parameter sets, one of them new, begins the next generation wherever
/// they make a configuration and its units make a body: the configuration comes first, and then
/// the access unit of the new generation.
pub proof fn law_new_parameter_sets_begin_a_generation<'a>(
    packetizer: &mut H264Packetizer,
    data: &'a [u8],
    timestamp_us: u64,
    units: Vec<NalUnit<'a>>,
    full: &[&[u8]],
    payload: Vec<u8>,
    sequence: int,
    picture: int,
    sps: &[u8],
    pps: &[u8],
    codec: CodecConfiguration,
    result: Result<Vec<VideoEvent>, PacketizeError>,
)
    requires
        call_ensures(H264Packetizer::packetize, (packetizer, data, timestamp_us), result),
        call_ensures(split_annex_b, (data,), Ok::<_, PacketizeError>(units)),
        0 <= sequence < units@.len() && units@[sequence].payload@[0] & 0x1F == 7,
        forall|k: int|
            sequence < k < units@.len() ==> (#[trigger] units@[k]).payload@[0] & 0x1F != 7,
        0 <= picture < units@.len() && units@[picture].payload@[0] & 0x1F == 8,
        forall|k: int|
            picture < k < units@.len() ==> (#[trigger] units@[k]).payload@[0] & 0x1F != 8,
        sps@ == units@[sequence].payload@ && pps@ == units@[picture].payload@,
        old(packetizer)@.sps != Some(sps@) || old(packetizer)@.pps != Some(pps@),
        old(packetizer)@.generation < u64::MAX,
        full@.len() == units@.len(),
        forall|i: int| 0 <= i < full@.len() ==> (#[trigger] full@[i])@ == units@[i].full@,
        call_ensures(video::serialize_avcc, (full,), Ok::<_, VideoProtocolError>(payload)),
        call_ensures(
            CodecConfiguration::new,
            (
                (old(packetizer)@.generation + 1) as u64,
                old(packetizer)@.width,
                old(packetizer)@.height,
                sps,
                pps,
            ),
            Ok::<_, VideoProtocolError>(codec),
        ),
    ensures
        result is Ok && result->Ok_0@.len() == 2,
        result->Ok_0@[0] matches VideoEvent::CodecConfiguration(announced) && announced@ == codec@,
        result->Ok_0@[1] matches VideoEvent::AccessUnit(unit) && unit@.codec_generation == old(
            packetizer,
        )@.generation + 1 && unit@.timestamp_us == timestamp_us && unit@.avcc == payload@,
        final(packetizer)@.generation == old(packetizer)@.generation + 1,
        final(packetizer)@.sps == Some(sps@) && final(packetizer)@.pps == Some(pps@),
{
    let models = unit_models(units@);
    assert forall|i: int| 0 <= i < models.len() implies (#[trigger] models[i]).kind
        == units@[i].payload@[0] & 0x1F && models[i].payload == units@[i].payload@ by {
        lemma_unit_stripped(data@, i);
    }
    assert forall|k: int| sequence < k < models.len() implies (#[trigger] models[k]).kind != 7 by {
        assert(units@[k].payload@[0] & 0x1F != 7);
    }
    assert forall|k: int| picture < k < models.len() implies (#[trigger] models[k]).kind != 8 by {
        assert(units@[k].payload@[0] & 0x1F != 8);
    }
    lemma_last_of_kind_is_last(models, 7, sequence);
    lemma_last_of_kind_is_last(models, 8, picture);
    assert(avcc::contents(full@) =~= full_units(models));
    video::law_serialized_bodies_are_accepted(full_units(models));
    if let Ok(events) = result {
        assert(event_models(events@).len() == events@.len());
        assert(event_models(events@)[0] == events@[0]@);
        assert(event_models(events@)[1] == events@[1]@);
    }
}

/// A packetizer starts without parameter sets and before the first generation.
pub proof fn law_packetizers_start_empty(width: u32, height: u32, packetizer: H264Packetizer)
    requires
        call_ensures(H264Packetizer::new, (width, height), packetizer),
    ensures
        packetizer@.width == width && packetizer@.height == height,
        packetizer@.generation == 0 && packetizer@.sps is None && packetizer@.pps is None,
{
}

/// An output without two zeros and a one is no unit, and bytes other than zero in front of the
/// first are refused.
pub proof fn law_outputs_begin_with_a_start_code<'a>(
    data: &'a [u8],
    result: Result<Vec<NalUnit<'a>>, PacketizeError>,
    first: int,
)
    requires
        call_ensures(split_annex_b, (data,), result),
        0 <= first,
        forall|k: int|
            0 <= k < first && k + 3 <= data@.len() ==> !(#[trigger] data@[k] == 0 && data@[k + 1]
                == 0 && data@[k + 2] == 1),
        first + 3 > data@.len() || (data@[first] == 0 && data@[first + 1] == 0 && data@[first + 2]
            == 1),
    ensures
        first + 3 > data@.len() <==> result == Err::<Vec<NalUnit<'a>>, _>(PacketizeError::NoNalUnit),
        first + 3 <= data@.len() ==> ((exists|k: int|
            0 <= k < first && #[trigger] data@[k] != 0) <==> result == Err::<Vec<NalUnit<'a>>, _>(
            PacketizeError::LeadingBytes,
        )),
{
    let bytes = data@;
    let starts = start_codes(bytes, 0);
    lemma_start_codes_ordered(bytes, 0);
    if starts.len() > 0 {
        let (at, length) = starts[0];
        let tail = bytes.skip(at);
        assert(forall|i: int| 0 <= i < tail.len() ==> tail[i] == bytes[at + i]);
        assert(avcc::start_code_len(tail) == length);
        let one = at + length - 3;
        assert(bytes[one] == 0 && bytes[one + 1] == 0 && bytes[one + 2] == 1);
        assert(first <= one);
        if first + 3 <= bytes.len() {
            lemma_start_codes_complete(bytes, 0, first);
            let k = choose|k: int|
                0 <= k < starts.len() && ((#[trigger] starts[k]).0 == first || (starts[k].0 == first
                    - 1 && starts[k].1 == 4));
            assert(starts[0].0 <= starts[k].0);
            assert(first == one);
            if exists|k: int| 0 <= k < first && #[trigger] bytes[k] != 0 {
                let k = choose|k: int| 0 <= k < first && #[trigger] bytes[k] != 0;
                assert(k < at) by {
                    if k >= at {
                        assert(length == 4 && k == at);
                        assert(tail[0] == 0);
                    }
                }
                assert(bytes[k] != 0);
            }
        }
    } else if first + 3 <= bytes.len() {
        lemma_start_codes_complete(bytes, 0, first);
    }
}

} // verus!
