//! Binary framing shared by the producers, the relay and the server.
//!
//! Every message is an eight-byte header followed by its payload: message type, flags, two
//! reserved zero bytes and the payload length as a little-endian `u32`.
use vstd::prelude::*;
use vstd::slice::{slice_subrange, slice_to_vec};
use crate::bytes;

pub mod flags;

verus! {

/// Size of the binary frame header in bytes.
pub const HEADER_SIZE: usize = 8;

/// Message type discriminant (byte 0 of every frame header).
#[derive(Debug, Clone, Copy, PartialEq, Eq, Structural)]
pub enum MessageType {
    /// Video codec initialization parameters (SPS, PPS, resolution).
    CodecParams,
    /// One encoded video frame (AVCC payload).
    Frame,
    /// KPM (keystrokes per minute) update.
    KpmUpdate,
    /// Audio format parameters (sample rate, channels, bit depth).
    AudioConfig,
    /// One chunk of raw PCM audio data with a wall-clock timestamp.
    AudioChunk,
    /// Non-fatal error description (UTF-8).
    Error,
}

impl MessageType {
    /// The byte that stands for this type.
    pub open spec fn byte(self) -> u8 {
        match self {
            MessageType::CodecParams => 0x01,
            MessageType::Frame => 0x02,
            MessageType::KpmUpdate => 0x10,
            MessageType::AudioConfig => 0x11,
            MessageType::AudioChunk => 0x12,
            MessageType::Error => 0xFF,
        }
    }

    /// Returns the byte that stands for this type.
    pub fn to_byte(self) -> (byte: u8)
        ensures
            byte == self.byte(),
    {
        match self {
            MessageType::CodecParams => 0x01,
            MessageType::Frame => 0x02,
            MessageType::KpmUpdate => 0x10,
            MessageType::AudioConfig => 0x11,
            MessageType::AudioChunk => 0x12,
            MessageType::Error => 0xFF,
        }
    }

    /// Parses a raw byte; unknown bytes give `None`.
    pub fn from_byte(b: u8) -> (result: Option<MessageType>)
        ensures
            match result {
                Some(message_type) => message_type.byte() == b,
                None => forall|message_type: MessageType|
                    #![trigger message_type.byte()]
                    message_type.byte() != b,
            },
    {
        match b {
            0x01 => Some(MessageType::CodecParams),
            0x02 => Some(MessageType::Frame),
            0x10 => Some(MessageType::KpmUpdate),
            0x11 => Some(MessageType::AudioConfig),
            0x12 => Some(MessageType::AudioChunk),
            0xFF => Some(MessageType::Error),
            _ => None,
        }
    }
}

/// Parsed frame header.
#[derive(Debug, Clone, Copy, PartialEq, Eq, Structural)]
pub struct FrameHeader {
    pub message_type: u8,
    pub flags: u8,
    pub payload_length: u32,
}

/// Why framed input could not be read.
#[derive(Debug, Clone, Copy, PartialEq, Eq, Structural)]
pub enum FrameError {
    /// The input ended inside a header or a payload.
    UnexpectedEof,
}

/// The bytes of one complete message; a payload length beyond `u32` keeps its low-order bytes.
pub open spec fn frame(message_type: MessageType, flags: u8, payload: Seq<u8>) -> Seq<u8> {
    seq![message_type.byte(), flags, 0u8, 0u8] + bytes::le_bytes(payload.len(), 4) + payload
}

/// Appends one complete framed message to `w`.
pub fn write_message(w: &mut Vec<u8>, message_type: MessageType, flags: u8, payload: &[u8])
    ensures
        final(w)@ == old(w)@ + frame(message_type, flags, payload@),
{
    w.push(message_type.to_byte());
    w.push(flags);
    w.push(0);
    w.push(0);
    bytes::push_le(w, payload.len() as u64, 4);
    bytes::push_slice(w, payload);
    assert(w@ =~= old(w)@ + frame(message_type, flags, payload@));
}

/// Input that is read from front to back.
pub struct ByteReader<'a> {
    data: &'a [u8],
    position: usize,
}

impl<'a> View for ByteReader<'a> {
    type V = Seq<u8>;

    /// The bytes not read yet.
    closed spec fn view(&self) -> Seq<u8> {
        self.data@.skip(self.position as int)
    }
}

impl<'a> ByteReader<'a> {
    #[verifier::type_invariant]
    spec fn well_formed(&self) -> bool {
        self.position <= self.data@.len()
    }

    /// Starts reading at the front of `data`.
    pub fn new(data: &'a [u8]) -> (reader: ByteReader<'a>)
        ensures
            reader@ == data@,
    {
        assert(data@.skip(0) =~= data@);
        ByteReader { data, position: 0 }
    }

    /// Takes exactly `length` bytes; input that ends before is used up.
    fn take(&mut self, length: usize) -> (result: Result<&'a [u8], FrameError>)
        ensures
            match result {
                Ok(taken) => length <= old(self)@.len() && taken@ == old(self)@.take(length as int)
                    && final(self)@ == old(self)@.skip(length as int),
                Err(_) => length > old(self)@.len() && final(self)@ == Seq::<u8>::empty(),
            },
    {
        proof {
            use_type_invariant(&*self);
        }
        let data: &'a [u8] = self.data;
        let start: usize = self.position;
        if data.len() - start < length {
            self.position = data.len();
            assert(self@ =~= Seq::<u8>::empty());
            return Err(FrameError::UnexpectedEof);
        }
        let taken = slice_subrange(data, start, start + length);
        self.position = start + length;
        assert(taken@ =~= old(self)@.take(length as int));
        assert(self@ =~= old(self)@.skip(length as int));
        Ok(taken)
    }

    fn at_end(&self) -> (end: bool)
        ensures
            end == (self@.len() == 0),
    {
        proof {
            use_type_invariant(self);
        }
        self.position == self.data.len()
    }
}

/// The header that `input` begins with.
pub open spec fn header_of(input: Seq<u8>) -> FrameHeader {
    FrameHeader {
        message_type: input[0],
        flags: input[1],
        payload_length: bytes::le_value(input.subrange(4, 8)) as u32,
    }
}

/// The length of the message that `input` begins with.
pub open spec fn message_len(input: Seq<u8>) -> nat {
    8 + header_of(input).payload_length as nat
}

/// Reads the next frame header.
///
/// Input that ended between messages gives `Ok(None)`; input that ends inside a header is an
/// error.
pub fn read_header(r: &mut ByteReader) -> (result: Result<Option<FrameHeader>, FrameError>)
    ensures
        match result {
            Ok(None) => old(r)@.len() == 0 && final(r)@ == old(r)@,
            Ok(Some(header)) => old(r)@.len() >= 8 && header == header_of(old(r)@) && final(r)@
                == old(r)@.skip(8),
            Err(_) => 0 < old(r)@.len() < 8 && final(r)@ == Seq::<u8>::empty(),
        },
{
    if r.at_end() {
        return Ok(None);
    }
    let head = r.take(HEADER_SIZE)?;
    let length = slice_subrange(head, 4, 8);
    proof {
        bytes::lemma_byte_capacities();
        assert(length@ =~= old(r)@.subrange(4, 8));
    }
    Ok(
        Some(
            FrameHeader {
                message_type: head[0],
                flags: head[1],
                payload_length: bytes::read_le(length) as u32,
            },
        ),
    )
}

/// Reads a complete framed message.
///
/// Input that ended between messages gives `Ok(None)`; input that ends inside a message is an
/// error.
pub fn read_message(r: &mut ByteReader) -> (result: Result<
    Option<(FrameHeader, Vec<u8>)>,
    FrameError,
>)
    ensures
        match result {
            Ok(None) => old(r)@.len() == 0 && final(r)@ == old(r)@,
            Ok(Some((header, payload))) => old(r)@.len() >= 8 && message_len(old(r)@) <= old(
                r,
            )@.len() && header == header_of(old(r)@) && payload@ == old(r)@.subrange(
                8,
                message_len(old(r)@) as int,
            ) && final(r)@ == old(r)@.skip(message_len(old(r)@) as int),
            Err(_) => 0 < old(r)@.len() && (old(r)@.len() < 8 || old(r)@.len() < message_len(
                old(r)@,
            )) && final(r)@ == Seq::<u8>::empty(),
        },
{
    match read_header(r)? {
        None => Ok(None),
        Some(header) => {
            let payload = r.take(header.payload_length as usize)?;
            assert(payload@ =~= old(r)@.subrange(8, message_len(old(r)@) as int));
            assert(r@ =~= old(r)@.skip(message_len(old(r)@) as int));
            Ok(Some((header, slice_to_vec(payload))))
        },
    }
}

/// Reads a complete framed message and returns its bytes, header included, unchanged.
///
/// Input that ended between messages gives `Ok(None)`; input that ends inside a message is an
/// error.
pub fn read_message_raw(r: &mut ByteReader) -> (result: Result<Option<Vec<u8>>, FrameError>)
    ensures
        match result {
            Ok(None) => old(r)@.len() == 0 && final(r)@ == old(r)@,
            Ok(Some(raw)) => old(r)@.len() >= 8 && message_len(old(r)@) <= old(r)@.len() && raw@
                == old(r)@.take(message_len(old(r)@) as int) && final(r)@ == old(r)@.skip(
                message_len(old(r)@) as int,
            ),
            Err(_) => 0 < old(r)@.len() && (old(r)@.len() < 8 || old(r)@.len() < message_len(
                old(r)@,
            )) && final(r)@ == Seq::<u8>::empty(),
        },
{
    if r.at_end() {
        return Ok(None);
    }
    let head = r.take(HEADER_SIZE)?;
    let length = slice_subrange(head, 4, 8);
    proof {
        bytes::lemma_byte_capacities();
        assert(length@ =~= old(r)@.subrange(4, 8));
    }
    let payload_length: usize = bytes::read_le(length) as usize;
    let payload = r.take(payload_length)?;
    let mut raw = slice_to_vec(head);
    bytes::push_slice(&mut raw, payload);
    assert(raw@ =~= old(r)@.take(message_len(old(r)@) as int));
    assert(r@ =~= old(r)@.skip(message_len(old(r)@) as int));
    Ok(Some(raw))
}

/// Reading a written message gives back its type, its flags and its payload, and stops where
/// the next message begins.
pub proof fn law_reading_undoes_writing(
    message_type: MessageType,
    flags: u8,
    payload: Seq<u8>,
    rest: Seq<u8>,
)
    requires
        payload.len() <= u32::MAX,
    ensures
        ({
            let input = frame(message_type, flags, payload) + rest;
            let header = header_of(input);
            &&& header.message_type == message_type.byte()
            &&& header.flags == flags
            &&& header.payload_length == payload.len()
            &&& message_len(input) <= input.len()
            &&& input.take(message_len(input) as int) == frame(message_type, flags, payload)
            &&& input.subrange(8, message_len(input) as int) == payload
            &&& input.skip(message_len(input) as int) == rest
        }),
{
    let input = frame(message_type, flags, payload) + rest;
    bytes::lemma_byte_capacities();
    bytes::lemma_le_round_trip(payload.len(), 4);
    assert(input.subrange(4, 8) =~= bytes::le_bytes(payload.len(), 4));
    assert(input.take(message_len(input) as int) =~= frame(message_type, flags, payload));
    assert(input.subrange(8, message_len(input) as int) =~= payload);
    assert(input.skip(message_len(input) as int) =~= rest);
}

/// The type bytes are 1 and 2 for video, 0x10 for keystrokes, 0x11 and 0x12 for audio and 0xFF for
/// errors; no other byte is a type.
pub proof fn law_types_have_their_bytes(
    message_type: MessageType,
    byte: u8,
    b: u8,
    parsed: Option<MessageType>,
    reparsed: Option<MessageType>,
)
    requires
        call_ensures(MessageType::to_byte, (message_type,), byte),
        call_ensures(MessageType::from_byte, (b,), parsed),
        call_ensures(MessageType::from_byte, (byte,), reparsed),
    ensures
        byte == match message_type {
            MessageType::CodecParams => 0x01u8,
            MessageType::Frame => 0x02u8,
            MessageType::KpmUpdate => 0x10u8,
            MessageType::AudioConfig => 0x11u8,
            MessageType::AudioChunk => 0x12u8,
            MessageType::Error => 0xFFu8,
        },
        reparsed == Some(message_type),
        parsed == Some(MessageType::CodecParams) <==> b == 0x01,
        parsed == Some(MessageType::Frame) <==> b == 0x02,
        parsed == Some(MessageType::KpmUpdate) <==> b == 0x10,
        parsed == Some(MessageType::AudioConfig) <==> b == 0x11,
        parsed == Some(MessageType::AudioChunk) <==> b == 0x12,
        parsed == Some(MessageType::Error) <==> b == 0xFF,
{
    assert(MessageType::CodecParams.byte() == 0x01);
    assert(MessageType::Frame.byte() == 0x02);
    assert(MessageType::KpmUpdate.byte() == 0x10);
    assert(MessageType::AudioConfig.byte() == 0x11);
    assert(MessageType::AudioChunk.byte() == 0x12);
    assert(MessageType::Error.byte() == 0xFF);
}

/// A message is written behind what is there: its type, its flags, two zeros, the length of its
/// payload with the low byte first, and the payload.
pub proof fn law_messages_are_laid_out(
    w: &mut Vec<u8>,
    message_type: MessageType,
    byte: u8,
    flags: u8,
    payload: &[u8],
)
    requires
        payload@.len() <= 0xFFFF_FFFF,
        call_ensures(MessageType::to_byte, (message_type,), byte),
        call_ensures(write_message, (w, message_type, flags, payload), ()),
    ensures
        ({
            let at = old(w)@.len() as int;
            let out = final(w)@;
            let length = payload@.len();
            &&& out.len() == at + 8 + length
            &&& out.take(at) == old(w)@
            &&& out[at] == byte
            &&& out[at + 1] == flags
            &&& out[at + 2] == 0 && out[at + 3] == 0
            &&& out[at + 4] == length % 256
            &&& out[at + 5] == length / 0x100 % 256
            &&& out[at + 6] == length / 0x1_0000 % 256
            &&& out[at + 7] == length / 0x100_0000 % 256
            &&& out.skip(at + 8) == payload@
        }),
{
    let at = old(w)@.len() as int;
    let out = final(w)@;
    let length = payload@.len();
    let written = bytes::le_bytes(length, 4);
    bytes::law_bytes_count_in_powers(length);
    bytes::law_bytes_count_in_powers(length / 0x1_0000);
    bytes::lemma_le_bytes_len(length, 4);
    assert(out.take(at) =~= old(w)@);
    assert(out.skip(at + 8) =~= payload@);
    assert(forall|k: int| 0 <= k < 4 ==> out[at + 4 + k] == written[k]);
    assert(out[at + 4 + 0] == written[0]);
    assert(out[at + 4 + 1] == written[1]);
    assert(out[at + 4 + 2] == written[2]);
    assert(out[at + 4 + 3] == written[3]);
    assert(written[2] == bytes::le_bytes(length / 0x1_0000, 2)[0]);
    assert(written[3] == bytes::le_bytes(length / 0x1_0000, 2)[1]);
    assert(length / 0x1_0000 / 256 == length / 0x100_0000) by (nonlinear_arith);
}

/// What was written is read back: type, flags, length and payload, or the unchanged bytes; reading
/// stops where the message ends.
pub proof fn law_written_messages_are_read(
    w: &mut Vec<u8>,
    r: &mut ByteReader,
    raw_reader: &mut ByteReader,
    message_type: MessageType,
    byte: u8,
    flags: u8,
    payload: &[u8],
    rest: Seq<u8>,
    read: Result<Option<(FrameHeader, Vec<u8>)>, FrameError>,
    raw: Result<Option<Vec<u8>>, FrameError>,
)
    requires
        payload@.len() <= 0xFFFF_FFFF,
        old(w)@.len() == 0,
        call_ensures(MessageType::to_byte, (message_type,), byte),
        call_ensures(write_message, (w, message_type, flags, payload), ()),
        old(r)@ == final(w)@ + rest,
        old(raw_reader)@ == final(w)@ + rest,
        call_ensures(read_message, (r,), read),
        call_ensures(read_message_raw, (raw_reader,), raw),
    ensures
        read is Ok && read->Ok_0 is Some,
        read->Ok_0->Some_0.0 == (FrameHeader {
            message_type: byte,
            flags,
            payload_length: payload@.len() as u32,
        }),
        read->Ok_0->Some_0.1@ == payload@,
        final(r)@ == rest,
        raw is Ok && raw->Ok_0 is Some,
        raw->Ok_0->Some_0@ == final(w)@,
        final(raw_reader)@ == rest,
{
    assert(final(w)@ =~= frame(message_type, flags, payload@));
    law_reading_undoes_writing(message_type, flags, payload@, rest);
}

/// Input that ended between messages gives none; input that ends inside a header or a payload is an
/// error; anything else is a message, and what is left begins behind it.
pub proof fn law_messages_are_read_whole(
    r: &mut ByteReader,
    header_reader: &mut ByteReader,
    read: Result<Option<Vec<u8>>, FrameError>,
    header: Result<Option<FrameHeader>, FrameError>,
)
    requires
        *old(header_reader) == *old(r),
        call_ensures(read_message_raw, (r,), read),
        call_ensures(read_header, (header_reader,), header),
    ensures
        ({
            let input = old(r)@;
            let length = bytes::le_value(input.subrange(4, 8));
            &&& input.len() == 0 <==> read is Ok && read->Ok_0 is None
            &&& input.len() >= 8 && input.len() >= 8 + length <==> read is Ok && read->Ok_0 is Some
            &&& read matches Ok(Some(raw)) ==> raw@.len() == 8 + length && raw@ + final(r)@ == input
            &&& input.len() == 0 <==> header is Ok && header->Ok_0 is None
            &&& input.len() >= 8 <==> header is Ok && header->Ok_0 is Some
            &&& header matches Ok(Some(found)) ==> found.message_type == input[0] && found.flags
                == input[1] && found.payload_length == length && final(header_reader)@
                == input.skip(8)
        }),
{
    let input = old(r)@;
    if input.len() >= 8 {
        bytes::lemma_byte_capacities();
        bytes::lemma_le_value_bound(input.subrange(4, 8));
    }
    if let Ok(Some(raw)) = read {
        assert(raw@ + final(r)@ =~= input);
    }
}

} // verus!
