//! Audio packets re-chunked into blocks of fixed size.
use vstd::prelude::*;
use crate::text;

verus! {

/// Target chunk duration in milliseconds.
pub const CHUNK_DURATION_MS: u32 = 10;

/// Milliseconds between two polls of an empty device.
pub const POLL_SLEEP_MS: u64 = 5;

/// Format tag of plain floating-point samples.
pub const WAVE_FORMAT_IEEE_FLOAT: u16 = 3;

/// Format tag of a description with a sub-format.
pub const WAVE_FORMAT_EXTENSIBLE: u16 = 0xFFFE;

/// Flag of a packet whose samples are all silent.
pub const BUFFER_FLAG_SILENT: u32 = 2;

/// Stream description announced before the first chunk.
#[derive(Debug, Clone, Copy, PartialEq, Eq, Structural)]
pub struct AudioConfig {
    pub sample_rate: u32,
    pub channels: u8,
    pub bits_per_sample: u8,
}

/// Describes a stream of 16-bit samples.
pub fn audio_config(sample_rate: u32, channels: u16) -> (config: AudioConfig)
    ensures
        config.sample_rate == sample_rate,
        config.channels == channels as int % 256,
        config.bits_per_sample == 16,
{
    AudioConfig { sample_rate, channels: (channels % 256) as u8, bits_per_sample: 16 }
}

/// Samples per chunk and channel.
pub fn chunk_samples(sample_rate: u32) -> (samples: u32)
    requires
        sample_rate * CHUNK_DURATION_MS <= u32::MAX,
    ensures
        samples == sample_rate as int * 10 / 1000,
{
    sample_rate * CHUNK_DURATION_MS / 1000
}

/// Check whether a format description holds floating-point samples.
pub fn is_float_format(tag: u16, float_sub_format: bool) -> (float: bool)
    ensures
        float == (tag == WAVE_FORMAT_IEEE_FLOAT || (tag == WAVE_FORMAT_EXTENSIBLE
            && float_sub_format)),
{
    tag == WAVE_FORMAT_IEEE_FLOAT || (tag == WAVE_FORMAT_EXTENSIBLE && float_sub_format)
}

/// Why a device is not found.
pub open spec fn missing_device_text(name: Seq<char>) -> Seq<char> {
    "audio device not found: \""@ + name + "\""@
}

/// Find a capture device by friendly name (exact match); devices without a name are passed over.
pub fn find_device_by_name(names: &[Option<String>], name: &str) -> (result: Result<usize, String>)
    ensures
        match result {
            Ok(index) => {
                &&& index < names@.len()
                &&& is_named(names@[index as int], name@)
                &&& forall|k: int| 0 <= k < index ==> !is_named(#[trigger] names@[k], name@)
            },
            Err(message) => message@ == missing_device_text(name@) && forall|k: int|
                0 <= k < names@.len() ==> !is_named(#[trigger] names@[k], name@),
        },
{
    let mut i: usize = 0;
    while i < names.len()
        invariant
            i <= names@.len(),
            forall|k: int| 0 <= k < i ==> !is_named(#[trigger] names@[k], name@),
        decreases names@.len() - i,
    {
        let same = match &names[i] {
            Some(friendly) => text::same_text(friendly.as_str(), name),
            None => false,
        };
        if same {
            return Ok(i);
        }
        i = i + 1;
    }
    let mut message = "audio device not found: \"".to_owned();
    text::push_text(&mut message, name);
    text::push_text(&mut message, "\"");
    Err(message)
}

/// Whether a device carries a name.
pub open spec fn is_named(device: Option<String>, name: Seq<char>) -> bool {
    device matches Some(friendly) && friendly@ == name
}

/// How the bytes of a packet become 16-bit samples.
#[derive(Debug, Clone, Copy, PartialEq, Eq, Structural)]
pub enum PacketKind {
    /// Zero samples, whatever the bytes are.
    Silence,
    /// Floating-point samples to be scaled.
    Float,
    /// 16-bit samples, taken as they are.
    Pcm16,
    /// Wider integers, of which the two low-order bytes are taken.
    Wide,
}

/// The kind of a packet.
pub open spec fn kind_of(
    flags: u32,
    is_float: bool,
    input_frame_bytes: usize,
    channels: usize,
) -> PacketKind {
    if flags & BUFFER_FLAG_SILENT != 0 {
        PacketKind::Silence
    } else if is_float {
        PacketKind::Float
    } else if input_frame_bytes == channels * 2 {
        PacketKind::Pcm16
    } else {
        PacketKind::Wide
    }
}

/// Classifies a packet.
pub fn packet_kind(flags: u32, is_float: bool, input_frame_bytes: usize, channels: usize) -> (kind:
    PacketKind)
    requires
        channels * 2 <= usize::MAX,
    ensures
        kind == kind_of(flags, is_float, input_frame_bytes, channels),
{
    if flags & BUFFER_FLAG_SILENT != 0 {
        PacketKind::Silence
    } else if is_float {
        PacketKind::Float
    } else if input_frame_bytes == channels * 2 {
        PacketKind::Pcm16
    } else {
        PacketKind::Wide
    }
}

/// What draining the device's buffer does after a packet was asked for.
#[derive(Debug, PartialEq, Eq)]
pub enum DrainStep {
    /// Nothing is left to read.
    Stop,
    /// The device failed.
    Fail(String),
    /// The packet is read.
    Read(PacketKind),
}

/// Decides on one packet. Without frames there is nothing to read, whether or not the device
/// reported an error; an error with frames is a failure.
pub fn drain_wasapi_buffer(
    frames_available: u32,
    error: Option<&str>,
    flags: u32,
    is_float: bool,
    input_frame_bytes: usize,
    channels: usize,
) -> (step: DrainStep)
    requires
        channels * 2 <= usize::MAX,
    ensures
        match step {
            DrainStep::Stop => frames_available == 0,
            DrainStep::Fail(message) => frames_available > 0 && (error matches Some(error)
                && message@ == "GetBuffer failed: "@ + error@),
            DrainStep::Read(kind) => frames_available > 0 && error is None && kind == kind_of(
                flags,
                is_float,
                input_frame_bytes,
                channels,
            ),
        },
{
    if frames_available == 0 {
        return DrainStep::Stop;
    }
    match error {
        Some(error) => {
            let mut message = "GetBuffer failed: ".to_owned();
            text::push_text(&mut message, error);
            DrainStep::Fail(message)
        },
        None => DrainStep::Read(packet_kind(flags, is_float, input_frame_bytes, channels)),
    }
}

/// Where a sample of interleaved channels begins, in frames of `frame_bytes` bytes.
pub open spec fn sample_offset(sample: nat, channels: nat, frame_bytes: nat) -> nat {
    sample / channels * frame_bytes + sample % channels * (frame_bytes / channels)
}

/// The two low-order bytes of each of some samples.
pub open spec fn low_halves(data: Seq<u8>, samples: nat, channels: nat, frame_bytes: nat) -> Seq<u8>
    decreases samples,
{
    if samples == 0 {
        Seq::empty()
    } else {
        let offset = sample_offset((samples - 1) as nat, channels, frame_bytes) as int;
        low_halves(data, (samples - 1) as nat, channels, frame_bytes) + seq![
            data[offset],
            data[offset + 1],
        ]
    }
}

/// The 16-bit samples that a packet without floating-point samples gives.
pub open spec fn packet_samples(
    kind: PacketKind,
    data: Seq<u8>,
    frames: nat,
    channels: nat,
    frame_bytes: nat,
) -> Seq<u8> {
    match kind {
        PacketKind::Silence => Seq::new(frames * channels * 2, |i: int| 0u8),
        PacketKind::Wide => low_halves(data, frames * channels, channels, frame_bytes),
        _ => data,
    }
}

/// No sample begins behind the last one.
proof fn lemma_sample_offset(sample: nat, frames: nat, channels: nat, frame_bytes: nat)
    requires
        channels > 0,
        sample < frames * channels,
    ensures
        sample / channels < frames,
        sample_offset(sample, channels, frame_bytes) <= (frames - 1) * frame_bytes + (channels - 1)
            * (frame_bytes / channels),
{
    let frame = sample / channels;
    let channel = sample % channels;
    let width = frame_bytes / channels;
    assert(sample == channels * frame + channel) by (nonlinear_arith)
        requires
            channels > 0,
            frame == sample / channels,
            channel == sample % channels,
    ;
    assert(frame < frames) by (nonlinear_arith)
        requires
            channels > 0,
            sample == channels * frame + channel,
            0 <= channel,
            sample < frames * channels,
    ;
    assert(frame * frame_bytes <= (frames - 1) * frame_bytes) by (nonlinear_arith)
        requires
            frame <= frames - 1,
            0 <= frame_bytes,
    ;
    assert(0 <= channel <= channels - 1) by (nonlinear_arith)
        requires
            channels > 0,
            channel == sample % channels,
    ;
    assert(channel * width <= (channels - 1) * width) by (nonlinear_arith)
        requires
            channel <= channels - 1,
            0 <= width,
    ;
}

/// Accumulation buffer that turns packets of any size into chunks of one size.
pub struct AudioChunker {
    accumulated: Vec<u8>,
    chunk_bytes: usize,
}

/// What a chunker holds.
pub struct ChunkerModel {
    pub accumulated: Seq<u8>,
    pub chunk_bytes: usize,
}

impl View for AudioChunker {
    type V = ChunkerModel;

    closed spec fn view(&self) -> ChunkerModel {
        ChunkerModel { accumulated: self.accumulated@, chunk_bytes: self.chunk_bytes }
    }
}

/// What the capture loop does next.
#[derive(Debug, Clone, PartialEq, Eq)]
pub enum AudioStep {
    /// It writes a chunk.
    Write(Vec<u8>),
    /// It waits this many milliseconds before it reads the device again.
    Sleep(u64),
    /// It reads the device again at once.
    Drain,
}

/// The complete chunks at the head of a run of bytes.
pub open spec fn chunks(bytes: Seq<u8>, size: nat) -> Seq<Seq<u8>>
    decreases bytes.len(),
{
    if size == 0 || bytes.len() < size {
        Seq::empty()
    } else {
        seq![bytes.take(size as int)] + chunks(bytes.skip(size as int), size)
    }
}

/// What is left of a run of bytes behind its complete chunks.
pub open spec fn remainder(bytes: Seq<u8>, size: nat) -> Seq<u8>
    decreases bytes.len(),
{
    if size == 0 || bytes.len() < size {
        bytes
    } else {
        remainder(bytes.skip(size as int), size)
    }
}

/// Some chunks in a row.
pub open spec fn concatenated(list: Seq<Seq<u8>>) -> Seq<u8>
    decreases list.len(),
{
    if list.len() == 0 {
        Seq::empty()
    } else {
        list[0] + concatenated(list.skip(1))
    }
}

/// Re-chunking loses nothing, adds nothing and keeps the order, and every chunk has the size.
pub proof fn law_rechunking_loses_nothing(bytes: Seq<u8>, size: nat)
    requires
        size > 0,
    ensures
        concatenated(chunks(bytes, size)) + remainder(bytes, size) == bytes,
        remainder(bytes, size).len() < size,
        forall|i: int|
            0 <= i < chunks(bytes, size).len() ==> (#[trigger] chunks(bytes, size)[i]).len() == size,
    decreases bytes.len(),
{
    if bytes.len() >= size {
        let head = bytes.take(size as int);
        let tail = bytes.skip(size as int);
        law_rechunking_loses_nothing(tail, size);
        let all = chunks(bytes, size);
        assert(all.skip(1) =~= chunks(tail, size));
        assert(bytes =~= head + tail);
        assert(concatenated(all) + remainder(bytes, size) =~= head + (concatenated(
            chunks(tail, size),
        ) + remainder(tail, size)));
        assert forall|i: int| 0 <= i < all.len() implies (#[trigger] all[i]).len() == size by {
            if i > 0 {
                assert(all[i] == chunks(tail, size)[i - 1]);
            }
        }
    } else {
        assert(concatenated(chunks(bytes, size)) =~= Seq::empty());
        assert(Seq::<u8>::empty() + bytes =~= bytes);
    }
}

impl AudioChunker {
    /// Starts empty, for chunks of some samples of some channels.
    pub fn new(chunk_samples: u32, channels: u16) -> (chunker: AudioChunker)
        requires
            chunk_samples * (channels * 2) <= usize::MAX,
        ensures
            chunker@.accumulated == Seq::<u8>::empty(),
            chunker@.chunk_bytes == chunk_samples * (channels * 2),
    {
        let frame_bytes: usize = channels as usize * 2;
        AudioChunker {
            accumulated: Vec::new(),
            chunk_bytes: chunk_samples as usize * frame_bytes,
        }
    }

    /// Appends silence.
    pub fn push_silence(&mut self, samples: usize)
        requires
            samples * 2 <= usize::MAX,
        ensures
            final(self)@.chunk_bytes == old(self)@.chunk_bytes,
            final(self)@.accumulated == old(self)@.accumulated + Seq::new(
                (samples * 2) as nat,
                |i: int| 0u8,
            ),
    {
        let ghost before = self@.accumulated;
        let count: usize = samples * 2;
        let mut i: usize = 0;
        while i < count
            invariant
                i <= count,
                self@.chunk_bytes == old(self)@.chunk_bytes,
                self@.accumulated == before + Seq::new(i as nat, |k: int| 0u8),
            decreases count - i,
        {
            self.accumulated.push(0);
            i = i + 1;
            assert(self@.accumulated =~= before + Seq::new(i as nat, |k: int| 0u8));
        }
    }

    /// Appends samples that are 16 bits wide already.
    pub fn push_pcm16(&mut self, data: &[u8])
        ensures
            final(self)@.chunk_bytes == old(self)@.chunk_bytes,
            final(self)@.accumulated == old(self)@.accumulated + data@,
    {
        crate::bytes::push_slice(&mut self.accumulated, data);
    }

    /// Appends the two low-order bytes of each wider sample of some frames.
    pub fn push_wide(&mut self, data: &[u8], frames: usize, channels: usize, frame_bytes: usize)
        requires
            channels > 0,
            frames * channels <= usize::MAX,
            frames > 0 ==> (frames - 1) * frame_bytes + (channels - 1) * (frame_bytes / channels)
                + 2 <= data@.len(),
        ensures
            final(self)@.chunk_bytes == old(self)@.chunk_bytes,
            final(self)@.accumulated == old(self)@.accumulated + low_halves(
                data@,
                (frames * channels) as nat,
                channels as nat,
                frame_bytes as nat,
            ),
    {
        let ghost before = self@.accumulated;
        assert(data.len() == data@.len());
        let samples: usize = frames * channels;
        let width: usize = frame_bytes / channels;
        let mut i: usize = 0;
        assert(before + low_halves(data@, 0, channels as nat, frame_bytes as nat) =~= before);
        while i < samples
            invariant
                i <= samples,
                samples == frames * channels,
                channels > 0,
                width == frame_bytes / channels,
                frames > 0 ==> (frames - 1) * frame_bytes + (channels - 1) * (frame_bytes
                    / channels) + 2 <= data@.len(),
                data@.len() <= usize::MAX,
                self@.chunk_bytes == old(self)@.chunk_bytes,
                self@.accumulated == before + low_halves(
                    data@,
                    i as nat,
                    channels as nat,
                    frame_bytes as nat,
                ),
            decreases samples - i,
        {
            proof {
                lemma_sample_offset(i as nat, frames as nat, channels as nat, frame_bytes as nat);
            }
            let frame: usize = i / channels;
            let channel: usize = i % channels;
            assert(0 <= frame * frame_bytes && 0 <= channel * width) by (nonlinear_arith)
                requires
                    0 <= frame,
                    0 <= frame_bytes,
                    0 <= channel,
                    0 <= width,
            ;
            let offset: usize = frame * frame_bytes + channel * width;
            self.accumulated.push(data[offset]);
            self.accumulated.push(data[offset + 1]);
            proof {
                let next = low_halves(data@, (i + 1) as nat, channels as nat, frame_bytes as nat);
                assert(next == low_halves(data@, i as nat, channels as nat, frame_bytes as nat)
                    + seq![data@[offset as int], data@[offset + 1]]);
                assert(self@.accumulated =~= before + next);
            }
            i = i + 1;
        }
    }

    /// Appends what a packet gives. Floating-point samples are scaled by the caller and appended
    /// as 16-bit ones.
    pub fn take_packet(
        &mut self,
        kind: PacketKind,
        data: &[u8],
        frames: usize,
        channels: usize,
        frame_bytes: usize,
    )
        requires
            kind != PacketKind::Float,
            kind == PacketKind::Silence ==> frames * channels * 2 <= usize::MAX,
            kind == PacketKind::Wide ==> {
                &&& channels > 0
                &&& frames * channels <= usize::MAX
                &&& frames > 0 ==> (frames - 1) * frame_bytes + (channels - 1) * (frame_bytes
                    / channels) + 2 <= data@.len()
            },
        ensures
            final(self)@.chunk_bytes == old(self)@.chunk_bytes,
            final(self)@.accumulated == old(self)@.accumulated + packet_samples(
                kind,
                data@,
                frames as nat,
                channels as nat,
                frame_bytes as nat,
            ),
    {
        match kind {
            PacketKind::Silence => {
                self.push_silence(frames * channels);
            },
            PacketKind::Wide => {
                self.push_wide(data, frames, channels, frame_bytes);
            },
            _ => {
                self.push_pcm16(data);
            },
        }
    }

    /// Takes the next complete chunk, if there is one.
    pub fn next_chunk(&mut self) -> (chunk: Option<Vec<u8>>)
        ensures
            final(self)@.chunk_bytes == old(self)@.chunk_bytes,
            match chunk {
                Some(chunk) => old(self)@.accumulated.len() >= old(self)@.chunk_bytes && chunk@
                    == old(self)@.accumulated.take(old(self)@.chunk_bytes as int)
                    && final(self)@.accumulated == old(self)@.accumulated.skip(
                    old(self)@.chunk_bytes as int,
                ),
                None => old(self)@.accumulated.len() < old(self)@.chunk_bytes && final(self)@
                    == old(self)@,
            },
    {
        if self.accumulated.len() < self.chunk_bytes {
            return None;
        }
        let size: usize = self.chunk_bytes;
        let rest = self.accumulated.split_off(size);
        let mut chunk = rest;
        std::mem::swap(&mut chunk, &mut self.accumulated);
        assert(chunk@ =~= old(self)@.accumulated.take(size as int));
        assert(self.accumulated@ =~= old(self)@.accumulated.skip(size as int));
        Some(chunk)
    }

    /// Decides what follows a read of the device: every complete chunk is written first, and an
    /// empty device is left alone for a moment.
    pub fn capture_loop(&mut self, frames_read: u32) -> (step: AudioStep)
        ensures
            final(self)@.chunk_bytes == old(self)@.chunk_bytes,
            match step {
                AudioStep::Write(chunk) => old(self)@.accumulated.len() >= old(self)@.chunk_bytes
                    && chunk@ == old(self)@.accumulated.take(old(self)@.chunk_bytes as int)
                    && final(self)@.accumulated == old(self)@.accumulated.skip(
                    old(self)@.chunk_bytes as int,
                ),
                AudioStep::Sleep(delay_ms) => old(self)@.accumulated.len() < old(self)@.chunk_bytes
                    && frames_read == 0 && delay_ms == POLL_SLEEP_MS && final(self)@ == old(self)@,
                AudioStep::Drain => old(self)@.accumulated.len() < old(self)@.chunk_bytes
                    && frames_read > 0 && final(self)@ == old(self)@,
            },
    {
        match self.next_chunk() {
            Some(chunk) => AudioStep::Write(chunk),
            None => if frames_read == 0 {
                AudioStep::Sleep(POLL_SLEEP_MS)
            } else {
                AudioStep::Drain
            },
        }
    }
}

/// Decides how the capture loop ends when a chunk cannot be written: a closed pipe is a clean
/// end.
pub fn write_failed(broken_pipe: bool, error: &str) -> (result: Result<(), String>)
    ensures
        match result {
            Ok(()) => broken_pipe,
            Err(message) => !broken_pipe && message@ == "failed to write AudioChunk: "@ + error@,
        },
{
    if broken_pipe {
        return Ok(());
    }
    let mut message = "failed to write AudioChunk: ".to_owned();
    text::push_text(&mut message, error);
    Err(message)
}

/// A stream is announced with its rate, its channels and samples of sixteen bits, and comes in
/// chunks of ten milliseconds.
pub proof fn law_streams_are_announced(
    sample_rate: u32,
    channels: u16,
    config: AudioConfig,
    samples: u32,
)
    requires
        sample_rate * 10 <= u32::MAX,
        call_ensures(audio_config, (sample_rate, channels), config),
        call_ensures(chunk_samples, (sample_rate,), samples),
    ensures
        config.sample_rate == sample_rate,
        channels < 256 ==> config.channels == channels,
        config.bits_per_sample == 16,
        samples == sample_rate as int / 100,
{
}

/// Samples are floating-point under format tag three, and under the extensible tag where the
/// sub-format says so.
pub proof fn law_float_formats(tag: u16, sub_format: bool, float: bool)
    requires
        call_ensures(is_float_format, (tag, sub_format), float),
    ensures
        float <==> tag == 3 || (tag == 0xFFFE && sub_format),
{
}

/// The device found is the first that carries exactly the name.
pub proof fn law_devices_are_found_by_name(
    names: &[Option<String>],
    name: &str,
    result: Result<usize, String>,
)
    requires
        call_ensures(find_device_by_name, (names, name), result),
    ensures
        result matches Ok(index) ==> {
            &&& index < names@.len()
            &&& names@[index as int] matches Some(friendly) && friendly@ == name@
            &&& forall|k: int|
                0 <= k < index ==> !((#[trigger] names@[k]) is Some && names@[k]->Some_0@ == name@)
        },
        result is Err ==> forall|k: int|
            0 <= k < names@.len() ==> !((#[trigger] names@[k]) is Some && names@[k]->Some_0@
                == name@),
{
    assert forall|k: int| 0 <= k < names@.len() implies is_named(#[trigger] names@[k], name@) == (
    names@[k] is Some && names@[k]->Some_0@ == name@) by {}
}

/// A packet is silent where the second flag is set, whatever else is said of it; otherwise its
/// samples are floating-point, or sixteen bits wide where two bytes for each channel make a frame,
/// or wider.
pub proof fn law_packets_are_classified(
    flags: u32,
    is_float: bool,
    frame_bytes: usize,
    channels: usize,
    kind: PacketKind,
)
    requires
        channels * 2 <= usize::MAX,
        call_ensures(packet_kind, (flags, is_float, frame_bytes, channels), kind),
    ensures
        kind == PacketKind::Silence <==> flags / 2 % 2 == 1,
        kind == PacketKind::Float <==> flags / 2 % 2 == 0 && is_float,
        kind == PacketKind::Pcm16 <==> flags / 2 % 2 == 0 && !is_float && frame_bytes == channels
            * 2,
        kind == PacketKind::Wide <==> flags / 2 % 2 == 0 && !is_float && frame_bytes != channels
            * 2,
{
    assert((flags & 2 != 0) == (flags / 2 % 2 == 1)) by (bit_vector);
}

/// Without frames draining stops; an error with frames is a failure; anything else is read as what
/// it is.
pub proof fn law_packets_are_drained(
    frames: u32,
    error: Option<&str>,
    flags: u32,
    is_float: bool,
    frame_bytes: usize,
    channels: usize,
    kind: PacketKind,
    step: DrainStep,
)
    requires
        channels * 2 <= usize::MAX,
        call_ensures(packet_kind, (flags, is_float, frame_bytes, channels), kind),
        call_ensures(
            drain_wasapi_buffer,
            (frames, error, flags, is_float, frame_bytes, channels),
            step,
        ),
    ensures
        frames == 0 <==> step is Stop,
        frames > 0 && error is Some <==> step is Fail,
        frames > 0 && error is None ==> step == DrainStep::Read(kind),
{
}

/// A chunk is taken from the front as soon as there are enough bytes, has exactly the size of a
/// chunk, and leaves the bytes behind it.
pub proof fn law_chunks_are_taken_from_the_front(
    samples: u32,
    channels: u16,
    fresh: AudioChunker,
    chunker: &mut AudioChunker,
    data: &[u8],
    taking: &mut AudioChunker,
    chunk: Option<Vec<u8>>,
)
    requires
        samples * (channels * 2) <= usize::MAX,
        call_ensures(AudioChunker::new, (samples, channels), fresh),
        call_ensures(AudioChunker::push_pcm16, (chunker, data), ()),
        *old(taking) == *final(chunker),
        call_ensures(AudioChunker::next_chunk, (taking,), chunk),
    ensures
        fresh@.accumulated.len() == 0,
        fresh@.chunk_bytes == 2 * samples * channels,
        final(chunker)@.accumulated == old(chunker)@.accumulated + data@,
        chunk is Some <==> final(chunker)@.accumulated.len() >= old(chunker)@.chunk_bytes,
        chunk matches Some(taken) ==> taken@.len() == old(chunker)@.chunk_bytes && taken@ + final(
            taking)@.accumulated == final(chunker)@.accumulated,
        chunk is None ==> final(taking)@.accumulated == final(chunker)@.accumulated,
        final(taking)@.chunk_bytes == old(chunker)@.chunk_bytes,
{
    assert(samples * (channels * 2) == 2 * samples * channels) by (nonlinear_arith);
    if let Some(taken) = chunk {
        assert(taken@ + final(taking)@.accumulated =~= final(chunker)@.accumulated);
    }
}

/// Every complete chunk is written before the device is read again, and an empty device is left
/// alone for five milliseconds.
pub proof fn law_chunks_are_written_first(
    chunker: &mut AudioChunker,
    taking: &mut AudioChunker,
    frames_read: u32,
    chunk: Option<Vec<u8>>,
    step: AudioStep,
)
    requires
        *old(taking) == *old(chunker),
        call_ensures(AudioChunker::capture_loop, (chunker, frames_read), step),
        call_ensures(AudioChunker::next_chunk, (taking,), chunk),
    ensures
        step is Write <==> chunk is Some,
        step matches AudioStep::Write(written) ==> written@ == chunk->Some_0@ && final(
            chunker)@.accumulated == final(taking)@.accumulated,
        chunk is None && frames_read == 0 ==> step == AudioStep::Sleep(5),
        chunk is None && frames_read > 0 ==> step == AudioStep::Drain,
{
}

/// A silent packet gives zeros, two for each sample of each channel; one of sixteen-bit samples
/// gives its bytes; of wider samples the two low-order bytes of each are taken, channel by channel
/// within each frame.
pub proof fn law_packets_give_their_samples(
    chunker: &mut AudioChunker,
    kind: PacketKind,
    data: &[u8],
    frames: usize,
    channels: usize,
    frame_bytes: usize,
    sample: nat,
)
    requires
        call_ensures(
            AudioChunker::take_packet,
            (chunker, kind, data, frames, channels, frame_bytes),
            (),
        ),
        kind == PacketKind::Pcm16 || sample < frames * channels,
        kind != PacketKind::Float,
    ensures
        ({
            let before = old(chunker)@.accumulated;
            let after = final(chunker)@.accumulated;
            let at = before.len() as int + 2 * sample as int;
            &&& after.take(before.len() as int) == before
            &&& kind == PacketKind::Pcm16 ==> after.skip(before.len() as int) == data@
            &&& kind != PacketKind::Pcm16 ==> after.len() == before.len() + 2 * (frames * channels)
            &&& kind == PacketKind::Silence ==> after[at] == 0 && after[at + 1] == 0
            &&& kind == PacketKind::Wide ==> {
                let from = sample / channels as nat * frame_bytes as nat + sample % channels as nat
                    * (frame_bytes as nat / channels as nat);
                after[at] == data@[from as int] && after[at + 1] == data@[from as int + 1]
            }
            &&& final(chunker)@.chunk_bytes == old(chunker)@.chunk_bytes
        }),
{
    let before = old(chunker)@.accumulated;
    let after = final(chunker)@.accumulated;
    let total = (frames * channels) as nat;
    assert(after.take(before.len() as int) =~= before);
    assert(frames as nat * channels as nat == total) by (nonlinear_arith)
        requires
            total == (frames * channels) as nat,
    ;
    assert(frames * channels >= 0) by (nonlinear_arith);
    if kind == PacketKind::Pcm16 {
        assert(after.skip(before.len() as int) =~= data@);
    }
    if kind == PacketKind::Wide {
        lemma_low_halves(data@, total, channels as nat, frame_bytes as nat, sample);
    }
}

proof fn lemma_low_halves(
    data: Seq<u8>,
    samples: nat,
    channels: nat,
    frame_bytes: nat,
    sample: nat,
)
    requires
        sample <= samples,
    ensures
        low_halves(data, samples, channels, frame_bytes).len() == 2 * samples,
        sample < samples ==> {
            let from = sample_offset(sample, channels, frame_bytes) as int;
            let low = low_halves(data, samples, channels, frame_bytes);
            low[2 * sample as int] == data[from] && low[2 * sample as int + 1] == data[from + 1]
        },
    decreases samples,
{
    if samples > 0 {
        if sample < samples - 1 {
            lemma_low_halves(data, (samples - 1) as nat, channels, frame_bytes, sample);
        } else {
            lemma_low_halves(
                data,
                (samples - 1) as nat,
                channels,
                frame_bytes,
                (samples - 1) as nat,
            );
        }
    }
}

/// A closed pipe ends capturing cleanly, any other failed write with an error.
pub proof fn law_closed_pipes_end_cleanly(broken_pipe: bool, error: &str, result: Result<(), String>)
    requires
        call_ensures(write_failed, (broken_pipe, error), result),
    ensures
        result is Ok <==> broken_pipe,
{
}

/// Samples are appended alike, whether a packet brings them or they come by themselves.
pub proof fn law_samples_are_appended_alike(
    silent: &mut AudioChunker,
    wide: &mut AudioChunker,
    packet: &mut AudioChunker,
    second: &mut AudioChunker,
    samples: usize,
    data: &[u8],
    frames: usize,
    channels: usize,
    frame_bytes: usize,
)
    requires
        samples == frames * channels,
        *old(packet) == *old(silent) && *old(second) == *old(wide),
        call_ensures(AudioChunker::push_silence, (silent, samples), ()),
        call_ensures(
            AudioChunker::take_packet,
            (packet, PacketKind::Silence, data, frames, channels, frame_bytes),
            (),
        ),
        call_ensures(AudioChunker::push_wide, (wide, data, frames, channels, frame_bytes), ()),
        call_ensures(
            AudioChunker::take_packet,
            (second, PacketKind::Wide, data, frames, channels, frame_bytes),
            (),
        ),
    ensures
        final(packet)@.accumulated == final(silent)@.accumulated,
        final(second)@.accumulated == final(wide)@.accumulated,
{
    assert(frames as nat * channels as nat == (frames * channels) as nat) by (nonlinear_arith);
    assert(frames as nat * channels as nat * 2 == (samples * 2) as nat) by (nonlinear_arith)
        requires
            samples == frames * channels,
    ;
    assert(final(packet)@.accumulated =~= final(silent)@.accumulated);
}

} // verus!
