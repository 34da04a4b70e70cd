//! Audio formats and chunks.

use turbo_capture::audio::{
    audio_config, chunk_samples, drain_wasapi_buffer, find_device_by_name, is_float_format,
    packet_kind, write_failed, AudioChunker, AudioConfig, AudioStep, DrainStep, PacketKind,
    BUFFER_FLAG_SILENT, WAVE_FORMAT_EXTENSIBLE, WAVE_FORMAT_IEEE_FLOAT,
};

#[test]
fn chunks_lose_nothing() {
    let mut chunker = AudioChunker::new(2, 1);
    chunker.push_pcm16(&[1, 2, 3, 4, 5, 6]);
    chunker.push_silence(2);
    let mut joined = Vec::new();
    let mut lengths = Vec::new();
    while let Some(chunk) = chunker.next_chunk() {
        lengths.push(chunk.len());
        joined.extend_from_slice(&chunk);
    }
    assert_eq!(lengths, [4, 4]);
    assert_eq!(joined, [1, 2, 3, 4, 5, 6, 0, 0]);
    chunker.push_silence(1);
    assert_eq!(chunker.next_chunk(), Some(vec![0, 0, 0, 0]));
    assert_eq!(chunker.next_chunk(), None);
}

#[test]
fn wide_samples_keep_their_low_bytes() {
    let mut chunker = AudioChunker::new(2, 1);
    chunker.push_wide(&[1, 2, 3, 4, 5, 6, 7, 8], 2, 1, 4);
    assert_eq!(chunker.next_chunk(), Some(vec![1, 2, 5, 6]));
}

#[test]
fn wide_frames_may_be_padded() {
    let mut chunker = AudioChunker::new(2, 2);
    chunker.push_wide(&[1, 2, 3, 4, 5, 6, 0, 11, 12, 13, 14, 15, 16, 0], 2, 2, 7);
    assert_eq!(chunker.next_chunk(), Some(vec![1, 2, 4, 5, 11, 12, 14, 15]));
}

#[test]
fn formats_are_recognized() {
    assert_eq!(
        audio_config(48_000, 2),
        AudioConfig { sample_rate: 48_000, channels: 2, bits_per_sample: 16 }
    );
    assert_eq!(chunk_samples(48_000), 480);
    assert!(is_float_format(WAVE_FORMAT_IEEE_FLOAT, false));
    assert!(is_float_format(WAVE_FORMAT_EXTENSIBLE, true));
    assert!(!is_float_format(WAVE_FORMAT_EXTENSIBLE, false));
    assert!(!is_float_format(1, true));
    assert_eq!(packet_kind(BUFFER_FLAG_SILENT, true, 8, 2), PacketKind::Silence);
    assert_eq!(packet_kind(0, true, 8, 2), PacketKind::Float);
    assert_eq!(packet_kind(0, false, 4, 2), PacketKind::Pcm16);
    assert_eq!(packet_kind(0, false, 8, 2), PacketKind::Wide);
}

#[test]
fn devices_are_found_by_name() {
    let names = [None, Some("Speakers (Realtek)".to_owned()), Some("Voicemeeter".to_owned())];
    assert_eq!(find_device_by_name(&names, "Voicemeeter"), Ok(2));
    assert!(find_device_by_name(&names, "Headset").unwrap_err().contains("Headset"));
}

#[test]
fn complete_chunks_are_written_before_the_device_is_read() {
    let mut chunker = AudioChunker::new(1, 1);
    chunker.push_pcm16(&[1, 2, 3, 4]);
    assert_eq!(chunker.capture_loop(2), AudioStep::Write(vec![1, 2]));
    assert_eq!(chunker.capture_loop(2), AudioStep::Write(vec![3, 4]));
    assert_eq!(chunker.capture_loop(2), AudioStep::Drain);
    assert_eq!(chunker.capture_loop(0), AudioStep::Sleep(5));
    assert_eq!(write_failed(true, "broken"), Ok(()));
    assert_eq!(write_failed(false, "full"), Err("failed to write AudioChunk: full".to_owned()));
}

#[test]
fn draining_stops_without_frames_and_fails_only_with_them() {
    let step = |frames, error| drain_wasapi_buffer(frames, error, 0, false, 4, 2);
    assert_eq!(step(0, None), DrainStep::Stop);
    assert_eq!(step(0, Some("gone")), DrainStep::Stop);
    assert_eq!(step(3, Some("gone")), DrainStep::Fail("GetBuffer failed: gone".to_owned()));
    assert_eq!(step(3, None), DrainStep::Read(PacketKind::Pcm16));
    assert_eq!(
        drain_wasapi_buffer(3, None, BUFFER_FLAG_SILENT, true, 8, 2),
        DrainStep::Read(PacketKind::Silence)
    );
}

#[test]
fn packets_give_samples_of_their_kind() {
    let mut chunker = AudioChunker::new(2, 2);
    chunker.take_packet(PacketKind::Silence, &[9; 8], 1, 2, 8);
    chunker.take_packet(PacketKind::Pcm16, &[1, 2, 3, 4], 1, 2, 4);
    assert_eq!(chunker.next_chunk(), Some(vec![0, 0, 0, 0, 1, 2, 3, 4]));
    chunker.take_packet(PacketKind::Wide, &[1, 2, 3, 4, 5, 6, 7, 8, 9, 10, 11, 12], 2, 2, 6);
    assert_eq!(chunker.next_chunk(), Some(vec![1, 2, 4, 5, 7, 8, 10, 11]));
    assert_eq!(chunker.next_chunk(), None);
}
