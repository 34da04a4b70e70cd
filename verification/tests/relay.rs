//! The relay's caches and delays.

use turbo_capture::relay::{
    parse_mode, update_audio_cache, update_video_cache, DropCounter, DropReport, Relay, RelayAction,
    RelayEvent, RelayMode, RetryDelay,
};
use turbo_capture::wire::{flags, write_message, MessageType};

/// One framed message.
fn message(message_type: MessageType, flags: u8, payload: &[u8]) -> Vec<u8> {
    let mut raw = Vec::new();
    write_message(&mut raw, message_type, flags, payload);
    raw
}

#[test]
fn modes_are_parsed_by_name() {
    assert_eq!(parse_mode("video"), Ok(RelayMode::Video));
    assert_eq!(parse_mode("audio"), Ok(RelayMode::Audio));
    assert!(parse_mode("Video").is_err());
    assert!(parse_mode("").is_err());
}

#[test]
fn reconnection_replays_the_latest_codec_and_keyframe() {
    let mut relay = Relay::new(RelayMode::Video);
    assert!(relay.connected().is_empty());
    let old_codec = message(MessageType::CodecParams, 0, &[1]);
    let codec = message(MessageType::CodecParams, 0, &[2]);
    let keyframe = message(MessageType::Frame, flags::IS_KEYFRAME, &[3]);
    let delta = message(MessageType::Frame, 0, &[4]);
    for raw in [&old_codec, &keyframe, &codec, &keyframe, &delta] {
        relay.observe(raw);
    }
    assert_eq!(relay.connected(), [codec, keyframe]);
}

#[test]
fn audio_relays_replay_their_configuration() {
    let mut relay = Relay::new(RelayMode::Audio);
    let config = message(MessageType::AudioConfig, 0, &[1]);
    relay.observe(&config);
    relay.observe(&message(MessageType::AudioChunk, 0, &[2]));
    assert_eq!(relay.connected(), [config]);
}

#[test]
fn caches_ignore_other_messages() {
    let mut codec = None;
    let mut keyframe = None;
    update_video_cache(&message(MessageType::Frame, 0, &[1]), &mut codec, &mut keyframe);
    update_video_cache(&[], &mut codec, &mut keyframe);
    assert_eq!((codec, keyframe), (None, None));
    let mut audio = None;
    update_audio_cache(&message(MessageType::AudioChunk, 0, &[1]), &mut audio);
    assert_eq!(audio, None);
}

#[test]
fn delays_double_up_to_the_cap() {
    let mut delay = RetryDelay::new();
    let delays: Vec<u64> = (0..6).map(|_| delay.advance()).collect();
    assert_eq!(delays, [500, 1_000, 2_000, 4_000, 4_000, 4_000]);
    let mut relay = Relay::new(RelayMode::Default);
    assert_eq!(relay.retry_delay(), 500);
    assert_eq!(relay.retry_delay(), 1_000);
    relay.connected();
    assert_eq!(relay.retry_delay(), 500);
}

#[test]
fn drops_are_reported_once() {
    let mut counter = DropCounter::new();
    assert_eq!(counter.record(true), DropReport::Quiet);
    assert_eq!(counter.record(false), DropReport::Started);
    assert_eq!(counter.record(false), DropReport::Quiet);
    assert_eq!(counter.record(true), DropReport::Recovered(2));
    assert_eq!(counter.record(true), DropReport::Quiet);
}

#[test]
fn writers_reconnect_and_replay() {
    let mut relay = Relay::new(RelayMode::Video);
    let wait = |delay_ms: u64, discard_queued: bool| RelayAction::Wait { delay_ms, discard_queued };
    assert_eq!(relay.ws_writer(RelayEvent::ConnectFailed), wait(500, false));
    assert_eq!(relay.ws_writer(RelayEvent::Waited), RelayAction::Connect);
    assert_eq!(relay.ws_writer(RelayEvent::ConnectFailed), wait(1_000, false));
    assert_eq!(relay.ws_writer(RelayEvent::Connected), RelayAction::Replay(vec![]));
    assert_eq!(relay.ws_writer(RelayEvent::Replayed), RelayAction::Receive);
    let codec = message(MessageType::CodecParams, 0, &[1]);
    assert_eq!(
        relay.ws_writer(RelayEvent::Message(codec.clone())),
        RelayAction::Send(codec.clone())
    );
    assert_eq!(relay.ws_writer(RelayEvent::Sent), RelayAction::Receive);
    assert_eq!(relay.ws_writer(RelayEvent::SendFailed), wait(500, true));
    assert_eq!(relay.ws_writer(RelayEvent::Connected), RelayAction::Replay(vec![codec]));
    assert_eq!(relay.ws_writer(RelayEvent::ReplayFailed), RelayAction::Connect);
    assert_eq!(relay.ws_writer(RelayEvent::ProducerGone), RelayAction::Finish);
}
