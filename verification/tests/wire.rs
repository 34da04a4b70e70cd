//! Framed messages.

use turbo_capture::wire::flags;
use turbo_capture::wire::{
    read_header, read_message, read_message_raw, write_message, ByteReader, FrameError,
    MessageType, HEADER_SIZE,
};

#[test]
fn header_roundtrip() {
    let mut buf = Vec::new();
    write_message(&mut buf, MessageType::Frame, flags::IS_KEYFRAME, &[0xAA, 0xBB]);

    assert_eq!(buf.len(), HEADER_SIZE + 2);

    let mut cursor = ByteReader::new(&buf);
    let header = read_header(&mut cursor).unwrap().unwrap();
    assert_eq!(header.message_type, MessageType::Frame.to_byte());
    assert_eq!(header.flags, flags::IS_KEYFRAME);
    assert_eq!(header.payload_length, 2);
}

#[test]
fn message_roundtrip() {
    let payload = vec![1, 2, 3, 4, 5];
    let mut buf = Vec::new();
    write_message(&mut buf, MessageType::KpmUpdate, 0, &payload);

    let mut cursor = ByteReader::new(&buf);
    let (header, data) = read_message(&mut cursor).unwrap().unwrap();
    assert_eq!(header.message_type, MessageType::KpmUpdate.to_byte());
    assert_eq!(header.flags, 0);
    assert_eq!(data, payload);
}

#[test]
fn raw_message_roundtrip() {
    let payload = vec![0xDE, 0xAD];
    let mut buf = Vec::new();
    write_message(&mut buf, MessageType::CodecParams, 0, &payload);

    let mut cursor = ByteReader::new(&buf);
    let raw = read_message_raw(&mut cursor).unwrap().unwrap();
    assert_eq!(raw.len(), HEADER_SIZE + 2);
    assert_eq!(raw[0], MessageType::CodecParams.to_byte());
    assert_eq!(&raw[HEADER_SIZE..], &[0xDE, 0xAD]);
}

#[test]
fn eof_returns_none() {
    let empty = Vec::<u8>::new();
    let mut cursor = ByteReader::new(&empty);
    assert!(read_header(&mut cursor).unwrap().is_none());
    assert!(read_message(&mut ByteReader::new(&empty)).unwrap().is_none());
    assert!(read_message_raw(&mut ByteReader::new(&empty)).unwrap().is_none());
}

#[test]
fn sequential_messages() {
    let mut buf = Vec::new();
    write_message(&mut buf, MessageType::CodecParams, 0, &[1]);
    write_message(&mut buf, MessageType::Frame, flags::IS_KEYFRAME, &[2, 3]);
    write_message(&mut buf, MessageType::Error, 0, b"oops");

    let mut cursor = ByteReader::new(&buf);

    let (h, d) = read_message(&mut cursor).unwrap().unwrap();
    assert_eq!(h.message_type, MessageType::CodecParams.to_byte());
    assert_eq!(d, [1]);

    let (h, d) = read_message(&mut cursor).unwrap().unwrap();
    assert_eq!(h.message_type, MessageType::Frame.to_byte());
    assert_ne!(h.flags & flags::IS_KEYFRAME, 0);
    assert_eq!(d, [2, 3]);

    let (h, d) = read_message(&mut cursor).unwrap().unwrap();
    assert_eq!(h.message_type, MessageType::Error.to_byte());
    assert_eq!(d, b"oops");

    assert!(read_message(&mut cursor).unwrap().is_none());
}

#[test]
fn message_type_from_byte() {
    assert_eq!(MessageType::from_byte(0x01), Some(MessageType::CodecParams));
    assert_eq!(MessageType::from_byte(0x02), Some(MessageType::Frame));
    assert_eq!(MessageType::from_byte(0x10), Some(MessageType::KpmUpdate));
    assert_eq!(MessageType::from_byte(0x11), Some(MessageType::AudioConfig));
    assert_eq!(MessageType::from_byte(0x12), Some(MessageType::AudioChunk));
    assert_eq!(MessageType::from_byte(0xFF), Some(MessageType::Error));
    assert_eq!(MessageType::from_byte(0x99), None);
}

#[test]
fn header_is_4byte_aligned() {
    assert_eq!(HEADER_SIZE % 4, 0);
}

#[test]
fn message_bytes_follow_the_layout() {
    let mut buf = Vec::new();
    write_message(&mut buf, MessageType::AudioChunk, 3, &[7; 258]);
    assert_eq!(&buf[..8], &[0x12, 3, 0, 0, 2, 1, 0, 0]);
    assert_eq!(&buf[8..], &[7; 258]);
}

#[test]
fn truncated_messages_are_errors() {
    let mut buf = Vec::new();
    write_message(&mut buf, MessageType::Frame, 0, &[1, 2, 3]);
    assert_eq!(
        read_message(&mut ByteReader::new(&buf[..10])),
        Err(FrameError::UnexpectedEof)
    );
    assert_eq!(
        read_message_raw(&mut ByteReader::new(&buf[..10])),
        Err(FrameError::UnexpectedEof)
    );
    assert_eq!(
        read_header(&mut ByteReader::new(&buf[..5])),
        Err(FrameError::UnexpectedEof)
    );
}
