use niri_tools::error::NiriToolsError;
use niri_tools::protocol::{frame, message_size, unframe, MAX_MESSAGE_SIZE};

#[test]
fn frame_prefixes_little_endian_length() {
    let framed = frame(&[1, 2, 3]).unwrap();
    assert_eq!(framed, vec![3, 0, 0, 0, 1, 2, 3]);
    let big = vec![7u8; 300];
    let framed = frame(&big).unwrap();
    assert_eq!(&framed[..4], &[44, 1, 0, 0]);
    assert_eq!(framed.len(), 304);
}

#[test]
fn unframe_gives_back_the_payload() {
    let payload = b"hello daemon".to_vec();
    let framed = frame(&payload).unwrap();
    assert_eq!(unframe(&framed).unwrap(), payload);
    // bytes after the payload are ignored
    let mut longer = framed.clone();
    longer.extend_from_slice(&[9, 9]);
    assert_eq!(unframe(&longer).unwrap(), payload);
}

#[test]
fn unframe_short_buffers() {
    assert_eq!(
        unframe(&[1, 0]),
        Err(NiriToolsError::Serialization(
            "buffer too short for length prefix".to_string()
        ))
    );
    assert_eq!(
        unframe(&[5, 0, 0, 0, 1, 2]),
        Err(NiriToolsError::Serialization(
            "buffer too short: expected 5 bytes, got 2".to_string()
        ))
    );
}

#[test]
fn message_size_limit() {
    assert_eq!(message_size([16, 0, 0, 0]), Ok(16));
    assert_eq!(message_size([0, 0, 0, 1]), Ok(MAX_MESSAGE_SIZE));
    assert_eq!(
        message_size([1, 0, 0, 1]),
        Err(NiriToolsError::Serialization(
            "message size 16777217 exceeds maximum 16777216".to_string()
        ))
    );
}

#[test]
fn error_messages() {
    assert_eq!(NiriToolsError::Io("broken pipe".to_string()).message(), "IO error: broken pipe");
    assert_eq!(NiriToolsError::Config("x".to_string()).message(), "Config error: x");
    assert_eq!(NiriToolsError::Other("plain".to_string()).message(), "plain");
}

/// The payload that bincode's standard configuration writes for `Command::Hide`
/// (its variant index as a one-byte varint).
fn hide_payload() -> Vec<u8> {
    vec![1u8]
}

#[test]
fn encode_message_has_length_prefix() {
    let encoded = frame(&hide_payload()).unwrap();
    // First 4 bytes are LE length
    let len = u32::from_le_bytes([encoded[0], encoded[1], encoded[2], encoded[3]]) as usize;
    assert_eq!(encoded.len(), 4 + len);
}

#[test]
fn decode_message_rejects_short_buffer() {
    let result = unframe(&[0, 1]);
    assert!(result.is_err());
}

#[test]
fn decode_message_rejects_truncated_payload() {
    let mut encoded = frame(&hide_payload()).unwrap();
    // Truncate the payload
    encoded.truncate(5);
    // Set length to something larger than remaining payload
    let fake_len: u32 = 100;
    encoded[0..4].copy_from_slice(&fake_len.to_le_bytes());
    let result = unframe(&encoded);
    assert!(result.is_err());
}
