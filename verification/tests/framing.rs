use nestri_server::framing::{
    decode_frame, encode_frame, FrameError, LengthPrefixReader, LengthStep, VarintError,
};

#[test]
fn frame_of_short_payload_has_one_length_byte() {
    assert_eq!(encode_frame(&[1, 2, 3]), vec![3, 1, 2, 3]);
}

#[test]
fn frame_of_empty_payload_is_single_zero() {
    assert_eq!(encode_frame(&[]), vec![0]);
}

#[test]
fn frame_length_uses_leb128() {
    let data = vec![7u8; 300];
    let frame = encode_frame(&data);
    assert_eq!(&frame[..2], &[0xAC, 0x02]);
    assert_eq!(frame.len(), 302);
}

#[test]
fn frame_roundtrip_with_trailing_bytes() {
    let data: Vec<u8> = (0..200u32).map(|i| (i % 251) as u8).collect();
    let mut stream = encode_frame(&data);
    let frame_len = stream.len();
    stream.extend_from_slice(&[9, 9, 9]);
    let (payload, used) = decode_frame(&stream).unwrap();
    assert_eq!(payload, data);
    assert_eq!(used, frame_len);
}

#[test]
fn decode_reports_incomplete_payload() {
    assert_eq!(decode_frame(&[5, 1, 2]), Err(FrameError::Incomplete));
}

#[test]
fn decode_reports_incomplete_prefix() {
    assert_eq!(decode_frame(&[0x80, 0x80]), Err(FrameError::Incomplete));
    assert_eq!(decode_frame(&[]), Err(FrameError::Incomplete));
}

#[test]
fn decode_rejects_non_minimal_length() {
    assert_eq!(
        decode_frame(&[0x81, 0x00]),
        Err(FrameError::Decode(VarintError::NotMinimal))
    );
}

#[test]
fn decode_rejects_overflowing_length() {
    let mut bytes = vec![0x80u8; 10];
    bytes.push(0x01);
    assert_eq!(
        decode_frame(&bytes),
        Err(FrameError::Decode(VarintError::Overflow))
    );
}

#[test]
fn decode_rejects_eleven_continuation_bytes() {
    let bytes = vec![0x80u8; 12];
    assert_eq!(decode_frame(&bytes), Err(FrameError::InvalidVarint));
}

#[test]
fn reader_takes_bytes_until_length_ends() {
    let mut r = LengthPrefixReader::new();
    assert_eq!(r.push_byte(0xAC), LengthStep::NeedMore);
    assert_eq!(r.push_byte(0x02), LengthStep::Complete(300));
}

#[test]
fn reader_fails_on_eleventh_continuation_byte() {
    let mut r = LengthPrefixReader::new();
    for _ in 0..10 {
        assert_eq!(r.push_byte(0xFF), LengthStep::NeedMore);
    }
    assert_eq!(r.push_byte(0xFF), LengthStep::Failed(FrameError::InvalidVarint));
}
