use endstone::compress::{compress_body, decompress_body};
use endstone::error::ProtocolError;
use endstone::frame::{encode_frame, parse_frame, MAX_FRAME_LEN};
use endstone::varint::encode_varint;

#[test]
fn frame_round_trip() {
    let body = vec![9u8, 8, 7, 6];
    let framed = encode_frame(&body);
    assert_eq!(framed, vec![4, 9, 8, 7, 6]);
    let (got, consumed) = parse_frame(&framed).unwrap().unwrap();
    assert_eq!(got, body);
    assert_eq!(consumed, framed.len());
}

#[test]
fn frame_round_trip_with_following_frame() {
    let body = vec![1u8, 2, 3];
    let mut buf = encode_frame(&body);
    let first_len = buf.len();
    buf.extend_from_slice(&encode_frame(&vec![5u8, 5]));
    let (got, consumed) = parse_frame(&buf).unwrap().unwrap();
    assert_eq!(got, body);
    assert_eq!(consumed, first_len);
}

#[test]
fn partial_frame_needs_more_input() {
    // Length prefix says 4 body bytes; only 2 have arrived.
    let buf = vec![4u8, 1, 2];
    assert_eq!(parse_frame(&buf), Ok(None));
    // A length prefix still missing its final byte.
    let buf = vec![0x80u8];
    assert_eq!(parse_frame(&buf), Ok(None));
    // An empty buffer.
    let buf: Vec<u8> = Vec::new();
    assert_eq!(parse_frame(&buf), Ok(None));
}

#[test]
fn oversized_frame_is_rejected() {
    // Announce MAX_FRAME_LEN + 1 bytes.
    let buf = encode_varint(MAX_FRAME_LEN + 1);
    assert_eq!(parse_frame(&buf), Err(ProtocolError::FrameTooLarge));
}

#[test]
fn malformed_length_prefix_is_rejected() {
    let buf = vec![0xFFu8, 0xFF, 0xFF, 0xFF, 0xFF];
    assert_eq!(parse_frame(&buf), Err(ProtocolError::MalformedVarInt));
}

#[test]
fn short_payload_is_stored_not_compressed() {
    // Below the threshold, the body is the payload behind an inner tag of 0.
    let payload = vec![1u8, 2, 3, 4, 5];
    let body = compress_body(&payload, 256);
    let mut expect = vec![0u8];
    expect.extend_from_slice(&payload);
    assert_eq!(body, expect);
    assert_eq!(decompress_body(&body).unwrap(), payload);
}

#[test]
fn payload_at_threshold_round_trips_compressed() {
    // At or above the threshold, the body is an inner length and a zlib
    // stream that inflates back to the payload, byte for byte.
    let payload: Vec<u8> = std::iter::repeat(b"abcd".to_vec()).take(64).flatten().collect();
    assert_eq!(payload.len(), 256);
    let body = compress_body(&payload, 256);
    let len_prefix = encode_varint(256);
    assert_eq!(&body[..len_prefix.len()], &len_prefix[..]);
    // Really compressed: not the stored form, and shorter than the payload.
    assert!(body[0] != 0);
    assert!(body.len() < payload.len());
    assert_eq!(decompress_body(&body).unwrap(), payload);
}

#[test]
fn empty_payload_is_stored() {
    let payload: Vec<u8> = Vec::new();
    let body = compress_body(&payload, 0);
    assert_eq!(body, vec![0u8]);
    assert_eq!(decompress_body(&body).unwrap(), payload);
}

#[test]
fn garbage_zlib_stream_is_a_decompression_error() {
    let mut body = encode_varint(5);
    body.extend_from_slice(&[0x01, 0x02, 0x03]);
    assert_eq!(decompress_body(&body), Err(ProtocolError::DecompressionError));
}

#[test]
fn wrong_inner_length_is_a_decompression_error() {
    // Take a genuine compressed body and tamper with its inner length.
    let payload: Vec<u8> = std::iter::repeat(b"xyz".to_vec()).take(100).flatten().collect();
    let body = compress_body(&payload, 1);
    let good_prefix = encode_varint(payload.len() as u32);
    let zlib_part = &body[good_prefix.len()..];
    let mut tampered = encode_varint(payload.len() as u32 + 1);
    tampered.extend_from_slice(zlib_part);
    assert_eq!(decompress_body(&tampered), Err(ProtocolError::DecompressionError));
}

#[test]
fn bad_inner_varint_is_malformed() {
    let body = vec![0xFFu8, 0xFF, 0xFF, 0xFF, 0xFF];
    assert_eq!(decompress_body(&body), Err(ProtocolError::MalformedVarInt));
}
