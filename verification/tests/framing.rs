//! Behavior of the length-prefixed framing: round trips, partial buffers and
//! the size cap.

use telamentis::framing::{decode_frame, encode_frame};

#[test]
fn test_message_codec() {
    let payload: Vec<u8> = vec![1, 2, 3, 4, 5];
    let frame = encode_frame(&payload, 1024).unwrap();
    assert_eq!(frame.len(), 9);
    assert_eq!(&frame[0..4], &[5, 0, 0, 0]);

    let decoded = decode_frame(&frame, 1024).unwrap().unwrap();
    assert_eq!(decoded.0, payload);
    assert_eq!(decoded.1, 9);
}

#[test]
fn test_partial_frames() {
    // Too short for the length marker.
    let short: Vec<u8> = vec![9, 0];
    assert_eq!(decode_frame(&short, 1024).unwrap(), None);

    // The marker arrived but the payload has not.
    let header_only: Vec<u8> = vec![5, 0, 0, 0, 1, 2];
    assert_eq!(decode_frame(&header_only, 1024).unwrap(), None);
}

#[test]
fn test_size_cap() {
    let payload: Vec<u8> = vec![0; 100];
    assert!(encode_frame(&payload, 10).is_err());

    let frame = encode_frame(&payload, 1024).unwrap();
    assert!(decode_frame(&frame, 10).is_err());
}

#[test]
fn test_trailing_bytes_left_alone() {
    let payload: Vec<u8> = vec![7, 8];
    let mut frame = encode_frame(&payload, 1024).unwrap();
    frame.push(99);
    let decoded = decode_frame(&frame, 1024).unwrap().unwrap();
    assert_eq!(decoded.0, vec![7, 8]);
    assert_eq!(decoded.1, 6);
}
