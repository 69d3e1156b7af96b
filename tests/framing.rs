use gann_peer::framing::{decode_frame, encode_frame, FrameRead, MAX_FRAME_LEN};

#[test]
fn encodes_length_prefix() {
    assert_eq!(encode_frame(b"abc"), vec![0, 0, 0, 3, b'a', b'b', b'c']);
    assert_eq!(encode_frame(b""), vec![0, 0, 0, 0]);
    assert_eq!(encode_frame(&vec![7u8; 300])[..4], [0, 0, 1, 44]);
}

#[test]
fn decodes_frame_followed_by_more() {
    let mut buf = encode_frame(br#"{"x":1}"#);
    buf.extend_from_slice(&[9, 9]);
    assert_eq!(decode_frame(&buf, MAX_FRAME_LEN), FrameRead::Frame(br#"{"x":1}"#.to_vec(), 11));
}

#[test]
fn partial_frames_are_incomplete() {
    assert_eq!(decode_frame(&[0, 0], MAX_FRAME_LEN), FrameRead::Incomplete);
    assert_eq!(decode_frame(&[0, 0, 0, 5, 1, 2], MAX_FRAME_LEN), FrameRead::Incomplete);
}

#[test]
fn oversized_frames_are_refused() {
    assert_eq!(decode_frame(&[0, 0, 1, 0], 255), FrameRead::TooLarge);
    assert_eq!(decode_frame(&[255, 255, 255, 255], MAX_FRAME_LEN), FrameRead::TooLarge);
}
