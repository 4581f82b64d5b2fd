use termigame_pong::frame::{encode_frame, frame_length, MAX_FRAME_LEN};

#[test]
fn frame_starts_with_little_endian_length() {
    let f = encode_frame(&[9, 8, 7]);
    assert_eq!(f, vec![3, 0, 0, 0, 9, 8, 7]);
    let big = vec![1u8; 300];
    let f = encode_frame(&big);
    assert_eq!(&f[..4], &[44, 1, 0, 0]);
    assert_eq!(f.len(), 304);
}

#[test]
fn header_reads_back_as_length() {
    let payload = vec![5u8; 1000];
    let f = encode_frame(&payload);
    let header = [f[0], f[1], f[2], f[3]];
    assert_eq!(frame_length(header), Some(1000));
    assert_eq!(&f[4..], &payload[..]);
}

#[test]
fn oversized_frames_are_refused() {
    assert_eq!(frame_length(65536u32.to_le_bytes()), Some(MAX_FRAME_LEN as usize));
    assert_eq!(frame_length(65537u32.to_le_bytes()), None);
    assert_eq!(frame_length([255, 255, 255, 255]), None);
}
