use mjpeg_relay::wire::{decode_all, frame_size, is_valid_frame, next_frame, FrameError, Parsed};

fn framed(payload: &[u8]) -> Vec<u8> {
    let mut v = (payload.len() as u32).to_be_bytes().to_vec();
    v.extend_from_slice(payload);
    v
}

#[test]
fn frame_size_is_big_endian() {
    assert_eq!(frame_size(&[0x00, 0x00, 0x00, 0x06]), 6);
    assert_eq!(frame_size(&[0x01, 0x02, 0x03, 0x04]), 0x0102_0304);
    assert_eq!(frame_size(&[0xFF, 0xFF, 0xFF, 0xFF]), u32::MAX);
}

#[test]
fn valid_frame_needs_both_markers() {
    assert!(is_valid_frame(&[0xFF, 0xD8, 0x00, 0x01, 0xFF, 0xD9]));
    assert!(is_valid_frame(&[0xFF, 0xD8, 0xFF, 0xD9]));
    assert!(!is_valid_frame(&[0xFF, 0xD9]));
    assert!(!is_valid_frame(&[]));
    assert!(!is_valid_frame(&[0x00, 0xD8, 0x00, 0x01, 0xFF, 0xD9]));
    assert!(!is_valid_frame(&[0xFF, 0xD8, 0x00, 0x01, 0xFF, 0xD8]));
}

#[test]
fn next_frame_waits_for_whole_frame() {
    let bytes = framed(&[0xFF, 0xD8, 0x00, 0x01, 0xFF, 0xD9]);
    assert!(matches!(next_frame(&bytes[..3], 0), Parsed::Incomplete));
    assert!(matches!(next_frame(&bytes[..9], 0), Parsed::Incomplete));
    match next_frame(&bytes, 0) {
        Parsed::Frame { payload, consumed } => {
            assert_eq!(payload, vec![0xFF, 0xD8, 0x00, 0x01, 0xFF, 0xD9]);
            assert_eq!(consumed, 10);
        }
        other => panic!("unexpected {:?}", other),
    }
}

#[test]
fn next_frame_from_offset() {
    let mut bytes = vec![0xAA, 0xBB];
    bytes.extend(framed(&[0xFF, 0xD8, 0xFF, 0xD9]));
    match next_frame(&bytes, 2) {
        Parsed::Frame { payload, consumed } => {
            assert_eq!(payload, vec![0xFF, 0xD8, 0xFF, 0xD9]);
            assert_eq!(consumed, 8);
        }
        other => panic!("unexpected {:?}", other),
    }
}

#[test]
fn next_frame_rejects_non_jpeg() {
    let bytes = framed(&[0x00, 0x01, 0x02]);
    assert!(matches!(next_frame(&bytes, 0), Parsed::Invalid));
}

#[test]
fn well_formed_frames_decode_in_order() {
    let f1 = vec![0xFF, 0xD8, 0x01, 0xFF, 0xD9];
    let f2 = vec![0xFF, 0xD8, 0xFF, 0xD9];
    let f3 = vec![0xFF, 0xD8, 0x02, 0x03, 0x04, 0xFF, 0xD9];
    let mut bytes = framed(&f1);
    bytes.extend(framed(&f2));
    bytes.extend(framed(&f3));
    let (frames, end) = decode_all(&bytes);
    assert_eq!(frames, vec![f1, f2, f3]);
    assert_eq!(end, FrameError::ShortRead);
}

#[test]
fn empty_connection_is_short_read() {
    let (frames, end) = decode_all(&[]);
    assert!(frames.is_empty());
    assert_eq!(end, FrameError::ShortRead);
}

#[test]
fn invalid_frame_is_never_delivered() {
    let good = vec![0xFF, 0xD8, 0x01, 0xFF, 0xD9];
    let bad_start = vec![0x00, 0xD8, 0x01, 0xFF, 0xD9];
    let bad_end = vec![0xFF, 0xD8, 0x01, 0xFF, 0x00];
    for bad in [bad_start, bad_end] {
        let mut bytes = framed(&good);
        bytes.extend(framed(&bad));
        bytes.extend(framed(&good));
        let (frames, end) = decode_all(&bytes);
        assert_eq!(frames, vec![good.clone()]);
        assert_eq!(end, FrameError::ProtocolViolation);
    }
}

#[test]
fn truncated_payload_is_short_read() {
    let good = vec![0xFF, 0xD8, 0xFF, 0xD9];
    let mut bytes = framed(&good);
    bytes.extend([0x00, 0x00, 0x00, 0x06, 0xFF, 0xD8, 0x00]);
    let (frames, end) = decode_all(&bytes);
    assert_eq!(frames, vec![good]);
    assert_eq!(end, FrameError::ShortRead);
}

#[test]
fn truncated_prefix_is_short_read() {
    let (frames, end) = decode_all(&[0x00, 0x00]);
    assert!(frames.is_empty());
    assert_eq!(end, FrameError::ShortRead);
}
