use mjpeg_relay::mjpeg::{encode_part, preamble};

const PREAMBLE: &str = "HTTP/1.0 200 OK\r\nConnection: close\r\nMax-Age: 0\r\nExpires: 0\r\nCache-Control: no-cache, private\r\nPragma: no-cache\r\nContent-Type: multipart/x-mixed-replace; boundary=frame\r\n\r\n";

#[test]
fn preamble_is_the_fixed_header_block() {
    assert_eq!(preamble(), PREAMBLE.as_bytes().to_vec());
    assert_eq!(preamble(), preamble());
}

#[test]
fn single_frame_part() {
    let frame = [0xFF, 0xD8, 0x00, 0x01, 0xFF, 0xD9];
    let part = encode_part(&frame, 0);
    let mut expected = b"--frame\r\nContent-Type: image/jpeg\r\nContent-Length: 6\r\nX-Timestamp: 0.000000000\r\n\r\n".to_vec();
    expected.extend_from_slice(&frame);
    expected.extend_from_slice(b"\r\n");
    assert_eq!(part, expected);
}

#[test]
fn timestamp_has_seconds_and_nine_fraction_digits() {
    let part = encode_part(&[0xFF, 0xD8, 0xFF, 0xD9], 12_500_000_042);
    let text = String::from_utf8_lossy(&part).to_string();
    assert!(text.contains("Content-Length: 4\r\n"));
    assert!(text.contains("X-Timestamp: 12.500000042\r\n\r\n"));
}

#[test]
fn content_length_has_several_digits() {
    let mut frame = vec![0xFF, 0xD8];
    frame.extend(std::iter::repeat(0x55).take(1234));
    frame.extend([0xFF, 0xD9]);
    let part = encode_part(&frame, 1_000_000_000);
    let text = String::from_utf8_lossy(&part).to_string();
    assert!(text.starts_with("--frame\r\nContent-Type: image/jpeg\r\nContent-Length: 1238\r\nX-Timestamp: 1.000000000\r\n\r\n"));
    assert!(part.ends_with(&[0xFF, 0xD9, b'\r', b'\n']));
    assert_eq!(part.len(), text.find("\r\n\r\n").unwrap() + 4 + 1238 + 2);
}

#[test]
fn two_frames_are_two_parts() {
    let f1 = [0xFF, 0xD8, 0x01, 0xFF, 0xD9];
    let f2 = [0xFF, 0xD8, 0x02, 0x03, 0xFF, 0xD9];
    let p1 = encode_part(&f1, 5);
    let p2 = encode_part(&f2, 6);
    let header1 = b"--frame\r\nContent-Type: image/jpeg\r\nContent-Length: 5\r\nX-Timestamp: 0.000000005\r\n\r\n".to_vec();
    let header2 = b"--frame\r\nContent-Type: image/jpeg\r\nContent-Length: 6\r\nX-Timestamp: 0.000000006\r\n\r\n".to_vec();
    let mut expected = header1;
    expected.extend_from_slice(&f1);
    expected.extend_from_slice(b"\r\n");
    expected.extend(header2);
    expected.extend_from_slice(&f2);
    expected.extend_from_slice(b"\r\n");
    let mut stream = p1;
    stream.extend(p2);
    assert_eq!(stream, expected);
}
