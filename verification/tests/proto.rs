use pyielink::proto::{
    payload_len, payload_text, read_frame, write_frame, FrameError, Reader, AUTH_OK, CHALLENGE,
    HELLO, MAX_PAYLOAD, TOKEN_ISSUED,
};

#[test]
fn round_trip() {
    let mut buf = Vec::new();
    write_frame(&mut buf, HELLO, b"user\n0.1.0").unwrap();
    buf.extend_from_slice(&[TOKEN_ISSUED, 0x00, 0x02, b'a', b'b']);

    let mut cur = Reader::new(buf);
    let (t, p) = read_frame(&mut cur).unwrap();
    assert_eq!(t, HELLO);
    assert_eq!(p, b"user\n0.1.0");
    let (t2, p2) = read_frame(&mut cur).unwrap();
    assert_eq!(t2, TOKEN_ISSUED);
    assert_eq!(p2, b"ab");
}

#[test]
fn empty_payload_round_trip() {
    let mut buf = Vec::new();
    write_frame(&mut buf, CHALLENGE, b"salt\nnonce").unwrap();
    let mut cur = Reader::new(buf);
    let (t, p) = read_frame(&mut cur).unwrap();
    assert_eq!(t, CHALLENGE);
    assert_eq!(p, b"salt\nnonce");
}

#[test]
fn rejects_oversize_len() {
    let bad = [HELLO, 0xFF, 0xFF];
    let mut cur = Reader::new(bad.to_vec());
    assert!(read_frame(&mut cur).is_err());
}

#[test]
fn rejects_truncated_stream() {
    let mut buf = Vec::new();
    write_frame(&mut buf, AUTH_OK, b"4243").unwrap();
    buf.pop();
    let mut cur = Reader::new(buf);
    assert!(read_frame(&mut cur).is_err());
}

#[test]
fn frames_are_exact() {
    let mut buf = Vec::new();
    write_frame(&mut buf, 9, b"xyz").unwrap();
    assert_eq!(buf, [9, 0, 3, b'x', b'y', b'z']);
    let mut buf = Vec::new();
    write_frame(&mut buf, 9, &[7u8; 300]).unwrap();
    assert_eq!(&buf[..3], [9, 1, 44]);
    assert_eq!(payload_len(1, 44), 300);
    assert_eq!(payload_len(0xFF, 0xFF), 65535);
}

#[test]
fn longest_payloads() {
    // a length that the two bytes of the field cannot hold is refused
    let mut buf = vec![1u8];
    for n in [MAX_PAYLOAD, MAX_PAYLOAD + 1] {
        assert_eq!(write_frame(&mut buf, 1, &vec![0u8; n]), Err(FrameError::TooLarge));
    }
    assert_eq!(buf, [1]);
    // the longest
    let long = vec![5u8; MAX_PAYLOAD - 1];
    let mut buf = Vec::new();
    write_frame(&mut buf, 1, &long).unwrap();
    assert_eq!(buf[..3], [1, 0xFF, 0xFF]);
    assert_eq!(read_frame(&mut Reader::new(buf)).unwrap().1, long);
}

#[test]
fn truncated_frames_are_left_alone() {
    let mut cur = Reader::new(vec![1, 0]);
    assert_eq!(read_frame(&mut cur), Err(FrameError::Truncated));
    let mut cur = Reader::new(vec![1, 0, 0]);
    assert_eq!(read_frame(&mut cur), Ok((1, vec![])));
    assert_eq!(read_frame(&mut cur), Err(FrameError::Truncated));
}

#[test]
fn payload_text_replaces_invalid_bytes() {
    assert_eq!(payload_text("héllo".as_bytes()), "héllo");
    assert_eq!(payload_text(&[b'a', 0xFF, b'b']), "a\u{FFFD}b");
}
