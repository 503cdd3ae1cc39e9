use app_therapy::crypto::Nonce;
use app_therapy::framing::{encode, read_length, FrameError, Payload, FRAME_SEPARATOR};

fn nonce_of(b: u8) -> Nonce {
    let mut bytes = [0u8; 24];
    for (i, x) in bytes.iter_mut().enumerate() {
        *x = b.wrapping_add(i as u8);
    }
    Nonce(bytes)
}

#[test]
fn encode_writes_header_requestor_separator_nonce_box() {
    let nonce = nonce_of(1);
    let frame = encode("bob", &nonce, &[9, 8, 7]);
    let body_len = 3 + 1 + 24 + 3;
    assert_eq!(frame.len(), 8 + body_len);
    assert_eq!(&frame[..8], &[0, 0, 0, 0, 0, 0, 0, body_len as u8]);
    assert_eq!(&frame[8..11], b"bob");
    assert_eq!(frame[11], FRAME_SEPARATOR);
    assert_eq!(FRAME_SEPARATOR, 0x1f);
    assert_eq!(&frame[12..36], &nonce.0[..]);
    assert_eq!(&frame[36..], &[9, 8, 7]);
}

#[test]
fn decode_gives_back_what_was_encoded() {
    let nonce = nonce_of(42);
    let the_box: Vec<u8> = (0..100u8).collect();
    let frame = encode("alice", &nonce, &the_box);
    let payload = Payload::new(&frame).unwrap();
    assert_eq!(
        payload,
        Payload { requestor: "alice".to_string(), nonce, the_box }
    );
}

#[test]
fn decode_keeps_non_ascii_requestor() {
    let nonce = nonce_of(3);
    let frame = encode("zoë", &nonce, &[1]);
    let payload = Payload::new(&frame).unwrap();
    assert_eq!(payload.requestor, "zoë");
    assert_eq!(payload.the_box, vec![1]);
}

#[test]
fn decode_accepts_empty_box() {
    let nonce = nonce_of(7);
    let frame = encode("bob", &nonce, &[]);
    let payload = Payload::new(&frame).unwrap();
    assert_eq!(payload.the_box, Vec::<u8>::new());
    assert_eq!(payload.nonce, nonce);
}

#[test]
fn decode_ignores_bytes_after_the_frame() {
    let nonce = nonce_of(5);
    let mut frame = encode("bob", &nonce, &[1, 2]);
    frame.extend_from_slice(&[0xaa, 0xbb]);
    let payload = Payload::new(&frame).unwrap();
    assert_eq!(payload.the_box, vec![1, 2]);
}

#[test]
fn decode_short_header_is_bad_length() {
    assert_eq!(Payload::new(&[0, 0, 0]), Err(FrameError::BadLength));
    assert_eq!(Payload::new(&[]), Err(FrameError::BadLength));
}

#[test]
fn decode_short_body_is_truncated() {
    let nonce = nonce_of(1);
    let frame = encode("bob", &nonce, &[1, 2, 3]);
    assert_eq!(Payload::new(&frame[..frame.len() - 1]), Err(FrameError::Truncated));
    assert_eq!(
        Payload::new(&[0xff, 0xff, 0xff, 0xff, 0xff, 0xff, 0xff, 0xff, 1]),
        Err(FrameError::Truncated)
    );
}

#[test]
fn decode_without_separator_is_missing_separator() {
    let mut frame = vec![0, 0, 0, 0, 0, 0, 0, 30];
    frame.extend_from_slice(&[b'a'; 30]);
    assert_eq!(Payload::new(&frame), Err(FrameError::MissingSeparator));
}

#[test]
fn decode_short_nonce_is_short_nonce() {
    let mut frame = vec![0, 0, 0, 0, 0, 0, 0, 27];
    frame.extend_from_slice(b"bob");
    frame.push(FRAME_SEPARATOR);
    frame.extend_from_slice(&[0u8; 23]);
    assert_eq!(Payload::new(&frame), Err(FrameError::ShortNonce));
}

#[test]
fn decode_non_utf8_requestor_is_bad_requestor() {
    let mut frame = vec![0, 0, 0, 0, 0, 0, 0, 27];
    frame.extend_from_slice(&[0xff, 0xfe]);
    frame.push(FRAME_SEPARATOR);
    frame.extend_from_slice(&[0u8; 24]);
    assert_eq!(Payload::new(&frame), Err(FrameError::BadRequestor));
}

#[test]
fn decode_splits_at_first_separator() {
    let mut frame = vec![0, 0, 0, 0, 0, 0, 0, 30];
    frame.extend_from_slice(b"ab");
    frame.push(FRAME_SEPARATOR);
    frame.push(FRAME_SEPARATOR);
    frame.extend_from_slice(&[7u8; 26]);
    let payload = Payload::new(&frame).unwrap();
    assert_eq!(payload.requestor, "ab");
    assert_eq!(payload.nonce.0[0], FRAME_SEPARATOR);
    assert_eq!(payload.nonce.0[1], 7);
    assert_eq!(payload.the_box, vec![7, 7, 7]);
}

#[test]
fn read_length_is_big_endian() {
    assert_eq!(read_length(&[0, 0, 0, 0, 0, 0, 1, 2]), Ok(258));
    assert_eq!(read_length(&[1, 0, 0, 0, 0, 0, 0, 0, 9]), Ok(1 << 56));
    assert_eq!(read_length(&[0, 0, 0, 0, 0, 0, 1]), Err(FrameError::BadLength));
}
