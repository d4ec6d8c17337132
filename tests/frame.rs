use uno::frame::{frame, length_header, parse_length, split_frame, FrameError};
use uno::packet::Packet;

#[test]
fn header_is_decimal_then_crlf() {
    assert_eq!(length_header(0), b"0\r\n".to_vec());
    assert_eq!(length_header(42), b"42\r\n".to_vec());
    assert_eq!(length_header(1000), b"1000\r\n".to_vec());
}

#[test]
fn parse_length_accepts_decimal_lines() {
    assert_eq!(parse_length(b"42\r\n"), Ok(42));
    assert_eq!(parse_length(b"42\n"), Ok(42));
    assert_eq!(parse_length(b"0\r\n"), Ok(0));
    assert_eq!(parse_length(format!("{}\r\n", usize::MAX).as_bytes()), Ok(usize::MAX));
}

#[test]
fn parse_length_rejects_bad_lines() {
    assert_eq!(parse_length(b""), Err(FrameError::MissingHeader));
    assert_eq!(parse_length(b"42"), Err(FrameError::MissingHeader));
    assert_eq!(parse_length(b"\r\n"), Err(FrameError::BadLength));
    assert_eq!(parse_length(b"4x\r\n"), Err(FrameError::BadLength));
    assert_eq!(parse_length(b"-4\r\n"), Err(FrameError::BadLength));
    assert_eq!(parse_length(b"99999999999999999999999\r\n"), Err(FrameError::BadLength));
}

#[test]
fn frame_round_trip_with_trailing_bytes() {
    let payload = vec![1u8, 2, 3, 10, 13];
    let mut bytes = frame(&payload);
    assert_eq!(bytes, b"5\r\n\x01\x02\x03\n\r".to_vec());
    bytes.extend_from_slice(b"next");
    assert_eq!(split_frame(&bytes), Ok((payload, 8)));
}

#[test]
fn frame_truncated_by_one_byte_fails() {
    let payload = vec![9u8; 12];
    let bytes = frame(&payload);
    assert_eq!(split_frame(&bytes[..bytes.len() - 1]), Err(FrameError::Truncated));
    assert_eq!(split_frame(&bytes[..4]), Err(FrameError::Truncated));
    assert_eq!(split_frame(&bytes[..2]), Err(FrameError::MissingHeader));
    assert_eq!(split_frame(b"ab\r\nxyz"), Err(FrameError::BadLength));
}

#[test]
fn packet_written_then_read() {
    let mut p = Packet::new(&None, &None);
    p.set_error(Some("bad move".to_string()));
    let payload = p.encode();
    let wire = frame(&payload);
    let (read, used) = split_frame(&wire).unwrap();
    assert_eq!(used, wire.len());
    let q = Packet::decode(&read).unwrap();
    assert_eq!(q.success(), (false, &Some("bad move".to_string())));
    assert!(split_frame(&wire[..wire.len() - 1]).is_err());
}
