use rubycave::codec::{decode, encode, CodecError};

fn framed(payload: &[u8]) -> Vec<u8> {
    let mut out = Vec::new();
    encode(payload, &mut out);
    out
}

#[test]
fn empty_payload_is_one_zero_byte() {
    assert_eq!(framed(&[]), vec![0u8]);
}

#[test]
fn short_payload_has_one_byte_prefix() {
    assert_eq!(framed(&[7, 8, 9]), vec![3u8, 7, 8, 9]);
}

#[test]
fn prefix_of_300_is_two_bytes() {
    let payload = vec![0xabu8; 300];
    let bytes = framed(&payload);
    assert_eq!(&bytes[..2], &[0xacu8, 0x02]);
    assert_eq!(bytes.len(), 302);
    assert_eq!(&bytes[2..], &payload[..]);
}

#[test]
fn decode_returns_what_encode_took() {
    let payload = vec![1u8, 2, 3, 4, 5];
    let mut buf = framed(&payload);
    assert_eq!(decode(&mut buf), Ok(Some(payload)));
    assert!(buf.is_empty());
}

#[test]
fn decode_returns_error_on_trailing_zero_digit() {
    let mut buf = vec![0x80u8, 0x00, 1, 2, 3];
    assert_eq!(decode(&mut buf), Err(CodecError::CorruptFrame));
    assert_eq!(buf, vec![0x80u8, 0x00, 1, 2, 3]);
}

#[test]
fn every_cut_frame_asks_for_more_and_is_left_alone() {
    let payload: Vec<u8> = (0..200u8).collect();
    let whole = framed(&payload);
    assert_eq!(whole.len(), 202);
    for kept in 0..whole.len() {
        let mut buf = whole[..kept].to_vec();
        assert_eq!(decode(&mut buf), Ok(None));
        assert_eq!(buf, whole[..kept].to_vec());
        assert_eq!(decode(&mut buf), Ok(None));
        assert_eq!(buf, whole[..kept].to_vec());
    }
}

#[test]
fn decode_takes_one_frame_and_leaves_the_rest() {
    let mut buf = framed(&[1, 2, 3]);
    encode(&[9, 9], &mut buf);
    buf.push(0x85);
    assert_eq!(decode(&mut buf), Ok(Some(vec![1u8, 2, 3])));
    assert_eq!(buf, vec![2u8, 9, 9, 0x85]);
    assert_eq!(decode(&mut buf), Ok(Some(vec![9u8, 9])));
    assert_eq!(buf, vec![0x85u8]);
    assert_eq!(decode(&mut buf), Ok(None));
    assert_eq!(buf, vec![0x85u8]);
}

#[test]
fn bytes_appended_after_a_request_for_more_complete_the_frame() {
    let whole = framed(&[4, 5, 6, 7]);
    let mut buf = whole[..3].to_vec();
    assert_eq!(decode(&mut buf), Ok(None));
    buf.extend_from_slice(&whole[3..]);
    assert_eq!(decode(&mut buf), Ok(Some(vec![4u8, 5, 6, 7])));
    assert!(buf.is_empty());
}

#[test]
fn encode_appends_and_keeps_what_was_there() {
    let mut out = vec![0xeeu8, 0xff];
    encode(&[1], &mut out);
    assert_eq!(out, vec![0xeeu8, 0xff, 1, 1]);
}

#[test]
fn empty_buffer_asks_for_more() {
    let mut buf: Vec<u8> = Vec::new();
    assert_eq!(decode(&mut buf), Ok(None));
    assert!(buf.is_empty());
}

#[test]
fn ten_continuation_bytes_are_corrupt() {
    let mut buf = vec![0xffu8; 10];
    assert_eq!(decode(&mut buf), Err(CodecError::CorruptFrame));
    assert_eq!(buf, vec![0xffu8; 10]);
}

#[test]
fn nine_continuation_bytes_ask_for_more() {
    let mut buf = vec![0xffu8; 9];
    assert_eq!(decode(&mut buf), Ok(None));
    assert_eq!(buf, vec![0xffu8; 9]);
}

#[test]
fn length_beyond_sixty_four_bits_is_corrupt() {
    let mut buf = vec![0xffu8; 9];
    buf.push(0x02);
    assert_eq!(decode(&mut buf), Err(CodecError::CorruptFrame));
}

#[test]
fn largest_length_asks_for_more() {
    let mut buf = vec![0xffu8; 9];
    buf.push(0x01);
    assert_eq!(decode(&mut buf), Ok(None));
    assert_eq!(buf.len(), 10);
}

#[test]
fn prefix_of_128_is_two_bytes() {
    let payload = vec![7u8; 128];
    let bytes = framed(&payload);
    assert_eq!(&bytes[..2], &[0x80u8, 0x01]);
    let mut buf = bytes;
    assert_eq!(decode(&mut buf), Ok(Some(payload)));
}

#[test]
fn prefix_of_16384_is_three_bytes() {
    let payload = vec![1u8; 16384];
    let bytes = framed(&payload);
    assert_eq!(&bytes[..3], &[0x80u8, 0x80, 0x01]);
    assert_eq!(bytes.len(), 16387);
    let mut buf = bytes;
    assert_eq!(decode(&mut buf), Ok(Some(payload)));
    assert!(buf.is_empty());
}

#[test]
fn corrupt_frame_has_a_message() {
    assert_eq!(CodecError::CorruptFrame.message(), "corrupt frame");
}
