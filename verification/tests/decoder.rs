use bytes::{BufMut, BytesMut};
use cosplay::opaque::OpaqueMessage;
use cosplay::{OpaqueMessageDecodeError, OpaqueMessageDecoder};

const HEADER_LENGTH: usize = 8;

/// Populates dst and returns the expected result from decoding dst.
fn mock(dst: &mut BytesMut, object_id: u32, op_code: u16, body: &[u8]) -> OpaqueMessage {
    dst.put_u32_ne(object_id);

    let total_length = body.len() + HEADER_LENGTH;

    dst.put_u32_ne(((total_length as u32) << 16) + op_code as u32);

    dst.extend_from_slice(body);

    OpaqueMessage::new(object_id, op_code, BytesMut::from_iter(body))
}

#[test]
fn decode_single_frame() {
    let mut buffer = BytesMut::new();

    let expected = mock(&mut buffer, 123, 456, b"hello");

    let actual = OpaqueMessageDecoder::default().decode(&mut buffer).unwrap().unwrap();

    assert_eq!(expected, actual);
}

#[test]
fn decode_await_read() {
    let mut buffer = BytesMut::new();

    let mut decoder = OpaqueMessageDecoder::default();

    assert!(decoder.decode(&mut buffer).unwrap().is_none());
}

#[test]
fn size_error() {
    let mut buffer = BytesMut::new();

    // object id
    buffer.put_u32_ne(1);

    let total_length = 6;
    assert!(total_length < HEADER_LENGTH);

    buffer.put_u32_ne((total_length as u32) << 16);

    let actual = OpaqueMessageDecoder::default().decode(&mut buffer).transpose().unwrap();

    assert!(matches!(actual, Err(OpaqueMessageDecodeError::InvalidSize(6))));
}

#[test]
fn decode_multiple_frames() {
    let mut buffer = BytesMut::new();

    let expected_0 = mock(&mut buffer, 123, 456, b"hello");
    let expected_1 = mock(&mut buffer, 789, 111, b"codec");

    let mut decoder = OpaqueMessageDecoder::default();

    let actual_0 = decoder.decode(&mut buffer).unwrap().unwrap();
    assert_eq!(expected_0, actual_0);

    let actual_1 = decoder.decode(&mut buffer).unwrap().unwrap();
    assert_eq!(expected_1, actual_1);
}

#[test]
fn decode_frame_split_inside_body() {
    let mut whole = BytesMut::new();
    let expected = mock(&mut whole, 7, 2, b"split body");

    let mut decoder = OpaqueMessageDecoder::new();
    let mut buffer = whole.split_to(11);

    assert!(decoder.decode(&mut buffer).unwrap().is_none());
    // The header has been consumed; the first bytes of the body wait in the buffer.
    assert_eq!(3, buffer.len());

    buffer.extend_from_slice(&whole);
    let actual = decoder.decode(&mut buffer).unwrap().unwrap();
    assert_eq!(expected, actual);
    assert!(buffer.is_empty());
}

#[test]
fn decode_frame_split_inside_header() {
    let mut whole = BytesMut::new();
    let expected = mock(&mut whole, 9, 1, b"abc");

    let mut decoder = OpaqueMessageDecoder::new();
    let mut buffer = whole.split_to(5);

    assert!(decoder.decode(&mut buffer).unwrap().is_none());
    assert_eq!(5, buffer.len());

    buffer.extend_from_slice(&whole);
    assert_eq!(expected, decoder.decode(&mut buffer).unwrap().unwrap());
}

#[test]
fn decode_empty_body() {
    let mut buffer = BytesMut::new();
    let expected = mock(&mut buffer, 1, 0, b"");
    let actual = OpaqueMessageDecoder::new().decode(&mut buffer).unwrap().unwrap();
    assert_eq!(expected, actual);
    assert_eq!(0, actual.into_parts().2.len());
}

#[test]
fn decode_frame_in_many_pieces() {
    let mut whole = BytesMut::new();
    let expected = mock(&mut whole, 9, 2, b"pieces of a body");
    let bytes = whole.to_vec();

    // Cuts inside the first word, inside the header, at the body's start and inside the body,
    // with an empty piece among them.
    let cuts = [0usize, 3, 6, 8, 8, 13, bytes.len()];
    let mut decoder = OpaqueMessageDecoder::default();
    let mut buffer = BytesMut::new();
    for window in cuts.windows(2) {
        buffer.extend_from_slice(&bytes[window[0]..window[1]]);
        let result = decoder.decode(&mut buffer).unwrap();
        if window[1] < bytes.len() {
            assert!(result.is_none());
        } else {
            assert_eq!(Some(expected), result);
            assert!(buffer.is_empty());
            break;
        }
    }
}
