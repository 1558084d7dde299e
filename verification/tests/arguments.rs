use std::collections::VecDeque;

use bytes::BytesMut;
use cosplay::{
    ArgumentBag, ArgumentDecodeError, Client, Fixed, MarshalArgument, NewObjectId, ObjectId, OpaqueNewObjectId,
    OpaqueObjectId, ParseArgument,
};

fn empty_bag() -> ArgumentBag<i32> {
    ArgumentBag::new(BytesMut::new(), VecDeque::new())
}

fn mock_id() -> ObjectId<Client> {
    ObjectId::<Client>::from_raw(1).unwrap().unwrap()
}

fn assert_bijective_encoding<T>(value: T)
where
    T: MarshalArgument + ParseArgument + std::fmt::Debug + PartialEq + Clone,
{
    let mut bag = empty_bag();

    value.clone().marshal(&mut bag);

    let output_value = T::parse(&mut bag).unwrap();

    assert_eq!(value, output_value);

    assert!(bag.bytes().is_empty(), "remaining bytes found in buffer")
}

#[test]
fn u32_encoding() {
    assert_bijective_encoding(123u32);
}

#[test]
fn i32_encoding() {
    assert_bijective_encoding(41i32);
    assert_bijective_encoding(-41i32);
}

#[test]
fn fixed_encoding() {
    let fixed = Fixed::new(123, 4).unwrap();
    assert_bijective_encoding(fixed);
}

#[test]
fn opaque_object_id_encoding() {
    assert_bijective_encoding(OpaqueObjectId(123456));
}

#[test]
fn optional_opaque_object_id_encoding() {
    assert_bijective_encoding(Some(OpaqueObjectId(123456)));
    assert_bijective_encoding(Option::<OpaqueObjectId>::None);
}

#[test]
fn expected_opaque_object_id_err() {
    let mut bag = empty_bag();

    0u32.marshal(&mut bag);

    let error = OpaqueObjectId::parse(&mut bag).unwrap_err();

    assert!(matches!(error, ArgumentDecodeError::MissingObjectId));
}

#[test]
fn object_id_encoding() {
    assert_bijective_encoding(mock_id());
}

#[test]
fn optional_object_id_encoding() {
    assert_bijective_encoding(Some(mock_id()));
    assert_bijective_encoding(Option::<String>::None);
}

#[test]
fn new_object_id_encoding() {
    let new_id = NewObjectId::<Client, ()>::new(mock_id());
    assert_bijective_encoding(new_id);
}

#[test]
fn opaque_new_object_id_encoding() {
    let mut bag = empty_bag();
    let new_id = OpaqueNewObjectId::new("wl_xxx".to_string(), 1, mock_id());

    new_id.marshal(&mut bag);

    let output = OpaqueNewObjectId::<Client>::parse(&mut bag).unwrap();
    assert_eq!("wl_xxx", output.interface_name());
    assert_eq!(1, output.interface_version());
    assert_eq!(mock_id(), output.id());
    assert!(bag.bytes().is_empty(), "remaining bytes found in buffer");
}

#[test]
fn fd_fifo_encoding() {
    let mut bag = empty_bag();

    let (fd_0, fd_1) = (1, 2);

    bag.marshal_fd(fd_0);
    bag.marshal_fd(fd_1);

    let returned_fd_0 = bag.parse_fd().unwrap();
    let returned_fd_1 = bag.parse_fd().unwrap();

    assert_eq!([fd_0, fd_1], [returned_fd_0, returned_fd_1]);
}

#[test]
fn missing_fd_err() {
    let mut bag = empty_bag();
    assert!(matches!(bag.parse_fd(), Err(ArgumentDecodeError::MissingFd)));
}

#[test]
fn vec_encoding() {
    assert_bijective_encoding(Vec::<u8>::new());
    assert_bijective_encoding(vec![1u8, 2, 3, 4, 5]);
}

#[test]
fn vec_padding() {
    let mut bag = empty_bag();

    let vec: Vec<u8> = vec![9];

    assert_ne!(4, vec.len());

    vec.marshal(&mut bag);

    let expected = &[
        1, 0, 0, 0, // length
        9, 0, 0, 0, // value + padding
    ];
    assert_eq!(expected, &bag.bytes()[..]);
}

#[test]
fn string_encoding() {
    assert_bijective_encoding("Löwe 老虎 Léopard".to_string());
}

#[test]
fn optional_string_encoding() {
    assert_bijective_encoding(Some("🦀".to_string()));
    assert_bijective_encoding(Option::<String>::None);
}

#[test]
fn empty_string_encoding() {
    assert_bijective_encoding(String::new());
}

#[test]
fn string_padding() {
    let mut bag = empty_bag();

    "ab".to_string().marshal(&mut bag);

    let expected = [
        3, 0, 0, 0, // length
        b'a', b'b', b'\0', 0, // string + padding
    ];

    assert_eq!(&expected, &bag.bytes()[..])
}

#[test]
fn string_len_overflow_err() {
    let bytes = BytesMut::from_iter([
        5, 0, 0, 0, // length
        b'a', 0, 0, 0,
    ]);
    let mut bag: ArgumentBag<i32> = ArgumentBag::new(bytes, VecDeque::new());

    let err = String::parse(&mut bag).unwrap_err();

    assert!(matches!(err, ArgumentDecodeError::NotEnoughBytesLeft));
}

#[test]
fn optional_string_none_bytes() {
    let mut bag = empty_bag();

    Option::<String>::None.marshal(&mut bag);

    assert_eq!(&[0, 0, 0, 0], &bag.bytes()[..])
}

#[test]
fn missing_string_err() {
    let mut bag = empty_bag();
    0u32.marshal(&mut bag);
    assert!(matches!(String::parse(&mut bag), Err(ArgumentDecodeError::MissingString)));
}

#[test]
fn invalid_utf8_err() {
    let bytes = BytesMut::from_iter([
        2, 0, 0, 0, // length
        0xFF, 0, 0, 0, // invalid byte, null byte, padding
    ]);
    let mut bag: ArgumentBag<i32> = ArgumentBag::new(bytes, VecDeque::new());
    assert!(matches!(String::parse(&mut bag), Err(ArgumentDecodeError::FromUtf8(_))));
}

#[test]
fn short_word_err() {
    let bytes = BytesMut::from_iter([1u8, 2, 3]);
    let mut bag: ArgumentBag<i32> = ArgumentBag::new(bytes, VecDeque::new());
    assert!(matches!(u32::parse(&mut bag), Err(ArgumentDecodeError::NotEnoughBytesLeft)));
    assert_eq!(3, bag.remaining());
}

#[test]
fn short_byte_array_length_err() {
    let bytes = BytesMut::from_iter([1u8, 0]);
    let mut bag: ArgumentBag<i32> = ArgumentBag::new(bytes, VecDeque::new());
    assert!(matches!(Vec::<u8>::parse(&mut bag), Err(ArgumentDecodeError::NotEnoughBytesLeft)));
    assert_eq!(2, bag.remaining());
}

#[test]
fn fixed_bytes() {
    let mut bag = empty_bag();
    Fixed::new(-2, 0x80).unwrap().marshal(&mut bag);
    // Integer part -2 as 24 bits is 0xFFFFFE, followed by the fraction byte.
    assert_eq!(0xFFFFFE80u32.to_ne_bytes(), &bag.bytes()[..]);
    let parsed = Fixed::parse(&mut bag).unwrap();
    assert_eq!((-2, 0x80), (parsed.integer(), parsed.decimal()));
}

#[test]
fn fixed_rejects_out_of_range() {
    assert!(Fixed::new(8388608, 0).is_none());
    assert!(Fixed::new(-8388609, 0).is_none());
    assert!(Fixed::new(8388607, 0).is_some());
    assert!(Fixed::new(-8388608, 0).is_some());
}

#[test]
fn i32_bytes() {
    let mut bag = empty_bag();
    (-1i32).marshal(&mut bag);
    assert_eq!(&[0xFF, 0xFF, 0xFF, 0xFF], &bag.bytes()[..]);
}
