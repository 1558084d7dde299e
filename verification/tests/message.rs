use std::collections::VecDeque;

use bytes::BytesMut;
use cosplay::display::{DeleteId, DisplayError};
use cosplay::stream::{concrete_from_received, inbound_message, outbound_frame};
use cosplay::{MessageUtils, OpaqueMessage, OpaqueObjectId, WaylandMessageStreamError};

fn error_message() -> DisplayError {
    DisplayError { object_id: OpaqueObjectId(3), code: 2, message: "bad request".to_string() }
}

#[test]
fn from_concrete_into_concrete() {
    let opaque: OpaqueMessage<i32> = OpaqueMessage::from_concrete(error_message());
    assert_eq!(0, opaque.op_code());
    let back: DisplayError = opaque.into_concrete().unwrap();
    assert_eq!(error_message(), back);
}

#[test]
fn delete_id_bytes() {
    let opaque: OpaqueMessage<i32> = OpaqueMessage::from_concrete(DeleteId { id: 0x01020304 });
    let (op_code, bytes, fds) = opaque.into_parts();
    assert_eq!(1, op_code);
    assert_eq!(&0x01020304u32.to_ne_bytes(), &bytes[..]);
    assert!(fds.is_empty());
}

#[test]
fn receive_checks_opcode() {
    let opaque = OpaqueMessage::<i32>::new(4, BytesMut::new(), VecDeque::new());
    let res = concrete_from_received::<i32, DeleteId>(Ok((7, opaque)));
    assert!(matches!(res, Err(WaylandMessageStreamError::OpcodeMismatch(4, 1))));
}

#[test]
fn receive_decodes() {
    let opaque = OpaqueMessage::<i32>::from_concrete(DeleteId { id: 12 });
    let (id, delete) = concrete_from_received::<i32, DeleteId>(Ok((1, opaque))).unwrap();
    assert_eq!(1, id);
    assert_eq!(DeleteId { id: 12 }, delete);
}

#[test]
fn receive_reports_argument_error() {
    let opaque = OpaqueMessage::<i32>::new(1, BytesMut::from_iter([1u8, 0]), VecDeque::new());
    let res = concrete_from_received::<i32, DeleteId>(Ok((7, opaque)));
    assert!(matches!(res, Err(WaylandMessageStreamError::Argument(_))));
}

#[test]
fn logged_conversion_drops_error() {
    let opaque = OpaqueMessage::<i32>::new(0, BytesMut::new(), VecDeque::new());
    assert!(MessageUtils::into_concrete_logged::<i32, DisplayError>(opaque).is_none());
}

#[test]
fn outbound_frame_carries_message() {
    let mut fds = VecDeque::new();
    fds.push_back(5i32);
    let opaque = OpaqueMessage::<i32>::new(2, BytesMut::from_iter([9u8, 8, 7, 6]), fds);
    let (frame, fds) = outbound_frame(OpaqueObjectId(11), opaque);
    assert_eq!(11, frame.object_id());
    assert_eq!(2, frame.op_code());
    let (_, _, body) = frame.into_parts();
    assert_eq!(&[9u8, 8, 7, 6], &body[..]);
    assert_eq!(vec![5], fds.into_iter().collect::<Vec<_>>());
}

#[test]
fn inbound_message_takes_fds() {
    let frame = cosplay::opaque::OpaqueMessage::new(4, 1, BytesMut::from_iter(12u32.to_ne_bytes()));
    let mut fds = VecDeque::new();
    fds.push_back(3i32);
    let (object_id, message) = inbound_message(frame, fds);
    assert_eq!(4, object_id);
    assert_eq!(1, message.op_code());
    let (_, bytes, fds) = message.into_parts();
    assert_eq!(&12u32.to_ne_bytes(), &bytes[..]);
    assert_eq!(vec![3], fds.into_iter().collect::<Vec<_>>());
}
