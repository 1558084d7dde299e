use std::collections::VecDeque;

use bytes::BytesMut;
use cosplay::wm_base::{ping_pong_step, Ping, PingPongStep, Pong, WmBaseInbound};
use cosplay::{OpaqueMessage, ParseArgument, ArgumentBag};

#[test]
fn ping_answered_with_same_serial() {
    assert_eq!(PingPongStep::Reply(Pong { serial: 77 }), ping_pong_step(WmBaseInbound::Ping(Ping { serial: 77 })));
}

#[test]
fn closed_channel_stops() {
    assert_eq!(PingPongStep::Stop, ping_pong_step(WmBaseInbound::ChannelClosed));
}

#[test]
fn errors_are_only_reported() {
    assert_eq!(
        PingPongStep::Continue,
        ping_pong_step(WmBaseInbound::ErrorEvent { code: 1, message: "x".to_string() })
    );
    assert_eq!(PingPongStep::Continue, ping_pong_step(WmBaseInbound::Undecodable));
}

#[test]
fn pong_encoding() {
    let opaque: OpaqueMessage<i32> = OpaqueMessage::from_concrete(Pong { serial: 5 });
    assert_eq!(3, opaque.op_code());
    let (_, bytes, fds) = opaque.into_parts();
    let mut bag: ArgumentBag<i32> = ArgumentBag::new(bytes, fds);
    assert_eq!(5, u32::parse(&mut bag).unwrap());
}

#[test]
fn ping_decoding() {
    let opaque = OpaqueMessage::<i32>::new(0, BytesMut::from_iter(9u32.to_ne_bytes()), VecDeque::new());
    let ping: Ping = opaque.into_concrete().unwrap();
    assert_eq!(Ping { serial: 9 }, ping);
}

#[test]
fn failed_pong_stops() {
    assert_eq!(PingPongStep::Stop, ping_pong_step(WmBaseInbound::PongFailed));
}

#[test]
fn short_ping_reports_missing_bytes() {
    let opaque = OpaqueMessage::<i32>::new(0, BytesMut::from_iter([1u8, 2]), VecDeque::new());
    let res: Result<Ping, _> = opaque.into_concrete();
    assert!(matches!(
        res,
        Err(cosplay::DecodeMessageError::ParsePrimitive(cosplay::ArgumentDecodeError::NotEnoughBytesLeft))
    ));
}
