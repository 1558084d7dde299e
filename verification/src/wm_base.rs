//! The `xdg_wm_base` ping-pong: answering the compositor's liveness checks.
use vstd::prelude::*;

use crate::arguments::{u32_parse_spec, ArgumentBag, DecodeFailure, MarshalArgument, ParseArgument};
use crate::message::{DecodeMessage, DecodeMessageError, EncodeMessage, Message};
use crate::wire::{lemma_u32_value_roundtrip, u32_ne_bytes};

verus! {

/// `xdg_wm_base::ping`: the compositor checks that the client is alive.
#[derive(Debug, Clone, Copy, PartialEq, Eq, Structural)]
pub struct Ping {
    pub serial: u32,
}

/// `xdg_wm_base::pong`: the answer to a ping, with its serial.
#[derive(Debug, Clone, Copy, PartialEq, Eq, Structural)]
pub struct Pong {
    pub serial: u32,
}

impl Message for Ping {
    const OP_CODE: u16 = 0;
}

impl Message for Pong {
    const OP_CODE: u16 = 3;
}

impl<F> EncodeMessage<F> for Pong {
    open spec fn encoding(&self) -> (Seq<u8>, Seq<F>) {
        (u32_ne_bytes(self.serial), Seq::empty())
    }

    fn encode(self, bag: &mut ArgumentBag<F>) {
        self.serial.marshal(bag);
        assert(bag.fd_view() =~= old(bag).fd_view() + Seq::<F>::empty());
    }
}

impl<F> DecodeMessage<F> for Ping {
    open spec fn decode_failure(bytes: Seq<u8>, fds: Seq<F>) -> DecodeFailure {
        u32_parse_spec(bytes).0->Err_0
    }

    open spec fn decodable(bytes: Seq<u8>, fds: Seq<F>) -> bool {
        u32_parse_spec(bytes).0 is Ok
    }

    open spec fn decodes_to(bytes: Seq<u8>, fds: Seq<F>, message: Ping) -> bool {
        u32_parse_spec(bytes).0 == Ok::<u32, DecodeFailure>(message.serial)
    }

    fn decode(bag: &mut ArgumentBag<F>) -> (res: Result<Ping, DecodeMessageError>) {
        match u32::parse(bag) {
            Ok(serial) => Ok(Ping { serial }),
            Err(e) => Err(DecodeMessageError::ParsePrimitive(e)),
        }
    }
}

/// What the ping-pong task received from its event handle.
#[derive(Debug)]
pub enum WmBaseInbound {
    /// An `xdg_wm_base::ping`.
    Ping(Ping),
    /// A `wl_display::error` forwarded to the `xdg_wm_base` object.
    ErrorEvent { code: u32, message: String },
    /// An event that could not be converted.
    Undecodable,
    /// The event channel closed: the mediator is down.
    ChannelClosed,
    /// The pong answering the last ping could not be enqueued: the request channel is closed.
    PongFailed,
}

/// What the ping-pong task does next.
#[derive(Debug, Clone, Copy, PartialEq, Eq, Structural)]
pub enum PingPongStep {
    /// Enqueue this pong, then keep going; a pong that cannot be enqueued is reported back as
    /// [`WmBaseInbound::PongFailed`].
    Reply(Pong),
    /// Nothing to send; wait for the next event.
    Continue,
    /// Stop the task.
    Stop,
}

/// Decides the answer to one inbound event: a ping is answered with a pong carrying its serial,
/// a closed event channel or a pong that could not be enqueued stops the task, and anything
/// else is only reported.
pub fn ping_pong_step(inbound: WmBaseInbound) -> (step: PingPongStep)
    ensures
        match inbound {
            WmBaseInbound::Ping(ping) => step == PingPongStep::Reply(Pong { serial: ping.serial }),
            WmBaseInbound::ChannelClosed => step == PingPongStep::Stop,
            WmBaseInbound::PongFailed => step == PingPongStep::Stop,
            _ => step == PingPongStep::Continue,
        },
{
    match inbound {
        WmBaseInbound::Ping(Ping { serial }) => PingPongStep::Reply(Pong { serial }),
        WmBaseInbound::ChannelClosed => PingPongStep::Stop,
        WmBaseInbound::PongFailed => PingPongStep::Stop,
        WmBaseInbound::ErrorEvent { .. } => PingPongStep::Continue,
        WmBaseInbound::Undecodable => PingPongStep::Continue,
    }
}

/// A ping's serial is the one word on the wire: for every serial, that word decodes to exactly
/// the ping with that serial, and the pong carrying that serial encodes to the same word.
pub proof fn lemma_ping_answered_with_its_serial<F>(serial: u32)
    ensures
        <Ping as DecodeMessage<F>>::decodable(u32_ne_bytes(serial), Seq::empty()),
        forall|m: Ping| <Ping as DecodeMessage<F>>::decodes_to(u32_ne_bytes(serial), Seq::empty(), m) <==> m.serial
            == serial,
        <Pong as EncodeMessage<F>>::encoding(&Pong { serial }) == (u32_ne_bytes(serial), Seq::<F>::empty()),
{
    lemma_u32_value_roundtrip(serial);
    assert(u32_ne_bytes(serial).skip(4) =~= Seq::<u8>::empty());
}

} // verus!
