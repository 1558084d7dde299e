//! The decisions a message stream makes on each received frame.
use std::collections::VecDeque;

use vstd::prelude::*;

use crate::decoder::OpaqueMessageDecodeError;
use crate::message::{DecodeMessage, DecodeMessageError, Message, OpaqueMessage};
use crate::object_id::OpaqueObjectId;

verus! {

/// Why a message could not be received.
#[derive(Debug)]
pub enum WaylandMessageStreamError {
    /// Failed to decode bytes into an opaque frame.
    Opaque(OpaqueMessageDecodeError),
    /// Failed to decode the message from its frame.
    Argument(DecodeMessageError),
    /// Received opcode (first) does not match the expected message opcode (second).
    OpcodeMismatch(u16, u16),
}

/// What sending `message` to `object_id` writes: the frame, and the file descriptors to hand to
/// the socket with it, replacing any left from an earlier message.
pub fn outbound_frame<F>(object_id: OpaqueObjectId, message: OpaqueMessage<F>) -> (out: (
    crate::opaque::OpaqueMessage,
    VecDeque<F>,
))
    ensures
        out.0@ == (object_id@, message.op_code_view(), message.argument_view()),
        out.1@ == message.fd_view(),
{
    let (op_code, argument_buffer, fd_buffer) = message.into_parts();
    (crate::opaque::OpaqueMessage::new(object_id.0, op_code, argument_buffer), fd_buffer)
}

/// The message received in `frame`, addressed to the object id returned beside it, carrying
/// every file descriptor drained from the socket with the frame.
pub fn inbound_message<F>(frame: crate::opaque::OpaqueMessage, fds: VecDeque<F>) -> (received: (u32, OpaqueMessage<F>))
    ensures
        received.0 == frame@.0,
        received.1.op_code_view() == frame@.1,
        received.1.argument_view() == frame@.2,
        received.1.fd_view() == fds@,
{
    let (object_id, op_code, argument_buffer) = frame.into_parts();
    (object_id, OpaqueMessage::new(op_code, argument_buffer, fds))
}

/// Turns a received opaque message into the concrete message `M`: the opcode must be `M`'s,
/// and the arguments must decode. Errors already received pass through unchanged.
pub fn concrete_from_received<F, M: Message + DecodeMessage<F>>(
    received: Result<(u32, OpaqueMessage<F>), WaylandMessageStreamError>,
) -> (res: Result<(u32, M), WaylandMessageStreamError>)
    ensures
        match received {
            Err(e) => res == Err::<(u32, M), WaylandMessageStreamError>(e),
            Ok((object_id, message)) => if message.op_code_view() != M::OP_CODE {
                res matches Err(WaylandMessageStreamError::OpcodeMismatch(received_op, expected_op))
                    && received_op == message.op_code_view() && expected_op == M::OP_CODE
            } else {
                match res {
                    Ok((id, m)) => id == object_id && M::decodable(message.argument_view(), message.fd_view())
                        && M::decodes_to(message.argument_view(), message.fd_view(), m),
                    Err(WaylandMessageStreamError::Argument(DecodeMessageError::ParsePrimitive(e))) => !M::decodable(
                        message.argument_view(),
                        message.fd_view(),
                    ) && e.failure() == M::decode_failure(message.argument_view(), message.fd_view()),
                    _ => false,
                }
            },
        },
{
    let (object_id, message) = match received {
        Ok(pair) => pair,
        Err(e) => return Err(e),
    };
    let op_code = message.op_code();
    if op_code != M::OP_CODE {
        return Err(WaylandMessageStreamError::OpcodeMismatch(op_code, M::OP_CODE));
    }
    match message.into_concrete::<M>() {
        Ok(concrete) => Ok((object_id, concrete)),
        Err(e) => Err(WaylandMessageStreamError::Argument(e)),
    }
}

/// Message helpers of the client core.
pub struct MessageUtils;

impl MessageUtils {
    /// Decodes a message, discarding the error: for event loops in which nothing can be done
    /// about a message that does not decode.
    pub fn into_concrete_logged<F, M: Message + DecodeMessage<F>>(message: OpaqueMessage<F>) -> (res: Option<M>)
        ensures
            res is Some <==> M::decodable(message.argument_view(), message.fd_view()),
            res matches Some(m) ==> M::decodes_to(message.argument_view(), message.fd_view(), m),
    {
        match message.into_concrete::<M>() {
            Ok(m) => Some(m),
            Err(_) => None,
        }
    }
}

} // verus!
