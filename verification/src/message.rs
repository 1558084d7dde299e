//! Layer 3 of the codec: messages as Rust values, and their opaque form.
use std::collections::VecDeque;

use bytes::BytesMut;
use vstd::prelude::*;

use crate::arguments::{ArgumentBag, ArgumentDecodeError, DecodeFailure};
use crate::buffer::{bytes_contents, max_buffer_len, new_bytes};

verus! {

/// A protocol message, identified within its interface by its opcode.
pub trait Message {
    /// The message's opcode.
    const OP_CODE: u16;
}

/// A message that lowers itself to primitive arguments.
pub trait EncodeMessage<F>: Sized {
    /// The argument bytes and file descriptors that encoding `self` places in a bag.
    spec fn encoding(&self) -> (Seq<u8>, Seq<F>);

    /// Places the message's arguments in the bag, after those already there.
    fn encode(self, bag: &mut ArgumentBag<F>)
        requires
            old(bag).byte_view().len() + self.encoding().0.len() <= max_buffer_len(),
        ensures
            final(bag).byte_view() == old(bag).byte_view() + self.encoding().0,
            final(bag).fd_view() == old(bag).fd_view() + self.encoding().1,
    ;
}

/// A message that parses itself from primitive arguments.
pub trait DecodeMessage<F>: Sized {
    /// Whether `bytes` and `fds` hold a message of this kind.
    spec fn decodable(bytes: Seq<u8>, fds: Seq<F>) -> bool;

    /// Whether `message` is the message that `bytes` and `fds` hold.
    spec fn decodes_to(bytes: Seq<u8>, fds: Seq<F>, message: Self) -> bool;

    /// The kind of the argument error that decoding `bytes` and `fds` meets, when they do not
    /// hold a message of this kind.
    spec fn decode_failure(bytes: Seq<u8>, fds: Seq<F>) -> DecodeFailure;

    /// Takes the message's arguments out of the bag.
    fn decode(bag: &mut ArgumentBag<F>) -> (res: Result<Self, DecodeMessageError>)
        ensures
            res is Ok <==> Self::decodable(old(bag).byte_view(), old(bag).fd_view()),
            res matches Ok(m) ==> Self::decodes_to(old(bag).byte_view(), old(bag).fd_view(), m),
            res matches Err(DecodeMessageError::ParsePrimitive(e)) ==> e.failure() == Self::decode_failure(
                old(bag).byte_view(),
                old(bag).fd_view(),
            ),
    ;
}

/// Why a message could not be decoded from its arguments.
#[derive(Debug)]
pub enum DecodeMessageError {
    /// Failed to parse a primitive argument.
    ParsePrimitive(ArgumentDecodeError),
}

impl From<ArgumentDecodeError> for DecodeMessageError {
    fn from(error: ArgumentDecodeError) -> (converted: Self) {
        DecodeMessageError::ParsePrimitive(error)
    }
}

impl vstd::std_specs::convert::FromSpecImpl<ArgumentDecodeError> for DecodeMessageError {
    open spec fn obeys_from_spec() -> bool {
        true
    }

    open spec fn from_spec(error: ArgumentDecodeError) -> Self {
        DecodeMessageError::ParsePrimitive(error)
    }
}

/// A message whose arguments are encoded but not yet sent, or received but not yet decoded.
pub struct OpaqueMessage<F> {
    pub(crate) op_code: u16,
    pub(crate) argument_buffer: BytesMut,
    pub(crate) fd_buffer: VecDeque<F>,
}

impl<F> OpaqueMessage<F> {
    /// The opcode.
    pub closed spec fn op_code_view(&self) -> u16 {
        self.op_code
    }

    /// The encoded argument bytes.
    pub closed spec fn argument_view(&self) -> Seq<u8> {
        bytes_contents(self.argument_buffer)
    }

    /// The file descriptors that travel with the message.
    pub closed spec fn fd_view(&self) -> Seq<F> {
        self.fd_buffer@
    }

    /// An opaque message from its parts.
    pub fn new(op_code: u16, argument_buffer: BytesMut, fd_buffer: VecDeque<F>) -> (message: Self)
        ensures
            message.op_code_view() == op_code,
            message.argument_view() == bytes_contents(argument_buffer),
            message.fd_view() == fd_buffer@,
    {
        OpaqueMessage { op_code, argument_buffer, fd_buffer }
    }

    /// The opcode.
    pub fn op_code(&self) -> (op_code: u16)
        ensures
            op_code == self.op_code_view(),
    {
        self.op_code
    }

    /// Splits into opcode, argument bytes and file descriptors.
    pub fn into_parts(self) -> (parts: (u16, BytesMut, VecDeque<F>))
        ensures
            parts.0 == self.op_code_view(),
            bytes_contents(parts.1) == self.argument_view(),
            parts.2@ == self.fd_view(),
    {
        (self.op_code, self.argument_buffer, self.fd_buffer)
    }

    /// Encodes a message: its opcode, and the arguments it places in an empty bag.
    pub fn from_concrete<M: Message + EncodeMessage<F>>(message: M) -> (opaque: Self)
        requires
            message.encoding().0.len() <= max_buffer_len(),
        ensures
            opaque.op_code_view() == M::OP_CODE,
            opaque.argument_view() == message.encoding().0,
            opaque.fd_view() == message.encoding().1,
    {
        let mut bag = ArgumentBag::new(new_bytes(), VecDeque::new());
        proof {
            assert(bag.byte_view() + message.encoding().0 =~= message.encoding().0);
            assert(bag.fd_view() + message.encoding().1 =~= message.encoding().1);
        }
        message.encode(&mut bag);
        let (argument_buffer, fd_buffer) = bag.into_parts();
        OpaqueMessage { op_code: M::OP_CODE, argument_buffer, fd_buffer }
    }

    /// Decodes the arguments as the message `M`.
    pub fn into_concrete<M: Message + DecodeMessage<F>>(self) -> (res: Result<M, DecodeMessageError>)
        ensures
            res is Ok <==> M::decodable(self.argument_view(), self.fd_view()),
            res matches Ok(m) ==> M::decodes_to(self.argument_view(), self.fd_view(), m),
            res matches Err(DecodeMessageError::ParsePrimitive(e)) ==> e.failure() == M::decode_failure(
                self.argument_view(),
                self.fd_view(),
            ),
    {
        let OpaqueMessage { argument_buffer, fd_buffer, .. } = self;
        let mut bag = ArgumentBag::new(argument_buffer, fd_buffer);
        M::decode(&mut bag)
    }
}

} // verus!
