//! Layer 1 of the codec: a whole message frame whose arguments are still raw bytes.
use bytes::BytesMut;
use vstd::prelude::*;

use crate::buffer::bytes_contents;

verus! {

/// A framed message: the object it is addressed to, its opcode and its argument bytes.
#[derive(Debug, PartialEq)]
pub struct OpaqueMessage {
    pub(crate) object_id: u32,
    pub(crate) op_code: u16,
    pub(crate) body: BytesMut,
}

impl View for OpaqueMessage {
    type V = (u32, u16, Seq<u8>);

    closed spec fn view(&self) -> (u32, u16, Seq<u8>) {
        (self.object_id, self.op_code, bytes_contents(self.body))
    }
}

impl OpaqueMessage {
    /// A frame from its parts.
    pub fn new(object_id: u32, op_code: u16, body: BytesMut) -> (frame: Self)
        ensures
            frame@ == (object_id, op_code, bytes_contents(body)),
    {
        OpaqueMessage { object_id, op_code, body }
    }

    /// The object the frame is addressed to.
    pub fn object_id(&self) -> (object_id: u32)
        ensures
            object_id == self@.0,
    {
        self.object_id
    }

    /// The frame's opcode.
    pub fn op_code(&self) -> (op_code: u16)
        ensures
            op_code == self@.1,
    {
        self.op_code
    }

    /// Splits the frame into object id, opcode and argument bytes.
    pub fn into_parts(self) -> (parts: (u32, u16, BytesMut))
        ensures
            (parts.0, parts.1, bytes_contents(parts.2)) == self@,
    {
        (self.object_id, self.op_code, self.body)
    }
}

} // verus!
