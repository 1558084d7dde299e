//! The two `wl_display` events that the client core handles itself.
use vstd::prelude::*;

use crate::arguments::{
    id_parse_spec, string_encodable, DecodeFailure, string_parse_spec, string_wire, u32_parse_spec, ArgumentBag, ArgumentRoundtrip,
    MarshalArgument, ParseArgument,
};
use crate::buffer::max_buffer_len;
use crate::message::{DecodeMessage, DecodeMessageError, EncodeMessage, Message};
use crate::object_id::OpaqueObjectId;
use crate::wire::{u32_from_ne, u32_ne_bytes};

verus! {

/// `wl_display::delete_id`: the server no longer uses the object identifier `id`, which may be
/// reused.
#[derive(Debug, Clone, Copy, PartialEq, Eq, Structural)]
pub struct DeleteId {
    pub id: u32,
}

/// `wl_display::error`: a fatal error about the object `object_id`.
#[derive(Debug, PartialEq, Eq)]
pub struct DisplayError {
    pub object_id: OpaqueObjectId,
    pub code: u32,
    pub message: String,
}

/// Opcode of `wl_display::delete_id`.
pub const DELETE_ID_OP_CODE: u16 = 1;

/// Opcode of `wl_display::error`.
pub const ERROR_OP_CODE: u16 = 0;

impl Message for DeleteId {
    const OP_CODE: u16 = DELETE_ID_OP_CODE;
}

impl Message for DisplayError {
    const OP_CODE: u16 = ERROR_OP_CODE;
}

impl<F> EncodeMessage<F> for DeleteId {
    open spec fn encoding(&self) -> (Seq<u8>, Seq<F>) {
        (u32_ne_bytes(self.id), Seq::empty())
    }

    fn encode(self, bag: &mut ArgumentBag<F>) {
        self.id.marshal(bag);
        assert(bag.fd_view() =~= old(bag).fd_view() + Seq::<F>::empty());
    }
}

impl<F> DecodeMessage<F> for DeleteId {
    open spec fn decode_failure(bytes: Seq<u8>, fds: Seq<F>) -> DecodeFailure {
        u32_parse_spec(bytes).0->Err_0
    }

    open spec fn decodable(bytes: Seq<u8>, fds: Seq<F>) -> bool {
        u32_parse_spec(bytes).0 is Ok
    }

    open spec fn decodes_to(bytes: Seq<u8>, fds: Seq<F>, message: DeleteId) -> bool {
        u32_parse_spec(bytes).0 == Ok::<u32, DecodeFailure>(message.id)
    }

    fn decode(bag: &mut ArgumentBag<F>) -> (res: Result<DeleteId, DecodeMessageError>) {
        match u32::parse(bag) {
            Ok(id) => Ok(DeleteId { id }),
            Err(e) => Err(DecodeMessageError::ParsePrimitive(e)),
        }
    }
}

/// The arguments of a `wl_display::error`: object, code and message.
pub open spec fn display_error_wire(object_id: u32, code: u32, message: Seq<char>) -> Seq<u8> {
    u32_ne_bytes(object_id) + u32_ne_bytes(code) + string_wire(message)
}

/// Parsing the arguments of a `wl_display::error`: a non-null object, a word and a string,
/// stopping at the first argument that fails.
pub open spec fn display_error_parse_spec(bytes: Seq<u8>) -> Result<(u32, u32, Seq<char>), DecodeFailure> {
    match id_parse_spec(bytes) {
        (Ok(object_id), rest) => match u32_parse_spec(rest) {
            (Ok(code), rest) => match string_parse_spec(rest).0 {
                Ok(message) => Ok((object_id, code, message)),
                Err(e) => Err(e),
            },
            (Err(e), _) => Err(e),
        },
        (Err(e), _) => Err(e),
    }
}

impl<F> EncodeMessage<F> for DisplayError {
    open spec fn encoding(&self) -> (Seq<u8>, Seq<F>) {
        (display_error_wire(self.object_id@, self.code, self.message@), Seq::empty())
    }

    fn encode(self, bag: &mut ArgumentBag<F>) {
        let DisplayError { object_id, code, message } = self;
        object_id.marshal(bag);
        code.marshal(bag);
        message.marshal(bag);
        assert(bag.byte_view() =~= old(bag).byte_view() + display_error_wire(object_id@, code, message@));
        assert(bag.fd_view() =~= old(bag).fd_view() + Seq::<F>::empty());
    }
}

impl<F> DecodeMessage<F> for DisplayError {
    open spec fn decodable(bytes: Seq<u8>, fds: Seq<F>) -> bool {
        display_error_parse_spec(bytes) is Ok
    }

    open spec fn decodes_to(bytes: Seq<u8>, fds: Seq<F>, message: DisplayError) -> bool {
        display_error_parse_spec(bytes) == Ok::<(u32, u32, Seq<char>), DecodeFailure>(
            (message.object_id@, message.code, message.message@),
        )
    }

    open spec fn decode_failure(bytes: Seq<u8>, fds: Seq<F>) -> DecodeFailure {
        display_error_parse_spec(bytes)->Err_0
    }

    fn decode(bag: &mut ArgumentBag<F>) -> (res: Result<DisplayError, DecodeMessageError>) {
        let object_id = match OpaqueObjectId::parse(bag) {
            Ok(id) => id,
            Err(e) => return Err(DecodeMessageError::ParsePrimitive(e)),
        };
        let code = match u32::parse(bag) {
            Ok(code) => code,
            Err(e) => return Err(DecodeMessageError::ParsePrimitive(e)),
        };
        let message = match String::parse(bag) {
            Ok(message) => message,
            Err(e) => return Err(DecodeMessageError::ParsePrimitive(e)),
        };
        Ok(DisplayError { object_id, code, message })
    }
}

/// A `wl_display::delete_id` is the identifier as one word: it encodes to that word, and the
/// word decodes to exactly that identifier, for every identifier.
pub proof fn lemma_delete_id_roundtrip<F>(id: u32)
    ensures
        <DeleteId as EncodeMessage<F>>::encoding(&DeleteId { id }) == (u32_ne_bytes(id), Seq::<F>::empty()),
        <DeleteId as DecodeMessage<F>>::decodable(u32_ne_bytes(id), Seq::empty()),
        forall|m: DeleteId| <DeleteId as DecodeMessage<F>>::decodes_to(u32_ne_bytes(id), Seq::empty(), m) <==> m.id == id,
{
    <u32 as ArgumentRoundtrip>::lemma_roundtrip(id, Seq::empty());
    assert(u32_ne_bytes(id) + Seq::<u8>::empty() =~= u32_ne_bytes(id));
}

/// The arguments of a `wl_display::error` are laid out object first, then code, then
/// message: that is what an error encodes to, and bytes laid out so decode to the object (a
/// non-null one), the code and the message, in that order, for every object, code and message
/// that fits in a byte array.
pub proof fn lemma_display_error_roundtrip<F>(object_id: u32, code: u32, message: Seq<char>)
    requires
        object_id != 0,
        string_encodable(message),
    ensures
        ({
            let bytes = u32_ne_bytes(object_id) + u32_ne_bytes(code) + string_wire(message);
            &&& display_error_parse_spec(bytes) == Ok::<(u32, u32, Seq<char>), DecodeFailure>(
                (object_id, code, message),
            )
            &&& <DisplayError as DecodeMessage<F>>::decodable(bytes, Seq::empty())
            &&& forall|e: DisplayError|
                <DisplayError as DecodeMessage<F>>::decodes_to(bytes, Seq::empty(), e) <==> (e.object_id@
                    == object_id && e.code == code && e.message@ == message)
        }),
        forall|e: DisplayError|
            e.object_id@ == object_id && e.code == code && e.message@ == message ==> <DisplayError as EncodeMessage<
                F,
            >>::encoding(&e) == (u32_ne_bytes(object_id) + u32_ne_bytes(code) + string_wire(message), Seq::<F>::empty()),
{
    let tail = u32_ne_bytes(code) + string_wire(message);
    assert(u32_ne_bytes(object_id) + u32_ne_bytes(code) + string_wire(message) =~= u32_ne_bytes(object_id) + tail);
    <OpaqueObjectId as ArgumentRoundtrip>::lemma_roundtrip(object_id, tail);
    <u32 as ArgumentRoundtrip>::lemma_roundtrip(code, string_wire(message));
    <String as ArgumentRoundtrip>::lemma_roundtrip(message, Seq::empty());
    assert(string_wire(message) + Seq::<u8>::empty() =~= string_wire(message));
}

} // verus!
