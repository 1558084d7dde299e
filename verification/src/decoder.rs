//! Splitting a byte stream into message frames.
use bytes::BytesMut;
use vstd::prelude::*;

use crate::buffer::{bytes_contents, bytes_len, get_u32_ne, split_to};
use crate::opaque::OpaqueMessage;
use crate::wire::{lemma_u32_value_roundtrip, u32_from_ne, u32_ne_bytes};

verus! {

#[verifier::external_type_specification]
#[verifier::external_body]
pub struct ExIoError(std::io::Error);

/// Length of a frame header: the object id word and the size/opcode word.
pub const HEADER_LENGTH: usize = 8;

/// Decodes frames out of a byte stream that may arrive in arbitrary pieces.
pub struct OpaqueMessageDecoder {
    stage: FrameDecoderStage,
}

/// Why a frame could not be decoded.
#[derive(Debug)]
pub enum OpaqueMessageDecodeError {
    /// The message size in a header is smaller than the header itself.
    InvalidSize(usize),
    /// Error received from the underlying I/O stream.
    Io(std::io::Error),
}

/// Where the decoder stands between two calls.
#[derive(Debug, Clone, Copy, PartialEq, Eq, Structural)]
pub enum FrameDecoderStage {
    /// Waiting for the eight bytes of a header.
    WantsHeader,
    /// A header has been read; waiting for the `body_size` bytes of its body.
    WantsBody { object_id: u32, body_size: usize, op_code: u16 },
}

/// What one call of [`OpaqueMessageDecoder::decode`] produces.
pub enum DecodeStep {
    /// Not enough bytes yet; nothing produced.
    Pending,
    /// A whole frame: object id, opcode and body.
    Frame(u32, u16, Seq<u8>),
    /// A header announced this message size, which is smaller than the header.
    InvalidSize(usize),
}

/// Reading the body of a frame whose header has been read.
pub open spec fn body_step(object_id: u32, body_size: usize, op_code: u16, src: Seq<u8>) -> (
    FrameDecoderStage,
    Seq<u8>,
    DecodeStep,
) {
    if src.len() < body_size {
        (FrameDecoderStage::WantsBody { object_id, body_size, op_code }, src, DecodeStep::Pending)
    } else {
        (
            FrameDecoderStage::WantsHeader,
            src.skip(body_size as int),
            DecodeStep::Frame(object_id, op_code, src.take(body_size as int)),
        )
    }
}

/// One call of the decoder in `stage` on the buffered bytes `src`: the next stage, the bytes
/// left in the buffer, and what was produced.
///
/// A header is two host-order words: the object id, then the message size (header included) in
/// the upper 16 bits and the opcode in the lower 16 bits.
pub open spec fn decode_spec(stage: FrameDecoderStage, src: Seq<u8>) -> (FrameDecoderStage, Seq<u8>, DecodeStep) {
    match stage {
        FrameDecoderStage::WantsHeader => if src.len() < HEADER_LENGTH {
            (FrameDecoderStage::WantsHeader, src, DecodeStep::Pending)
        } else {
            let object_id = u32_from_ne(src);
            let word = u32_from_ne(src.skip(4));
            let message_size = (word / 65536) as usize;
            if message_size < HEADER_LENGTH {
                (FrameDecoderStage::WantsHeader, src.skip(8), DecodeStep::InvalidSize(message_size))
            } else {
                body_step(
                    object_id,
                    (message_size - HEADER_LENGTH) as usize,
                    (word % 65536) as u16,
                    src.skip(8),
                )
            }
        },
        FrameDecoderStage::WantsBody { object_id, body_size, op_code } => body_step(
            object_id,
            body_size,
            op_code,
            src,
        ),
    }
}

/// Whether a decode result is what the step describes.
pub open spec fn decode_result_matches(res: Result<Option<OpaqueMessage>, OpaqueMessageDecodeError>, step: DecodeStep) -> bool {
    match (res, step) {
        (Ok(None), DecodeStep::Pending) => true,
        (Ok(Some(frame)), DecodeStep::Frame(object_id, op_code, body)) => frame@ == (object_id, op_code, body),
        (Err(OpaqueMessageDecodeError::InvalidSize(size)), DecodeStep::InvalidSize(expected)) => size == expected,
        _ => false,
    }
}

impl OpaqueMessageDecoder {
    /// The decoder's stage.
    pub closed spec fn stage(&self) -> FrameDecoderStage {
        self.stage
    }

    /// A decoder waiting for a header.
    pub fn new() -> (decoder: Self)
        ensures
            decoder.stage() == FrameDecoderStage::WantsHeader,
    {
        OpaqueMessageDecoder { stage: FrameDecoderStage::WantsHeader }
    }

    /// Decodes the next frame from `src`, consuming its bytes, or returns `None` until enough
    /// bytes have arrived.
    pub fn decode(&mut self, src: &mut BytesMut) -> (res: Result<Option<OpaqueMessage>, OpaqueMessageDecodeError>)
        ensures
            ({
                let (stage, rest, step) = decode_spec(old(self).stage(), bytes_contents(*old(src)));
                &&& final(self).stage() == stage
                &&& bytes_contents(*final(src)) == rest
                &&& decode_result_matches(res, step)
            }),
    {
        match self.stage {
            FrameDecoderStage::WantsHeader => {
                if bytes_len(src) < HEADER_LENGTH {
                    return Ok(None);
                }
                let ghost original = bytes_contents(*src);
                let object_id = get_u32_ne(src);
                let word = get_u32_ne(src);
                assert(bytes_contents(*src) =~= original.skip(8));
                let message_size = (word >> 16) as usize;
                assert(word >> 16 == word / 65536) by (bit_vector);
                if message_size < HEADER_LENGTH {
                    return Err(OpaqueMessageDecodeError::InvalidSize(message_size));
                }
                let body_size = message_size - HEADER_LENGTH;
                let op_code = ((word << 16) >> 16) as u16;
                assert((word << 16) >> 16 == word % 65536) by (bit_vector);
                self.decode_body(src, object_id, body_size, op_code)
            },
            FrameDecoderStage::WantsBody { object_id, body_size, op_code } => self.decode_body(
                src,
                object_id,
                body_size,
                op_code,
            ),
        }
    }

    /// Reads the body announced by a header, or records that it is still awaited.
    fn decode_body(&mut self, src: &mut BytesMut, object_id: u32, body_size: usize, op_code: u16) -> (res: Result<
        Option<OpaqueMessage>,
        OpaqueMessageDecodeError,
    >)
        ensures
            ({
                let (stage, rest, step) = body_step(object_id, body_size, op_code, bytes_contents(*old(src)));
                &&& final(self).stage() == stage
                &&& bytes_contents(*final(src)) == rest
                &&& decode_result_matches(res, step)
            }),
    {
        if bytes_len(src) < body_size {
            self.stage = FrameDecoderStage::WantsBody { object_id, body_size, op_code };
            return Ok(None);
        }
        let body = split_to(src, body_size);
        self.stage = FrameDecoderStage::WantsHeader;
        Ok(Some(OpaqueMessage::new(object_id, op_code, body)))
    }
}

impl Default for OpaqueMessageDecoder {
    fn default() -> (decoder: Self)
        ensures
            decoder.stage() == FrameDecoderStage::WantsHeader,
    {
        OpaqueMessageDecoder::new()
    }
}

impl From<std::io::Error> for OpaqueMessageDecodeError {
    fn from(error: std::io::Error) -> (converted: Self) {
        OpaqueMessageDecodeError::Io(error)
    }
}

impl vstd::std_specs::convert::FromSpecImpl<std::io::Error> for OpaqueMessageDecodeError {
    open spec fn obeys_from_spec() -> bool {
        true
    }

    open spec fn from_spec(error: std::io::Error) -> Self {
        OpaqueMessageDecodeError::Io(error)
    }
}

/// The bytes of a frame: the object id word, the word holding the message size (header
/// included) above the opcode, and the body.
pub open spec fn frame_bytes(object_id: u32, op_code: u16, body: Seq<u8>) -> Seq<u8> {
    u32_ne_bytes(object_id) + u32_ne_bytes(((body.len() + HEADER_LENGTH) * 65536 + op_code) as u32) + body
}

proof fn lemma_header_word(op_code: u16, body_len: nat)
    requires
        body_len + HEADER_LENGTH < 65536,
    ensures
        ({
            let word = ((body_len + HEADER_LENGTH) * 65536 + op_code) as u32;
            &&& word as int == (body_len + HEADER_LENGTH) * 65536 + op_code
            &&& word / 65536 == body_len + HEADER_LENGTH
            &&& word % 65536 == op_code
        }),
{
    let size = body_len + HEADER_LENGTH;
    let op = op_code as int;
    assert(0 <= size * 65536 + op <= u32::MAX && (size * 65536 + op) / 65536 == size && (size * 65536 + op)
        % 65536 == op) by (nonlinear_arith)
        requires
            0 <= size < 65536,
            0 <= op < 65536,
    ;
}

proof fn lemma_header_fields(object_id: u32, op_code: u16, body: Seq<u8>, rest: Seq<u8>)
    requires
        body.len() + HEADER_LENGTH < 65536,
    ensures
        ({
            let all = frame_bytes(object_id, op_code, body) + rest;
            &&& all.len() == 8 + body.len() + rest.len()
            &&& u32_from_ne(all) == object_id
            &&& u32_from_ne(all.skip(4)) / 65536 == body.len() + HEADER_LENGTH
            &&& u32_from_ne(all.skip(4)) % 65536 == op_code
            &&& all.skip(8) == body + rest
        }),
{
    let word = ((body.len() + HEADER_LENGTH) * 65536 + op_code) as u32;
    lemma_header_word(op_code, body.len());
    lemma_u32_value_roundtrip(object_id);
    lemma_u32_value_roundtrip(word);
    let all = frame_bytes(object_id, op_code, body) + rest;
    assert(all.take(4) =~= u32_ne_bytes(object_id));
    assert(all.skip(4).take(4) =~= u32_ne_bytes(word));
    assert(u32_from_ne(all) == u32_from_ne(all.take(4)));
    assert(u32_from_ne(all.skip(4)) == u32_from_ne(all.skip(4).take(4)));
    assert(all.skip(8) =~= body + rest);
}

/// A whole frame at the front of the buffer decodes to its object id, opcode and body, and
/// leaves exactly the bytes that follow it, with the decoder back to waiting for a header.
pub proof fn lemma_decode_whole_frame(object_id: u32, op_code: u16, body: Seq<u8>, rest: Seq<u8>)
    requires
        body.len() + HEADER_LENGTH < 65536,
    ensures
        decode_spec(FrameDecoderStage::WantsHeader, frame_bytes(object_id, op_code, body) + rest) == (
            FrameDecoderStage::WantsHeader,
            rest,
            DecodeStep::Frame(object_id, op_code, body),
        ),
{
    lemma_header_fields(object_id, op_code, body, rest);
    assert((body + rest).take(body.len() as int) =~= body);
    assert((body + rest).skip(body.len() as int) =~= rest);
}

/// A frame that arrives in two pieces, split anywhere inside it, decodes as if it had arrived
/// whole: the first piece produces nothing, and the second completes the frame.
pub proof fn lemma_decode_split_frame(object_id: u32, op_code: u16, body: Seq<u8>, rest: Seq<u8>, split: nat)
    requires
        body.len() + HEADER_LENGTH < 65536,
        split < body.len() + HEADER_LENGTH,
    ensures
        ({
            let all = frame_bytes(object_id, op_code, body) + rest;
            let (stage, buffered, step) = decode_spec(FrameDecoderStage::WantsHeader, all.take(split as int));
            &&& step is Pending
            &&& decode_spec(stage, buffered + all.skip(split as int)) == (
                FrameDecoderStage::WantsHeader,
                rest,
                DecodeStep::Frame(object_id, op_code, body),
            )
        }),
{
    let all = frame_bytes(object_id, op_code, body) + rest;
    lemma_header_fields(object_id, op_code, body, rest);
    lemma_decode_whole_frame(object_id, op_code, body, rest);
    let first = all.take(split as int);
    if split < HEADER_LENGTH {
        assert(first + all.skip(split as int) =~= all);
    } else {
        assert(u32_from_ne(first) == u32_from_ne(all));
        assert(first.skip(4).take(4) =~= all.skip(4).take(4));
        assert(u32_from_ne(first.skip(4)) == u32_from_ne(all.skip(4)));
        assert(first.skip(8) + all.skip(split as int) =~= body + rest);
        assert((body + rest).take(body.len() as int) =~= body);
        assert((body + rest).skip(body.len() as int) =~= rest);
    }
}

/// Where the decoder stands once the first `m` bytes of the frame `all` (not all of it) have
/// been offered to it: waiting for the header with those bytes buffered, or, once the header
/// is in, waiting for the body with the body bytes so far buffered.
pub open spec fn frame_progress(object_id: u32, op_code: u16, body_len: nat, all: Seq<u8>, m: nat) -> (
    FrameDecoderStage,
    Seq<u8>,
) {
    if m < HEADER_LENGTH {
        (FrameDecoderStage::WantsHeader, all.take(m as int))
    } else {
        (FrameDecoderStage::WantsBody { object_id, body_size: body_len as usize, op_code }, all.subrange(8, m as int))
    }
}

/// Offering the pieces in turn, each appended to the buffered bytes and followed by one call
/// of the decoder: the final stage, the bytes left buffered, and what each call produced.
pub open spec fn decode_pieces(stage: FrameDecoderStage, buffered: Seq<u8>, pieces: Seq<Seq<u8>>) -> (
    FrameDecoderStage,
    Seq<u8>,
    Seq<DecodeStep>,
)
    decreases pieces.len(),
{
    if pieces.len() == 0 {
        (stage, buffered, Seq::empty())
    } else {
        let (next, rest, step) = decode_spec(stage, buffered + pieces[0]);
        let (last, left, steps) = decode_pieces(next, rest, pieces.drop_first());
        (last, left, seq![step] + steps)
    }
}

/// `k` calls that produce nothing but the last, which produces the frame.
pub open spec fn pending_then_frame(object_id: u32, op_code: u16, body: Seq<u8>, k: nat) -> Seq<DecodeStep> {
    Seq::new(
        k,
        |i: int|
            if i + 1 < k {
                DecodeStep::Pending
            } else {
                DecodeStep::Frame(object_id, op_code, body)
            },
    )
}

proof fn lemma_flatten_len_last(pieces: Seq<Seq<u8>>)
    requires
        pieces.len() > 0,
    ensures
        pieces.flatten().len() >= pieces.last().len(),
    decreases pieces.len(),
{
    if pieces.len() > 1 {
        lemma_flatten_len_last(pieces.drop_first());
        assert(pieces.drop_first().last() == pieces.last());
    }
}

/// One more stretch of the frame arrives and the decoder is called once: nothing is produced
/// until the whole frame is in, and then the frame is, with nothing left buffered.
proof fn lemma_frame_stretch(object_id: u32, op_code: u16, body: Seq<u8>, m: nat, m2: nat)
    requires
        body.len() + HEADER_LENGTH < 65536,
        m <= m2 <= frame_bytes(object_id, op_code, body).len(),
        m < frame_bytes(object_id, op_code, body).len(),
    ensures
        ({
            let all = frame_bytes(object_id, op_code, body);
            let (stage, buffered) = frame_progress(object_id, op_code, body.len(), all, m);
            decode_spec(stage, buffered + all.subrange(m as int, m2 as int)) == if m2 < all.len() {
                (
                    frame_progress(object_id, op_code, body.len(), all, m2).0,
                    frame_progress(object_id, op_code, body.len(), all, m2).1,
                    DecodeStep::Pending,
                )
            } else {
                (FrameDecoderStage::WantsHeader, Seq::<u8>::empty(), DecodeStep::Frame(object_id, op_code, body))
            }
        }),
{
    let all = frame_bytes(object_id, op_code, body);
    lemma_header_fields(object_id, op_code, body, Seq::empty());
    assert(all + Seq::<u8>::empty() =~= all);
    let n = body.len();
    if m < HEADER_LENGTH {
        let got = all.take(m2 as int);
        assert(all.take(m as int) + all.subrange(m as int, m2 as int) =~= got);
        if m2 >= HEADER_LENGTH {
            assert(u32_from_ne(got) == u32_from_ne(all));
            assert(got.skip(4).take(4) =~= all.skip(4).take(4));
            assert(u32_from_ne(got.skip(4)) == u32_from_ne(all.skip(4)));
            assert(got.skip(8) =~= all.subrange(8, m2 as int));
            if m2 == all.len() {
                assert(all.subrange(8, m2 as int) =~= body);
                assert(body.take(n as int) =~= body);
                assert(body.skip(n as int) =~= Seq::<u8>::empty());
            }
        }
    } else {
        assert(all.subrange(8, m as int) + all.subrange(m as int, m2 as int) =~= all.subrange(8, m2 as int));
        if m2 == all.len() {
            assert(all.subrange(8, m2 as int) =~= body);
            assert(body.take(n as int) =~= body);
            assert(body.skip(n as int) =~= Seq::<u8>::empty());
        }
    }
}

proof fn lemma_frame_pieces_from(object_id: u32, op_code: u16, body: Seq<u8>, m: nat, pieces: Seq<Seq<u8>>)
    requires
        body.len() + HEADER_LENGTH < 65536,
        m < frame_bytes(object_id, op_code, body).len(),
        pieces.len() > 0,
        pieces.flatten() == frame_bytes(object_id, op_code, body).skip(m as int),
        pieces.last().len() > 0,
    ensures
        ({
            let all = frame_bytes(object_id, op_code, body);
            let (stage, buffered) = frame_progress(object_id, op_code, body.len(), all, m);
            decode_pieces(stage, buffered, pieces) == (
                FrameDecoderStage::WantsHeader,
                Seq::<u8>::empty(),
                pending_then_frame(object_id, op_code, body, pieces.len()),
            )
        }),
    decreases pieces.len(),
{
    let all = frame_bytes(object_id, op_code, body);
    let p0 = pieces[0];
    let tail = pieces.drop_first();
    let m2 = m + p0.len();
    assert(pieces.flatten() == p0 + tail.flatten());
    assert(m2 <= all.len());
    assert(p0 =~= all.subrange(m as int, m2 as int));
    lemma_frame_stretch(object_id, op_code, body, m, m2);
    let (stage, buffered) = frame_progress(object_id, op_code, body.len(), all, m);
    if pieces.len() == 1 {
        assert(tail.flatten() =~= Seq::<u8>::empty());
        assert(m2 == all.len());
        assert(pending_then_frame(object_id, op_code, body, 1) =~= seq![DecodeStep::Frame(object_id, op_code, body)]);
        assert(decode_pieces(FrameDecoderStage::WantsHeader, Seq::<u8>::empty(), tail).2 =~= Seq::<DecodeStep>::empty());
    } else {
        lemma_flatten_len_last(tail);
        assert(tail.last() == pieces.last());
        assert(tail.flatten().len() > 0);
        assert((p0 + tail.flatten()).len() == p0.len() + tail.flatten().len());
        assert(all.skip(m as int).len() == all.len() - m);
        assert(m2 < all.len());
        let tf = tail.flatten();
        assert forall|i: int| 0 <= i < tf.len() implies tf[i] == all.skip(m2 as int)[i] by {
            assert((p0 + tf)[p0.len() + i] == tf[i]);
            assert(all.skip(m as int)[p0.len() + i] == all[m + p0.len() + i]);
        }
        assert(tf =~= all.skip(m2 as int));
        lemma_frame_pieces_from(object_id, op_code, body, m2, tail);
        assert(pending_then_frame(object_id, op_code, body, pieces.len()) =~= seq![DecodeStep::Pending]
            + pending_then_frame(object_id, op_code, body, tail.len()));
    }
}

/// A frame offered in any number of pieces, the last of them not empty, with one call of the
/// decoder after each: every call but the last produces nothing, the last produces the frame,
/// and nothing is left buffered, exactly as when the frame arrives whole.
pub proof fn lemma_decode_frame_in_pieces(object_id: u32, op_code: u16, body: Seq<u8>, pieces: Seq<Seq<u8>>)
    requires
        body.len() + HEADER_LENGTH < 65536,
        pieces.len() > 0,
        pieces.flatten() == frame_bytes(object_id, op_code, body),
        pieces.last().len() > 0,
    ensures
        decode_pieces(FrameDecoderStage::WantsHeader, Seq::empty(), pieces) == (
            FrameDecoderStage::WantsHeader,
            Seq::<u8>::empty(),
            pending_then_frame(object_id, op_code, body, pieces.len()),
        ),
{
    let all = frame_bytes(object_id, op_code, body);
    lemma_header_fields(object_id, op_code, body, Seq::empty());
    assert(all.skip(0) =~= all);
    assert(all.take(0) =~= Seq::<u8>::empty());
    lemma_frame_pieces_from(object_id, op_code, body, 0, pieces);
}

/// The header is the object id word, then a word holding the message size (header included)
/// above the opcode: with fewer than eight bytes nothing happens; a size of at least eight
/// gives the frame of that object and opcode whose body is the next `size - 8` bytes, leaving
/// the rest; a size below eight is refused with that size, the header consumed.
pub proof fn lemma_frame_layout(object_id: u32, op_code: u16, size: nat, body: Seq<u8>, rest: Seq<u8>, short: Seq<u8>)
    requires
        size < 65536,
    ensures
        short.len() < 8 ==> decode_spec(FrameDecoderStage::WantsHeader, short) == (
            FrameDecoderStage::WantsHeader,
            short,
            DecodeStep::Pending,
        ),
        size >= 8 && body.len() == size - 8 ==> decode_spec(
            FrameDecoderStage::WantsHeader,
            u32_ne_bytes(object_id) + u32_ne_bytes((size * 65536 + op_code) as u32) + body + rest,
        ) == (FrameDecoderStage::WantsHeader, rest, DecodeStep::Frame(object_id, op_code, body)),
        size < 8 ==> decode_spec(
            FrameDecoderStage::WantsHeader,
            u32_ne_bytes(object_id) + u32_ne_bytes((size * 65536 + op_code) as u32) + rest,
        ) == (FrameDecoderStage::WantsHeader, rest, DecodeStep::InvalidSize(size as usize)),
{
    if size >= 8 && body.len() == size - 8 {
        lemma_decode_whole_frame(object_id, op_code, body, rest);
    }
    if size < 8 {
        let word = (size * 65536 + op_code) as u32;
        let s = size as int;
        let op = op_code as int;
        assert(0 <= s * 65536 + op <= u32::MAX && (s * 65536 + op) / 65536 == s) by (nonlinear_arith)
            requires
                0 <= s < 8,
                0 <= op < 65536,
        ;
        lemma_u32_value_roundtrip(object_id);
        lemma_u32_value_roundtrip(word);
        let all = u32_ne_bytes(object_id) + u32_ne_bytes(word) + rest;
        assert(all.take(4) =~= u32_ne_bytes(object_id));
        assert(all.skip(4).take(4) =~= u32_ne_bytes(word));
        assert(u32_from_ne(all) == u32_from_ne(all.take(4)));
        assert(u32_from_ne(all.skip(4)) == u32_from_ne(all.skip(4).take(4)));
        assert(all.skip(8) =~= rest);
    }
}

} // verus!
