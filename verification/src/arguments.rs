//! Layer 2 of the codec: primitive message arguments and their wire encoding.
use std::collections::VecDeque;
use std::string::FromUtf8Error;

use bytes::BytesMut;
use vstd::prelude::*;

use crate::buffer::{
    advance, bytes_contents, bytes_len, extend_from_slice, max_buffer_len, put_bytes, put_i32_ne,
    put_u32_ne, split_to, to_vec, try_get_i32_ne, try_get_u32_ne,
};
use crate::fixed::{i24_be_bytes, i24_from_be, i24_from_be_bytes, i24_to_be_bytes, lemma_i24_roundtrip, Fixed, I24_MAX, I24_MIN};
use crate::object_id::{NewObjectId, ObjectId, OpaqueNewObjectId, OpaqueObjectId};
use crate::utf8::string_from_utf8;
use vstd::utf8::{decode_utf8, encode_utf8, encode_utf8_decode_utf8, encode_utf8_valid_utf8, valid_utf8};
use crate::wire::{
    i32_from_ne, i32_ne_bytes, lemma_i32_value_roundtrip, lemma_padding, lemma_u32_bytes_roundtrip,
    lemma_u32_value_roundtrip, padding, spec_padding, u32_be_bytes, u32_from_be, u32_from_be_array, u32_from_ne,
    u32_ne_bytes, u32_to_be_array,
};

verus! {

/// A bag for placing and removing arguments from: the argument bytes of a message and the file
/// descriptors that travel beside them, in order.
pub struct ArgumentBag<F> {
    pub(crate) bytes: BytesMut,
    pub(crate) fd_buffer: VecDeque<F>,
}

/// Why an argument could not be decoded.
#[derive(Debug)]
pub enum ArgumentDecodeError {
    /// Not enough bytes left in argument buffer in order to decode the next argument.
    NotEnoughBytesLeft,
    /// Unable to convert message bytes to an UTF-8 string.
    FromUtf8(FromUtf8Error),
    /// Expected a string, received null.
    MissingString,
    /// Expected an object id, received null.
    MissingObjectId,
    /// No file descriptor found.
    MissingFd,
}

/// The kind of an [`ArgumentDecodeError`], without its payload.
#[derive(Debug, Clone, Copy, PartialEq, Eq, Structural)]
pub enum DecodeFailure {
    /// The bytes ran out before the argument did.
    NotEnoughBytesLeft,
    /// A string's bytes were not UTF-8.
    FromUtf8,
    /// A null where a string was expected.
    MissingString,
    /// A null where an object id was expected.
    MissingObjectId,
    /// No file descriptor was left.
    MissingFd,
}

impl ArgumentDecodeError {
    /// The kind of this error.
    pub open spec fn failure(&self) -> DecodeFailure {
        match self {
            ArgumentDecodeError::NotEnoughBytesLeft => DecodeFailure::NotEnoughBytesLeft,
            ArgumentDecodeError::FromUtf8(_) => DecodeFailure::FromUtf8,
            ArgumentDecodeError::MissingString => DecodeFailure::MissingString,
            ArgumentDecodeError::MissingObjectId => DecodeFailure::MissingObjectId,
            ArgumentDecodeError::MissingFd => DecodeFailure::MissingFd,
        }
    }
}

/// The outcome of a parse, with the value by its model and the error by its kind.
pub open spec fn outcome<T: DeepView>(res: Result<T, ArgumentDecodeError>) -> Result<T::V, DecodeFailure> {
    match res {
        Ok(v) => Ok(v.deep_view()),
        Err(e) => Err(e.failure()),
    }
}

impl<F> ArgumentBag<F> {
    /// The argument bytes not yet parsed.
    pub closed spec fn byte_view(&self) -> Seq<u8> {
        bytes_contents(self.bytes)
    }

    /// The file descriptors not yet parsed, first one first.
    pub closed spec fn fd_view(&self) -> Seq<F> {
        self.fd_buffer@
    }

    /// A bag over the given bytes and file descriptors.
    pub fn new(bytes: BytesMut, fd_buffer: VecDeque<F>) -> (bag: Self)
        ensures
            bag.byte_view() == bytes_contents(bytes),
            bag.fd_view() == fd_buffer@,
    {
        ArgumentBag { bytes, fd_buffer }
    }

    /// Gives back the bytes and file descriptors.
    pub fn into_parts(self) -> (parts: (BytesMut, VecDeque<F>))
        ensures
            bytes_contents(parts.0) == self.byte_view(),
            parts.1@ == self.fd_view(),
    {
        (self.bytes, self.fd_buffer)
    }

    /// The argument bytes not yet parsed.
    pub fn bytes(&self) -> (bytes: &BytesMut)
        ensures
            bytes_contents(*bytes) == self.byte_view(),
    {
        &self.bytes
    }

    /// The file descriptors not yet parsed.
    pub fn fd_buffer(&self) -> (fds: &VecDeque<F>)
        ensures
            fds@ == self.fd_view(),
    {
        &self.fd_buffer
    }

    /// Number of argument bytes not yet parsed.
    pub fn remaining(&self) -> (len: usize)
        ensures
            len == self.byte_view().len(),
    {
        bytes_len(&self.bytes)
    }

    /// Places a file descriptor argument after those already in the bag.
    pub fn marshal_fd(&mut self, fd: F)
        ensures
            final(self).fd_view() == old(self).fd_view().push(fd),
            final(self).byte_view() == old(self).byte_view(),
    {
        self.fd_buffer.push_back(fd);
    }

    /// Takes the first file descriptor argument out of the bag.
    pub fn parse_fd(&mut self) -> (res: Result<F, ArgumentDecodeError>)
        ensures
            old(self).fd_view().len() == 0 ==> (res matches Err(ArgumentDecodeError::MissingFd))
                && final(self).fd_view() == old(self).fd_view(),
            old(self).fd_view().len() > 0 ==> res == Ok::<F, ArgumentDecodeError>(old(self).fd_view()[0])
                && final(self).fd_view() == old(self).fd_view().drop_first(),
            final(self).byte_view() == old(self).byte_view(),
    {
        match self.fd_buffer.pop_front() {
            Some(fd) => Ok(fd),
            None => Err(ArgumentDecodeError::MissingFd),
        }
    }
}

/// Convert primitive arguments to raw message bytes.
pub trait MarshalArgument: Sized + DeepView {
    /// The bytes that marshalling a value with model `v` appends.
    spec fn wire(v: Self::V) -> Seq<u8>;

    /// Appends the encoding of `self` to the bag's bytes.
    fn marshal<F>(self, bag: &mut ArgumentBag<F>)
        requires
            old(bag).byte_view().len() + Self::wire(self.deep_view()).len() <= max_buffer_len(),
        ensures
            final(bag).byte_view() == old(bag).byte_view() + Self::wire(self.deep_view()),
            final(bag).fd_view() == old(bag).fd_view(),
    ;
}

/// Convert raw message bytes to primitive arguments.
pub trait ParseArgument: Sized + DeepView {
    /// What parsing the start of `bytes` gives, and the bytes it leaves.
    spec fn parse_spec(bytes: Seq<u8>) -> (Result<Self::V, DecodeFailure>, Seq<u8>);

    /// Takes one argument off the front of the bag's bytes.
    fn parse<F>(bag: &mut ArgumentBag<F>) -> (res: Result<Self, ArgumentDecodeError>)
        ensures
            outcome(res) == Self::parse_spec(old(bag).byte_view()).0,
            final(bag).byte_view() == Self::parse_spec(old(bag).byte_view()).1,
            final(bag).fd_view() == old(bag).fd_view(),
    ;
}

/// Arguments whose encoding parses back to the value it encodes.
pub trait ArgumentRoundtrip: MarshalArgument + ParseArgument {
    /// The values that survive the trip.
    spec fn encodable(v: <Self as DeepView>::V) -> bool;

    /// Parsing what marshalling `v` wrote, followed by any bytes, gives `v` back and leaves
    /// exactly the bytes that followed.
    proof fn lemma_roundtrip(v: <Self as DeepView>::V, rest: Seq<u8>)
        requires
            Self::encodable(v),
        ensures
            Self::parse_spec(<Self as MarshalArgument>::wire(v) + rest) == (
            Ok::<<Self as DeepView>::V, DecodeFailure>(v),
            rest,
            ),
    ;
}

/// Parsing a word: the host-order integer of the first four bytes.
pub open spec fn u32_parse_spec(bytes: Seq<u8>) -> (Result<u32, DecodeFailure>, Seq<u8>) {
    if bytes.len() < 4 {
        (Err(DecodeFailure::NotEnoughBytesLeft), bytes)
    } else {
        (Ok(u32_from_ne(bytes)), bytes.skip(4))
    }
}

proof fn lemma_word_prefix(v: u32, rest: Seq<u8>)
    ensures
        (u32_ne_bytes(v) + rest).len() >= 4,
        u32_from_ne(u32_ne_bytes(v) + rest) == v,
        (u32_ne_bytes(v) + rest).skip(4) == rest,
        u32_parse_spec(u32_ne_bytes(v) + rest) == (Ok::<u32, DecodeFailure>(v), rest),
{
    lemma_u32_value_roundtrip(v);
    let w = u32_ne_bytes(v);
    assert((w + rest).skip(4) =~= rest);
    assert(u32_from_ne(w + rest) == u32_from_ne(w));
}

impl MarshalArgument for u32 {
    open spec fn wire(v: u32) -> Seq<u8> {
        u32_ne_bytes(v)
    }

    fn marshal<F>(self, bag: &mut ArgumentBag<F>) {
        proof {
            lemma_u32_value_roundtrip(self);
        }
        put_u32_ne(&mut bag.bytes, self);
    }
}

impl ParseArgument for u32 {
    open spec fn parse_spec(bytes: Seq<u8>) -> (Result<u32, DecodeFailure>, Seq<u8>) {
        u32_parse_spec(bytes)
    }

    fn parse<F>(bag: &mut ArgumentBag<F>) -> (res: Result<u32, ArgumentDecodeError>) {
        match try_get_u32_ne(&mut bag.bytes) {
            Ok(v) => Ok(v),
            Err(_) => Err(ArgumentDecodeError::NotEnoughBytesLeft),
        }
    }
}

impl ArgumentRoundtrip for u32 {
    open spec fn encodable(v: u32) -> bool {
        true
    }

    proof fn lemma_roundtrip(v: u32, rest: Seq<u8>) {
        lemma_word_prefix(v, rest);
    }
}

impl MarshalArgument for i32 {
    open spec fn wire(v: i32) -> Seq<u8> {
        i32_ne_bytes(v)
    }

    fn marshal<F>(self, bag: &mut ArgumentBag<F>) {
        proof {
            lemma_i32_value_roundtrip(self);
        }
        put_i32_ne(&mut bag.bytes, self);
    }
}

impl ParseArgument for i32 {
    open spec fn parse_spec(bytes: Seq<u8>) -> (Result<i32, DecodeFailure>, Seq<u8>) {
        if bytes.len() < 4 {
            (Err(DecodeFailure::NotEnoughBytesLeft), bytes)
        } else {
            (Ok(i32_from_ne(bytes)), bytes.skip(4))
        }
    }

    fn parse<F>(bag: &mut ArgumentBag<F>) -> (res: Result<i32, ArgumentDecodeError>) {
        match try_get_i32_ne(&mut bag.bytes) {
            Ok(v) => Ok(v),
            Err(_) => Err(ArgumentDecodeError::NotEnoughBytesLeft),
        }
    }
}

impl ArgumentRoundtrip for i32 {
    open spec fn encodable(v: i32) -> bool {
        true
    }

    proof fn lemma_roundtrip(v: i32, rest: Seq<u8>) {
        lemma_i32_value_roundtrip(v);
        lemma_word_prefix(v as u32, rest);
    }
}


/// The 32-bit word a fixed-point value with model `v` travels as: the three big-endian bytes of
/// its integer part followed by its fraction byte, read most significant first.
pub open spec fn fixed_bits(v: (i32, u8)) -> u32 {
    u32_from_be(i24_be_bytes(v.0).push(v.1))
}

/// The fixed-point model a 32-bit word decodes to.
pub open spec fn fixed_from_bits(bits: u32) -> (i32, u8) {
    (i24_from_be(u32_be_bytes(bits)), u32_be_bytes(bits)[3])
}

proof fn lemma_i24_from_be_in_range(b: Seq<u8>)
    requires
        b.len() >= 3,
    ensures
        I24_MIN <= i24_from_be(b) <= I24_MAX,
{
    let (b0, b1, b2) = (b[0] as int, b[1] as int, b[2] as int);
    assert(0 <= 65536 * b0 + 256 * b1 + b2 < 16777216) by (nonlinear_arith)
        requires
            0 <= b0 < 256,
            0 <= b1 < 256,
            0 <= b2 < 256,
    ;
}

impl MarshalArgument for Fixed {
    open spec fn wire(v: (i32, u8)) -> Seq<u8> {
        u32_ne_bytes(fixed_bits(v))
    }

    fn marshal<F>(self, bag: &mut ArgumentBag<F>) {
        let integer_bytes = i24_to_be_bytes(self.integer());
        let decimal = self.decimal();
        let bits = u32_from_be_array([integer_bytes[0], integer_bytes[1], integer_bytes[2], decimal]);
        proof {
            assert(seq![integer_bytes[0], integer_bytes[1], integer_bytes[2], decimal] =~= i24_be_bytes(
                self.deep_view().0,
            ).push(self.deep_view().1));
        }
        bits.marshal(bag);
    }
}

impl ParseArgument for Fixed {
    open spec fn parse_spec(bytes: Seq<u8>) -> (Result<(i32, u8), DecodeFailure>, Seq<u8>) {
        match u32_parse_spec(bytes) {
            (Ok(bits), rest) => (Ok(fixed_from_bits(bits)), rest),
            (Err(e), rest) => (Err(e), rest),
        }
    }

    fn parse<F>(bag: &mut ArgumentBag<F>) -> (res: Result<Fixed, ArgumentDecodeError>) {
        let bits = match u32::parse(bag) {
            Ok(bits) => bits,
            Err(e) => return Err(e),
        };
        let inner = u32_to_be_array(bits);
        let integer = i24_from_be_bytes([inner[0], inner[1], inner[2]]);
        proof {
            assert(seq![inner[0], inner[1], inner[2]] =~= inner@.take(3));
            lemma_i24_from_be_in_range(inner@);
        }
        Ok(Fixed::from_parts(integer, inner[3]))
    }
}

impl ArgumentRoundtrip for Fixed {
    open spec fn encodable(v: (i32, u8)) -> bool {
        I24_MIN <= v.0 <= I24_MAX
    }

    proof fn lemma_roundtrip(v: (i32, u8), rest: Seq<u8>) {
        let b = i24_be_bytes(v.0).push(v.1);
        lemma_i24_roundtrip(v.0);
        lemma_u32_bytes_roundtrip(b);
        lemma_word_prefix(fixed_bits(v), rest);
        assert(u32_be_bytes(fixed_bits(v)) == b);
        assert(b.take(3) =~= i24_be_bytes(v.0));
        assert(i24_from_be(b) == i24_from_be(i24_be_bytes(v.0)));
    }
}

/// The raw identifier an optional identifier travels as: zero for `None`.
pub open spec fn optional_id_raw(v: Option<u32>) -> u32 {
    match v {
        Some(raw) => raw,
        None => 0,
    }
}

/// Parsing an optional identifier: a word, with zero read as `None`.
pub open spec fn optional_id_parse_spec(bytes: Seq<u8>) -> (Result<Option<u32>, DecodeFailure>, Seq<u8>) {
    match u32_parse_spec(bytes) {
        (Ok(raw), rest) => (Ok(if raw == 0 { None } else { Some(raw) }), rest),
        (Err(e), rest) => (Err(e), rest),
    }
}

/// Parsing a required identifier: a word, with zero rejected as a missing object id.
pub open spec fn id_parse_spec(bytes: Seq<u8>) -> (Result<u32, DecodeFailure>, Seq<u8>) {
    match optional_id_parse_spec(bytes) {
        (Ok(Some(raw)), rest) => (Ok(raw), rest),
        (Ok(None), rest) => (Err(DecodeFailure::MissingObjectId), rest),
        (Err(e), rest) => (Err(e), rest),
    }
}

fn parse_optional_raw_id<F>(bag: &mut ArgumentBag<F>) -> (res: Result<Option<u32>, ArgumentDecodeError>)
    ensures
        outcome(res) == optional_id_parse_spec(old(bag).byte_view()).0,
        final(bag).byte_view() == optional_id_parse_spec(old(bag).byte_view()).1,
        final(bag).fd_view() == old(bag).fd_view(),
{
    match u32::parse(bag) {
        Ok(raw) => Ok(if raw == 0 { None } else { Some(raw) }),
        Err(e) => Err(e),
    }
}

fn parse_raw_id<F>(bag: &mut ArgumentBag<F>) -> (res: Result<u32, ArgumentDecodeError>)
    ensures
        outcome(res) == id_parse_spec(old(bag).byte_view()).0,
        final(bag).byte_view() == id_parse_spec(old(bag).byte_view()).1,
        final(bag).fd_view() == old(bag).fd_view(),
{
    match parse_optional_raw_id(bag) {
        Ok(Some(raw)) => Ok(raw),
        Ok(None) => Err(ArgumentDecodeError::MissingObjectId),
        Err(e) => Err(e),
    }
}

impl MarshalArgument for Option<OpaqueObjectId> {
    open spec fn wire(v: Option<u32>) -> Seq<u8> {
        u32_ne_bytes(optional_id_raw(v))
    }

    fn marshal<F>(self, bag: &mut ArgumentBag<F>) {
        let raw = match self {
            Some(id) => id.0,
            None => 0,
        };
        raw.marshal(bag);
    }
}

impl ParseArgument for Option<OpaqueObjectId> {
    open spec fn parse_spec(bytes: Seq<u8>) -> (Result<Option<u32>, DecodeFailure>, Seq<u8>) {
        optional_id_parse_spec(bytes)
    }

    fn parse<F>(bag: &mut ArgumentBag<F>) -> (res: Result<Option<OpaqueObjectId>, ArgumentDecodeError>) {
        match parse_optional_raw_id(bag) {
            Ok(Some(raw)) => Ok(Some(OpaqueObjectId(raw))),
            Ok(None) => Ok(None),
            Err(e) => Err(e),
        }
    }
}

impl ArgumentRoundtrip for Option<OpaqueObjectId> {
    open spec fn encodable(v: Option<u32>) -> bool {
        v != Some(0u32)
    }

    proof fn lemma_roundtrip(v: Option<u32>, rest: Seq<u8>) {
        lemma_word_prefix(optional_id_raw(v), rest);
    }
}

impl MarshalArgument for OpaqueObjectId {
    open spec fn wire(v: u32) -> Seq<u8> {
        u32_ne_bytes(v)
    }

    fn marshal<F>(self, bag: &mut ArgumentBag<F>) {
        self.0.marshal(bag);
    }
}

impl ParseArgument for OpaqueObjectId {
    open spec fn parse_spec(bytes: Seq<u8>) -> (Result<u32, DecodeFailure>, Seq<u8>) {
        id_parse_spec(bytes)
    }

    fn parse<F>(bag: &mut ArgumentBag<F>) -> (res: Result<OpaqueObjectId, ArgumentDecodeError>) {
        match parse_raw_id(bag) {
            Ok(raw) => Ok(OpaqueObjectId(raw)),
            Err(e) => Err(e),
        }
    }
}

impl ArgumentRoundtrip for OpaqueObjectId {
    open spec fn encodable(v: u32) -> bool {
        v != 0
    }

    proof fn lemma_roundtrip(v: u32, rest: Seq<u8>) {
        lemma_word_prefix(v, rest);
    }
}

impl<E> MarshalArgument for ObjectId<E> {
    open spec fn wire(v: u32) -> Seq<u8> {
        u32_ne_bytes(v)
    }

    fn marshal<F>(self, bag: &mut ArgumentBag<F>) {
        self.inner().marshal(bag);
    }
}

impl<E> ParseArgument for ObjectId<E> {
    open spec fn parse_spec(bytes: Seq<u8>) -> (Result<u32, DecodeFailure>, Seq<u8>) {
        id_parse_spec(bytes)
    }

    fn parse<F>(bag: &mut ArgumentBag<F>) -> (res: Result<ObjectId<E>, ArgumentDecodeError>) {
        match parse_raw_id(bag) {
            Ok(raw) => Ok(ObjectId::new_unchecked(raw)),
            Err(e) => Err(e),
        }
    }
}

impl<E> ArgumentRoundtrip for ObjectId<E> {
    open spec fn encodable(v: u32) -> bool {
        v != 0
    }

    proof fn lemma_roundtrip(v: u32, rest: Seq<u8>) {
        lemma_word_prefix(v, rest);
    }
}

impl<E> MarshalArgument for Option<ObjectId<E>> {
    open spec fn wire(v: Option<u32>) -> Seq<u8> {
        u32_ne_bytes(optional_id_raw(v))
    }

    fn marshal<F>(self, bag: &mut ArgumentBag<F>) {
        let raw = match self {
            Some(id) => id.inner(),
            None => 0,
        };
        raw.marshal(bag);
    }
}

impl<E> ParseArgument for Option<ObjectId<E>> {
    open spec fn parse_spec(bytes: Seq<u8>) -> (Result<Option<u32>, DecodeFailure>, Seq<u8>) {
        optional_id_parse_spec(bytes)
    }

    fn parse<F>(bag: &mut ArgumentBag<F>) -> (res: Result<Option<ObjectId<E>>, ArgumentDecodeError>) {
        match parse_optional_raw_id(bag) {
            Ok(Some(raw)) => Ok(Some(ObjectId::new_unchecked(raw))),
            Ok(None) => Ok(None),
            Err(e) => Err(e),
        }
    }
}

impl<E> ArgumentRoundtrip for Option<ObjectId<E>> {
    open spec fn encodable(v: Option<u32>) -> bool {
        v != Some(0u32)
    }

    proof fn lemma_roundtrip(v: Option<u32>, rest: Seq<u8>) {
        lemma_word_prefix(optional_id_raw(v), rest);
    }
}

impl<E, I> MarshalArgument for NewObjectId<E, I> {
    open spec fn wire(v: u32) -> Seq<u8> {
        u32_ne_bytes(v)
    }

    fn marshal<F>(self, bag: &mut ArgumentBag<F>) {
        self.id().marshal(bag);
    }
}

impl<E, I> ParseArgument for NewObjectId<E, I> {
    open spec fn parse_spec(bytes: Seq<u8>) -> (Result<u32, DecodeFailure>, Seq<u8>) {
        id_parse_spec(bytes)
    }

    fn parse<F>(bag: &mut ArgumentBag<F>) -> (res: Result<NewObjectId<E, I>, ArgumentDecodeError>) {
        match ObjectId::<E>::parse(bag) {
            Ok(id) => Ok(NewObjectId::new(id)),
            Err(e) => Err(e),
        }
    }
}

impl<E, I> ArgumentRoundtrip for NewObjectId<E, I> {
    open spec fn encodable(v: u32) -> bool {
        v != 0
    }

    proof fn lemma_roundtrip(v: u32, rest: Seq<u8>) {
        lemma_word_prefix(v, rest);
    }
}

/// `n` zero bytes.
pub open spec fn zeros(n: nat) -> Seq<u8> {
    Seq::new(n, |_i: int| 0u8)
}

/// The encoding of a byte array: its length as a word, its bytes, and zero padding up to a
/// whole number of words. The length is truncated to 32 bits, as the marshalling code does.
pub open spec fn byte_array_wire(v: Seq<u8>) -> Seq<u8> {
    u32_ne_bytes(v.len() as u32) + v + zeros(spec_padding(v.len()))
}

/// Parsing the body of a byte array of `length` bytes: the bytes, then their padding.
pub open spec fn byte_array_body_spec(length: nat, bytes: Seq<u8>) -> (Result<Seq<u8>, DecodeFailure>, Seq<u8>) {
    if bytes.len() < length + spec_padding(length) {
        (Err(DecodeFailure::NotEnoughBytesLeft), bytes)
    } else {
        (Ok(bytes.take(length as int)), bytes.skip((length + spec_padding(length)) as int))
    }
}

/// Parsing a byte array: its length as a word, then that many bytes and their padding.
pub open spec fn byte_array_parse_spec(bytes: Seq<u8>) -> (Result<Seq<u8>, DecodeFailure>, Seq<u8>) {
    match u32_parse_spec(bytes) {
        (Err(e), rest) => (Err(e), rest),
        (Ok(length), rest) => byte_array_body_spec(length as nat, rest),
    }
}

fn parse_vec_impl<F>(length: usize, bag: &mut ArgumentBag<F>) -> (res: Result<Vec<u8>, ArgumentDecodeError>)
    ensures
        match (res, byte_array_body_spec(length as nat, old(bag).byte_view()).0) {
            (Ok(v), Ok(expected)) => v@ == expected,
            (Err(e), Err(expected)) => e.failure() == expected,
            _ => false,
        },
        final(bag).byte_view() == byte_array_body_spec(length as nat, old(bag).byte_view()).1,
        final(bag).fd_view() == old(bag).fd_view(),
{
    let padding = padding(length);
    let available = bytes_len(&bag.bytes);
    if length > available || available - length < padding {
        return Err(ArgumentDecodeError::NotEnoughBytesLeft);
    }
    let head = split_to(&mut bag.bytes, length);
    let vec = to_vec(&head);
    advance(&mut bag.bytes, padding);
    proof {
        assert(bytes_contents(bag.bytes) =~= old(bag).byte_view().skip((length + padding) as int));
    }
    Ok(vec)
}

proof fn lemma_byte_array_prefix(v: Seq<u8>, rest: Seq<u8>)
    requires
        v.len() <= u32::MAX,
    ensures
        ({
            let w = byte_array_wire(v) + rest;
            &&& w.len() >= 4
            &&& u32_parse_spec(w) == (Ok::<u32, DecodeFailure>(v.len() as u32), v + zeros(spec_padding(v.len())) + rest)
            &&& byte_array_body_spec(v.len(), v + zeros(spec_padding(v.len())) + rest) == (
            Ok::<Seq<u8>, DecodeFailure>(v),
            rest,
            )
        }),
{
    let body = v + zeros(spec_padding(v.len())) + rest;
    lemma_word_prefix(v.len() as u32, body);
    assert(byte_array_wire(v) + rest =~= u32_ne_bytes(v.len() as u32) + body);
    assert(body.take(v.len() as int) =~= v);
    assert(body.skip((v.len() + spec_padding(v.len())) as int) =~= rest);
}

/// Every byte array, and so every string, fills a whole number of words.
pub proof fn lemma_byte_array_wire_aligned(v: Seq<u8>)
    ensures
        byte_array_wire(v).len() % 4 == 0,
        byte_array_wire(v).len() == 4 + v.len() + spec_padding(v.len()),
{
    lemma_u32_value_roundtrip(v.len() as u32);
    lemma_padding(v.len());
}

impl MarshalArgument for Vec<u8> {
    open spec fn wire(v: Seq<u8>) -> Seq<u8> {
        byte_array_wire(v)
    }

    fn marshal<F>(self, bag: &mut ArgumentBag<F>) {
        proof {
            assert(self.deep_view() =~= self@);
            lemma_u32_value_roundtrip(self.len() as u32);
        }
        let length = self.len();
        put_u32_ne(&mut bag.bytes, length as u32);
        extend_from_slice(&mut bag.bytes, self.as_slice());
        put_bytes(&mut bag.bytes, 0, padding(length));
        proof {
            assert(Seq::new(spec_padding(length as nat), |_i: int| 0u8) =~= zeros(spec_padding(self@.len())));
        }
    }
}

impl ParseArgument for Vec<u8> {
    open spec fn parse_spec(bytes: Seq<u8>) -> (Result<Seq<u8>, DecodeFailure>, Seq<u8>) {
        byte_array_parse_spec(bytes)
    }

    fn parse<F>(bag: &mut ArgumentBag<F>) -> (res: Result<Vec<u8>, ArgumentDecodeError>) {
        let length = match u32::parse(bag) {
            Ok(length) => length as usize,
            Err(e) => return Err(e),
        };
        match parse_vec_impl(length, bag) {
            Ok(v) => {
                assert(v.deep_view() =~= v@);
                Ok(v)
            },
            Err(e) => Err(e),
        }
    }
}

impl ArgumentRoundtrip for Vec<u8> {
    open spec fn encodable(v: Seq<u8>) -> bool {
        v.len() <= u32::MAX
    }

    proof fn lemma_roundtrip(v: Seq<u8>, rest: Seq<u8>) {
        lemma_byte_array_prefix(v, rest);
    }
}

/// The encoding of a string: the byte array of its UTF-8 bytes and a terminating null byte.
pub open spec fn string_wire(s: Seq<char>) -> Seq<u8> {
    byte_array_wire(encode_utf8(s).push(0u8))
}

/// Parsing an optional string: a byte array whose length zero means `None`, and whose bytes
/// without the last (the terminating null byte) must be UTF-8.
pub open spec fn optional_string_parse_spec(bytes: Seq<u8>) -> (Result<Option<Seq<char>>, DecodeFailure>, Seq<u8>) {
    match u32_parse_spec(bytes) {
        (Err(e), rest) => (Err(e), rest),
        (Ok(length), rest) => if length == 0 {
            (Ok(None), rest)
        } else {
            match byte_array_body_spec(length as nat, rest) {
                (Err(e), rest) => (Err(e), rest),
                (Ok(v), rest) => if valid_utf8(v.drop_last()) {
                    (Ok(Some(decode_utf8(v.drop_last()))), rest)
                } else {
                    (Err(DecodeFailure::FromUtf8), rest)
                },
            }
        },
    }
}

/// The strings whose encoding parses back: those whose byte array, the UTF-8 bytes and the
/// null byte, has a length that fits in a word.
pub open spec fn string_encodable(s: Seq<char>) -> bool {
    encode_utf8(s).len() + 1 <= u32::MAX
}

proof fn lemma_string_prefix(s: Seq<char>, rest: Seq<u8>)
    requires
        string_encodable(s),
    ensures
        optional_string_parse_spec(string_wire(s) + rest) == (
        Ok::<Option<Seq<char>>, DecodeFailure>(Some(s)),
        rest,
        ),
{
    let v = encode_utf8(s).push(0u8);
    lemma_byte_array_prefix(v, rest);
    assert(v.drop_last() =~= encode_utf8(s));
    encode_utf8_valid_utf8(s);
    encode_utf8_decode_utf8(s);
}

/// Parsing a required string: an optional string, with `None` rejected as a missing string.
pub open spec fn string_parse_spec(bytes: Seq<u8>) -> (Result<Seq<char>, DecodeFailure>, Seq<u8>) {
    match optional_string_parse_spec(bytes) {
        (Ok(Some(s)), rest) => (Ok(s), rest),
        (Ok(None), rest) => (Err(DecodeFailure::MissingString), rest),
        (Err(e), rest) => (Err(e), rest),
    }
}

impl MarshalArgument for String {
    open spec fn wire(v: Seq<char>) -> Seq<u8> {
        string_wire(v)
    }

    fn marshal<F>(self, bag: &mut ArgumentBag<F>) {
        let mut vec = vstd::slice::slice_to_vec(self.as_str().as_bytes());
        vec.push(0u8);
        proof {
            assert(vec.deep_view() =~= vec@);
        }
        vec.marshal(bag);
    }
}

fn parse_optional_string<F>(bag: &mut ArgumentBag<F>) -> (res: Result<Option<String>, ArgumentDecodeError>)
    ensures
        outcome(res) == optional_string_parse_spec(old(bag).byte_view()).0,
        final(bag).byte_view() == optional_string_parse_spec(old(bag).byte_view()).1,
        final(bag).fd_view() == old(bag).fd_view(),
{
    let length = match u32::parse(bag) {
        Ok(length) => length as usize,
        Err(e) => return Err(e),
    };
    if length == 0 {
        return Ok(None);
    }
    let mut vec = match parse_vec_impl(length, bag) {
        Ok(vec) => vec,
        Err(e) => return Err(e),
    };
    let ghost full = vec@;
    // Drops the terminating null byte.
    vec.pop();
    assert(vec@ =~= full.drop_last());
    match string_from_utf8(vec) {
        Ok(s) => Ok(Some(s)),
        Err(e) => Err(ArgumentDecodeError::FromUtf8(e)),
    }
}

impl ParseArgument for String {
    open spec fn parse_spec(bytes: Seq<u8>) -> (Result<Seq<char>, DecodeFailure>, Seq<u8>) {
        string_parse_spec(bytes)
    }

    fn parse<F>(bag: &mut ArgumentBag<F>) -> (res: Result<String, ArgumentDecodeError>) {
        match parse_optional_string(bag) {
            Ok(Some(s)) => Ok(s),
            Ok(None) => Err(ArgumentDecodeError::MissingString),
            Err(e) => Err(e),
        }
    }
}

impl ArgumentRoundtrip for String {
    open spec fn encodable(v: Seq<char>) -> bool {
        string_encodable(v)
    }

    proof fn lemma_roundtrip(v: Seq<char>, rest: Seq<u8>) {
        lemma_string_prefix(v, rest);
    }
}

impl MarshalArgument for Option<String> {
    open spec fn wire(v: Option<Seq<char>>) -> Seq<u8> {
        match v {
            Some(s) => string_wire(s),
            None => u32_ne_bytes(0),
        }
    }

    fn marshal<F>(self, bag: &mut ArgumentBag<F>) {
        match self {
            Some(s) => s.marshal(bag),
            None => 0u32.marshal(bag),
        }
    }
}

impl ParseArgument for Option<String> {
    open spec fn parse_spec(bytes: Seq<u8>) -> (Result<Option<Seq<char>>, DecodeFailure>, Seq<u8>) {
        optional_string_parse_spec(bytes)
    }

    fn parse<F>(bag: &mut ArgumentBag<F>) -> (res: Result<Option<String>, ArgumentDecodeError>) {
        parse_optional_string(bag)
    }
}

impl ArgumentRoundtrip for Option<String> {
    open spec fn encodable(v: Option<Seq<char>>) -> bool {
        match v {
            Some(s) => string_encodable(s),
            None => true,
        }
    }

    proof fn lemma_roundtrip(v: Option<Seq<char>>, rest: Seq<u8>) {
        match v {
            Some(s) => lemma_string_prefix(s, rest),
            None => lemma_word_prefix(0, rest),
        }
    }
}

/// The encoding of an opaque `new_id`: interface name, interface version, then the identifier.
pub open spec fn opaque_new_id_wire(v: (Seq<char>, u32, u32)) -> Seq<u8> {
    string_wire(v.0) + u32_ne_bytes(v.1) + u32_ne_bytes(v.2)
}

impl<E> MarshalArgument for OpaqueNewObjectId<E> {
    open spec fn wire(v: (Seq<char>, u32, u32)) -> Seq<u8> {
        opaque_new_id_wire(v)
    }

    fn marshal<F>(self, bag: &mut ArgumentBag<F>) {
        let (interface_name, interface_version, inner) = self.into_parts();
        interface_name.marshal(bag);
        interface_version.marshal(bag);
        inner.marshal(bag);
        proof {
            assert(opaque_new_id_wire(self.deep_view()) =~= string_wire(self.deep_view().0) + u32_ne_bytes(
                self.deep_view().1,
            ) + u32_ne_bytes(self.deep_view().2));
        }
    }
}


/// Parsing an opaque `new_id`: a string, a word and an identifier, stopping at the first failure.
pub open spec fn opaque_new_id_parse_spec(bytes: Seq<u8>) -> (Result<(Seq<char>, u32, u32), DecodeFailure>, Seq<u8>) {
    match string_parse_spec(bytes) {
        (Err(e), rest) => (Err(e), rest),
        (Ok(name), rest) => match u32_parse_spec(rest) {
            (Err(e), rest) => (Err(e), rest),
            (Ok(version), rest) => match id_parse_spec(rest) {
                (Err(e), rest) => (Err(e), rest),
                (Ok(id), rest) => (Ok((name, version, id)), rest),
            },
        },
    }
}

impl<E> ParseArgument for OpaqueNewObjectId<E> {
    open spec fn parse_spec(bytes: Seq<u8>) -> (Result<(Seq<char>, u32, u32), DecodeFailure>, Seq<u8>) {
        opaque_new_id_parse_spec(bytes)
    }

    fn parse<F>(bag: &mut ArgumentBag<F>) -> (res: Result<OpaqueNewObjectId<E>, ArgumentDecodeError>) {
        let interface_name = match String::parse(bag) {
            Ok(name) => name,
            Err(e) => return Err(e),
        };
        let interface_version = match u32::parse(bag) {
            Ok(version) => version,
            Err(e) => return Err(e),
        };
        let inner = match ObjectId::<E>::parse(bag) {
            Ok(id) => id,
            Err(e) => return Err(e),
        };
        Ok(OpaqueNewObjectId::new(interface_name, interface_version, inner))
    }
}

impl<E> ArgumentRoundtrip for OpaqueNewObjectId<E> {
    open spec fn encodable(v: (Seq<char>, u32, u32)) -> bool {
        string_encodable(v.0) && v.2 != 0
    }

    proof fn lemma_roundtrip(v: (Seq<char>, u32, u32), rest: Seq<u8>) {
        let tail = u32_ne_bytes(v.1) + u32_ne_bytes(v.2) + rest;
        assert(opaque_new_id_wire(v) + rest =~= string_wire(v.0) + tail);
        lemma_string_prefix(v.0, tail);
        assert(tail =~= u32_ne_bytes(v.1) + (u32_ne_bytes(v.2) + rest));
        lemma_word_prefix(v.1, u32_ne_bytes(v.2) + rest);
        lemma_word_prefix(v.2, rest);
    }
}

/// An untyped `new_id` travels as the interface name (a string), then the version word, then
/// the identifier word: that is what it marshals to, and bytes so laid out, followed by any
/// bytes, parse back to the name, version and identifier, in that order, leaving what
/// followed.
pub proof fn lemma_new_id_layout<E>(name: Seq<char>, version: u32, id: u32, rest: Seq<u8>)
    ensures
        <OpaqueNewObjectId<E> as MarshalArgument>::wire((name, version, id)) == string_wire(name) + u32_ne_bytes(
            version,
        ) + u32_ne_bytes(id),
        string_encodable(name) && id != 0 ==> <OpaqueNewObjectId<E> as ParseArgument>::parse_spec(
            string_wire(name) + u32_ne_bytes(version) + u32_ne_bytes(id) + rest,
        ) == (Ok::<(Seq<char>, u32, u32), DecodeFailure>((name, version, id)), rest),
{
    if string_encodable(name) && id != 0 {
        let tail = u32_ne_bytes(version) + u32_ne_bytes(id) + rest;
        assert(string_wire(name) + u32_ne_bytes(version) + u32_ne_bytes(id) + rest =~= string_wire(name) + tail);
        lemma_string_prefix(name, tail);
        assert(tail =~= u32_ne_bytes(version) + (u32_ne_bytes(id) + rest));
        lemma_word_prefix(version, u32_ne_bytes(id) + rest);
        lemma_word_prefix(id, rest);
    }
}

/// A fixed-point value travels as one word holding the value times 256 in two's complement:
/// the integer part times 256 plus the fraction, modulo 2^32; and any word read as a
/// fixed-point value gives an integer part in the 24-bit range and a fraction that, put back
/// together the same way, are that word.
pub proof fn lemma_fixed_is_value_times_256(v: (i32, u8), word: u32)
    requires
        I24_MIN <= v.0 <= I24_MAX,
    ensures
        <Fixed as MarshalArgument>::wire(v) == u32_ne_bytes(fixed_bits(v)),
        fixed_bits(v) as int == (256 * v.0 + v.1) % 4294967296,
        I24_MIN <= fixed_from_bits(word).0 <= I24_MAX,
        (256 * fixed_from_bits(word).0 + fixed_from_bits(word).1) % 4294967296 == word as int,
{
    let x = v.0 as int;
    let u = x % 16777216;
    let d = v.1 as int;
    assert(65536 * (u / 65536) + 256 * ((u / 256) % 256) + u % 256 == u && 0 <= u / 65536 < 256)
        by (nonlinear_arith)
        requires
            0 <= u < 16777216,
    ;
    let b = i24_be_bytes(v.0).push(v.1);
    assert(16777216 * b[0] + 65536 * b[1] + 256 * b[2] + b[3] == 256 * u + d);
    assert(0 <= 256 * u + d < 4294967296);
    if x >= 0 {
        assert(u == x);
        assert((256 * x + d) % 4294967296 == 256 * x + d);
    } else {
        assert(u == x + 16777216);
        assert((256 * x + d) % 4294967296 == 256 * x + d + 4294967296) by (nonlinear_arith)
            requires
                -8388608 <= x < 0,
                0 <= d < 256,
        ;
    }
    let w = word as int;
    let bs = u32_be_bytes(word);
    lemma_u32_value_roundtrip(word);
    let hi = 65536 * bs[0] + 256 * bs[1] + bs[2];
    assert(16777216 * bs[0] + 65536 * bs[1] + 256 * bs[2] + bs[3] == w);
    assert(0 <= hi < 16777216);
    lemma_i24_from_be_in_range(bs);
    if hi >= 8388608 {
        assert((256 * (hi - 16777216) + bs[3]) % 4294967296 == w) by (nonlinear_arith)
            requires
                256 * hi + bs[3] == w,
                8388608 <= hi < 16777216,
                0 <= w < 4294967296,
        ;
    } else {
        assert((256 * hi + bs[3]) % 4294967296 == w);
    }
}

/// Object identifiers travel as one word with zero standing for null: an optional identifier
/// writes zero for `None` and its value otherwise; reading a word gives `None` for zero and the
/// word otherwise; a required identifier refuses zero as a missing object; fewer than four
/// bytes are not enough and are left as they were.
pub proof fn lemma_identifier_words<E>(raw: u32, rest: Seq<u8>, short: Seq<u8>)
    ensures
        <Option<OpaqueObjectId> as MarshalArgument>::wire(None) == u32_ne_bytes(0),
        <Option<OpaqueObjectId> as MarshalArgument>::wire(Some(raw)) == u32_ne_bytes(raw),
        <Option<ObjectId<E>> as MarshalArgument>::wire(None) == u32_ne_bytes(0),
        <Option<ObjectId<E>> as MarshalArgument>::wire(Some(raw)) == u32_ne_bytes(raw),
        <OpaqueObjectId as MarshalArgument>::wire(raw) == u32_ne_bytes(raw),
        <ObjectId<E> as MarshalArgument>::wire(raw) == u32_ne_bytes(raw),
        <Option<OpaqueObjectId> as ParseArgument>::parse_spec(u32_ne_bytes(raw) + rest) == (
            Ok::<Option<u32>, DecodeFailure>(if raw == 0 { None } else { Some(raw) }),
            rest,
        ),
        <Option<ObjectId<E>> as ParseArgument>::parse_spec(u32_ne_bytes(raw) + rest) == (
            Ok::<Option<u32>, DecodeFailure>(if raw == 0 { None } else { Some(raw) }),
            rest,
        ),
        <OpaqueObjectId as ParseArgument>::parse_spec(u32_ne_bytes(raw) + rest) == (
            if raw == 0 {
                Err::<u32, DecodeFailure>(DecodeFailure::MissingObjectId)
            } else {
                Ok::<u32, DecodeFailure>(raw)
            },
            rest,
        ),
        <ObjectId<E> as ParseArgument>::parse_spec(u32_ne_bytes(raw) + rest) == <OpaqueObjectId as ParseArgument>::parse_spec(
            u32_ne_bytes(raw) + rest,
        ),
        <u32 as ParseArgument>::parse_spec(u32_ne_bytes(raw) + rest) == (Ok::<u32, DecodeFailure>(raw), rest),
        short.len() < 4 ==> <u32 as ParseArgument>::parse_spec(short) == (
            Err::<u32, DecodeFailure>(DecodeFailure::NotEnoughBytesLeft),
            short,
        ),
{
    lemma_word_prefix(raw, rest);
}

/// A byte array travels as its length word, its bytes, then zero bytes up to the next whole
/// word (fewer than four); a string as the byte array of its UTF-8 bytes with a null byte
/// after them; an absent optional string as a zero length word, which reads back as `None`,
/// and as a missing string where a string is required.
pub proof fn lemma_array_layout(v: Seq<u8>, s: Seq<char>, rest: Seq<u8>)
    requires
        v.len() <= u32::MAX,
    ensures
        ({
            let w = <Vec<u8> as MarshalArgument>::wire(v);
            &&& w.len() % 4 == 0
            &&& v.len() + 4 <= w.len() < v.len() + 8
            &&& w.take(4) == u32_ne_bytes(v.len() as u32)
            &&& w.subrange(4, 4 + v.len() as int) == v
            &&& forall|i: int| 4 + v.len() <= i < w.len() ==> w[i] == 0u8
        }),
        <String as MarshalArgument>::wire(s) == <Vec<u8> as MarshalArgument>::wire(encode_utf8(s).push(0u8)),
        <Option<String> as MarshalArgument>::wire(Some(s)) == <String as MarshalArgument>::wire(s),
        <Option<String> as MarshalArgument>::wire(None) == u32_ne_bytes(0),
        rest.len() < 4 ==> <Vec<u8> as ParseArgument>::parse_spec(rest) == (
            Err::<Seq<u8>, DecodeFailure>(DecodeFailure::NotEnoughBytesLeft),
            rest,
        ),
        <Option<String> as ParseArgument>::parse_spec(u32_ne_bytes(0) + rest) == (
            Ok::<Option<Seq<char>>, DecodeFailure>(None),
            rest,
        ),
        <String as ParseArgument>::parse_spec(u32_ne_bytes(0) + rest) == (
            Err::<Seq<char>, DecodeFailure>(DecodeFailure::MissingString),
            rest,
        ),
{
    lemma_u32_value_roundtrip(v.len() as u32);
    lemma_padding(v.len());
    let w = byte_array_wire(v);
    assert(w.take(4) =~= u32_ne_bytes(v.len() as u32));
    assert(w.subrange(4, 4 + v.len() as int) =~= v);
    lemma_word_prefix(0, rest);
}

} // verus!
