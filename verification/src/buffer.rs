//! The byte buffer of the `bytes` crate, as the codec uses it.
//!
//! Everything here is trusted: each function calls one method of
//! [`bytes::BytesMut`] and states what that method does to the buffer's
//! contents, as the crate's source shows it.
use bytes::{Buf, BufMut, BytesMut, TryGetError};
use vstd::prelude::*;

use crate::wire::{i32_from_ne, i32_ne_bytes, u32_from_ne, u32_ne_bytes};

verus! {

#[verifier::external_type_specification]
#[verifier::external_body]
pub struct ExBytesMut(bytes::BytesMut);

#[verifier::external_type_specification]
#[verifier::external_body]
pub struct ExTryGetError(bytes::TryGetError);

/// The bytes a [`BytesMut`] holds, from its read position to its end.
pub uninterp spec fn bytes_contents(b: BytesMut) -> Seq<u8>;

/// Largest number of bytes a buffer can grow to without its allocation panicking.
pub open spec fn max_buffer_len() -> int {
    isize::MAX as int
}

/// `BytesMut::new`: an empty buffer.
#[verifier::external_body]
pub(crate) fn new_bytes() -> (b: BytesMut)
    ensures
        bytes_contents(b) == Seq::<u8>::empty(),
{
    BytesMut::new()
}

/// `BytesMut::len`: the number of bytes held.
#[verifier::external_body]
pub(crate) fn bytes_len(b: &BytesMut) -> (len: usize)
    ensures
        len == bytes_contents(*b).len(),
{
    b.len()
}

/// `BufMut::put_u32_ne` on a `BytesMut`: appends `n` in the host's byte order.
#[verifier::external_body]
pub(crate) fn put_u32_ne(b: &mut BytesMut, n: u32)
    requires
        bytes_contents(*old(b)).len() + 4 <= max_buffer_len(),
    ensures
        bytes_contents(*final(b)) == bytes_contents(*old(b)) + u32_ne_bytes(n),
{
    b.put_u32_ne(n)
}

/// `BufMut::put_i32_ne` on a `BytesMut`: appends the two's complement of `n` in the host's byte order.
#[verifier::external_body]
pub(crate) fn put_i32_ne(b: &mut BytesMut, n: i32)
    requires
        bytes_contents(*old(b)).len() + 4 <= max_buffer_len(),
    ensures
        bytes_contents(*final(b)) == bytes_contents(*old(b)) + i32_ne_bytes(n),
{
    b.put_i32_ne(n)
}

/// `Buf::try_get_u32_ne` on a `BytesMut`: takes the first four bytes as a host-order integer,
/// or fails and leaves the buffer alone when fewer than four are held.
#[verifier::external_body]
pub(crate) fn try_get_u32_ne(b: &mut BytesMut) -> (res: Result<u32, TryGetError>)
    ensures
        bytes_contents(*old(b)).len() < 4 ==> res is Err && bytes_contents(*final(b)) == bytes_contents(*old(b)),
        bytes_contents(*old(b)).len() >= 4 ==> res == Ok::<u32, TryGetError>(u32_from_ne(bytes_contents(*old(b))))
            && bytes_contents(*final(b)) == bytes_contents(*old(b)).skip(4),
{
    b.try_get_u32_ne()
}

/// `Buf::try_get_i32_ne` on a `BytesMut`: takes the first four bytes as a host-order two's
/// complement integer, or fails and leaves the buffer alone when fewer than four are held.
#[verifier::external_body]
pub(crate) fn try_get_i32_ne(b: &mut BytesMut) -> (res: Result<i32, TryGetError>)
    ensures
        bytes_contents(*old(b)).len() < 4 ==> res is Err && bytes_contents(*final(b)) == bytes_contents(*old(b)),
        bytes_contents(*old(b)).len() >= 4 ==> res == Ok::<i32, TryGetError>(i32_from_ne(bytes_contents(*old(b))))
            && bytes_contents(*final(b)) == bytes_contents(*old(b)).skip(4),
{
    b.try_get_i32_ne()
}

/// `Buf::get_u32_ne` on a `BytesMut`: takes the first four bytes as a host-order integer.
/// It panics when fewer than four are held, which `requires` leaves out.
#[verifier::external_body]
pub(crate) fn get_u32_ne(b: &mut BytesMut) -> (n: u32)
    requires
        bytes_contents(*old(b)).len() >= 4,
    ensures
        n == u32_from_ne(bytes_contents(*old(b))),
        bytes_contents(*final(b)) == bytes_contents(*old(b)).skip(4),
{
    b.get_u32_ne()
}

/// `BytesMut::extend_from_slice`: appends the bytes of `src`.
#[verifier::external_body]
pub(crate) fn extend_from_slice(b: &mut BytesMut, src: &[u8])
    requires
        bytes_contents(*old(b)).len() + src@.len() <= max_buffer_len(),
    ensures
        bytes_contents(*final(b)) == bytes_contents(*old(b)) + src@,
{
    b.extend_from_slice(src)
}

/// `BufMut::put_bytes` on a `BytesMut`: appends `cnt` copies of `val`.
#[verifier::external_body]
pub(crate) fn put_bytes(b: &mut BytesMut, val: u8, cnt: usize)
    requires
        bytes_contents(*old(b)).len() + cnt <= max_buffer_len(),
    ensures
        bytes_contents(*final(b)) == bytes_contents(*old(b)) + Seq::new(cnt as nat, |_i: int| val),
{
    b.put_bytes(val, cnt)
}

/// `BytesMut::split_to`: removes the first `at` bytes and returns them as a buffer of their own.
/// It panics when `at` exceeds the length, which `requires` leaves out.
#[verifier::external_body]
pub(crate) fn split_to(b: &mut BytesMut, at: usize) -> (head: BytesMut)
    requires
        at <= bytes_contents(*old(b)).len(),
    ensures
        bytes_contents(head) == bytes_contents(*old(b)).take(at as int),
        bytes_contents(*final(b)) == bytes_contents(*old(b)).skip(at as int),
{
    b.split_to(at)
}

/// `Buf::advance` on a `BytesMut`: drops the first `cnt` bytes.
/// It panics when `cnt` exceeds the length, which `requires` leaves out.
#[verifier::external_body]
pub(crate) fn advance(b: &mut BytesMut, cnt: usize)
    requires
        cnt <= bytes_contents(*old(b)).len(),
    ensures
        bytes_contents(*final(b)) == bytes_contents(*old(b)).skip(cnt as int),
{
    b.advance(cnt)
}

/// `to_vec` of the slice a `BytesMut` dereferences to: a copy of its bytes.
#[verifier::external_body]
pub(crate) fn to_vec(b: &BytesMut) -> (v: Vec<u8>)
    ensures
        v@ == bytes_contents(*b),
{
    b.to_vec()
}

} // verus!
