//! Byte-level model of the integers that make up the Wayland wire format.
//!
//! Wayland words are 32-bit integers in the byte order of the host, which is
//! vstd's [`endianness`](vstd::endian::endianness).
use vstd::prelude::*;

verus! {

/// Size of a wire word in bytes.
pub const WORD_SIZE: usize = 4;

/// The four bytes of `v`, least significant first.
pub open spec fn u32_le_bytes(v: u32) -> Seq<u8> {
    seq![(v % 256) as u8, ((v / 256) % 256) as u8, ((v / 65536) % 256) as u8, (v / 16777216) as u8]
}

/// The four bytes of `v`, most significant first.
pub open spec fn u32_be_bytes(v: u32) -> Seq<u8> {
    seq![(v / 16777216) as u8, ((v / 65536) % 256) as u8, ((v / 256) % 256) as u8, (v % 256) as u8]
}

/// The integer whose bytes, least significant first, are the first four of `s`.
pub open spec fn u32_from_le(s: Seq<u8>) -> u32 {
    (s[0] + 256 * s[1] + 65536 * s[2] + 16777216 * s[3]) as u32
}

/// The integer whose bytes, most significant first, are the first four of `s`.
pub open spec fn u32_from_be(s: Seq<u8>) -> u32 {
    (16777216 * s[0] + 65536 * s[1] + 256 * s[2] + s[3]) as u32
}

/// The four bytes of `v` in the host's byte order.
pub open spec fn u32_ne_bytes(v: u32) -> Seq<u8> {
    match vstd::endian::endianness() {
        vstd::endian::Endian::Little => u32_le_bytes(v),
        vstd::endian::Endian::Big => u32_be_bytes(v),
    }
}

/// The integer whose bytes in the host's byte order are the first four of `s`.
pub open spec fn u32_from_ne(s: Seq<u8>) -> u32 {
    match vstd::endian::endianness() {
        vstd::endian::Endian::Little => u32_from_le(s),
        vstd::endian::Endian::Big => u32_from_be(s),
    }
}

/// The four bytes of the two's complement of `v` in the host's byte order.
pub open spec fn i32_ne_bytes(v: i32) -> Seq<u8> {
    u32_ne_bytes(v as u32)
}

/// The integer whose two's complement in the host's byte order is the first four bytes of `s`.
pub open spec fn i32_from_ne(s: Seq<u8>) -> i32 {
    u32_from_ne(s) as i32
}

/// Decoding the encoding of an integer gives it back, in either byte order.
pub proof fn lemma_u32_value_roundtrip(v: u32)
    ensures
        u32_le_bytes(v).len() == 4,
        u32_be_bytes(v).len() == 4,
        u32_ne_bytes(v).len() == 4,
        u32_from_le(u32_le_bytes(v)) == v,
        u32_from_be(u32_be_bytes(v)) == v,
        u32_from_ne(u32_ne_bytes(v)) == v,
{
    let x = v as int;
    assert(x % 256 + 256 * ((x / 256) % 256) + 65536 * ((x / 65536) % 256) + 16777216 * (x / 16777216)
        == x && x / 16777216 < 256) by (nonlinear_arith)
        requires
            0 <= x <= u32::MAX,
    ;
}

/// Encoding the integer that four bytes decode to gives the bytes back, in either byte order.
pub proof fn lemma_u32_bytes_roundtrip(s: Seq<u8>)
    requires
        s.len() == 4,
    ensures
        u32_le_bytes(u32_from_le(s)) == s,
        u32_be_bytes(u32_from_be(s)) == s,
        u32_ne_bytes(u32_from_ne(s)) == s,
{
    let (a, b, c, d) = (s[0] as int, s[1] as int, s[2] as int, s[3] as int);
    assert(0 <= a < 256 && 0 <= b < 256 && 0 <= c < 256 && 0 <= d < 256);
    lemma_bytes_of_word(a, b, c, d);
    lemma_bytes_of_word(d, c, b, a);
    assert(u32_le_bytes(u32_from_le(s)) =~= s);
    assert(u32_be_bytes(u32_from_be(s)) =~= s);
}

proof fn lemma_bytes_of_word(a: int, b: int, c: int, d: int)
    requires
        0 <= a < 256,
        0 <= b < 256,
        0 <= c < 256,
        0 <= d < 256,
    ensures
        ({
            let w = a + 256 * b + 65536 * c + 16777216 * d;
            &&& 0 <= w <= u32::MAX
            &&& w % 256 == a
            &&& (w / 256) % 256 == b
            &&& (w / 65536) % 256 == c
            &&& w / 16777216 == d
        }),
{
    let w = a + 256 * b + 65536 * c + 16777216 * d;
    assert(0 <= w <= u32::MAX) by (nonlinear_arith)
        requires
            0 <= a < 256,
            0 <= b < 256,
            0 <= c < 256,
            0 <= d < 256,
            w == a + 256 * b + 65536 * c + 16777216 * d,
    ;
    assert(w % 256 == a && (w / 256) % 256 == b && (w / 65536) % 256 == c && w / 16777216 == d)
        by (nonlinear_arith)
        requires
            0 <= a < 256,
            0 <= b < 256,
            0 <= c < 256,
            0 <= d < 256,
            w == a + 256 * b + 65536 * c + 16777216 * d,
    ;
}

/// Decoding the encoding of a signed integer gives it back.
pub proof fn lemma_i32_value_roundtrip(v: i32)
    ensures
        i32_ne_bytes(v).len() == 4,
        i32_from_ne(i32_ne_bytes(v)) == v,
{
    lemma_u32_value_roundtrip(v as u32);
    assert((v as u32) as i32 == v) by (bit_vector);
}

/// Number of zero bytes that pad `length` bytes up to a whole number of words.
pub open spec fn spec_padding(length: nat) -> nat {
    ((4 - (length % 4) as int) % 4) as nat
}

/// `length` bytes and their padding fill whole words.
pub proof fn lemma_padding(length: nat)
    ensures
        spec_padding(length) < 4,
        (length + spec_padding(length)) % 4 == 0,
{
}

/// Computes the number of zero bytes that pad `length` bytes up to a whole number of words.
pub fn padding(length: usize) -> (pad: usize)
    ensures
        pad == spec_padding(length as nat),
{
    let padding = WORD_SIZE - (length % WORD_SIZE);
    if padding == WORD_SIZE {
        return 0;
    }
    padding
}

} // verus!

verus! {

/// `u32::from_be_bytes`: the integer whose bytes, most significant first, are `b`.
pub fn u32_from_be_array(b: [u8; 4]) -> (v: u32)
    ensures
        v == u32_from_be(b@),
{
    let (b0, b1, b2, b3) = (b[0] as u32, b[1] as u32, b[2] as u32, b[3] as u32);
    assert(16777216 * b0 + 65536 * b1 + 256 * b2 + b3 <= u32::MAX) by (nonlinear_arith)
        requires
            b0 < 256,
            b1 < 256,
            b2 < 256,
            b3 < 256,
    ;
    16777216 * b0 + 65536 * b1 + 256 * b2 + b3
}

/// `u32::to_be_bytes`: the four bytes of `v`, most significant first.
pub fn u32_to_be_array(v: u32) -> (b: [u8; 4])
    ensures
        b@ == u32_be_bytes(v),
{
    proof {
        lemma_u32_value_roundtrip(v);
    }
    let b = [(v / 16777216) as u8, ((v / 65536) % 256) as u8, ((v / 256) % 256) as u8, (v % 256) as u8];
    assert(b@ =~= u32_be_bytes(v));
    b
}

/// A word is four bytes in the host's byte order: least significant first on a little-endian
/// host, most significant first on a big-endian one, and read back by the same weights.
pub proof fn lemma_word_byte_order(v: u32, s: Seq<u8>)
    requires
        s.len() >= 4,
    ensures
        vstd::endian::endianness() == vstd::endian::Endian::Little ==> u32_ne_bytes(v) == seq![
            (v % 256) as u8,
            ((v / 256) % 256) as u8,
            ((v / 65536) % 256) as u8,
            (v / 16777216) as u8,
        ] && u32_from_ne(s) == s[0] + 256 * s[1] + 65536 * s[2] + 16777216 * s[3],
        vstd::endian::endianness() == vstd::endian::Endian::Big ==> u32_ne_bytes(v) == seq![
            (v / 16777216) as u8,
            ((v / 65536) % 256) as u8,
            ((v / 256) % 256) as u8,
            (v % 256) as u8,
        ] && u32_from_ne(s) == s[3] + 256 * s[2] + 65536 * s[1] + 16777216 * s[0],
{
    let (a, b, c, d) = (s[0] as int, s[1] as int, s[2] as int, s[3] as int);
    assert(0 <= a + 256 * b + 65536 * c + 16777216 * d <= u32::MAX) by (nonlinear_arith)
        requires
            0 <= a < 256,
            0 <= b < 256,
            0 <= c < 256,
            0 <= d < 256,
    ;
    assert(0 <= d + 256 * c + 65536 * b + 16777216 * a <= u32::MAX) by (nonlinear_arith)
        requires
            0 <= a < 256,
            0 <= b < 256,
            0 <= c < 256,
            0 <= d < 256,
    ;
}

} // verus!
