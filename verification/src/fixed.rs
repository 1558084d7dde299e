//! Signed 24.8 fixed-point wire argument.
use i24::I24;
use vstd::prelude::*;

verus! {

/// Smallest value of a signed 24-bit integer.
pub const I24_MIN: i32 = -8388608;

/// Largest value of a signed 24-bit integer.
pub const I24_MAX: i32 = 8388607;

/// Signed 24.8 decimal type: a signed 24-bit integer part and an 8-bit fraction.
#[derive(Debug, Clone, Copy, PartialEq, Eq, Structural)]
pub struct Fixed {
    pub(crate) integer: i32,
    pub(crate) decimal: u8,
}

impl Fixed {
    /// The integer part always fits in 24 bits.
    #[verifier::type_invariant]
    spec fn integer_fits(self) -> bool {
        I24_MIN <= self.integer <= I24_MAX
    }

    /// A fixed-point value from its integer part and fraction, or `None` when the integer part
    /// does not fit in 24 bits.
    pub fn new(integer: i32, decimal: u8) -> (fixed: Option<Self>)
        ensures
            fixed is Some <==> I24_MIN <= integer <= I24_MAX,
            fixed matches Some(f) ==> f.deep_view() == (integer, decimal),
    {
        if integer < I24_MIN || integer > I24_MAX {
            None
        } else {
            Some(Fixed { integer, decimal })
        }
    }

    /// A fixed-point value from an integer part already known to fit in 24 bits.
    pub(crate) fn from_parts(integer: i32, decimal: u8) -> (fixed: Self)
        requires
            I24_MIN <= integer <= I24_MAX,
        ensures
            fixed.deep_view() == (integer, decimal),
    {
        Fixed { integer, decimal }
    }

    /// The integer part.
    pub fn integer(&self) -> (integer: i32)
        ensures
            integer == self.deep_view().0,
            I24_MIN <= integer <= I24_MAX,
    {
        proof {
            use_type_invariant(self);
        }
        self.integer
    }

    /// The fractional part, in 256ths.
    pub fn decimal(&self) -> (decimal: u8)
        ensures
            decimal == self.deep_view().1,
    {
        self.decimal
    }
}

impl DeepView for Fixed {
    type V = (i32, u8);

    closed spec fn deep_view(&self) -> (i32, u8) {
        (self.integer, self.decimal)
    }
}

/// The low 24 bits of the two's complement of `v`, most significant byte first.
pub open spec fn i24_be_bytes(v: i32) -> Seq<u8> {
    let u = v as int % 16777216;
    seq![(u / 65536) as u8, ((u / 256) % 256) as u8, (u % 256) as u8]
}

/// The signed 24-bit integer whose two's complement, most significant byte first, is the first
/// three bytes of `b`.
pub open spec fn i24_from_be(b: Seq<u8>) -> i32 {
    let u = 65536 * b[0] + 256 * b[1] + b[2];
    if u >= 8388608 {
        (u - 16777216) as i32
    } else {
        u as i32
    }
}

/// `I24::wrapping_from_i32` then `I24::to_be_bytes`: the low 24 bits of `v`, big-endian.
#[verifier::external_body]
pub(crate) fn i24_to_be_bytes(v: i32) -> (b: [u8; 3])
    ensures
        b@ == i24_be_bytes(v),
{
    I24::wrapping_from_i32(v).to_be_bytes()
}

/// `I24::from_be_bytes` then `I24::to_i32`: the sign-extended value of three big-endian bytes.
#[verifier::external_body]
pub(crate) fn i24_from_be_bytes(b: [u8; 3]) -> (v: i32)
    ensures
        v == i24_from_be(b@),
{
    I24::from_be_bytes(b).to_i32()
}

/// A 24-bit integer survives its big-endian encoding.
pub proof fn lemma_i24_roundtrip(v: i32)
    requires
        I24_MIN <= v <= I24_MAX,
    ensures
        i24_be_bytes(v).len() == 3,
        i24_from_be(i24_be_bytes(v)) == v,
{
    let x = v as int;
    let u = x % 16777216;
    assert(0 <= u < 16777216);
    assert(65536 * (u / 65536) + 256 * ((u / 256) % 256) + u % 256 == u && u / 65536 < 256)
        by (nonlinear_arith)
        requires
            0 <= u < 16777216,
    ;
    if x >= 0 {
        assert(u == x);
    } else {
        assert(u == x + 16777216);
    }
}

} // verus!
