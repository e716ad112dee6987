use vstd::prelude::*;

verus! {

/// The bit pattern of the scalar one (exponent bias with a zero mantissa in
/// the underlying 64-bit representation).
pub const SCALAR_ONE_BITS: u64 = 0x3FF0_0000_0000_0000;

/// The bit pattern of the scalar one half.
pub const SCALAR_HALF_BITS: u64 = 0x3FE0_0000_0000_0000;

/// An opaque numeric scalar, carried by the 64-bit pattern of its machine
/// representation.  The mesh never interprets coordinates numerically; it
/// only stores, copies and compares them, so the payload stays abstract here
/// and numeric work happens outside the verified core.
///
/// For finite non-negative values the representation is ordered like the
/// reals, which is what [`Scalar::in_open_unit`] relies on: the patterns
/// strictly between zero (`0`) and one ([`SCALAR_ONE_BITS`]) are exactly the
/// reals strictly between zero and one.
#[derive(Clone, Copy, Debug, PartialEq, Eq, Structural)]
pub struct Scalar {
    pub bits: u64,
}

impl Scalar {
    /// Wraps a raw bit pattern.
    pub fn from_bits(bits: u64) -> (r: Scalar)
        ensures
            r.bits == bits,
    {
        Scalar { bits }
    }

    /// Whether the scalar lies strictly between zero and one.
    pub open spec fn in_open_unit(self) -> bool {
        0 < self.bits < SCALAR_ONE_BITS
    }

    /// Runtime test matching [`Scalar::in_open_unit`].
    pub fn is_in_open_unit(&self) -> (r: bool)
        ensures
            r == self.in_open_unit(),
    {
        0 < self.bits && self.bits < SCALAR_ONE_BITS
    }
}

/// A point of the plane: two opaque scalar coordinates.
#[derive(Clone, Copy, Debug, PartialEq, Eq, Structural)]
pub struct Point2D {
    pub x: Scalar,
    pub y: Scalar,
}

impl Point2D {
    pub fn new(x: Scalar, y: Scalar) -> (r: Point2D)
        ensures
            r.x == x,
            r.y == y,
    {
        Point2D { x, y }
    }
}

} // verus!
