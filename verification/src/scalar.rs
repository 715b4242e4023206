//! Binary64 numbers held by their bit patterns.
//!
//! The mesh stores, moves and orders coordinates and lengths, and leaves every
//! computation on them to its caller. A number is therefore kept as the 64 bits
//! of its IEEE 754 encoding: one sign bit above 63 bits of magnitude, in which
//! every pattern above that of infinity stands for no number at all.

use vstd::prelude::*;

verus! {

/// Bit pattern of the sign.
pub const SIGN_BIT: u64 = 0x8000_0000_0000_0000;

/// Bit pattern of positive infinity; a larger magnitude is not a number.
pub const INFINITY_BITS: u64 = 0x7FF0_0000_0000_0000;

/// Bit pattern of the number one.
pub const ONE_BITS: u64 = 0x3FF0_0000_0000_0000;

/// A binary64 number, held by its bit pattern.
///
/// Two scalars are equal when their bit patterns are, so the two zeros differ
/// under `==` although neither is below the other.
#[derive(Clone, Copy, Debug, PartialEq, Eq, Structural)]
pub struct Scalar {
    pub bits: u64,
}

impl Scalar {
    /// The bit pattern without its sign.
    pub open spec fn magnitude(self) -> int {
        if self.bits >= SIGN_BIT {
            self.bits - SIGN_BIT
        } else {
            self.bits as int
        }
    }

    /// Whether the sign bit is set.
    pub open spec fn is_negative(self) -> bool {
        self.bits >= SIGN_BIT
    }

    /// Whether the pattern stands for no number.
    pub open spec fn spec_is_nan(self) -> bool {
        self.magnitude() > INFINITY_BITS
    }

    /// Place of a number on the number line. Both zeros have place 0, and a
    /// larger number has a larger place.
    pub open spec fn rank(self) -> int {
        if self.is_negative() {
            -self.magnitude()
        } else {
            self.magnitude()
        }
    }

    /// `self <= other` as numbers: false as soon as one side is no number.
    pub open spec fn spec_le(self, other: Scalar) -> bool {
        !self.spec_is_nan() && !other.spec_is_nan() && self.rank() <= other.rank()
    }

    /// `self < other` as numbers: false as soon as one side is no number.
    pub open spec fn spec_lt(self, other: Scalar) -> bool {
        !self.spec_is_nan() && !other.spec_is_nan() && self.rank() < other.rank()
    }

    /// Key by which distances are ranked from near to far: a number's place on
    /// the number line, and a place beyond every number for what is none.
    pub open spec fn farness(self) -> int {
        if self.spec_is_nan() {
            INFINITY_BITS + 1
        } else {
            self.rank()
        }
    }

    /// `self` is strictly nearer than `other` when both are read as distances.
    pub open spec fn spec_nearer(self, other: Scalar) -> bool {
        self.farness() < other.farness()
    }

    /// The scalar with the given bit pattern.
    pub fn from_bits(bits: u64) -> (r: Scalar)
        ensures
            r.bits == bits,
    {
        Scalar { bits }
    }

    /// The bit pattern.
    pub fn to_bits(self) -> (r: u64)
        ensures
            r == self.bits,
    {
        self.bits
    }

    /// Positive zero.
    pub fn zero() -> (r: Scalar)
        ensures
            r.bits == 0,
    {
        Scalar { bits: 0 }
    }

    /// The number one.
    pub fn one() -> (r: Scalar)
        ensures
            r.bits == ONE_BITS,
    {
        Scalar { bits: ONE_BITS }
    }

    /// The magnitude bits and the sign, taken apart.
    fn split(self) -> (r: (u64, bool))
        ensures
            r.0 == self.magnitude(),
            r.1 == self.is_negative(),
    {
        if self.bits >= SIGN_BIT {
            (self.bits - SIGN_BIT, true)
        } else {
            (self.bits, false)
        }
    }

    #[verifier::when_used_as_spec(spec_is_nan)]
    pub fn is_nan(self) -> (r: bool)
        ensures
            r == self.spec_is_nan(),
    {
        let (magnitude, _) = self.split();
        magnitude > INFINITY_BITS
    }

    #[verifier::when_used_as_spec(spec_le)]
    pub fn le(self, other: Scalar) -> (r: bool)
        ensures
            r == self.spec_le(other),
    {
        let (a, a_negative) = self.split();
        let (b, b_negative) = other.split();
        if a > INFINITY_BITS || b > INFINITY_BITS {
            false
        } else if a_negative {
            !b_negative || b <= a
        } else if b_negative {
            a == 0 && b == 0
        } else {
            a <= b
        }
    }

    #[verifier::when_used_as_spec(spec_lt)]
    pub fn lt(self, other: Scalar) -> (r: bool)
        ensures
            r == self.spec_lt(other),
    {
        let (a, a_negative) = self.split();
        let (b, b_negative) = other.split();
        if a > INFINITY_BITS || b > INFINITY_BITS {
            false
        } else if a_negative {
            if b_negative {
                b < a
            } else {
                a != 0 || b != 0
            }
        } else if b_negative {
            false
        } else {
            a < b
        }
    }

    #[verifier::when_used_as_spec(spec_nearer)]
    pub fn nearer(self, other: Scalar) -> (r: bool)
        ensures
            r == self.spec_nearer(other),
    {
        if self.is_nan() {
            false
        } else if other.is_nan() {
            true
        } else {
            self.lt(other)
        }
    }
}

/// On numbers `<=` is a total preorder, `<` is its strict part, and what is no
/// number is below nothing and above nothing.
pub proof fn lemma_order(a: Scalar, b: Scalar, c: Scalar)
    ensures
        !a.spec_is_nan() ==> a.spec_le(a),
        a.spec_le(b) && b.spec_le(c) ==> a.spec_le(c),
        !a.spec_is_nan() && !b.spec_is_nan() ==> a.spec_le(b) || b.spec_le(a),
        a.spec_lt(b) <==> a.spec_le(b) && !b.spec_le(a),
        a.spec_is_nan() ==> !a.spec_le(b) && !b.spec_le(a),
        a.spec_le(b) && b.spec_le(a) ==> a == b || (a.magnitude() == 0 && b.magnitude() == 0),
{
}

/// Ranking by distance agrees with `<` on numbers and puts what is no number
/// after all of them; it is a strict weak order, so a nearest item exists in
/// every non-empty list.
pub proof fn lemma_nearer(a: Scalar, b: Scalar, c: Scalar)
    ensures
        !a.spec_is_nan() && !b.spec_is_nan() ==> (a.spec_nearer(b) <==> a.spec_lt(b)),
        !a.spec_is_nan() && b.spec_is_nan() ==> a.spec_nearer(b),
        a.spec_is_nan() ==> !a.spec_nearer(b),
        !a.spec_nearer(a),
        a.spec_nearer(b) && b.spec_nearer(c) ==> a.spec_nearer(c),
        a.spec_nearer(b) || b.spec_nearer(a) || a.farness() == b.farness(),
{
}

} // verus!
