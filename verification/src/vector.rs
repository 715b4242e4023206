//! Points and displacements of the plane.

use vstd::prelude::*;
use crate::scalar::Scalar;

verus! {

/// A pair of coordinates. The mesh carries such pairs from its caller to its
/// particles and back without looking inside the coordinates.
#[derive(Clone, Copy, Debug, PartialEq, Eq, Structural)]
pub struct Vec2 {
    pub x: Scalar,
    pub y: Scalar,
}

impl Vec2 {
    /// The vector with both coordinates positive zero.
    pub open spec fn spec_zero() -> Vec2 {
        Vec2 { x: Scalar { bits: 0 }, y: Scalar { bits: 0 } }
    }

    pub fn new(x: Scalar, y: Scalar) -> (r: Vec2)
        ensures
            r == (Vec2 { x, y }),
    {
        Vec2 { x, y }
    }

    pub fn x(&self) -> (r: Scalar)
        ensures
            r == self.x,
    {
        self.x
    }

    pub fn y(&self) -> (r: Scalar)
        ensures
            r == self.y,
    {
        self.y
    }

    #[verifier::when_used_as_spec(spec_zero)]
    pub fn zero() -> (r: Vec2)
        ensures
            r == Vec2::spec_zero(),
    {
        Vec2 { x: Scalar::zero(), y: Scalar::zero() }
    }
}

} // verus!
