//! Distance constraints between particles.

use vstd::prelude::*;
use crate::scalar::Scalar;

verus! {

/// An edge between two particles, named by their indices, with the distance
/// that relaxation pulls them toward. Structural, shear and bend edges differ
/// only in the pair they join and in that distance.
#[derive(Clone, Copy, Debug, PartialEq, Eq, Structural)]
pub struct Constraint {
    pub particle_a: usize,
    pub particle_b: usize,
    pub rest_length: Scalar,
}

impl Constraint {
    /// Whether one of the two ends is particle `index`.
    pub open spec fn spec_touches(self, index: usize) -> bool {
        self.particle_a == index || self.particle_b == index
    }

    /// Whether both ends are particles of a mesh of `count` particles.
    pub open spec fn within(self, count: nat) -> bool {
        self.particle_a < count && self.particle_b < count
    }

    pub fn new(particle_a: usize, particle_b: usize, rest_length: Scalar) -> (r: Constraint)
        ensures
            r == (Constraint { particle_a, particle_b, rest_length }),
    {
        Constraint { particle_a, particle_b, rest_length }
    }

    pub fn particles(&self) -> (r: (usize, usize))
        ensures
            r == (self.particle_a, self.particle_b),
    {
        (self.particle_a, self.particle_b)
    }

    pub fn rest_length(&self) -> (r: Scalar)
        ensures
            r == self.rest_length,
    {
        self.rest_length
    }

    #[verifier::when_used_as_spec(spec_touches)]
    pub fn touches(self, index: usize) -> (r: bool)
        ensures
            r == self.spec_touches(index),
    {
        self.particle_a == index || self.particle_b == index
    }
}

} // verus!
