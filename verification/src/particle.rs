//! Point masses of the mesh.

use vstd::prelude::*;
use crate::scalar::Scalar;
use crate::scalar::ONE_BITS;
use crate::vector::Vec2;

verus! {

/// A point mass. Its velocity is implied by the step from `previous_position`
/// to `position`; `acceleration` gathers what acts on it during one step.
#[derive(Clone, Copy, Debug, PartialEq, Eq, Structural)]
pub struct Particle {
    pub position: Vec2,
    pub previous_position: Vec2,
    pub acceleration: Vec2,
    pub mass: Scalar,
    pub pinned: bool,
}

impl Particle {
    /// A particle at rest at `position`, of mass one.
    pub open spec fn spec_new(position: Vec2, pinned: bool) -> Particle {
        Particle {
            position,
            previous_position: position,
            acceleration: Vec2::spec_zero(),
            mass: Scalar { bits: ONE_BITS },
            pinned,
        }
    }

    /// The particle with `acceleration` in its accumulator.
    pub open spec fn with_force(self, acceleration: Vec2) -> Particle {
        Particle { acceleration, ..self }
    }

    /// The particle after one integration step that leads to `next_position`:
    /// a pinned particle stays as it is, any other moves on and remembers
    /// where it came from.
    pub open spec fn updated(self, next_position: Vec2) -> Particle {
        if self.pinned {
            self
        } else {
            Particle { position: next_position, previous_position: self.position, ..self }
        }
    }

    /// The particle after a relaxation correction to `position`: a pinned
    /// particle stays as it is, any other takes the place and keeps its
    /// previous position.
    pub open spec fn corrected(self, position: Vec2) -> Particle {
        if self.pinned {
            self
        } else {
            Particle { position, ..self }
        }
    }

    /// The particle put at `position` by hand, pinned or not: it is at rest
    /// there, with an empty accumulator.
    pub open spec fn placed(self, position: Vec2) -> Particle {
        Particle {
            position,
            previous_position: position,
            acceleration: Vec2::spec_zero(),
            ..self
        }
    }

    /// The particle with its pin set or released.
    pub open spec fn with_pin(self, pinned: bool) -> Particle {
        Particle { pinned, ..self }
    }

    #[verifier::when_used_as_spec(spec_new)]
    pub fn new(position: Vec2, pinned: bool) -> (r: Particle)
        ensures
            r == Particle::spec_new(position, pinned),
    {
        Particle {
            position,
            previous_position: position,
            acceleration: Vec2::zero(),
            mass: Scalar::one(),
            pinned,
        }
    }

    /// Stores the accumulator's new value, which the caller has summed from
    /// the old one and the force divided by the mass.
    pub fn apply_force(&mut self, acceleration: Vec2)
        ensures
            *final(self) == old(self).with_force(acceleration),
    {
        self.acceleration = acceleration;
    }

    /// Takes one integration step to `next_position`, unless pinned.
    pub fn update(&mut self, next_position: Vec2)
        ensures
            *final(self) == old(self).updated(next_position),
    {
        if self.pinned {
            return ;
        }
        let current = self.position;
        self.position = next_position;
        self.previous_position = current;
    }

    /// Takes the corrected `position` that relaxation gives, unless pinned.
    pub fn correct(&mut self, position: Vec2)
        ensures
            *final(self) == old(self).corrected(position),
    {
        if !self.pinned {
            self.position = position;
        }
    }

    pub fn position(&self) -> (r: &Vec2)
        ensures
            *r == self.position,
    {
        &self.position
    }

    pub fn previous_position(&self) -> (r: &Vec2)
        ensures
            *r == self.previous_position,
    {
        &self.previous_position
    }

    pub fn acceleration(&self) -> (r: &Vec2)
        ensures
            *r == self.acceleration,
    {
        &self.acceleration
    }

    pub fn mass(&self) -> (r: Scalar)
        ensures
            r == self.mass,
    {
        self.mass
    }

    /// Puts the particle at `position` with no velocity and no pending force.
    pub fn set_position(&mut self, position: Vec2)
        ensures
            *final(self) == old(self).placed(position),
    {
        self.position = position;
        self.previous_position = position;
        self.acceleration = Vec2::zero();
    }

    pub fn pinned(&self) -> (r: bool)
        ensures
            r == self.pinned,
    {
        self.pinned
    }
}

} // verus!
