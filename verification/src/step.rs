//! One step of the simulation, taken in stages.
//!
//! A step gathers the forces, integrates, relaxes every constraint in turn a
//! fixed number of times, and empties the accumulators. What a stage needs in
//! numbers depends on what the stages before it have left, so the caller
//! works out the numbers stage by stage: it asks the cloth which stage is
//! due, computes that stage's work from the cloth as it is, and hands it
//! over. The cloth takes it in and moves on to the stage that follows.

use vstd::prelude::*;
use crate::scalar::Scalar;
use crate::vector::Vec2;

verus! {

/// How often a step relaxes every constraint.
pub const RELAXATION_PASSES: usize = 2;

/// Bit pattern of the number 987, the acceleration of gravity.
pub const GRAVITY_BITS: u64 = 0x408E_D800_0000_0000;

/// Where a step stands: what is due next.
#[derive(Clone, Copy, Debug, PartialEq, Eq, Structural)]
pub enum Stage {
    /// The accumulators are to take what acts on the particles. Every step
    /// begins here.
    Forces,
    /// The particles are to move on.
    Integration,
    /// Constraint `constraint` is to be relaxed, in pass `pass`.
    Relaxation { pass: usize, constraint: usize },
}

/// The numbers that a stage needs, worked out by the caller from the cloth as
/// the stages before have left it.
#[derive(Debug)]
pub enum Work {
    /// For `Forces`: for each particle, its accumulator with gravity and
    /// damping, each divided by the particle's mass, added.
    Accelerations(Vec<Vec2>),
    /// For `Integration`: for each particle, its position, and its last move
    /// again, and its acceleration times the square of the time step.
    Positions(Vec<Vec2>),
    /// For `Relaxation`: the two ends of the constraint, each moved along the
    /// constraint by half of what it is longer or shorter than at rest. Ends
    /// that coincide are not moved.
    Correction(Vec2, Vec2),
}

impl Stage {
    /// Whether the stage belongs to a step: there is no pass beyond the last.
    pub open spec fn in_step(self) -> bool {
        self matches Stage::Relaxation { pass, .. } ==> pass < RELAXATION_PASSES
    }

    /// Whether the stage belongs to a step on a cloth of `constraints`
    /// constraints: there is no pass beyond the last, and the constraint to
    /// relax is one of the cloth.
    pub open spec fn valid(self, constraints: int) -> bool {
        self matches Stage::Relaxation { pass, constraint } ==> pass < RELAXATION_PASSES
            && constraint < constraints
    }

    /// The stage that follows on a cloth of `constraints` constraints. After
    /// the last constraint of the last pass, and after integration where there
    /// is no constraint, the step is over and the next begins.
    pub open spec fn spec_next(self, constraints: usize) -> Stage {
        match self {
            Stage::Forces => Stage::Integration,
            Stage::Integration => if constraints > 0 {
                Stage::Relaxation { pass: 0, constraint: 0 }
            } else {
                Stage::Forces
            },
            Stage::Relaxation { pass, constraint } => if constraint + 1 < constraints {
                Stage::Relaxation { pass, constraint: (constraint + 1) as usize }
            } else if pass + 1 < RELAXATION_PASSES && constraints > 0 {
                Stage::Relaxation { pass: (pass + 1) as usize, constraint: 0 }
            } else {
                Stage::Forces
            },
        }
    }

    /// Whether the step is over once this stage's work is done.
    pub open spec fn ends_step(self, constraints: usize) -> bool {
        self.spec_next(constraints) == Stage::Forces
    }

    /// How many pieces of work of a step come before this stage's.
    pub open spec fn place(self, constraints: int) -> int {
        match self {
            Stage::Forces => 0,
            Stage::Integration => 1,
            Stage::Relaxation { pass, constraint } => 2 + pass * constraints + constraint,
        }
    }

    /// Whether `work` is of the kind that the stage needs.
    pub open spec fn takes(self, work: Work) -> bool {
        match self {
            Stage::Forces => work is Accelerations,
            Stage::Integration => work is Positions,
            Stage::Relaxation { .. } => work is Correction,
        }
    }

    /// The stage with which every step begins.
    pub fn first() -> (stage: Stage)
        ensures
            stage == Stage::Forces,
    {
        Stage::Forces
    }

    #[verifier::when_used_as_spec(spec_next)]
    pub fn next(self, constraints: usize) -> (next: Stage)
        ensures
            next == self.spec_next(constraints),
    {
        match self {
            Stage::Forces => Stage::Integration,
            Stage::Integration => if constraints > 0 {
                Stage::Relaxation { pass: 0, constraint: 0 }
            } else {
                Stage::Forces
            },
            Stage::Relaxation { pass, constraint } => if constraints > 0 && constraint
                < constraints - 1 {
                Stage::Relaxation { pass, constraint: constraint + 1 }
            } else if constraints > 0 && pass < RELAXATION_PASSES - 1 {
                Stage::Relaxation { pass: pass + 1, constraint: 0 }
            } else {
                Stage::Forces
            },
        }
    }
}

/// Number of pieces of work in a step on a cloth of `constraints`
/// constraints: forces, integration, and `RELAXATION_PASSES` corrections of
/// each constraint.
pub open spec fn pieces(constraints: int) -> int {
    2 + RELAXATION_PASSES * constraints
}

/// The acceleration of gravity: 987 along the y axis, which points down.
pub fn gravity() -> (g: Vec2)
    ensures
        g == (Vec2 { x: Scalar { bits: 0 }, y: Scalar { bits: GRAVITY_BITS } }),
{
    Vec2::new(Scalar::zero(), Scalar::from_bits(GRAVITY_BITS))
}

} // verus!
