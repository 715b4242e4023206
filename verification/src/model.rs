//! The mesh as a mathematical value, and each operation on it as a function
//! from the mesh before to the mesh after.

use vstd::prelude::*;
use crate::scalar::Scalar;
use crate::vector::Vec2;
use crate::particle::Particle;
use crate::constraint::Constraint;
use crate::grid::RestLengths;
use crate::grid::grid_particles;
use crate::grid::grid_constraints;
use crate::pointer::Reading;
use crate::pointer::in_reach;
use crate::pointer::reached;
use crate::pointer::offsets_of;
use crate::pointer::nearest;
use crate::pointer::measured;
use crate::pointer::cut_threshold;
use crate::step::Stage;
use crate::step::Work;

verus! {

/// What a cloth holds: its particles row by row, the constraints that are
/// left, the particles that the pointer holds with the offset at which it
/// took each, and the stage of the step that is due.
pub struct ClothView {
    pub width: nat,
    pub height: nat,
    pub particles: Seq<Particle>,
    pub constraints: Seq<Constraint>,
    pub selected: Seq<usize>,
    pub offsets: Seq<Vec2>,
    pub stage: Stage,
}

impl ClothView {
    /// What holds of every cloth: it has a particle for every place of its
    /// grid, no more than a machine can count; its constraints join particles
    /// that it has; what the pointer holds are particles of it, each once, in
    /// ascending order, pinned, and each with its offset; and the stage that
    /// is due belongs to a step.
    pub open spec fn wf(self) -> bool {
        &&& self.stage.in_step()
        &&& self.width >= 1
        &&& self.height >= 1
        &&& self.particles.len() == self.width * self.height
        &&& self.particles.len() <= usize::MAX
        &&& forall|k: int|
            0 <= k < self.constraints.len() ==> (#[trigger] self.constraints[k]).within(
                self.particles.len(),
            )
        &&& self.offsets.len() == self.selected.len()
        &&& forall|k: int|
            0 <= k < self.selected.len() ==> (#[trigger] self.selected[k]) < self.particles.len()
                && self.particles[self.selected[k] as int].pinned
        &&& forall|j: int, k: int|
            0 <= j < k < self.selected.len() ==> self.selected[j] < self.selected[k]
    }

    /// The cloth cut from the grid over the given column and row coordinates,
    /// with nothing selected.
    pub open spec fn grid(columns: Seq<Scalar>, rows: Seq<Scalar>, rest: RestLengths) -> ClothView {
        ClothView {
            width: columns.len(),
            height: rows.len(),
            particles: grid_particles(columns, rows),
            constraints: grid_constraints(columns.len() as int, rows.len() as int, rest),
            selected: Seq::empty(),
            offsets: Seq::empty(),
            stage: Stage::Forces,
        }
    }

    /// The cloth with other particles in place of its own.
    pub open spec fn with_particles(self, particles: Seq<Particle>) -> ClothView {
        ClothView { particles, ..self }
    }

    /// The cloth with other constraints in place of its own.
    pub open spec fn with_constraints(self, constraints: Seq<Constraint>) -> ClothView {
        ClothView { constraints, ..self }
    }

    /// First phase of a step: every particle that is not pinned, and for which
    /// an acceleration is given, takes it into its accumulator.
    pub open spec fn apply_forces(self, accelerations: Seq<Vec2>) -> ClothView {
        self.with_particles(
            Seq::new(
                self.particles.len(),
                |i: int|
                    if i < accelerations.len() && !self.particles[i].pinned {
                        self.particles[i].with_force(accelerations[i])
                    } else {
                        self.particles[i]
                    },
            ),
        )
    }

    /// Second phase of a step: every particle for which a next position is
    /// given takes an integration step to it.
    pub open spec fn integrate(self, next_positions: Seq<Vec2>) -> ClothView {
        self.with_particles(
            Seq::new(
                self.particles.len(),
                |i: int|
                    if i < next_positions.len() {
                        self.particles[i].updated(next_positions[i])
                    } else {
                        self.particles[i]
                    },
            ),
        )
    }

    /// One correction of the third phase: the two ends of constraint `index`
    /// are corrected to `a` and to `b`, the first end first.
    pub open spec fn relax(self, index: int, a: Vec2, b: Vec2) -> ClothView {
        if 0 <= index < self.constraints.len() {
            let first = self.constraints[index].particle_a as int;
            let second = self.constraints[index].particle_b as int;
            let once = self.particles.update(first, self.particles[first].corrected(a));
            self.with_particles(once.update(second, once[second].corrected(b)))
        } else {
            self
        }
    }

    /// Last phase of a step: every accumulator is emptied.
    pub open spec fn reset_accelerations(self) -> ClothView {
        self.with_particles(
            Seq::new(
                self.particles.len(),
                |i: int| self.particles[i].with_force(Vec2::spec_zero()),
            ),
        )
    }

    /// The cloth after `work` has been taken in at the stage that is due,
    /// before the accumulators are emptied and the stage moves on.
    pub open spec fn worked(self, work: Work) -> ClothView {
        match (self.stage, work) {
            (Stage::Forces, Work::Accelerations(accelerations)) => self.apply_forces(
                accelerations@,
            ),
            (Stage::Integration, Work::Positions(positions)) => self.integrate(positions@),
            (Stage::Relaxation { constraint, .. }, Work::Correction(a, b)) => self.relax(
                constraint as int,
                a,
                b,
            ),
            _ => self,
        }
    }

    /// The cloth after `work` has been handed in. Work of another kind than
    /// the stage that is due needs is left aside, and nothing changes. Other
    /// work is taken in, and the stage that follows is due; where that ends
    /// the step, the accumulators are emptied.
    pub open spec fn simulate(self, work: Work) -> ClothView {
        if !self.stage.takes(work) {
            self
        } else {
            let next = self.stage.spec_next(self.constraints.len() as usize);
            let worked = if next == Stage::Forces {
                self.worked(work).reset_accelerations()
            } else {
                self.worked(work)
            };
            ClothView { stage: next, ..worked }
        }
    }

    /// The cloth after the pieces of work have been handed in one after the
    /// other.
    pub open spec fn simulate_all(self, works: Seq<Work>) -> ClothView
        decreases works.len(),
    {
        if works.len() == 0 {
            self
        } else {
            self.simulate_all(works.drop_last()).simulate(works.last())
        }
    }

    /// Whether each of the pieces of work, handed in one after the other, is
    /// of the kind that is due when its turn comes.
    pub open spec fn takes_all(self, works: Seq<Work>) -> bool
        decreases works.len(),
    {
        works.len() > 0 ==> self.takes_all(works.drop_last()) && self.simulate_all(
            works.drop_last(),
        ).stage.takes(works.last())
    }

    /// The pointer takes hold of the measured particles within `radius`: they
    /// are pinned, and they alone are selected, each with its offset. What was
    /// selected before is let go of without a change to its pin.
    pub open spec fn select(self, readings: Seq<Reading>, radius: Scalar) -> ClothView {
        let picked = reached(readings, radius, self.particles.len() as int);
        ClothView {
            particles: Seq::new(
                self.particles.len(),
                |i: int|
                    if in_reach(readings, radius, i) {
                        self.particles[i].with_pin(true)
                    } else {
                        self.particles[i]
                    },
            ),
            selected: picked,
            offsets: offsets_of(readings, picked),
            ..self
        }
    }

    /// The particles after the first `count` selected ones have been put at
    /// their targets.
    pub open spec fn moved(self, targets: Seq<Vec2>, count: int) -> Seq<Particle>
        decreases count,
    {
        if count <= 0 {
            self.particles
        } else {
            let before = self.moved(targets, count - 1);
            let i = self.selected[count - 1] as int;
            before.update(i, before[i].placed(targets[count - 1]))
        }
    }

    /// How many selected particles have a target.
    pub open spec fn targeted(self, targets: Seq<Vec2>) -> int {
        if targets.len() < self.selected.len() {
            targets.len() as int
        } else {
            self.selected.len() as int
        }
    }

    /// Every selected particle for which a target is given is put there.
    pub open spec fn move_selected(self, targets: Seq<Vec2>) -> ClothView {
        self.with_particles(self.moved(targets, self.targeted(targets)))
    }

    /// The pointer lets go: what it held is no longer pinned, and nothing is
    /// selected.
    pub open spec fn clear_selection(self) -> ClothView {
        ClothView {
            particles: Seq::new(
                self.particles.len(),
                |i: int|
                    if held_among(self.selected, self.selected.len() as int, i) {
                        self.particles[i].with_pin(false)
                    } else {
                        self.particles[i]
                    },
            ),
            selected: Seq::empty(),
            offsets: Seq::empty(),
            ..self
        }
    }

    /// Every constraint with an end at particle `index` is removed; the others
    /// stay in their order.
    pub open spec fn cut_constraints_at_particle(self, index: usize) -> ClothView {
        self.with_constraints(self.constraints.filter(untouched_by(index)))
    }

    /// Whether a cut by these readings falls on a particle: one is measured,
    /// and the nearest is nearer than the threshold.
    pub open spec fn cut_falls(self, readings: Seq<Reading>) -> bool {
        let count = measured(readings, self.particles.len() as int);
        count > 0 && readings[nearest(readings, count)].distance.spec_lt(cut_threshold())
    }

    /// The constraints at the nearest measured particle are cut where the cut
    /// falls; else nothing changes.
    pub open spec fn cut_at(self, readings: Seq<Reading>) -> ClothView {
        if self.cut_falls(readings) {
            self.cut_constraints_at_particle(
                nearest(readings, measured(readings, self.particles.len() as int)) as usize,
            )
        } else {
            self
        }
    }

    /// Constraint `index` is removed and the last constraint takes its place;
    /// nothing changes where there is no such constraint.
    pub open spec fn remove_constraint(self, index: int) -> ClothView {
        if 0 <= index < self.constraints.len() {
            self.with_constraints(
                self.constraints.update(index, self.constraints.last()).drop_last(),
            )
        } else {
            self
        }
    }
}

/// Whether particle `i` is one of the first `count` of `selected`.
pub open spec fn held_among(selected: Seq<usize>, count: int, i: int) -> bool {
    exists|k: int| 0 <= k < count && k < selected.len() && #[trigger] selected[k] == i
}

/// The test that a constraint passes when neither of its ends is particle
/// `index`.
pub open spec fn untouched_by(index: usize) -> spec_fn(Constraint) -> bool {
    |c: Constraint| !c.spec_touches(index)
}

/// The constraints among the first `count` whose verdict is not to remove
/// them, in their order.
pub open spec fn kept(constraints: Seq<Constraint>, verdicts: Seq<bool>, count: int) -> Seq<
    Constraint,
>
    decreases count,
{
    if count <= 0 {
        Seq::empty()
    } else if verdicts[count - 1] {
        kept(constraints, verdicts, count - 1)
    } else {
        kept(constraints, verdicts, count - 1).push(constraints[count - 1])
    }
}

/// What is kept of the first constraints depends on their verdicts alone.
pub proof fn lemma_kept_prefix(
    constraints: Seq<Constraint>,
    verdicts: Seq<bool>,
    longer: Seq<bool>,
    count: int,
)
    requires
        0 <= count <= verdicts.len() <= longer.len(),
        forall|k: int| 0 <= k < count ==> verdicts[k] == longer[k],
    ensures
        kept(constraints, verdicts, count) == kept(constraints, longer, count),
    decreases count,
{
    if count > 0 {
        lemma_kept_prefix(constraints, verdicts, longer, count - 1);
    }
}

/// Whether `verdicts` holds, for each constraint in turn, an answer of
/// `condition` to it.
pub open spec fn verdicts_of<F: Fn(&Constraint) -> bool>(
    condition: F,
    constraints: Seq<Constraint>,
    verdicts: Seq<bool>,
) -> bool {
    &&& verdicts.len() == constraints.len()
    &&& forall|k: int|
        0 <= k < constraints.len() ==> call_ensures(
            condition,
            (&constraints[k],),
            #[trigger] verdicts[k],
        )
}

} // verus!
