//! The cloth: a grid of particles tied by distance constraints, stepped through
//! time and reshaped by a pointer while it hangs.
//!
//! The cloth owns every particle and constraint and decides what may change
//! them. Numbers come from its caller: the caller works out accelerations,
//! next positions, corrections and pointer measurements, and the cloth takes
//! them in where its rules allow. A pinned particle takes in none of them.

use vstd::prelude::*;
use crate::scalar::Scalar;
use crate::vector::Vec2;
use crate::particle::Particle;
use crate::constraint::Constraint;
use crate::grid::RestLengths;
use crate::grid::build_particles;
use crate::grid::build_constraints;
use crate::grid::constraint_count;
use crate::grid::lemma_grid_within;
use crate::grid::lemma_grid_constraint_count;
use crate::model::ClothView;
use crate::model::untouched_by;
use crate::model::kept;
use crate::model::verdicts_of;
use crate::model::lemma_kept_prefix;
use crate::model::held_among;
use crate::sequence::lemma_filter_push;
use crate::pointer::Reading;
use crate::pointer::CUT_THRESHOLD_BITS;
use crate::pointer::reached;
use crate::pointer::offsets_of;
use crate::pointer::nearest_reading;
use crate::pointer::lemma_reached;
use crate::pointer::lemma_reached_step;
use crate::step::Stage;
use crate::step::Work;

verus! {

/// A rectangular piece of cloth.
pub struct Cloth {
    particles: Vec<Particle>,
    constraints: Vec<Constraint>,
    width: usize,
    height: usize,
    selected_particles: Vec<usize>,
    selection_offsets: Vec<Vec2>,
    stage: Stage,
}

impl View for Cloth {
    type V = ClothView;

    closed spec fn view(&self) -> ClothView {
        ClothView {
            width: self.width as nat,
            height: self.height as nat,
            particles: self.particles@,
            constraints: self.constraints@,
            selected: self.selected_particles@,
            offsets: self.selection_offsets@,
            stage: self.stage,
        }
    }
}

impl Cloth {
    /// What holds of every cloth that this library hands out.
    pub open spec fn wf(&self) -> bool {
        self@.wf()
    }

    /// Cuts a cloth from the grid whose columns and rows stand at the given
    /// coordinates. The top row is pinned, so that the cloth hangs from it,
    /// and nothing is selected.
    pub fn new(columns: &Vec<Scalar>, rows: &Vec<Scalar>, rest: RestLengths) -> (cloth: Cloth)
        requires
            columns.len() >= 1,
            rows.len() >= 1,
            columns.len() * rows.len() <= usize::MAX,
        ensures
            cloth@ == ClothView::grid(columns@, rows@, rest),
            cloth.wf(),
            cloth@.particles.len() == columns.len() * rows.len(),
            cloth@.constraints.len() == constraint_count(columns.len() as int, rows.len() as int),
    {
        let width = columns.len();
        let height = rows.len();
        let particles = build_particles(columns, rows);
        let constraints = build_constraints(width, height, rest);
        proof {
            lemma_grid_within(width as int, height as int, rest);
            lemma_grid_constraint_count(width as int, height as int, rest);
        }
        Cloth {
            particles,
            constraints,
            width,
            height,
            selected_particles: Vec::new(),
            selection_offsets: Vec::new(),
            stage: Stage::Forces,
        }
    }

    /// The particles, row by row.
    pub fn particles(&self) -> (r: &Vec<Particle>)
        ensures
            r@ == self@.particles,
    {
        &self.particles
    }

    /// The constraints that are left.
    pub fn constraints(&self) -> (r: &Vec<Constraint>)
        ensures
            r@ == self@.constraints,
    {
        &self.constraints
    }

    /// Number of particles in a row.
    pub fn width(&self) -> (r: usize)
        ensures
            r == self@.width,
    {
        self.width
    }

    /// Number of rows.
    pub fn height(&self) -> (r: usize)
        ensures
            r == self@.height,
    {
        self.height
    }

    /// The particles that the pointer holds, ascending.
    pub fn selected_particles(&self) -> (r: &Vec<usize>)
        ensures
            r@ == self@.selected,
    {
        &self.selected_particles
    }

    /// For each particle that the pointer holds, the offset from the pointer
    /// at which it was taken.
    pub fn selection_offsets(&self) -> (r: &Vec<Vec2>)
        ensures
            r@ == self@.offsets,
    {
        &self.selection_offsets
    }

    /// First phase of a step. `accelerations[i]` is the new value of particle
    /// `i`'s accumulator: its old value and what gravity and damping add to
    /// it. Pinned particles take none.
    fn apply_forces(&mut self, accelerations: &Vec<Vec2>)
        requires
            old(self).wf(),
        ensures
            final(self)@ == old(self)@.apply_forces(accelerations@),
            final(self).wf(),
    {
        let ghost before = self@;
        let count = self.particles.len();
        let mut i: usize = 0;
        while i < count
            invariant
                i <= count,
                count == before.particles.len(),
                self@ == before.with_particles(self@.particles),
                self@.particles.len() == count,
                forall|j: int|
                    0 <= j < i ==> self@.particles[j] == before.apply_forces(
                        accelerations@,
                    ).particles[j],
                forall|j: int| i <= j < count ==> self@.particles[j] == before.particles[j],
            decreases count - i,
        {
            if i < accelerations.len() && !self.particles[i].pinned {
                self.particles[i].apply_force(accelerations[i]);
            }
            i += 1;
        }
        assert(self@.particles =~= before.apply_forces(accelerations@).particles);
    }

    /// Second phase of a step. `next_positions[i]` is where integration takes
    /// particle `i` from where it is and was. Pinned particles stay.
    fn integrate(&mut self, next_positions: &Vec<Vec2>)
        requires
            old(self).wf(),
        ensures
            final(self)@ == old(self)@.integrate(next_positions@),
            final(self).wf(),
    {
        let ghost before = self@;
        let count = self.particles.len();
        let mut i: usize = 0;
        while i < count
            invariant
                i <= count,
                count == before.particles.len(),
                self@ == before.with_particles(self@.particles),
                self@.particles.len() == count,
                forall|j: int|
                    0 <= j < i ==> self@.particles[j] == before.integrate(
                        next_positions@,
                    ).particles[j],
                forall|j: int| i <= j < count ==> self@.particles[j] == before.particles[j],
            decreases count - i,
        {
            if i < next_positions.len() {
                self.particles[i].update(next_positions[i]);
            }
            i += 1;
        }
        assert(self@.particles =~= before.integrate(next_positions@).particles);
    }

    /// One correction of the third phase. `a` and `b` are where relaxation
    /// puts the two ends of constraint `index`, each moved by half of what the
    /// constraint is too long or too short. A pinned end stays. Nothing
    /// happens where there is no such constraint.
    fn relax(&mut self, index: usize, a: Vec2, b: Vec2)
        requires
            old(self).wf(),
        ensures
            final(self)@ == old(self)@.relax(index as int, a, b),
            final(self).wf(),
    {
        if index < self.constraints.len() {
            let (first, second) = self.constraints[index].particles();
            self.particles[first].correct(a);
            self.particles[second].correct(b);
        }
    }

    /// Last phase of a step: empties every accumulator.
    fn reset_accelerations(&mut self)
        requires
            old(self).wf(),
        ensures
            final(self)@ == old(self)@.reset_accelerations(),
            final(self).wf(),
    {
        let ghost before = self@;
        let count = self.particles.len();
        let mut i: usize = 0;
        while i < count
            invariant
                i <= count,
                count == before.particles.len(),
                self@ == before.with_particles(self@.particles),
                self@.particles.len() == count,
                forall|j: int|
                    0 <= j < i ==> self@.particles[j] == before.reset_accelerations().particles[j],
                forall|j: int| i <= j < count ==> self@.particles[j] == before.particles[j],
            decreases count - i,
        {
            self.particles[i].apply_force(Vec2::zero());
            i += 1;
        }
        assert(self@.particles =~= before.reset_accelerations().particles);
    }

    /// The stage of the step that is due: the kind of work that the cloth
    /// takes next.
    pub fn stage(&self) -> (r: Stage)
        ensures
            r == self@.stage,
    {
        self.stage
    }

    /// Takes in the work of the stage that is due and says which stage is due
    /// then. `Stage::Forces` is due when the step is over.
    ///
    /// Work that is not of the kind that is due is left aside: the cloth
    /// stays as it is, and the same stage is due again. So forces come before
    /// integration and every correction after it, whatever the caller does.
    /// No work moves a pinned particle. The constraints and the selection
    /// stay as they are throughout. With the last piece of work of a step all
    /// accumulators are emptied.
    pub fn simulate(&mut self, work: &Work) -> (due: Stage)
        requires
            old(self).wf(),
        ensures
            final(self)@ == old(self)@.simulate(*work),
            due == final(self)@.stage,
            final(self).wf(),
            final(self)@.constraints == old(self)@.constraints,
            final(self)@.selected == old(self)@.selected,
            final(self)@.offsets == old(self)@.offsets,
            final(self)@.particles.len() == old(self)@.particles.len(),
            forall|i: int|
                0 <= i < old(self)@.particles.len() && old(self)@.particles[i].pinned ==> {
                    &&& (#[trigger] final(self)@.particles[i]).pinned
                    &&& final(self)@.particles[i].position == old(self)@.particles[i].position
                    &&& final(self)@.particles[i].previous_position == old(
                        self,
                    )@.particles[i].previous_position
                },
    {
        match (self.stage, work) {
            (Stage::Forces, Work::Accelerations(accelerations)) => {
                self.apply_forces(accelerations);
            },
            (Stage::Integration, Work::Positions(positions)) => {
                self.integrate(positions);
            },
            (Stage::Relaxation { constraint, .. }, Work::Correction(a, b)) => {
                self.relax(constraint, *a, *b);
            },
            _ => {
                return self.stage;
            },
        }
        let next = self.stage.next(self.constraints.len());
        if next == Stage::Forces {
            self.reset_accelerations();
        }
        self.stage = next;
        next
    }

    /// The pointer takes hold. `readings[i]` is particle `i` as measured from
    /// the pointer. Every measured particle no farther than `radius` is pinned
    /// and selected, with the offset at which it was taken; what was selected
    /// before is no longer. A radius below every distance, or one that is no
    /// number, selects nothing.
    pub fn select_particles(&mut self, readings: &Vec<Reading>, radius: Scalar)
        requires
            old(self).wf(),
        ensures
            final(self)@ == old(self)@.select(readings@, radius),
            final(self).wf(),
    {
        let ghost before = self@;
        let mut selected: Vec<usize> = Vec::new();
        let mut offsets: Vec<Vec2> = Vec::new();
        let count = self.particles.len();
        let mut i: usize = 0;
        proof {
            lemma_reached(readings@, radius, 0);
        }
        while i < count
            invariant
                i <= count,
                count == before.particles.len(),
                self@ == before.with_particles(self@.particles),
                self@.particles.len() == count,
                selected@ == reached(readings@, radius, i as int),
                offsets@ == offsets_of(readings@, selected@),
                forall|j: int|
                    0 <= j < i ==> self@.particles[j] == before.select(
                        readings@,
                        radius,
                    ).particles[j],
                forall|j: int| i <= j < count ==> self@.particles[j] == before.particles[j],
            decreases count - i,
        {
            proof {
                lemma_reached_step(readings@, radius, i as int);
            }
            if i < readings.len() && readings[i].distance.le(radius) {
                selected.push(i);
                offsets.push(readings[i].offset);
                self.particles[i].pinned = true;
            }
            i += 1;
        }
        self.selected_particles = selected;
        self.selection_offsets = offsets;
        proof {
            lemma_reached(readings@, radius, count as int);
            assert(self@.particles =~= before.select(readings@, radius).particles);
        }
    }

    /// The pointer drags what it holds. `targets[k]` is where the `k`-th
    /// selected particle goes: the pointer's position and that particle's
    /// offset, added. The particle is put there at rest, with an empty
    /// accumulator, so that neither the drag nor its end throws it.
    pub fn move_selected_particles(&mut self, targets: &Vec<Vec2>)
        requires
            old(self).wf(),
        ensures
            final(self)@ == old(self)@.move_selected(targets@),
            final(self).wf(),
    {
        let ghost before = self@;
        let count = if targets.len() < self.selected_particles.len() {
            targets.len()
        } else {
            self.selected_particles.len()
        };
        let mut k: usize = 0;
        while k < count
            invariant
                k <= count,
                count == before.targeted(targets@),
                before.wf(),
                self@ == before.with_particles(self@.particles),
                self@.particles == before.moved(targets@, k as int),
                self@.particles.len() == before.particles.len(),
                forall|i: int|
                    0 <= i < self@.particles.len() ==> (#[trigger] self@.particles[i]).pinned
                        == before.particles[i].pinned,
            decreases count - k,
        {
            let index = self.selected_particles[k];
            self.particles[index].set_position(targets[k]);
            k += 1;
        }
    }

    /// The pointer lets go: every selected particle is unpinned, and nothing
    /// is selected any more.
    pub fn clear_selection(&mut self)
        requires
            old(self).wf(),
        ensures
            final(self)@ == old(self)@.clear_selection(),
            final(self).wf(),
    {
        let ghost before = self@;
        let count = self.selected_particles.len();
        let mut k: usize = 0;
        while k < count
            invariant
                k <= count,
                count == before.selected.len(),
                before.wf(),
                self@ == before.with_particles(self@.particles),
                self@.particles.len() == before.particles.len(),
                forall|i: int|
                    0 <= i < self@.particles.len() ==> #[trigger] self@.particles[i] == if held_among(
                        before.selected,
                        k as int,
                        i,
                    ) {
                        before.particles[i].with_pin(false)
                    } else {
                        before.particles[i]
                    },
            decreases count - k,
        {
            let index = self.selected_particles[k];
            self.particles[index].pinned = false;
            k += 1;
        }
        self.selected_particles.clear();
        self.selection_offsets.clear();
        proof {
            assert(self@.particles =~= before.clear_selection().particles);
        }
    }

    /// Removes all constraints connected to a given particle; the others stay
    /// in their order.
    pub fn cut_constraints_at_particle(&mut self, particle_index: usize)
        requires
            old(self).wf(),
        ensures
            final(self)@ == old(self)@.cut_constraints_at_particle(particle_index),
            final(self).wf(),
    {
        let ghost before = self@;
        let ghost pred = untouched_by(particle_index);
        let mut left: Vec<Constraint> = Vec::new();
        let count = self.constraints.len();
        let mut i: usize = 0;
        proof {
            reveal(Seq::filter);
        }
        while i < count
            invariant
                i <= count,
                count == before.constraints.len(),
                before.wf(),
                self@ == before,
                pred == untouched_by(particle_index),
                left@ == before.constraints.take(i as int).filter(pred),
                forall|k: int|
                    0 <= k < left@.len() ==> (#[trigger] left@[k]).within(before.particles.len()),
            decreases count - i,
        {
            let constraint = self.constraints[i];
            proof {
                lemma_filter_push(before.constraints.take(i as int), constraint, pred);
                assert(before.constraints.take(i as int + 1) =~= before.constraints.take(
                    i as int,
                ).push(constraint));
            }
            if !constraint.touches(particle_index) {
                left.push(constraint);
            }
            i += 1;
        }
        proof {
            assert(before.constraints.take(count as int) =~= before.constraints);
        }
        self.constraints = left;
    }

    /// A cut at the pointer. `readings[i]` is particle `i` as measured from
    /// the pointer. The cut falls on the nearest measured particle, the first
    /// of them where several are as near, if that one is nearer than the
    /// threshold: all its constraints are removed. Else nothing changes.
    pub fn cut_at_mouse(&mut self, readings: &Vec<Reading>)
        requires
            old(self).wf(),
        ensures
            final(self)@ == old(self)@.cut_at(readings@),
            final(self).wf(),
    {
        match nearest_reading(readings, self.particles.len()) {
            Some(m) => {
                if readings[m].distance.lt(Scalar::from_bits(CUT_THRESHOLD_BITS)) {
                    self.cut_constraints_at_particle(m);
                }
            },
            None => {},
        }
    }

    /// Removes a constraint at the specified index; the last constraint takes
    /// its place. Nothing changes where there is no such constraint.
    pub fn remove_constraint(&mut self, index: usize)
        requires
            old(self).wf(),
        ensures
            final(self)@ == old(self)@.remove_constraint(index as int),
            final(self).wf(),
    {
        if index < self.constraints.len() {
            self.constraints.swap_remove(index);
        }
    }

    /// Removes the constraints of which `condition` says so, asked once for
    /// each in turn; the others stay in their order.
    pub fn remove_constraints<F: Fn(&Constraint) -> bool>(&mut self, condition: F)
        requires
            old(self).wf(),
            forall|k: int|
                0 <= k < old(self)@.constraints.len() ==> call_requires(
                    condition,
                    (&#[trigger] old(self)@.constraints[k],),
                ),
        ensures
            exists|verdicts: Seq<bool>|
                verdicts_of(condition, old(self)@.constraints, verdicts) && final(self)@ == old(
                    self,
                )@.with_constraints(
                    kept(old(self)@.constraints, verdicts, old(self)@.constraints.len() as int),
                ),
            final(self).wf(),
    {
        let ghost before = self@;
        let ghost mut verdicts: Seq<bool> = Seq::empty();
        let mut left: Vec<Constraint> = Vec::new();
        let count = self.constraints.len();
        let mut i: usize = 0;
        while i < count
            invariant
                i <= count,
                count == before.constraints.len(),
                before.wf(),
                self@ == before,
                forall|k: int|
                    0 <= k < before.constraints.len() ==> call_requires(
                        condition,
                        (&#[trigger] before.constraints[k],),
                    ),
                verdicts.len() == i,
                forall|k: int|
                    0 <= k < i ==> call_ensures(
                        condition,
                        (&before.constraints[k],),
                        #[trigger] verdicts[k],
                    ),
                left@ == kept(before.constraints, verdicts, i as int),
                forall|k: int|
                    0 <= k < left@.len() ==> (#[trigger] left@[k]).within(before.particles.len()),
            decreases count - i,
        {
            let remove = condition(&self.constraints[i]);
            proof {
                let ghost longer = verdicts.push(remove);
                lemma_kept_prefix(before.constraints, verdicts, longer, i as int);
                verdicts = longer;
            }
            if !remove {
                left.push(self.constraints[i]);
            }
            i += 1;
        }
        self.constraints = left;
        proof {
            assert(verdicts_of(condition, before.constraints, verdicts));
        }
    }
}

} // verus!
