//! What holds of the cloth whatever numbers its caller hands in.

use vstd::prelude::*;
use crate::scalar::Scalar;
use crate::vector::Vec2;
use crate::constraint::Constraint;
use crate::model::ClothView;
use crate::model::untouched_by;
use crate::model::held_among;
use crate::model::kept;
use crate::sequence::lemma_filter_push;
use crate::sequence::lemma_filter_members;
use crate::sequence::lemma_filter_multiset;
use crate::pointer::Reading;
use crate::pointer::in_reach;
use crate::pointer::reached;
use crate::pointer::measured;
use crate::pointer::lemma_nearest_unique;
use crate::pointer::lemma_reached;
use crate::step::Stage;
use crate::step::Work;
use crate::step::RELAXATION_PASSES;
use crate::step::pieces;

verus! {

/// Pin invariant. Whatever work is handed in, a pinned particle is afterwards
/// where it was, bit for bit, came from where it came from, and is still
/// pinned.
pub proof fn lemma_pinned_particles_stay(cloth: ClothView, work: Work, i: int)
    requires
        cloth.wf(),
        0 <= i < cloth.particles.len(),
        cloth.particles[i].pinned,
    ensures
        cloth.simulate(work).particles.len() == cloth.particles.len(),
        cloth.simulate(work).particles[i].pinned,
        cloth.simulate(work).particles[i].position == cloth.particles[i].position,
        cloth.simulate(work).particles[i].previous_position
            == cloth.particles[i].previous_position,
{
}

/// Pin invariant over steps. Whatever pieces of work are handed in one after
/// the other, through however many steps, a pinned particle is afterwards
/// where it was, bit for bit, and is still pinned.
pub proof fn lemma_pinned_particles_stay_throughout(cloth: ClothView, works: Seq<Work>, i: int)
    requires
        cloth.wf(),
        0 <= i < cloth.particles.len(),
        cloth.particles[i].pinned,
    ensures
        cloth.simulate_all(works).wf(),
        cloth.simulate_all(works).particles.len() == cloth.particles.len(),
        cloth.simulate_all(works).particles[i].pinned,
        cloth.simulate_all(works).particles[i].position == cloth.particles[i].position,
        cloth.simulate_all(works).particles[i].previous_position
            == cloth.particles[i].previous_position,
    decreases works.len(),
{
    if works.len() > 0 {
        lemma_pinned_particles_stay_throughout(cloth, works.drop_last(), i);
        let before = cloth.simulate_all(works.drop_last());
        lemma_pinned_particles_stay(before, works.last(), i);
        lemma_step_keeps_shape(before, works.last());
    }
}

/// Work leaves the constraints, the selection and the size of the cloth as
/// they are, and keeps the cloth well formed.
pub proof fn lemma_step_keeps_shape(cloth: ClothView, work: Work)
    requires
        cloth.wf(),
    ensures
        cloth.simulate(work).wf(),
        cloth.simulate(work).constraints == cloth.constraints,
        cloth.simulate(work).selected == cloth.selected,
        cloth.simulate(work).offsets == cloth.offsets,
        cloth.simulate(work).width == cloth.width,
        cloth.simulate(work).height == cloth.height,
        cloth.simulate(work).particles.len() == cloth.particles.len(),
{
}

/// Work is taken in its order only. Accelerations are taken when forces are
/// due, positions when integration is due, a correction when a relaxation is
/// due; handed in at another time they change nothing. Integration becomes
/// due by the taking of forces alone, and a relaxation by the taking of
/// positions or of the correction before it.
pub proof fn lemma_work_in_order(cloth: ClothView, work: Work)
    requires
        cloth.wf(),
    ensures
        work is Accelerations && !(cloth.stage is Forces) ==> cloth.simulate(work) == cloth,
        work is Positions && !(cloth.stage is Integration) ==> cloth.simulate(work) == cloth,
        work is Correction && !(cloth.stage is Relaxation) ==> cloth.simulate(work) == cloth,
        cloth.simulate(work).stage != cloth.stage ==> cloth.stage.takes(work),
        cloth.simulate(work).stage is Integration && !(cloth.stage is Integration)
            ==> cloth.stage is Forces && work is Accelerations,
        cloth.simulate(work).stage is Relaxation && !(cloth.stage is Relaxation)
            ==> cloth.stage is Integration && work is Positions,
        cloth.stage.takes(work) ==> cloth.simulate(work).stage == cloth.stage.spec_next(
            cloth.constraints.len() as usize,
        ),
{
}

/// With the last piece of work of a step every accumulator is empty, and the
/// next step is due.
pub proof fn lemma_step_ends_reset(cloth: ClothView, work: Work, i: int)
    requires
        cloth.wf(),
        cloth.stage.takes(work),
        cloth.stage.ends_step(cloth.constraints.len() as usize),
        0 <= i < cloth.particles.len(),
    ensures
        cloth.simulate(work).stage == Stage::Forces,
        cloth.simulate(work).particles[i].acceleration == Vec2::spec_zero(),
{
}

/// The stages of a step come in one order: forces, integration, then pass by
/// pass every constraint in turn. Each stage is followed by the one whose
/// place is one further, but the last, whose place is the last of the
/// `pieces` of the step.
pub proof fn lemma_stage_order(stage: Stage, constraints: usize)
    requires
        stage.valid(constraints as int),
    ensures
        0 <= stage.place(constraints as int) < pieces(constraints as int),
        stage.ends_step(constraints) <==> stage.place(constraints as int) + 1 == pieces(
            constraints as int,
        ),
        !stage.ends_step(constraints) ==> stage.spec_next(constraints).valid(constraints as int)
            && stage.spec_next(constraints).place(constraints as int) == stage.place(
            constraints as int,
        ) + 1,
        Stage::Forces.place(constraints as int) == 0,
{
    let n = constraints as int;
    assert(RELAXATION_PASSES * n == n + n) by (nonlinear_arith);
    match stage {
        Stage::Relaxation { pass, .. } => {
            assert(pass * n == if pass == 0 {
                0
            } else {
                n
            }) by (nonlinear_arith)
                requires
                    0 <= pass < 2,
            ;
            assert((pass + 1) * n == pass * n + n) by (nonlinear_arith);
        },
        _ => {},
    }
}

/// A step is over after its pieces of work, and not before. From a stage of a
/// step, pieces of work that are each of the kind that is due lead one place
/// further each; with the last of the step's pieces the next step is due and
/// every accumulator is empty.
pub proof fn lemma_step_length(cloth: ClothView, works: Seq<Work>)
    requires
        cloth.wf(),
        cloth.constraints.len() <= usize::MAX,
        cloth.stage.valid(cloth.constraints.len() as int),
        cloth.takes_all(works),
        cloth.stage.place(cloth.constraints.len() as int) + works.len() <= pieces(
            cloth.constraints.len() as int,
        ),
    ensures
        cloth.simulate_all(works).wf(),
        cloth.simulate_all(works).constraints == cloth.constraints,
        cloth.simulate_all(works).particles.len() == cloth.particles.len(),
        cloth.simulate_all(works).stage.valid(cloth.constraints.len() as int),
        cloth.stage.place(cloth.constraints.len() as int) + works.len() < pieces(
            cloth.constraints.len() as int,
        ) ==> cloth.simulate_all(works).stage.place(cloth.constraints.len() as int)
            == cloth.stage.place(cloth.constraints.len() as int) + works.len(),
        cloth.stage.place(cloth.constraints.len() as int) + works.len() == pieces(
            cloth.constraints.len() as int,
        ) ==> cloth.simulate_all(works).stage == Stage::Forces && forall|i: int|
            0 <= i < cloth.particles.len() ==> (#[trigger] cloth.simulate_all(
                works,
            ).particles[i]).acceleration == Vec2::spec_zero(),
    decreases works.len(),
{
    let n = cloth.constraints.len() as int;
    lemma_stage_order(cloth.stage, n as usize);
    if works.len() > 0 {
        lemma_step_length(cloth, works.drop_last());
        let before = cloth.simulate_all(works.drop_last());
        lemma_stage_order(before.stage, n as usize);
        lemma_step_keeps_shape(before, works.last());
        lemma_work_in_order(before, works.last());
    }
}

/// Letting go twice is letting go once: the second time nothing is selected
/// and no particle changes.
pub proof fn lemma_clear_selection_idempotent(cloth: ClothView)
    ensures
        cloth.clear_selection().selected.len() == 0,
        cloth.clear_selection().offsets.len() == 0,
        cloth.clear_selection().clear_selection() == cloth.clear_selection(),
{
    let once = cloth.clear_selection();
    let twice = once.clear_selection();
    assert(twice.particles =~= once.particles);
}

/// Letting go unpins what was held and nothing else, and touches no place.
pub proof fn lemma_clear_selection_unpins(cloth: ClothView, k: int, i: int)
    requires
        cloth.wf(),
        0 <= k < cloth.selected.len(),
        0 <= i < cloth.particles.len(),
    ensures
        cloth.clear_selection().wf(),
        !cloth.clear_selection().particles[cloth.selected[k] as int].pinned,
        cloth.clear_selection().particles[i].position == cloth.particles[i].position,
        !held_among(cloth.selected, cloth.selected.len() as int, i)
            ==> cloth.clear_selection().particles[i] == cloth.particles[i],
{
}

/// A grab takes hold of exactly the measured particles within the radius:
/// they are pinned and selected in ascending order, each with the offset that
/// was measured of it. Every other particle is as it was, and no particle
/// changes place.
pub proof fn lemma_select(cloth: ClothView, readings: Seq<Reading>, radius: Scalar, i: int)
    requires
        cloth.wf(),
        0 <= i < cloth.particles.len(),
    ensures
        cloth.select(readings, radius).wf(),
        cloth.select(readings, radius).constraints == cloth.constraints,
        cloth.select(readings, radius).particles[i].position == cloth.particles[i].position,
        cloth.select(readings, radius).selected.contains(i as usize) <==> i < readings.len()
            && readings[i].distance.spec_le(radius),
        cloth.select(readings, radius).selected.contains(i as usize) ==> cloth.select(
            readings,
            radius,
        ).particles[i].pinned,
        !cloth.select(readings, radius).selected.contains(i as usize) ==> cloth.select(
            readings,
            radius,
        ).particles[i] == cloth.particles[i],
        forall|k: int|
            0 <= k < cloth.select(readings, radius).selected.len() ==> cloth.select(
                readings,
                radius,
            ).offsets[k] == readings[(#[trigger] cloth.select(readings, radius).selected[k])
                as int].offset,
{
    let count = cloth.particles.len() as int;
    lemma_reached(readings, radius, count);
    let picked = reached(readings, radius, count);
    if picked.contains(i as usize) {
        let k = choose|k: int| 0 <= k < picked.len() && picked[k] == i as usize;
        assert(in_reach(readings, radius, picked[k] as int));
    }
}

/// A drag puts the `k`-th selected particle at the `k`-th target, at rest and
/// with an empty accumulator, and leaves every particle that is not selected,
/// or has no target, as it was.
pub proof fn lemma_move_selected(cloth: ClothView, targets: Seq<Vec2>, count: int)
    requires
        cloth.wf(),
        0 <= count <= cloth.targeted(targets),
    ensures
        cloth.moved(targets, count).len() == cloth.particles.len(),
        forall|k: int|
            0 <= k < count ==> cloth.moved(targets, count)[(#[trigger] cloth.selected[k]) as int]
                == cloth.particles[cloth.selected[k] as int].placed(targets[k]),
        forall|i: int|
            0 <= i < cloth.particles.len() && !held_among(cloth.selected, count, i)
                ==> #[trigger] cloth.moved(targets, count)[i] == cloth.particles[i],
    decreases count,
{
    if count > 0 {
        lemma_move_selected(cloth, targets, count - 1);
    }
}

/// A drag to where the selected particles are leaves every particle in its
/// place. So does a grab followed by a drag with the pointer where it was,
/// as far as adding an offset to the pointer gives back the place from which
/// the offset was taken.
pub proof fn lemma_move_to_own_place(cloth: ClothView, targets: Seq<Vec2>, i: int)
    requires
        cloth.wf(),
        targets.len() == cloth.selected.len(),
        forall|k: int|
            0 <= k < cloth.selected.len() ==> #[trigger] targets[k]
                == cloth.particles[cloth.selected[k] as int].position,
        0 <= i < cloth.particles.len(),
    ensures
        cloth.move_selected(targets).wf(),
        cloth.move_selected(targets).particles.len() == cloth.particles.len(),
        cloth.move_selected(targets).particles[i].position == cloth.particles[i].position,
        cloth.move_selected(targets).particles[i].pinned == cloth.particles[i].pinned,
{
    let count = cloth.targeted(targets);
    lemma_move_selected(cloth, targets, count);
    lemma_move_keeps_shape(cloth, targets);
}

/// A grab followed at once by a drag with the pointer where it was leaves
/// every particle in its place, where the pointer and each recorded offset
/// add up to the place from which the offset was taken: `targets` are those
/// sums.
pub proof fn lemma_select_then_move_in_place(
    cloth: ClothView,
    readings: Seq<Reading>,
    radius: Scalar,
    targets: Seq<Vec2>,
    i: int,
)
    requires
        cloth.wf(),
        targets.len() == cloth.select(readings, radius).selected.len(),
        forall|k: int|
            0 <= k < targets.len() ==> #[trigger] targets[k] == cloth.particles[cloth.select(
                readings,
                radius,
            ).selected[k] as int].position,
        0 <= i < cloth.particles.len(),
    ensures
        cloth.select(readings, radius).move_selected(targets).wf(),
        cloth.select(readings, radius).move_selected(targets).particles.len()
            == cloth.particles.len(),
        cloth.select(readings, radius).move_selected(targets).particles[i].position
            == cloth.particles[i].position,
        cloth.select(readings, radius).move_selected(targets).selected == cloth.select(
            readings,
            radius,
        ).selected,
{
    let held = cloth.select(readings, radius);
    lemma_select(cloth, readings, radius, i);
    lemma_move_to_own_place(held, targets, i);
}

/// A drag changes no pin, no constraint and no selection, and keeps the cloth
/// well formed.
pub proof fn lemma_move_keeps_shape(cloth: ClothView, targets: Seq<Vec2>)
    requires
        cloth.wf(),
    ensures
        cloth.move_selected(targets).wf(),
        cloth.move_selected(targets).particles.len() == cloth.particles.len(),
        forall|i: int|
            0 <= i < cloth.particles.len() ==> (#[trigger] cloth.move_selected(
                targets,
            ).particles[i]).pinned == cloth.particles[i].pinned,
{
    let count = cloth.targeted(targets);
    lemma_move_selected(cloth, targets, count);
}

/// Cutting at a particle removes every constraint that has an end there and
/// no other: what is left are the constraints without an end there, each as
/// often as before and in the same order.
pub proof fn lemma_cut_at_particle(cloth: ClothView, index: usize)
    requires
        cloth.wf(),
    ensures
        cloth.cut_constraints_at_particle(index).wf(),
        cloth.cut_constraints_at_particle(index).particles == cloth.particles,
        cloth.cut_constraints_at_particle(index).constraints == cloth.constraints.filter(
            untouched_by(index),
        ),
        forall|k: int|
            0 <= k < cloth.cut_constraints_at_particle(index).constraints.len() ==> {
                let c = #[trigger] cloth.cut_constraints_at_particle(index).constraints[k];
                !c.spec_touches(index) && cloth.constraints.contains(c)
            },
        forall|k: int|
            0 <= k < cloth.constraints.len() && !cloth.constraints[k].spec_touches(index)
                ==> cloth.cut_constraints_at_particle(index).constraints.contains(
                #[trigger] cloth.constraints[k],
            ),
        cloth.cut_constraints_at_particle(index).constraints.to_multiset()
            =~= cloth.constraints.to_multiset().filter(untouched_by(index)),
{
    let test = untouched_by(index);
    lemma_filter_members(cloth.constraints, test);
    lemma_filter_multiset(cloth.constraints, test);
}

/// A cut at a place where a particle stands, and no particle of a smaller
/// index, removes every constraint with an end at that particle and none
/// other. `p` is the particle: its distance is zero, no distance is below
/// zero, and the particles before it are farther.
pub proof fn lemma_cut_at_coincident(cloth: ClothView, readings: Seq<Reading>, p: int)
    requires
        cloth.wf(),
        0 <= p < measured(readings, cloth.particles.len() as int),
        readings[p].distance.farness() == 0,
        forall|j: int|
            0 <= j < measured(readings, cloth.particles.len() as int)
                ==> (#[trigger] readings[j]).distance.farness() >= 0,
        forall|j: int| 0 <= j < p ==> (#[trigger] readings[j]).distance.farness() > 0,
    ensures
        cloth.cut_at(readings) == cloth.cut_constraints_at_particle(p as usize),
        cloth.cut_at(readings).particles == cloth.particles,
        forall|k: int|
            0 <= k < cloth.cut_at(readings).constraints.len() ==> !(#[trigger] cloth.cut_at(
                readings,
            ).constraints[k]).spec_touches(p as usize),
        forall|k: int|
            0 <= k < cloth.constraints.len() && !cloth.constraints[k].spec_touches(p as usize)
                ==> cloth.cut_at(readings).constraints.contains(#[trigger] cloth.constraints[k]),
        cloth.cut_at(readings).constraints == cloth.constraints.filter(untouched_by(p as usize)),
{
    let count = measured(readings, cloth.particles.len() as int);
    lemma_nearest_unique(readings, count, p);
    lemma_cut_at_particle(cloth, p as usize);
}

/// A cut changes no particle and no selection; it removes constraints or
/// leaves all, and keeps the cloth well formed.
pub proof fn lemma_cut_keeps_shape(cloth: ClothView, readings: Seq<Reading>)
    requires
        cloth.wf(),
    ensures
        cloth.cut_at(readings).wf(),
        cloth.cut_at(readings).particles == cloth.particles,
        cloth.cut_at(readings).selected == cloth.selected,
        cloth.cut_at(readings).constraints.len() <= cloth.constraints.len(),
        !cloth.cut_falls(readings) ==> cloth.cut_at(readings) == cloth,
{
    if cloth.cut_falls(readings) {
        let m = crate::pointer::nearest(readings, measured(readings, cloth.particles.len() as int));
        lemma_cut_at_particle(cloth, m as usize);
        cloth.constraints.lemma_filter_len(untouched_by(m as usize));
    }
}

/// Removing one constraint leaves the others, one fewer in all, on a cloth
/// that is still well formed; the particles are not touched.
pub proof fn lemma_remove_constraint(cloth: ClothView, index: int)
    requires
        cloth.wf(),
        0 <= index < cloth.constraints.len(),
    ensures
        cloth.remove_constraint(index).wf(),
        cloth.remove_constraint(index).particles == cloth.particles,
        cloth.remove_constraint(index).constraints.len() == cloth.constraints.len() - 1,
        cloth.remove_constraint(index).constraints.to_multiset().insert(cloth.constraints[index])
            =~= cloth.constraints.to_multiset(),
{
    broadcast use vstd::seq_lib::group_to_multiset_ensures;

    let all = cloth.constraints;
    let swapped = all.update(index, all.last());
    let left = swapped.drop_last();
    assert(swapped =~= left.push(all.last()));
    assert forall|c: Constraint|
        left.to_multiset().insert(all[index]).count(c) == all.to_multiset().count(c) by {
        assert(swapped.to_multiset().count(c) == left.to_multiset().insert(all.last()).count(c));
    }
}

/// Removal by a condition that answers as `test` does: where every verdict is
/// what `test` says of the constraint, the constraints kept are those that
/// fail `test`, in their order.
pub proof fn lemma_kept_filter(
    constraints: Seq<Constraint>,
    verdicts: Seq<bool>,
    test: spec_fn(Constraint) -> bool,
    count: int,
)
    requires
        0 <= count <= constraints.len(),
        verdicts.len() == constraints.len(),
        forall|k: int| 0 <= k < constraints.len() ==> verdicts[k] == test(constraints[k]),
    ensures
        kept(constraints, verdicts, count) == constraints.take(count).filter(
            |c: Constraint| !test(c),
        ),
    decreases count,
{
    let fails = |c: Constraint| !test(c);
    if count == 0 {
        reveal(Seq::filter);
    } else {
        lemma_kept_filter(constraints, verdicts, test, count - 1);
        lemma_filter_push(constraints.take(count - 1), constraints[count - 1], fails);
        assert(constraints.take(count) =~= constraints.take(count - 1).push(
            constraints[count - 1],
        ));
    }
}

} // verus!
