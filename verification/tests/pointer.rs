use miniphys::cloth::Cloth;
use miniphys::constraint::Constraint;
use miniphys::grid::RestLengths;
use miniphys::particle::Particle;
use miniphys::pointer::nearest_reading;
use miniphys::pointer::Reading;
use miniphys::scalar::Scalar;
use miniphys::step::Work;
use miniphys::vector::Vec2;

fn scalar(value: f64) -> Scalar {
    Scalar::from_bits(value.to_bits())
}

fn number(scalar: Scalar) -> f64 {
    f64::from_bits(scalar.to_bits())
}

fn vector(x: f64, y: f64) -> Vec2 {
    Vec2::new(scalar(x), scalar(y))
}

fn pair(v: &Vec2) -> (f64, f64) {
    (number(v.x()), number(v.y()))
}

fn axis(count: usize, spacing: f64) -> Vec<Scalar> {
    (0..count).map(|k| scalar(k as f64 * spacing)).collect()
}

fn rest(spacing: f64) -> RestLengths {
    RestLengths {
        structural: scalar(spacing),
        shear: scalar(spacing * std::f64::consts::SQRT_2),
        bend: scalar(spacing * 2.0),
    }
}

fn cloth(width: usize, height: usize, spacing: f64) -> Cloth {
    Cloth::new(&axis(width, spacing), &axis(height, spacing), rest(spacing))
}

fn readings(cloth: &Cloth, pointer: (f64, f64)) -> Vec<Reading> {
    cloth
        .particles()
        .iter()
        .map(|p| {
            let (x, y) = pair(p.position());
            let (dx, dy) = (x - pointer.0, y - pointer.1);
            Reading::new(vector(dx, dy), scalar((dx * dx + dy * dy).sqrt()))
        })
        .collect()
}

fn targets(cloth: &Cloth, pointer: (f64, f64)) -> Vec<Vec2> {
    cloth
        .selection_offsets()
        .iter()
        .map(|offset| {
            let (dx, dy) = pair(offset);
            vector(pointer.0 + dx, pointer.1 + dy)
        })
        .collect()
}

fn select(cloth: &mut Cloth, pointer: (f64, f64), radius: f64) {
    let readings = readings(cloth, pointer);
    cloth.select_particles(&readings, scalar(radius));
}

fn drag(cloth: &mut Cloth, pointer: (f64, f64)) {
    let targets = targets(cloth, pointer);
    cloth.move_selected_particles(&targets);
}

fn cut(cloth: &mut Cloth, pointer: (f64, f64)) {
    let readings = readings(cloth, pointer);
    cloth.cut_at_mouse(&readings);
}

fn distances(values: &[f64]) -> Vec<Reading> {
    values
        .iter()
        .map(|d| Reading::new(Vec2::zero(), scalar(*d)))
        .collect()
}

fn without(constraints: &Vec<Constraint>, index: usize) -> Vec<Constraint> {
    constraints
        .iter()
        .filter(|c| c.particles().0 != index && c.particles().1 != index)
        .copied()
        .collect()
}

#[test]
fn a_grab_takes_the_particle_under_the_pointer() {
    let mut cloth = cloth(3, 3, 5.0);
    select(&mut cloth, (5.0, 5.0), 2.0);
    assert_eq!(*cloth.selected_particles(), vec![4]);
    assert_eq!(*cloth.selection_offsets(), vec![vector(0.0, 0.0)]);
    assert!(cloth.particles()[4].pinned());
    assert!(!cloth.particles()[3].pinned());
    assert!(!cloth.particles()[5].pinned());
}

#[test]
fn a_grab_takes_all_within_the_radius_in_ascending_order() {
    let mut cloth = cloth(3, 3, 5.0);
    select(&mut cloth, (5.0, 5.0), 5.0);
    assert_eq!(*cloth.selected_particles(), vec![1, 3, 4, 5, 7]);
    assert_eq!(
        *cloth.selection_offsets(),
        vec![
            vector(0.0, -5.0),
            vector(-5.0, 0.0),
            vector(0.0, 0.0),
            vector(5.0, 0.0),
            vector(0.0, 5.0),
        ]
    );
    let pins: Vec<bool> = cloth.particles().iter().map(|p| p.pinned()).collect();
    assert_eq!(
        pins,
        vec![true, true, true, true, true, true, false, true, false]
    );
}

#[test]
fn a_grab_moves_nothing_and_cuts_nothing() {
    let mut cloth = cloth(3, 3, 5.0);
    let places: Vec<Vec2> = cloth.particles().iter().map(|p| *p.position()).collect();
    let constraints = cloth.constraints().clone();
    select(&mut cloth, (5.0, 5.0), 5.0);
    let after: Vec<Vec2> = cloth.particles().iter().map(|p| *p.position()).collect();
    assert_eq!(after, places);
    assert_eq!(*cloth.constraints(), constraints);
}

#[test]
fn a_grab_starts_from_nothing_selected() {
    let mut cloth = cloth(3, 3, 5.0);
    select(&mut cloth, (5.0, 5.0), 1.0);
    select(&mut cloth, (10.0, 10.0), 1.0);
    assert_eq!(*cloth.selected_particles(), vec![8]);
    assert_eq!(cloth.selection_offsets().len(), 1);
    assert!(cloth.particles()[8].pinned());
    assert!(cloth.particles()[4].pinned());
}

#[test]
fn the_same_grab_twice_selects_the_same() {
    let mut cloth = cloth(3, 3, 5.0);
    select(&mut cloth, (5.0, 5.0), 5.0);
    let first = cloth.selected_particles().clone();
    let offsets = cloth.selection_offsets().clone();
    select(&mut cloth, (5.0, 5.0), 5.0);
    assert_eq!(*cloth.selected_particles(), first);
    assert_eq!(*cloth.selection_offsets(), offsets);
}

#[test]
fn a_grab_out_of_range_selects_nothing() {
    let mut cloth = cloth(3, 3, 5.0);
    let before = cloth.particles().clone();
    select(&mut cloth, (100.0, 100.0), 2.0);
    assert!(cloth.selected_particles().is_empty());
    assert!(cloth.selection_offsets().is_empty());
    assert_eq!(*cloth.particles(), before);
}

#[test]
fn a_radius_of_zero_takes_what_is_exactly_under_the_pointer() {
    let mut cloth = cloth(3, 3, 5.0);
    select(&mut cloth, (5.0, 5.0), 0.0);
    assert_eq!(*cloth.selected_particles(), vec![4]);
    select(&mut cloth, (5.0, 5.5), 0.0);
    assert!(cloth.selected_particles().is_empty());
}

#[test]
fn a_radius_below_zero_or_none_takes_nothing() {
    let mut cloth = cloth(3, 3, 5.0);
    let before = cloth.particles().clone();
    select(&mut cloth, (5.0, 5.0), -1.0);
    assert!(cloth.selected_particles().is_empty());
    select(&mut cloth, (5.0, 5.0), f64::NAN);
    assert!(cloth.selected_particles().is_empty());
    select(&mut cloth, (5.0, 5.0), f64::NEG_INFINITY);
    assert!(cloth.selected_particles().is_empty());
    assert_eq!(*cloth.particles(), before);
}

#[test]
fn an_endless_radius_takes_every_particle() {
    let mut cloth = cloth(3, 3, 5.0);
    select(&mut cloth, (5.0, 5.0), f64::INFINITY);
    assert_eq!(*cloth.selected_particles(), (0..9).collect::<Vec<usize>>());
}

#[test]
fn a_particle_without_a_reading_or_without_a_distance_is_not_taken() {
    let mut cloth = cloth(3, 3, 5.0);
    let mut some = readings(&cloth, (5.0, 5.0));
    some.truncate(4);
    some[1] = Reading::new(vector(0.0, -5.0), scalar(f64::NAN));
    cloth.select_particles(&some, scalar(100.0));
    assert_eq!(*cloth.selected_particles(), vec![0, 2, 3]);
    assert!(!cloth.particles()[4].pinned());
}

#[test]
fn readings_beyond_the_particles_are_not_looked_at() {
    let mut cloth = cloth(2, 1, 5.0);
    cloth.select_particles(&distances(&[1.0, 1.0, 1.0, 1.0]), scalar(2.0));
    assert_eq!(*cloth.selected_particles(), vec![0, 1]);
}

#[test]
fn a_drag_puts_what_is_held_at_the_pointer_with_its_offset() {
    let mut cloth = cloth(3, 3, 5.0);
    cloth.simulate(&Work::Accelerations(vec![vector(1.0, 1.0); 9]));
    assert_eq!(*cloth.particles()[4].acceleration(), vector(1.0, 1.0));
    select(&mut cloth, (5.0, 5.0), 5.0);
    drag(&mut cloth, (6.0, 7.5));
    let expected = [
        (1, (6.0, 2.5)),
        (3, (1.0, 7.5)),
        (4, (6.0, 7.5)),
        (5, (11.0, 7.5)),
        (7, (6.0, 12.5)),
    ];
    for (index, place) in expected {
        let p = &cloth.particles()[index];
        assert_eq!(pair(p.position()), place);
        assert_eq!(pair(p.previous_position()), place);
        assert_eq!(*p.acceleration(), Vec2::zero());
        assert!(p.pinned());
    }
    assert_eq!(pair(cloth.particles()[0].position()), (0.0, 0.0));
    assert_eq!(pair(cloth.particles()[8].position()), (10.0, 10.0));
    assert_eq!(*cloth.selected_particles(), vec![1, 3, 4, 5, 7]);
}

#[test]
fn a_drag_with_the_pointer_where_it_grabbed_leaves_every_place() {
    let mut cloth = cloth(4, 4, 5.0);
    let before: Vec<Vec2> = cloth.particles().iter().map(|p| *p.position()).collect();
    select(&mut cloth, (7.5, 2.5), 6.0);
    assert!(!cloth.selected_particles().is_empty());
    drag(&mut cloth, (7.5, 2.5));
    let after: Vec<Vec2> = cloth.particles().iter().map(|p| *p.position()).collect();
    assert_eq!(after, before);
}

#[test]
fn a_drag_with_nothing_held_moves_nothing() {
    let mut cloth = cloth(3, 3, 5.0);
    let before = cloth.particles().clone();
    drag(&mut cloth, (6.0, 7.5));
    cloth.move_selected_particles(&vec![vector(1.0, 1.0), vector(2.0, 2.0)]);
    assert_eq!(*cloth.particles(), before);
}

#[test]
fn a_drag_with_fewer_targets_than_held_moves_the_first_held() {
    let mut cloth = cloth(3, 3, 5.0);
    select(&mut cloth, (5.0, 5.0), 5.0);
    cloth.move_selected_particles(&vec![vector(1.0, 1.0), vector(2.0, 2.0)]);
    assert_eq!(*cloth.particles()[1].position(), vector(1.0, 1.0));
    assert_eq!(*cloth.particles()[3].position(), vector(2.0, 2.0));
    assert_eq!(*cloth.particles()[4].position(), vector(5.0, 5.0));
    assert_eq!(*cloth.particles()[5].position(), vector(10.0, 5.0));
}

#[test]
fn what_is_held_does_not_fall() {
    let mut cloth = cloth(3, 3, 5.0);
    select(&mut cloth, (10.0, 10.0), 1.0);
    cloth.simulate(&Work::Accelerations(vec![vector(0.0, 987.0); 9]));
    cloth.simulate(&Work::Positions(vec![vector(0.0, 99.0); 9]));
    assert_eq!(*cloth.particles()[8].position(), vector(10.0, 10.0));
    assert_eq!(*cloth.particles()[8].acceleration(), Vec2::zero());
    assert_eq!(*cloth.particles()[7].position(), vector(0.0, 99.0));
}

#[test]
fn letting_go_unpins_what_was_held_and_selects_nothing() {
    let mut cloth = cloth(3, 3, 5.0);
    select(&mut cloth, (5.0, 5.0), 5.0);
    cloth.clear_selection();
    assert!(cloth.selected_particles().is_empty());
    assert!(cloth.selection_offsets().is_empty());
    let pins: Vec<bool> = cloth.particles().iter().map(|p| p.pinned()).collect();
    assert_eq!(
        pins,
        vec![true, false, true, false, false, false, false, false, false]
    );
}

#[test]
fn letting_go_twice_is_letting_go_once() {
    let mut cloth = cloth(3, 3, 5.0);
    select(&mut cloth, (5.0, 5.0), 5.0);
    drag(&mut cloth, (6.0, 6.0));
    cloth.clear_selection();
    let particles: Vec<Particle> = cloth.particles().clone();
    let constraints = cloth.constraints().clone();
    cloth.clear_selection();
    assert_eq!(*cloth.particles(), particles);
    assert_eq!(*cloth.constraints(), constraints);
    assert!(cloth.selected_particles().is_empty());
    assert!(cloth.selection_offsets().is_empty());
}

#[test]
fn letting_go_of_nothing_changes_nothing() {
    let mut cloth = cloth(3, 3, 5.0);
    let before = cloth.particles().clone();
    cloth.clear_selection();
    assert_eq!(*cloth.particles(), before);
}

#[test]
fn after_letting_go_a_drag_moves_nothing() {
    let mut cloth = cloth(3, 3, 5.0);
    select(&mut cloth, (5.0, 5.0), 1.0);
    cloth.clear_selection();
    let before = cloth.particles().clone();
    drag(&mut cloth, (50.0, 50.0));
    assert_eq!(*cloth.particles(), before);
}

#[test]
fn a_cut_on_a_particle_removes_its_constraints_and_no_other() {
    let mut cloth = cloth(3, 3, 5.0);
    let before = cloth.constraints().clone();
    let particles = cloth.particles().clone();
    cut(&mut cloth, (5.0, 5.0));
    assert_eq!(*cloth.constraints(), without(&before, 4));
    assert_eq!(cloth.constraints().len(), 18);
    assert!(cloth.constraints().iter().all(|c| !c.touches(4)));
    assert_eq!(*cloth.particles(), particles);
}

#[test]
fn a_cut_on_each_particle_in_turn_removes_exactly_what_touches_it() {
    for index in 0..12 {
        let mut cloth = cloth(4, 3, 5.0);
        let before = cloth.constraints().clone();
        let place = pair(cloth.particles()[index].position());
        cut(&mut cloth, place);
        assert_eq!(*cloth.constraints(), without(&before, index));
        for c in &before {
            let (a, b) = c.particles();
            assert_eq!(
                cloth.constraints().contains(c),
                a != index && b != index
            );
        }
    }
}

#[test]
fn a_cut_falls_on_the_nearest_particle() {
    let mut cloth = cloth(3, 3, 5.0);
    let before = cloth.constraints().clone();
    cut(&mut cloth, (9.0, 6.0));
    assert_eq!(*cloth.constraints(), without(&before, 5));
}

#[test]
fn a_cut_between_two_particles_falls_on_the_first() {
    let mut cloth = cloth(3, 3, 5.0);
    let before = cloth.constraints().clone();
    cut(&mut cloth, (2.5, 0.0));
    assert_eq!(*cloth.constraints(), without(&before, 0));
}

#[test]
fn a_cut_from_ten_away_does_not_reach() {
    let mut cloth = cloth(3, 3, 5.0);
    let before = cloth.constraints().clone();
    cut(&mut cloth, (-10.0, 0.0));
    assert_eq!(*cloth.constraints(), before);
    cut(&mut cloth, (20.0, 10.0));
    assert_eq!(*cloth.constraints(), before);
    cut(&mut cloth, (1000.0, 1000.0));
    assert_eq!(*cloth.constraints(), before);
}

#[test]
fn a_cut_from_just_under_ten_away_reaches() {
    let mut cloth = cloth(3, 3, 5.0);
    let before = cloth.constraints().clone();
    cut(&mut cloth, (-9.99, 0.0));
    assert_eq!(*cloth.constraints(), without(&before, 0));
}

#[test]
fn a_cut_without_readings_changes_nothing() {
    let mut cloth = cloth(3, 3, 5.0);
    let before = cloth.constraints().clone();
    cloth.cut_at_mouse(&vec![]);
    assert_eq!(*cloth.constraints(), before);
}

#[test]
fn a_cut_passes_over_what_has_no_distance() {
    let mut cloth = cloth(3, 3, 5.0);
    let before = cloth.constraints().clone();
    cloth.cut_at_mouse(&distances(&[f64::NAN, 3.0, f64::NAN, 2.0, 2.0]));
    assert_eq!(*cloth.constraints(), without(&before, 3));
    let left = cloth.constraints().clone();
    cloth.cut_at_mouse(&distances(&[f64::NAN, f64::NAN]));
    assert_eq!(*cloth.constraints(), left);
}

#[test]
fn a_cut_leaves_the_selection() {
    let mut cloth = cloth(3, 3, 5.0);
    select(&mut cloth, (5.0, 5.0), 1.0);
    cut(&mut cloth, (5.0, 5.0));
    assert_eq!(*cloth.selected_particles(), vec![4]);
    assert!(cloth.particles()[4].pinned());
}

#[test]
fn the_nearest_reading_is_the_first_of_the_least() {
    assert_eq!(nearest_reading(&distances(&[3.0, 1.0, 2.0, 1.0]), 4), Some(1));
    assert_eq!(nearest_reading(&distances(&[3.0, 1.0, 2.0, 1.0]), 1), Some(0));
    assert_eq!(nearest_reading(&distances(&[3.0, 1.0, 2.0, 0.5]), 3), Some(1));
    assert_eq!(nearest_reading(&distances(&[3.0, 1.0, 2.0, 0.5]), 9), Some(3));
    assert_eq!(nearest_reading(&distances(&[0.0, -0.0]), 2), Some(0));
    assert_eq!(nearest_reading(&distances(&[-0.0, 0.0]), 2), Some(0));
}

#[test]
fn the_nearest_reading_passes_over_what_has_no_distance() {
    assert_eq!(nearest_reading(&distances(&[f64::NAN, 7.0, 7.0]), 3), Some(1));
    assert_eq!(nearest_reading(&distances(&[f64::NAN, f64::NAN]), 2), Some(0));
    assert_eq!(
        nearest_reading(&distances(&[f64::NAN, f64::INFINITY]), 2),
        Some(1)
    );
}

#[test]
fn there_is_no_nearest_of_nothing() {
    assert_eq!(nearest_reading(&distances(&[]), 5), None);
    assert_eq!(nearest_reading(&distances(&[1.0, 2.0]), 0), None);
}

fn next_random(state: &mut u64) -> u64 {
    *state = state
        .wrapping_mul(6364136223846793005)
        .wrapping_add(1442695040888963407);
    *state >> 33
}

fn random_distance(state: &mut u64) -> f64 {
    match next_random(state) % 8 {
        0 => f64::NAN,
        1 => 0.0,
        2 => 10.0,
        _ => (next_random(state) % 2000) as f64 / 100.0,
    }
}

#[test]
fn a_grab_selects_what_a_scan_of_the_distances_selects() {
    let mut state = 7;
    for _ in 0..200 {
        let mut cloth = cloth(4, 3, 5.0);
        let count = (next_random(&mut state) % 15) as usize;
        let values: Vec<f64> = (0..count).map(|_| random_distance(&mut state)).collect();
        let radius = random_distance(&mut state);
        cloth.select_particles(&distances(&values), scalar(radius));
        let expected: Vec<usize> = (0..count.min(12)).filter(|i| values[*i] <= radius).collect();
        assert_eq!(*cloth.selected_particles(), expected);
        assert_eq!(cloth.selection_offsets().len(), expected.len());
        for i in 0..12 {
            assert_eq!(cloth.particles()[i].pinned(), i < 4 || expected.contains(&i));
        }
    }
}

#[test]
fn a_cut_falls_where_a_scan_of_the_distances_finds_the_first_least() {
    let mut state = 11;
    for _ in 0..200 {
        let mut cloth = cloth(4, 3, 5.0);
        let before = cloth.constraints().clone();
        let count = (next_random(&mut state) % 15) as usize;
        let values: Vec<f64> = (0..count).map(|_| random_distance(&mut state)).collect();
        cloth.cut_at_mouse(&distances(&values));
        let mut best: Option<usize> = None;
        for i in 0..count.min(12) {
            if values[i].is_nan() {
                continue;
            }
            if best.map_or(true, |b| values[i] < values[b]) {
                best = Some(i);
            }
        }
        match best {
            Some(b) if values[b] < 10.0 => assert_eq!(*cloth.constraints(), without(&before, b)),
            _ => assert_eq!(*cloth.constraints(), before),
        }
    }
}
