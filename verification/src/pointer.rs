//! What a pointer measures of the particles, and what it picks by that.
//!
//! The caller measures each particle from the pointer's position and hands the
//! measurements over, one per particle in the order of the mesh. The mesh
//! decides by them which particles a grab takes hold of and where a cut falls.

use vstd::prelude::*;
use crate::scalar::Scalar;
use crate::vector::Vec2;

verus! {

/// Bit pattern of the number ten: a cut reaches the nearest particle only from
/// less than this far.
pub const CUT_THRESHOLD_BITS: u64 = 0x4024_0000_0000_0000;

/// One particle as measured from the pointer.
#[derive(Clone, Copy, Debug, PartialEq, Eq, Structural)]
pub struct Reading {
    /// From the pointer to the particle.
    pub offset: Vec2,
    /// Length of `offset`.
    pub distance: Scalar,
}

impl Reading {
    pub fn new(offset: Vec2, distance: Scalar) -> (r: Reading)
        ensures
            r == (Reading { offset, distance }),
    {
        Reading { offset, distance }
    }
}

/// The distance from which a cut no longer reaches.
pub open spec fn cut_threshold() -> Scalar {
    Scalar { bits: CUT_THRESHOLD_BITS }
}

/// Whether particle `i` was measured and lies no farther than `radius`.
pub open spec fn in_reach(readings: Seq<Reading>, radius: Scalar, i: int) -> bool {
    0 <= i < readings.len() && readings[i].distance.spec_le(radius)
}

/// The indices below `count`, ascending.
pub open spec fn indices(count: int) -> Seq<usize> {
    Seq::new(count as nat, |i: int| i as usize)
}

/// The particles among the first `count` that lie within `radius`, ascending.
pub open spec fn reached(readings: Seq<Reading>, radius: Scalar, count: int) -> Seq<usize> {
    indices(count).filter(|i: usize| in_reach(readings, radius, i as int))
}

/// The offsets that were measured of the particles `picked`.
pub open spec fn offsets_of(readings: Seq<Reading>, picked: Seq<usize>) -> Seq<Vec2> {
    picked.map_values(|i: usize| readings[i as int].offset)
}

/// Whether `m` is the nearest of the first `count` readings: none of them is
/// nearer, and of those that are as near it comes first.
pub open spec fn is_nearest(readings: Seq<Reading>, count: int, m: int) -> bool {
    &&& 0 <= m < count <= readings.len()
    &&& forall|j: int|
        0 <= j < count ==> readings[m].distance.farness()
            <= (#[trigger] readings[j]).distance.farness()
    &&& forall|j: int|
        0 <= j < m ==> readings[m].distance.farness()
            < (#[trigger] readings[j]).distance.farness()
}

/// The nearest of the first `count` readings.
pub open spec fn nearest(readings: Seq<Reading>, count: int) -> int {
    choose|m: int| is_nearest(readings, count, m)
}

/// How many of the first `count` places have a reading.
pub open spec fn measured(readings: Seq<Reading>, count: int) -> int {
    if readings.len() < count {
        readings.len() as int
    } else {
        count
    }
}

/// There is one nearest reading at most.
pub proof fn lemma_nearest_unique(readings: Seq<Reading>, count: int, m: int)
    requires
        is_nearest(readings, count, m),
    ensures
        nearest(readings, count) == m,
{
    let n = nearest(readings, count);
    if n < m {
        assert(readings[m].distance.farness() < readings[n].distance.farness());
    }
    if m < n {
        assert(readings[n].distance.farness() < readings[m].distance.farness());
    }
}

/// Taking one more index into account either adds it to those in reach or
/// changes nothing.
pub proof fn lemma_reached_step(readings: Seq<Reading>, radius: Scalar, count: int)
    requires
        0 <= count <= usize::MAX,
    ensures
        reached(readings, radius, count + 1) == if in_reach(readings, radius, count) {
            reached(readings, radius, count).push(count as usize)
        } else {
            reached(readings, radius, count)
        },
{
    let longer = indices(count + 1);
    assert(longer.drop_last() =~= indices(count));
    reveal(Seq::filter);
}

/// Those in reach are exactly the measured particles within the radius, each
/// once and in ascending order.
pub proof fn lemma_reached(readings: Seq<Reading>, radius: Scalar, count: int)
    requires
        0 <= count <= usize::MAX,
    ensures
        reached(readings, radius, count).len() <= count,
        forall|k: int|
            0 <= k < reached(readings, radius, count).len() ==> {
                let i = #[trigger] reached(readings, radius, count)[k];
                i < count && in_reach(readings, radius, i as int)
            },
        forall|j: int, k: int|
            0 <= j < k < reached(readings, radius, count).len() ==> reached(
                readings,
                radius,
                count,
            )[j] < reached(readings, radius, count)[k],
        forall|i: int|
            0 <= i < count && in_reach(readings, radius, i) ==> reached(
                readings,
                radius,
                count,
            ).contains(i as usize),
    decreases count,
{
    if count == 0 {
        reveal(Seq::filter);
    } else {
        lemma_reached(readings, radius, count - 1);
        lemma_reached_step(readings, radius, count - 1);
        let shorter = reached(readings, radius, count - 1);
        let longer = reached(readings, radius, count);
        assert forall|i: int| 0 <= i < count && in_reach(readings, radius, i) implies longer.contains(
            i as usize,
        ) by {
            if i == count - 1 {
                assert(longer[longer.len() - 1] == i as usize);
            } else {
                let k = choose|k: int| 0 <= k < shorter.len() && shorter[k] == i as usize;
                assert(longer[k] == i as usize);
            }
        }
    }
}

/// Finds the nearest among the readings of the first `count` particles, the
/// first of them where several are as near. There is none where nothing was
/// measured.
pub fn nearest_reading(readings: &Vec<Reading>, count: usize) -> (found: Option<usize>)
    ensures
        measured(readings@, count as int) == 0 <==> found is None,
        found matches Some(m) ==> is_nearest(readings@, measured(readings@, count as int), m as int)
            && m == nearest(readings@, measured(readings@, count as int)),
{
    let limit: usize = if readings.len() < count { readings.len() } else { count };
    if limit == 0 {
        return None;
    }
    let mut best: usize = 0;
    let mut i: usize = 1;
    while i < limit
        invariant
            1 <= i <= limit <= readings.len(),
            is_nearest(readings@, i as int, best as int),
        decreases limit - i,
    {
        if readings[i].distance.nearer(readings[best].distance) {
            best = i;
        }
        i += 1;
    }
    proof {
        lemma_nearest_unique(readings@, limit as int, best as int);
    }
    Some(best)
}

} // verus!
