//! The regular grid from which a cloth is cut: where its particles stand and
//! which pairs of them are tied together.
//!
//! Particles are numbered row by row, so the particle in column `x` of row `y`
//! of a grid `width` wide has index `y * width + x`. Each particle is tied to
//! its right and lower neighbour (structural), to its two lower diagonal
//! neighbours (shear) and to the particles two columns to the right and two
//! rows below (bend), as far as the grid reaches.

use vstd::prelude::*;
use vstd::arithmetic::div_mod::lemma_fundamental_div_mod_converse;
use crate::scalar::Scalar;
use crate::vector::Vec2;
use crate::particle::Particle;
use crate::constraint::Constraint;

verus! {

/// The rest length of each kind of edge.
#[derive(Clone, Copy, Debug, PartialEq, Eq, Structural)]
pub struct RestLengths {
    /// Between neighbours in a row or a column.
    pub structural: Scalar,
    /// Between diagonal neighbours.
    pub shear: Scalar,
    /// Between particles two columns or two rows apart.
    pub bend: Scalar,
}

/// The particle with index `i` of the grid over the given column and row
/// coordinates: it stands at its column's and row's coordinate, at rest, and
/// is pinned when it belongs to the top row.
pub open spec fn grid_particle(columns: Seq<Scalar>, rows: Seq<Scalar>, i: int) -> Particle {
    let width = columns.len() as int;
    Particle::spec_new(Vec2 { x: columns[i % width], y: rows[i / width] }, i < width)
}

/// All particles of the grid, row by row.
pub open spec fn grid_particles(columns: Seq<Scalar>, rows: Seq<Scalar>) -> Seq<Particle> {
    Seq::new(columns.len() * rows.len(), |i: int| grid_particle(columns, rows, i))
}

/// The edge from particle `a` to particle `b`.
pub open spec fn edge(a: int, b: int, rest_length: Scalar) -> Constraint {
    Constraint { particle_a: a as usize, particle_b: b as usize, rest_length }
}

/// `s`, followed by the edge from `a` to `b` when `present`.
pub open spec fn with_edge(
    s: Seq<Constraint>,
    present: bool,
    a: int,
    b: int,
    rest_length: Scalar,
) -> Seq<Constraint> {
    if present {
        s.push(edge(a, b, rest_length))
    } else {
        s
    }
}

/// The edges that start at the particle in column `x` of row `y`, in the
/// order in which they are laid: right, below, lower right, lower left, two to
/// the right, two below.
pub open spec fn cell_constraints(
    width: int,
    height: int,
    x: int,
    y: int,
    rest: RestLengths,
) -> Seq<Constraint> {
    let i = y * width + x;
    let s = Seq::<Constraint>::empty();
    let s = with_edge(s, x + 1 < width, i, i + 1, rest.structural);
    let s = with_edge(s, y + 1 < height, i, i + width, rest.structural);
    let s = with_edge(s, x + 1 < width && y + 1 < height, i, i + width + 1, rest.shear);
    let s = with_edge(s, x > 0 && y + 1 < height, i, i + width - 1, rest.shear);
    let s = with_edge(s, x + 2 < width, i, i + 2, rest.bend);
    let s = with_edge(s, y + 2 < height, i, i + 2 * width, rest.bend);
    s
}

/// The edges that start in the first `cells` columns of row `y`.
pub open spec fn row_constraints(
    width: int,
    height: int,
    y: int,
    cells: int,
    rest: RestLengths,
) -> Seq<Constraint>
    decreases cells,
{
    if cells <= 0 {
        Seq::empty()
    } else {
        row_constraints(width, height, y, cells - 1, rest) + cell_constraints(
            width,
            height,
            cells - 1,
            y,
            rest,
        )
    }
}

/// The edges that start in the first `rows` rows.
pub open spec fn rows_constraints(
    width: int,
    height: int,
    rows: int,
    rest: RestLengths,
) -> Seq<Constraint>
    decreases rows,
{
    if rows <= 0 {
        Seq::empty()
    } else {
        rows_constraints(width, height, rows - 1, rest) + row_constraints(
            width,
            height,
            rows - 1,
            width,
            rest,
        )
    }
}

/// All edges of a grid `width` wide and `height` high, cell by cell along the
/// rows.
pub open spec fn grid_constraints(width: int, height: int, rest: RestLengths) -> Seq<Constraint> {
    rows_constraints(width, height, height, rest)
}

/// `n` where it is positive, else 0.
pub open spec fn positive_part(n: int) -> int {
    if n > 0 {
        n
    } else {
        0
    }
}

/// Number of structural edges: one per pair of neighbours in a row and one
/// per pair of neighbours in a column.
pub open spec fn structural_count(width: int, height: int) -> int {
    (width - 1) * height + width * (height - 1)
}

/// Number of shear edges: two per square of four neighbouring particles.
pub open spec fn shear_count(width: int, height: int) -> int {
    2 * ((width - 1) * (height - 1))
}

/// Number of bend edges: one per pair of particles two apart in a row or in a
/// column.
pub open spec fn bend_count(width: int, height: int) -> int {
    positive_part(width - 2) * height + width * positive_part(height - 2)
}

/// Number of edges of the whole grid.
pub open spec fn constraint_count(width: int, height: int) -> int {
    structural_count(width, height) + shear_count(width, height) + bend_count(width, height)
}

/// Number of edges that start in the first `cells` columns of row `y`.
pub open spec fn row_count(width: int, height: int, y: int, cells: int) -> int {
    let right = if cells < width { cells } else { width - 1 };
    let right2 = if cells < width - 1 { cells } else { positive_part(width - 2) };
    let below = if y + 1 < height { cells + right + positive_part(cells - 1) } else { 0 };
    let below2 = if y + 2 < height { cells } else { 0 };
    right + right2 + below + below2
}

/// Number of edges that start in the first `rows` rows.
pub open spec fn rows_count(width: int, height: int, rows: int) -> int {
    let lower = if rows < height { rows } else { height - 1 };
    let lower2 = if rows < height - 1 { rows } else { positive_part(height - 2) };
    rows * (width - 1 + positive_part(width - 2)) + lower * (3 * width - 2) + lower2 * width
}

/// One more of something: `(n + 1) * size` is `n * size + size`.
proof fn lemma_one_more(n: int, next: int, size: int)
    requires
        next == n + 1,
    ensures
        next * size == n * size + size,
{
    assert(next * size == n * size + size) by (nonlinear_arith)
        requires
            next == n + 1,
    ;
}

/// A row's edges are as many as `row_count` says.
pub proof fn lemma_row_count(width: int, height: int, y: int, cells: int, rest: RestLengths)
    requires
        width >= 1,
        0 <= cells <= width,
    ensures
        row_constraints(width, height, y, cells, rest).len() == row_count(width, height, y, cells),
    decreases cells,
{
    if cells > 0 {
        lemma_row_count(width, height, y, cells - 1, rest);
    }
}

/// The first rows' edges are as many as `rows_count` says.
pub proof fn lemma_rows_count(width: int, height: int, rows: int, rest: RestLengths)
    requires
        width >= 1,
        height >= 1,
        0 <= rows <= height,
    ensures
        rows_constraints(width, height, rows, rest).len() == rows_count(width, height, rows),
    decreases rows,
{
    if rows > 0 {
        lemma_rows_count(width, height, rows - 1, rest);
        lemma_row_count(width, height, rows - 1, width, rest);
        lemma_one_more(rows - 1, rows, width - 1 + positive_part(width - 2));
        if rows < height {
            lemma_one_more(rows - 1, rows, 3 * width - 2);
        }
        if rows < height - 1 {
            lemma_one_more(rows - 1, rows, width);
        }
    } else {
        assert(rows_count(width, height, rows) == 0) by (nonlinear_arith)
            requires
                rows == 0,
                height >= 1,
        ;
    }
}

/// A grid of `width` by `height` particles has `constraint_count` edges:
/// structural, shear and bend edges together, fewer where the grid ends.
pub proof fn lemma_grid_constraint_count(width: int, height: int, rest: RestLengths)
    requires
        width >= 1,
        height >= 1,
    ensures
        grid_constraints(width, height, rest).len() == constraint_count(width, height),
{
    lemma_rows_count(width, height, height, rest);
    let wide2 = positive_part(width - 2);
    let high2 = positive_part(height - 2);
    assert(height * (width - 1 + wide2) == (width - 1) * height + wide2 * height)
        by (nonlinear_arith);
    assert((height - 1) * (3 * width - 2) == width * (height - 1) + 2 * ((width - 1) * (height
        - 1))) by (nonlinear_arith);
    assert(high2 * width == width * high2) by (nonlinear_arith);
}

/// Whether every edge in `s` joins two distinct particles of a mesh of
/// `count` particles, the first with the smaller index.
pub open spec fn edges_within(s: Seq<Constraint>, count: int) -> bool {
    forall|k: int|
        0 <= k < s.len() ==> (#[trigger] s[k]).particle_a < s[k].particle_b && s[k].particle_b
            < count
}

/// The index of a particle of the grid is below the number of particles, and
/// so are the indices of the neighbours that the grid gives it.
pub proof fn lemma_cell_index(width: int, height: int, x: int, y: int)
    requires
        0 <= x < width,
        0 <= y < height,
    ensures
        0 <= y * width,
        y * width + width <= width * height,
        y + 1 < height ==> y * width + 2 * width <= width * height,
        y + 2 < height ==> y * width + 3 * width <= width * height,
{
    assert(0 <= y * width) by (nonlinear_arith)
        requires
            0 <= y,
            0 <= width,
    ;
    assert(y * width + width <= width * height) by (nonlinear_arith)
        requires
            0 <= y < height,
            0 <= width,
    ;
    if y + 1 < height {
        assert(y * width + 2 * width <= width * height) by (nonlinear_arith)
            requires
                0 <= y,
                y + 2 <= height,
                0 <= width,
        ;
    }
    if y + 2 < height {
        assert(y * width + 3 * width <= width * height) by (nonlinear_arith)
            requires
                0 <= y,
                y + 3 <= height,
                0 <= width,
        ;
    }
}

/// The edges of one cell join distinct particles of the grid.
pub proof fn lemma_cell_within(width: int, height: int, x: int, y: int, rest: RestLengths)
    requires
        0 <= x < width,
        0 <= y < height,
        width * height <= usize::MAX,
    ensures
        edges_within(cell_constraints(width, height, x, y, rest), width * height),
{
    lemma_cell_index(width, height, x, y);
}

/// The edges of the first cells of a row join distinct particles of the grid.
pub proof fn lemma_row_within(width: int, height: int, y: int, cells: int, rest: RestLengths)
    requires
        0 <= cells <= width,
        0 <= y < height,
        width * height <= usize::MAX,
    ensures
        edges_within(row_constraints(width, height, y, cells, rest), width * height),
    decreases cells,
{
    if cells > 0 {
        lemma_row_within(width, height, y, cells - 1, rest);
        lemma_cell_within(width, height, cells - 1, y, rest);
    }
}

/// The edges of the first rows join distinct particles of the grid.
pub proof fn lemma_rows_within(width: int, height: int, rows: int, rest: RestLengths)
    requires
        width >= 1,
        0 <= rows <= height,
        width * height <= usize::MAX,
    ensures
        edges_within(rows_constraints(width, height, rows, rest), width * height),
    decreases rows,
{
    if rows > 0 {
        lemma_rows_within(width, height, rows - 1, rest);
        lemma_row_within(width, height, rows - 1, width, rest);
    }
}

/// Every edge of a grid joins two distinct particles of it.
pub proof fn lemma_grid_within(width: int, height: int, rest: RestLengths)
    requires
        width >= 1,
        height >= 1,
        width * height <= usize::MAX,
    ensures
        edges_within(grid_constraints(width, height, rest), width * height),
{
    lemma_rows_within(width, height, height, rest);
}

/// The particle in column `x` of row `y` stands at that column's and that
/// row's coordinate, and is pinned exactly in the top row.
pub proof fn lemma_grid_particle_at(columns: Seq<Scalar>, rows: Seq<Scalar>, x: int, y: int)
    requires
        0 <= x < columns.len(),
        0 <= y < rows.len(),
    ensures
        0 <= y * columns.len() + x < grid_particles(columns, rows).len(),
        grid_particles(columns, rows)[y * columns.len() + x] == Particle::spec_new(
            Vec2 { x: columns[x], y: rows[y] },
            y == 0,
        ),
{
    let width = columns.len() as int;
    let height = rows.len() as int;
    lemma_cell_index(width, height, x, y);
    lemma_fundamental_div_mod_converse(y * width + x, width, y, x);
    if y > 0 {
        assert(y * width >= width) by (nonlinear_arith)
            requires
                y >= 1,
                width >= 0,
        ;
    }
}

/// Lays the particles of the grid over the given column and row coordinates.
pub fn build_particles(columns: &Vec<Scalar>, rows: &Vec<Scalar>) -> (particles: Vec<Particle>)
    requires
        columns.len() >= 1,
        rows.len() >= 1,
        columns.len() * rows.len() <= usize::MAX,
    ensures
        particles@ == grid_particles(columns@, rows@),
{
    let width = columns.len();
    let height = rows.len();
    let mut particles: Vec<Particle> = Vec::new();
    let mut y: usize = 0;
    while y < height
        invariant
            width == columns.len(),
            height == rows.len(),
            width >= 1,
            y <= height,
            particles@.len() == y * width,
            forall|i: int|
                0 <= i < particles@.len() ==> particles@[i] == grid_particle(columns@, rows@, i),
        decreases height - y,
    {
        let mut x: usize = 0;
        while x < width
            invariant
                width == columns.len(),
                height == rows.len(),
                width >= 1,
                y < height,
                x <= width,
                particles@.len() == y * width + x,
                forall|i: int|
                    0 <= i < particles@.len() ==> particles@[i] == grid_particle(
                        columns@,
                        rows@,
                        i,
                    ),
            decreases width - x,
        {
            proof {
                lemma_grid_particle_at(columns@, rows@, x as int, y as int);
            }
            particles.push(Particle::new(Vec2::new(columns[x], rows[y]), y == 0));
            x += 1;
        }
        proof {
            assert((y + 1) * width == y * width + width) by (nonlinear_arith);
        }
        y += 1;
    }
    proof {
        assert(height * width == width * height) by (nonlinear_arith);
    }
    particles
}

/// Lays the edges that start at the particle in column `x` of row `y`.
fn push_cell(
    constraints: &mut Vec<Constraint>,
    width: usize,
    height: usize,
    x: usize,
    y: usize,
    rest: RestLengths,
)
    requires
        x < width,
        y < height,
        width * height <= usize::MAX,
    ensures
        final(constraints)@ == old(constraints)@ + cell_constraints(
            width as int,
            height as int,
            x as int,
            y as int,
            rest,
        ),
{
    proof {
        lemma_cell_index(width as int, height as int, x as int, y as int);
    }
    let index: usize = y * width + x;
    if x + 1 < width {
        constraints.push(Constraint::new(index, index + 1, rest.structural));
    }
    if y + 1 < height {
        constraints.push(Constraint::new(index, index + width, rest.structural));
    }
    if x + 1 < width && y + 1 < height {
        constraints.push(Constraint::new(index, index + width + 1, rest.shear));
    }
    if x > 0 && y + 1 < height {
        constraints.push(Constraint::new(index, index + width - 1, rest.shear));
    }
    if width - x > 2 {
        constraints.push(Constraint::new(index, index + 2, rest.bend));
    }
    if height - y > 2 {
        constraints.push(Constraint::new(index, index + 2 * width, rest.bend));
    }
}

/// Lays the edges of a grid `width` wide and `height` high.
pub fn build_constraints(width: usize, height: usize, rest: RestLengths) -> (constraints: Vec<
    Constraint,
>)
    requires
        width >= 1,
        height >= 1,
        width * height <= usize::MAX,
    ensures
        constraints@ == grid_constraints(width as int, height as int, rest),
{
    let mut constraints: Vec<Constraint> = Vec::new();
    let mut y: usize = 0;
    while y < height
        invariant
            width >= 1,
            width * height <= usize::MAX,
            y <= height,
            constraints@ == rows_constraints(width as int, height as int, y as int, rest),
        decreases height - y,
    {
        let ghost above = constraints@;
        let mut x: usize = 0;
        while x < width
            invariant
                width >= 1,
                width * height <= usize::MAX,
                y < height,
                x <= width,
                constraints@ == above + row_constraints(
                    width as int,
                    height as int,
                    y as int,
                    x as int,
                    rest,
                ),
            decreases width - x,
        {
            push_cell(&mut constraints, width, height, x, y, rest);
            x += 1;
        }
        y += 1;
    }
    constraints
}

} // verus!
