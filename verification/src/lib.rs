//! A hanging cloth: a grid of point masses tied by distance constraints,
//! stepped through time, and grabbed, dragged and cut by a pointer.
//!
//! The library holds the cloth and decides everything that happens to it:
//! which particles and constraints there are, which particles are pinned or
//! held, in which order a step proceeds, what a grab selects and where a cut
//! falls. Every decision is stated as a contract and proved.
//!
//! The library does no arithmetic on coordinates. Coordinates and lengths are
//! binary64 numbers, kept by their bit patterns (`scalar`), and whatever has
//! to be computed from them is computed by the caller and handed in: the
//! coordinates of the grid (`Cloth::new`), the work of each stage of a step
//! (`Cloth::simulate`), and what the pointer measures (`select_particles`,
//! `move_selected_particles`, `cut_at_mouse`). What is proved holds whatever
//! numbers arrive; `laws` states it.

pub mod scalar;
pub mod vector;
pub mod particle;
pub mod constraint;
pub mod sequence;
pub mod grid;
pub mod pointer;
pub mod step;
pub mod model;
pub mod cloth;
pub mod laws;
