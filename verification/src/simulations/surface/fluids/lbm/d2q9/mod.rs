//! # D2Q9 Lattice-Boltzmann Fluid Simulation
pub mod operations;
pub mod streaming;
pub mod world;

use vstd::prelude::*;
use crate::grid::Grid;
use crate::convolve::surface::spec_unfold_windows;
use crate::simulations::surface::fluids::lattice::{Populations, gathered, stream_interior};

verus! {

/// Apply the streaming update step to the non-border cells of a population.
///
/// # Arguments
///
/// - `dist`: a ``[H, W, V=3, U=3]`` population distribution.
/// - `solid_mask`: a ``[H, W]`` solid mask; not read.
///
/// # Returns
///
/// The updated distribution for the ``[H[1:-1], W[1:-1], V=3, U=3]`` interior:
/// population `[vy][vx]` of interior cell `(i + 1, j + 1)` is population
/// `[2 - vy][2 - vx]` of cell `(i + vy, j + vx)`.
pub fn stream_distribution_interior<E: Copy>(
    dist: &Grid<Populations<E>>,
    _solid_mask: &Grid<bool>,
) -> (r: Grid<Populations<E>>)
    requires
        dist.wf(),
        dist@.len() < usize::MAX,
        dist.width < usize::MAX,
    ensures
        r.wf(),
        r@.len() == spec_unfold_windows(dist@.len() as int, 3, 1),
        r.width == spec_unfold_windows(dist.width as int, 3, 1),
        forall|i: int, j: int, vy: int, vx: int|
            0 <= i < r@.len() && 0 <= j < r.width && 0 <= vy < 3 && 0 <= vx < 3 ==> #[trigger] r@[i][j][vy][vx]
                == dist@[i + vy][j + vx][2 - vy][2 - vx],
{
    let r = stream_interior(dist, false);
    assert forall|i: int, j: int, vy: int, vx: int|
        0 <= i < r@.len() && 0 <= j < r.width && 0 <= vy < 3 && 0 <= vx < 3 implies #[trigger] r@[i][j][vy][vx]
        == dist@[i + vy][j + vx][2 - vy][2 - vx] by {
        assert(r@[i][j][vy][vx] == gathered(dist@, false, i, j, vy, vx));
    }
    r
}

} // verus!
