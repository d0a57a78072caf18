//! # D2Q9 Lattice-Boltzmann Method Operations
//!
//! The data-movement operations of the D2Q9 LBM simulation: streaming of the
//! interior and the reflection of solid cells.
use vstd::prelude::*;
use crate::grid::Grid;
use crate::convolve::surface::spec_unfold_windows;
use crate::simulations::surface::fluids::lattice::{Populations, gathered, stream_interior};

verus! {

/// The cell-wise selection of the isotropic reflection: solid cells take their
/// cell from `pre`, the others from `naive`.
pub open spec fn reflected<E>(
    pre: Seq<Seq<Populations<E>>>,
    naive: Seq<Seq<Populations<E>>>,
    solid: Seq<Seq<bool>>,
    i: int,
    j: int,
) -> Populations<E> {
    if solid[i][j] {
        pre[i][j]
    } else {
        naive[i][j]
    }
}

/// Reflection selects by the mask at the same cell: a solid cell keeps its
/// pre-collision populations, a fluid cell takes the collided ones.
pub proof fn law_reflection_selects_by_mask<E>(
    pre: Seq<Seq<Populations<E>>>,
    naive: Seq<Seq<Populations<E>>>,
    solid: Seq<Seq<bool>>,
    i: int,
    j: int,
)
    ensures
        solid[i][j] ==> reflected(pre, naive, solid, i, j) == pre[i][j],
        !solid[i][j] ==> reflected(pre, naive, solid, i, j) == naive[i][j],
{
}

/// Applies isotropic spherical solid reflection updates to a collision.
///
/// This models every solid point as a sphere, normal to all directions: a solid
/// cell keeps its pre-collision populations.
///
/// # Arguments
/// - `pre_dist`: ``[H, W, VY=3, VX=3]`` pre-collision distribution
/// - `naive_dist`: ``[H, W, VY=3, VX=3]`` post-collision distribution
/// - `solid_mask`: ``[H, W]`` mask of solid locations.
///
/// # Returns
/// - ``[H, W, VY=3, VX=3]`` distribution.
pub fn isotropic_spherical_reflection<E: Copy>(
    pre_dist: &Grid<Populations<E>>,
    naive_dist: &Grid<Populations<E>>,
    solid_mask: &Grid<bool>,
) -> (r: Grid<Populations<E>>)
    requires
        pre_dist.wf(),
        naive_dist.wf(),
        solid_mask.wf(),
        naive_dist@.len() == pre_dist@.len(),
        solid_mask@.len() == pre_dist@.len(),
        naive_dist.width == pre_dist.width,
        solid_mask.width == pre_dist.width,
    ensures
        r.wf(),
        r.width == pre_dist.width,
        r@.len() == pre_dist@.len(),
        forall|i: int, j: int|
            0 <= i < pre_dist@.len() && 0 <= j < pre_dist.width ==> #[trigger] r@[i][j] == reflected(
                pre_dist@,
                naive_dist@,
                solid_mask@,
                i,
                j,
            ),
        forall|i: int, j: int|
            0 <= i < pre_dist@.len() && 0 <= j < pre_dist.width ==> {
                &&& (solid_mask@[i][j] ==> #[trigger] r@[i][j] == pre_dist@[i][j])
                &&& (!solid_mask@[i][j] ==> r@[i][j] == naive_dist@[i][j])
            },
{
    let h = pre_dist.height();
    let w = pre_dist.width;
    let mut rows: Vec<Vec<Populations<E>>> = Vec::new();
    let mut i: usize = 0;
    while i < h
        invariant
            pre_dist.wf(),
            naive_dist.wf(),
            solid_mask.wf(),
            h == pre_dist@.len(),
            h == naive_dist@.len(),
            h == solid_mask@.len(),
            w == pre_dist.width,
            w == naive_dist.width,
            w == solid_mask.width,
            i <= h,
            rows@.len() == i,
            forall|k: int| 0 <= k < i ==> (#[trigger] rows@[k])@.len() == w,
            forall|k: int, l: int|
                0 <= k < i && 0 <= l < w ==> #[trigger] rows@[k]@[l] == reflected(
                    pre_dist@,
                    naive_dist@,
                    solid_mask@,
                    k,
                    l,
                ),
        decreases h - i,
    {
        let mut row: Vec<Populations<E>> = Vec::new();
        let mut j: usize = 0;
        while j < w
            invariant
                pre_dist.wf(),
                naive_dist.wf(),
                solid_mask.wf(),
                h == pre_dist@.len(),
                h == naive_dist@.len(),
                h == solid_mask@.len(),
                w == pre_dist.width,
                w == naive_dist.width,
                w == solid_mask.width,
                i < h,
                j <= w,
                row@.len() == j,
                forall|l: int|
                    0 <= l < j ==> #[trigger] row@[l] == reflected(
                        pre_dist@,
                        naive_dist@,
                        solid_mask@,
                        i as int,
                        l,
                    ),
            decreases w - j,
        {
            let c = if solid_mask.get(i, j) {
                pre_dist.get(i, j)
            } else {
                naive_dist.get(i, j)
            };
            row.push(c);
            j += 1;
        }
        rows.push(row);
        i += 1;
    }
    let r = Grid { rows, width: w };
    assert forall|k: int| 0 <= k < r@.len() implies #[trigger] r@[k].len() == w by {
        assert(r@[k] == rows@[k]@);
    }
    r
}

/// Apply the streaming update step to the non-border cells of a population.
///
/// # Arguments
///
/// - `dist`: a ``[H, W, VY=3, VX=3]`` population distribution.
///
/// # Returns
/// - The updated ``[H[1:-1], W[1:-1], VY=3, VX=3]`` interior: population
///   `[vy][vx]` of interior cell `(i + 1, j + 1)` is population `[2 - vy][2 - vx]`
///   of cell `(i + vy, j + vx)`.
pub fn stream_interior_cells<E: Copy>(dist: &Grid<Populations<E>>) -> (r: Grid<Populations<E>>)
    requires
        dist.wf(),
        dist@.len() < usize::MAX,
        dist.width < usize::MAX,
    ensures
        r.wf(),
        r@.len() == spec_unfold_windows(dist@.len() as int, 3, 1),
        r.width == spec_unfold_windows(dist.width as int, 3, 1),
        forall|i: int, j: int, vy: int, vx: int|
            0 <= i < r@.len() && 0 <= j < r.width && 0 <= vy < 3 && 0 <= vx < 3 ==> #[trigger] r@[i][j][vy][vx]
                == dist@[i + vy][j + vx][2 - vy][2 - vx],
{
    let r = stream_interior(dist, false);
    assert forall|i: int, j: int, vy: int, vx: int|
        0 <= i < r@.len() && 0 <= j < r.width && 0 <= vy < 3 && 0 <= vx < 3 implies #[trigger] r@[i][j][vy][vx]
        == dist@[i + vy][j + vx][2 - vy][2 - vx] by {
        assert(r@[i][j][vy][vx] == gathered(dist@, false, i, j, vy, vx));
    }
    r
}

} // verus!
