//! # LBM D2Q9 World Module
//!
//! The data movement of one world step: the border is made solid, solid cells
//! reflect the collision, and the populations stream with the edges clipped.
use vstd::prelude::*;
use crate::grid::Grid;
use crate::simulations::surface::fluids::lattice::{Populations, streamed_pop};
use super::streaming::outflow_clipping_stream;
use super::operations::{isotropic_spherical_reflection, reflected};

pub use crate::simulations::surface::fluids::lattice_boltzmann::LBMMeta;

verus! {

/// The solid mask with the border rows and columns made solid.
pub open spec fn bordered(solid: Seq<Seq<bool>>, w: int, i: int, j: int) -> bool {
    solid[i][j] || i == 0 || i == solid.len() - 1 || j == 0 || j == w - 1
}

/// The border mask by position: every cell of the first and last rows and of
/// the first and last columns (of width `w`) is solid, and every other cell is
/// solid exactly when the mask says so.
pub proof fn law_bordered_by_position(solid: Seq<Seq<bool>>, w: int, i: int, j: int)
    requires
        0 <= i < solid.len(),
        0 <= j < w,
    ensures
        (i == 0 || i == solid.len() - 1 || j == 0 || j == w - 1) ==> bordered(solid, w, i, j),
        (0 < i < solid.len() - 1 && 0 < j < w - 1) ==> bordered(solid, w, i, j) == solid[i][j],
{
}

/// The solid mask of a step: every border cell is solid, the others keep their mask.
pub fn solid_border_mask(solid_mask: &Grid<bool>) -> (r: Grid<bool>)
    requires
        solid_mask.wf(),
    ensures
        r.wf(),
        r.width == solid_mask.width,
        r@.len() == solid_mask@.len(),
        forall|i: int, j: int|
            0 <= i < solid_mask@.len() && 0 <= j < solid_mask.width ==> #[trigger] r@[i][j] == bordered(
                solid_mask@,
                solid_mask.width as int,
                i,
                j,
            ),
        forall|i: int|
            0 <= i < solid_mask@.len() && solid_mask.width > 0 ==> #[trigger] r@[i][0] && r@[i][solid_mask.width
                - 1],
        forall|j: int|
            0 <= j < solid_mask.width && solid_mask@.len() > 0 ==> #[trigger] r@[0][j] && r@[solid_mask@.len()
                - 1][j],
        forall|i: int, j: int|
            0 < i < solid_mask@.len() - 1 && 0 < j < solid_mask.width - 1 ==> #[trigger] r@[i][j]
                == solid_mask@[i][j],
{
    let h = solid_mask.height();
    let w = solid_mask.width;
    let mut rows: Vec<Vec<bool>> = Vec::new();
    let mut i: usize = 0;
    while i < h
        invariant
            solid_mask.wf(),
            h == solid_mask@.len(),
            w == solid_mask.width,
            i <= h,
            rows@.len() == i,
            forall|k: int| 0 <= k < i ==> (#[trigger] rows@[k])@.len() == w,
            forall|k: int, l: int|
                0 <= k < i && 0 <= l < w ==> #[trigger] rows@[k]@[l] == bordered(solid_mask@, w as int, k, l),
        decreases h - i,
    {
        let mut row: Vec<bool> = Vec::new();
        let mut j: usize = 0;
        while j < w
            invariant
                solid_mask.wf(),
                h == solid_mask@.len(),
                w == solid_mask.width,
                i < h,
                j <= w,
                row@.len() == j,
                forall|l: int| 0 <= l < j ==> #[trigger] row@[l] == bordered(solid_mask@, w as int, i as int, l),
            decreases w - j,
        {
            let v = solid_mask.get(i, j) || i == 0 || i + 1 == h || j == 0 || j + 1 == w;
            row.push(v);
            j += 1;
        }
        rows.push(row);
        i += 1;
    }
    let r = Grid { rows, width: w };
    assert forall|k: int| 0 <= k < r@.len() implies #[trigger] r@[k].len() == w by {
        assert(r@[k] == rows@[k]@);
    }
    r
}

/// The distribution after one world step, given the collision `col_dist` of `dist`:
/// the border is made solid, solid cells keep their populations from `dist`, and
/// the result is the clipped outflow streaming ([`outflow_clipping_stream`]) of
/// that reflected collision.
pub fn advance_from_collision<E: Copy>(
    dist: &Grid<Populations<E>>,
    col_dist: &Grid<Populations<E>>,
    solid_mask: &Grid<bool>,
    zero: E,
) -> (r: Grid<Populations<E>>)
    requires
        dist.wf(),
        col_dist.wf(),
        solid_mask.wf(),
        2 <= dist@.len() < usize::MAX,
        2 <= dist.width < usize::MAX,
        col_dist@.len() == dist@.len(),
        col_dist.width == dist.width,
        solid_mask@.len() == dist@.len(),
        solid_mask.width == dist.width,
    ensures
        r.wf(),
        r.width == dist.width,
        r@.len() == dist@.len(),
        forall|i: int, j: int, a: int, b: int|
            0 <= i < dist@.len() && 0 <= j < dist.width && 0 <= a < 3 && 0 <= b < 3 ==> #[trigger] r@[i][j][a][b]
                == streamed_pop(
                Seq::new(
                    dist@.len(),
                    |y: int|
                        Seq::new(
                            dist.width as nat,
                            |x: int|
                                reflected(
                                    dist@,
                                    col_dist@,
                                    Seq::new(
                                        dist@.len(),
                                        |yy: int|
                                            Seq::new(
                                                dist.width as nat,
                                                |xx: int| bordered(solid_mask@, dist.width as int, yy, xx),
                                            ),
                                    ),
                                    y,
                                    x,
                                ),
                        ),
                ),
                zero,
                i,
                j,
                a,
                b,
            ),
{
    let mask = solid_border_mask(solid_mask);
    let thermal = isotropic_spherical_reflection(dist, col_dist, &mask);
    let r = outflow_clipping_stream(&thermal, zero);
    proof {
        let h = dist@.len();
        let w = dist.width as int;
        let bm = Seq::new(h, |yy: int| Seq::new(w as nat, |xx: int| bordered(solid_mask@, w, yy, xx)));
        let th = Seq::new(h, |y: int| Seq::new(w as nat, |x: int| reflected(dist@, col_dist@, bm, y, x)));
        assert(mask@ =~= bm) by {
            assert forall|y: int| 0 <= y < h implies #[trigger] mask@[y] =~= bm[y] by {
                assert(mask@[y].len() == w);
            }
        }
        assert(thermal@ =~= th) by {
            assert forall|y: int| 0 <= y < h implies #[trigger] thermal@[y] =~= th[y] by {
                assert(thermal@[y].len() == w);
            }
        }
    }
    r
}

} // verus!
