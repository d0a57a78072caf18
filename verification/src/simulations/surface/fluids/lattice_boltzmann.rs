//! # Lattice-Boltzmann Fluid Simulation
//!
//! The simulation state and its streaming step; the float arithmetic of the
//! collision lives with the tensor backend, outside this library.
use vstd::prelude::*;
use crate::grid::Grid;
use crate::convolve::surface::spec_unfold_windows;
use crate::simulations::surface::fluids::lattice::{Populations, gathered, stream_interior};

verus! {

/// Introspection trait for [`LBMD2Q9State`]
pub trait LBMMeta {
    /// The shape of the simulation: `[HEIGHT, WIDTH]`.
    spec fn spec_shape(&self) -> [usize; 2];

    /// Get the shape of the simulation: `[HEIGHT, WIDTH]`
    fn shape(&self) -> (s: [usize; 2])
        ensures
            s == self.spec_shape(),
    ;

    /// Get the height of the simulation.
    fn height(&self) -> (h: usize)
        ensures
            h == self.spec_shape()[0],
    {
        self.shape()[0]
    }

    /// Get the width of the simulation.
    fn width(&self) -> (w: usize)
        ensures
            w == self.spec_shape()[1],
    {
        self.shape()[1]
    }
}

/// Config for [`LBMD2Q9State`]
///
/// Implements [`LBMMeta`].
pub struct LBMD2Q9Config {
    /// The shape of the simulation: `[HEIGHT, WIDTH]`
    pub shape: [usize; 2],
}

impl LBMMeta for LBMD2Q9Config {
    open spec fn spec_shape(&self) -> [usize; 2] {
        self.shape
    }

    fn shape(&self) -> (s: [usize; 2]) {
        self.shape
    }
}

impl LBMD2Q9Config {
    /// Initialize a [`LBMD2Q9State`]: step 0, every population `zero`, no solid cell.
    pub fn init<E: Copy>(self, zero: E) -> (s: LBMD2Q9State<E>)
        ensures
            s.wf(),
            s.step_count == 0,
            s.velocity@.len() == self.shape[0],
            s.velocity.width == self.shape[1],
            forall|i: int, j: int, a: int, b: int|
                0 <= i < self.shape[0] && 0 <= j < self.shape[1] && 0 <= a < 3 && 0 <= b < 3
                    ==> #[trigger] s.velocity@[i][j][a][b] == zero,
            forall|i: int, j: int|
                0 <= i < self.shape[0] && 0 <= j < self.shape[1] ==> !#[trigger] s.solid_mask@[i][j],
    {
        let h = self.shape[0];
        let w = self.shape[1];
        let velocity = Grid::filled(h, w, [[zero, zero, zero], [zero, zero, zero], [zero, zero, zero]]);
        let solid_mask = Grid::filled(h, w, false);
        let s = LBMD2Q9State { step_count: 0, velocity, solid_mask };
        assert forall|i: int, j: int, a: int, b: int|
            0 <= i < h && 0 <= j < w && 0 <= a < 3 && 0 <= b < 3 implies #[trigger] s.velocity@[i][j][a][b]
            == zero by {
            assert(s.velocity@[i][j] == [[zero, zero, zero], [zero, zero, zero], [zero, zero, zero]]);
        }
        s
    }
}

/// Lattice-Boltzmann Fluid Simulation State
pub struct LBMD2Q9State<E> {
    /// The current simulation step.
    pub step_count: u64,
    /// The grid populations: ``[H, W, UY=3, UX=3]``.
    pub velocity: Grid<Populations<E>>,
    /// The solid mask: ``[H, W]``
    pub solid_mask: Grid<bool>,
}

impl<E: Copy> LBMMeta for LBMD2Q9State<E> {
    open spec fn spec_shape(&self) -> [usize; 2] {
        [self.velocity@.len() as usize, self.velocity.width]
    }

    fn shape(&self) -> (s: [usize; 2]) {
        [self.velocity.height(), self.velocity.width]
    }
}

impl<E: Copy> LBMD2Q9State<E> {
    /// The population grid and the solid mask are rectangular and of one shape.
    pub open spec fn wf(&self) -> bool {
        &&& self.velocity.wf()
        &&& self.solid_mask.wf()
        &&& self.solid_mask@.len() == self.velocity@.len()
        &&& self.solid_mask.width == self.velocity.width
    }

    /// Get the current simulation step count.
    pub fn step_count(&self) -> (n: u64)
        ensures
            n == self.step_count,
    {
        self.step_count
    }

    /// Set the current simulation step count.
    pub fn set_step_count(&mut self, step: u64)
        ensures
            final(self).step_count == step,
            final(self).velocity == old(self).velocity,
            final(self).solid_mask == old(self).solid_mask,
    {
        self.step_count = step;
    }

    /// Reset the simulation step count to zero.
    pub fn reset_step_count(&mut self)
        ensures
            final(self).step_count == 0,
            final(self).velocity == old(self).velocity,
            final(self).solid_mask == old(self).solid_mask,
    {
        self.set_step_count(0)
    }
}

/// Compute the streaming updates for the non-border cells of a state.
///
/// # Arguments
///
/// - `velocity`: a ``[H, W, V=3, U=3]`` input.
/// - `_solid_mask`: a ``[H, W]`` solid mask; not read.
///
/// # Returns
///
/// The updated velocity for the ``[1:-1, 1:-1, V=3, U=3]`` interior: population
/// `[vy][vx]` of interior cell `(i + 1, j + 1)` is population `[2 - vy][2 - vx]` of
/// cell `(i + vy, j + vx)`.
pub fn interior_streaming<E: Copy>(velocity: &Grid<Populations<E>>, _solid_mask: &Grid<bool>) -> (r:
    Grid<Populations<E>>)
    requires
        velocity.wf(),
        velocity@.len() < usize::MAX,
        velocity.width < usize::MAX,
    ensures
        r.wf(),
        r@.len() == spec_unfold_windows(velocity@.len() as int, 3, 1),
        r.width == spec_unfold_windows(velocity.width as int, 3, 1),
        forall|i: int, j: int, vy: int, vx: int|
            0 <= i < r@.len() && 0 <= j < r.width && 0 <= vy < 3 && 0 <= vx < 3 ==> #[trigger] r@[i][j][vy][vx]
                == velocity@[i + vy][j + vx][2 - vy][2 - vx],
{
    let r = stream_interior(velocity, false);
    assert forall|i: int, j: int, vy: int, vx: int|
        0 <= i < r@.len() && 0 <= j < r.width && 0 <= vy < 3 && 0 <= vx < 3 implies #[trigger] r@[i][j][vy][vx]
        == velocity@[i + vy][j + vx][2 - vy][2 - vx] by {
        assert(r@[i][j][vy][vx] == gathered(velocity@, false, i, j, vy, vx));
    }
    r
}

} // verus!
