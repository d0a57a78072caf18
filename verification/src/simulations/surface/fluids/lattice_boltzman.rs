//! # Lattice-Boltzmann Fluid Simulation (windowed streaming)
//!
//! The state of the simulation, and the streaming step expressed on the 3x3
//! neighbourhood windows of the lattice.
use vstd::prelude::*;
use crate::grid::Grid;
use crate::convolve::surface::{spec_unfold_windows, unfold_windows};
use crate::simulations::surface::fluids::lattice::Populations;

verus! {

/// Introspection trait for [`LBM`]
pub trait LBMMeta {
    /// The shape of the simulation: `[HEIGHT, WIDTH]`.
    spec fn spec_shape(&self) -> [usize; 2];

    /// Get the shape of the simulation: `[HEIGHT, WIDTH]`
    fn shape(&self) -> (s: [usize; 2])
        ensures
            s == self.spec_shape(),
    ;

    /// Get the height of the simulation.
    fn height(&self) -> (h: usize)
        ensures
            h == self.spec_shape()[0],
    {
        self.shape()[0]
    }

    /// Get the width of the simulation.
    fn width(&self) -> (w: usize)
        ensures
            w == self.spec_shape()[1],
    {
        self.shape()[1]
    }
}

/// Config for [`LBM`]
///
/// Implements [`LBMMeta`].
pub struct LBMConfig {
    /// The shape of the simulation: `[HEIGHT, WIDTH]`
    pub shape: [usize; 2],
}

impl LBMMeta for LBMConfig {
    open spec fn spec_shape(&self) -> [usize; 2] {
        self.shape
    }

    fn shape(&self) -> (s: [usize; 2]) {
        self.shape
    }
}

impl LBMConfig {
    /// Initialize a [`LBM`]: step 0, every population `zero`.
    pub fn init<E: Copy>(self, zero: E) -> (s: LBM<E>)
        ensures
            s.state.wf(),
            s.step_count == 0,
            s.state@.len() == self.shape[0],
            s.state.width == self.shape[1],
            forall|i: int, j: int, a: int, b: int|
                0 <= i < self.shape[0] && 0 <= j < self.shape[1] && 0 <= a < 3 && 0 <= b < 3
                    ==> #[trigger] s.state@[i][j][a][b] == zero,
    {
        let state = Grid::filled(
            self.shape[0],
            self.shape[1],
            [[zero, zero, zero], [zero, zero, zero], [zero, zero, zero]],
        );
        let s = LBM { step_count: 0, state };
        assert forall|i: int, j: int, a: int, b: int|
            0 <= i < self.shape[0] && 0 <= j < self.shape[1] && 0 <= a < 3 && 0 <= b < 3 implies #[trigger] s.state@[i][j][a][b]
            == zero by {
            assert(s.state@[i][j] == [[zero, zero, zero], [zero, zero, zero], [zero, zero, zero]]);
        }
        s
    }
}

/// Lattice-Boltzmann Fluid Simulation State
pub struct LBM<E> {
    /// The current simulation step.
    pub step_count: u64,
    /// The world state: ``[H, W, V, U]``
    pub state: Grid<Populations<E>>,
}

impl<E: Copy> LBMMeta for LBM<E> {
    open spec fn spec_shape(&self) -> [usize; 2] {
        [self.state@.len() as usize, self.state.width]
    }

    fn shape(&self) -> (s: [usize; 2]) {
        [self.state.height(), self.state.width]
    }
}

impl<E: Copy> LBM<E> {
    /// Get the current simulation step count.
    pub fn step_count(&self) -> (n: u64)
        ensures
            n == self.step_count,
    {
        self.step_count
    }

    /// Set the current simulation step count.
    pub fn set_step_count(&mut self, step: u64)
        ensures
            final(self).step_count == step,
            final(self).state == old(self).state,
    {
        self.step_count = step;
    }

    /// Reset the simulation step count to zero.
    pub fn reset_step_count(&mut self)
        ensures
            final(self).step_count == 0,
            final(self).state == old(self).state,
    {
        self.set_step_count(0)
    }
}

/// A 3x3 neighbourhood window of populations, indexed ``[Vy, Vx, HK, WK]``:
/// entry `[v][u][ky][kx]` is population `[v][u]` of the neighbour at offset `(ky, kx)`.
pub type Window<E> = [[[[E; 3]; 3]; 3]; 3];

/// The window of the 3x3 neighbourhood whose top-left cell is `(i, j)`.
fn window_at<E: Copy>(state: &Grid<Populations<E>>, i: usize, j: usize) -> (win: Window<E>)
    requires
        state.wf(),
        i + 2 < state@.len(),
        j + 2 < state.width,
    ensures
        forall|v: int, u: int, ky: int, kx: int|
            0 <= v < 3 && 0 <= u < 3 && 0 <= ky < 3 && 0 <= kx < 3 ==> #[trigger] win[v][u][ky][kx]
                == state@[i + ky][j + kx][v][u],
{
    let _h = state.height();
    let c00 = state.get(i, j);
    let c01 = state.get(i, j + 1);
    let c02 = state.get(i, j + 2);
    let c10 = state.get(i + 1, j);
    let c11 = state.get(i + 1, j + 1);
    let c12 = state.get(i + 1, j + 2);
    let c20 = state.get(i + 2, j);
    let c21 = state.get(i + 2, j + 1);
    let c22 = state.get(i + 2, j + 2);
    let z = c00[0][0];
    let mut win: Window<E> = [[[[z, z, z], [z, z, z], [z, z, z]], [[z, z, z], [z, z, z], [z, z, z]], [
        [z, z, z],
        [z, z, z],
        [z, z, z],
    ]], [[[z, z, z], [z, z, z], [z, z, z]], [[z, z, z], [z, z, z], [z, z, z]], [
        [z, z, z],
        [z, z, z],
        [z, z, z],
    ]], [[[z, z, z], [z, z, z], [z, z, z]], [[z, z, z], [z, z, z], [z, z, z]], [
        [z, z, z],
        [z, z, z],
        [z, z, z],
    ]]];
    let mut v: usize = 0;
    while v < 3
        invariant
            state.wf(),
            i + 2 < state@.len(),
            j + 2 < state.width,
            v <= 3,
            c00 == state@[i as int][j as int],
            c01 == state@[i as int][j + 1],
            c02 == state@[i as int][j + 2],
            c10 == state@[i + 1][j as int],
            c11 == state@[i + 1][j + 1],
            c12 == state@[i + 1][j + 2],
            c20 == state@[i + 2][j as int],
            c21 == state@[i + 2][j + 1],
            c22 == state@[i + 2][j + 2],
            forall|vv: int, u: int, ky: int, kx: int|
                0 <= vv < v && 0 <= u < 3 && 0 <= ky < 3 && 0 <= kx < 3 ==> #[trigger] win[vv][u][ky][kx]
                    == state@[i + ky][j + kx][vv][u],
        decreases 3 - v,
    {
        let mut u: usize = 0;
        while u < 3
            invariant
                state.wf(),
                i + 2 < state@.len(),
                j + 2 < state.width,
                v < 3,
                u <= 3,
                c00 == state@[i as int][j as int],
                c01 == state@[i as int][j + 1],
                c02 == state@[i as int][j + 2],
                c10 == state@[i + 1][j as int],
                c11 == state@[i + 1][j + 1],
                c12 == state@[i + 1][j + 2],
                c20 == state@[i + 2][j as int],
                c21 == state@[i + 2][j + 1],
                c22 == state@[i + 2][j + 2],
                forall|vv: int, uu: int, ky: int, kx: int|
                    (0 <= vv < v && 0 <= uu < 3 || vv == v && 0 <= uu < u) && 0 <= ky < 3 && 0 <= kx < 3
                        ==> #[trigger] win[vv][uu][ky][kx] == state@[i + ky][j + kx][vv][uu],
            decreases 3 - u,
        {
            let block = [
                [c00[v][u], c01[v][u], c02[v][u]],
                [c10[v][u], c11[v][u], c12[v][u]],
                [c20[v][u], c21[v][u], c22[v][u]],
            ];
            win[v][u] = block;
            proof {
                assert forall|ky: int, kx: int| 0 <= ky < 3 && 0 <= kx < 3 implies #[trigger] win[v as int][u as int][ky][kx]
                    == state@[i + ky][j + kx][v as int][u as int] by {
                    assert(ky == 0 || ky == 1 || ky == 2);
                    assert(kx == 0 || kx == 1 || kx == 2);
                }
            }
            u += 1;
        }
        v += 1;
    }
    win
}

/// Lattice-Boltzmann Method Streaming Operation.
///
/// This operation applies the LBM streaming operation,
/// swapping complementary direction pairs from neighboring cells:
/// for each window, population `[ty][tx]` of the result is entry
/// `[2 - ty][2 - tx][ty][tx]` of the window.
///
/// # Arguments
///
/// - `state`: the ``[..., Vy=3, Vx=3, HK=3, WK=3]`` windows, one per leading position.
///
/// # Returns
///
/// The ``[..., Vy=3, Vx=3]`` streamed populations.
pub fn streaming_window_op<E: Copy>(state: &Vec<Window<E>>) -> (out: Vec<Populations<E>>)
    ensures
        out@.len() == state@.len(),
        forall|n: int, ty: int, tx: int|
            0 <= n < state@.len() && 0 <= ty < 3 && 0 <= tx < 3 ==> #[trigger] out@[n][ty][tx]
                == state@[n][2 - ty][2 - tx][ty][tx],
{
    let mut out: Vec<Populations<E>> = Vec::new();
    let mut n: usize = 0;
    while n < state.len()
        invariant
            n <= state@.len(),
            out@.len() == n,
            forall|k: int, ty: int, tx: int|
                0 <= k < n && 0 <= ty < 3 && 0 <= tx < 3 ==> #[trigger] out@[k][ty][tx]
                    == state@[k][2 - ty][2 - tx][ty][tx],
        decreases state@.len() - n,
    {
        let w = state[n];
        let c = [
            [w[2][2][0][0], w[2][1][0][1], w[2][0][0][2]],
            [w[1][2][1][0], w[1][1][1][1], w[1][0][1][2]],
            [w[0][2][2][0], w[0][1][2][1], w[0][0][2][2]],
        ];
        assert forall|ty: int, tx: int| 0 <= ty < 3 && 0 <= tx < 3 implies #[trigger] c[ty][tx]
            == state@[n as int][2 - ty][2 - tx][ty][tx] by {
            assert(ty == 0 || ty == 1 || ty == 2);
            assert(tx == 0 || tx == 1 || tx == 2);
        }
        out.push(c);
        n += 1;
    }
    out
}

/// Compute the streaming updates for the non-border cells of a state: the
/// lattice is unfolded into its 3x3 windows and [`streaming_window_op`] is
/// applied to each.
///
/// # Returns
///
/// The stream updates for the ``[1:-1, 1:-1, V=3, U=3]`` interior: population
/// `[vy][vx]` of interior cell `(i + 1, j + 1)` is population `[2 - vy][2 - vx]` of
/// cell `(i + vy, j + vx)`.
pub fn interior_streaming_updates<E: Copy>(state: &Grid<Populations<E>>) -> (r: Grid<Populations<E>>)
    requires
        state.wf(),
        state@.len() < usize::MAX,
        state.width < usize::MAX,
    ensures
        r.wf(),
        r@.len() == spec_unfold_windows(state@.len() as int, 3, 1),
        r.width == spec_unfold_windows(state.width as int, 3, 1),
        forall|i: int, j: int, vy: int, vx: int|
            0 <= i < r@.len() && 0 <= j < r.width && 0 <= vy < 3 && 0 <= vx < 3 ==> #[trigger] r@[i][j][vy][vx]
                == state@[i + vy][j + vx][2 - vy][2 - vx],
{
    let h = state.height();
    let w = state.width;
    let hw = unfold_windows(h, 3, 1);
    let ww = unfold_windows(w, 3, 1);
    let mut rows: Vec<Vec<Populations<E>>> = Vec::new();
    let mut i: usize = 0;
    while i < hw
        invariant
            state.wf(),
            h == state@.len(),
            w == state.width,
            hw == spec_unfold_windows(h as int, 3, 1),
            ww == spec_unfold_windows(w as int, 3, 1),
            i <= hw,
            rows@.len() == i,
            forall|k: int| 0 <= k < i ==> (#[trigger] rows@[k])@.len() == ww,
            forall|k: int, l: int, vy: int, vx: int|
                0 <= k < i && 0 <= l < ww && 0 <= vy < 3 && 0 <= vx < 3 ==> #[trigger] rows@[k]@[l][vy][vx]
                    == state@[k + vy][l + vx][2 - vy][2 - vx],
        decreases hw - i,
    {
        let mut windows: Vec<Window<E>> = Vec::new();
        let mut j: usize = 0;
        while j < ww
            invariant
                state.wf(),
                h == state@.len(),
                w == state.width,
                hw == spec_unfold_windows(h as int, 3, 1),
                ww == spec_unfold_windows(w as int, 3, 1),
                i < hw,
                j <= ww,
                windows@.len() == j,
                forall|l: int, v: int, u: int, ky: int, kx: int|
                    0 <= l < j && 0 <= v < 3 && 0 <= u < 3 && 0 <= ky < 3 && 0 <= kx < 3
                        ==> #[trigger] windows@[l][v][u][ky][kx] == state@[i + ky][l + kx][v][u],
            decreases ww - j,
        {
            windows.push(window_at(state, i, j));
            j += 1;
        }
        let row = streaming_window_op(&windows);
        proof {
            assert forall|l: int, vy: int, vx: int|
                0 <= l < ww && 0 <= vy < 3 && 0 <= vx < 3 implies #[trigger] row@[l][vy][vx]
                == state@[i + vy][l + vx][2 - vy][2 - vx] by {
                assert(row@[l][vy][vx] == windows@[l][2 - vy][2 - vx][vy][vx]);
            }
        }
        rows.push(row);
        i += 1;
    }
    let r = Grid { rows, width: ww };
    assert forall|k: int| 0 <= k < r@.len() implies #[trigger] r@[k].len() == ww by {
        assert(r@[k] == rows@[k]@);
    }
    r
}

} // verus!
