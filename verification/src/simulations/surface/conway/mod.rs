//! # Conway's Game of Life
//!
//! The step applies a 3x3 neighbourhood function to every window of the board
//! with [`convolve_func_2d`], and writes the result over the board's interior.
use vstd::prelude::*;
use crate::convolve::surface::{
    Array3, Array4, Array5, convolve_func_2d, is_block_image, is_window_array, lemma_block_index,
    spec_unfold_windows, window_counts,
};
use crate::conway::{or_boards, read_spec, valid_selection, fits_selection, write_spec};
use crate::grid::{Grid, copy_row, is_rect, rows_view};
use crate::life::{
    b2i, block_count, block_rule, life_step, wrap_board, wrapped, lemma_block_rule_is_life_rule,
};
use crate::slicing::{AxisSlice, into_slices, slices_shape};

verus! {

/// Config for [`Conway`]
pub struct ConwayConfig {
    /// The shape of the board.
    pub shape: [usize; 2],
}

impl ConwayConfig {
    /// Initialize a [`Conway`] module: every cell dead, no previous state.
    pub fn init(self) -> (c: Conway)
        ensures
            c.wf(),
            c.state@.len() == self.shape[0],
            c.state.width == self.shape[1],
            forall|i: int, j: int|
                0 <= i < self.shape[0] && 0 <= j < self.shape[1] ==> !#[trigger] c.state@[i][j],
            c.previous is None,
    {
        Conway { state: Grid::filled(self.shape[0], self.shape[1], false), previous: None }
    }
}

/// State module for Conway's Game of Life.
pub struct Conway {
    /// The current state of the board.
    pub state: Grid<bool>,
    /// The previous state of the board.
    pub previous: Option<Grid<bool>>,
}

impl Conway {
    /// The boards are rectangular.
    pub open spec fn wf(&self) -> bool {
        &&& self.state.wf()
        &&& self.previous matches Some(p) ==> p.wf()
    }

    /// Get the board shape.
    pub fn shape(&self) -> (s: [usize; 2])
        ensures
            s[0] == self.state@.len(),
            s[1] == self.state.width,
    {
        [self.state.height(), self.state.width]
    }

    /// Add noise to the board: every cell alive in `noise` becomes alive.
    pub fn fuzz_with_noise(&mut self, noise: &Grid<bool>)
        requires
            old(self).wf(),
            noise.wf(),
            noise@.len() == old(self).state@.len(),
            noise.width == old(self).state.width,
        ensures
            final(self).wf(),
            final(self).previous == old(self).previous,
            final(self).state.width == old(self).state.width,
            final(self).state@.len() == old(self).state@.len(),
            forall|i: int, j: int|
                0 <= i < old(self).state@.len() && 0 <= j < old(self).state.width
                    ==> #[trigger] final(self).state@[i][j] == (old(self).state@[i][j]
                    || noise@[i][j]),
    {
        self.state = or_boards(&self.state, noise);
    }

    /// Wrap the board state.
    ///
    /// This simulates a toroidal space by copying the penultimate rows and columns
    /// to the edges of the opposite sides.
    pub fn wrap(&mut self)
        requires
            old(self).wf(),
            old(self).state@.len() >= 2,
            old(self).state.width >= 2,
        ensures
            final(self).wf(),
            final(self).previous == old(self).previous,
            final(self).state.width == old(self).state.width,
            final(self).state@ == wrapped(old(self).state@, old(self).state.width as int),
    {
        self.state = wrap_board(&self.state);
    }

    /// Advance the board state by one step; without applying wrapping.
    pub fn step_no_wrap(&mut self)
        requires
            old(self).wf(),
            2 <= old(self).state@.len() < usize::MAX,
            2 <= old(self).state.width < usize::MAX,
            old(self).state@.len() * old(self).state.width <= usize::MAX,
        ensures
            final(self).wf(),
            final(self).state.width == old(self).state.width,
            final(self).state@ == life_step(old(self).state@, old(self).state.width as int),
            final(self).previous matches Some(p) && p@ == old(self).state@ && p.width
                == old(self).state.width,
    {
        let prev = self.state.duplicate();
        self.previous = Some(prev);
        self.state = next_inner(&self.state);
    }

    /// Read a slice of the previous board state.
    pub fn read_previous_slice(&self, ranges: [AxisSlice; 2]) -> (block: Option<Vec<Vec<bool>>>)
        requires
            self.wf(),
            self.previous matches Some(p) ==> valid_selection(p@.len() as int, p.width as int, ranges),
        ensures
            match self.previous {
                None => block is None,
                Some(p) => block matches Some(b) && rows_view(b@) == read_spec(p@, p.width as int, ranges),
            },
    {
        match &self.previous {
            None => None,
            Some(p) => Some(read_2d_slice(p, ranges)),
        }
    }

    /// Read a slice of the current board state.
    pub fn read_slice(&self, ranges: [AxisSlice; 2]) -> (block: Vec<Vec<bool>>)
        requires
            self.wf(),
            valid_selection(self.state@.len() as int, self.state.width as int, ranges),
        ensures
            rows_view(block@) == read_spec(self.state@, self.state.width as int, ranges),
    {
        read_2d_slice(&self.state, ranges)
    }

    /// Write a slice to the current board state.
    pub fn write_slice(&mut self, ranges: [AxisSlice; 2], data: Vec<Vec<bool>>)
        requires
            old(self).wf(),
            valid_selection(old(self).state@.len() as int, old(self).state.width as int, ranges),
            fits_selection(
                old(self).state@.len() as int,
                old(self).state.width as int,
                ranges,
                rows_view(data@),
            ),
        ensures
            final(self).wf(),
            final(self).previous == old(self).previous,
            final(self).state.width == old(self).state.width,
            final(self).state@ == write_spec(
                old(self).state@,
                old(self).state.width as int,
                ranges,
                rows_view(data@),
            ),
    {
        let slices = into_slices(ranges, [self.state.height(), self.state.width]);
        let r0 = slices[0].start as usize;
        let c0 = slices[1].start as usize;
        proof {
            let d = rows_view(data@);
            assert forall|k: int| 0 <= k < data@.len() implies c0 + (#[trigger] data@[k])@.len()
                <= self.state.width by {
                assert(d[k].len() == data@[k]@.len());
            }
            assert forall|k: int, l: int|
                0 <= k < data@.len() && 0 <= l < data@.len() implies (#[trigger] data@[k])@.len()
                == (#[trigger] data@[l])@.len() by {
                assert(d[k].len() == data@[k]@.len());
                assert(d[l].len() == data@[l]@.len());
            }
        }
        self.state = self.state.with_block(r0, c0, &data);
    }
}

/// Read the cells a pair of slices selects from a board, as rows.
fn read_2d_slice(state: &Grid<bool>, ranges: [AxisSlice; 2]) -> (block: Vec<Vec<bool>>)
    requires
        state.wf(),
        valid_selection(state@.len() as int, state.width as int, ranges),
    ensures
        rows_view(block@) == read_spec(state@, state.width as int, ranges),
{
    let slices = into_slices(ranges, [state.height(), state.width]);
    let shape = slices_shape(&slices);
    let r0 = slices[0].start as usize;
    let c0 = slices[1].start as usize;
    state.read_block(r0, r0 + shape[0], c0, c0 + shape[1])
}

/// The live count of the 3x3 window `[b, k, 0]` of a window array.
pub open spec fn window_count(x: Array5<bool>, b: int, k: int) -> int {
    b2i(x.at(b, k, 0, 0, 0)) + b2i(x.at(b, k, 0, 0, 1)) + b2i(x.at(b, k, 0, 0, 2)) + b2i(
        x.at(b, k, 0, 1, 0),
    ) + b2i(x.at(b, k, 0, 1, 1)) + b2i(x.at(b, k, 0, 1, 2)) + b2i(x.at(b, k, 0, 2, 0)) + b2i(
        x.at(b, k, 0, 2, 1),
    ) + b2i(x.at(b, k, 0, 2, 2))
}

/// The neighbourhood function of the step: for each single-channel 3x3 window,
/// whether its centre is alive after the step.
fn life_blocks(blocks: Array5<bool>) -> (r: Array3<bool>)
    requires
        blocks.wf(),
        blocks.dims[2] == 1,
        blocks.dims[3] == 3,
        blocks.dims[4] == 3,
    ensures
        r.wf(),
        r.dims[0] == blocks.dims[0],
        r.dims[1] == blocks.dims[1],
        r.dims[2] == 1,
        forall|b: int, k: int|
            0 <= b < r.dims[0] && 0 <= k < r.dims[1] ==> #[trigger] r.at(b, k, 0) == block_rule(
                blocks.at(b, k, 0, 1, 1),
                window_count(blocks, b, k),
            ),
{
    let batch = blocks.dims[0];
    let nblocks = blocks.dims[1];
    let mut data: Vec<Vec<Vec<bool>>> = Vec::new();
    let mut b: usize = 0;
    while b < batch
        invariant
            blocks.wf(),
            blocks.dims[2] == 1,
            blocks.dims[3] == 3,
            blocks.dims[4] == 3,
            batch == blocks.dims[0],
            nblocks == blocks.dims[1],
            b <= batch,
            data@.len() == b,
            forall|a: int| 0 <= a < b ==> (#[trigger] data@[a])@.len() == nblocks,
            forall|a: int, k: int|
                0 <= a < b && 0 <= k < nblocks ==> (#[trigger] data@[a]@[k])@.len() == 1 && data@[a]@[k]@[0]
                    == block_rule(blocks.at(a, k, 0, 1, 1), window_count(blocks, a, k)),
        decreases batch - b,
    {
        let mut row: Vec<Vec<bool>> = Vec::new();
        let mut k: usize = 0;
        while k < nblocks
            invariant
                blocks.wf(),
                blocks.dims[2] == 1,
                blocks.dims[3] == 3,
                blocks.dims[4] == 3,
                batch == blocks.dims[0],
                nblocks == blocks.dims[1],
                b < batch,
                k <= nblocks,
                row@.len() == k,
                forall|kk: int|
                    0 <= kk < k ==> (#[trigger] row@[kk])@.len() == 1 && row@[kk]@[0] == block_rule(
                        blocks.at(b as int, kk, 0, 1, 1),
                        window_count(blocks, b as int, kk),
                    ),
            decreases nblocks - k,
        {
            let win = &blocks.data[b][k][0];
            let n: u8 = cell(win, 0, 0) + cell(win, 0, 1) + cell(win, 0, 2) + cell(win, 1, 0) + cell(
                win,
                1,
                1,
            ) + cell(win, 1, 2) + cell(win, 2, 0) + cell(win, 2, 1) + cell(win, 2, 2);
            let live = win.get(1, 1);
            let threes = n == 3;
            let fours = n == 4;
            let update = threes || (fours && live);
            let mut v: Vec<bool> = Vec::new();
            v.push(update);
            row.push(v);
            k += 1;
        }
        data.push(row);
        b += 1;
    }
    Array3 { dims: [batch, nblocks, 1], data }
}

/// `1` for a live cell, `0` for a dead one.
fn cell(g: &Grid<bool>, i: usize, j: usize) -> (n: u8)
    requires
        g.wf(),
        i < g@.len(),
        j < g.width,
    ensures
        n == b2i(g@[i as int][j as int]),
{
    if g.get(i, j) {
        1
    } else {
        0
    }
}

/// The board after one step: the 3x3 windows are convolved with [`life_blocks`]
/// and the result is written over the interior.
pub fn next_inner(state: &Grid<bool>) -> (next: Grid<bool>)
    requires
        state.wf(),
        2 <= state@.len() < usize::MAX,
        2 <= state.width < usize::MAX,
        state@.len() * state.width <= usize::MAX,
    ensures
        next.wf(),
        next.width == state.width,
        next@ == life_step(state@, state.width as int),
{
    let h = state.height();
    let w = state.width;
    let plane = state.duplicate();
    let mut chans: Vec<Grid<bool>> = Vec::new();
    chans.push(plane);
    let mut batch: Vec<Vec<Grid<bool>>> = Vec::new();
    batch.push(chans);
    let batch_state = Array4 { dims: [1, 1, h, w], data: batch };
    let ghost input = batch_state;
    proof {
        assert(input.data@[0]@[0] == plane);
        assert(window_counts(input.dims, [3, 3]) == ((h - 2) as int, (w - 2) as int));
        assert((h - 2) * (w - 2) <= h * w) by (nonlinear_arith)
            requires
                2 <= h,
                2 <= w,
        ;
    }
    let conv_out = convolve_func_2d(batch_state, [3, 3], life_blocks);
    let ghost hw = (h - 2) as int;
    let ghost ww = (w - 2) as int;
    let ghost (x, r) = choose|x: Array5<bool>, r: Array3<bool>|
        #![trigger call_ensures(life_blocks, (x,), r)]
        is_window_array(x, input, [3, 3]) && call_ensures(life_blocks, (x,), r) && is_block_image(
            conv_out,
            r,
            hw,
            ww,
        );
    let update = &conv_out.data[0][0];
    proof {
        assert(update@.len() == hw);
        assert forall|i: int, j: int| 0 <= i < hw && 0 <= j < ww implies #[trigger] update@[i][j]
            == block_rule(state@[i + 1][j + 1], block_count(state@, i, j)) by {
            assert(conv_out.at(0, 0, i, j) == r.at(0, i * ww + j, 0));
            lemma_block_index(i, j, ww);
            crate::convolve::surface::lemma_block_bound(i, j, hw, ww);
            assert(x.at(0, i * ww + j, 0, 1, 1) == input.at(0, 0, i + 1, j + 1));
            assert(window_count(x, 0, i * ww + j) == block_count(state@, i, j)) by {
                assert(x.at(0, i * ww + j, 0, 0, 0) == input.at(0, 0, i, j));
                assert(x.at(0, i * ww + j, 0, 0, 1) == input.at(0, 0, i, j + 1));
                assert(x.at(0, i * ww + j, 0, 0, 2) == input.at(0, 0, i, j + 2));
                assert(x.at(0, i * ww + j, 0, 1, 0) == input.at(0, 0, i + 1, j));
                assert(x.at(0, i * ww + j, 0, 1, 2) == input.at(0, 0, i + 1, j + 2));
                assert(x.at(0, i * ww + j, 0, 2, 0) == input.at(0, 0, i + 2, j));
                assert(x.at(0, i * ww + j, 0, 2, 1) == input.at(0, 0, i + 2, j + 1));
                assert(x.at(0, i * ww + j, 0, 2, 2) == input.at(0, 0, i + 2, j + 2));
            }
        }
    }
    proof {
        assert forall|k: int| 0 <= k < update.rows@.len() implies (#[trigger] update.rows@[k])@.len() == ww by {
            assert(update@[k] == update.rows@[k]@);
        }
    }
    let next = state.with_block(1, 1, &update.rows);
    proof {
        let ls = life_step(state@, w as int);
        assert forall|i: int| 0 <= i < h implies #[trigger] next@[i] == ls[i] by {
            assert forall|j: int| 0 <= j < w implies #[trigger] next@[i][j] == ls[i][j] by {
                if 1 <= i < h - 1 && 1 <= j < w - 1 {
                    assert(update.rows@[i - 1]@ == update@[i - 1]);
                    lemma_block_rule_is_life_rule(state@[i][j], block_count(state@, i - 1, j - 1));
                }
            }
            assert(next@[i] =~= ls[i]);
        }
        assert(next@ =~= ls);
    }
    next
}

} // verus!
