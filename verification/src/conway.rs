//! # Conway's Game of Life on a Bounded Board
//!
//! The board is a rectangle of cells; [`Conway::step`] advances the interior
//! cells by Conway's rule and keeps the border fixed, and [`Conway::wrap`]
//! copies opposite edges into the border to simulate a torus.
use vstd::prelude::*;
use crate::convolve::surface::{spec_unfold_windows, unfold_windows};
use crate::grid::{Grid, is_rect, overwrite, rows_view, sub_block, lemma_read_overwrite};
use crate::life::{
    b2i, block_count, count_block, life_rule, life_step, neighbors, wrap_board, wrapped,
    lemma_b2i, law_life_rule_is_b3_s23, law_neighbors_are_the_eight_around,
};
use crate::slicing::{AxisSlice, into_slices, slice_first, slice_last, slices_shape};

verus! {

/// Config for [`Conway`].
pub struct ConwayConfig {
    /// The shape of the board: `[height, width]`.
    pub shape: [usize; 2],
}

impl ConwayConfig {
    /// Initialize a [`Conway`] board with every cell dead and no previous state.
    pub fn init(self) -> (c: Conway)
        ensures
            c.wf(),
            c.state@.len() == self.shape[0],
            c.state.width == self.shape[1],
            forall|i: int, j: int|
                0 <= i < self.shape[0] && 0 <= j < self.shape[1] ==> !#[trigger] c.state@[i][j],
            c.previous is None,
    {
        Conway { state: Grid::filled(self.shape[0], self.shape[1], false), previous: None }
    }
}

/// State of Conway's Game of Life.
pub struct Conway {
    /// The current board; `true` is a live cell.
    pub state: Grid<bool>,
    /// The board before the last step, if any.
    pub previous: Option<Grid<bool>>,
}

/// The cells a pair of slices selects from a board of rows `w` cells wide.
pub open spec fn read_spec(g: Seq<Seq<bool>>, w: int, ranges: [AxisSlice; 2]) -> Seq<Seq<bool>> {
    sub_block(
        g,
        slice_first(ranges[0], g.len() as int),
        slice_last(ranges[0], g.len() as int),
        slice_first(ranges[1], w),
        slice_last(ranges[1], w),
    )
}

/// The board after writing `d` into the cells a pair of slices selects.
pub open spec fn write_spec(g: Seq<Seq<bool>>, w: int, ranges: [AxisSlice; 2], d: Seq<Seq<bool>>) -> Seq<
    Seq<bool>,
> {
    overwrite(g, w, slice_first(ranges[0], g.len() as int), slice_first(ranges[1], w), d)
}

/// The slices select a well-ordered block of a board with `h` rows of `w` cells.
pub open spec fn valid_selection(h: int, w: int, ranges: [AxisSlice; 2]) -> bool {
    &&& h <= isize::MAX
    &&& w <= isize::MAX
    &&& slice_first(ranges[0], h) <= slice_last(ranges[0], h)
    &&& slice_first(ranges[1], w) <= slice_last(ranges[1], w)
}

/// `data` has exactly the shape the slices select.
pub open spec fn fits_selection(h: int, w: int, ranges: [AxisSlice; 2], data: Seq<Seq<bool>>) -> bool {
    &&& data.len() == slice_last(ranges[0], h) - slice_first(ranges[0], h)
    &&& is_rect(data, slice_last(ranges[1], w) - slice_first(ranges[1], w))
}

impl Conway {
    /// The boards are rectangular.
    pub open spec fn wf(&self) -> bool {
        &&& self.state.wf()
        &&& self.previous matches Some(p) ==> p.wf()
    }

    /// The board shape: `[height, width]`.
    pub fn shape(&self) -> (s: [usize; 2])
        ensures
            s[0] == self.state@.len(),
            s[1] == self.state.width,
    {
        [self.state.height(), self.state.width]
    }

    /// OR a noise mask of the same shape into the board: every cell alive in
    /// `noise` becomes alive, the others keep their state.
    pub fn fuzz_with_noise(&mut self, noise: &Grid<bool>)
        requires
            old(self).wf(),
            noise.wf(),
            noise@.len() == old(self).state@.len(),
            noise.width == old(self).state.width,
        ensures
            final(self).wf(),
            final(self).previous == old(self).previous,
            final(self).state.width == old(self).state.width,
            final(self).state@.len() == old(self).state@.len(),
            forall|i: int, j: int|
                0 <= i < old(self).state@.len() && 0 <= j < old(self).state.width
                    ==> #[trigger] final(self).state@[i][j] == (old(self).state@[i][j]
                    || noise@[i][j]),
    {
        self.state = or_boards(&self.state, noise);
    }

    /// Wrap the board state.
    ///
    /// This simulates a toroidal space by copying the penultimate rows and columns
    /// to the edges of the opposite sides.
    pub fn wrap(&mut self)
        requires
            old(self).wf(),
            old(self).state@.len() >= 2,
            old(self).state.width >= 2,
        ensures
            final(self).wf(),
            final(self).previous == old(self).previous,
            final(self).state.width == old(self).state.width,
            final(self).state@ == wrapped(old(self).state@, old(self).state.width as int),
    {
        self.state = wrap_board(&self.state);
    }

    /// Advance the board by one step; the board before the step becomes the previous board.
    pub fn step(&mut self)
        requires
            old(self).wf(),
            old(self).state@.len() < usize::MAX,
            old(self).state.width < usize::MAX,
        ensures
            final(self).wf(),
            final(self).state.width == old(self).state.width,
            final(self).state@ == life_step(old(self).state@, old(self).state.width as int),
            final(self).previous matches Some(p) && p@ == old(self).state@ && p.width
                == old(self).state.width,
    {
        let next = Self::next_inner(&self.state);
        let prev = self.state.duplicate();
        self.previous = Some(prev);
        self.state = next;
    }

    /// For each 3x3 block of the board, the number of live cells in it (centre
    /// included); entry `(i, j)` counts the block whose top-left cell is `(i, j)`.
    pub fn neighbor_count(state: &Grid<bool>) -> (counts: Grid<i64>)
        requires
            state.wf(),
            state@.len() < usize::MAX,
            state.width < usize::MAX,
        ensures
            counts.wf(),
            counts@.len() == spec_unfold_windows(state@.len() as int, 3, 1),
            counts.width == spec_unfold_windows(state.width as int, 3, 1),
            forall|i: int, j: int|
                0 <= i < counts@.len() && 0 <= j < counts.width ==> #[trigger] counts@[i][j]
                    == block_count(state@, i, j),
    {
        let h = state.height();
        let w = state.width;
        let hw = unfold_windows(h, 3, 1);
        let ww = unfold_windows(w, 3, 1);
        let mut rows: Vec<Vec<i64>> = Vec::new();
        let mut i: usize = 0;
        while i < hw
            invariant
                state.wf(),
                h == state@.len(),
                w == state.width,
                hw == spec_unfold_windows(h as int, 3, 1),
                ww == spec_unfold_windows(w as int, 3, 1),
                i <= hw,
                rows@.len() == i,
                forall|k: int| 0 <= k < i ==> (#[trigger] rows@[k])@.len() == ww,
                forall|k: int, l: int|
                    0 <= k < i && 0 <= l < ww ==> #[trigger] rows@[k]@[l] == block_count(state@, k, l),
            decreases hw - i,
        {
            let mut row: Vec<i64> = Vec::new();
            let mut j: usize = 0;
            while j < ww
                invariant
                    state.wf(),
                    h == state@.len(),
                    w == state.width,
                    hw == spec_unfold_windows(h as int, 3, 1),
                    ww == spec_unfold_windows(w as int, 3, 1),
                    i < hw,
                    j <= ww,
                    row@.len() == j,
                    forall|l: int| 0 <= l < j ==> #[trigger] row@[l] == block_count(state@, i as int, l),
                decreases ww - j,
            {
                let n = count_block(state, i, j);
                row.push(n as i64);
                j += 1;
            }
            rows.push(row);
            i += 1;
        }
        let counts = Grid { rows, width: ww };
        assert forall|k: int| 0 <= k < counts@.len() implies #[trigger] counts@[k].len() == ww by {
            assert(counts@[k] == rows@[k]@);
        }
        counts
    }

    /// The board after one step of Conway's rule; border cells are kept.
    pub fn next_inner(state: &Grid<bool>) -> (next: Grid<bool>)
        requires
            state.wf(),
            state@.len() < usize::MAX,
            state.width < usize::MAX,
        ensures
            next.wf(),
            next.width == state.width,
            next@ == life_step(state@, state.width as int),
    {
        let counts = Self::neighbor_count(state);
        let h = state.height();
        let w = state.width;
        let mut rows: Vec<Vec<bool>> = Vec::new();
        let mut i: usize = 0;
        while i < h
            invariant
                state.wf(),
                counts.wf(),
                h == state@.len(),
                w == state.width,
                counts@.len() == spec_unfold_windows(h as int, 3, 1),
                counts.width == spec_unfold_windows(w as int, 3, 1),
                forall|a: int, b: int|
                    0 <= a < counts@.len() && 0 <= b < counts.width ==> #[trigger] counts@[a][b]
                        == block_count(state@, a, b),
                i <= h,
                rows@.len() == i,
                forall|k: int| 0 <= k < i ==> (#[trigger] rows@[k])@ == life_step(state@, w as int)[k],
            decreases h - i,
        {
            let mut row: Vec<bool> = Vec::new();
            let mut j: usize = 0;
            while j < w
                invariant
                    state.wf(),
                    counts.wf(),
                    h == state@.len(),
                    w == state.width,
                    counts@.len() == spec_unfold_windows(h as int, 3, 1),
                    counts.width == spec_unfold_windows(w as int, 3, 1),
                    forall|a: int, b: int|
                        0 <= a < counts@.len() && 0 <= b < counts.width ==> #[trigger] counts@[a][b]
                            == block_count(state@, a, b),
                    i < h,
                    j <= w,
                    row@.len() == j,
                    forall|l: int|
                        0 <= l < j ==> #[trigger] row@[l] == life_step(state@, w as int)[i as int][l],
                decreases w - j,
            {
                let live = state.get(i, j);
                let v = if 1 <= i && i + 1 < h && 1 <= j && j + 1 < w {
                    let block = counts.get(i - 1, j - 1);
                    proof {
                        lemma_b2i(live);
                    }
                    let n = if live {
                        block - 1
                    } else {
                        block
                    };
                    let survivors = live && (n == 2 || n == 3);
                    let spawners = !live && n == 3;
                    survivors || spawners
                } else {
                    live
                };
                row.push(v);
                j += 1;
            }
            assert(row@ =~= life_step(state@, w as int)[i as int]);
            rows.push(row);
            i += 1;
        }
        let next = Grid { rows, width: w };
        assert(next@ =~= life_step(state@, w as int));
        next
    }

    /// Read the cells a pair of slices selects from a board, as rows.
    pub fn read_2d_slice(state: &Grid<bool>, ranges: [AxisSlice; 2]) -> (block: Vec<Vec<bool>>)
        requires
            state.wf(),
            valid_selection(state@.len() as int, state.width as int, ranges),
        ensures
            rows_view(block@) == read_spec(state@, state.width as int, ranges),
    {
        let slices = into_slices(ranges, [state.height(), state.width]);
        let shape = slices_shape(&slices);
        let r0 = slices[0].start as usize;
        let c0 = slices[1].start as usize;
        state.read_block(r0, r0 + shape[0], c0, c0 + shape[1])
    }

    /// Read the cells a pair of slices selects from the previous board, if there is one.
    pub fn read_previous_slice(&self, ranges: [AxisSlice; 2]) -> (block: Option<Vec<Vec<bool>>>)
        requires
            self.wf(),
            self.previous matches Some(p) ==> valid_selection(p@.len() as int, p.width as int, ranges),
        ensures
            match self.previous {
                None => block is None,
                Some(p) => block matches Some(b) && rows_view(b@) == read_spec(p@, p.width as int, ranges),
            },
    {
        match &self.previous {
            None => None,
            Some(p) => Some(Self::read_2d_slice(p, ranges)),
        }
    }

    /// Read the cells a pair of slices selects from the current board.
    pub fn read_slice(&self, ranges: [AxisSlice; 2]) -> (block: Vec<Vec<bool>>)
        requires
            self.wf(),
            valid_selection(self.state@.len() as int, self.state.width as int, ranges),
        ensures
            rows_view(block@) == read_spec(self.state@, self.state.width as int, ranges),
    {
        Self::read_2d_slice(&self.state, ranges)
    }

    /// Write `data` into the cells a pair of slices selects on the current board.
    pub fn write_slice(&mut self, ranges: [AxisSlice; 2], data: Vec<Vec<bool>>)
        requires
            old(self).wf(),
            valid_selection(old(self).state@.len() as int, old(self).state.width as int, ranges),
            fits_selection(
                old(self).state@.len() as int,
                old(self).state.width as int,
                ranges,
                rows_view(data@),
            ),
        ensures
            final(self).wf(),
            final(self).previous == old(self).previous,
            final(self).state.width == old(self).state.width,
            final(self).state@ == write_spec(
                old(self).state@,
                old(self).state.width as int,
                ranges,
                rows_view(data@),
            ),
    {
        let slices = into_slices(ranges, [self.state.height(), self.state.width]);
        let r0 = slices[0].start as usize;
        let c0 = slices[1].start as usize;
        proof {
            let d = rows_view(data@);
            assert forall|k: int| 0 <= k < data@.len() implies c0 + (#[trigger] data@[k])@.len()
                <= self.state.width by {
                assert(d[k].len() == data@[k]@.len());
            }
            assert forall|k: int, l: int|
                0 <= k < data@.len() && 0 <= l < data@.len() implies (#[trigger] data@[k])@.len()
                == (#[trigger] data@[l])@.len() by {
                assert(d[k].len() == data@[k]@.len());
                assert(d[l].len() == data@[l]@.len());
            }
        }
        self.state = self.state.with_block(r0, c0, &data);
    }
}

/// Reading a selection right after writing `data` into it gives back `data`.
pub proof fn law_read_after_write(g: Seq<Seq<bool>>, w: int, ranges: [AxisSlice; 2], data: Seq<Seq<bool>>)
    requires
        is_rect(g, w),
        0 <= w,
        valid_selection(g.len() as int, w, ranges),
        fits_selection(g.len() as int, w, ranges, data),
    ensures
        read_spec(write_spec(g, w, ranges, data), w, ranges) == data,
{
    let h = g.len() as int;
    let r0 = slice_first(ranges[0], h);
    let c0 = slice_first(ranges[1], w);
    let dw = slice_last(ranges[1], w) - c0;
    assert(write_spec(g, w, ranges, data).len() == h);
    lemma_read_overwrite(g, w, r0, c0, data, dw);
}

/// Writing a selection leaves every cell outside it as it was.
pub proof fn law_write_keeps_other_cells(
    g: Seq<Seq<bool>>,
    w: int,
    ranges: [AxisSlice; 2],
    data: Seq<Seq<bool>>,
    i: int,
    j: int,
)
    requires
        is_rect(g, w),
        valid_selection(g.len() as int, w, ranges),
        fits_selection(g.len() as int, w, ranges, data),
        0 <= i < g.len(),
        0 <= j < w,
        !(slice_first(ranges[0], g.len() as int) <= i < slice_last(ranges[0], g.len() as int)
            && slice_first(ranges[1], w) <= j < slice_last(ranges[1], w)),
    ensures
        write_spec(g, w, ranges, data)[i][j] == g[i][j],
{
    let h = g.len() as int;
    let r0 = slice_first(ranges[0], h);
    if r0 <= i < r0 + data.len() {
        assert(data[i - r0].len() == slice_last(ranges[1], w) - slice_first(ranges[1], w));
    }
}

/// The toroidal wrap keeps every interior cell and fills the border from the
/// opposite side: the first and last rows from the penultimate and second rows,
/// the first and last columns from the penultimate and second columns, and each
/// corner from the opposite inner corner.
pub proof fn law_wrap_copies_opposite_edges(g: Seq<Seq<bool>>, w: int, i: int, j: int)
    requires
        g.len() >= 2,
        w >= 2,
        0 <= i < g.len(),
        0 <= j < w,
    ensures
        1 <= i < g.len() - 1 && 1 <= j < w - 1 ==> wrapped(g, w)[i][j] == g[i][j],
        1 <= j < w - 1 ==> wrapped(g, w)[0][j] == g[g.len() - 2][j],
        1 <= j < w - 1 ==> wrapped(g, w)[g.len() - 1][j] == g[1][j],
        1 <= i < g.len() - 1 ==> wrapped(g, w)[i][0] == g[i][w - 2],
        1 <= i < g.len() - 1 ==> wrapped(g, w)[i][w - 1] == g[i][1],
        wrapped(g, w)[0][0] == g[g.len() - 2][w - 2],
        wrapped(g, w)[0][w - 1] == g[g.len() - 2][1],
        wrapped(g, w)[g.len() - 1][0] == g[1][w - 2],
        wrapped(g, w)[g.len() - 1][w - 1] == g[1][1],
{
}

/// One step keeps the board's shape and its border cells, and moves every
/// interior cell by Conway's rule (B3/S23) on its eight neighbours: a dead cell
/// comes alive with exactly three live neighbours, a live cell stays alive with
/// two or three.
pub proof fn law_step_cell(g: Seq<Seq<bool>>, w: int, i: int, j: int)
    requires
        is_rect(g, w),
        0 <= w,
        0 <= i < g.len(),
        0 <= j < w,
    ensures
        life_step(g, w).len() == g.len(),
        is_rect(life_step(g, w), w),
        (1 <= i < g.len() - 1 && 1 <= j < w - 1) ==> {
            let n = b2i(g[i - 1][j - 1]) + b2i(g[i - 1][j]) + b2i(g[i - 1][j + 1]) + b2i(g[i][j - 1])
                + b2i(g[i][j + 1]) + b2i(g[i + 1][j - 1]) + b2i(g[i + 1][j]) + b2i(g[i + 1][j + 1]);
            &&& life_step(g, w)[i][j] == (n == 3 || (g[i][j] && n == 2))
            &&& 0 <= n <= 8
        },
        !(1 <= i < g.len() - 1 && 1 <= j < w - 1) ==> life_step(g, w)[i][j] == g[i][j],
        b2i(true) == 1,
        b2i(false) == 0,
{
    if 1 <= i < g.len() - 1 && 1 <= j < w - 1 {
        law_neighbors_are_the_eight_around(g, i, j);
        law_life_rule_is_b3_s23(neighbors(g, i, j));
    }
}

/// Writing `data` into a selection puts row `k`, cell `l` of `data` at board
/// cell `(r0 + k, c0 + l)`, where `r0` and `c0` are the resolved starts of the
/// selection; the board keeps its shape.
pub proof fn law_write_puts_data_at_selection(
    g: Seq<Seq<bool>>,
    w: int,
    ranges: [AxisSlice; 2],
    data: Seq<Seq<bool>>,
    k: int,
    l: int,
)
    requires
        is_rect(g, w),
        0 <= w,
        valid_selection(g.len() as int, w, ranges),
        fits_selection(g.len() as int, w, ranges, data),
        0 <= k < data.len(),
        0 <= l < data[k].len(),
    ensures
        write_spec(g, w, ranges, data).len() == g.len(),
        is_rect(write_spec(g, w, ranges, data), w),
        0 <= slice_first(ranges[0], g.len() as int) + k < g.len(),
        0 <= slice_first(ranges[1], w) + l < w,
        write_spec(g, w, ranges, data)[slice_first(ranges[0], g.len() as int) + k][slice_first(ranges[1], w)
            + l] == data[k][l],
{
    let h = g.len() as int;
    let r0 = slice_first(ranges[0], h);
    let c0 = slice_first(ranges[1], w);
    assert(data[k].len() == slice_last(ranges[1], w) - c0);
    assert(0 <= r0 && slice_last(ranges[0], h) <= h);
    assert(0 <= c0 && slice_last(ranges[1], w) <= w);
}

/// Reading a selection gives, at row `k`, cell `l`, the board cell
/// `(r0 + k, c0 + l)`, where `r0` and `c0` are the resolved starts of the
/// selection; the block has the selected numbers of rows and columns.
pub proof fn law_read_takes_cells_at_selection(g: Seq<Seq<bool>>, w: int, ranges: [AxisSlice; 2], k: int, l: int)
    requires
        is_rect(g, w),
        0 <= w,
        valid_selection(g.len() as int, w, ranges),
        0 <= k < slice_last(ranges[0], g.len() as int) - slice_first(ranges[0], g.len() as int),
        0 <= l < slice_last(ranges[1], w) - slice_first(ranges[1], w),
    ensures
        read_spec(g, w, ranges).len() == slice_last(ranges[0], g.len() as int) - slice_first(
            ranges[0],
            g.len() as int,
        ),
        read_spec(g, w, ranges)[k].len() == slice_last(ranges[1], w) - slice_first(ranges[1], w),
        0 <= slice_first(ranges[0], g.len() as int) + k < g.len(),
        0 <= slice_first(ranges[1], w) + l < w,
        read_spec(g, w, ranges)[k][l] == g[slice_first(ranges[0], g.len() as int) + k][slice_first(ranges[1], w)
            + l],
{
}

/// The cell-wise OR of two boards of the same shape.
pub fn or_boards(a: &Grid<bool>, b: &Grid<bool>) -> (r: Grid<bool>)
    requires
        a.wf(),
        b.wf(),
        a@.len() == b@.len(),
        a.width == b.width,
    ensures
        r.wf(),
        r.width == a.width,
        r@.len() == a@.len(),
        forall|i: int, j: int|
            0 <= i < a@.len() && 0 <= j < a.width ==> #[trigger] r@[i][j] == (a@[i][j] || b@[i][j]),
{
    let h = a.height();
    let w = a.width;
    let mut rows: Vec<Vec<bool>> = Vec::new();
    let mut i: usize = 0;
    while i < h
        invariant
            a.wf(),
            b.wf(),
            h == a@.len(),
            h == b@.len(),
            w == a.width,
            w == b.width,
            i <= h,
            rows@.len() == i,
            forall|k: int| 0 <= k < i ==> (#[trigger] rows@[k])@.len() == w,
            forall|k: int, l: int|
                0 <= k < i && 0 <= l < w ==> #[trigger] rows@[k]@[l] == (a@[k][l] || b@[k][l]),
        decreases h - i,
    {
        let mut row: Vec<bool> = Vec::new();
        let mut j: usize = 0;
        while j < w
            invariant
                a.wf(),
                b.wf(),
                h == a@.len(),
                h == b@.len(),
                w == a.width,
                w == b.width,
                i < h,
                j <= w,
                row@.len() == j,
                forall|l: int| 0 <= l < j ==> #[trigger] row@[l] == (a@[i as int][l] || b@[i as int][l]),
            decreases w - j,
        {
            row.push(a.get(i, j) || b.get(i, j));
            j += 1;
        }
        rows.push(row);
        i += 1;
    }
    let r = Grid { rows, width: w };
    assert forall|k: int| 0 <= k < r@.len() implies #[trigger] r@[k].len() == w by {
        assert(r@[k] == rows@[k]@);
    }
    r
}

} // verus!
