//! # Rectangular Grids
//!
//! A [`Grid`] is a rectangular `height x width` array of cells, stored row by row.
use vstd::prelude::*;

verus! {

/// A rectangular grid of cells, stored as a vector of equally long rows.
pub struct Grid<T> {
    /// The rows of the grid; each holds `width` cells.
    pub rows: Vec<Vec<T>>,
    /// The number of cells in each row.
    pub width: usize,
}

/// The cells of a row-of-rows value, as a sequence of sequences.
pub open spec fn rows_view<T>(rows: Seq<Vec<T>>) -> Seq<Seq<T>> {
    Seq::new(rows.len(), |i: int| rows[i]@)
}

/// Every row of `cells` holds exactly `width` cells.
pub open spec fn is_rect<T>(cells: Seq<Seq<T>>, width: int) -> bool {
    forall|i: int| 0 <= i < cells.len() ==> #[trigger] cells[i].len() == width
}

/// The block of rows `r0..r1` and columns `c0..c1` of `g`.
pub open spec fn sub_block<T>(g: Seq<Seq<T>>, r0: int, r1: int, c0: int, c1: int) -> Seq<Seq<T>> {
    Seq::new((r1 - r0) as nat, |k: int| g[r0 + k].subrange(c0, c1))
}

/// `g` (with rows of `w` cells) with the block at rows `r0..`, columns `c0..`
/// replaced by `d`.
pub open spec fn overwrite<T>(g: Seq<Seq<T>>, w: int, r0: int, c0: int, d: Seq<Seq<T>>) -> Seq<
    Seq<T>,
> {
    Seq::new(
        g.len(),
        |i: int|
            Seq::new(
                w as nat,
                |j: int|
                    if r0 <= i < r0 + d.len() && c0 <= j < c0 + d[i - r0].len() {
                        d[i - r0][j - c0]
                    } else {
                        g[i][j]
                    },
            ),
    )
}

/// Reading back a block that was just written gives what was written.
pub proof fn lemma_read_overwrite<T>(
    g: Seq<Seq<T>>,
    w: int,
    r0: int,
    c0: int,
    d: Seq<Seq<T>>,
    dw: int,
)
    requires
        is_rect(g, w),
        is_rect(d, dw),
        0 <= r0,
        r0 + d.len() <= g.len(),
        0 <= c0,
        0 <= dw,
        c0 + dw <= w,
    ensures
        sub_block(overwrite(g, w, r0, c0, d), r0, r0 + d.len(), c0, c0 + dw) == d,
{
    let o = overwrite(g, w, r0, c0, d);
    let b = sub_block(o, r0, r0 + d.len(), c0, c0 + dw);
    assert forall|k: int| 0 <= k < d.len() implies #[trigger] b[k] == d[k] by {
        assert(d[k].len() == dw);
        assert(b[k] =~= d[k]);
    }
    assert(b =~= d);
}

impl<T> View for Grid<T> {
    type V = Seq<Seq<T>>;

    open spec fn view(&self) -> Seq<Seq<T>> {
        rows_view(self.rows@)
    }
}

impl<T: Copy> Grid<T> {
    /// Every row holds exactly `width` cells.
    pub open spec fn wf(&self) -> bool {
        is_rect(self@, self.width as int)
    }

    /// The number of rows.
    pub open spec fn spec_height(&self) -> int {
        self.rows@.len() as int
    }

    /// A `height x width` grid with every cell set to `value`.
    pub fn filled(height: usize, width: usize, value: T) -> (g: Grid<T>)
        ensures
            g.wf(),
            g.width == width,
            g@.len() == height,
            forall|i: int, j: int| 0 <= i < height && 0 <= j < width ==> #[trigger] g@[i][j] == value,
    {
        let mut rows: Vec<Vec<T>> = Vec::new();
        let mut i: usize = 0;
        while i < height
            invariant
                i <= height,
                rows@.len() == i,
                forall|k: int| 0 <= k < i ==> (#[trigger] rows@[k])@.len() == width,
                forall|k: int, j: int| 0 <= k < i && 0 <= j < width ==> #[trigger] rows@[k]@[j] == value,
            decreases height - i,
        {
            let mut row: Vec<T> = Vec::new();
            let mut j: usize = 0;
            while j < width
                invariant
                    j <= width,
                    row@.len() == j,
                    forall|k: int| 0 <= k < j ==> #[trigger] row@[k] == value,
                decreases width - j,
            {
                row.push(value);
                j += 1;
            }
            rows.push(row);
            i += 1;
        }
        Grid { rows, width }
    }

    /// The number of rows.
    pub fn height(&self) -> (h: usize)
        ensures
            h == self@.len(),
    {
        self.rows.len()
    }

    /// The cell at row `i`, column `j`.
    pub fn get(&self, i: usize, j: usize) -> (c: T)
        requires
            self.wf(),
            i < self@.len(),
            j < self.width,
        ensures
            c == self@[i as int][j as int],
    {
        assert(self@[i as int].len() == self.width);
        self.rows[i][j]
    }

    /// A copy of the grid.
    pub fn duplicate(&self) -> (g: Grid<T>)
        requires
            self.wf(),
        ensures
            g.wf(),
            g.width == self.width,
            g@ == self@,
    {
        let mut rows: Vec<Vec<T>> = Vec::new();
        let mut i: usize = 0;
        while i < self.rows.len()
            invariant
                self.wf(),
                i <= self@.len(),
                rows@.len() == i,
                forall|k: int| 0 <= k < i ==> (#[trigger] rows@[k])@ == self@[k],
            decreases self@.len() - i,
        {
            let row = copy_row(&self.rows[i]);
            rows.push(row);
            i += 1;
        }
        let g = Grid { rows, width: self.width };
        assert(g@ =~= self@);
        g
    }

    /// The block of rows `r0..r1` and columns `c0..c1`, as a vector of rows.
    pub fn read_block(&self, r0: usize, r1: usize, c0: usize, c1: usize) -> (block: Vec<Vec<T>>)
        requires
            self.wf(),
            r0 <= r1 <= self@.len(),
            c0 <= c1 <= self.width,
        ensures
            block@.len() == r1 - r0,
            forall|k: int| 0 <= k < r1 - r0 ==> (#[trigger] block@[k])@.len() == c1 - c0,
            forall|k: int, l: int|
                0 <= k < r1 - r0 && 0 <= l < c1 - c0 ==> #[trigger] block@[k]@[l] == self@[r0
                    + k][c0 + l],
            rows_view(block@) == sub_block(self@, r0 as int, r1 as int, c0 as int, c1 as int),
    {
        let mut block: Vec<Vec<T>> = Vec::new();
        let mut i: usize = r0;
        while i < r1
            invariant
                self.wf(),
                r0 <= i <= r1 <= self@.len(),
                c0 <= c1 <= self.width,
                block@.len() == i - r0,
                forall|k: int| 0 <= k < i - r0 ==> (#[trigger] block@[k])@.len() == c1 - c0,
                forall|k: int, l: int|
                    0 <= k < i - r0 && 0 <= l < c1 - c0 ==> #[trigger] block@[k]@[l] == self@[r0
                        + k][c0 + l],
            decreases r1 - i,
        {
            let mut row: Vec<T> = Vec::new();
            let mut j: usize = c0;
            while j < c1
                invariant
                    self.wf(),
                    r0 <= i < r1 <= self@.len(),
                    c0 <= j <= c1 <= self.width,
                    row@.len() == j - c0,
                    forall|l: int| 0 <= l < j - c0 ==> #[trigger] row@[l] == self@[i as int][c0 + l],
                decreases c1 - j,
            {
                assert(self@[i as int].len() == self.width);
                row.push(self.rows[i][j]);
                j += 1;
            }
            block.push(row);
            i += 1;
        }
        let ghost sb = sub_block(self@, r0 as int, r1 as int, c0 as int, c1 as int);
        assert forall|k: int| 0 <= k < r1 - r0 implies #[trigger] rows_view(block@)[k] == sb[k] by {
            assert(rows_view(block@)[k] =~= sb[k]);
        }
        assert(rows_view(block@) =~= sb);
        block
    }

    /// The grid with the block at rows `r0..`, columns `c0..` replaced by `data`.
    pub fn with_block(&self, r0: usize, c0: usize, data: &Vec<Vec<T>>) -> (g: Grid<T>)
        requires
            self.wf(),
            r0 + data@.len() <= self@.len(),
            forall|k: int| 0 <= k < data@.len() ==> c0 + (#[trigger] data@[k])@.len() <= self.width,
            forall|k: int, l: int|
                0 <= k < data@.len() && 0 <= l < data@.len() ==> (#[trigger] data@[k])@.len()
                    == (#[trigger] data@[l])@.len(),
        ensures
            g.wf(),
            g.width == self.width,
            g@.len() == self@.len(),
            forall|i: int, j: int|
                0 <= i < self@.len() && 0 <= j < self.width ==> #[trigger] g@[i][j] == if r0 <= i
                    < r0 + data@.len() && c0 <= j < c0 + data@[i - r0]@.len() {
                    data@[i - r0]@[j - c0]
                } else {
                    self@[i][j]
                },
            g@ == overwrite(self@, self.width as int, r0 as int, c0 as int, rows_view(data@)),
    {
        let mut rows: Vec<Vec<T>> = Vec::new();
        let mut i: usize = 0;
        let n = self.rows.len();
        while i < n
            invariant
                self.wf(),
                n == self@.len(),
                i <= n,
                rows@.len() == i,
                r0 + data@.len() <= self@.len(),
                forall|k: int| 0 <= k < data@.len() ==> c0 + (#[trigger] data@[k])@.len() <= self.width,
                forall|k: int| 0 <= k < i ==> (#[trigger] rows@[k])@.len() == self.width,
                forall|k: int, j: int|
                    0 <= k < i && 0 <= j < self.width ==> #[trigger] rows@[k]@[j] == if r0 <= k
                        < r0 + data@.len() && c0 <= j < c0 + data@[k - r0]@.len() {
                        data@[k - r0]@[j - c0]
                    } else {
                        self@[k][j]
                    },
            decreases n - i,
        {
            let mut row: Vec<T> = Vec::new();
            let mut j: usize = 0;
            let in_rows = r0 <= i && i < r0 + data.len();
            while j < self.width
                invariant
                    self.wf(),
                    n == self@.len(),
                    i < n,
                    j <= self.width,
                    row@.len() == j,
                    in_rows == (r0 <= i < r0 + data@.len()),
                    r0 + data@.len() <= self@.len(),
                    forall|k: int| 0 <= k < data@.len() ==> c0 + (#[trigger] data@[k])@.len() <= self.width,
                    forall|l: int|
                        0 <= l < j ==> #[trigger] row@[l] == if r0 <= i < r0 + data@.len() && c0
                            <= l < c0 + data@[i - r0]@.len() {
                            data@[i - r0]@[l - c0]
                        } else {
                            self@[i as int][l]
                        },
                decreases self.width - j,
            {
                let v = if in_rows && c0 <= j && j < c0 + data[i - r0].len() {
                    data[i - r0][j - c0]
                } else {
                    assert(self@[i as int].len() == self.width);
                    self.rows[i][j]
                };
                row.push(v);
                j += 1;
            }
            rows.push(row);
            i += 1;
        }
        let g = Grid { rows, width: self.width };
        let ghost o = overwrite(self@, self.width as int, r0 as int, c0 as int, rows_view(data@));
        assert forall|k: int| 0 <= k < n implies #[trigger] g@[k] == o[k] by {
            assert(g@[k] =~= o[k]);
        }
        assert(g@ =~= o);
        g
    }
}

/// A copy of a row.
pub fn copy_row<T: Copy>(row: &Vec<T>) -> (r: Vec<T>)
    ensures
        r@ == row@,
{
    let mut r: Vec<T> = Vec::new();
    let mut j: usize = 0;
    while j < row.len()
        invariant
            j <= row@.len(),
            r@ == row@.subrange(0, j as int),
        decreases row@.len() - j,
    {
        r.push(row[j]);
        j += 1;
        assert(r@ =~= row@.subrange(0, j as int));
    }
    assert(r@ =~= row@);
    r
}

} // verus!
