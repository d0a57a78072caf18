//! # Rules of Conway's Game of Life
//!
//! The mathematical model shared by both Game of Life modules: the neighbourhood
//! counts, the birth/survival rule, the step on a bounded board whose border is
//! kept fixed, and the toroidal wrap of the border.
use vstd::prelude::*;
use crate::grid::Grid;

verus! {

/// `1` for a live cell, `0` for a dead one.
pub open spec fn b2i(b: bool) -> int {
    if b {
        1
    } else {
        0
    }
}

/// The number of live cells in the 3x3 block whose top-left cell is `(i, j)`.
pub open spec fn block_count(g: Seq<Seq<bool>>, i: int, j: int) -> int {
    b2i(g[i][j]) + b2i(g[i][j + 1]) + b2i(g[i][j + 2]) + b2i(g[i + 1][j]) + b2i(g[i + 1][j + 1])
        + b2i(g[i + 1][j + 2]) + b2i(g[i + 2][j]) + b2i(g[i + 2][j + 1]) + b2i(g[i + 2][j + 2])
}

/// The number of live neighbours of the cell `(i, j)` (the 8 cells around it).
pub open spec fn neighbors(g: Seq<Seq<bool>>, i: int, j: int) -> int {
    block_count(g, i - 1, j - 1) - b2i(g[i][j])
}

/// Conway's rule: a live cell survives with two or three live neighbours,
/// a dead cell comes alive with exactly three.
pub open spec fn life_rule(live: bool, neighbors: int) -> bool {
    (live && (neighbors == 2 || neighbors == 3)) || (!live && neighbors == 3)
}

/// The same rule stated on the count of the whole 3x3 block, centre included:
/// the cell is alive next when the block holds three live cells, or four with
/// the centre among them.
pub open spec fn block_rule(live: bool, count: int) -> bool {
    count == 3 || (count == 4 && live)
}

/// The cell `(i, j)` lies strictly inside an `h x w` board.
pub open spec fn is_interior(h: int, w: int, i: int, j: int) -> bool {
    1 <= i < h - 1 && 1 <= j < w - 1
}

/// The board after one step: every interior cell follows [`life_rule`],
/// the border cells are kept as they are.
pub open spec fn life_step(g: Seq<Seq<bool>>, w: int) -> Seq<Seq<bool>> {
    Seq::new(
        g.len(),
        |i: int|
            Seq::new(
                w as nat,
                |j: int|
                    if is_interior(g.len() as int, w, i, j) {
                        life_rule(g[i][j], neighbors(g, i, j))
                    } else {
                        g[i][j]
                    },
            ),
    )
}

/// The row whose cells the toroidal wrap copies into row `i` of an `h`-row board.
pub open spec fn wrap_row(h: int, i: int) -> int {
    if i == 0 {
        h - 2
    } else if i == h - 1 {
        1
    } else {
        i
    }
}

/// The column whose cell the toroidal wrap copies into column `j` of a
/// `w`-column board: the first column from the penultimate one, the last
/// column from the second one.
pub open spec fn wrap_col(w: int, j: int) -> int {
    if j == 0 {
        w - 2
    } else if j == w - 1 {
        1
    } else {
        j
    }
}

/// The board after the toroidal wrap: cell `(i, j)` is the cell of `g` at
/// row `wrap_row(h, i)` and column `wrap_col(w, j)`, so the border holds the
/// opposite inner cells and each corner the opposite inner corner.
pub open spec fn wrapped<T>(g: Seq<Seq<T>>, w: int) -> Seq<Seq<T>> {
    Seq::new(
        g.len(),
        |i: int|
            Seq::new(
                w as nat,
                |j: int| g[wrap_row(g.len() as int, i)][wrap_col(w, j)],
            ),
    )
}

/// The two statements of the rule agree: the block rule on the 3x3 count is
/// Conway's rule on the neighbour count, which leaves the centre out.
pub proof fn lemma_block_rule_is_life_rule(live: bool, count: int)
    ensures
        block_rule(live, count) == life_rule(live, count - b2i(live)),
{
}

/// Conway's rule by value (B3/S23): a dead cell comes alive exactly when it
/// has three live neighbours, a live cell stays alive exactly when it has two
/// or three.
pub proof fn law_life_rule_is_b3_s23(n: int)
    ensures
        life_rule(false, n) <==> n == 3,
        life_rule(true, n) <==> (n == 2 || n == 3),
{
}

/// The block rule by value, on the count of the whole 3x3 block with the
/// centre included: a dead centre comes alive exactly when the block holds
/// three live cells, a live centre stays alive exactly when it holds three or
/// four.
pub proof fn law_block_rule_by_count(count: int)
    ensures
        block_rule(false, count) <==> count == 3,
        block_rule(true, count) <==> (count == 3 || count == 4),
{
}

/// The neighbour count is the number of live cells among the eight cells
/// around `(i, j)`.
pub proof fn law_neighbors_are_the_eight_around(g: Seq<Seq<bool>>, i: int, j: int)
    ensures
        neighbors(g, i, j) == b2i(g[i - 1][j - 1]) + b2i(g[i - 1][j]) + b2i(g[i - 1][j + 1]) + b2i(
            g[i][j - 1],
        ) + b2i(g[i][j + 1]) + b2i(g[i + 1][j - 1]) + b2i(g[i + 1][j]) + b2i(g[i + 1][j + 1]),
        b2i(true) == 1,
        b2i(false) == 0,
{
}

/// A cell is alive if and only if it is `true` (`b2i` is 0 or 1).
pub proof fn lemma_b2i(b: bool)
    ensures
        b2i(b) == 0 || b2i(b) == 1,
        b2i(b) == 1 <==> b,
{
}

/// The board after the toroidal wrap: the first and last rows and columns
/// become copies of the penultimate and second rows and columns, with each
/// corner taking the opposite inner corner.
pub fn wrap_board<T: Copy>(g: &Grid<T>) -> (r: Grid<T>)
    requires
        g.wf(),
        g@.len() >= 2,
        g.width >= 2,
    ensures
        r.wf(),
        r.width == g.width,
        r@ == wrapped(g@, g.width as int),
{
    let h = g.height();
    let w = g.width;
    let mut rows: Vec<Vec<T>> = Vec::new();
    let mut i: usize = 0;
    while i < h
        invariant
            g.wf(),
            h == g@.len(),
            w == g.width,
            h >= 2,
            w >= 2,
            i <= h,
            rows@.len() == i,
            forall|k: int| 0 <= k < i ==> (#[trigger] rows@[k])@ == wrapped(g@, w as int)[k],
        decreases h - i,
    {
        let si = if i == 0 {
            h - 2
        } else if i == h - 1 {
            1
        } else {
            i
        };
        let mut row: Vec<T> = Vec::new();
        let mut j: usize = 0;
        while j < w
            invariant
                g.wf(),
                h == g@.len(),
                w == g.width,
                h >= 2,
                w >= 2,
                i < h,
                si == wrap_row(h as int, i as int),
                j <= w,
                row@.len() == j,
                forall|l: int|
                    0 <= l < j ==> #[trigger] row@[l] == g@[si as int][wrap_col(w as int, l)],
            decreases w - j,
        {
            let sj = if j == 0 {
                w - 2
            } else if j == w - 1 {
                1
            } else {
                j
            };
            row.push(g.get(si, sj));
            j += 1;
        }
        assert(row@ =~= wrapped(g@, w as int)[i as int]);
        rows.push(row);
        i += 1;
    }
    let r = Grid { rows, width: w };
    assert(r@ =~= wrapped(g@, w as int));
    r
}

/// The 3x3 live count of the block at `(i, j)` of a grid.
pub fn count_block(g: &Grid<bool>, i: usize, j: usize) -> (n: u8)
    requires
        g.wf(),
        i + 2 < g@.len(),
        j + 2 < g.width,
    ensures
        n == block_count(g@, i as int, j as int),
{
    let _h = g.height();
    let r0 = cell_u8(g, i, j) + cell_u8(g, i, j + 1) + cell_u8(g, i, j + 2);
    let r1 = cell_u8(g, i + 1, j) + cell_u8(g, i + 1, j + 1) + cell_u8(g, i + 1, j + 2);
    let r2 = cell_u8(g, i + 2, j) + cell_u8(g, i + 2, j + 1) + cell_u8(g, i + 2, j + 2);
    r0 + r1 + r2
}

/// `1` for a live cell, `0` for a dead one.
fn cell_u8(g: &Grid<bool>, i: usize, j: usize) -> (n: u8)
    requires
        g.wf(),
        i < g@.len(),
        j < g.width,
    ensures
        n == b2i(g@[i as int][j as int]),
{
    if g.get(i, j) {
        1
    } else {
        0
    }
}

} // verus!
