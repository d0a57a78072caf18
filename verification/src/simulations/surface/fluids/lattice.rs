//! # D2Q9 Population Lattices
//!
//! A lattice is a grid of cells; each cell holds the 3x3 populations of the D2Q9
//! directions, indexed `[vy][vx]` with direction `(vy - 1, vx - 1)`.
use vstd::prelude::*;
use crate::grid::Grid;

verus! {

/// The `[vy][vx]` populations of one lattice cell.
pub type Populations<E> = [[E; 3]; 3];

/// The populations of a cell, gathered for the streaming step.
///
/// With `along == false`, population `[vy][vx]` of the result is population
/// `[2 - vy][2 - vx]` of the cell at offset `(vy, vx)` from `(i, j)`; with
/// `along == true`, it is population `[vy][vx]` of the cell at offset
/// `(2 - vy, 2 - vx)`.
pub open spec fn gathered<E>(d: Seq<Seq<Populations<E>>>, along: bool, i: int, j: int, vy: int, vx: int) -> E {
    if along {
        d[i + 2 - vy][j + 2 - vx][vy][vx]
    } else {
        d[i + vy][j + vx][2 - vy][2 - vx]
    }
}

/// The populations of the cell whose 3x3 neighbourhood starts at `(i, j)`, gathered as [`gathered`] says.
fn gather<E: Copy>(d: &Grid<Populations<E>>, along: bool, i: usize, j: usize) -> (c: Populations<E>)
    requires
        d.wf(),
        i + 2 < d@.len(),
        j + 2 < d.width,
    ensures
        forall|vy: int, vx: int|
            0 <= vy < 3 && 0 <= vx < 3 ==> #[trigger] c[vy][vx] == gathered(d@, along, i as int, j as int, vy, vx),
{
    let _h = d.height();
    if along {
        let c = [
            [d.get(i + 2, j + 2)[0][0], d.get(i + 2, j + 1)[0][1], d.get(i + 2, j)[0][2]],
            [d.get(i + 1, j + 2)[1][0], d.get(i + 1, j + 1)[1][1], d.get(i + 1, j)[1][2]],
            [d.get(i, j + 2)[2][0], d.get(i, j + 1)[2][1], d.get(i, j)[2][2]],
        ];
        assert forall|vy: int, vx: int| 0 <= vy < 3 && 0 <= vx < 3 implies #[trigger] c[vy][vx]
            == gathered(d@, along, i as int, j as int, vy, vx) by {
            assert(vy == 0 || vy == 1 || vy == 2);
            assert(vx == 0 || vx == 1 || vx == 2);
        }
        c
    } else {
        let c = [
            [d.get(i, j)[2][2], d.get(i, j + 1)[2][1], d.get(i, j + 2)[2][0]],
            [d.get(i + 1, j)[1][2], d.get(i + 1, j + 1)[1][1], d.get(i + 1, j + 2)[1][0]],
            [d.get(i + 2, j)[0][2], d.get(i + 2, j + 1)[0][1], d.get(i + 2, j + 2)[0][0]],
        ];
        assert forall|vy: int, vx: int| 0 <= vy < 3 && 0 <= vx < 3 implies #[trigger] c[vy][vx]
            == gathered(d@, along, i as int, j as int, vy, vx) by {
            assert(vy == 0 || vy == 1 || vy == 2);
            assert(vx == 0 || vx == 1 || vx == 2);
        }
        c
    }
}

/// The streamed interior of a lattice: one cell per 3x3 neighbourhood, gathered as [`gathered`] says.
pub(crate) fn stream_interior<E: Copy>(d: &Grid<Populations<E>>, along: bool) -> (r: Grid<Populations<E>>)
    requires
        d.wf(),
        d@.len() < usize::MAX,
        d.width < usize::MAX,
    ensures
        r.wf(),
        r@.len() == crate::convolve::surface::spec_unfold_windows(d@.len() as int, 3, 1),
        r.width == crate::convolve::surface::spec_unfold_windows(d.width as int, 3, 1),
        forall|i: int, j: int, vy: int, vx: int|
            0 <= i < r@.len() && 0 <= j < r.width && 0 <= vy < 3 && 0 <= vx < 3 ==> #[trigger] r@[i][j][vy][vx]
                == gathered(d@, along, i, j, vy, vx),
{
    let h = d.height();
    let w = d.width;
    let hw = crate::convolve::surface::unfold_windows(h, 3, 1);
    let ww = crate::convolve::surface::unfold_windows(w, 3, 1);
    let mut rows: Vec<Vec<Populations<E>>> = Vec::new();
    let mut i: usize = 0;
    while i < hw
        invariant
            d.wf(),
            h == d@.len(),
            w == d.width,
            hw == crate::convolve::surface::spec_unfold_windows(h as int, 3, 1),
            ww == crate::convolve::surface::spec_unfold_windows(w as int, 3, 1),
            i <= hw,
            rows@.len() == i,
            forall|k: int| 0 <= k < i ==> (#[trigger] rows@[k])@.len() == ww,
            forall|k: int, l: int, vy: int, vx: int|
                0 <= k < i && 0 <= l < ww && 0 <= vy < 3 && 0 <= vx < 3 ==> #[trigger] rows@[k]@[l][vy][vx]
                    == gathered(d@, along, k, l, vy, vx),
        decreases hw - i,
    {
        let mut row: Vec<Populations<E>> = Vec::new();
        let mut j: usize = 0;
        while j < ww
            invariant
                d.wf(),
                h == d@.len(),
                w == d.width,
                hw == crate::convolve::surface::spec_unfold_windows(h as int, 3, 1),
                ww == crate::convolve::surface::spec_unfold_windows(w as int, 3, 1),
                i < hw,
                j <= ww,
                row@.len() == j,
                forall|l: int, vy: int, vx: int|
                    0 <= l < j && 0 <= vy < 3 && 0 <= vx < 3 ==> #[trigger] row@[l][vy][vx] == gathered(
                        d@,
                        along,
                        i as int,
                        l,
                        vy,
                        vx,
                    ),
            decreases ww - j,
        {
            row.push(gather(d, along, i, j));
            j += 1;
        }
        rows.push(row);
        i += 1;
    }
    let r = Grid { rows, width: ww };
    assert forall|k: int| 0 <= k < r@.len() implies #[trigger] r@[k].len() == ww by {
        assert(r@[k] == rows@[k]@);
    }
    r
}

/// `g` with population `[vy][vx]` of the cells in rows `r0..r1`, columns `c0..c1`
/// replaced by population `[vy][vx]` of the cells of `src` at rows `sr0..`, columns `sc0..`.
pub(crate) fn copy_population<E: Copy>(
    g: &Grid<Populations<E>>,
    r0: usize,
    r1: usize,
    c0: usize,
    c1: usize,
    vy: usize,
    vx: usize,
    src: &Grid<Populations<E>>,
    sr0: usize,
    sc0: usize,
) -> (r: Grid<Populations<E>>)
    requires
        g.wf(),
        src.wf(),
        r0 <= r1 <= g@.len(),
        c0 <= c1 <= g.width,
        vy < 3,
        vx < 3,
        sr0 + (r1 - r0) <= src@.len(),
        sc0 + (c1 - c0) <= src.width,
    ensures
        r.wf(),
        r.width == g.width,
        r@.len() == g@.len(),
        forall|i: int, j: int, a: int, b: int|
            0 <= i < g@.len() && 0 <= j < g.width && 0 <= a < 3 && 0 <= b < 3 ==> #[trigger] r@[i][j][a][b]
                == if r0 <= i < r1 && c0 <= j < c1 && a == vy && b == vx {
                src@[sr0 + i - r0][sc0 + j - c0][a][b]
            } else {
                g@[i][j][a][b]
            },
{
    let h = g.height();
    let w = g.width;
    let mut rows: Vec<Vec<Populations<E>>> = Vec::new();
    let mut i: usize = 0;
    while i < h
        invariant
            g.wf(),
            src.wf(),
            h == g@.len(),
            w == g.width,
            r0 <= r1 <= h,
            c0 <= c1 <= w,
            vy < 3,
            vx < 3,
            sr0 + (r1 - r0) <= src@.len(),
            sc0 + (c1 - c0) <= src.width,
            i <= h,
            rows@.len() == i,
            forall|k: int| 0 <= k < i ==> (#[trigger] rows@[k])@.len() == w,
            forall|k: int, l: int, a: int, b: int|
                0 <= k < i && 0 <= l < w && 0 <= a < 3 && 0 <= b < 3 ==> #[trigger] rows@[k]@[l][a][b]
                    == if r0 <= k < r1 && c0 <= l < c1 && a == vy && b == vx {
                    src@[sr0 + k - r0][sc0 + l - c0][a][b]
                } else {
                    g@[k][l][a][b]
                },
        decreases h - i,
    {
        let mut row: Vec<Populations<E>> = Vec::new();
        let mut j: usize = 0;
        while j < w
            invariant
                g.wf(),
                src.wf(),
                h == g@.len(),
                w == g.width,
                r0 <= r1 <= h,
                c0 <= c1 <= w,
                vy < 3,
                vx < 3,
                sr0 + (r1 - r0) <= src@.len(),
                sc0 + (c1 - c0) <= src.width,
                i < h,
                j <= w,
                row@.len() == j,
                forall|l: int, a: int, b: int|
                    0 <= l < j && 0 <= a < 3 && 0 <= b < 3 ==> #[trigger] row@[l][a][b] == if r0 <= i
                        < r1 && c0 <= l < c1 && a == vy && b == vx {
                        src@[sr0 + i - r0][sc0 + l - c0][a][b]
                    } else {
                        g@[i as int][l][a][b]
                    },
            decreases w - j,
        {
            let mut cell = g.get(i, j);
            if r0 <= i && i < r1 && c0 <= j && j < c1 {
                let _sh = src.height();
                let s = src.get(sr0 + (i - r0), sc0 + (j - c0));
                cell[vy][vx] = s[vy][vx];
            }
            row.push(cell);
            j += 1;
        }
        rows.push(row);
        i += 1;
    }
    let r = Grid { rows, width: w };
    assert forall|k: int| 0 <= k < r@.len() implies #[trigger] r@[k].len() == w by {
        assert(r@[k] == rows@[k]@);
    }
    r
}

/// Population `[a][b]` of cell `(i, j)` after the clipped outflow streaming
/// of an `h x w` lattice `t`: it comes from its upstream cell
/// `(i + 1 - a, j + 1 - b)` when that cell exists and the flow is interior, at
/// rest, or inward across an edge the cell lies on; otherwise it is `zero`.
pub open spec fn streamed_pop<E>(t: Seq<Seq<Populations<E>>>, zero: E, i: int, j: int, a: int, b: int) -> E {
    let h = t.len() as int;
    let w = t[0].len() as int;
    let si = i + 1 - a;
    let sj = j + 1 - b;
    if 0 <= si < h && 0 <= sj < w && ((1 <= i < h - 1 && 1 <= j < w - 1) || (a == 1 && b == 1) || (i == 0
        && a == 0) || (i == h - 1 && a == 2) || (j == 0 && b == 0) || (j == w - 1 && b == 2)) {
        t[si][sj][a][b]
    } else {
        zero
    }
}

/// Population `[a][b]` of cell `(i, j)` after the clipped streaming of an
/// `h x w` lattice `t`, case by case in the order [`clip_stream`] fills the
/// edges: interior cells pull every population from their neighbours; on the
/// edges, only the populations at rest or moving inwards across the edge are
/// pulled, the rest are `zero`. [`streamed_pop`] says the same directly.
pub open spec fn clipped_pop<E>(
    t: Seq<Seq<Populations<E>>>,
    zero: E,
    i: int,
    j: int,
    a: int,
    b: int,
) -> E {
    let h = t.len() as int;
    let w = t[0].len() as int;
    if j == w - 1 && 1 <= i && a == 2 && b == 2 {
        t[i - 1][w - 2][2][2]
    } else if j == w - 1 && a == 1 && b == 2 {
        t[i][w - 2][1][2]
    } else if j == w - 1 && i < h - 1 && a == 0 && b == 2 {
        t[i + 1][w - 2][0][2]
    } else if j == 0 && 1 <= i && a == 2 && b == 0 {
        t[i - 1][1][2][0]
    } else if j == 0 && a == 1 && b == 0 {
        t[i][1][1][0]
    } else if j == 0 && i < h - 1 && a == 0 && b == 0 {
        t[i + 1][1][0][0]
    } else if i == h - 1 && 1 <= j && a == 2 && b == 2 {
        t[h - 2][j - 1][2][2]
    } else if i == h - 1 && a == 2 && b == 1 {
        t[h - 2][j][2][1]
    } else if i == h - 1 && j < w - 1 && a == 2 && b == 0 {
        t[h - 2][j + 1][2][0]
    } else if i == 0 && 1 <= j && a == 0 && b == 2 {
        t[1][j - 1][0][2]
    } else if i == 0 && a == 0 && b == 1 {
        t[1][j][0][1]
    } else if i == 0 && j < w - 1 && a == 0 && b == 0 {
        t[1][j + 1][0][0]
    } else if (i == 0 || j == 0 || i == h - 1 || j == w - 1) && a == 1 && b == 1 {
        t[i][j][1][1]
    } else if 1 <= i < h - 1 && 1 <= j < w - 1 {
        t[i + 1 - a][j + 1 - b][a][b]
    } else {
        zero
    }
}

/// The clipped streaming of a lattice, as [`clipped_pop`] says.
pub(crate) fn clip_stream<E: Copy>(t: &Grid<Populations<E>>, zero: E) -> (r: Grid<
    Populations<E>,
>)
    requires
        t.wf(),
        2 <= t@.len() < usize::MAX,
        2 <= t.width < usize::MAX,
    ensures
        r.wf(),
        r.width == t.width,
        r@.len() == t@.len(),
        forall|i: int, j: int, a: int, b: int|
            0 <= i < t@.len() && 0 <= j < t.width && 0 <= a < 3 && 0 <= b < 3 ==> #[trigger] r@[i][j][a][b]
                == clipped_pop(t@, zero, i, j, a, b),
{
    let h = t.height();
    let w = t.width;
    let s0 = Grid::filled(h, w, [[zero, zero, zero], [zero, zero, zero], [zero, zero, zero]]);
    let inner = stream_interior(t, true);
    proof {
        assert forall|k: int| 0 <= k < inner.rows@.len() implies (#[trigger] inner.rows@[k])@.len()
            == w - 2 by {
            assert(inner@[k] == inner.rows@[k]@);
        }
    }
    let s1 = s0.with_block(1, 1, &inner.rows);
    let s2 = copy_population(&s1, 0, 1, 0, w, 1, 1, t, 0, 0);
    let s3 = copy_population(&s2, 0, h, 0, 1, 1, 1, t, 0, 0);
    let s4 = copy_population(&s3, h - 1, h, 0, w, 1, 1, t, h - 1, 0);
    let s5 = copy_population(&s4, 0, h, w - 1, w, 1, 1, t, 0, w - 1);
    let s6 = copy_population(&s5, 0, 1, 0, w - 1, 0, 0, t, 1, 1);
    let s7 = copy_population(&s6, 0, 1, 0, w, 0, 1, t, 1, 0);
    let s8 = copy_population(&s7, 0, 1, 1, w, 0, 2, t, 1, 0);
    let s9 = copy_population(&s8, h - 1, h, 0, w - 1, 2, 0, t, h - 2, 1);
    let s10 = copy_population(&s9, h - 1, h, 0, w, 2, 1, t, h - 2, 0);
    let s11 = copy_population(&s10, h - 1, h, 1, w, 2, 2, t, h - 2, 0);
    let s12 = copy_population(&s11, 0, h - 1, 0, 1, 0, 0, t, 1, 1);
    let s13 = copy_population(&s12, 0, h, 0, 1, 1, 0, t, 0, 1);
    let s14 = copy_population(&s13, 1, h, 0, 1, 2, 0, t, 0, 1);
    let s15 = copy_population(&s14, 0, h - 1, w - 1, w, 0, 2, t, 1, w - 2);
    let s16 = copy_population(&s15, 0, h, w - 1, w, 1, 2, t, 0, w - 2);
    let s17 = copy_population(&s16, 1, h, w - 1, w, 2, 2, t, 0, w - 2);
    proof {
        assert(t@[0].len() == w);
        assert forall|i: int, j: int, a: int, b: int|
            0 <= i < h && 0 <= j < w && 0 <= a < 3 && 0 <= b < 3 implies #[trigger] s17@[i][j][a][b]
            == clipped_pop(t@, zero, i, j, a, b) by {
            if 1 <= i < h - 1 && 1 <= j < w - 1 {
                assert(s1@[i][j] == inner.rows@[i - 1]@[j - 1]);
                assert(inner.rows@[i - 1]@[j - 1] == inner@[i - 1][j - 1]);
            }
        }
    }
    s17
}

} // verus!
