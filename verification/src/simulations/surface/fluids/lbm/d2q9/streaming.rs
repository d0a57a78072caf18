//! # Streaming Operations
//!
//! Streaming moves each population one cell along its direction; these
//! operations are pure data movement and hold for any element type.
use vstd::prelude::*;
use crate::grid::Grid;
use crate::convolve::surface::spec_unfold_windows;
use crate::simulations::surface::fluids::lattice::{
    Populations, clip_stream, clipped_pop, gathered, stream_interior, streamed_pop,
};

verus! {

/// Apply the streaming update step to the non-border cells of a population.
///
/// # Arguments
///
/// - `dist`: a ``[H, W, VY=3, VX=3]`` population distribution.
///
/// # Returns
/// - The updated ``[H[1:-1], W[1:-1], VY=3, VX=3]`` interior: population
///   `[vy][vx]` of interior cell `(i + 1, j + 1)` is population `[vy][vx]` of cell
///   `(i + 2 - vy, j + 2 - vx)`.
pub fn stream_interior_windows<E: Copy>(dist: &Grid<Populations<E>>) -> (r: Grid<Populations<E>>)
    requires
        dist.wf(),
        dist@.len() < usize::MAX,
        dist.width < usize::MAX,
    ensures
        r.wf(),
        r@.len() == spec_unfold_windows(dist@.len() as int, 3, 1),
        r.width == spec_unfold_windows(dist.width as int, 3, 1),
        forall|i: int, j: int, vy: int, vx: int|
            0 <= i < r@.len() && 0 <= j < r.width && 0 <= vy < 3 && 0 <= vx < 3 ==> #[trigger] r@[i][j][vy][vx]
                == dist@[i + 2 - vy][j + 2 - vx][vy][vx],
{
    let r = stream_interior(dist, true);
    assert forall|i: int, j: int, vy: int, vx: int|
        0 <= i < r@.len() && 0 <= j < r.width && 0 <= vy < 3 && 0 <= vx < 3 implies #[trigger] r@[i][j][vy][vx]
        == dist@[i + 2 - vy][j + 2 - vx][vy][vx] by {
        assert(r@[i][j][vy][vx] == gathered(dist@, true, i, j, vy, vx));
    }
    r
}

/// The edge flow of `source`: entry `[k][0]` moves down from `k + 1`, entry
/// `[k][1]` stays, entry `[k][2]` moves up from `k - 1`; what would come from
/// beyond the ends is `zero`.
pub open spec fn edge_flow<E>(source: Seq<[E; 3]>, zero: E, k: int, v: int) -> E {
    if v == 0 {
        if k + 1 < source.len() {
            source[k + 1][0]
        } else {
            zero
        }
    } else if v == 1 {
        source[k][1]
    } else if k >= 1 {
        source[k - 1][2]
    } else {
        zero
    }
}

/// Stream the edge flow values.
///
/// This is an inner utility flow function. It assumes that the first
/// and last spatial cells (``Z``) are perpendicular edges. Values
/// which flow "out" of the boundary (from the perpendicular edges)
/// are "lost"; `zero` takes their place.
///
/// # Arguments
///
/// - `source`: a ``[Z, V=3]`` source.
///
/// # Returns
/// - a ``[Z, V=3]`` outflow.
pub fn stream_partial_edge_flow<E: Copy>(source: &Vec<[E; 3]>, zero: E) -> (out: Vec<[E; 3]>)
    ensures
        out@.len() == source@.len(),
        forall|k: int, v: int|
            0 <= k < source@.len() && 0 <= v < 3 ==> #[trigger] out@[k][v] == edge_flow(source@, zero, k, v),
{
    let z = source.len();
    let mut out: Vec<[E; 3]> = Vec::new();
    let mut k: usize = 0;
    while k < z
        invariant
            z == source@.len(),
            k <= z,
            out@.len() == k,
            forall|kk: int, v: int|
                0 <= kk < k && 0 <= v < 3 ==> #[trigger] out@[kk][v] == edge_flow(source@, zero, kk, v),
        decreases z - k,
    {
        let down = if k + 1 < z {
            source[k + 1][0]
        } else {
            zero
        };
        let up = if k >= 1 {
            source[k - 1][2]
        } else {
            zero
        };
        let e = [down, source[k][1], up];
        assert forall|v: int| 0 <= v < 3 implies #[trigger] e[v] == edge_flow(source@, zero, k as int, v) by {
            assert(v == 0 || v == 1 || v == 2);
        }
        out.push(e);
        k += 1;
    }
    out
}

/// The cross flow of an edge: no flow crosses it, every entry is `zero`.
pub fn stream_edge_crossflow<E: Copy>(source: &Vec<[E; 3]>, zero: E) -> (out: Vec<[E; 3]>)
    ensures
        out@.len() == source@.len(),
        forall|k: int, v: int| 0 <= k < source@.len() && 0 <= v < 3 ==> #[trigger] out@[k][v] == zero,
{
    let z = source.len();
    let mut out: Vec<[E; 3]> = Vec::new();
    let mut k: usize = 0;
    while k < z
        invariant
            k <= z,
            out@.len() == k,
            forall|kk: int, v: int| 0 <= kk < k && 0 <= v < 3 ==> #[trigger] out@[kk][v] == zero,
        decreases z - k,
    {
        let e = [zero, zero, zero];
        assert forall|v: int| 0 <= v < 3 implies #[trigger] e[v] == zero by {
            assert(v == 0 || v == 1 || v == 2);
        }
        out.push(e);
        k += 1;
    }
    out
}

/// Apply the streaming update step to a population.
///
/// This combines [`stream_interior_windows`] with edge outflow-streaming.
///
/// All edge outflow is clipped to the boundary. Closed universe sims should
/// have zero edge outflow before calling this operation.
///
/// # Arguments
///
/// - `thermal_dist`: a ``[H, W, VY=3, VX=3]`` population distribution.
/// - `zero`: the value of the populations nothing streams into.
///
/// # Returns
/// - The updated ``[H, W, VY=3, VX=3]`` distribution, as [`streamed_pop`]
///   says: each population comes from its upstream cell when the flow is
///   interior, at rest, or inward across an edge, else it is `zero`.
pub fn outflow_clipping_stream<E: Copy>(thermal_dist: &Grid<Populations<E>>, zero: E) -> (r: Grid<
    Populations<E>,
>)
    requires
        thermal_dist.wf(),
        2 <= thermal_dist@.len() < usize::MAX,
        2 <= thermal_dist.width < usize::MAX,
    ensures
        r.wf(),
        r.width == thermal_dist.width,
        r@.len() == thermal_dist@.len(),
        forall|i: int, j: int, a: int, b: int|
            0 <= i < thermal_dist@.len() && 0 <= j < thermal_dist.width && 0 <= a < 3 && 0 <= b < 3
                ==> #[trigger] r@[i][j][a][b] == streamed_pop(thermal_dist@, zero, i, j, a, b),
{
    let r = clip_stream(thermal_dist, zero);
    proof {
        assert(thermal_dist@[0].len() == thermal_dist.width);
        assert forall|i: int, j: int, a: int, b: int|
            0 <= i < thermal_dist@.len() && 0 <= j < thermal_dist.width && 0 <= a < 3 && 0 <= b < 3
            implies #[trigger] r@[i][j][a][b] == streamed_pop(thermal_dist@, zero, i, j, a, b) by {
            law_clipped_pop_is_upstream_streaming(thermal_dist@, zero, i, j, a, b);
        }
    }
    r
}

/// The populations `[p][..]` of row `r` of `t`, one `[E; 3]` per column.
pub open spec fn row_pops<E>(t: Seq<Seq<Populations<E>>>, r: int, p: int) -> Seq<[E; 3]> {
    Seq::new(t[r].len(), |k: int| t[r][k][p])
}

/// The populations `[..][p]` of column `c` of `t`, one `[E; 3]` per row.
pub open spec fn col_pops<E>(t: Seq<Seq<Populations<E>>>, c: int, p: int) -> Seq<[E; 3]> {
    Seq::new(t.len(), |k: int| [t[k][c][0][p], t[k][c][1][p], t[k][c][2][p]])
}

/// Population `[a][b]` of cell `(i, j)` after the edge-flow streaming of an
/// `h x w` lattice `t`: interior cells stream as [`stream_interior_windows`]
/// says; each edge is assembled from [`edge_flow`]s of the first populations of
/// the edge and of its inner neighbour, with `zero` flowing in from outside.
pub open spec fn edge_stream_pop<E>(t: Seq<Seq<Populations<E>>>, zero: E, i: int, j: int, a: int, b: int) -> E {
    let h = t.len() as int;
    let w = t[0].len() as int;
    if i == 0 {
        if a == 0 {
            edge_flow(row_pops(t, 1, 0), zero, j, b)
        } else if a == 1 {
            edge_flow(row_pops(t, 0, 0), zero, j, b)
        } else {
            zero
        }
    } else if i == h - 1 {
        if a == 0 {
            zero
        } else if a == 1 {
            edge_flow(row_pops(t, 1, 0), zero, j, b)
        } else {
            edge_flow(row_pops(t, h - 2, 0), zero, j, b)
        }
    } else if j == 0 {
        if b == 0 {
            edge_flow(col_pops(t, 1, 0), zero, i, a)
        } else if b == 1 {
            edge_flow(col_pops(t, 0, 0), zero, i, a)
        } else {
            zero
        }
    } else if j == w - 1 {
        if b == 0 {
            zero
        } else if b == 1 {
            edge_flow(col_pops(t, w - 1, 0), zero, i, a)
        } else {
            edge_flow(col_pops(t, w - 2, 0), zero, i, a)
        }
    } else {
        t[i + 1 - a][j + 1 - b][a][b]
    }
}

/// The populations `[p][..]` of row `r`, as an edge-flow source.
fn row_source<E: Copy>(t: &Grid<Populations<E>>, r: usize, p: usize) -> (s: Vec<[E; 3]>)
    requires
        t.wf(),
        r < t@.len(),
        p < 3,
    ensures
        s@ == row_pops(t@, r as int, p as int),
{
    let w = t.width;
    let mut s: Vec<[E; 3]> = Vec::new();
    let mut k: usize = 0;
    while k < w
        invariant
            t.wf(),
            r < t@.len(),
            p < 3,
            w == t.width,
            k <= w,
            s@.len() == k,
            forall|kk: int| 0 <= kk < k ==> #[trigger] s@[kk] == t@[r as int][kk][p as int],
        decreases w - k,
    {
        let cell = t.get(r, k);
        s.push(cell[p]);
        k += 1;
    }
    assert(s@ =~= row_pops(t@, r as int, p as int));
    s
}

/// The populations `[..][p]` of column `c`, as an edge-flow source.
fn col_source<E: Copy>(t: &Grid<Populations<E>>, c: usize, p: usize) -> (s: Vec<[E; 3]>)
    requires
        t.wf(),
        c < t.width,
        p < 3,
    ensures
        s@ == col_pops(t@, c as int, p as int),
{
    let h = t.height();
    let mut s: Vec<[E; 3]> = Vec::new();
    let mut k: usize = 0;
    while k < h
        invariant
            t.wf(),
            c < t.width,
            p < 3,
            h == t@.len(),
            k <= h,
            s@.len() == k,
            forall|kk: int| 0 <= kk < k ==> #[trigger] s@[kk] == col_pops(t@, c as int, p as int)[kk],
        decreases h - k,
    {
        let cell = t.get(k, c);
        s.push([cell[0][p], cell[1][p], cell[2][p]]);
        k += 1;
    }
    assert(s@ =~= col_pops(t@, c as int, p as int));
    s
}

/// The streaming of a lattice with edge flow: the interior streams as
/// [`stream_interior_windows`] says, and each edge cell is assembled from the
/// [`stream_partial_edge_flow`] of the first populations along the edge and
/// along its inner neighbour, with `zero` flowing in from outside, as
/// [`edge_stream_pop`] says.
///
/// # Arguments
///
/// - `thermal_dist`: a ``[H, W, VY=3, VX=3]`` population distribution.
/// - `zero`: the value of the populations nothing streams into.
pub fn edge_flow_stream<E: Copy>(thermal_dist: &Grid<Populations<E>>, zero: E) -> (r: Grid<Populations<E>>)
    requires
        thermal_dist.wf(),
        2 <= thermal_dist@.len() < usize::MAX,
        2 <= thermal_dist.width < usize::MAX,
    ensures
        r.wf(),
        r.width == thermal_dist.width,
        r@.len() == thermal_dist@.len(),
        forall|i: int, j: int, a: int, b: int|
            0 <= i < thermal_dist@.len() && 0 <= j < thermal_dist.width && 0 <= a < 3 && 0 <= b < 3
                ==> #[trigger] r@[i][j][a][b] == edge_stream_pop(thermal_dist@, zero, i, j, a, b),
{
    let t = thermal_dist;
    let h = t.height();
    let w = t.width;
    let inner = stream_interior_windows(t);
    let top_out = stream_partial_edge_flow(&row_source(t, 1, 0), zero);
    let top_cross = stream_partial_edge_flow(&row_source(t, 0, 0), zero);
    let bottom_out = stream_partial_edge_flow(&row_source(t, h - 2, 0), zero);
    let left_out = stream_partial_edge_flow(&col_source(t, 1, 0), zero);
    let left_cross = stream_partial_edge_flow(&col_source(t, 0, 0), zero);
    let right_cross = stream_partial_edge_flow(&col_source(t, w - 1, 0), zero);
    let right_out = stream_partial_edge_flow(&col_source(t, w - 2, 0), zero);
    let z3 = [zero, zero, zero];
    proof {
        assert(t@[0].len() == w);
        assert(t@[1].len() == w);
        assert(t@[h - 2].len() == w);
    }
    let mut rows: Vec<Vec<Populations<E>>> = Vec::new();
    let mut i: usize = 0;
    while i < h
        invariant
            t.wf(),
            h == t@.len(),
            w == t.width,
            2 <= h < usize::MAX,
            2 <= w < usize::MAX,
            t@[0].len() == w,
            inner.wf(),
            inner@.len() == h - 2,
            inner.width == w - 2,
            forall|ii: int, jj: int, vy: int, vx: int|
                0 <= ii < h - 2 && 0 <= jj < w - 2 && 0 <= vy < 3 && 0 <= vx < 3 ==> #[trigger] inner@[ii][jj][vy][vx]
                    == t@[ii + 2 - vy][jj + 2 - vx][vy][vx],
            top_out@.len() == w,
            top_cross@.len() == w,
            bottom_out@.len() == w,
            left_out@.len() == h,
            left_cross@.len() == h,
            right_cross@.len() == h,
            right_out@.len() == h,
            forall|k: int, v: int| 0 <= k < w && 0 <= v < 3 ==> #[trigger] top_out@[k][v] == edge_flow(row_pops(t@, 1, 0), zero, k, v),
            forall|k: int, v: int| 0 <= k < w && 0 <= v < 3 ==> #[trigger] top_cross@[k][v] == edge_flow(row_pops(t@, 0, 0), zero, k, v),
            forall|k: int, v: int| 0 <= k < w && 0 <= v < 3 ==> #[trigger] bottom_out@[k][v] == edge_flow(row_pops(t@, h - 2, 0), zero, k, v),
            forall|k: int, v: int| 0 <= k < h && 0 <= v < 3 ==> #[trigger] left_out@[k][v] == edge_flow(col_pops(t@, 1, 0), zero, k, v),
            forall|k: int, v: int| 0 <= k < h && 0 <= v < 3 ==> #[trigger] left_cross@[k][v] == edge_flow(col_pops(t@, 0, 0), zero, k, v),
            forall|k: int, v: int| 0 <= k < h && 0 <= v < 3 ==> #[trigger] right_cross@[k][v] == edge_flow(col_pops(t@, w - 1, 0), zero, k, v),
            forall|k: int, v: int| 0 <= k < h && 0 <= v < 3 ==> #[trigger] right_out@[k][v] == edge_flow(col_pops(t@, w - 2, 0), zero, k, v),
            z3 == [zero, zero, zero],
            i <= h,
            rows@.len() == i,
            forall|k: int| 0 <= k < i ==> (#[trigger] rows@[k])@.len() == w,
            forall|k: int, l: int, a: int, b: int|
                0 <= k < i && 0 <= l < w && 0 <= a < 3 && 0 <= b < 3 ==> #[trigger] rows@[k]@[l][a][b]
                    == edge_stream_pop(t@, zero, k, l, a, b),
        decreases h - i,
    {
        let mut row: Vec<Populations<E>> = Vec::new();
        let mut j: usize = 0;
        while j < w
            invariant
                t.wf(),
                h == t@.len(),
                w == t.width,
                2 <= h < usize::MAX,
                2 <= w < usize::MAX,
                t@[0].len() == w,
                inner.wf(),
                inner@.len() == h - 2,
                inner.width == w - 2,
                forall|ii: int, jj: int, vy: int, vx: int|
                    0 <= ii < h - 2 && 0 <= jj < w - 2 && 0 <= vy < 3 && 0 <= vx < 3 ==> #[trigger] inner@[ii][jj][vy][vx]
                        == t@[ii + 2 - vy][jj + 2 - vx][vy][vx],
                top_out@.len() == w,
                top_cross@.len() == w,
                bottom_out@.len() == w,
                left_out@.len() == h,
                left_cross@.len() == h,
                right_cross@.len() == h,
                right_out@.len() == h,
                forall|k: int, v: int| 0 <= k < w && 0 <= v < 3 ==> #[trigger] top_out@[k][v] == edge_flow(row_pops(t@, 1, 0), zero, k, v),
                forall|k: int, v: int| 0 <= k < w && 0 <= v < 3 ==> #[trigger] top_cross@[k][v] == edge_flow(row_pops(t@, 0, 0), zero, k, v),
                forall|k: int, v: int| 0 <= k < w && 0 <= v < 3 ==> #[trigger] bottom_out@[k][v] == edge_flow(row_pops(t@, h - 2, 0), zero, k, v),
                forall|k: int, v: int| 0 <= k < h && 0 <= v < 3 ==> #[trigger] left_out@[k][v] == edge_flow(col_pops(t@, 1, 0), zero, k, v),
                forall|k: int, v: int| 0 <= k < h && 0 <= v < 3 ==> #[trigger] left_cross@[k][v] == edge_flow(col_pops(t@, 0, 0), zero, k, v),
                forall|k: int, v: int| 0 <= k < h && 0 <= v < 3 ==> #[trigger] right_cross@[k][v] == edge_flow(col_pops(t@, w - 1, 0), zero, k, v),
                forall|k: int, v: int| 0 <= k < h && 0 <= v < 3 ==> #[trigger] right_out@[k][v] == edge_flow(col_pops(t@, w - 2, 0), zero, k, v),
                z3 == [zero, zero, zero],
                i < h,
                j <= w,
                row@.len() == j,
                forall|l: int, a: int, b: int|
                    0 <= l < j && 0 <= a < 3 && 0 <= b < 3 ==> #[trigger] row@[l][a][b]
                        == edge_stream_pop(t@, zero, i as int, l, a, b),
            decreases w - j,
        {
            let cell: Populations<E> = if i == 0 {
                [top_out[j], top_cross[j], z3]
            } else if i == h - 1 {
                [z3, top_out[j], bottom_out[j]]
            } else if j == 0 {
                let o = left_out[i];
                let c = left_cross[i];
                [[o[0], c[0], zero], [o[1], c[1], zero], [o[2], c[2], zero]]
            } else if j == w - 1 {
                let c = right_cross[i];
                let o = right_out[i];
                [[zero, c[0], o[0]], [zero, c[1], o[1]], [zero, c[2], o[2]]]
            } else {
                inner.get(i - 1, j - 1)
            };
            assert forall|a: int, b: int| 0 <= a < 3 && 0 <= b < 3 implies #[trigger] cell[a][b]
                == edge_stream_pop(t@, zero, i as int, j as int, a, b) by {
                assert(a == 0 || a == 1 || a == 2);
                assert(b == 0 || b == 1 || b == 2);
                if i == 0 {
                    assert(top_out@[j as int][b] == edge_flow(row_pops(t@, 1, 0), zero, j as int, b));
                    assert(top_cross@[j as int][b] == edge_flow(row_pops(t@, 0, 0), zero, j as int, b));
                } else if i == h - 1 {
                    assert(top_out@[j as int][b] == edge_flow(row_pops(t@, 1, 0), zero, j as int, b));
                    assert(bottom_out@[j as int][b] == edge_flow(row_pops(t@, h - 2, 0), zero, j as int, b));
                } else if j == 0 {
                    assert(left_out@[i as int][a] == edge_flow(col_pops(t@, 1, 0), zero, i as int, a));
                    assert(left_cross@[i as int][a] == edge_flow(col_pops(t@, 0, 0), zero, i as int, a));
                } else if j == w - 1 {
                    assert(right_cross@[i as int][a] == edge_flow(col_pops(t@, w - 1, 0), zero, i as int, a));
                    assert(right_out@[i as int][a] == edge_flow(col_pops(t@, w - 2, 0), zero, i as int, a));
                } else {
                    assert(inner@[i - 1][j - 1][a][b] == t@[i - 1 + 2 - a][j - 1 + 2 - b][a][b]);
                }
            }
            row.push(cell);
            j += 1;
        }
        rows.push(row);
        i += 1;
    }
    let r = Grid { rows, width: w };
    assert forall|k: int| 0 <= k < r@.len() implies #[trigger] r@[k].len() == w by {
        assert(r@[k] == rows@[k]@);
    }
    assert forall|ii: int, jj: int, a: int, b: int|
        0 <= ii < h && 0 <= jj < w && 0 <= a < 3 && 0 <= b < 3 implies #[trigger] r@[ii][jj][a][b]
        == edge_stream_pop(t@, zero, ii, jj, a, b) by {
        assert(r@[ii] == rows@[ii]@);
    }
    r
}

/// Entry `[k][v]` of the edge flow moves along the edge by `v - 1`: it is entry
/// `[v]` of source cell `k + 1 - v` when that cell exists, and `zero` otherwise.
pub proof fn law_edge_flow_moves_along_edge<E>(source: Seq<[E; 3]>, zero: E, k: int, v: int)
    requires
        0 <= k < source.len(),
        0 <= v < 3,
    ensures
        edge_flow(source, zero, k, v) == if 0 <= k + 1 - v < source.len() {
            source[k + 1 - v][v]
        } else {
            zero
        },
{
}

/// The edges of the edge-flow streaming by value, on an `h x w` lattice:
/// - top row: population `[0][b]` flows along row 1 and `[1][b]` along row 0
///   (each taking the first-row population `[0][b]` of column `j + 1 - b`),
///   `[2][b]` is `zero`;
/// - bottom row: `[0][b]` is `zero`, `[1][b]` flows along row 1 and `[2][b]`
///   along row `h - 2`;
/// - left column (inner rows): population `[a][0]` flows along column 1 and
///   `[a][1]` along column 0 (each taking the first-column population `[a][0]`
///   of row `i + 1 - a`), `[a][2]` is `zero`;
/// - right column (inner rows): `[a][0]` is `zero`, `[a][1]` flows along column
///   `w - 1` and `[a][2]` along column `w - 2`;
/// what would come from beyond the ends is `zero`.
pub proof fn law_edge_stream_edges_by_value<E>(t: Seq<Seq<Populations<E>>>, zero: E, i: int, j: int, a: int, b: int)
    requires
        t.len() >= 2,
        t[0].len() >= 2,
        forall|k: int| 0 <= k < t.len() ==> #[trigger] t[k].len() == t[0].len(),
        0 <= i < t.len(),
        0 <= j < t[0].len(),
        0 <= a < 3,
        0 <= b < 3,
    ensures
        ({
            let h = t.len() as int;
            let w = t[0].len() as int;
            let row_in = 0 <= j + 1 - b < w;
            let col_in = 0 <= i + 1 - a < h;
            &&& i == 0 ==> edge_stream_pop(t, zero, i, j, a, b) == if a == 0 && row_in {
                t[1][j + 1 - b][0][b]
            } else if a == 1 && row_in {
                t[0][j + 1 - b][0][b]
            } else {
                zero
            }
            &&& i == h - 1 && i != 0 ==> edge_stream_pop(t, zero, i, j, a, b) == if a == 1 && row_in {
                t[1][j + 1 - b][0][b]
            } else if a == 2 && row_in {
                t[h - 2][j + 1 - b][0][b]
            } else {
                zero
            }
            &&& 0 < i < h - 1 && j == 0 ==> edge_stream_pop(t, zero, i, j, a, b) == if b == 0 && col_in {
                t[i + 1 - a][1][a][0]
            } else if b == 1 && col_in {
                t[i + 1 - a][0][a][0]
            } else {
                zero
            }
            &&& 0 < i < h - 1 && j == w - 1 && j != 0 ==> edge_stream_pop(t, zero, i, j, a, b) == if b
                == 1 && col_in {
                t[i + 1 - a][w - 1][a][0]
            } else if b == 2 && col_in {
                t[i + 1 - a][w - 2][a][0]
            } else {
                zero
            }
        }),
{
    let h = t.len() as int;
    let w = t[0].len() as int;
    assert(row_pops(t, 1, 0).len() == w);
    assert(row_pops(t, 0, 0).len() == w);
    assert(row_pops(t, h - 2, 0).len() == w);
}

/// On the border, the clipped streaming keeps exactly the outgoing flow: a
/// moving population of a border cell is pulled from its upstream cell when
/// it would leave the lattice from this cell on the next step, and is `zero`
/// otherwise (it flowed along or out of the edge and is clipped).
pub proof fn law_border_cells_keep_outgoing_flow<E>(
    t: Seq<Seq<Populations<E>>>,
    zero: E,
    i: int,
    j: int,
    a: int,
    b: int,
)
    requires
        t.len() >= 2,
        t[0].len() >= 2,
        0 <= i < t.len(),
        0 <= j < t[0].len(),
        i == 0 || i == t.len() - 1 || j == 0 || j == t[0].len() - 1,
        0 <= a < 3,
        0 <= b < 3,
        !(a == 1 && b == 1),
    ensures
        streamed_pop(t, zero, i, j, a, b) == if 0 <= i + 1 - a < t.len() && 0 <= j + 1 - b < t[0].len()
            && !(0 <= i + a - 1 < t.len() && 0 <= j + b - 1 < t[0].len()) {
            t[i + 1 - a][j + 1 - b][a][b]
        } else {
            zero
        },
{
}

/// The clipped streaming, filled edge by edge as [`clipped_pop`] lists it, is
/// the upstream streaming [`streamed_pop`] states directly.
pub proof fn law_clipped_pop_is_upstream_streaming<E>(
    t: Seq<Seq<Populations<E>>>,
    zero: E,
    i: int,
    j: int,
    a: int,
    b: int,
)
    requires
        t.len() >= 2,
        t[0].len() >= 2,
        0 <= i < t.len(),
        0 <= j < t[0].len(),
        0 <= a < 3,
        0 <= b < 3,
    ensures
        clipped_pop(t, zero, i, j, a, b) == streamed_pop(t, zero, i, j, a, b),
{
}

/// Streaming never moves the rest population: population `[1][1]` of every
/// cell is kept by the clipped streaming.
pub proof fn law_rest_population_kept<E>(t: Seq<Seq<Populations<E>>>, zero: E, i: int, j: int)
    requires
        t.len() >= 2,
        t[0].len() >= 2,
        0 <= i < t.len(),
        0 <= j < t[0].len(),
    ensures
        streamed_pop(t, zero, i, j, 1, 1) == t[i][j][1][1],
{
}

/// The two interior streaming conventions mirror each other:
/// [`stream_interior_windows`] pulls population `[vy][vx]` from offset
/// `(2 - vy, 2 - vx)`, while the cell-wise streaming pulls `[2 - vy][2 - vx]` from
/// offset `(vy, vx)`; each is the other with both direction indices reversed.
pub proof fn law_interior_streams_mirror<E>(d: Seq<Seq<Populations<E>>>, i: int, j: int, vy: int, vx: int)
    requires
        0 <= vy < 3,
        0 <= vx < 3,
    ensures
        gathered(d, true, i, j, 2 - vy, 2 - vx) == d[i + vy][j + vx][2 - vy][2 - vx],
        gathered(d, false, i, j, vy, vx) == d[i + vy][j + vx][2 - vy][2 - vx],
{
}

/// In the clipped streaming, an interior cell pulls every population from the
/// neighbour it moves away from.
pub proof fn law_interior_cells_stream_fully<E>(
    t: Seq<Seq<Populations<E>>>,
    zero: E,
    i: int,
    j: int,
    a: int,
    b: int,
)
    requires
        t.len() >= 2,
        t[0].len() >= 2,
        1 <= i < t.len() - 1,
        1 <= j < t[0].len() - 1,
        0 <= a < 3,
        0 <= b < 3,
    ensures
        streamed_pop(t, zero, i, j, a, b) == t[i + 1 - a][j + 1 - b][a][b],
{
}

/// Population `[a][b]` of cell `(r, c)` of an `h x w` lattice runs out of the
/// lattice or along its edge: the cell is on the border and the population is
/// not at rest.
pub open spec fn is_edge_outflow(h: int, w: int, r: int, c: int, a: int, b: int) -> bool {
    (r == 0 || r == h - 1 || c == 0 || c == w - 1) && !(a == 1 && b == 1)
}

/// Clipped streaming loses and creates nothing when the edges carry no
/// outflow: if every population of a border cell but the rest one is `zero`,
/// each population `[a][b]` of cell `(r, c)` lands at its downstream cell
/// `(r + a - 1, c + b - 1)` (whose upstream cell is `(r, c)` again), and every
/// result entry is either `zero` or the entry of its upstream cell that is no
/// edge outflow. So each input entry appears exactly once in the result, and
/// all other result entries are `zero`.
pub proof fn law_clipped_stream_moves_each_entry_once<E>(
    t: Seq<Seq<Populations<E>>>,
    zero: E,
    r: int,
    c: int,
    a: int,
    b: int,
)
    requires
        t.len() >= 2,
        t[0].len() >= 2,
        forall|k: int| 0 <= k < t.len() ==> #[trigger] t[k].len() == t[0].len(),
        forall|y: int, x: int, p: int, q: int|
            0 <= y < t.len() && 0 <= x < t[0].len() && 0 <= p < 3 && 0 <= q < 3 && is_edge_outflow(
                t.len() as int,
                t[0].len() as int,
                y,
                x,
                p,
                q,
            ) ==> #[trigger] t[y][x][p][q] == zero,
        0 <= r < t.len(),
        0 <= c < t[0].len(),
        0 <= a < 3,
        0 <= b < 3,
    ensures
        !is_edge_outflow(t.len() as int, t[0].len() as int, r, c, a, b) ==> {
            &&& 0 <= r + a - 1 < t.len()
            &&& 0 <= c + b - 1 < t[0].len()
            &&& streamed_pop(t, zero, r + a - 1, c + b - 1, a, b) == t[r][c][a][b]
        },
        streamed_pop(t, zero, r, c, a, b) == zero || {
            &&& 0 <= r + 1 - a < t.len()
            &&& 0 <= c + 1 - b < t[0].len()
            &&& !is_edge_outflow(t.len() as int, t[0].len() as int, r + 1 - a, c + 1 - b, a, b)
            &&& streamed_pop(t, zero, r, c, a, b) == t[r + 1 - a][c + 1 - b][a][b]
        },
{
    let h = t.len() as int;
    let w = t[0].len() as int;
    let sr = r + 1 - a;
    let sc = c + 1 - b;
    if 0 <= sr < h && 0 <= sc < w && is_edge_outflow(h, w, sr, sc, a, b) {
        assert(t[sr][sc][a][b] == zero);
    }
}

/// The two edge policies differ on the edges only: inside the border, the
/// edge-flow streaming and the clipped streaming move every population alike.
pub proof fn law_edge_policies_agree_inside<E>(
    t: Seq<Seq<Populations<E>>>,
    zero: E,
    i: int,
    j: int,
    a: int,
    b: int,
)
    requires
        t.len() >= 2,
        t[0].len() >= 2,
        1 <= i < t.len() - 1,
        1 <= j < t[0].len() - 1,
        0 <= a < 3,
        0 <= b < 3,
    ensures
        edge_stream_pop(t, zero, i, j, a, b) == streamed_pop(t, zero, i, j, a, b),
{
}

} // verus!
