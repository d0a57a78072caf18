//! # Surface Convolutions (2D)
//!
//! A neighbourhood function is applied to every `kernel`-sized window of a
//! batch of multi-channel planes.
use vstd::prelude::*;
use vstd::arithmetic::div_mod::lemma_fundamental_div_mod_converse;
use crate::grid::{Grid, rows_view, sub_block};

verus! {

/// The number of windows of `window_size` cells, advanced by `step_size`, that fit
/// in a dimension of `dim_size` cells.
pub open spec fn spec_unfold_windows(dim_size: int, window_size: int, step_size: int) -> int {
    if dim_size + step_size < window_size {
        0
    } else {
        (dim_size + step_size - window_size) / step_size
    }
}

/// `burn_tensor::ops::unfold::calculate_unfold_windows`: with `x = dim_size + step_size`,
/// it returns `0` when `x < window_size`, else `(x - window_size) / step_size`;
/// it asserts `step_size > 0`.
#[verifier::external_body]
pub(crate) fn unfold_windows(dim_size: usize, window_size: usize, step_size: usize) -> (n: usize)
    requires
        step_size > 0,
        dim_size + step_size <= usize::MAX,
    ensures
        n == spec_unfold_windows(dim_size as int, window_size as int, step_size as int),
{
    burn_tensor::ops::unfold::calculate_unfold_windows(dim_size, window_size, step_size)
}

/// A dense rank-3 array `[d0, d1, d2]`.
pub struct Array3<T> {
    /// The dimensions.
    pub dims: [usize; 3],
    /// The entries, nested by dimension.
    pub data: Vec<Vec<Vec<T>>>,
}

/// A dense rank-4 array `[d0, d1, d2, d3]`: `d0 x d1` planes of `d2 x d3` cells.
pub struct Array4<T> {
    /// The dimensions.
    pub dims: [usize; 4],
    /// The planes, nested by the first two dimensions.
    pub data: Vec<Vec<Grid<T>>>,
}

/// A dense rank-5 array `[d0, d1, d2, d3, d4]`: `d0 x d1 x d2` planes of `d3 x d4` cells.
pub struct Array5<T> {
    /// The dimensions.
    pub dims: [usize; 5],
    /// The planes, nested by the first three dimensions.
    pub data: Vec<Vec<Vec<Grid<T>>>>,
}

impl<T> Array3<T> {
    /// The nesting has the stated dimensions.
    pub open spec fn wf(&self) -> bool {
        &&& self.data@.len() == self.dims[0]
        &&& forall|a: int| 0 <= a < self.dims[0] ==> (#[trigger] self.data@[a])@.len() == self.dims[1]
        &&& forall|a: int, b: int|
            0 <= a < self.dims[0] && 0 <= b < self.dims[1] ==> (#[trigger] self.data@[a]@[b])@.len()
                == self.dims[2]
    }

    /// The entry at `[a, b, c]`.
    pub open spec fn at(&self, a: int, b: int, c: int) -> T {
        self.data@[a]@[b]@[c]
    }
}

impl<T: Copy> Array4<T> {
    /// The nesting has the stated dimensions.
    pub open spec fn wf(&self) -> bool {
        &&& self.data@.len() == self.dims[0]
        &&& forall|a: int| 0 <= a < self.dims[0] ==> (#[trigger] self.data@[a])@.len() == self.dims[1]
        &&& forall|a: int, b: int|
            0 <= a < self.dims[0] && 0 <= b < self.dims[1] ==> {
                &&& (#[trigger] self.data@[a]@[b]).wf()
                &&& self.data@[a]@[b]@.len() == self.dims[2]
                &&& self.data@[a]@[b].width == self.dims[3]
            }
    }

    /// The entry at `[a, b, c, d]`.
    pub open spec fn at(&self, a: int, b: int, c: int, d: int) -> T {
        self.data@[a]@[b]@[c][d]
    }
}

impl<T: Copy> Array5<T> {
    /// The nesting has the stated dimensions.
    pub open spec fn wf(&self) -> bool {
        &&& self.data@.len() == self.dims[0]
        &&& forall|a: int| 0 <= a < self.dims[0] ==> (#[trigger] self.data@[a])@.len() == self.dims[1]
        &&& forall|a: int, b: int|
            0 <= a < self.dims[0] && 0 <= b < self.dims[1] ==> (#[trigger] self.data@[a]@[b])@.len()
                == self.dims[2]
        &&& forall|a: int, b: int, c: int|
            0 <= a < self.dims[0] && 0 <= b < self.dims[1] && 0 <= c < self.dims[2] ==> {
                &&& (#[trigger] self.data@[a]@[b]@[c]).wf()
                &&& self.data@[a]@[b]@[c]@.len() == self.dims[3]
                &&& self.data@[a]@[b]@[c].width == self.dims[4]
            }
    }

    /// The entry at `[a, b, c, d, e]`.
    pub open spec fn at(&self, a: int, b: int, c: int, d: int, e: int) -> T {
        self.data@[a]@[b]@[c]@[d][e]
    }
}

/// The number of window rows and window columns of a `kernel` over `[.., .., h, w]` planes.
pub open spec fn window_counts(dims: [usize; 4], kernel: [usize; 2]) -> (int, int) {
    (
        spec_unfold_windows(dims[2] as int, kernel[0] as int, 1),
        spec_unfold_windows(dims[3] as int, kernel[1] as int, 1),
    )
}

/// `x` holds the `kernel` windows of `input`, laid out as
/// `[batch, h_wins * w_wins, c_in, kernel[0], kernel[1]]`: block `k` is the
/// window whose top-left cell is `(k / w_wins, k % w_wins)`.
pub open spec fn is_window_array<T: Copy>(x: Array5<T>, input: Array4<T>, kernel: [usize; 2]) -> bool {
    let (hw, ww) = window_counts(input.dims, kernel);
    &&& x.wf()
    &&& x.dims[0] == input.dims[0]
    &&& x.dims[1] == hw * ww
    &&& x.dims[2] == input.dims[1]
    &&& x.dims[3] == kernel[0]
    &&& x.dims[4] == kernel[1]
    &&& forall|b: int, k: int, c: int, ki: int, kj: int|
        0 <= b < x.dims[0] && 0 <= k < x.dims[1] && 0 <= c < x.dims[2] && 0 <= ki < kernel[0] && 0
            <= kj < kernel[1] ==> #[trigger] x.at(b, k, c, ki, kj) == input.at(
            b,
            c,
            k / ww + ki,
            k % ww + kj,
        )
}

/// Block `i * ww + j` of `ww` blocks per window row is window `(i, j)`.
pub proof fn lemma_block_index(i: int, j: int, ww: int)
    requires
        0 <= i,
        0 <= j < ww,
    ensures
        (i * ww + j) / ww == i,
        (i * ww + j) % ww == j,
{
    lemma_fundamental_div_mod_converse(i * ww + j, ww, i, j);
}

/// Block `i * ww + j` lies among the `hw * ww` blocks.
pub proof fn lemma_block_bound(i: int, j: int, hw: int, ww: int)
    requires
        0 <= i < hw,
        0 <= j < ww,
    ensures
        0 <= i * ww + j < hw * ww,
{
    assert(0 <= i * ww) by (nonlinear_arith)
        requires
            0 <= i,
            0 <= ww,
    ;
    assert((i + 1) * ww <= hw * ww) by (nonlinear_arith)
        requires
            i + 1 <= hw,
            0 <= ww,
    ;
    assert((i + 1) * ww == i * ww + ww) by (nonlinear_arith);
}

/// The windows of `input` as a `[batch, h_wins * w_wins, c_in, kernel[0], kernel[1]]` array.
fn unfold_windows_2d<T: Copy>(input: &Array4<T>, kernel: [usize; 2], hw: usize, ww: usize) -> (x: Array5<T>)
    requires
        input.wf(),
        hw == window_counts(input.dims, kernel).0,
        ww == window_counts(input.dims, kernel).1,
        hw * ww <= usize::MAX,
        hw > 0 ==> kernel[0] + hw - 1 <= input.dims[2],
        ww > 0 ==> kernel[1] + ww - 1 <= input.dims[3],
    ensures
        is_window_array(x, *input, kernel),
{
    let batch = input.dims[0];
    let c_in = input.dims[1];
    let nblocks = hw * ww;
    let mut data: Vec<Vec<Vec<Grid<T>>>> = Vec::new();
    let mut b: usize = 0;
    while b < batch
        invariant
            input.wf(),
            batch == input.dims[0],
            c_in == input.dims[1],
            hw == window_counts(input.dims, kernel).0,
            ww == window_counts(input.dims, kernel).1,
            nblocks == hw * ww,
            hw > 0 ==> kernel[0] + hw - 1 <= input.dims[2],
            ww > 0 ==> kernel[1] + ww - 1 <= input.dims[3],
            b <= batch,
            data@.len() == b,
            forall|a: int| 0 <= a < b ==> (#[trigger] data@[a])@.len() == nblocks,
            forall|a: int, k: int| 0 <= a < b && 0 <= k < nblocks ==> (#[trigger] data@[a]@[k])@.len() == c_in,
            forall|a: int, k: int, c: int|
                0 <= a < b && 0 <= k < nblocks && 0 <= c < c_in ==> {
                    &&& (#[trigger] data@[a]@[k]@[c]).wf()
                    &&& data@[a]@[k]@[c]@.len() == kernel[0]
                    &&& data@[a]@[k]@[c].width == kernel[1]
                    &&& forall|ki: int, kj: int|
                        0 <= ki < kernel[0] && 0 <= kj < kernel[1] ==> #[trigger] data@[a]@[k]@[c]@[ki][kj]
                            == input.at(a, c, k / (ww as int) + ki, k % (ww as int) + kj)
                },
        decreases batch - b,
    {
        let mut blocks: Vec<Vec<Grid<T>>> = Vec::new();
        let mut i: usize = 0;
        while i < hw
            invariant
                input.wf(),
                batch == input.dims[0],
                c_in == input.dims[1],
                b < batch,
                ww == window_counts(input.dims, kernel).1,
                nblocks == hw * ww,
                hw > 0 ==> kernel[0] + hw - 1 <= input.dims[2],
                ww > 0 ==> kernel[1] + ww - 1 <= input.dims[3],
                i <= hw,
                blocks@.len() == i * ww,
                forall|k: int| 0 <= k < i * ww ==> (#[trigger] blocks@[k])@.len() == c_in,
                forall|k: int, c: int|
                    0 <= k < i * ww && 0 <= c < c_in ==> {
                        &&& (#[trigger] blocks@[k]@[c]).wf()
                        &&& blocks@[k]@[c]@.len() == kernel[0]
                        &&& blocks@[k]@[c].width == kernel[1]
                        &&& forall|ki: int, kj: int|
                            0 <= ki < kernel[0] && 0 <= kj < kernel[1] ==> #[trigger] blocks@[k]@[c]@[ki][kj]
                                == input.at(b as int, c, k / (ww as int) + ki, k % (ww as int) + kj)
                    },
            decreases hw - i,
        {
            let mut j: usize = 0;
            while j < ww
                invariant
                    input.wf(),
                    batch == input.dims[0],
                    c_in == input.dims[1],
                    b < batch,
                    i < hw,
                    hw > 0 ==> kernel[0] + hw - 1 <= input.dims[2],
                    ww > 0 ==> kernel[1] + ww - 1 <= input.dims[3],
                    j <= ww,
                    blocks@.len() == i * ww + j,
                    forall|k: int| 0 <= k < i * ww + j ==> (#[trigger] blocks@[k])@.len() == c_in,
                    forall|k: int, c: int|
                        0 <= k < i * ww + j && 0 <= c < c_in ==> {
                            &&& (#[trigger] blocks@[k]@[c]).wf()
                            &&& blocks@[k]@[c]@.len() == kernel[0]
                            &&& blocks@[k]@[c].width == kernel[1]
                            &&& forall|ki: int, kj: int|
                                0 <= ki < kernel[0] && 0 <= kj < kernel[1] ==> #[trigger] blocks@[k]@[c]@[ki][kj]
                                    == input.at(b as int, c, k / (ww as int) + ki, k % (ww as int) + kj)
                        },
                decreases ww - j,
            {
                proof {
                    lemma_block_index(i as int, j as int, ww as int);
                }
                let mut chans: Vec<Grid<T>> = Vec::new();
                let mut c: usize = 0;
                while c < c_in
                    invariant
                        input.wf(),
                        batch == input.dims[0],
                        c_in == input.dims[1],
                        b < batch,
                        i < hw,
                        j < ww,
                        hw > 0 ==> kernel[0] + hw - 1 <= input.dims[2],
                        ww > 0 ==> kernel[1] + ww - 1 <= input.dims[3],
                        c <= c_in,
                        chans@.len() == c,
                        forall|cc: int|
                            0 <= cc < c ==> {
                                &&& (#[trigger] chans@[cc]).wf()
                                &&& chans@[cc]@.len() == kernel[0]
                                &&& chans@[cc].width == kernel[1]
                                &&& forall|ki: int, kj: int|
                                    0 <= ki < kernel[0] && 0 <= kj < kernel[1] ==> #[trigger] chans@[cc]@[ki][kj]
                                        == input.at(b as int, cc, i + ki, j + kj)
                            },
                    decreases c_in - c,
                {
                    let plane = &input.data[b][c];
                    let block = plane.read_block(i, i + kernel[0], j, j + kernel[1]);
                    let g = Grid { rows: block, width: kernel[1] };
                    assert forall|k: int| 0 <= k < g@.len() implies #[trigger] g@[k].len() == kernel[1] by {
                        assert(g@[k] == block@[k]@);
                    }
                    chans.push(g);
                    c += 1;
                }
                blocks.push(chans);
                j += 1;
                proof {
                    assert(i * ww + j - 1 + 1 == i * ww + j);
                }
            }
            proof {
                assert((i + 1) * ww == i * ww + ww) by (nonlinear_arith);
            }
            i += 1;
        }
        data.push(blocks);
        b += 1;
    }
    Array5 { dims: [batch, nblocks, c_in, kernel[0], kernel[1]], data }
}

/// `out` is the `[batch, c_out, h_wins, w_wins]` rearrangement of the
/// `[batch, h_wins * w_wins, c_out]` array `r`.
pub open spec fn is_block_image<U: Copy>(out: Array4<U>, r: Array3<U>, hw: int, ww: int) -> bool {
    &&& out.wf()
    &&& out.dims[0] == r.dims[0]
    &&& out.dims[1] == r.dims[2]
    &&& out.dims[2] == hw
    &&& out.dims[3] == ww
    &&& forall|b: int, c: int, i: int, j: int|
        0 <= b < out.dims[0] && 0 <= c < out.dims[1] && 0 <= i < hw && 0 <= j < ww
            ==> #[trigger] out.at(b, c, i, j) == r.at(b, i * ww + j, c)
}

/// The number of unit-step windows of `window_size` cells in a dimension of
/// `dim_size` cells is `dim_size - window_size + 1` when at least one fits,
/// and `0` otherwise.
pub proof fn law_unit_step_window_count(dim_size: int, window_size: int)
    requires
        0 <= dim_size,
        1 <= window_size,
    ensures
        window_size <= dim_size + 1 ==> spec_unfold_windows(dim_size, window_size, 1) == dim_size
            - window_size + 1,
        window_size > dim_size + 1 ==> spec_unfold_windows(dim_size, window_size, 1) == 0,
{
}

/// What the windows handed to the neighbourhood function are: in a window
/// array of `input`, entry `[p][q]` of channel `c` of block `i * ww + j` (the
/// window at window row `i`, window column `j`) is input cell `(i + p, j + q)`
/// of channel `c`, for every window and every offset in the kernel.
pub proof fn law_window_array_entries<T: Copy>(
    x: Array5<T>,
    input: Array4<T>,
    kernel: [usize; 2],
    b: int,
    c: int,
    i: int,
    j: int,
    p: int,
    q: int,
)
    requires
        is_window_array(x, input, kernel),
        0 <= b < input.dims[0],
        0 <= c < input.dims[1],
        0 <= i < window_counts(input.dims, kernel).0,
        0 <= j < window_counts(input.dims, kernel).1,
        0 <= p < kernel[0],
        0 <= q < kernel[1],
    ensures
        0 <= i * window_counts(input.dims, kernel).1 + j < x.dims[1],
        x.dims[0] == input.dims[0],
        x.dims[2] == input.dims[1],
        x.dims[3] == kernel[0],
        x.dims[4] == kernel[1],
        x.at(b, i * window_counts(input.dims, kernel).1 + j, c, p, q) == input.at(b, c, i + p, j + q),
{
    let (hw, ww) = window_counts(input.dims, kernel);
    lemma_block_index(i, j, ww);
    lemma_block_bound(i, j, hw, ww);
    let k = i * ww + j;
    assert(x.at(b, k, c, p, q) == input.at(b, c, k / ww + p, k % ww + q));
}

/// Where each result of the neighbourhood function goes: in the block image
/// of `r`, output channel `o` at window row `i`, window column `j` is entry
/// `[o]` of block `i * ww + j` of `r`, for every batch, channel and window.
pub proof fn law_block_image_entries<U: Copy>(out: Array4<U>, r: Array3<U>, hw: int, ww: int, b: int, o: int, i: int, j: int)
    requires
        is_block_image(out, r, hw, ww),
        0 <= b < r.dims[0],
        0 <= o < r.dims[2],
        0 <= i < hw,
        0 <= j < ww,
    ensures
        out.dims[0] == r.dims[0],
        out.dims[1] == r.dims[2],
        out.dims[2] == hw,
        out.dims[3] == ww,
        out.at(b, o, i, j) == r.at(b, i * ww + j, o),
{
}

/// Convolve a neighborhood function over a batch of multi-channel planes.
///
/// # Arguments
///
/// * `input` - a ``[batch, c_in, height, width]`` array.
/// * `kernel` - a kernel shape, e.g. ``[3, 3]``.
/// * `func` - a func from ``[batch, h_wins * w_wins, c_in, kernel[0], kernel[1]]``
///   windows to ``[batch, h_wins * w_wins, c_out]``
///
/// # Returns
///
/// A ``[batch, c_out, h_wins, w_wins]`` array: entry `[b, c, i, j]` is what
/// `func` gave for channel `c` of the window whose top-left cell is `(i, j)`.
pub fn convolve_func_2d<T: Copy, U: Copy, F: Fn(Array5<T>) -> Array3<U>>(
    input: Array4<T>,
    kernel: [usize; 2],
    func: F,
) -> (out: Array4<U>)
    requires
        input.wf(),
        input.dims[2] < usize::MAX,
        input.dims[3] < usize::MAX,
        window_counts(input.dims, kernel).0 * window_counts(input.dims, kernel).1 <= usize::MAX,
        forall|x: Array5<T>| is_window_array(x, input, kernel) ==> call_requires(func, (x,)),
        forall|x: Array5<T>, r: Array3<U>|
            is_window_array(x, input, kernel) && call_ensures(func, (x,), r) ==> {
                &&& r.wf()
                &&& r.dims[0] == input.dims[0]
                &&& r.dims[1] == window_counts(input.dims, kernel).0 * window_counts(
                    input.dims,
                    kernel,
                ).1
            },
    ensures
        exists|x: Array5<T>, r: Array3<U>|
            #![trigger call_ensures(func, (x,), r)]
            is_window_array(x, input, kernel) && call_ensures(func, (x,), r) && is_block_image(
                out,
                r,
                window_counts(input.dims, kernel).0,
                window_counts(input.dims, kernel).1,
            ),
{
    let hw = unfold_windows(input.dims[2], kernel[0], 1);
    let ww = unfold_windows(input.dims[3], kernel[1], 1);
    let x = unfold_windows_2d(&input, kernel, hw, ww);
    let ghost xg = x;
    let r = func(x);
    let batch = r.dims[0];
    let c_out = r.dims[2];
    let mut data: Vec<Vec<Grid<U>>> = Vec::new();
    let mut b: usize = 0;
    while b < batch
        invariant
            r.wf(),
            batch == r.dims[0],
            c_out == r.dims[2],
            r.dims[1] == hw * ww,
            b <= batch,
            data@.len() == b,
            forall|a: int| 0 <= a < b ==> (#[trigger] data@[a])@.len() == c_out,
            forall|a: int, c: int|
                0 <= a < b && 0 <= c < c_out ==> {
                    &&& (#[trigger] data@[a]@[c]).wf()
                    &&& data@[a]@[c]@.len() == hw
                    &&& data@[a]@[c].width == ww
                    &&& forall|i: int, j: int|
                        0 <= i < hw && 0 <= j < ww ==> #[trigger] data@[a]@[c]@[i][j] == r.at(
                            a,
                            i * ww + j,
                            c,
                        )
                },
        decreases batch - b,
    {
        let mut chans: Vec<Grid<U>> = Vec::new();
        let mut c: usize = 0;
        while c < c_out
            invariant
                r.wf(),
                batch == r.dims[0],
                c_out == r.dims[2],
                r.dims[1] == hw * ww,
                b < batch,
                c <= c_out,
                chans@.len() == c,
                forall|cc: int|
                    0 <= cc < c ==> {
                        &&& (#[trigger] chans@[cc]).wf()
                        &&& chans@[cc]@.len() == hw
                        &&& chans@[cc].width == ww
                        &&& forall|i: int, j: int|
                            0 <= i < hw && 0 <= j < ww ==> #[trigger] chans@[cc]@[i][j] == r.at(
                                b as int,
                                i * ww + j,
                                cc,
                            )
                    },
            decreases c_out - c,
        {
            let mut rows: Vec<Vec<U>> = Vec::new();
            let mut i: usize = 0;
            while i < hw
                invariant
                    r.wf(),
                    batch == r.dims[0],
                    c_out == r.dims[2],
                    r.dims[1] == hw * ww,
                    b < batch,
                    c < c_out,
                    i <= hw,
                    rows@.len() == i,
                    forall|k: int| 0 <= k < i ==> (#[trigger] rows@[k])@.len() == ww,
                    forall|k: int, j: int|
                        0 <= k < i && 0 <= j < ww ==> #[trigger] rows@[k]@[j] == r.at(
                            b as int,
                            k * ww + j,
                            c as int,
                        ),
                decreases hw - i,
            {
                let mut row: Vec<U> = Vec::new();
                let mut j: usize = 0;
                while j < ww
                    invariant
                        r.wf(),
                        batch == r.dims[0],
                        c_out == r.dims[2],
                        r.dims[1] == hw * ww,
                        b < batch,
                        c < c_out,
                        i < hw,
                        j <= ww,
                        row@.len() == j,
                        forall|l: int| 0 <= l < j ==> #[trigger] row@[l] == r.at(b as int, i * ww + l, c as int),
                    decreases ww - j,
                {
                    proof {
                        lemma_block_bound(i as int, j as int, hw as int, ww as int);
                    }
                    let k = i * ww + j;
                    row.push(r.data[b][k][c]);
                    j += 1;
                }
                rows.push(row);
                i += 1;
            }
            let g = Grid { rows, width: ww };
            assert forall|k: int| 0 <= k < g@.len() implies #[trigger] g@[k].len() == ww by {
                assert(g@[k] == rows@[k]@);
            }
            chans.push(g);
            c += 1;
        }
        data.push(chans);
        b += 1;
    }
    let out = Array4 { dims: [batch, c_out, hw, ww], data };
    assert(is_block_image(out, r, hw as int, ww as int));
    assert(is_window_array(xg, input, kernel) && call_ensures(func, (xg,), r));
    out
}

} // verus!
