//! # Shape Helpers
//!
//! Row-major raveling of multi-dimensional coordinates, with negative
//! coordinates counting from the end of their dimension.
use vstd::prelude::*;
use burn_tensor::Shape;

verus! {

/// `burn_tensor::Shape`, the dimensions of a tensor.
#[verifier::external_type_specification]
#[verifier::external_body]
pub struct ExShape(Shape);

/// The dimensions a `burn_tensor::Shape` holds.
pub uninterp spec fn shape_dims(s: Shape) -> Seq<usize>;

/// `burn_tensor::Shape::to_vec`: a copy of the shape's dimensions.
#[verifier::external_body]
fn shape_to_vec(s: &Shape) -> (v: Vec<usize>)
    ensures
        v@ == shape_dims(*s),
{
    s.to_vec()
}

/// A coordinate with negative values counted from the end of a dimension of `size`.
pub open spec fn canon(idx: int, size: int) -> int {
    if idx < 0 {
        idx + size
    } else {
        idx
    }
}

/// The coordinate lies in `-size..size`.
pub open spec fn in_dim(idx: int, size: int) -> bool {
    -size <= idx < size
}

/// The product of `dims[i..]`: the row-major stride of dimension `i - 1`.
pub open spec fn stride_from(dims: Seq<usize>, i: int) -> int
    decreases dims.len() - i,
{
    if i >= dims.len() || i < 0 {
        1
    } else {
        dims[i] * stride_from(dims, i + 1)
    }
}

/// The row-major offset of `coords[i..]` within the block of `dims[i..]`.
pub open spec fn ravel_from(dims: Seq<usize>, coords: Seq<isize>, i: int) -> int
    decreases dims.len() - i,
{
    if i >= dims.len() || i < 0 {
        0
    } else {
        canon(coords[i] as int, dims[i] as int) * stride_from(dims, i + 1) + ravel_from(
            dims,
            coords,
            i + 1,
        )
    }
}

/// Every coordinate is within its dimension, and the total size fits in `usize`.
pub open spec fn valid_coords(dims: Seq<usize>, coords: Seq<isize>) -> bool {
    &&& dims.len() == coords.len()
    &&& forall|i: int| 0 <= i < dims.len() ==> 0 < #[trigger] dims[i] <= isize::MAX
    &&& forall|i: int| 0 <= i < dims.len() ==> in_dim(#[trigger] coords[i] as int, dims[i] as int)
    &&& stride_from(dims, 0) <= usize::MAX
}

/// `burn_tensor::indexing::canonicalize_index` with `wrap_scalar == false`:
/// it returns `idx` for `0 <= idx < size`, `idx + size` for `-size <= idx < 0`,
/// and panics otherwise (and when `size == 0`).
#[verifier::external_body]
fn canonicalize(idx: isize, size: usize) -> (r: usize)
    requires
        0 < size <= isize::MAX,
        in_dim(idx as int, size as int),
    ensures
        r == canon(idx as int, size as int),
{
    burn_tensor::indexing::canonicalize_index(idx, size, false)
}

/// Strides only grow towards the front, and stay positive.
proof fn lemma_stride_monotone(dims: Seq<usize>, i: int, j: int)
    requires
        0 <= i <= j <= dims.len(),
        forall|k: int| 0 <= k < dims.len() ==> 0 < #[trigger] dims[k],
    ensures
        1 <= stride_from(dims, j) <= stride_from(dims, i),
    decreases j - i,
{
    if i < j {
        lemma_stride_monotone(dims, i + 1, j);
        let s = stride_from(dims, i + 1);
        let d = dims[i] as int;
        assert(s <= d * s) by (nonlinear_arith)
            requires
                1 <= d,
                1 <= s,
        ;
    } else {
        lemma_stride_pos(dims, j);
    }
}

/// Strides are positive.
proof fn lemma_stride_pos(dims: Seq<usize>, i: int)
    requires
        0 <= i <= dims.len(),
        forall|k: int| 0 <= k < dims.len() ==> 0 < #[trigger] dims[k],
    ensures
        1 <= stride_from(dims, i),
    decreases dims.len() - i,
{
    if i < dims.len() {
        lemma_stride_pos(dims, i + 1);
        let s = stride_from(dims, i + 1);
        let d = dims[i] as int;
        assert(1 <= d * s) by (nonlinear_arith)
            requires
                1 <= d,
                1 <= s,
        ;
    }
}

/// A coordinate in `0..size` is kept, one in `-size..0` counts from the end.
pub proof fn law_canon_counts_negatives_from_end(idx: int, size: int)
    requires
        in_dim(idx, size),
    ensures
        0 <= idx ==> canon(idx, size) == idx,
        idx < 0 ==> canon(idx, size) == size + idx,
        0 <= canon(idx, size) < size,
{
}

/// Row-major raveling of two and three coordinates: the last coordinate
/// varies fastest, `[i, j]` of a `[d0, d1]` shape is `i * d1 + j` and
/// `[i, j, k]` of a `[d0, d1, d2]` shape is `(i * d1 + j) * d2 + k` (negative
/// coordinates counted from the end); the total size is the product of the
/// dimensions.
pub proof fn law_ravel_is_row_major(dims: Seq<usize>, coords: Seq<isize>)
    requires
        dims.len() == coords.len(),
        dims.len() == 2 || dims.len() == 3,
    ensures
        dims.len() == 2 ==> {
            &&& ravel_from(dims, coords, 0) == canon(coords[0] as int, dims[0] as int) * dims[1] + canon(
                coords[1] as int,
                dims[1] as int,
            )
            &&& stride_from(dims, 0) == dims[0] * dims[1]
        },
        dims.len() == 3 ==> {
            &&& ravel_from(dims, coords, 0) == (canon(coords[0] as int, dims[0] as int) * dims[1] + canon(
                coords[1] as int,
                dims[1] as int,
            )) * dims[2] + canon(coords[2] as int, dims[2] as int)
            &&& stride_from(dims, 0) == dims[0] * dims[1] * dims[2]
        },
{
    let n = dims.len() as int;
    assert(stride_from(dims, n) == 1);
    assert(ravel_from(dims, coords, n) == 0);
    let dl = dims[n - 1] as int;
    let cl = canon(coords[n - 1] as int, dims[n - 1] as int);
    assert(stride_from(dims, n - 1) == dl * 1);
    assert(ravel_from(dims, coords, n - 1) == cl * 1 + 0);
    if n == 2 {
        assert(stride_from(dims, 0) == dims[0] * stride_from(dims, 1));
        assert(ravel_from(dims, coords, 0) == canon(coords[0] as int, dims[0] as int) * stride_from(dims, 1)
            + ravel_from(dims, coords, 1));
    } else {
        let c0 = canon(coords[0] as int, dims[0] as int);
        let c1 = canon(coords[1] as int, dims[1] as int);
        let d0 = dims[0] as int;
        let d1 = dims[1] as int;
        let d2 = dims[2] as int;
        assert(stride_from(dims, 1) == d1 * d2);
        assert(ravel_from(dims, coords, 1) == c1 * d2 + cl);
        assert(stride_from(dims, 0) == d0 * (d1 * d2));
        assert(ravel_from(dims, coords, 0) == c0 * (d1 * d2) + (c1 * d2 + cl));
        assert(c0 * (d1 * d2) + c1 * d2 == (c0 * d1 + c1) * d2) by (nonlinear_arith);
        assert(d0 * (d1 * d2) == d0 * d1 * d2) by (nonlinear_arith);
    }
}

/// Compute the ravel index for the given coordinates.
///
/// This returns the row-major order raveling: the sum over `i` of the
/// (canonicalized) `coords[i]` times the product of `dims[i + 1..]`. The result
/// is below the product of all dimensions.
pub fn ravel_dims<const R: usize>(dims: &[usize], coords: [isize; R]) -> (idx: usize)
    requires
        valid_coords(dims@, coords@),
    ensures
        idx == ravel_from(dims@, coords@, 0),
        idx < stride_from(dims@, 0),
{
    let mut ravel_idx: usize = 0;
    let mut stride: usize = 1;
    let mut k: usize = R;
    proof {
        lemma_stride_monotone(dims@, 0, R as int);
    }
    while k > 0
        invariant
            valid_coords(dims@, coords@),
            R == dims@.len(),
            k <= R,
            ravel_idx == ravel_from(dims@, coords@, k as int),
            stride == stride_from(dims@, k as int),
            ravel_idx < stride,
        decreases k,
    {
        k -= 1;
        let dim = dims[k];
        let coord = canonicalize(coords[k], dim);
        proof {
            lemma_stride_monotone(dims@, 0, k as int);
            let s = stride as int;
            let c = coord as int;
            let d = dim as int;
            assert(c * s + ravel_idx < d * s) by (nonlinear_arith)
                requires
                    0 <= c < d,
                    0 <= ravel_idx < s,
            ;
            assert(0 <= c * s) by (nonlinear_arith)
                requires
                    0 <= c,
                    0 <= s,
            ;
            assert(d * s == stride_from(dims@, k as int));
        }
        ravel_idx = ravel_idx + coord * stride;
        stride = stride * dim;
    }
    ravel_idx
}

/// Compute the ravel index for the given coordinates of a tensor shape.
///
/// This returns the row-major order raveling, as [`ravel_dims`] does for the
/// shape's dimensions.
pub fn ravel_shape<const R: usize>(shape: &Shape, coords: [isize; R]) -> (idx: usize)
    requires
        valid_coords(shape_dims(*shape), coords@),
    ensures
        idx == ravel_from(shape_dims(*shape), coords@, 0),
{
    let dims = shape_to_vec(shape);
    ravel_dims(dims.as_slice(), coords)
}

/// Whether the coordinates are valid for the dimensions, checked at run time.
fn check_coords<const R: usize>(dims: &[usize], coords: [isize; R]) -> (ok: bool)
    ensures
        ok == valid_coords(dims@, coords@),
{
    if dims.len() != R {
        return false;
    }
    let mut prod: usize = 1;
    let mut k: usize = R;
    while k > 0
        invariant
            R == dims@.len(),
            k <= R,
            forall|j: int| k <= j < R ==> 0 < #[trigger] dims@[j] <= isize::MAX,
            forall|j: int| k <= j < R ==> in_dim(#[trigger] coords@[j] as int, dims@[j] as int),
            prod == stride_from(dims@, k as int),
        decreases k,
    {
        k -= 1;
        let d = dims[k];
        if d == 0 || d > isize::MAX as usize {
            return false;
        }
        let c = coords[k];
        if c >= 0 {
            if c as usize >= d {
                return false;
            }
        } else {
            if c < -(d as isize) {
                return false;
            }
        }
        match prod.checked_mul(d) {
            Some(p) => {
                proof {
                    let q = prod as int;
                    assert(p == d * q) by (nonlinear_arith)
                        requires
                            p == q * d,
                    ;
                    assert(stride_from(dims@, k as int) == d * stride_from(dims@, k + 1));
                }
                prod = p;
            },
            None => {
                proof {
                    let q = prod as int;
                    assert(d * q > usize::MAX) by (nonlinear_arith)
                        requires
                            q * d > usize::MAX,
                    ;
                    assert(stride_from(dims@, k as int) == d * stride_from(dims@, k + 1));
                    lemma_suffix_overflow(dims@, coords@, k as int);
                }
                return false;
            },
        }
    }
    true
}

/// When the dimensions from `k` on are positive and their product exceeds
/// `usize::MAX`, the coordinates cannot be valid.
proof fn lemma_suffix_overflow(dims: Seq<usize>, coords: Seq<isize>, k: int)
    requires
        0 <= k <= dims.len(),
        forall|j: int| k <= j < dims.len() ==> 0 < #[trigger] dims[j],
        stride_from(dims, k) > usize::MAX,
    ensures
        !valid_coords(dims, coords),
{
    if valid_coords(dims, coords) {
        lemma_stride_monotone(dims, 0, k);
    }
}

/// The ravel index of the coordinates of a tensor shape, or `None` when a
/// coordinate lies outside its dimension, the rank differs from `R`, or the
/// total size does not fit in `usize`.
pub fn checked_ravel_shape<const R: usize>(shape: &Shape, coords: [isize; R]) -> (idx: Option<usize>)
    ensures
        match idx {
            Some(i) => valid_coords(shape_dims(*shape), coords@) && i == ravel_from(
                shape_dims(*shape),
                coords@,
                0,
            ),
            None => !valid_coords(shape_dims(*shape), coords@),
        },
{
    let dims = shape_to_vec(shape);
    if check_coords(dims.as_slice(), coords) {
        Some(ravel_shape(shape, coords))
    } else {
        None
    }
}

} // verus!
