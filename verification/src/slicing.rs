//! # Axis Slices
//!
//! Slice selections follow the tensor indexing convention of `burn`: a negative
//! bound counts from the end of the axis, a missing end means the end of the
//! axis, and bounds are clamped to the axis.
use vstd::prelude::*;

verus! {

/// A half-open, unit-step selection `start..end` along one axis.
///
/// Negative bounds count from the end of the axis; `end == None` selects up to
/// the end of the axis.
#[derive(Clone, Copy, Debug)]
pub struct AxisSlice {
    /// The first selected index.
    pub start: isize,
    /// The index one past the last selected one, if bounded.
    pub end: Option<isize>,
}

/// A bound clamped into `0..=size`, counting negative bounds from the end.
pub open spec fn clamp_index(index: int, size: int) -> int {
    if index < 0 {
        if size + index > 0 {
            size + index
        } else {
            0
        }
    } else if index < size {
        index
    } else {
        size
    }
}

/// The first index a slice selects on an axis of `size` cells.
pub open spec fn slice_first(s: AxisSlice, size: int) -> int {
    clamp_index(s.start as int, size)
}

/// One past the last index a slice selects on an axis of `size` cells.
pub open spec fn slice_last(s: AxisSlice, size: int) -> int {
    match s.end {
        Some(e) => clamp_index(e as int, size),
        None => size,
    }
}

/// A slice already resolved against its axis: `0 <= start <= end`, with an explicit end.
pub open spec fn is_resolved(s: AxisSlice) -> bool {
    &&& s.end is Some
    &&& 0 <= s.start <= s.end->0
}

/// How a slice resolves on an axis of `size` cells: a bound in `0..=size` is
/// kept, a bound in `-size..0` counts from the end, a bound past either end is
/// clamped to that end, and a missing end is the end of the axis.
pub proof fn law_slice_bounds_resolve(s: AxisSlice, size: int)
    requires
        0 <= size,
    ensures
        0 <= s.start <= size ==> slice_first(s, size) == s.start,
        -size <= s.start < 0 ==> slice_first(s, size) == size + s.start,
        s.start > size ==> slice_first(s, size) == size,
        s.start < -size ==> slice_first(s, size) == 0,
        s.end is None ==> slice_last(s, size) == size,
        s.end matches Some(e) ==> {
            &&& (0 <= e <= size ==> slice_last(s, size) == e)
            &&& (-size <= e < 0 ==> slice_last(s, size) == size + e)
            &&& (e > size ==> slice_last(s, size) == size)
            &&& (e < -size ==> slice_last(s, size) == 0)
        },
        0 <= slice_first(s, size) <= size,
        0 <= slice_last(s, size) <= size,
{
}

/// `burn_tensor::Slice::to_range` on a unit-step slice: it clamps both bounds
/// into `0..=size`, counting negative bounds from the end, and a missing end
/// becomes `size`.
#[verifier::external_body]
fn slice_to_range(start: isize, end: Option<isize>, size: usize) -> (r: (usize, usize))
    requires
        size <= isize::MAX,
    ensures
        r.0 == clamp_index(start as int, size as int),
        r.1 == match end {
            Some(e) => clamp_index(e as int, size as int),
            None => size as int,
        },
{
    let range = burn_tensor::Slice::new(start, end, 1).to_range(size);
    (range.start, range.end)
}

/// Resolves a slice against an axis of `size` cells.
pub fn resolve_slice(s: AxisSlice, size: usize) -> (r: AxisSlice)
    requires
        size <= isize::MAX,
    ensures
        r.start == slice_first(s, size as int),
        r.end == Some(slice_last(s, size as int) as isize),
        0 <= r.start <= size,
        0 <= slice_last(s, size as int) <= size,
{
    let (first, last) = slice_to_range(s.start, s.end, size);
    AxisSlice { start: first as isize, end: Some(last as isize) }
}

/// Resolves a pair of slices against a `[height, width]` shape.
pub fn into_slices(ranges: [AxisSlice; 2], dims: [usize; 2]) -> (r: [AxisSlice; 2])
    requires
        dims[0] <= isize::MAX,
        dims[1] <= isize::MAX,
    ensures
        forall|a: int|
            0 <= a < 2 ==> {
                &&& (#[trigger] r[a]).start == slice_first(ranges[a], dims[a] as int)
                &&& r[a].end == Some(slice_last(ranges[a], dims[a] as int) as isize)
            },
{
    let r0 = resolve_slice(ranges[0], dims[0]);
    let r1 = resolve_slice(ranges[1], dims[1]);
    [r0, r1]
}

/// The number of indices a resolved slice selects.
pub fn slice_size(slice: &AxisSlice) -> (n: usize)
    requires
        is_resolved(*slice),
    ensures
        n == slice.end->0 - slice.start,
{
    match slice.end {
        Some(end) => (end - slice.start) as usize,
        None => 0,
    }
}

/// The `[rows, columns]` shape a pair of resolved slices selects.
pub fn slices_shape(slices: &[AxisSlice; 2]) -> (shape: [usize; 2])
    requires
        is_resolved(slices[0]),
        is_resolved(slices[1]),
    ensures
        shape[0] == slices[0].end->0 - slices[0].start,
        shape[1] == slices[1].end->0 - slices[1].start,
{
    [slice_size(&slices[0]), slice_size(&slices[1])]
}

} // verus!
