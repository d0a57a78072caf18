//! # Tensor Data View Wrappers
use vstd::prelude::*;
use crate::compat::shape::{ravel_dims, ravel_from, valid_coords};

verus! {

/// Ravel Index View over row-major tensor data of rank `R`.
pub struct TensorDataIndexView<'a, E, const R: usize> {
    data: &'a [E],
    dims: &'a [usize],
}

impl<'a, E, const R: usize> TensorDataIndexView<'a, E, R> {
    /// The viewed entries, in row-major order.
    pub closed spec fn spec_data(&self) -> Seq<E> {
        self.data@
    }

    /// The dimensions of the viewed data.
    pub closed spec fn spec_dims(&self) -> Seq<usize> {
        self.dims@
    }

    /// Get an indexed view of row-major `data` with dimensions `dims`.
    pub fn view(data: &'a [E], dims: &'a [usize]) -> (v: TensorDataIndexView<'a, E, R>)
        ensures
            v.spec_data() == data@,
            v.spec_dims() == dims@,
    {
        TensorDataIndexView { data, dims }
    }

    /// The entry at the given coordinates; negative coordinates count from the
    /// end of their dimension.
    pub fn index(&self, index: [isize; R]) -> (e: &E)
        requires
            valid_coords(self.spec_dims(), index@),
            ravel_from(self.spec_dims(), index@, 0) < self.spec_data().len(),
        ensures
            *e == self.spec_data()[ravel_from(self.spec_dims(), index@, 0)],
    {
        let i = ravel_dims(self.dims, index);
        &self.data[i]
    }
}

} // verus!
