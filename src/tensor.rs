use vstd::prelude::*;

verus! {

/// A strided view into memory, as a tensor provider exposes it: the address
/// of its first element, one stride per axis (in elements) and the size of
/// one element in bytes. The rank is the number of strides.
#[derive(Clone, Debug, PartialEq, Eq, Hash)]
pub struct TensorView {
    pub base: usize,
    pub strides: Vec<isize>,
    pub item_size: usize,
}

impl TensorView {
    pub fn new(base: usize, strides: Vec<isize>, item_size: usize) -> (r: TensorView)
        ensures
            r.base == base,
            r.strides@ == strides@,
            r.item_size == item_size,
    {
        TensorView { base, strides, item_size }
    }

    /// Number of axes.
    pub fn rank(&self) -> (r: usize)
        ensures
            r == self.strides@.len(),
    {
        self.strides.len()
    }
}

} // verus!
