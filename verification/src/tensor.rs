//! A minimal owned numeric array: a flat data buffer plus a shape.

use vstd::prelude::*;

verus! {

/// Product of the dimension sizes of a shape; the number of elements a
/// tensor of that shape holds.  An empty shape describes a scalar, so
/// the empty product is `1`.
pub open spec fn shape_product(s: Seq<usize>) -> nat
    decreases s.len(),
{
    if s.len() == 0 {
        1
    } else {
        shape_product(s.drop_last()) * (s.last() as nat)
    }
}

/// An owned flat buffer of scalars together with the ordered dimension
/// sizes describing how it is to be read as a multi-dimensional array.
/// Immutable after construction.
#[derive(Debug)]
pub struct Tensor<T> {
    pub data: Vec<T>,
    pub shape: Vec<usize>,
}

impl<T> Tensor<T> {
    /// The tensor invariant: the buffer holds exactly one scalar per
    /// element of the shape.
    pub open spec fn well_formed(self) -> bool {
        self.data@.len() == shape_product(self.shape@)
    }

    /// Wraps a buffer and a shape.  Shape/size consistency is the
    /// caller's obligation; the decoder establishes it before calling.
    pub fn new(data: Vec<T>, shape: Vec<usize>) -> (t: Tensor<T>)
        requires
            data@.len() == shape_product(shape@),
        ensures
            t.data == data,
            t.shape == shape,
            t.well_formed(),
    {
        Tensor { data, shape }
    }
}

} // verus!
