//! Dense multi-axis arrays, flattened row-major.
//!
//! An array is its flat storage together with its axis extents.  The
//! well-formedness predicate ties the two: the storage holds exactly one
//! element per logical position.

use vstd::prelude::*;

verus! {

/// The number of logical elements of an array with the given axis extents.
pub open spec fn dims_product(dims: Seq<usize>) -> int
    decreases dims.len(),
{
    if dims.len() == 0 {
        1
    } else {
        (dims[0] as int) * dims_product(dims.drop_first())
    }
}

/// For two axes the element count is the product of the two extents.
pub proof fn lemma_dims_product2(dims: Seq<usize>)
    requires
        dims.len() == 2,
    ensures
        dims_product(dims) == (dims[0] as int) * (dims[1] as int),
{
    let d1 = dims.drop_first();
    let d2 = d1.drop_first();
    assert(d2.len() == 0);
    assert(dims_product(d2) == 1);
    assert(dims_product(d1) == (d1[0] as int) * dims_product(d2));
    assert(d1[0] == dims[1]);
}

/// For three axes the element count is the product of the three extents.
pub proof fn lemma_dims_product3(dims: Seq<usize>)
    requires
        dims.len() == 3,
    ensures
        dims_product(dims) == (dims[0] as int) * (dims[1] as int) * (dims[2] as int),
{
    let d1 = dims.drop_first();
    lemma_dims_product2(d1);
    assert(d1[0] == dims[1]);
    assert(d1[1] == dims[2]);
    assert(dims_product(dims) == (dims[0] as int) * dims_product(d1));
    assert((dims[0] as int) * ((dims[1] as int) * (dims[2] as int))
        == (dims[0] as int) * (dims[1] as int) * (dims[2] as int)) by (nonlinear_arith);
}

/// A dense array of binary64 values, held as bit patterns, flattened
/// row-major, together with its axis extents.
pub struct ValueArray {
    pub dims: Vec<usize>,
    pub data: Vec<u64>,
}

impl ValueArray {
    /// The flat storage holds exactly one value per logical element.
    pub open spec fn wf(&self) -> bool {
        self.data@.len() == dims_product(self.dims@)
    }
}

/// A dense array of unsigned 16-bit coordinates, flattened row-major,
/// together with its axis extents.
pub struct CoordArray {
    pub dims: Vec<usize>,
    pub data: Vec<u16>,
}

impl CoordArray {
    /// The flat storage holds exactly one value per logical element.
    pub open spec fn wf(&self) -> bool {
        self.data@.len() == dims_product(self.dims@)
    }
}

} // verus!
