//! Dense four-dimensional voxel storage.
//!
//! A voxel is kept as the 32 bits of its IEEE 754 single-precision
//! intensity, so storing and moving a voxel never rounds it.

use crate::nifti::VoxelDimensions;
use vstd::prelude::*;

verus! {

/// The array that backs a [`Volume`]: a four-dimensional `ndarray` array in
/// column-major order. Its contents are opaque to proofs, which speak of
/// them through [`array_extent`] and [`array_cells`].
#[verifier::external_body]
pub struct VoxelArray {
    cells: ndarray::Array4<u32>,
}

/// The lengths of the four axes of `a`, first axis first.
pub uninterp spec fn array_extent(a: VoxelArray) -> (nat, nat, nat, nat);

/// The element of `a` at each index `(i, j, k, t)` within its extent.
pub uninterp spec fn array_cells(a: VoxelArray) -> Map<(int, int, int, int), u32>;

/// `(i, j, k, t)` lies within `extent`.
pub open spec fn within(extent: (nat, nat, nat, nat), i: int, j: int, k: int, t: int) -> bool {
    &&& 0 <= i < extent.0
    &&& 0 <= j < extent.1
    &&& 0 <= k < extent.2
    &&& 0 <= t < extent.3
}

/// `ndarray::ArrayBase::zeros` on the shape that `ShapeBuilder::f` marks
/// column-major. Claimed: the array has the four lengths asked for and
/// every element is zero. The call panics when the product of the
/// non-zero lengths exceeds `isize::MAX`, and its buffer takes four bytes
/// for each element, so both are required to fit. Like any allocation it
/// aborts where the memory cannot be had.
#[verifier::external_body]
fn array_zeros(dims: VoxelDimensions) -> (a: VoxelArray)
    requires
        dims.addressable(),
    ensures
        array_extent(a) == (
            dims.rows as nat,
            dims.columns as nat,
            dims.slices as nat,
            dims.timepoints as nat,
        ),
        array_cells(a) == Map::new(
            |key: (int, int, int, int)| within(array_extent(a), key.0, key.1, key.2, key.3),
            |key: (int, int, int, int)| 0u32,
        ),
{
    let shape = (dims.rows, dims.columns, dims.slices, dims.timepoints);
    VoxelArray { cells: ndarray::Array4::zeros(ndarray::ShapeBuilder::f(shape)) }
}

/// `ndarray::ArrayBase::dim`. Claimed: it returns the four axis lengths,
/// first axis first.
#[verifier::external_body]
fn array_dim(a: &VoxelArray) -> (d: (usize, usize, usize, usize))
    ensures
        array_extent(*a) == (d.0 as nat, d.1 as nat, d.2 as nat, d.3 as nat),
{
    a.cells.dim()
}

/// `Index::index` of `ndarray::ArrayBase` with the index `[i, j, k, t]`.
/// Claimed: it returns the element at that index. Indexing panics outside
/// the extent, which is excluded.
#[verifier::external_body]
fn array_get(a: &VoxelArray, i: usize, j: usize, k: usize, t: usize) -> (value: u32)
    requires
        within(array_extent(*a), i as int, j as int, k as int, t as int),
    ensures
        value == array_cells(*a)[(i as int, j as int, k as int, t as int)],
{
    a.cells[[i, j, k, t]]
}

/// `IndexMut::index_mut` of `ndarray::ArrayBase` with the index
/// `[i, j, k, t]`, assigned through. Claimed: that element becomes
/// `value`, every other element and the extent stay. Indexing panics
/// outside the extent, which is excluded, so the call does not unwind.
#[verifier::external_body]
fn array_set(a: &mut VoxelArray, i: usize, j: usize, k: usize, t: usize, value: u32)
    requires
        within(array_extent(*old(a)), i as int, j as int, k as int, t as int),
    ensures
        array_extent(*final(a)) == array_extent(*old(a)),
        array_cells(*final(a)) == array_cells(*old(a)).insert(
            (i as int, j as int, k as int, t as int),
            value,
        ),
    no_unwind
{
    a.cells[[i, j, k, t]] = value;
}

/// Decoded voxel intensities together with their dimensions. The
/// dimensions are fixed when the volume is made.
pub struct Volume {
    array: VoxelArray,
}

impl Volume {
    #[verifier::type_invariant]
    spec fn well_formed(self) -> bool {
        &&& array_extent(self.array).0 <= crate::nifti::MAX_AXIS_LENGTH
        &&& array_extent(self.array).1 <= crate::nifti::MAX_AXIS_LENGTH
        &&& array_extent(self.array).2 <= crate::nifti::MAX_AXIS_LENGTH
        &&& array_extent(self.array).3 <= crate::nifti::MAX_AXIS_LENGTH
    }

    /// The dimensions of this volume.
    pub closed spec fn dims(self) -> VoxelDimensions {
        VoxelDimensions {
            rows: array_extent(self.array).0 as usize,
            columns: array_extent(self.array).1 as usize,
            slices: array_extent(self.array).2 as usize,
            timepoints: array_extent(self.array).3 as usize,
        }
    }

    /// The bits of the voxel at `(i, j, k, t)`; meaningful where
    /// `self.dims().contains(i, j, k, t)`.
    pub closed spec fn at(self, i: int, j: int, k: int, t: int) -> u32 {
        array_cells(self.array)[(i, j, k, t)]
    }

    /// A volume of the given dimensions with every voxel zero, or `None`
    /// where such a volume cannot be addressed.
    pub fn zeroed(dims: VoxelDimensions) -> (made: Option<Volume>)
        ensures
            made.is_some() <==> dims.addressable(),
            made matches Some(v) ==> v.dims() == dims && forall|i: int, j: int, k: int, t: int|
                dims.contains(i, j, k, t) ==> #[trigger] v.at(i, j, k, t) == 0,
    {
        if !Self::can_address(dims) {
            return None;
        }
        let array = array_zeros(dims);
        Some(Volume { array })
    }

    /// Whether a volume of the given dimensions can be addressed.
    pub fn can_address(dims: VoxelDimensions) -> (fits: bool)
        ensures
            fits == dims.addressable(),
    {
        let limit: usize = crate::nifti::MAX_AXIS_LENGTH;
        if dims.rows > limit || dims.columns > limit || dims.slices > limit || dims.timepoints
            > limit {
            return false;
        }
        let r: u128 = if dims.rows == 0 { 1 } else { dims.rows as u128 };
        let c: u128 = if dims.columns == 0 { 1 } else { dims.columns as u128 };
        let s: u128 = if dims.slices == 0 { 1 } else { dims.slices as u128 };
        let t: u128 = if dims.timepoints == 0 { 1 } else { dims.timepoints as u128 };
        assert(r * c <= 0xFFFF * 0xFFFF) by (nonlinear_arith)
            requires
                r <= 0xFFFF,
                c <= 0xFFFF,
        ;
        let rc: u128 = r * c;
        assert(rc * s <= 0xFFFF * 0xFFFF * 0xFFFF) by (nonlinear_arith)
            requires
                rc <= 0xFFFF * 0xFFFF,
                s <= 0xFFFF,
        ;
        let rcs: u128 = rc * s;
        assert(rcs * t <= 0xFFFF * 0xFFFF * 0xFFFF * 0xFFFF) by (nonlinear_arith)
            requires
                rcs <= 0xFFFF * 0xFFFF * 0xFFFF,
                t <= 0xFFFF,
        ;
        let total: u128 = rcs * t;
        4 * total <= isize::MAX as u128
    }

    /// The dimensions of this volume.
    pub fn dimensions(&self) -> (dims: VoxelDimensions)
        ensures
            dims == self.dims(),
            dims.bounded(),
    {
        proof {
            use_type_invariant(self);
        }
        let d = array_dim(&self.array);
        VoxelDimensions { rows: d.0, columns: d.1, slices: d.2, timepoints: d.3 }
    }

    /// The bits of the voxel at `(i, j, k, t)`, or `None` outside the volume.
    pub fn voxel(&self, i: usize, j: usize, k: usize, t: usize) -> (found: Option<u32>)
        ensures
            found.is_some() <==> self.dims().contains(i as int, j as int, k as int, t as int),
            found matches Some(bits) ==> bits == self.at(i as int, j as int, k as int, t as int),
    {
        let d = self.dimensions();
        if i < d.rows && j < d.columns && k < d.slices && t < d.timepoints {
            Some(array_get(&self.array, i, j, k, t))
        } else {
            None
        }
    }

    /// The bits of the voxel at `(i, j, k, t)`, which lies inside the volume.
    pub fn get(&self, i: usize, j: usize, k: usize, t: usize) -> (bits: u32)
        requires
            self.dims().contains(i as int, j as int, k as int, t as int),
        ensures
            bits == self.at(i as int, j as int, k as int, t as int),
    {
        proof {
            use_type_invariant(self);
        }
        array_get(&self.array, i, j, k, t)
    }

    /// Stores `bits` at `(i, j, k, t)` and leaves every other voxel as it was.
    pub(crate) fn store(&mut self, i: usize, j: usize, k: usize, t: usize, bits: u32)
        requires
            old(self).dims().contains(i as int, j as int, k as int, t as int),
        ensures
            final(self).dims() == old(self).dims(),
            final(self).at(i as int, j as int, k as int, t as int) == bits,
            forall|a: int, b: int, c: int, d: int|
                (a, b, c, d) != (i as int, j as int, k as int, t as int)
                    ==> #[trigger] final(self).at(a, b, c, d) == old(self).at(a, b, c, d),
    {
        proof {
            use_type_invariant(&*self);
        }
        array_set(&mut self.array, i, j, k, t, bits);
    }
}

} // verus!
