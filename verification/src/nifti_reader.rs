//! Streaming decode: a volume is filled one native unit of the stream at
//! a time. A three-dimensional scan arrives as planes, one per slice; a
//! four-dimensional scan arrives as sub-volumes, one per timepoint.

use crate::nifti::{Nifti, VoxelDimensions};
use crate::volume::Volume;
use vstd::arithmetic::div_mod::lemma_fundamental_div_mod;
use vstd::prelude::*;

verus! {

/// Why a load failed.
#[derive(Clone, Copy, Debug, PartialEq, Eq, Structural)]
pub enum DecodeError {
    /// The stream disagrees with its header: it declares a volume that
    /// cannot be addressed, ends early, or goes on past the declared end.
    MalformedSource,
    /// The header declares neither three nor four dimensions.
    UnsupportedDimensionality,
    /// A unit of the stream does not have the declared shape.
    ShapeMismatch,
}

/// One native unit of the stream: its axis lengths and its voxels, first
/// axis varying fastest.
#[derive(Clone, Debug, PartialEq, Eq)]
pub struct NativeSlice {
    pub shape: Vec<usize>,
    pub data: Vec<u32>,
}

/// The dimensions that a header declares; a header of three lengths
/// declares one timepoint.
pub open spec fn declared_dims(declared: Seq<u16>) -> VoxelDimensions {
    VoxelDimensions {
        rows: declared[0] as usize,
        columns: declared[1] as usize,
        slices: declared[2] as usize,
        timepoints: if declared.len() == 4 {
            declared[3] as usize
        } else {
            1
        },
    }
}

/// Where voxel `(i, j, k)` of a unit stands in the unit's data.
pub open spec fn unit_index(dims: VoxelDimensions, i: int, j: int, k: int) -> int {
    i + dims.rows * (j + dims.columns * k)
}

/// The shape that each unit of a stream of the given rank must have.
pub open spec fn unit_shape(dims: VoxelDimensions, rank: int) -> Seq<usize> {
    if rank == 3 {
        seq![dims.rows, dims.columns]
    } else {
        seq![dims.rows, dims.columns, dims.slices]
    }
}

/// The number of voxels in each unit of a stream of the given rank.
pub open spec fn unit_len(dims: VoxelDimensions, rank: int) -> int {
    if rank == 3 {
        dims.rows * dims.columns
    } else {
        dims.rows * dims.columns * dims.slices
    }
}

/// The number of units in a stream of the given rank.
pub open spec fn unit_count(dims: VoxelDimensions, rank: int) -> int {
    if rank == 3 {
        dims.slices as int
    } else {
        dims.timepoints as int
    }
}

/// The unit that holds voxel `(_, _, k, t)`, and the plane of that unit.
pub open spec fn unit_of(rank: int, k: int, t: int) -> (int, int) {
    if rank == 3 {
        (k, 0)
    } else {
        (t, k)
    }
}

impl NativeSlice {
    /// This unit has the shape and the length that the stream declares.
    pub open spec fn fits(self, dims: VoxelDimensions, rank: int) -> bool {
        &&& self.shape@ == unit_shape(dims, rank)
        &&& self.data@.len() == unit_len(dims, rank)
    }

    /// Whether this unit has the shape and the length that a stream of
    /// the given dimensions and rank declares.
    pub fn conforms(&self, dims: VoxelDimensions, rank: usize) -> (ok: bool)
        requires
            dims.bounded(),
        ensures
            ok == self.fits(dims, rank as int),
    {
        let axes: usize = if rank == 3 { 2 } else { 3 };
        if self.shape.len() != axes {
            return false;
        }
        if self.shape[0] != dims.rows || self.shape[1] != dims.columns {
            return false;
        }
        if rank != 3 && self.shape[2] != dims.slices {
            return false;
        }
        assert(self.shape@ =~= unit_shape(dims, rank as int));
        let depth: u64 = if rank == 3 { 1 } else { dims.slices as u64 };
        let r: u64 = dims.rows as u64;
        let c: u64 = dims.columns as u64;
        assert(r * c <= 0xFFFF * 0xFFFF) by (nonlinear_arith)
            requires
                r <= 0xFFFF,
                c <= 0xFFFF,
        ;
        let plane: u64 = r * c;
        assert(plane * depth <= 0xFFFF * 0xFFFF * 0xFFFF) by (nonlinear_arith)
            requires
                plane <= 0xFFFF * 0xFFFF,
                depth <= 0xFFFF,
        ;
        let expected: u64 = plane * depth;
        assert(plane * 1 == plane) by (nonlinear_arith);
        self.data.len() as u64 == expected
    }
}

/// The data index of a voxel of a unit lies within the unit.
pub proof fn lemma_unit_index_bound(dims: VoxelDimensions, depth: int, i: int, j: int, k: int)
    requires
        0 <= i < dims.rows,
        0 <= j < dims.columns,
        0 <= k < depth,
    ensures
        0 <= unit_index(dims, i, j, k) < dims.rows * dims.columns * depth,
{
    let r = dims.rows as int;
    let c = dims.columns as int;
    assert(0 <= i + r * (j + c * k) < r * c * depth) by (nonlinear_arith)
        requires
            0 <= i < r,
            0 <= j < c,
            0 <= k < depth,
    ;
}

/// Every place in the data of a unit is the data index of one of its
/// voxels.
pub proof fn lemma_unit_index_onto(dims: VoxelDimensions, depth: int, n: int) -> (voxel: (
    int,
    int,
    int,
))
    requires
        0 <= depth,
        0 <= n < dims.rows * dims.columns * depth,
    ensures
        0 <= voxel.0 < dims.rows,
        0 <= voxel.1 < dims.columns,
        0 <= voxel.2 < depth,
        unit_index(dims, voxel.0, voxel.1, voxel.2) == n,
{
    let r = dims.rows as int;
    let c = dims.columns as int;
    assert(r > 0 && c > 0) by (nonlinear_arith)
        requires
            0 <= n < r * c * depth,
            0 <= r,
            0 <= c,
            0 <= depth,
    ;
    let q = n / r;
    let i = n % r;
    let j = q % c;
    let k = q / c;
    lemma_fundamental_div_mod(n, r);
    lemma_fundamental_div_mod(q, c);
    assert(0 <= q) by (nonlinear_arith)
        requires
            n == r * q + i,
            0 <= i < r,
            0 <= n,
    ;
    assert(0 <= k) by (nonlinear_arith)
        requires
            q == c * k + j,
            0 <= j < c,
            0 <= q,
    ;
    assert(k < depth) by (nonlinear_arith)
        requires
            n == r * q + i,
            q == c * k + j,
            0 <= i,
            0 <= j,
            0 < r,
            0 < c,
            n < r * c * depth,
    ;
    (i, j, k)
}

/// Stepping to the next column, or to the next plane, continues the data
/// index where the last one ended.
pub proof fn lemma_unit_index_step(dims: VoxelDimensions, j: int, k: int)
    ensures
        unit_index(dims, 0, j + 1, k) == unit_index(dims, dims.rows as int, j, k),
        unit_index(dims, 0, 0, k + 1) == unit_index(dims, 0, dims.columns as int, k),
        unit_index(dims, 0, 0, 0) == 0,
{
    let r = dims.rows as int;
    let c = dims.columns as int;
    assert(r * (0 + c * 0) == 0) by (nonlinear_arith);
    assert(r * ((j + 1) + c * k) == r + r * (j + c * k)) by (nonlinear_arith);
    assert(r * (0 + c * (k + 1)) == r * (c + c * k)) by (nonlinear_arith);
}

/// Copies `depth` planes of `data` into timepoint `t` of `volume`,
/// starting at slice `first`.
fn copy_planes(volume: &mut Volume, data: &Vec<u32>, first: usize, depth: usize, t: usize)
    requires
        first + depth <= old(volume).dims().slices,
        t < old(volume).dims().timepoints,
        data@.len() == old(volume).dims().rows * old(volume).dims().columns * depth,
    ensures
        final(volume).dims() == old(volume).dims(),
        forall|a: int, b: int, c: int, d: int| #[trigger]
            final(volume).at(a, b, c, d) == if old(volume).dims().contains(a, b, c, d) && d == t
                && first <= c < first + depth {
                data@[unit_index(old(volume).dims(), a, b, c - first)]
            } else {
                old(volume).at(a, b, c, d)
            },
{
    let dims = volume.dimensions();
    let ghost before = *volume;
    let total: usize = data.len();
    proof {
        lemma_unit_index_step(dims, 0, 0);
    }
    let mut n: usize = 0;
    let mut k: usize = 0;
    while k < depth
        invariant
            k <= depth,
            volume.dims() == dims,
            dims == before.dims(),
            first + depth <= dims.slices,
            t < dims.timepoints,
            total == dims.rows * dims.columns * depth,
            total == data@.len(),
            n == unit_index(dims, 0, 0, k as int),
            forall|a: int, b: int, c: int, d: int| #[trigger]
                volume.at(a, b, c, d) == if dims.contains(a, b, c, d) && d == t && first <= c
                    < first + k {
                    data@[unit_index(dims, a, b, c - first)]
                } else {
                    before.at(a, b, c, d)
                },
        decreases depth - k,
    {
        let mut j: usize = 0;
        while j < dims.columns
            invariant
                k < depth,
                j <= dims.columns,
                volume.dims() == dims,
                dims == before.dims(),
                first + depth <= dims.slices,
                t < dims.timepoints,
                total == dims.rows * dims.columns * depth,
            total == data@.len(),
                n == unit_index(dims, 0, j as int, k as int),
                forall|a: int, b: int, c: int, d: int| #[trigger]
                    volume.at(a, b, c, d) == if dims.contains(a, b, c, d) && d == t && (first <= c
                        < first + k || (c == first + k && b < j)) {
                        data@[unit_index(dims, a, b, c - first)]
                    } else {
                        before.at(a, b, c, d)
                    },
            decreases dims.columns - j,
        {
            let mut i: usize = 0;
            while i < dims.rows
                invariant
                    k < depth,
                    j < dims.columns,
                    i <= dims.rows,
                    volume.dims() == dims,
                    dims == before.dims(),
                    first + depth <= dims.slices,
                    t < dims.timepoints,
                    total == dims.rows * dims.columns * depth,
            total == data@.len(),
                    n == unit_index(dims, i as int, j as int, k as int),
                    forall|a: int, b: int, c: int, d: int| #[trigger]
                        volume.at(a, b, c, d) == if dims.contains(a, b, c, d) && d == t && (first
                            <= c < first + k || (c == first + k && (b < j || (b == j && a < i)))) {
                            data@[unit_index(dims, a, b, c - first)]
                        } else {
                            before.at(a, b, c, d)
                        },
                decreases dims.rows - i,
            {
                proof {
                    lemma_unit_index_bound(dims, depth as int, i as int, j as int, k as int);
                }
                volume.store(i, j, first + k, t, data[n]);
                i = i + 1;
                n = n + 1;
            }
            proof {
                lemma_unit_index_step(dims, j as int, k as int);
            }
            j = j + 1;
        }
        proof {
            lemma_unit_index_step(dims, 0, k as int);
        }
        k = k + 1;
    }
}

/// The voxel that a stream of `units` assigns to `(i, j, k, t)`.
pub open spec fn decoded_voxel(
    units: Seq<NativeSlice>,
    dims: VoxelDimensions,
    rank: int,
    i: int,
    j: int,
    k: int,
    t: int,
) -> u32 {
    units[unit_of(rank, k, t).0].data@[unit_index(dims, i, j, unit_of(rank, k, t).1)]
}

/// Each of the first `upto` units, as far as there are that many, fits the
/// stream.
pub open spec fn all_fit(units: Seq<NativeSlice>, dims: VoxelDimensions, rank: int, upto: int) -> bool {
    forall|w: int| 0 <= w < upto && w < units.len() ==> (#[trigger] units[w]).fits(dims, rank)
}

/// A load in progress: the volume being filled and how far the stream
/// has got. Only [`StreamingDecoder::finish`] hands the volume out, and
/// only when every unit has arrived.
pub struct StreamingDecoder {
    volume: Volume,
    four: bool,
    consumed: usize,
}

impl StreamingDecoder {
    /// The number of dimensions that the header declared: 3 or 4.
    pub closed spec fn rank(&self) -> int {
        if self.four {
            4
        } else {
            3
        }
    }

    /// The number of units taken in so far.
    pub closed spec fn consumed(&self) -> int {
        self.consumed as int
    }

    /// The volume as filled so far.
    pub closed spec fn partial(&self) -> Volume {
        self.volume
    }

    /// The dimensions of the volume being filled.
    pub open spec fn target(&self) -> VoxelDimensions {
        self.partial().dims()
    }

    /// The number of units still to come.
    pub open spec fn remaining(&self) -> int {
        unit_count(self.target(), self.rank()) - self.consumed()
    }

    /// No more units were taken in than the header declares, and a
    /// three-dimensional scan has one timepoint.
    pub open spec fn wf(&self) -> bool {
        &&& 0 <= self.consumed() <= unit_count(self.target(), self.rank())
        &&& self.rank() == 3 || self.rank() == 4
        &&& self.rank() == 3 ==> self.target().timepoints == 1
        &&& self.target().bounded()
    }

    /// Starts a load for the dimensions that a header declares. The volume
    /// is allocated at once, every voxel zero.
    pub fn begin(declared: &[u16]) -> (started: Result<StreamingDecoder, DecodeError>)
        ensures
            match started {
                Ok(decoder) => {
                    &&& declared@.len() == 3 || declared@.len() == 4
                    &&& declared_dims(declared@).addressable()
                    &&& decoder.wf()
                    &&& decoder.rank() == declared@.len()
                    &&& decoder.target() == declared_dims(declared@)
                    &&& decoder.consumed() == 0
                    &&& forall|i: int, j: int, k: int, t: int|
                        decoder.target().contains(i, j, k, t) ==> #[trigger] decoder.partial().at(
                            i,
                            j,
                            k,
                            t,
                        ) == 0
                },
                Err(DecodeError::UnsupportedDimensionality) => declared@.len() != 3
                    && declared@.len() != 4,
                Err(DecodeError::MalformedSource) => (declared@.len() == 3 || declared@.len() == 4)
                    && !declared_dims(declared@).addressable(),
                Err(DecodeError::ShapeMismatch) => false,
            },
    {
        let rank = declared.len();
        if rank != 3 && rank != 4 {
            return Err(DecodeError::UnsupportedDimensionality);
        }
        let dims = VoxelDimensions {
            rows: declared[0] as usize,
            columns: declared[1] as usize,
            slices: declared[2] as usize,
            timepoints: if rank == 4 {
                declared[3] as usize
            } else {
                1
            },
        };
        match Volume::zeroed(dims) {
            Some(volume) => Ok(StreamingDecoder { volume, four: rank == 4, consumed: 0 }),
            None => Err(DecodeError::MalformedSource),
        }
    }

    /// The dimensions of the volume being filled.
    pub fn dimensions(&self) -> (dims: VoxelDimensions)
        ensures
            dims == self.target(),
            dims.bounded(),
    {
        self.volume.dimensions()
    }

    /// The shape that the next unit must have: rows and columns for a
    /// three-dimensional scan; rows, columns and slices for a
    /// four-dimensional one.
    pub fn expected_shape(&self) -> (shape: Vec<usize>)
        ensures
            shape@ == unit_shape(self.target(), self.rank()),
    {
        let dims = self.volume.dimensions();
        let mut shape: Vec<usize> = Vec::new();
        shape.push(dims.rows);
        shape.push(dims.columns);
        if self.four {
            shape.push(dims.slices);
        }
        assert(shape@ =~= unit_shape(self.target(), self.rank()));
        shape
    }

    /// The number of units still to come.
    pub fn slices_left(&self) -> (left: usize)
        requires
            self.wf(),
        ensures
            left == self.remaining(),
    {
        let dims = self.volume.dimensions();
        if self.four {
            dims.timepoints - self.consumed
        } else {
            dims.slices - self.consumed
        }
    }

    /// Takes in the next unit of the stream. A unit of the declared shape
    /// is copied to its place along the last axis: the next slice of a
    /// three-dimensional scan, the next timepoint of a four-dimensional
    /// one. Any other unit, and any unit past the declared end, is refused
    /// and leaves the load as it was.
    pub fn push(&mut self, unit: &NativeSlice) -> (pushed: Result<(), DecodeError>)
        requires
            old(self).wf(),
        ensures
            final(self).wf(),
            final(self).rank() == old(self).rank(),
            final(self).target() == old(self).target(),
            match pushed {
                Ok(_) => {
                    &&& old(self).remaining() > 0
                    &&& unit.fits(old(self).target(), old(self).rank())
                    &&& final(self).consumed() == old(self).consumed() + 1
                    &&& forall|a: int, b: int, c: int, d: int| #[trigger]
                        final(self).partial().at(a, b, c, d) == if old(self).target().contains(
                            a,
                            b,
                            c,
                            d,
                        ) && unit_of(old(self).rank(), c, d).0 == old(self).consumed() {
                            unit.data@[unit_index(
                                old(self).target(),
                                a,
                                b,
                                unit_of(old(self).rank(), c, d).1,
                            )]
                        } else {
                            old(self).partial().at(a, b, c, d)
                        }
                },
                Err(DecodeError::MalformedSource) => old(self).remaining() == 0 && *final(self)
                    == *old(self),
                Err(DecodeError::ShapeMismatch) => old(self).remaining() > 0 && !unit.fits(
                    old(self).target(),
                    old(self).rank(),
                ) && *final(self) == *old(self),
                Err(DecodeError::UnsupportedDimensionality) => false,
            },
    {
        if self.slices_left() == 0 {
            return Err(DecodeError::MalformedSource);
        }
        let dims = self.volume.dimensions();
        let rank: usize = if self.four { 4 } else { 3 };
        if !unit.conforms(dims, rank) {
            return Err(DecodeError::ShapeMismatch);
        }
        if self.four {
            copy_planes(&mut self.volume, &unit.data, 0, dims.slices, self.consumed);
        } else {
            copy_planes(&mut self.volume, &unit.data, self.consumed, 1, 0);
        }
        self.consumed = self.consumed + 1;
        Ok(())
    }

    /// Ends the load. The volume is handed out only when every declared
    /// unit has arrived; a stream that ended early is malformed.
    pub fn finish(self) -> (loaded: Result<Nifti, DecodeError>)
        requires
            self.wf(),
        ensures
            loaded.is_ok() <==> self.remaining() == 0,
            loaded matches Ok(nifti) ==> nifti.volume == self.partial(),
            loaded matches Err(e) ==> e == DecodeError::MalformedSource,
    {
        if self.slices_left() != 0 {
            return Err(DecodeError::MalformedSource);
        }
        Ok(Nifti { volume: self.volume })
    }
}

/// Decodes a whole stream: the header's dimensions, then the units in the
/// order in which they arrive. The result is either a volume in which
/// every voxel comes from its unit, or an error; the first unit that does
/// not fit decides the error.
pub fn decode_all(declared: &[u16], units: &Vec<NativeSlice>) -> (loaded: Result<Nifti, DecodeError>)
    ensures
        match loaded {
            Ok(nifti) => {
                let dims = declared_dims(declared@);
                let rank = declared@.len() as int;
                &&& rank == 3 || rank == 4
                &&& dims.addressable()
                &&& units@.len() == unit_count(dims, rank)
                &&& all_fit(units@, dims, rank, unit_count(dims, rank))
                &&& nifti.volume.dims() == dims
                &&& forall|i: int, j: int, k: int, t: int|
                    dims.contains(i, j, k, t) ==> #[trigger] nifti.volume.at(i, j, k, t)
                        == decoded_voxel(units@, dims, rank, i, j, k, t)
            },
            Err(DecodeError::UnsupportedDimensionality) => declared@.len() != 3 && declared@.len()
                != 4,
            Err(DecodeError::MalformedSource) => {
                let dims = declared_dims(declared@);
                let rank = declared@.len() as int;
                &&& rank == 3 || rank == 4
                &&& !dims.addressable() || (all_fit(units@, dims, rank, unit_count(dims, rank))
                    && units@.len() != unit_count(dims, rank))
            },
            Err(DecodeError::ShapeMismatch) => {
                let dims = declared_dims(declared@);
                let rank = declared@.len() as int;
                &&& rank == 3 || rank == 4
                &&& dims.addressable()
                &&& !all_fit(units@, dims, rank, unit_count(dims, rank))
            },
        },
{
    let mut decoder = match StreamingDecoder::begin(declared) {
        Ok(decoder) => decoder,
        Err(e) => {
            return Err(e);
        },
    };
    let ghost dims = declared_dims(declared@);
    let ghost rank = declared@.len() as int;
    let mut u: usize = 0;
    while u < units.len()
        invariant
            u <= units.len(),
            decoder.wf(),
            decoder.rank() == rank,
            decoder.target() == dims,
            decoder.consumed() == u,
            rank == 3 || rank == 4,
            dims.addressable(),
            dims == declared_dims(declared@),
            rank == declared@.len(),
            all_fit(units@, dims, rank, u as int),
            forall|i: int, j: int, k: int, t: int|
                dims.contains(i, j, k, t) && unit_of(rank, k, t).0 < u
                    ==> #[trigger] decoder.partial().at(i, j, k, t) == decoded_voxel(
                    units@,
                    dims,
                    rank,
                    i,
                    j,
                    k,
                    t,
                ),
        decreases units.len() - u,
    {
        match decoder.push(&units[u]) {
            Ok(_) => {},
            Err(e) => {
                proof {
                    if e == DecodeError::ShapeMismatch {
                        assert(!units@[u as int].fits(dims, rank));
                    }
                }
                return Err(e);
            },
        }
        u = u + 1;
    }
    match decoder.finish() {
        Ok(nifti) => Ok(nifti),
        Err(e) => Err(e),
    }
}

} // verus!
