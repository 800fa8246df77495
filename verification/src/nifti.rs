//! Volume extents, anatomical axes, display rotation and the summary of
//! a loaded scan.

use crate::volume::Volume;
use vstd::prelude::*;

verus! {

/// Largest length an axis of a volume can have.
pub const MAX_AXIS_LENGTH: usize = 0xFFFF;

/// Lengths of the four logical axes of a volume. A three-dimensional scan
/// has exactly one timepoint.
#[derive(Clone, Copy, Debug, PartialEq, Eq, Structural)]
pub struct VoxelDimensions {
    pub rows: usize,
    pub columns: usize,
    pub slices: usize,
    pub timepoints: usize,
}

/// `n`, or one where `n` is zero.
pub open spec fn at_least_one(n: int) -> int {
    if n == 0 {
        1
    } else {
        n
    }
}

impl VoxelDimensions {
    /// Product of the axis lengths that are not zero.
    pub open spec fn nonzero_product(self) -> int {
        at_least_one(self.rows as int) * at_least_one(self.columns as int) * at_least_one(
            self.slices as int,
        ) * at_least_one(self.timepoints as int)
    }

    /// No axis is longer than [`MAX_AXIS_LENGTH`].
    pub open spec fn bounded(self) -> bool {
        &&& self.rows <= MAX_AXIS_LENGTH
        &&& self.columns <= MAX_AXIS_LENGTH
        &&& self.slices <= MAX_AXIS_LENGTH
        &&& self.timepoints <= MAX_AXIS_LENGTH
    }

    /// A volume of these dimensions can be held in memory: the axes are
    /// bounded and four bytes per voxel stay within `isize::MAX`, counting
    /// an empty axis as one.
    pub open spec fn addressable(self) -> bool {
        &&& self.bounded()
        &&& 4 * self.nonzero_product() <= isize::MAX
    }

    /// `(i, j, k, t)` names a voxel of a volume of these dimensions.
    pub open spec fn contains(self, i: int, j: int, k: int, t: int) -> bool {
        &&& 0 <= i < self.rows
        &&& 0 <= j < self.columns
        &&& 0 <= k < self.slices
        &&& 0 <= t < self.timepoints
    }
}

/// One of the three canonical viewing planes through a volume. Each
/// holds one spatial axis of the volume constant.
#[derive(Clone, Copy, Debug, PartialEq, Eq, Structural)]
pub enum AnatomicalAxis {
    /// XY plane, constant Z.
    Axial,
    /// XZ plane, constant Y.
    Coronal,
    /// YZ plane, constant X.
    Sagittal,
}

/// How a plane lies in a volume: the volume axis that it holds constant,
/// and the two that run along its horizontal and vertical display axes.
/// Volume axes are numbered 0 (rows, X), 1 (columns, Y) and 2 (slices, Z).
#[derive(Clone, Copy, Debug, PartialEq, Eq, Structural)]
pub struct PlaneLayout {
    pub constant: usize,
    pub horizontal: usize,
    pub vertical: usize,
}

impl PlaneLayout {
    /// The three entries are the three volume axes, each once, and the
    /// horizontal axis comes before the vertical one.
    pub open spec fn is_permutation(self) -> bool {
        &&& self.constant < 3 && self.horizontal < 3 && self.vertical < 3
        &&& self.constant != self.horizontal
        &&& self.constant != self.vertical
        &&& self.horizontal < self.vertical
    }

    /// The index along volume axis `axis` of the plane's pixel `(x, y)`,
    /// the plane lying at `coordinate`.
    pub open spec fn index_along(self, axis: int, coordinate: int, x: int, y: int) -> int {
        if axis == self.constant {
            coordinate
        } else if axis == self.horizontal {
            x
        } else {
            y
        }
    }

    /// The index along volume axis `axis` of the plane's pixel `(x, y)`.
    pub fn pick(&self, axis: usize, coordinate: usize, x: usize, y: usize) -> (index: usize)
        ensures
            index == self.index_along(axis as int, coordinate as int, x as int, y as int),
    {
        if axis == self.constant {
            coordinate
        } else if axis == self.horizontal {
            x
        } else {
            y
        }
    }
}

impl VoxelDimensions {
    /// The length of spatial axis 0, 1 or 2.
    pub open spec fn axis_length(self, axis: int) -> int {
        if axis == 0 {
            self.rows as int
        } else if axis == 1 {
            self.columns as int
        } else {
            self.slices as int
        }
    }

    /// The length of spatial axis 0, 1 or 2.
    pub fn length_of(&self, axis: usize) -> (length: usize)
        ensures
            length == self.axis_length(axis as int),
    {
        if axis == 0 {
            self.rows
        } else if axis == 1 {
            self.columns
        } else {
            self.slices
        }
    }
}

impl AnatomicalAxis {
    /// The integer that stands for this axis at a serialization boundary.
    pub open spec fn code(self) -> u32 {
        match self {
            AnatomicalAxis::Axial => 0,
            AnatomicalAxis::Coronal => 1,
            AnatomicalAxis::Sagittal => 2,
        }
    }

    /// Encodes this axis as 0 (axial), 1 (coronal) or 2 (sagittal).
    pub fn encode(self) -> (code: u32)
        ensures
            code == self.code(),
    {
        match self {
            AnatomicalAxis::Axial => 0,
            AnatomicalAxis::Coronal => 1,
            AnatomicalAxis::Sagittal => 2,
        }
    }

    /// The axis that a code stands for, if any.
    pub fn decode(code: u32) -> (axis: Option<AnatomicalAxis>)
        ensures
            axis.is_some() <==> code <= 2,
            axis matches Some(a) ==> a.code() == code,
    {
        if code == 0 {
            Some(AnatomicalAxis::Axial)
        } else if code == 1 {
            Some(AnatomicalAxis::Coronal)
        } else if code == 2 {
            Some(AnatomicalAxis::Sagittal)
        } else {
            None
        }
    }

    /// The fixed table of plane layouts. Of the two volume axes that lie
    /// in a plane, the one of lower number is shown horizontally: an axial
    /// plane shows X across and Y down, a coronal plane X across and Z
    /// down, a sagittal plane Y across and Z down.
    pub open spec fn plane(self) -> PlaneLayout {
        match self {
            AnatomicalAxis::Axial => PlaneLayout { constant: 2, horizontal: 0, vertical: 1 },
            AnatomicalAxis::Coronal => PlaneLayout { constant: 1, horizontal: 0, vertical: 2 },
            AnatomicalAxis::Sagittal => PlaneLayout { constant: 0, horizontal: 1, vertical: 2 },
        }
    }

    /// The layout of this axis's planes.
    pub fn layout(self) -> (layout: PlaneLayout)
        ensures
            layout == self.plane(),
            layout.is_permutation(),
    {
        match self {
            AnatomicalAxis::Axial => PlaneLayout { constant: 2, horizontal: 0, vertical: 1 },
            AnatomicalAxis::Coronal => PlaneLayout { constant: 1, horizontal: 0, vertical: 2 },
            AnatomicalAxis::Sagittal => PlaneLayout { constant: 0, horizontal: 1, vertical: 2 },
        }
    }

    /// The number of planes along this axis.
    pub open spec fn depth(self, dims: VoxelDimensions) -> int {
        dims.axis_length(self.plane().constant as int)
    }

    /// The width of this axis's planes.
    pub open spec fn width(self, dims: VoxelDimensions) -> int {
        dims.axis_length(self.plane().horizontal as int)
    }

    /// The height of this axis's planes.
    pub open spec fn height(self, dims: VoxelDimensions) -> int {
        dims.axis_length(self.plane().vertical as int)
    }

    /// The width and the height of this axis's planes: rows by columns for
    /// axial, rows by slices for coronal, columns by slices for sagittal.
    pub fn plane_extent(self, dims: &VoxelDimensions) -> (extent: (usize, usize))
        ensures
            extent.0 == self.width(*dims),
            extent.1 == self.height(*dims),
            extent == match self {
                AnatomicalAxis::Axial => (dims.rows, dims.columns),
                AnatomicalAxis::Coronal => (dims.rows, dims.slices),
                AnatomicalAxis::Sagittal => (dims.columns, dims.slices),
            },
    {
        let layout = self.layout();
        (dims.length_of(layout.horizontal), dims.length_of(layout.vertical))
    }

    /// The number of planes along this axis: the slices for axial, the
    /// columns for coronal, the rows for sagittal.
    pub fn dimension_length(self, dims: &VoxelDimensions) -> (length: usize)
        ensures
            length == self.depth(*dims),
            length == match self {
                AnatomicalAxis::Axial => dims.slices,
                AnatomicalAxis::Coronal => dims.columns,
                AnatomicalAxis::Sagittal => dims.rows,
            },
    {
        dims.length_of(self.layout().constant)
    }
}

/// A cursor position in voxel space.
#[derive(Clone, Copy, Debug, PartialEq, Eq, Structural)]
pub struct FocalPoint {
    pub x: u16,
    pub y: u16,
    pub z: u16,
}

impl FocalPoint {
    /// The coordinate that selects the plane through this point along
    /// `axis`: `z` for axial, `y` for coronal, `x` for sagittal.
    pub fn get_coordinate(&self, axis: AnatomicalAxis) -> (coordinate: u16)
        ensures
            coordinate == match axis {
                AnatomicalAxis::Axial => self.z,
                AnatomicalAxis::Coronal => self.y,
                AnatomicalAxis::Sagittal => self.x,
            },
            coordinate as int == axis.plane().index_along(
                axis.plane().constant as int,
                coordinate as int,
                self.x as int,
                self.y as int,
            ),
    {
        match axis {
            AnatomicalAxis::Axial => self.z,
            AnatomicalAxis::Coronal => self.y,
            AnatomicalAxis::Sagittal => self.x,
        }
    }
}

/// A display rotation of a plane, clockwise, in quarter turns.
#[derive(Clone, Copy, Debug, PartialEq, Eq, Structural)]
pub enum Rotation {
    Rotate0,
    Rotate90,
    Rotate180,
    Rotate270,
}

impl Rotation {
    /// The number of clockwise quarter turns, which is also the integer
    /// that stands for this rotation at a serialization boundary.
    pub open spec fn quarter_turns(self) -> u32 {
        match self {
            Rotation::Rotate0 => 0,
            Rotation::Rotate90 => 1,
            Rotation::Rotate180 => 2,
            Rotation::Rotate270 => 3,
        }
    }

    /// Encodes this rotation as its number of quarter turns.
    pub fn encode(self) -> (code: u32)
        ensures
            code == self.quarter_turns(),
    {
        match self {
            Rotation::Rotate0 => 0,
            Rotation::Rotate90 => 1,
            Rotation::Rotate180 => 2,
            Rotation::Rotate270 => 3,
        }
    }

    /// The rotation that turns as much as `self` and `next` together.
    pub open spec fn followed_by(self, next: Rotation) -> Rotation {
        let turns = (self.quarter_turns() + next.quarter_turns()) % 4;
        if turns == 0 {
            Rotation::Rotate0
        } else if turns == 1 {
            Rotation::Rotate90
        } else if turns == 2 {
            Rotation::Rotate180
        } else {
            Rotation::Rotate270
        }
    }

    /// The rotation that turns as much as `self` and then `next`.
    pub fn then(self, next: Rotation) -> (both: Rotation)
        ensures
            both == self.followed_by(next),
            both.quarter_turns() == (self.quarter_turns() + next.quarter_turns()) % 4,
    {
        let turns: u32 = (self.encode() + next.encode()) % 4;
        if turns == 0 {
            Rotation::Rotate0
        } else if turns == 1 {
            Rotation::Rotate90
        } else if turns == 2 {
            Rotation::Rotate180
        } else {
            Rotation::Rotate270
        }
    }

    /// The rotation that a code stands for, if any.
    pub fn decode(code: u32) -> (rotation: Option<Rotation>)
        ensures
            rotation.is_some() <==> code <= 3,
            rotation matches Some(r) ==> r.quarter_turns() == code,
    {
        if code == 0 {
            Some(Rotation::Rotate0)
        } else if code == 1 {
            Some(Rotation::Rotate90)
        } else if code == 2 {
            Some(Rotation::Rotate180)
        } else if code == 3 {
            Some(Rotation::Rotate270)
        } else {
            None
        }
    }
}

/// The bits of positive infinity. An intensity takes part in a maximum
/// when its bits are at most these: then it is neither negative nor NaN,
/// and of two such intensities the one with the larger bits is the larger.
pub const POSITIVE_INFINITY_BITS: u32 = 0x7F80_0000;

/// `bits` is an intensity that is neither negative nor NaN.
pub open spec fn takes_part(bits: u32) -> bool {
    bits <= POSITIVE_INFINITY_BITS
}

/// `m` is the running maximum of the voxels of `volume`, started at
/// zero: it bounds every voxel that takes part, and it is zero or one of
/// the voxels.
pub open spec fn is_maximum(volume: Volume, m: u32) -> bool {
    &&& takes_part(m)
    &&& forall|i: int, j: int, k: int, t: int|
        volume.dims().contains(i, j, k, t) && takes_part(#[trigger] volume.at(i, j, k, t))
            ==> volume.at(i, j, k, t) <= m
    &&& m == 0 || exists|i: int, j: int, k: int, t: int|
        volume.dims().contains(i, j, k, t) && #[trigger] volume.at(i, j, k, t) == m
}

/// A volume has one maximum.
pub proof fn lemma_one_maximum(volume: Volume, first: u32, second: u32)
    requires
        is_maximum(volume, first),
        is_maximum(volume, second),
    ensures
        first == second,
{
    if first != 0 {
        let w = choose|i: int, j: int, k: int, t: int|
            volume.dims().contains(i, j, k, t) && #[trigger] volume.at(i, j, k, t) == first;
        assert(takes_part(volume.at(w.0, w.1, w.2, w.3)));
        assert(first <= second);
    }
    if second != 0 {
        let w = choose|i: int, j: int, k: int, t: int|
            volume.dims().contains(i, j, k, t) && #[trigger] volume.at(i, j, k, t) == second;
        assert(takes_part(volume.at(w.0, w.1, w.2, w.3)));
        assert(second <= first);
    }
}

/// Summary of a loaded scan: its dimensions and the bits of its largest
/// intensity.
#[derive(Clone, Copy, Debug, PartialEq, Eq, Structural)]
pub struct NiftiProperies {
    pub dimensions: VoxelDimensions,
    pub maximum: u32,
}

/// A loaded scan.
pub struct Nifti {
    pub volume: Volume,
}

/// `(a, b, c, d)` comes before `(i, j, k, t)` when the first axis varies
/// fastest.
pub open spec fn visited(a: int, b: int, c: int, d: int, i: int, j: int, k: int, t: int) -> bool {
    d < t || (d == t && (c < k || (c == k && (b < j || (b == j && a < i)))))
}

impl Nifti {
    /// The dimensions and the largest intensity of this scan.
    pub fn get_properties(&self) -> (properties: NiftiProperies)
        ensures
            properties.dimensions == self.volume.dims(),
            is_maximum(self.volume, properties.maximum),
    {
        let maximum = self.get_max_intensity();
        let dimensions = self.volume.dimensions();
        NiftiProperies { dimensions, maximum }
    }

    /// The bits of the largest intensity of this scan, zero where no voxel
    /// is positive. Negative voxels and NaN never raise the maximum.
    pub fn get_max_intensity(&self) -> (maximum: u32)
        ensures
            is_maximum(self.volume, maximum),
    {
        let dims = self.volume.dimensions();
        let mut maximum: u32 = 0;
        let ghost mut witness: (int, int, int, int) = (0, 0, 0, 0);
        let mut t: usize = 0;
        while t < dims.timepoints
            invariant
                t <= dims.timepoints,
                dims == self.volume.dims(),
                takes_part(maximum),
                forall|a: int, b: int, c: int, d: int|
                    dims.contains(a, b, c, d) && visited(a, b, c, d, 0, 0, 0, t as int)
                        && takes_part(#[trigger] self.volume.at(a, b, c, d)) ==> self.volume.at(
                        a,
                        b,
                        c,
                        d,
                    ) <= maximum,
                maximum == 0 || (dims.contains(witness.0, witness.1, witness.2, witness.3)
                    && self.volume.at(witness.0, witness.1, witness.2, witness.3) == maximum),
            decreases dims.timepoints - t,
        {
            let mut k: usize = 0;
            while k < dims.slices
                invariant
                    t < dims.timepoints,
                    k <= dims.slices,
                    dims == self.volume.dims(),
                    takes_part(maximum),
                    forall|a: int, b: int, c: int, d: int|
                        dims.contains(a, b, c, d) && visited(a, b, c, d, 0, 0, k as int, t as int)
                            && takes_part(#[trigger] self.volume.at(a, b, c, d))
                            ==> self.volume.at(a, b, c, d) <= maximum,
                    maximum == 0 || (dims.contains(witness.0, witness.1, witness.2, witness.3)
                        && self.volume.at(witness.0, witness.1, witness.2, witness.3) == maximum),
                decreases dims.slices - k,
            {
                let mut j: usize = 0;
                while j < dims.columns
                    invariant
                        t < dims.timepoints,
                        k < dims.slices,
                        j <= dims.columns,
                        dims == self.volume.dims(),
                        takes_part(maximum),
                        forall|a: int, b: int, c: int, d: int|
                            dims.contains(a, b, c, d) && visited(
                                a,
                                b,
                                c,
                                d,
                                0,
                                j as int,
                                k as int,
                                t as int,
                            ) && takes_part(#[trigger] self.volume.at(a, b, c, d))
                                ==> self.volume.at(a, b, c, d) <= maximum,
                        maximum == 0 || (dims.contains(witness.0, witness.1, witness.2, witness.3)
                            && self.volume.at(witness.0, witness.1, witness.2, witness.3)
                            == maximum),
                    decreases dims.columns - j,
                {
                    let mut i: usize = 0;
                    while i < dims.rows
                        invariant
                            t < dims.timepoints,
                            k < dims.slices,
                            j < dims.columns,
                            i <= dims.rows,
                            dims == self.volume.dims(),
                            takes_part(maximum),
                            forall|a: int, b: int, c: int, d: int|
                                dims.contains(a, b, c, d) && visited(
                                    a,
                                    b,
                                    c,
                                    d,
                                    i as int,
                                    j as int,
                                    k as int,
                                    t as int,
                                ) && takes_part(#[trigger] self.volume.at(a, b, c, d))
                                    ==> self.volume.at(a, b, c, d) <= maximum,
                            maximum == 0 || (dims.contains(
                                witness.0,
                                witness.1,
                                witness.2,
                                witness.3,
                            ) && self.volume.at(witness.0, witness.1, witness.2, witness.3)
                                == maximum),
                        decreases dims.rows - i,
                    {
                        let bits = self.volume.get(i, j, k, t);
                        if bits <= POSITIVE_INFINITY_BITS && bits > maximum {
                            maximum = bits;
                            proof {
                                witness = (i as int, j as int, k as int, t as int);
                            }
                        }
                        i = i + 1;
                    }
                    j = j + 1;
                }
                k = k + 1;
            }
            t = t + 1;
        }
        maximum
    }
}

} // verus!
