//! What a renderer needs to take one timepoint of a volume as a
//! three-dimensional texture: its extent and its texels in upload order.

use crate::nifti::VoxelDimensions;
use crate::nifti_reader::{lemma_unit_index_onto, lemma_unit_index_step, unit_index};
use crate::volume::Volume;
use vstd::prelude::*;

verus! {

/// The extent of the texture of one timepoint and the strides of its
/// upload buffer. A texel takes four bytes.
#[derive(Clone, Copy, Debug, PartialEq, Eq, Structural)]
pub struct TextureLayout {
    pub width: u32,
    pub height: u32,
    pub depth: u32,
    pub bytes_per_row: u32,
    pub rows_per_image: u32,
}

/// The layout for a volume of the given dimensions: rows run along the
/// texture's width, columns along its height, slices along its depth.
pub open spec fn layout_of(dims: VoxelDimensions) -> TextureLayout {
    TextureLayout {
        width: dims.rows as u32,
        height: dims.columns as u32,
        depth: dims.slices as u32,
        bytes_per_row: (4 * dims.rows) as u32,
        rows_per_image: dims.columns as u32,
    }
}

/// The texture layout of `volume`.
pub fn texture_layout(volume: &Volume) -> (layout: TextureLayout)
    ensures
        layout == layout_of(volume.dims()),
        layout.width == volume.dims().rows,
        layout.height == volume.dims().columns,
        layout.depth == volume.dims().slices,
        layout.bytes_per_row == 4 * volume.dims().rows,
{
    let dims = volume.dimensions();
    TextureLayout {
        width: dims.rows as u32,
        height: dims.columns as u32,
        depth: dims.slices as u32,
        bytes_per_row: (4 * dims.rows) as u32,
        rows_per_image: dims.columns as u32,
    }
}

/// `(a, b, c)` comes before `(i, j, k)` when the first axis varies
/// fastest.
pub open spec fn already(a: int, b: int, c: int, i: int, j: int, k: int) -> bool {
    c < k || (c == k && (b < j || (b == j && a < i)))
}

/// `words` holds the voxels of timepoint `t` of `volume` in upload order.
pub open spec fn holds_timepoint(words: Seq<u32>, volume: Volume, t: int) -> bool {
    &&& words.len() == volume.dims().rows * volume.dims().columns * volume.dims().slices
    &&& forall|i: int, j: int, k: int|
        volume.dims().contains(i, j, k, t) ==> words[unit_index(volume.dims(), i, j, k)]
            == #[trigger] volume.at(i, j, k, t)
}

/// A timepoint has one upload buffer: two sequences that both hold it
/// are equal.
pub proof fn lemma_one_buffer(first: Seq<u32>, second: Seq<u32>, volume: Volume, t: int)
    requires
        0 <= t < volume.dims().timepoints,
        holds_timepoint(first, volume, t),
        holds_timepoint(second, volume, t),
    ensures
        first == second,
{
    let dims = volume.dims();
    assert forall|n: int| 0 <= n < first.len() implies first[n] == second[n] by {
        let voxel = lemma_unit_index_onto(dims, dims.slices as int, n);
        assert(dims.contains(voxel.0, voxel.1, voxel.2, t));
        assert(first[unit_index(dims, voxel.0, voxel.1, voxel.2)] == volume.at(
            voxel.0,
            voxel.1,
            voxel.2,
            t,
        ));
    }
    assert(first =~= second);
}

/// The texels of timepoint `t` in upload order, the first axis varying
/// fastest: voxel `(i, j, k)` stands at `i + rows * (j + columns * k)`.
/// `None` where the volume has no such timepoint.
pub fn timepoint_texels(volume: &Volume, t: usize) -> (texels: Option<Vec<u32>>)
    ensures
        texels.is_some() <==> t < volume.dims().timepoints,
        texels matches Some(words) ==> {
            &&& holds_timepoint(words@, *volume, t as int)
            &&& forall|i: int, j: int, k: int|
                volume.dims().contains(i, j, k, t as int) ==> 0 <= #[trigger] unit_index(
                    volume.dims(),
                    i,
                    j,
                    k,
                ) < words@.len()
        },
{
    let dims = volume.dimensions();
    if t >= dims.timepoints {
        return None;
    }
    let mut words: Vec<u32> = Vec::new();
    proof {
        lemma_unit_index_step(dims, 0, 0);
    }
    let mut k: usize = 0;
    while k < dims.slices
        invariant
            k <= dims.slices,
            dims == volume.dims(),
            t < dims.timepoints,
            words@.len() == unit_index(dims, 0, 0, k as int),
            forall|a: int, b: int, c: int|
                dims.contains(a, b, c, t as int) && already(a, b, c, 0, 0, k as int) ==> 0
                    <= #[trigger] unit_index(dims, a, b, c) < words@.len(),
            forall|a: int, b: int, c: int|
                dims.contains(a, b, c, t as int) && already(a, b, c, 0, 0, k as int)
                    ==> words@[unit_index(dims, a, b, c)] == #[trigger] volume.at(
                    a,
                    b,
                    c,
                    t as int,
                ),
        decreases dims.slices - k,
    {
        let mut j: usize = 0;
        while j < dims.columns
            invariant
                k < dims.slices,
                j <= dims.columns,
                dims == volume.dims(),
                t < dims.timepoints,
                words@.len() == unit_index(dims, 0, j as int, k as int),
                forall|a: int, b: int, c: int|
                    dims.contains(a, b, c, t as int) && already(a, b, c, 0, j as int, k as int)
                        ==> 0 <= #[trigger] unit_index(dims, a, b, c) < words@.len(),
                forall|a: int, b: int, c: int|
                    dims.contains(a, b, c, t as int) && already(a, b, c, 0, j as int, k as int)
                        ==> words@[unit_index(dims, a, b, c)] == #[trigger] volume.at(
                        a,
                        b,
                        c,
                        t as int,
                    ),
            decreases dims.columns - j,
        {
            let mut i: usize = 0;
            while i < dims.rows
                invariant
                    k < dims.slices,
                    j < dims.columns,
                    i <= dims.rows,
                    dims == volume.dims(),
                    t < dims.timepoints,
                    words@.len() == unit_index(dims, i as int, j as int, k as int),
                    forall|a: int, b: int, c: int|
                        dims.contains(a, b, c, t as int) && already(
                            a,
                            b,
                            c,
                            i as int,
                            j as int,
                            k as int,
                        ) ==> 0 <= #[trigger] unit_index(dims, a, b, c) < words@.len(),
                    forall|a: int, b: int, c: int|
                        dims.contains(a, b, c, t as int) && already(
                            a,
                            b,
                            c,
                            i as int,
                            j as int,
                            k as int,
                        ) ==> words@[unit_index(dims, a, b, c)] == #[trigger] volume.at(
                            a,
                            b,
                            c,
                            t as int,
                        ),
                decreases dims.rows - i,
            {
                words.push(volume.get(i, j, k, t));
                i = i + 1;
            }
            proof {
                lemma_unit_index_step(dims, j as int, k as int);
            }
            j = j + 1;
        }
        proof {
            lemma_unit_index_step(dims, 0, k as int);
        }
        k = k + 1;
    }
    assert(unit_index(dims, 0, 0, dims.slices as int) == dims.rows * dims.columns * dims.slices)
        by (nonlinear_arith);
    Some(words)
}

} // verus!
