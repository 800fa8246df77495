//! The parameters that go with a plane to the renderer, as integers.

use crate::display_window::DisplayRange;
use crate::nifti::{AnatomicalAxis, Rotation, VoxelDimensions};
use vstd::prelude::*;

verus! {

/// How deep a plane lies along its axis, as the ratio `numerator /
/// denominator` between zero and one. The denominator is never zero.
#[derive(Clone, Copy, Debug, PartialEq, Eq, Structural)]
pub struct SliceDepth {
    pub numerator: usize,
    pub denominator: usize,
}

/// The depth of the plane at `coordinate` along an axis of
/// `dimension_length` planes: `coordinate / (dimension_length - 1)`, and
/// zero where the axis has at most one plane.
pub open spec fn depth_ratio(coordinate: usize, dimension_length: usize) -> SliceDepth {
    if dimension_length > 1 {
        SliceDepth { numerator: coordinate, denominator: (dimension_length - 1) as usize }
    } else {
        SliceDepth { numerator: 0, denominator: 1 }
    }
}

/// The depth ratio is zero at the first plane and one at the last. On an
/// axis of a single plane it is zero. Its denominator is never zero, and
/// within the axis it is at most one.
pub proof fn lemma_depth_ends(dimension_length: usize)
    ensures
        depth_ratio(0, dimension_length).numerator == 0,
        dimension_length > 1 ==> depth_ratio(
            (dimension_length - 1) as usize,
            dimension_length,
        ).numerator == depth_ratio((dimension_length - 1) as usize, dimension_length).denominator,
        dimension_length == 1 ==> depth_ratio(0, dimension_length) == (SliceDepth {
            numerator: 0,
            denominator: 1,
        }),
        forall|coordinate: usize| #[trigger]
            depth_ratio(coordinate, dimension_length).denominator >= 1,
        forall|coordinate: usize|
            coordinate < dimension_length ==> (#[trigger] depth_ratio(
                coordinate,
                dimension_length,
            )).numerator <= depth_ratio(coordinate, dimension_length).denominator,
{
}

/// The depth of the plane at `coordinate` along an axis of
/// `dimension_length` planes.
pub fn normalized_depth(coordinate: usize, dimension_length: usize) -> (depth: SliceDepth)
    ensures
        depth == depth_ratio(coordinate, dimension_length),
        depth.denominator >= 1,
{
    if dimension_length > 1 {
        SliceDepth { numerator: coordinate, denominator: dimension_length - 1 }
    } else {
        SliceDepth { numerator: 0, denominator: 1 }
    }
}

/// What the renderer is told about a plane: the spatial dimensions of the
/// volume, the window and its polarity, the axis, the depth of the plane
/// and the rotation, each enumeration by its code.
#[derive(Clone, Copy, Debug, PartialEq, Eq)]
pub struct FragmentParams {
    pub volume_dims: [usize; 3],
    pub polarity: u32,
    pub window: [u32; 2],
    pub axis: u32,
    pub slice_index: SliceDepth,
    pub rotation: u32,
    pub padding: [u32; 3],
}

impl FragmentParams {
    /// The parameters for the plane at `slice_index` along `axis`.
    pub fn new(
        volume_dimensions: [usize; 4],
        axis: AnatomicalAxis,
        slice_index: usize,
        window: DisplayRange,
        rotation: Rotation,
    ) -> (params: Self)
        ensures
            params.volume_dims@ == volume_dimensions@.subrange(0, 3),
            params.polarity == window.polarity.code(),
            params.window@ == seq![window.min, window.max],
            params.axis == axis.code(),
            params.slice_index == depth_ratio(
                slice_index,
                match axis {
                    AnatomicalAxis::Axial => volume_dimensions[2],
                    AnatomicalAxis::Coronal => volume_dimensions[1],
                    AnatomicalAxis::Sagittal => volume_dimensions[0],
                },
            ),
            params.rotation == rotation.quarter_turns(),
            params.padding@ == seq![0u32, 0u32, 0u32],
    {
        let dims = VoxelDimensions {
            rows: volume_dimensions[0],
            columns: volume_dimensions[1],
            slices: volume_dimensions[2],
            timepoints: volume_dimensions[3],
        };
        let dimension_length = axis.dimension_length(&dims);
        let params = FragmentParams {
            volume_dims: [volume_dimensions[0], volume_dimensions[1], volume_dimensions[2]],
            polarity: window.polarity.encode(),
            window: [window.min, window.max],
            axis: axis.encode(),
            slice_index: normalized_depth(slice_index, dimension_length),
            rotation: rotation.encode(),
            padding: [0, 0, 0],
        };
        assert(params.volume_dims@ =~= volume_dimensions@.subrange(0, 3));
        assert(params.window@ =~= seq![window.min, window.max]);
        assert(params.padding@ =~= seq![0u32, 0u32, 0u32]);
        params
    }
}

} // verus!
