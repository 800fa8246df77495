//! The scan that is currently loaded. A session holds at most one volume;
//! a successful load replaces it whole, a failed load leaves it alone.

use crate::display_window::DisplayRange;
use crate::nifti::{is_maximum, AnatomicalAxis, Nifti, NiftiProperies, Rotation};
use crate::nifti_reader::DecodeError;
use crate::nifti_slice::{
    chosen_timepoint, in_range, plane_pixels, plane_voxel, rotation_source, turned_height,
    turned_pixels, turned_width, Nifti2DSlice, SliceError,
};
use crate::volume::Volume;
use vstd::prelude::*;

verus! {

/// What a caller asks of the loaded volume: the plane at `coordinate`
/// along `axis`, at a timepoint, shown through a window and turned by a
/// rotation. The window does not change the plane; it travels with the
/// request to the renderer.
#[derive(Clone, Copy, Debug)]
pub struct SliceRequest {
    pub axis: AnatomicalAxis,
    pub coordinate: u16,
    pub timepoint: Option<u16>,
    pub window: DisplayRange,
    pub rotation: Option<Rotation>,
}

/// The rotation that a request means: none where it names none.
pub open spec fn chosen_rotation(rotation: Option<Rotation>) -> Rotation {
    match rotation {
        Some(r) => r,
        None => Rotation::Rotate0,
    }
}

/// The volume that a session holds after a load ends, `before` being the
/// one it held: the decoded volume, or `before` where the decode failed.
pub open spec fn loaded(before: Option<Volume>, decoded: Result<Nifti, DecodeError>) -> Option<
    Volume,
> {
    match decoded {
        Ok(nifti) => Some(nifti.volume),
        Err(_) => before,
    }
}

/// What a session that holds `current` answers to `request`: the width,
/// the height and the pixels of the plane, or the reason for refusing.
pub open spec fn answer(current: Option<Volume>, request: SliceRequest) -> Result<
    (int, int, Seq<u32>),
    SliceError,
> {
    match current {
        None => Err(SliceError::NoVolumeLoaded),
        Some(volume) => {
            let width = request.axis.width(volume.dims());
            let height = request.axis.height(volume.dims());
            let rotation = chosen_rotation(request.rotation);
            if in_range(volume.dims(), request.axis, request.coordinate, request.timepoint) {
                Ok(
                    (
                        turned_width(rotation, width, height),
                        turned_height(rotation, width, height),
                        turned_pixels(
                            plane_pixels(
                                volume,
                                request.axis,
                                request.coordinate as int,
                                chosen_timepoint(request.timepoint),
                            ),
                            width,
                            height,
                            rotation,
                        ),
                    ),
                )
            } else {
                Err(SliceError::OutOfRangeCoordinate)
            }
        },
    }
}

/// After two loads that both succeed, every request is answered from the
/// second volume alone, whatever the first volume was and whatever the
/// session held before.
pub proof fn lemma_second_load_replaces(
    before: Option<Volume>,
    first: Nifti,
    second: Nifti,
    request: SliceRequest,
)
    ensures
        answer(
            loaded(
                loaded(before, Ok::<Nifti, DecodeError>(first)),
                Ok::<Nifti, DecodeError>(second),
            ),
            request,
        ) == answer(Some(second.volume), request),
{
}

/// A load that fails changes no answer.
pub proof fn lemma_failed_load_keeps(before: Option<Volume>, error: DecodeError, request: SliceRequest)
    ensures
        answer(loaded(before, Err::<Nifti, DecodeError>(error)), request) == answer(
            before,
            request,
        ),
{
}

/// The holder of the current volume and of its summary.
pub struct VolumeSession {
    current: Option<(Nifti, NiftiProperies)>,
}

impl VolumeSession {
    #[verifier::type_invariant]
    spec fn summary_matches(self) -> bool {
        self.current matches Some(pair) ==> pair.1.dimensions == pair.0.volume.dims()
            && is_maximum(pair.0.volume, pair.1.maximum)
    }

    /// The volume that is loaded, if any.
    pub closed spec fn volume(&self) -> Option<Volume> {
        match self.current {
            Some(pair) => Some(pair.0.volume),
            None => None,
        }
    }

    /// The summary of the volume that is loaded, if any.
    pub closed spec fn summary(&self) -> Option<NiftiProperies> {
        match self.current {
            Some(pair) => Some(pair.1),
            None => None,
        }
    }

    /// A session with no volume.
    pub fn new() -> (session: VolumeSession)
        ensures
            session.volume().is_none(),
            session.summary().is_none(),
    {
        VolumeSession { current: None }
    }

    /// Whether a volume is loaded.
    pub fn is_loaded(&self) -> (loaded: bool)
        ensures
            loaded == self.volume().is_some(),
    {
        self.current.is_some()
    }

    /// Makes `nifti` the current scan. Whatever was loaded before is
    /// dropped; nothing of it remains in the session.
    pub fn replace(&mut self, nifti: Nifti) -> (properties: NiftiProperies)
        ensures
            final(self).volume() == Some(nifti.volume),
            final(self).summary() == Some(properties),
            properties.dimensions == nifti.volume.dims(),
            is_maximum(nifti.volume, properties.maximum),
    {
        let properties = nifti.get_properties();
        self.current = Some((nifti, properties));
        properties
    }

    /// Ends a load. A decoded scan becomes the current one and its
    /// summary is returned; a failed decode is handed back and the session
    /// stays as it was.
    pub fn load(&mut self, decoded: Result<Nifti, DecodeError>) -> (outcome: Result<
        NiftiProperies,
        DecodeError,
    >)
        ensures
            final(self).volume() == loaded(old(self).volume(), decoded),
            match decoded {
                Ok(nifti) => {
                    &&& outcome matches Ok(properties)
                    &&& final(self).volume() == Some(nifti.volume)
                    &&& final(self).summary() == Some(properties)
                    &&& properties.dimensions == nifti.volume.dims()
                    &&& is_maximum(nifti.volume, properties.maximum)
                },
                Err(e) => outcome == Err::<NiftiProperies, DecodeError>(e) && *final(self) == *old(
                    self,
                ),
            },
    {
        match decoded {
            Ok(nifti) => Ok(self.replace(nifti)),
            Err(e) => Err(e),
        }
    }

    /// The summary computed when the current scan was loaded.
    pub fn properties(&self) -> (properties: Option<NiftiProperies>)
        ensures
            properties == self.summary(),
            properties.is_some() == self.volume().is_some(),
            properties matches Some(p) ==> p.dimensions == self.volume().unwrap().dims()
                && is_maximum(self.volume().unwrap(), p.maximum),
    {
        proof {
            use_type_invariant(self);
        }
        match &self.current {
            Some(pair) => Some(pair.1),
            None => None,
        }
    }

    /// Cuts the requested plane out of the current volume and turns it by
    /// the requested rotation. Without a volume the request is refused,
    /// and so is a coordinate or a timepoint outside the volume.
    pub fn slice(&self, request: &SliceRequest) -> (cut: Result<Nifti2DSlice, SliceError>)
        ensures
            match cut {
                Ok(slice) => answer(self.volume(), *request) == Ok::<
                    (int, int, Seq<u32>),
                    SliceError,
                >((slice.width as int, slice.height as int, slice.data@)),
                Err(e) => answer(self.volume(), *request) == Err::<
                    (int, int, Seq<u32>),
                    SliceError,
                >(e),
            },
            match cut {
                Ok(slice) => {
                    let volume = self.volume().unwrap();
                    let rotation = chosen_rotation(request.rotation);
                    let width = request.axis.width(volume.dims());
                    let height = request.axis.height(volume.dims());
                    &&& self.volume().is_some()
                    &&& in_range(volume.dims(), request.axis, request.coordinate, request.timepoint)
                    &&& slice.wf()
                    &&& slice.width == turned_width(rotation, width, height)
                    &&& slice.height == turned_height(rotation, width, height)
                    &&& forall|x: int, y: int|
                        0 <= x < slice.width && 0 <= y < slice.height ==> #[trigger] slice.pixel(
                            x,
                            y,
                        ) == plane_voxel(
                            volume,
                            request.axis,
                            request.coordinate as int,
                            chosen_timepoint(request.timepoint),
                            rotation_source(rotation, width, height, x, y).0,
                            rotation_source(rotation, width, height, x, y).1,
                        )
                },
                Err(SliceError::NoVolumeLoaded) => self.volume().is_none(),
                Err(SliceError::OutOfRangeCoordinate) => self.volume().is_some() && !in_range(
                    self.volume().unwrap().dims(),
                    request.axis,
                    request.coordinate,
                    request.timepoint,
                ),
            },
    {
        let nifti = match &self.current {
            Some(pair) => &pair.0,
            None => {
                return Err(SliceError::NoVolumeLoaded);
            },
        };
        let plain = match Nifti2DSlice::extract(
            &nifti.volume,
            request.axis,
            request.coordinate,
            request.timepoint,
        ) {
            Ok(plain) => plain,
            Err(e) => {
                return Err(e);
            },
        };
        let rotation = match request.rotation {
            Some(r) => r,
            None => Rotation::Rotate0,
        };
        let turned = plain.rotated(rotation);
        assert forall|x: int, y: int| 0 <= x < turned.width && 0 <= y < turned.height implies (
        #[trigger] turned.pixel(x, y)) == plane_voxel(
            nifti.volume,
            request.axis,
            request.coordinate as int,
            chosen_timepoint(request.timepoint),
            rotation_source(rotation, plain.width as int, plain.height as int, x, y).0,
            rotation_source(rotation, plain.width as int, plain.height as int, x, y).1,
        ) by {
            let source = rotation_source(rotation, plain.width as int, plain.height as int, x, y);
            assert(0 <= source.0 < plain.width && 0 <= source.1 < plain.height);
            assert(plain.pixel(source.0, source.1) == plane_voxel(
                nifti.volume,
                request.axis,
                request.coordinate as int,
                chosen_timepoint(request.timepoint),
                source.0,
                source.1,
            ));
        }
        Ok(turned)
    }
}

} // verus!
