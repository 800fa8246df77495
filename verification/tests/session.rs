use brain_render::display_window::{DisplayPolarity, DisplayRange};
use brain_render::nifti::{AnatomicalAxis, Nifti, Rotation, VoxelDimensions};
use brain_render::nifti_reader::{decode_all, DecodeError, NativeSlice};
use brain_render::nifti_slice::{Nifti2DSlice, SliceError};
use brain_render::session::{SliceRequest, VolumeSession};

fn filled(header: &[u16], value: f32) -> Nifti {
    let rows = header[0] as usize;
    let columns = header[1] as usize;
    let slices = header[2] as usize;
    let mut units = Vec::new();
    if header.len() == 3 {
        for _ in 0..slices {
            let data = vec![value.to_bits(); rows * columns];
            units.push(NativeSlice { shape: vec![rows, columns], data });
        }
    } else {
        for _ in 0..header[3] {
            let data = vec![value.to_bits(); rows * columns * slices];
            units.push(NativeSlice { shape: vec![rows, columns, slices], data });
        }
    }
    decode_all(header, &units).expect("decodes")
}

fn request(axis: AnatomicalAxis, coordinate: u16, timepoint: Option<u16>) -> SliceRequest {
    SliceRequest {
        axis,
        coordinate,
        timepoint,
        window: DisplayRange {
            min: 0.0f32.to_bits(),
            max: 100.0f32.to_bits(),
            polarity: DisplayPolarity::Positive,
        },
        rotation: None,
    }
}

#[test]
fn empty_session_refuses_requests() {
    let session = VolumeSession::new();
    assert!(!session.is_loaded());
    assert_eq!(session.properties(), None);
    let cut = session.slice(&request(AnatomicalAxis::Axial, 0, None));
    assert_eq!(cut.err(), Some(SliceError::NoVolumeLoaded));
}

#[test]
fn load_returns_the_summary() {
    let mut session = VolumeSession::new();
    let properties = session.load(Ok(filled(&[2, 3, 4], 5.0))).expect("loads");
    assert_eq!(
        properties.dimensions,
        VoxelDimensions { rows: 2, columns: 3, slices: 4, timepoints: 1 }
    );
    assert_eq!(f32::from_bits(properties.maximum), 5.0);
    assert!(session.is_loaded());
    assert_eq!(session.properties(), Some(properties));
}

#[test]
fn second_load_replaces_the_first_volume() {
    let mut session = VolumeSession::new();
    session.load(Ok(filled(&[2, 3, 4], 5.0))).expect("loads");
    let before = session.slice(&request(AnatomicalAxis::Axial, 3, None)).expect("in range");
    assert_eq!((before.width, before.height), (2, 3));
    assert!(before.data.iter().all(|bits| f32::from_bits(*bits) == 5.0));

    let properties = session.load(Ok(filled(&[3, 2, 2, 3], 9.0))).expect("loads");
    assert_eq!(
        properties.dimensions,
        VoxelDimensions { rows: 3, columns: 2, slices: 2, timepoints: 3 }
    );
    assert_eq!(f32::from_bits(properties.maximum), 9.0);
    for t in 0..3u16 {
        for axis in [AnatomicalAxis::Axial, AnatomicalAxis::Coronal, AnatomicalAxis::Sagittal] {
            let after = session.slice(&request(axis, 1, Some(t))).expect("in range");
            assert!(after.data.iter().all(|bits| f32::from_bits(*bits) == 9.0));
        }
    }
    let axial = session.slice(&request(AnatomicalAxis::Axial, 1, Some(2))).expect("in range");
    assert_eq!((axial.width, axial.height), (3, 2));
    let gone = session.slice(&request(AnatomicalAxis::Axial, 3, None));
    assert_eq!(gone.err(), Some(SliceError::OutOfRangeCoordinate));
}

#[test]
fn failed_load_keeps_the_previous_volume() {
    let mut session = VolumeSession::new();
    let first = session.load(Ok(filled(&[2, 2, 2], 4.0))).expect("loads");
    let failed = session.load(Err(DecodeError::ShapeMismatch));
    assert_eq!(failed, Err(DecodeError::ShapeMismatch));
    assert_eq!(session.properties(), Some(first));
    let cut = session.slice(&request(AnatomicalAxis::Coronal, 1, None)).expect("in range");
    assert!(cut.data.iter().all(|bits| f32::from_bits(*bits) == 4.0));
}

#[test]
fn failed_first_load_leaves_the_session_empty() {
    let mut session = VolumeSession::new();
    let failed = session.load(decode_all(&[2, 2], &Vec::new()));
    assert_eq!(failed, Err(DecodeError::UnsupportedDimensionality));
    assert!(!session.is_loaded());
}

#[test]
fn replace_returns_the_summary_of_the_new_volume() {
    let mut session = VolumeSession::new();
    session.replace(filled(&[2, 2, 2], 4.0));
    let properties = session.replace(filled(&[1, 1, 1], 2.0));
    assert_eq!(f32::from_bits(properties.maximum), 2.0);
    assert_eq!(session.properties(), Some(properties));
}

#[test]
fn request_out_of_range_is_refused() {
    let mut session = VolumeSession::new();
    session.load(Ok(filled(&[2, 3, 4], 1.0))).expect("loads");
    let cut = session.slice(&request(AnatomicalAxis::Coronal, 3, None));
    assert_eq!(cut.err(), Some(SliceError::OutOfRangeCoordinate));
    let cut = session.slice(&request(AnatomicalAxis::Coronal, 2, Some(1)));
    assert_eq!(cut.err(), Some(SliceError::OutOfRangeCoordinate));
    assert!(session.is_loaded());
}

#[test]
fn request_with_a_rotation_turns_the_plane() {
    let units = vec![NativeSlice { shape: vec![3, 2], data: vec![1, 2, 3, 4, 5, 6] }];
    let nifti = decode_all(&[3, 2, 1], &units).expect("decodes");
    let plain = Nifti2DSlice::extract(&nifti.volume, AnatomicalAxis::Axial, 0, None).unwrap();
    assert_eq!(plain.data, vec![1, 2, 3, 4, 5, 6]);
    let mut session = VolumeSession::new();
    session.replace(nifti);
    let mut asked = request(AnatomicalAxis::Axial, 0, None);
    asked.rotation = Some(Rotation::Rotate90);
    let turned = session.slice(&asked).expect("in range");
    assert_eq!((turned.width, turned.height), (2, 3));
    assert_eq!(turned.data, vec![4, 1, 5, 2, 6, 3]);
    asked.rotation = Some(Rotation::Rotate0);
    let same = session.slice(&asked).expect("in range");
    assert_eq!(same.data, plain.data);
}
