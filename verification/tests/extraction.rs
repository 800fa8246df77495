use brain_render::nifti::{AnatomicalAxis, Rotation};
use brain_render::nifti_reader::{decode_all, NativeSlice};
use brain_render::nifti_slice::{Nifti2DSlice, SliceError};
use brain_render::volume::Volume;

/// Voxel `(i, j, k)` of the cube holds `100 k + 10 j + i`.
fn cube_value(i: usize, j: usize, k: usize) -> u32 {
    ((100 * k + 10 * j + i) as f32).to_bits()
}

fn cube_units(rows: usize, columns: usize, slices: usize) -> Vec<NativeSlice> {
    let mut units = Vec::new();
    for k in 0..slices {
        let mut data = Vec::new();
        for j in 0..columns {
            for i in 0..rows {
                data.push(cube_value(i, j, k));
            }
        }
        units.push(NativeSlice { shape: vec![rows, columns], data });
    }
    units
}

fn cube(rows: u16, columns: u16, slices: u16) -> Volume {
    let units = cube_units(rows as usize, columns as usize, slices as usize);
    decode_all(&[rows, columns, slices], &units).expect("cube decodes").volume
}

#[test]
fn axial_slice_is_the_kth_plane() {
    let volume = cube(4, 4, 4);
    for k in 0..4u16 {
        let slice = Nifti2DSlice::extract(&volume, AnatomicalAxis::Axial, k, None).unwrap();
        assert_eq!(slice.width, 4);
        assert_eq!(slice.height, 4);
        let mut reference = Vec::new();
        for y in 0..4usize {
            for x in 0..4usize {
                reference.push(((100 * k as usize + 10 * y + x) as f32).to_bits());
            }
        }
        assert_eq!(slice.data, reference);
    }
}

#[test]
fn axial_slice_matches_hand_written_plane() {
    let volume = cube(4, 4, 4);
    let slice = Nifti2DSlice::extract(&volume, AnatomicalAxis::Axial, 2, None).unwrap();
    let expected: Vec<f32> = vec![
        200.0, 201.0, 202.0, 203.0, 210.0, 211.0, 212.0, 213.0, 220.0, 221.0, 222.0, 223.0,
        230.0, 231.0, 232.0, 233.0,
    ];
    let got: Vec<f32> = slice.data.iter().map(|bits| f32::from_bits(*bits)).collect();
    assert_eq!(got, expected);
}

#[test]
fn coronal_slice_shows_rows_across_and_slices_down() {
    let volume = cube(2, 3, 4);
    let slice = Nifti2DSlice::extract(&volume, AnatomicalAxis::Coronal, 1, None).unwrap();
    assert_eq!((slice.width, slice.height), (2, 4));
    let expected: Vec<f32> = vec![10.0, 11.0, 110.0, 111.0, 210.0, 211.0, 310.0, 311.0];
    let got: Vec<f32> = slice.data.iter().map(|bits| f32::from_bits(*bits)).collect();
    assert_eq!(got, expected);
}

#[test]
fn sagittal_slice_shows_columns_across_and_slices_down() {
    let volume = cube(2, 3, 4);
    let slice = Nifti2DSlice::extract(&volume, AnatomicalAxis::Sagittal, 1, None).unwrap();
    assert_eq!((slice.width, slice.height), (3, 4));
    let expected: Vec<f32> = vec![
        1.0, 11.0, 21.0, 101.0, 111.0, 121.0, 201.0, 211.0, 221.0, 301.0, 311.0, 321.0,
    ];
    let got: Vec<f32> = slice.data.iter().map(|bits| f32::from_bits(*bits)).collect();
    assert_eq!(got, expected);
}

#[test]
fn coronal_then_sagittal_hold_width_times_height() {
    let volume = cube(3, 5, 2);
    for y in 0..5u16 {
        let slice = Nifti2DSlice::extract(&volume, AnatomicalAxis::Coronal, y, None).unwrap();
        assert_eq!(slice.width as usize * slice.height as usize, slice.data.len());
    }
    for x in 0..3u16 {
        let slice = Nifti2DSlice::extract(&volume, AnatomicalAxis::Sagittal, x, None).unwrap();
        assert_eq!(slice.width as usize * slice.height as usize, slice.data.len());
    }
}

#[test]
fn coordinate_past_the_axis_is_refused() {
    let volume = cube(2, 3, 4);
    let axial = Nifti2DSlice::extract(&volume, AnatomicalAxis::Axial, 4, None);
    assert_eq!(axial.err(), Some(SliceError::OutOfRangeCoordinate));
    let coronal = Nifti2DSlice::extract(&volume, AnatomicalAxis::Coronal, 3, None);
    assert_eq!(coronal.err(), Some(SliceError::OutOfRangeCoordinate));
    let sagittal = Nifti2DSlice::extract(&volume, AnatomicalAxis::Sagittal, 2, None);
    assert_eq!(sagittal.err(), Some(SliceError::OutOfRangeCoordinate));
    assert!(Nifti2DSlice::extract(&volume, AnatomicalAxis::Sagittal, 1, None).is_ok());
}

#[test]
fn timepoint_past_the_volume_is_refused() {
    let volume = cube(2, 2, 2);
    let late = Nifti2DSlice::extract(&volume, AnatomicalAxis::Axial, 0, Some(1));
    assert_eq!(late.err(), Some(SliceError::OutOfRangeCoordinate));
    assert!(Nifti2DSlice::extract(&volume, AnatomicalAxis::Axial, 0, Some(0)).is_ok());
}

#[test]
fn quarter_turn_moves_the_top_row_to_the_right_column() {
    let slice = Nifti2DSlice { width: 3, height: 2, data: vec![1, 2, 3, 4, 5, 6] };
    let turned = slice.rotated(Rotation::Rotate90);
    assert_eq!((turned.width, turned.height), (2, 3));
    assert_eq!(turned.data, vec![4, 1, 5, 2, 6, 3]);
}

#[test]
fn half_turn_reverses_the_plane() {
    let slice = Nifti2DSlice { width: 3, height: 2, data: vec![1, 2, 3, 4, 5, 6] };
    let turned = slice.rotated(Rotation::Rotate180);
    assert_eq!((turned.width, turned.height), (3, 2));
    assert_eq!(turned.data, vec![6, 5, 4, 3, 2, 1]);
}

#[test]
fn three_quarter_turn_moves_the_top_row_to_the_left_column() {
    let slice = Nifti2DSlice { width: 3, height: 2, data: vec![1, 2, 3, 4, 5, 6] };
    let turned = slice.rotated(Rotation::Rotate270);
    assert_eq!((turned.width, turned.height), (2, 3));
    assert_eq!(turned.data, vec![3, 6, 2, 5, 1, 4]);
}

#[test]
fn no_turn_keeps_the_plane() {
    let slice = Nifti2DSlice { width: 3, height: 2, data: vec![1, 2, 3, 4, 5, 6] };
    let turned = slice.rotated(Rotation::Rotate0);
    assert_eq!((turned.width, turned.height), (3, 2));
    assert_eq!(turned.data, vec![1, 2, 3, 4, 5, 6]);
}

#[test]
fn four_quarter_turns_give_the_plane_back() {
    let slice = Nifti2DSlice { width: 3, height: 2, data: vec![1, 2, 3, 4, 5, 6] };
    let turned = slice
        .rotated(Rotation::Rotate90)
        .rotated(Rotation::Rotate90)
        .rotated(Rotation::Rotate90)
        .rotated(Rotation::Rotate90);
    assert_eq!((turned.width, turned.height), (3, 2));
    assert_eq!(turned.data, slice.data);
}

#[test]
fn two_turns_are_one_turn_by_both() {
    let slice = Nifti2DSlice { width: 3, height: 2, data: vec![1, 2, 3, 4, 5, 6] };
    let turns = [Rotation::Rotate0, Rotation::Rotate90, Rotation::Rotate180, Rotation::Rotate270];
    for first in turns {
        for second in turns {
            let stepwise = slice.rotated(first).rotated(second);
            let at_once = slice.rotated(first.then(second));
            assert_eq!(stepwise, at_once);
        }
    }
    assert_eq!(Rotation::Rotate90.then(Rotation::Rotate270), Rotation::Rotate0);
    assert_eq!(Rotation::Rotate180.then(Rotation::Rotate270), Rotation::Rotate90);
}

#[test]
fn plane_extent_follows_the_axis() {
    let volume = cube(2, 3, 4);
    let dims = volume.dimensions();
    assert_eq!(AnatomicalAxis::Axial.plane_extent(&dims), (2, 3));
    assert_eq!(AnatomicalAxis::Coronal.plane_extent(&dims), (2, 4));
    assert_eq!(AnatomicalAxis::Sagittal.plane_extent(&dims), (3, 4));
}

#[test]
fn axial_plane_is_the_unit_of_the_stream() {
    let units = cube_units(4, 3, 5);
    let volume = decode_all(&[4, 3, 5], &units).expect("decodes").volume;
    for k in 0..5usize {
        let slice = Nifti2DSlice::extract(&volume, AnatomicalAxis::Axial, k as u16, None).unwrap();
        assert_eq!((slice.width, slice.height), (4, 3));
        assert_eq!(slice.data, units[k].data);
    }
}

#[test]
fn extraction_copies_the_plane() {
    let volume = cube(2, 2, 2);
    let first = Nifti2DSlice::extract(&volume, AnatomicalAxis::Axial, 1, None).unwrap();
    let mut changed = first.clone();
    changed.data[0] = 0xFFFF_FFFF;
    let second = Nifti2DSlice::extract(&volume, AnatomicalAxis::Axial, 1, None).unwrap();
    assert_eq!(first, second);
    assert_ne!(changed, second);
}
