use brain_render::nifti::AnatomicalAxis;
use brain_render::nifti_reader::{decode_all, NativeSlice};
use brain_render::nifti_slice::{BufferError, Nifti2DSlice};

#[test]
fn buffer_is_little_endian_row_by_row() {
    let slice = Nifti2DSlice {
        width: 2,
        height: 1,
        data: vec![1.0f32.to_bits(), 0x0102_0304],
    };
    assert_eq!(slice.to_bytes(), vec![0x00, 0x00, 0x80, 0x3F, 0x04, 0x03, 0x02, 0x01]);
}

#[test]
fn buffer_agrees_with_the_bytes_of_each_intensity() {
    let values = [0.5f32, -2.0, 1.0e10, f32::MIN_POSITIVE, 255.0, 3.1415927];
    let slice = Nifti2DSlice {
        width: 3,
        height: 2,
        data: values.iter().map(|v| v.to_bits()).collect(),
    };
    let mut expected = Vec::new();
    for v in values.iter() {
        expected.extend_from_slice(&v.to_le_bytes());
    }
    assert_eq!(slice.to_bytes(), expected);
    assert_eq!(slice.to_bytes().len(), 3 * 2 * 4);
}

#[test]
fn buffer_of_broken_words_is_misaligned() {
    let read = Nifti2DSlice::from_bytes(1, 1, &[0, 0, 0, 0, 0]);
    assert_eq!(read.err(), Some(BufferError::Misaligned));
}

#[test]
fn buffer_of_another_size_is_an_invalid_shape() {
    let read = Nifti2DSlice::from_bytes(2, 2, &[0; 12]);
    assert_eq!(read.err(), Some(BufferError::InvalidShape));
    let read = Nifti2DSlice::from_bytes(0, 2, &[0; 4]);
    assert_eq!(read.err(), Some(BufferError::InvalidShape));
}

#[test]
fn empty_buffer_is_an_empty_plane() {
    let read = Nifti2DSlice::from_bytes(0, 7, &[]).expect("empty plane");
    assert_eq!((read.width, read.height), (0, 7));
    assert!(read.data.is_empty());
}

#[test]
fn words_are_read_little_endian() {
    let read = Nifti2DSlice::from_bytes(1, 2, &[0x00, 0x00, 0x80, 0x3F, 0x04, 0x03, 0x02, 0x01])
        .expect("two words");
    assert_eq!(read.data, vec![1.0f32.to_bits(), 0x0102_0304]);
    assert_eq!((read.width, read.height), (1, 2));
}

fn fixture(header: &[u16]) -> brain_render::volume::Volume {
    let rows = header[0] as usize;
    let columns = header[1] as usize;
    let slices = header[2] as usize;
    let mut units = Vec::new();
    let mut seed: u32 = 0x9E37_79B9;
    if header.len() == 3 {
        for _ in 0..slices {
            let mut data = Vec::new();
            for _ in 0..rows * columns {
                seed = seed.wrapping_mul(1_664_525).wrapping_add(1_013_904_223);
                data.push(seed);
            }
            units.push(NativeSlice { shape: vec![rows, columns], data });
        }
    } else {
        for _ in 0..header[3] {
            let mut data = Vec::new();
            for _ in 0..rows * columns * slices {
                seed = seed.wrapping_mul(1_664_525).wrapping_add(1_013_904_223);
                data.push(seed);
            }
            units.push(NativeSlice { shape: vec![rows, columns, slices], data });
        }
    }
    decode_all(header, &units).expect("fixture decodes").volume
}

fn assert_round_trip(slice: &Nifti2DSlice) {
    let bytes = slice.to_bytes();
    assert_eq!(bytes.len(), slice.width as usize * slice.height as usize * 4);
    let back = Nifti2DSlice::from_bytes(slice.width, slice.height, &bytes).expect("reads back");
    assert_eq!(back.width, slice.width);
    assert_eq!(back.height, slice.height);
    assert_eq!(back.data, slice.data);
    assert_eq!(back.to_bytes(), bytes);
}

#[test]
fn round_trip_of_a_three_dimensional_fixture() {
    let volume = fixture(&[3, 4, 5]);
    for axis in [AnatomicalAxis::Axial, AnatomicalAxis::Coronal, AnatomicalAxis::Sagittal] {
        let slice = Nifti2DSlice::extract(&volume, axis, 2, None).expect("in range");
        assert_round_trip(&slice);
    }
}

#[test]
fn round_trip_of_a_four_dimensional_fixture() {
    let volume = fixture(&[3, 4, 5, 2]);
    for t in 0..2u16 {
        for axis in [AnatomicalAxis::Axial, AnatomicalAxis::Coronal, AnatomicalAxis::Sagittal] {
            let slice = Nifti2DSlice::extract(&volume, axis, 1, Some(t)).expect("in range");
            assert_round_trip(&slice);
        }
    }
}

#[test]
fn timepoints_of_a_four_dimensional_fixture_differ() {
    let volume = fixture(&[3, 4, 5, 2]);
    let first = Nifti2DSlice::extract(&volume, AnatomicalAxis::Axial, 0, Some(0)).unwrap();
    let second = Nifti2DSlice::extract(&volume, AnatomicalAxis::Axial, 0, Some(1)).unwrap();
    let unnamed = Nifti2DSlice::extract(&volume, AnatomicalAxis::Axial, 0, None).unwrap();
    assert_ne!(first.data, second.data);
    assert_eq!(first.data, unnamed.data);
    assert_eq!(second.data[0], volume.get(0, 0, 0, 1));
    assert_eq!(second.data[3 + 1], volume.get(1, 1, 0, 1));
}
