use brain_render::nifti::{Nifti, VoxelDimensions};
use brain_render::nifti_reader::{DecodeError, NativeSlice, StreamingDecoder};
use nifti::{IntoNdArray, NiftiObject, StreamedNiftiObject};

/// A NIfTI-1 file held in memory: the header, no extensions, and the
/// intensities in file order.
fn nifti_file(dimensions: &[u16], values: &[f32]) -> Vec<u8> {
    let mut header = vec![0u8; 348];
    header[0..4].copy_from_slice(&348i32.to_le_bytes());
    let mut dim = [1i16; 8];
    dim[0] = dimensions.len() as i16;
    for (n, length) in dimensions.iter().enumerate() {
        dim[n + 1] = *length as i16;
    }
    for (n, length) in dim.iter().enumerate() {
        header[40 + 2 * n..42 + 2 * n].copy_from_slice(&length.to_le_bytes());
    }
    header[70..72].copy_from_slice(&16i16.to_le_bytes());
    header[72..74].copy_from_slice(&32i16.to_le_bytes());
    for n in 0..8 {
        header[76 + 4 * n..80 + 4 * n].copy_from_slice(&1.0f32.to_le_bytes());
    }
    header[108..112].copy_from_slice(&352.0f32.to_le_bytes());
    header[112..116].copy_from_slice(&1.0f32.to_le_bytes());
    header[344..348].copy_from_slice(b"n+1\0");
    let mut file = header;
    file.extend_from_slice(&[0u8; 4]);
    for value in values {
        file.extend_from_slice(&value.to_le_bytes());
    }
    file
}

fn native_slice(unit: &ndarray::ArrayD<f32>) -> NativeSlice {
    let shape = unit.shape().to_vec();
    let data = unit.t().iter().map(|value| value.to_bits()).collect();
    NativeSlice { shape, data }
}

fn read(file: &[u8]) -> Result<Nifti, DecodeError> {
    let object =
        StreamedNiftiObject::from_reader(file).map_err(|_| DecodeError::MalformedSource)?;
    let mut stream = object.into_volume();
    let dimensions = stream.dim().to_owned();
    let mut decoder = StreamingDecoder::begin(&dimensions)?;
    while stream.slices_left() != 0 {
        assert_eq!(decoder.slices_left(), stream.slices_left());
        let slice = stream.read_slice().map_err(|_| DecodeError::MalformedSource)?;
        let unit = slice.into_ndarray::<f32>().map_err(|_| DecodeError::MalformedSource)?;
        assert_eq!(unit.shape().to_vec(), decoder.expected_shape());
        decoder.push(&native_slice(&unit))?;
    }
    decoder.finish()
}

#[test]
fn three_dimensional_file_decodes_slice_by_slice() {
    let values: Vec<f32> = (0..24).map(|n| n as f32 * 0.5).collect();
    let nifti = read(&nifti_file(&[2, 3, 4], &values)).expect("decodes");
    assert_eq!(
        nifti.volume.dimensions(),
        VoxelDimensions { rows: 2, columns: 3, slices: 4, timepoints: 1 }
    );
    for k in 0..4usize {
        for j in 0..3usize {
            for i in 0..2usize {
                let expected = values[i + 2 * (j + 3 * k)];
                assert_eq!(nifti.volume.voxel(i, j, k, 0), Some(expected.to_bits()));
            }
        }
    }
    assert_eq!(f32::from_bits(nifti.get_max_intensity()), 11.5);
}

#[test]
fn four_dimensional_file_decodes_timepoint_by_timepoint() {
    let values: Vec<f32> = (0..48).map(|n| 100.0 - n as f32).collect();
    let nifti = read(&nifti_file(&[2, 3, 4, 2], &values)).expect("decodes");
    assert_eq!(
        nifti.volume.dimensions(),
        VoxelDimensions { rows: 2, columns: 3, slices: 4, timepoints: 2 }
    );
    for t in 0..2usize {
        for k in 0..4usize {
            for j in 0..3usize {
                for i in 0..2usize {
                    let expected = values[i + 2 * (j + 3 * (k + 4 * t))];
                    assert_eq!(nifti.volume.voxel(i, j, k, t), Some(expected.to_bits()));
                }
            }
        }
    }
    assert_eq!(f32::from_bits(nifti.get_max_intensity()), 100.0);
}

#[test]
fn two_dimensional_file_is_unsupported() {
    let values: Vec<f32> = (0..6).map(|n| n as f32).collect();
    let loaded = read(&nifti_file(&[2, 3], &values));
    assert_eq!(loaded.err(), Some(DecodeError::UnsupportedDimensionality));
}

#[test]
fn truncated_file_is_malformed() {
    let values: Vec<f32> = (0..20).map(|n| n as f32).collect();
    let loaded = read(&nifti_file(&[2, 3, 4], &values));
    assert_eq!(loaded.err(), Some(DecodeError::MalformedSource));
}

#[test]
fn file_without_a_header_is_malformed() {
    let loaded = read(&[0u8; 16]);
    assert_eq!(loaded.err(), Some(DecodeError::MalformedSource));
}
