use brain_render::nifti_reader::{decode_all, NativeSlice};
use brain_render::texture::{texture_layout, timepoint_texels, TextureLayout};

fn scan() -> brain_render::volume::Volume {
    let first: Vec<u32> = (0..24).collect();
    let second: Vec<u32> = (100..124).collect();
    let units = vec![
        NativeSlice { shape: vec![2, 3, 4], data: first },
        NativeSlice { shape: vec![2, 3, 4], data: second },
    ];
    decode_all(&[2, 3, 4, 2], &units).expect("decodes").volume
}

#[test]
fn texels_come_in_upload_order() {
    let volume = scan();
    let first = timepoint_texels(&volume, 0).expect("timepoint 0");
    assert_eq!(first, (0..24).collect::<Vec<u32>>());
    let second = timepoint_texels(&volume, 1).expect("timepoint 1");
    assert_eq!(second, (100..124).collect::<Vec<u32>>());
    for k in 0..4usize {
        for j in 0..3usize {
            for i in 0..2usize {
                assert_eq!(second[i + 2 * (j + 3 * k)], volume.get(i, j, k, 1));
            }
        }
    }
}

#[test]
fn texels_of_a_missing_timepoint_are_none() {
    let volume = scan();
    assert_eq!(timepoint_texels(&volume, 2), None);
}

#[test]
fn texture_layout_follows_the_dimensions() {
    let volume = scan();
    assert_eq!(
        texture_layout(&volume),
        TextureLayout { width: 2, height: 3, depth: 4, bytes_per_row: 8, rows_per_image: 3 }
    );
}
