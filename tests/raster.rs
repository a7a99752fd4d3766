use raytrace::{assemble_raster, collect_pixels};

#[test]
fn raster_holds_pixels_row_by_row() {
    let pixels = vec![[1u8, 2, 3, 4], [5, 6, 7, 8], [9, 10, 11, 12], [13, 14, 15, 16], [17, 18, 19, 20], [21, 22, 23, 24]];
    let raster = assemble_raster([3, 2], &pixels);
    assert_eq!(raster.image.width(), 3);
    assert_eq!(raster.image.height(), 2);
    let expected: Vec<u8> = (1u8..=24).collect();
    assert_eq!(raster.image.as_raw(), &expected);
    assert_eq!(raster.image.get_pixel(1, 1).0, [17, 18, 19, 20]);
}

#[test]
fn empty_raster() {
    let raster = assemble_raster([0, 5], &Vec::new());
    assert_eq!(raster.image.width(), 0);
    assert_eq!(raster.image.height(), 5);
    assert!(raster.image.as_raw().is_empty());
}

#[test]
fn pixels_collected_in_row_major_order() {
    let pixels = collect_pixels([3, 2], |x, y| [x as u8, y as u8, 0, 255]);
    assert_eq!(
        pixels,
        vec![[0, 0, 0, 255], [1, 0, 0, 255], [2, 0, 0, 255], [0, 1, 0, 255], [1, 1, 0, 255], [2, 1, 0, 255]]
    );
}

#[test]
fn collected_pixels_assemble_into_image() {
    let pixels = collect_pixels([4, 3], |x, y| [(10 * x + y) as u8, 0, 0, 255]);
    let raster = assemble_raster([4, 3], &pixels);
    for y in 0..3u32 {
        for x in 0..4u32 {
            assert_eq!(raster.image.get_pixel(x, y).0, [(10 * x + y) as u8, 0, 0, 255]);
        }
    }
}

#[test]
fn uniform_white_raster() {
    let pixels = collect_pixels([2, 2], |_, _| [255, 255, 255, 255]);
    let raster = assemble_raster([2, 2], &pixels);
    assert!(raster.image.as_raw().iter().all(|&b| b == 255));
}
