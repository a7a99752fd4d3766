use raytrace::{device_coord, pixel_device_coords, DeviceCoord};

fn value(c: DeviceCoord) -> f64 {
    c.num as f64 / c.den as f64
}

#[test]
fn corners_map_to_extremes_even_width() {
    let res = [4u32, 6u32];
    let (r0, d0) = pixel_device_coords(0, res);
    assert_eq!((value(r0), value(d0)), (-1.0, -1.0));
    let (r1, d1) = pixel_device_coords(4 * 6 - 1, res);
    assert_eq!((value(r1), value(d1)), (1.0, 1.0));
}

#[test]
fn corners_map_to_extremes_odd_width() {
    let res = [5u32, 3u32];
    let (r0, d0) = pixel_device_coords(0, res);
    assert_eq!((value(r0), value(d0)), (-1.0, -1.0));
    let (r1, d1) = pixel_device_coords(5 * 3 - 1, res);
    assert_eq!((value(r1), value(d1)), (1.0, 1.0));
}

#[test]
fn odd_extent_has_exact_center() {
    assert_eq!(device_coord(2, 5), DeviceCoord { num: 0, den: 4 });
}

#[test]
fn device_coord_formula() {
    assert_eq!(device_coord(1, 4), DeviceCoord { num: -1, den: 3 });
    assert_eq!(device_coord(3, 4), DeviceCoord { num: 3, den: 3 });
    assert_eq!(device_coord(0, 1920), DeviceCoord { num: -1919, den: 1919 });
}

#[test]
fn largest_extent_fits() {
    let c = device_coord(u32::MAX - 1, u32::MAX);
    assert_eq!(c.num, c.den as i64);
    let c0 = device_coord(0, u32::MAX);
    assert_eq!(c0.num, -(c0.den as i64));
}

#[test]
fn pixel_index_is_row_major() {
    let res = [3u32, 2u32];
    let (r, d) = pixel_device_coords(4, res);
    assert_eq!(r, device_coord(1, 3));
    assert_eq!(d, device_coord(1, 2));
}

#[test]
fn smallest_extent_maps_to_both_edges() {
    assert_eq!(device_coord(0, 2), DeviceCoord { num: -1, den: 1 });
    assert_eq!(device_coord(1, 2), DeviceCoord { num: 1, den: 1 });
    let (r, d) = pixel_device_coords(3, [2, 2]);
    assert_eq!((value(r), value(d)), (1.0, 1.0));
}
