use vstd::arithmetic::div_mod::lemma_fundamental_div_mod_converse;
use vstd::prelude::*;

verus! {

/// A normalized device coordinate held as the exact fraction `num / den`,
/// with a positive denominator; it lies in `[-1, 1]`.
#[derive(Clone, Copy, Debug, PartialEq, Eq, Structural)]
pub struct DeviceCoord {
    pub num: i64,
    pub den: u64,
}

/// The device coordinate of pixel `index` along an axis of `extent` pixels:
/// `2 * index / (extent - 1) - 1`, over the common denominator.
pub open spec fn device_coord_of(index: nat, extent: nat) -> DeviceCoord {
    DeviceCoord { num: (2 * index - (extent - 1)) as i64, den: (extent - 1) as u64 }
}

/// The pixel's column and row in a row-major raster `width` pixels wide.
pub open spec fn pixel_xy(pixel: nat, width: nat) -> (nat, nat) {
    (pixel % width, pixel / width)
}

/// The device coordinates (right, down) of a pixel of a row-major raster of
/// `width` by `height` pixels.
pub open spec fn pixel_coords_of(pixel: nat, width: nat, height: nat) -> (
    DeviceCoord,
    DeviceCoord,
) {
    (
        device_coord_of(pixel_xy(pixel, width).0, width),
        device_coord_of(pixel_xy(pixel, width).1, height),
    )
}

/// Maps pixel `index` of an axis of `extent` pixels to its device coordinate.
/// An axis needs two pixels at least, one at each edge of device space.
pub fn device_coord(index: u32, extent: u32) -> (r: DeviceCoord)
    requires
        extent >= 2,
        index < extent,
    ensures
        r == device_coord_of(index as nat, extent as nat),
        r.den > 0,
        -(r.den as int) <= r.num <= r.den,
{
    let den: u64 = (extent - 1) as u64;
    let num: i64 = 2 * (index as i64) - (den as i64);
    DeviceCoord { num, den }
}

/// The device coordinates (right, down) of pixel number `pixel`, counted
/// row by row, for a raster of resolution `res`.
pub fn pixel_device_coords(pixel: usize, res: [u32; 2]) -> (r: (DeviceCoord, DeviceCoord))
    requires
        res[0] >= 2,
        res[1] >= 2,
        pixel < res[0] as int * res[1] as int,
    ensures
        r.0.den > 0 && r.1.den > 0,
        r == pixel_coords_of(pixel as nat, res[0] as nat, res[1] as nat),
{
    let width: usize = res[0] as usize;
    let height: u32 = res[1];
    proof {
        lemma_row_in_range(pixel as nat, width as nat, height as nat);
    }
    let x: u32 = (pixel % width) as u32;
    let y: u32 = (pixel / width) as u32;
    (device_coord(x, res[0]), device_coord(y, height))
}

proof fn lemma_row_in_range(pixel: nat, width: nat, height: nat)
    requires
        width > 0,
        pixel < width * height,
    ensures
        pixel % width < width,
        pixel / width < height,
{
    assert(pixel / width < height) by (nonlinear_arith)
        requires
            width > 0,
            pixel < width * height,
    {
        assert(pixel / width * width <= pixel);
    }
}

/// The first pixel maps to the corner `(-1, -1)` of device space and the last
/// pixel to the corner `(1, 1)`, whatever the parity of the resolution; with at
/// least two pixels per axis the denominators are positive, so these are the
/// exact values.
pub proof fn lemma_corner_pixels(width: nat, height: nat)
    requires
        width >= 2,
        height >= 2,
        width <= u32::MAX,
        height <= u32::MAX,
    ensures
        pixel_coords_of(0, width, height).0.num == -pixel_coords_of(0, width, height).0.den,
        pixel_coords_of(0, width, height).1.num == -pixel_coords_of(0, width, height).1.den,
        pixel_coords_of((width * height - 1) as nat, width, height).0.num == pixel_coords_of(
            (width * height - 1) as nat,
            width,
            height,
        ).0.den,
        pixel_coords_of((width * height - 1) as nat, width, height).1.num == pixel_coords_of(
            (width * height - 1) as nat,
            width,
            height,
        ).1.den,
        pixel_coords_of(0, width, height).0.den > 0,
        pixel_coords_of(0, width, height).1.den > 0,
{
    lemma_fundamental_div_mod_converse(0, width as int, 0, 0);
    let last = width * height - 1;
    assert(last == (height - 1) * width + (width - 1)) by (nonlinear_arith)
        requires
            last == width * height - 1,
    ;
    lemma_fundamental_div_mod_converse(last, width as int, height - 1, width - 1);
}

} // verus!
