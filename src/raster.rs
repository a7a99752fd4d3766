use vstd::arithmetic::div_mod::lemma_fundamental_div_mod_converse;
use vstd::prelude::*;

verus! {

/// A finished RGBA8 image. Verification sees it only through
/// `raster_bytes` and `raster_size`; the image itself is handed on to
/// whatever encodes or stores it.
#[verifier::external_body]
pub struct Raster {
    pub image: image::RgbaImage,
}

/// The raw RGBA8 bytes that an image buffer holds, row by row.
pub uninterp spec fn raster_bytes(img: Raster) -> Seq<u8>;

/// The (width, height) of an image buffer, in pixels.
pub uninterp spec fn raster_size(img: Raster) -> (u32, u32);

/// Number of bytes per RGBA8 pixel.
pub const CHANNELS: usize = 4;

/// Relies on `image::ImageBuffer::from_raw`: it takes the buffer as it is when
/// `4 * width` and then `4 * width * height` fit in `usize` and the latter is
/// at most the buffer's length, and gives `None` otherwise.
#[verifier::external_body]
fn rgba_from_raw(width: u32, height: u32, buf: Vec<u8>) -> (r: Option<Raster>)
    ensures
        r.is_some() <==> (4 * width <= usize::MAX && 4 * width * height <= usize::MAX && 4
            * width * height <= buf@.len()),
        r matches Some(img) ==> raster_bytes(img) == buf@ && raster_size(img).0 == width
            && raster_size(img).1 == height,
{
    image::RgbaImage::from_raw(width, height, buf).map(|image| Raster { image })
}

/// The bytes of a sequence of RGBA8 pixels laid end to end.
pub open spec fn flatten_pixels(pixels: Seq<[u8; 4]>) -> Seq<u8> {
    Seq::new(4 * pixels.len(), |k: int| pixels[k / 4]@[k % 4])
}

/// Builds the `res[0]` by `res[1]` RGBA8 image whose pixels, row by row, are
/// `pixels`.
pub fn assemble_raster(res: [u32; 2], pixels: &Vec<[u8; 4]>) -> (r: Raster)
    requires
        pixels@.len() == res[0] as int * res[1] as int,
        4 * res[0] as int <= usize::MAX,
        4 * res[0] as int * res[1] as int <= usize::MAX,
    ensures
        raster_size(r) == (res[0], res[1]),
        raster_bytes(r) == flatten_pixels(pixels@),
{
    let n = pixels.len();
    proof {
        assert(4 * res[0] as int * res[1] as int == 4 * n) by (nonlinear_arith)
            requires
                n == res[0] as int * res[1] as int,
        ;
    }
    let mut bytes: Vec<u8> = Vec::with_capacity(n * CHANNELS);
    let mut i: usize = 0;
    while i < n
        invariant
            n == pixels@.len(),
            4 * n <= usize::MAX,
            i <= n,
            bytes@.len() == 4 * i,
            forall|k: int| 0 <= k < 4 * i ==> #[trigger] bytes@[k] == pixels@[k / 4]@[k % 4],
        decreases n - i,
    {
        let px: [u8; 4] = pixels[i];
        bytes.push(px[0]);
        bytes.push(px[1]);
        bytes.push(px[2]);
        bytes.push(px[3]);
        proof {
            assert forall|k: int| 0 <= k < 4 * (i + 1) implies #[trigger] bytes@[k] == pixels@[k
                / 4]@[k % 4] by {
                if k >= 4 * i {
                    assert(k / 4 == i as int);
                    assert(k % 4 == k - 4 * i);
                }
            }
        }
        i = i + 1;
    }
    assert(bytes@ =~= flatten_pixels(pixels@));
    rgba_from_raw(res[0], res[1], bytes).unwrap()
}

/// Computes every pixel of a `res[0]` by `res[1]` raster, row by row, each
/// by one call of `pixel(x, y)`: entry `i` is the color of column
/// `i % res[0]` in row `i / res[0]`.
pub fn collect_pixels<F>(res: [u32; 2], pixel: F) -> (r: Vec<[u8; 4]>) where
    F: Fn(u32, u32) -> [u8; 4],
    requires
        res[0] as int * res[1] as int <= usize::MAX,
        forall|x: u32, y: u32| x < res[0] && y < res[1] ==> #[trigger] pixel.requires((x, y)),
    ensures
        r@.len() == res[0] as int * res[1] as int,
        forall|i: int|
            0 <= i < r@.len() ==> pixel.ensures(
                ((i % res[0] as int) as u32, (i / res[0] as int) as u32),
                #[trigger] r@[i],
            ),
{
    let width: u32 = res[0];
    let height: u32 = res[1];
    let mut out: Vec<[u8; 4]> = Vec::new();
    let mut y: u32 = 0;
    while y < height
        invariant
            width == res[0],
            height == res[1],
            width as int * height as int <= usize::MAX,
            forall|x: u32, y: u32| x < width && y < height ==> #[trigger] pixel.requires((x, y)),
            y <= height,
            out@.len() == y as int * width as int,
            forall|i: int|
                0 <= i < out@.len() ==> pixel.ensures(
                    ((i % width as int) as u32, (i / width as int) as u32),
                    #[trigger] out@[i],
                ),
        decreases height - y,
    {
        let mut x: u32 = 0;
        while x < width
            invariant
                width == res[0],
                height == res[1],
                width as int * height as int <= usize::MAX,
                forall|x: u32, y: u32|
                    x < width && y < height ==> #[trigger] pixel.requires((x, y)),
                y < height,
                x <= width,
                out@.len() == y as int * width as int + x,
                forall|i: int|
                    0 <= i < out@.len() ==> pixel.ensures(
                        ((i % width as int) as u32, (i / width as int) as u32),
                        #[trigger] out@[i],
                    ),
            decreases width - x,
        {
            let c = pixel(x, y);
            proof {
                let i = y as int * width as int + x;
                lemma_fundamental_div_mod_converse(i, width as int, y as int, x as int);
            }
            out.push(c);
            x = x + 1;
        }
        proof {
            assert((y + 1) as int * width as int == y as int * width as int + width) by (
            nonlinear_arith);
        }
        y = y + 1;
    }
    assert(height as int * width as int == width as int * height as int) by (nonlinear_arith);
    out
}

} // verus!
