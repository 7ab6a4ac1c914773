use crate::error::CompressError;
use crate::palette::{check_remapped, indexes_in_range, Quantized, MAX_PALETTE_LEN};
use crate::raster::{Rgba, RgbaRaster};
use vstd::prelude::*;

verus! {

#[verifier::external_type_specification]
#[verifier::external_body]
pub struct ExQuantError(imagequant::Error);

/// The most pixels the quantizer takes: `isize::MAX` over the sixteen bytes
/// of its internal float pixel.
pub const MAX_QUANT_PIXELS: u64 = 576460752303423487;

/// The largest side the quantizer takes, `i32::MAX`.
pub const MAX_QUANT_SIDE: u32 = 2147483647;

/// A `w` by `h` image is within the sizes the quantizer accepts.
pub open spec fn quantizable_sides(w: int, h: int) -> bool {
    &&& 1 <= w <= MAX_QUANT_SIDE
    &&& 1 <= h <= MAX_QUANT_SIDE
    &&& w * h <= MAX_QUANT_PIXELS
}

/// Relies on imagequant::new, Attributes::set_quality(0, quality),
/// Attributes::new_image (gamma 0, the default, which means sRGB),
/// Attributes::quantize and QuantizationResult::remapped.
/// - set_quality refuses a target above 100; with a lowest quality of 0 the
///   accepted error is 1e20, so the result is never refused as too poor.
/// - new_image refuses only the sizes that Image::check_image_size rejects: a
///   side of 0, a side above i32::MAX, or more than isize::MAX / 16 pixels.
/// - remapped gives a palette of at most 256 colours and one palette index
///   per pixel.
#[verifier::external_body]
fn quantize_pixels(pixels: Vec<Rgba>, width: usize, height: usize, quality: u8) -> (r: Result<
    (Vec<Rgba>, Vec<u8>),
    imagequant::Error,
>)
    requires
        pixels@.len() == width * height,
    ensures
        quality > 100 || width == 0 || height == 0 ==> r is Err,
        quality <= 100 && quantizable_sides(width as int, height as int) ==> r is Ok,
        r matches Ok((p, idx)) ==> p@.len() <= MAX_PALETTE_LEN && idx@.len() == width * height
            && indexes_in_range(idx@, p@.len() as int),
{
    let mut attr = imagequant::new();
    attr.set_quality(0, quality)?;
    let px: Vec<imagequant::RGBA> = pixels.iter().map(|p| imagequant::RGBA::new(p.r, p.g, p.b, p.a)).collect();
    let mut img = attr.new_image(px, width, height, Default::default())?;
    let mut res = attr.quantize(&mut img)?;
    let (pal, idx) = res.remapped(&mut img)?;
    Ok((pal.iter().map(|c| Rgba { r: c.r, g: c.g, b: c.b, a: c.a }).collect(), idx))
}

/// Reduces the raster to a palette of at most 256 colours and one index per
/// pixel, with `quality` as the upper bound on the quantization error the
/// quantizer may aim for (its lower bound is 0).
pub fn quantize(raster: &RgbaRaster, quality: u8) -> (r: Result<Quantized, CompressError>)
    requires
        raster.wf(),
    ensures
        quality > 100 ==> r == Err::<Quantized, CompressError>(CompressError::QuantizationFailed),
        raster.pixel_count() == 0 ==> r == Err::<Quantized, CompressError>(
            CompressError::QuantizationFailed,
        ),
        quality <= 100 && quantizable_sides(raster.width as int, raster.height as int) ==> r is Ok,
        r matches Ok(q) ==> q.consistent(raster.pixel_count()) && q.palette@.len() >= 1,
        r matches Err(e) ==> e == CompressError::QuantizationFailed,
{
    let pixels = raster.pixels();
    let count = pixels.len();
    match quantize_pixels(pixels, raster.width as usize, raster.height as usize, quality) {
        Ok((palette, indexes)) => {
            let r = check_remapped(palette, indexes, count);
            proof {
                if r is Ok {
                    let q = r->Ok_0;
                    assert(raster.pixel_count() != 0) by (nonlinear_arith)
                        requires
                            raster.width != 0,
                            raster.height != 0,
                            raster.pixel_count() == raster.width as int * raster.height as int,
                    ;
                    assert((q.indexes@[0] as int) < q.palette@.len());
                }
            }
            r
        },
        Err(_) => Err(CompressError::QuantizationFailed),
    }
}

} // verus!
