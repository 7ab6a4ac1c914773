use crate::error::CompressError;
use crate::palette::{alpha_table, rgb_table, split_palette, Quantized, MAX_PALETTE_LEN};
use crate::raster::{narrow_to_rgb, rgb_of, RgbaRaster};
use vstd::prelude::*;

verus! {

#[verifier::external_type_specification]
#[verifier::external_body]
pub struct ExImageError(image::ImageError);

#[verifier::external_type_specification]
#[verifier::external_body]
pub struct ExPngEncodingError(png::EncodingError);

/// The bytes of an eight-bit indexed PNG of `width` by `height` pixels with
/// colour table `rgb`, transparency table `alpha` and bitmap `indexes`,
/// compressed at the best level with no row filter.
pub uninterp spec fn indexed_png(
    width: nat,
    height: nat,
    rgb: Seq<u8>,
    alpha: Seq<u8>,
    indexes: Seq<u8>,
) -> Seq<u8>;

/// The bytes of a baseline JPEG of the `width` by `height` RGB pixels `rgb`
/// at the given quality.
pub uninterp spec fn jpeg_encoded(rgb: Seq<u8>, width: nat, height: nat, quality: u8) -> Seq<u8>;

/// What decoding `bytes` and converting the image to eight-bit RGBA yields:
/// width, height and raw bytes, or `None` where decoding fails.
pub uninterp spec fn decoded_rgba(bytes: Seq<u8>) -> Option<(u32, u32, Seq<u8>)>;

/// Relies on image::load_from_memory, then DynamicImage::into_rgba8 handed on
/// as width, height and raw bytes. Callers check the length.
#[verifier::external_body]
fn load_rgba(bytes: &[u8]) -> (r: Result<(u32, u32, Vec<u8>), image::ImageError>)
    ensures
        r is Ok <==> decoded_rgba(bytes@) is Some,
        r matches Ok((w, h, d)) ==> decoded_rgba(bytes@) == Some((w, h, d@)),
{
    let buf = image::load_from_memory(bytes)?.into_rgba8();
    Ok((buf.width(), buf.height(), buf.into_raw()))
}

/// Decodes `bytes` into an RGBA raster.
pub fn decode_raster(bytes: &[u8]) -> (r: Result<RgbaRaster, CompressError>)
    ensures
        r is Ok <==> (decoded_rgba(bytes@) matches Some((w, h, d)) && d.len() == 4 * (w as int
            * h as int)),
        r matches Ok(x) ==> x.wf() && decoded_rgba(bytes@) == Some((x.width, x.height, x.data@)),
        r matches Err(e) ==> e == CompressError::DecodeFailed,
{
    let (width, height, data) = match load_rgba(bytes) {
        Ok(parts) => parts,
        Err(_) => return Err(CompressError::DecodeFailed),
    };
    match RgbaRaster::from_parts(width, height, data) {
        Some(x) => Ok(x),
        None => Err(CompressError::DecodeFailed),
    }
}

/// Relies on png::Encoder with colour type Indexed, bit depth 8, the PLTE
/// and tRNS tables given, best compression and no filtering, followed by
/// Writer::write_image_data and Writer::finish, which fail only on a zero
/// side or on a bitmap whose length is not one byte per pixel.
#[verifier::external_body]
fn write_indexed_png(width: u32, height: u32, rgb: &Vec<u8>, alpha: &Vec<u8>, indexes: &Vec<u8>) -> (r:
    Result<Vec<u8>, png::EncodingError>)
    ensures
        width > 0 && height > 0 && indexes@.len() == width as int * height as int ==> r is Ok,
        r matches Ok(v) ==> v@ == indexed_png(width as nat, height as nat, rgb@, alpha@, indexes@),
{
    let mut out = Vec::new();
    let mut enc = png::Encoder::new(&mut out, width, height);
    enc.set_palette(rgb.as_slice());
    enc.set_trns(alpha.as_slice());
    enc.set_color(png::ColorType::Indexed);
    enc.set_depth(png::BitDepth::Eight);
    enc.set_compression(png::Compression::Best);
    enc.set_filter(png::FilterType::NoFilter);
    enc.set_adaptive_filter(png::AdaptiveFilterType::NonAdaptive);
    let mut writer = enc.write_header()?;
    writer.write_image_data(indexes)?;
    writer.finish()?;
    Ok(out)
}

/// Serialises a palette and its indexes as an indexed PNG whose colour table
/// and transparency table are split from the palette entry by entry.
pub fn encode_indexed_png(width: u32, height: u32, q: &Quantized) -> (r: Result<Vec<u8>, CompressError>)
    requires
        q.palette@.len() <= MAX_PALETTE_LEN,
    ensures
        width > 0 && height > 0 && q.indexes@.len() == width as int * height as int ==> r is Ok,
        r matches Ok(v) ==> v@ == indexed_png(
            width as nat,
            height as nat,
            rgb_table(q.palette@),
            alpha_table(q.palette@),
            q.indexes@,
        ),
        r matches Err(e) ==> e == CompressError::EncodeFailed,
{
    let (rgb, alpha) = split_palette(&q.palette);
    match write_indexed_png(width, height, &rgb, &alpha, &q.indexes) {
        Ok(v) => Ok(v),
        Err(_) => Err(CompressError::EncodeFailed),
    }
}

/// The JPEG quality for a requested quality: three quarters of it, rounded
/// down.
pub fn jpeg_quality(quality: u8) -> (r: u8)
    ensures
        r == (3 * quality as int) / 4,
{
    ((3 * quality as u16) / 4) as u8
}

/// Relies on JpegEncoder::new_with_quality and ImageEncoder::write_image with
/// ExtendedColorType::Rgb8, which asserts that the buffer holds three bytes
/// per pixel and fails only on a side of 0 or above 65535.
#[verifier::external_body]
fn write_jpeg(rgb: &Vec<u8>, width: u32, height: u32, quality: u8) -> (r: Result<
    Vec<u8>,
    image::ImageError,
>)
    requires
        rgb@.len() == 3 * (width as int * height as int),
    ensures
        1 <= width <= 65535 && 1 <= height <= 65535 ==> r is Ok,
        r matches Ok(v) ==> v@ == jpeg_encoded(rgb@, width as nat, height as nat, quality),
{
    let mut out = Vec::new();
    let enc = image::codecs::jpeg::JpegEncoder::new_with_quality(&mut out, quality);
    image::ImageEncoder::write_image(enc, rgb, width, height, image::ExtendedColorType::Rgb8)?;
    Ok(out)
}

/// Re-encodes the raster as a JPEG, alpha dropped, at three quarters of the
/// requested quality.
pub fn encode_jpeg(raster: &RgbaRaster, quality: u8) -> (r: Result<Vec<u8>, CompressError>)
    requires
        raster.wf(),
    ensures
        1 <= raster.width <= 65535 && 1 <= raster.height <= 65535 ==> r is Ok,
        r matches Ok(v) ==> v@ == jpeg_encoded(
            rgb_of(raster.data@),
            raster.width as nat,
            raster.height as nat,
            (3 * quality as int / 4) as u8,
        ),
        r matches Err(e) ==> e == CompressError::EncodeFailed,
{
    let rgb = narrow_to_rgb(&raster.data);
    match write_jpeg(&rgb, raster.width, raster.height, jpeg_quality(quality)) {
        Ok(v) => Ok(v),
        Err(_) => Err(CompressError::EncodeFailed),
    }
}

} // verus!
