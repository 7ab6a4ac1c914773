use crate::animation::{
    all_frames_valid, decode_frames, decoded_frames, encode_animation, frame_follows, frame_quantizable,
    frame_view, resize_fails,
    frames_view, looping_gif, process_frames, AnimFrame,
};
use crate::codec::{decode_raster, decoded_rgba, encode_indexed_png, encode_jpeg, indexed_png, jpeg_encoded};
use crate::error::CompressError;
use crate::palette::{alpha_table, indexes_in_range, rgb_table, MAX_PALETTE_LEN};
use crate::raster::{rgb_of, Rgba};
use crate::format::{detect, sniffed_kind, ImageKind};
use crate::quantize::{quantizable_sides, quantize};
use crate::resize::{resize, resized_pixels, ResizeFactor};
use vstd::prelude::*;

verus! {

/// What the size guard keeps: the compressed bytes, unless they are longer
/// than the original.
pub open spec fn guarded(original: Seq<u8>, compressed: Seq<u8>) -> Seq<u8> {
    if compressed.len() > original.len() {
        original
    } else {
        compressed
    }
}

/// Returns `compressed`, or a copy of `original` where `compressed` is longer.
pub fn size_guard(original: &[u8], compressed: Vec<u8>) -> (r: Vec<u8>)
    ensures
        r@ == guarded(original@, compressed@),
{
    if compressed.len() > original.len() {
        let copy = vstd::slice::slice_to_vec(original);
        copy
    } else {
        compressed
    }
}

/// The size guard never hands back more bytes than the original holds.
pub proof fn lemma_guard_never_grows(original: Seq<u8>, compressed: Seq<u8>)
    ensures
        guarded(original, compressed).len() <= original.len(),
{
}

/// `bytes` decode to a raster with four bytes per pixel.
pub open spec fn decodes_whole(bytes: Seq<u8>) -> bool {
    decoded_rgba(bytes) matches Some((w, h, d)) && d.len() == 4 * (w as int * h as int)
}

/// `bytes` decode to frames that all carry a valid delay and four bytes per
/// pixel.
pub open spec fn frames_decode_whole(bytes: Seq<u8>) -> bool {
    decoded_frames(bytes) matches Some(fs) && all_frames_valid(fs)
}

/// `out` is what the PNG branch may give for a `w` by `h` source: the guarded
/// indexed PNG of the scaled raster over some palette of 1 to 256 colours.
pub open spec fn png_branch_output(
    bytes: Seq<u8>,
    w: u32,
    h: u32,
    factor: ResizeFactor,
    out: Seq<u8>,
) -> bool {
    exists|p: Seq<Rgba>, idx: Seq<u8>|
        1 <= p.len() <= MAX_PALETTE_LEN && idx.len() == factor.scaled(w as int) * factor.scaled(
            h as int,
        ) && indexes_in_range(idx, p.len() as int) && out == guarded(
            bytes,
            #[trigger] indexed_png(
                factor.scaled(w as int) as nat,
                factor.scaled(h as int) as nat,
                rgb_table(p),
                alpha_table(p),
                idx,
            ),
        )
}

/// The JPEG that the JPEG branch writes for the decoded `w` by `h` raster
/// `d`: scaled, alpha dropped, at three quarters of the quality.
pub open spec fn jpeg_branch_encoding(
    w: u32,
    h: u32,
    d: Seq<u8>,
    quality: u8,
    factor: ResizeFactor,
) -> Seq<u8> {
    jpeg_encoded(
        rgb_of(resized_pixels(d, w, h, factor)),
        factor.scaled(w as int) as nat,
        factor.scaled(h as int) as nat,
        (3 * quality as int / 4) as u8,
    )
}

/// `out` is what the GIF branch may give: the guarded looping GIF of one
/// processed frame per decoded frame, in the same order.
pub open spec fn gif_branch_output(
    bytes: Seq<u8>,
    fs: Seq<(u32, u32, u32, u32, u32, u32, Seq<u8>)>,
    factor: ResizeFactor,
    out: Seq<u8>,
) -> bool {
    exists|outs: Seq<AnimFrame>|
        outs.len() == fs.len() && (forall|i: int|
            0 <= i < fs.len() ==> frame_follows(fs[i], #[trigger] outs[i], factor)) && out
            == guarded(bytes, #[trigger] looping_gif(frames_view(outs)))
}

/// Compresses an image: PNG becomes an indexed PNG, JPEG and WebP become a
/// JPEG, GIF becomes an infinitely looping GIF with each frame quantized on
/// its own. The raster is first scaled by `factor`. The result is the
/// encoding, or `bytes` unchanged where the encoding is longer.
pub fn compress(bytes: &[u8], quality: u8, factor: ResizeFactor) -> (r: Result<
    Vec<u8>,
    CompressError,
>)
    requires
        factor.wf(),
    ensures
        sniffed_kind(bytes@) is None ==> r == Err::<Vec<u8>, CompressError>(
            CompressError::UnsupportedFormat,
        ),
        r matches Err(e) ==> (e == CompressError::UnsupportedFormat <==> sniffed_kind(bytes@) is None),
        r matches Ok(out) ==> out@.len() <= bytes@.len(),
        // PNG
        sniffed_kind(bytes@) == Some(ImageKind::Png) ==> (r matches Ok(out) ==> (decoded_rgba(
            bytes@,
        ) matches Some((w, h, d)) && png_branch_output(bytes@, w, h, factor, out@))),
        sniffed_kind(bytes@) == Some(ImageKind::Png) && quality > 100 ==> r is Err,
        sniffed_kind(bytes@) == Some(ImageKind::Png) && decodes_whole(bytes@) && quality <= 100 && (
        decoded_rgba(bytes@) matches Some((w, h, d)) && quantizable_sides(
            factor.scaled(w as int),
            factor.scaled(h as int),
        )) ==> r is Ok,
        // JPEG and WebP
        (sniffed_kind(bytes@) == Some(ImageKind::Jpeg) || sniffed_kind(bytes@) == Some(
            ImageKind::WebP,
        )) ==> (r matches Ok(out) ==> (decoded_rgba(bytes@) matches Some((w, h, d)) && out@
            == guarded(bytes@, jpeg_branch_encoding(w, h, d, quality, factor)))),
        (sniffed_kind(bytes@) == Some(ImageKind::Jpeg) || sniffed_kind(bytes@) == Some(
            ImageKind::WebP,
        )) && decodes_whole(bytes@) ==> (decoded_rgba(bytes@) matches Some((w, h, d)) && (1
            <= factor.scaled(w as int) <= 65535 && 1 <= factor.scaled(h as int) <= 65535 ==> r
            is Ok)),
        // GIF
        sniffed_kind(bytes@) == Some(ImageKind::Gif) ==> (r matches Ok(out) ==> (decoded_frames(
            bytes@,
        ) matches Some(fs) && gif_branch_output(bytes@, fs, factor, out@))),
        sniffed_kind(bytes@) == Some(ImageKind::Gif) && quality > 100 && (decoded_frames(bytes@) matches Some(fs)
            && fs.len() > 0) ==> r is Err,
        sniffed_kind(bytes@) == Some(ImageKind::Gif) && frames_decode_whole(bytes@) && quality <= 100
            && (decoded_frames(bytes@) matches Some(fs) && forall|i: int|
            0 <= i < fs.len() ==> frame_quantizable(#[trigger] fs[i], factor) && factor.scaled(
                fs[i].4 as int,
            ) <= 65535 && factor.scaled(fs[i].5 as int) <= 65535) ==> r is Ok,
        // a factor that floors a side to nothing
        sniffed_kind(bytes@) is Some && sniffed_kind(bytes@) != Some(ImageKind::Gif) && decodes_whole(
            bytes@,
        ) && (decoded_rgba(bytes@) matches Some((w, h, d)) && !factor.is_identity() && (
        factor.scaled(w as int) == 0 || factor.scaled(h as int) == 0)) ==> r == Err::<
            Vec<u8>,
            CompressError,
        >(CompressError::InvalidResizeFactor),
        sniffed_kind(bytes@) == Some(ImageKind::Gif) && frames_decode_whole(bytes@) && (decoded_frames(
            bytes@,
        ) matches Some(fs) && fs.len() > 0 && resize_fails(fs[0], factor)) ==> r == Err::<
            Vec<u8>,
            CompressError,
        >(CompressError::InvalidResizeFactor),
        // decoding
        sniffed_kind(bytes@) is Some && sniffed_kind(bytes@) != Some(ImageKind::Gif) && !decodes_whole(
            bytes@,
        ) ==> r == Err::<Vec<u8>, CompressError>(CompressError::DecodeFailed),
        sniffed_kind(bytes@) == Some(ImageKind::Gif) && !frames_decode_whole(bytes@) ==> r == Err::<
            Vec<u8>,
            CompressError,
        >(CompressError::DecodeFailed),
{
    let kind = detect(bytes)?;
    let ghost mut src_w: u32 = 0;
    let ghost mut src_h: u32 = 0;
    let ghost mut pal: Seq<Rgba> = Seq::empty();
    let ghost mut idx: Seq<u8> = Seq::empty();
    let encoded = match kind {
        ImageKind::Png => {
            let decoded = decode_raster(bytes)?;
            let raster = resize(&decoded, factor)?;
            let q = quantize(&raster, quality)?;
            let enc = encode_indexed_png(raster.width, raster.height, &q)?;
            assert(q.indexes@.len() == factor.scaled(decoded.width as int) * factor.scaled(
                decoded.height as int,
            ));
            proof {
                src_w = decoded.width;
                src_h = decoded.height;
                pal = q.palette@;
                idx = q.indexes@;
            }
            enc
        },
        ImageKind::Jpeg | ImageKind::WebP => {
            let decoded = decode_raster(bytes)?;
            let raster = resize(&decoded, factor)?;
            encode_jpeg(&raster, quality)?
        },
        ImageKind::Gif => {
            let frames = decode_frames(bytes)?;
            proof {
                let fs = frames_view(frames@);
                assert forall|i: int| 0 <= i < frames@.len() implies #[trigger] frame_view(frames@[i])
                    == fs[i] by {}
            }
            let processed = process_frames(&frames, factor, quality)?;
            proof {
                let fs = frames_view(frames@);
                if (forall|i: int|
                    0 <= i < fs.len() ==> frame_quantizable(#[trigger] fs[i], factor) && factor.scaled(
                        fs[i].4 as int,
                    ) <= 65535 && factor.scaled(fs[i].5 as int) <= 65535) {
                    assert forall|i: int| 0 <= i < processed@.len() implies 1 <= (
                    #[trigger] processed@[i]).raster.width <= 65535 && 1
                        <= processed@[i].raster.height <= 65535 by {
                        assert(frame_view(frames@[i]) == fs[i]);
                        assert(frame_follows(frame_view(frames@[i]), processed@[i], factor));
                    }
                }
            }
            let enc = encode_animation(&processed)?;
            proof {
                let fs = frames_view(frames@);
                assert forall|i: int| 0 <= i < fs.len() implies frame_follows(
                    fs[i],
                    #[trigger] processed@[i],
                    factor,
                ) by {
                    assert(fs[i] == frame_view(frames@[i]));
                }
            }
            enc
        },
    };
    let out = size_guard(bytes, encoded);
    proof {
        lemma_guard_never_grows(bytes@, encoded@);
        if kind == ImageKind::Png {
            assert(out@ == guarded(
                bytes@,
                indexed_png(
                    factor.scaled(src_w as int) as nat,
                    factor.scaled(src_h as int) as nat,
                    rgb_table(pal),
                    alpha_table(pal),
                    idx,
                ),
            ));
            assert(png_branch_output(bytes@, src_w, src_h, factor, out@));
        }
    }
    Ok(out)
}

} // verus!
