use crate::error::CompressError;
use crate::palette::{expanded, indexes_in_range, reconstruct, MAX_PALETTE_LEN};
use crate::quantize::{quantizable_sides, quantize};
use crate::raster::{Rgba, RgbaRaster};
use crate::resize::{resize, ResizeFactor};
use vstd::prelude::*;

verus! {

/// One frame of an animation: its pixels, its offset on the canvas, and how
/// long it shows, `delay_num / delay_den` milliseconds.
#[derive(Debug)]
pub struct AnimFrame {
    pub raster: RgbaRaster,
    pub left: u32,
    pub top: u32,
    pub delay_num: u32,
    pub delay_den: u32,
}

impl AnimFrame {
    pub open spec fn wf(&self) -> bool {
        self.raster.wf() && self.delay_den != 0
    }
}

/// A frame as plain values: left, top, delay numerator, delay denominator,
/// width, height and RGBA bytes.
pub open spec fn frame_view(f: AnimFrame) -> (u32, u32, u32, u32, u32, u32, Seq<u8>) {
    (f.left, f.top, f.delay_num, f.delay_den, f.raster.width, f.raster.height, f.raster.data@)
}

pub open spec fn frames_view(fs: Seq<AnimFrame>) -> Seq<(u32, u32, u32, u32, u32, u32, Seq<u8>)> {
    fs.map_values(|f: AnimFrame| frame_view(f))
}

/// A decoded frame has a non-zero delay denominator and four bytes per pixel.
pub open spec fn frame_view_valid(v: (u32, u32, u32, u32, u32, u32, Seq<u8>)) -> bool {
    v.3 != 0 && v.6.len() == 4 * (v.4 as int * v.5 as int)
}

/// Every decoded frame is valid.
pub open spec fn all_frames_valid(fs: Seq<(u32, u32, u32, u32, u32, u32, Seq<u8>)>) -> bool {
    forall|i: int| 0 <= i < fs.len() ==> frame_view_valid(#[trigger] fs[i])
}

/// The frames, in stream order, that decoding the animated GIF `bytes`
/// yields, or `None` where decoding fails.
pub uninterp spec fn decoded_frames(bytes: Seq<u8>) -> Option<
    Seq<(u32, u32, u32, u32, u32, u32, Seq<u8>)>,
>;

/// The bytes of an infinitely looping GIF made of these frames, in order.
pub uninterp spec fn looping_gif(frames: Seq<(u32, u32, u32, u32, u32, u32, Seq<u8>)>) -> Seq<u8>;

/// `g` is what processing the source frame `src` with `factor` may give: the
/// same delay, offsets and sides scaled, pixels drawn from a palette.
pub open spec fn frame_follows(
    src: (u32, u32, u32, u32, u32, u32, Seq<u8>),
    g: AnimFrame,
    factor: ResizeFactor,
) -> bool {
    &&& g.wf()
    &&& g.delay_num == src.2 && g.delay_den == src.3
    &&& g.left == factor.scaled(src.0 as int) && g.top == factor.scaled(src.1 as int)
    &&& g.raster.width == factor.scaled(src.4 as int)
    &&& g.raster.height == factor.scaled(src.5 as int)
    &&& 1 <= g.raster.width && 1 <= g.raster.height
    &&& drawn_from_palette(g)
}

/// After scaling by `factor`, the frame `src` is within the sizes the
/// quantizer accepts (and so keeps both sides).
pub open spec fn frame_quantizable(src: (u32, u32, u32, u32, u32, u32, Seq<u8>), factor: ResizeFactor) -> bool {
    quantizable_sides(factor.scaled(src.4 as int), factor.scaled(src.5 as int))
}

/// Resizing the frame `src` by `factor` would floor a side to nothing.
pub open spec fn resize_fails(src: (u32, u32, u32, u32, u32, u32, Seq<u8>), factor: ResizeFactor) -> bool {
    !factor.is_identity() && (factor.scaled(src.4 as int) == 0 || factor.scaled(src.5 as int) == 0)
}

/// Relies on GifDecoder::new, AnimationDecoder::into_frames and
/// Frames::collect_frames; each frame is handed on with its offsets, its
/// delay as a ratio of milliseconds, and its RGBA buffer. Callers check the
/// buffers and delays.
#[verifier::external_body]
fn decode_gif(bytes: &[u8]) -> (r: Result<Vec<AnimFrame>, image::ImageError>)
    ensures
        r is Ok <==> decoded_frames(bytes@) is Some,
        r matches Ok(v) ==> decoded_frames(bytes@) == Some(frames_view(v@)),
{
    let decoder = image::codecs::gif::GifDecoder::new(std::io::Cursor::new(bytes))?;
    let frames = image::AnimationDecoder::into_frames(decoder).collect_frames()?;
    Ok(frames.into_iter().map(|f| {
        let (delay_num, delay_den) = f.delay().numer_denom_ms();
        let (left, top) = (f.left(), f.top());
        let buf = f.into_buffer();
        let raster = RgbaRaster { width: buf.width(), height: buf.height(), data: buf.into_raw() };
        AnimFrame { raster, left, top, delay_num, delay_den }
    }).collect())
}

/// The frames of an animated GIF, in the order they appear in the stream.
pub fn decode_frames(bytes: &[u8]) -> (r: Result<Vec<AnimFrame>, CompressError>)
    ensures
        r is Ok <==> (decoded_frames(bytes@) matches Some(fs) && all_frames_valid(fs)),
        r matches Ok(v) ==> decoded_frames(bytes@) == Some(frames_view(v@)) && forall|i: int|
            0 <= i < v@.len() ==> (#[trigger] v@[i]).wf(),
        r matches Err(e) ==> e == CompressError::DecodeFailed,
{
    let frames = match decode_gif(bytes) {
        Ok(f) => f,
        Err(_) => return Err(CompressError::DecodeFailed),
    };
    let ghost views = frames_view(frames@);
    assert(views.len() == frames@.len());
    let mut i: usize = 0;
    while i < frames.len()
        invariant
            views == frames_view(frames@),
            decoded_frames(bytes@) == Some(views),
            views.len() == frames@.len(),
            i <= frames@.len(),
            forall|j: int| 0 <= j < i ==> (#[trigger] frames@[j]).wf(),
            forall|j: int| 0 <= j < i ==> frame_view_valid(#[trigger] views[j]),
        decreases frames@.len() - i,
    {
        let f = &frames[i];
        assert(views[i as int] == frame_view(frames@[i as int]));
        if f.delay_den == 0 || !f.raster.has_consistent_size() {
            assert(!frame_view_valid(views[i as int]));
            assert(!all_frames_valid(views));
            return Err(CompressError::DecodeFailed);
        }
        i = i + 1;
    }
    Ok(frames)
}

/// The frame's pixels are those of some palette of at most 256 colours
/// expanded through one index per pixel.
pub open spec fn drawn_from_palette(f: AnimFrame) -> bool {
    exists|p: Seq<Rgba>, idx: Seq<u8>|
        p.len() <= MAX_PALETTE_LEN && idx.len() == f.raster.pixel_count() && indexes_in_range(
            idx,
            p.len() as int,
        ) && f.raster.data@ == #[trigger] expanded(p, idx)
}

/// Resizes, quantizes and rebuilds one frame on its own palette. The frame
/// keeps its delay; its offsets scale with the factor.
pub fn process_frame(frame: &AnimFrame, factor: ResizeFactor, quality: u8) -> (r: Result<
    AnimFrame,
    CompressError,
>)
    requires
        frame.wf(),
        factor.wf(),
    ensures
        r matches Ok(g) ==> frame_follows(frame_view(*frame), g, factor),
        r == Err::<AnimFrame, CompressError>(CompressError::InvalidResizeFactor) <==> resize_fails(
            frame_view(*frame),
            factor,
        ),
        quality > 100 ==> r is Err,
        quality <= 100 && frame_quantizable(frame_view(*frame), factor) ==> r is Ok,
        r matches Err(e) ==> e == CompressError::InvalidResizeFactor || e
            == CompressError::QuantizationFailed || e == CompressError::EncodeFailed,
{
    let resized = resize(&frame.raster, factor)?;
    let q = quantize(&resized, quality)?;
    let byte_len = resized.data.len();
    assert(4 * q.indexes@.len() == byte_len);
    proof {
        if resized.width == 0 || resized.height == 0 {
            assert(resized.pixel_count() == 0) by (nonlinear_arith)
                requires
                    resized.width == 0 || resized.height == 0,
                    resized.pixel_count() == resized.width as int * resized.height as int,
            ;
        }
    }
    let data = reconstruct(&q.palette, &q.indexes)?;
    let raster = RgbaRaster { width: resized.width, height: resized.height, data };
    Ok(
        AnimFrame {
            raster,
            left: factor.scale(frame.left),
            top: factor.scale(frame.top),
            delay_num: frame.delay_num,
            delay_den: frame.delay_den,
        },
    )
}

/// Processes every frame on its own, in order. The output has one frame per
/// input frame, at the same position, with the same delay; the first failure
/// aborts the whole animation.
pub fn process_frames(frames: &Vec<AnimFrame>, factor: ResizeFactor, quality: u8) -> (r: Result<
    Vec<AnimFrame>,
    CompressError,
>)
    requires
        forall|i: int| 0 <= i < frames@.len() ==> (#[trigger] frames@[i]).wf(),
        factor.wf(),
    ensures
        r matches Ok(out) ==> out@.len() == frames@.len() && forall|i: int|
            0 <= i < out@.len() ==> frame_follows(frame_view(frames@[i]), #[trigger] out@[i], factor),
        frames@.len() > 0 && resize_fails(frame_view(frames@[0]), factor) ==> r
            == Err::<Vec<AnimFrame>, CompressError>(CompressError::InvalidResizeFactor),
        frames@.len() > 0 && quality > 100 ==> r is Err,
        quality <= 100 && (forall|i: int|
            0 <= i < frames@.len() ==> frame_quantizable(frame_view(#[trigger] frames@[i]), factor))
            ==> r is Ok,
        r matches Err(e) ==> e == CompressError::InvalidResizeFactor || e
            == CompressError::QuantizationFailed || e == CompressError::EncodeFailed,
{
    let mut out: Vec<AnimFrame> = Vec::with_capacity(frames.len());
    let mut i: usize = 0;
    while i < frames.len()
        invariant
            forall|j: int| 0 <= j < frames@.len() ==> (#[trigger] frames@[j]).wf(),
            factor.wf(),
            i <= frames@.len(),
            out@.len() == i,
            forall|j: int|
                0 <= j < i ==> frame_follows(frame_view(frames@[j]), #[trigger] out@[j], factor),
            i > 0 ==> quality <= 100 && !resize_fails(frame_view(frames@[0]), factor),
        decreases frames@.len() - i,
    {
        let g = process_frame(&frames[i], factor, quality)?;
        out.push(g);
        i = i + 1;
    }
    Ok(out)
}

/// Relies on GifEncoder::new, GifEncoder::set_repeat(Repeat::Infinite) and
/// GifEncoder::encode_frames, fed frames built by Frame::from_parts,
/// RgbaImage::from_raw (which accepts four bytes per pixel) and
/// Delay::from_numer_denom_ms (which asserts a non-zero denominator).
/// Frames of 1 to 65535 pixels a side are accepted; a larger side fails.
#[verifier::external_body]
fn write_gif(frames: &Vec<AnimFrame>) -> (r: Result<Vec<u8>, image::ImageError>)
    requires
        forall|i: int| 0 <= i < frames@.len() ==> (#[trigger] frames@[i]).wf(),
    ensures
        (forall|i: int|
            0 <= i < frames@.len() ==> 1 <= (#[trigger] frames@[i]).raster.width <= 65535 && 1
                <= frames@[i].raster.height <= 65535) ==> r is Ok,
        r matches Ok(v) ==> v@ == looping_gif(frames_view(frames@)),
{
    let mut out = Vec::new();
    {
        let mut enc = image::codecs::gif::GifEncoder::new(&mut out);
        enc.set_repeat(image::codecs::gif::Repeat::Infinite)?;
        enc.encode_frames(frames.iter().map(|f| {
            let buf = image::RgbaImage::from_raw(f.raster.width, f.raster.height, f.raster.data.clone());
            let delay = image::Delay::from_numer_denom_ms(f.delay_num, f.delay_den);
            image::Frame::from_parts(buf.expect("four bytes per pixel"), f.left, f.top, delay)
        }))?;
    }
    Ok(out)
}

/// Assembles the frames, in order, into an infinitely looping GIF.
pub fn encode_animation(frames: &Vec<AnimFrame>) -> (r: Result<Vec<u8>, CompressError>)
    requires
        forall|i: int| 0 <= i < frames@.len() ==> (#[trigger] frames@[i]).wf(),
    ensures
        (forall|i: int|
            0 <= i < frames@.len() ==> 1 <= (#[trigger] frames@[i]).raster.width <= 65535 && 1
                <= frames@[i].raster.height <= 65535) ==> r is Ok,
        r matches Ok(v) ==> v@ == looping_gif(frames_view(frames@)),
        r matches Err(e) ==> e == CompressError::EncodeFailed,
{
    match write_gif(frames) {
        Ok(v) => Ok(v),
        Err(_) => Err(CompressError::EncodeFailed),
    }
}

} // verus!
