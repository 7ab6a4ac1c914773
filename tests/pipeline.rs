use imgsqueeze::animation::{decode_frames, encode_animation, process_frames, AnimFrame};
use imgsqueeze::codec::{decode_raster, encode_indexed_png, jpeg_quality};
use imgsqueeze::error::CompressError;
use imgsqueeze::format::{detect, ImageKind};
use imgsqueeze::palette::{check_remapped, reconstruct, split_palette, Quantized};
use imgsqueeze::pipeline::{compress, size_guard};
use imgsqueeze::quantize::quantize;
use imgsqueeze::raster::{narrow_to_rgb, Rgba, RgbaRaster};
use imgsqueeze::resize::{resize, ResizeFactor};
use std::io::Cursor;

fn factor(f: f32) -> ResizeFactor {
    ResizeFactor::from_f32_bits(f.to_bits()).unwrap()
}

fn stripes_rgba(width: u32, height: u32, opaque: bool) -> Vec<u8> {
    let colours: [[u8; 4]; 4] = [[255, 0, 0, 255], [0, 255, 0, 128], [0, 0, 255, 0], [250, 250, 10, 64]];
    let mut data = Vec::new();
    for y in 0..height {
        for x in 0..width {
            let c = colours[((x / 5 + y / 7) % 4) as usize];
            data.extend_from_slice(&[c[0], c[1], c[2], if opaque { 255 } else { c[3] }]);
        }
    }
    data
}

fn png_rgb_bytes(width: u32, height: u32) -> Vec<u8> {
    let rgba = stripes_rgba(width, height, true);
    let rgb: Vec<u8> = rgba.chunks(4).flat_map(|p| [p[0], p[1], p[2]]).collect();
    let mut out = Vec::new();
    let mut enc = png::Encoder::new(&mut out, width, height);
    enc.set_color(png::ColorType::Rgb);
    enc.set_depth(png::BitDepth::Eight);
    enc.set_compression(png::Compression::Fast);
    let mut w = enc.write_header().unwrap();
    w.write_image_data(&rgb).unwrap();
    w.finish().unwrap();
    out
}

fn gif_bytes(frames: u32, width: u32, height: u32) -> Vec<u8> {
    let mut out = Vec::new();
    {
        let mut enc = image::codecs::gif::GifEncoder::new(&mut out);
        for i in 0..frames {
            let mut data = stripes_rgba(width, height, true);
            data[0] = (i * 40) as u8;
            let buf = image::RgbaImage::from_raw(width, height, data).unwrap();
            let delay = image::Delay::from_numer_denom_ms(100 + i * 10, 1);
            enc.encode_frame(image::Frame::from_parts(buf, 0, 0, delay)).unwrap();
        }
    }
    out
}

#[test]
fn zeros_are_unsupported() {
    assert_eq!(detect(&[0u8; 32]), Err(CompressError::UnsupportedFormat));
    assert_eq!(compress(&[0u8; 32], 80, ResizeFactor::identity()), Err(CompressError::UnsupportedFormat));
    assert_eq!(compress(&[], 80, ResizeFactor::identity()), Err(CompressError::UnsupportedFormat));
}

#[test]
fn detects_the_four_containers() {
    assert_eq!(detect(&[0x89, b'P', b'N', b'G', 13, 10, 26, 10, 0]), Ok(ImageKind::Png));
    assert_eq!(detect(&[0xff, 0xd8, 0xff, 0xe0]), Ok(ImageKind::Jpeg));
    assert_eq!(detect(b"GIF89a...."), Ok(ImageKind::Gif));
    assert_eq!(detect(b"GIF87a...."), Ok(ImageKind::Gif));
    assert_eq!(detect(b"RIFF\x10\x00\x00\x00WEBPVP8 "), Ok(ImageKind::WebP));
    assert_eq!(detect(b"BM\x00\x00\x00\x00"), Err(CompressError::UnsupportedFormat));
    assert_eq!(detect(b"GIF8"), Err(CompressError::UnsupportedFormat));
}

#[test]
fn resize_factor_from_float_bits() {
    let one = factor(1.0);
    assert_eq!(one, ResizeFactor { num: 8388608, shift: 23 });
    assert_eq!(factor(0.5), ResizeFactor { num: 8388608, shift: 24 });
    for bad in [0.0f32, -0.0, -0.5, 1.5, f32::NAN, f32::INFINITY, 1.0e-12] {
        assert_eq!(ResizeFactor::from_f32_bits(bad.to_bits()), Err(CompressError::InvalidResizeFactor));
    }
}

#[test]
fn scale_is_exact_floor() {
    assert_eq!(factor(0.5).scale(101), 50);
    assert_eq!(factor(1.0).scale(101), 101);
    // 0.7 as a float is just below 0.7, so ten pixels give six.
    assert_eq!(factor(0.7).scale(10), 6);
    assert_eq!(factor(0.25).scale(u32::MAX), 1073741823);
}

#[test]
fn resize_by_one_is_identity() {
    let data = stripes_rgba(7, 3, false);
    let raster = RgbaRaster::from_parts(7, 3, data.clone()).unwrap();
    let out = resize(&raster, factor(1.0)).unwrap();
    assert_eq!((out.width, out.height), (7, 3));
    assert_eq!(out.data, data);
}

#[test]
fn resize_halves_with_nearest_sampling() {
    let mut data = Vec::new();
    for i in 0..16u8 {
        data.extend_from_slice(&[i, i, i, 255]);
    }
    let raster = RgbaRaster::from_parts(4, 4, data.clone()).unwrap();
    let out = resize(&raster, factor(0.5)).unwrap();
    assert_eq!((out.width, out.height), (2, 2));
    assert_eq!(out.data.len(), 16);
    assert_ne!(out.data, data[..16].to_vec());
    for p in out.data.chunks(4) {
        assert!(p[0] < 16 && p[0] == p[1] && p[3] == 255);
    }
}

#[test]
fn resize_to_nothing_is_refused() {
    let raster = RgbaRaster::from_parts(3, 3, vec![0; 36]).unwrap();
    assert_eq!(resize(&raster, factor(0.25)).err(), Some(CompressError::InvalidResizeFactor));
}

#[test]
fn raster_size_is_checked() {
    assert!(RgbaRaster::from_parts(2, 2, vec![0; 16]).is_some());
    assert!(RgbaRaster::from_parts(2, 2, vec![0; 15]).is_none());
    assert!(RgbaRaster::from_parts(0, 5, vec![]).is_some());
    assert!(RgbaRaster::from_parts(3, 2, vec![0; 20]).is_none());
}

#[test]
fn narrowing_drops_alpha() {
    assert_eq!(narrow_to_rgb(&vec![1, 2, 3, 4, 5, 6, 7, 8]), vec![1, 2, 3, 5, 6, 7]);
    assert_eq!(narrow_to_rgb(&vec![]), Vec::<u8>::new());
}

#[test]
fn palette_splits_into_two_tables() {
    let p = vec![Rgba { r: 1, g: 2, b: 3, a: 4 }, Rgba { r: 5, g: 6, b: 7, a: 8 }];
    let (rgb, alpha) = split_palette(&p);
    assert_eq!(rgb, vec![1, 2, 3, 5, 6, 7]);
    assert_eq!(alpha, vec![4, 8]);
}

#[test]
fn reconstruct_expands_and_rejects_out_of_range() {
    let p = vec![Rgba { r: 1, g: 2, b: 3, a: 4 }, Rgba { r: 5, g: 6, b: 7, a: 8 }];
    assert_eq!(reconstruct(&p, &vec![1, 0, 1]), Ok(vec![5, 6, 7, 8, 1, 2, 3, 4, 5, 6, 7, 8]));
    assert_eq!(reconstruct(&p, &vec![0, 2]), Err(CompressError::EncodeFailed));
    assert_eq!(reconstruct(&vec![], &vec![]), Ok(vec![]));
}

#[test]
fn remapped_output_is_checked() {
    let p = vec![Rgba { r: 0, g: 0, b: 0, a: 255 }];
    assert!(check_remapped(p.clone(), vec![0, 0], 2).is_ok());
    assert_eq!(check_remapped(p.clone(), vec![0, 1], 2).err(), Some(CompressError::QuantizationFailed));
    assert_eq!(check_remapped(p.clone(), vec![0], 2).err(), Some(CompressError::QuantizationFailed));
    assert_eq!(check_remapped(vec![p[0]; 257], vec![0, 0], 2).err(), Some(CompressError::QuantizationFailed));
}

#[test]
fn jpeg_quality_is_three_quarters() {
    assert_eq!(jpeg_quality(80), 60);
    assert_eq!(jpeg_quality(100), 75);
    assert_eq!(jpeg_quality(1), 0);
    assert_eq!(jpeg_quality(255), 191);
}

#[test]
fn size_guard_keeps_the_shorter() {
    assert_eq!(size_guard(&[1, 2, 3], vec![9, 9]), vec![9, 9]);
    assert_eq!(size_guard(&[1, 2, 3], vec![9, 9, 9]), vec![9, 9, 9]);
    assert_eq!(size_guard(&[1, 2, 3], vec![9, 9, 9, 9]), vec![1, 2, 3]);
}

#[test]
fn quantize_gives_consistent_palette() {
    let raster = RgbaRaster::from_parts(20, 14, stripes_rgba(20, 14, false)).unwrap();
    let q = quantize(&raster, 100).unwrap();
    assert!(q.palette.len() <= 256 && q.palette.len() >= 4);
    assert_eq!(q.indexes.len(), 280);
    assert!(q.indexes.iter().all(|&i| (i as usize) < q.palette.len()));
    assert_eq!(quantize(&raster, 101).err(), Some(CompressError::QuantizationFailed));
}

#[test]
fn alpha_survives_indexed_png() {
    let data = stripes_rgba(20, 14, false);
    let raster = RgbaRaster::from_parts(20, 14, data.clone()).unwrap();
    let q: Quantized = quantize(&raster, 100).unwrap();
    let bytes = encode_indexed_png(20, 14, &q).unwrap();
    let mut decoder = png::Decoder::new(Cursor::new(bytes));
    decoder.set_transformations(png::Transformations::IDENTITY);
    let mut reader = decoder.read_info().unwrap();
    let mut buf = vec![0; reader.output_buffer_size()];
    reader.next_frame(&mut buf).unwrap();
    let info = reader.info();
    assert_eq!(info.color_type, png::ColorType::Indexed);
    let plte = info.palette.as_ref().unwrap();
    let trns = info.trns.as_ref().unwrap();
    assert_eq!(trns.len(), q.palette.len());
    assert_eq!(plte.len(), 3 * q.palette.len());
    for (i, &idx) in buf.iter().enumerate() {
        assert_eq!(trns[idx as usize], q.palette[idx as usize].a);
        assert_eq!(trns[idx as usize], data[4 * i + 3]);
    }
}

#[test]
fn opaque_png_becomes_smaller_indexed_png() {
    let input = png_rgb_bytes(100, 100);
    let out = compress(&input, 80, factor(1.0)).unwrap();
    assert!(out.len() < input.len());
    let decoder = png::Decoder::new(Cursor::new(out));
    let reader = decoder.read_info().unwrap();
    let info = reader.info();
    assert_eq!((info.width, info.height), (100, 100));
    assert_eq!(info.color_type, png::ColorType::Indexed);
    assert!(info.palette.as_ref().unwrap().len() / 3 <= 256);
}

#[test]
fn png_quality_above_hundred_fails() {
    let input = png_rgb_bytes(10, 10);
    assert_eq!(compress(&input, 101, factor(1.0)), Err(CompressError::QuantizationFailed));
}

#[test]
fn broken_png_fails_to_decode() {
    let mut input = png_rgb_bytes(10, 10);
    input.truncate(20);
    assert_eq!(compress(&input, 80, factor(1.0)), Err(CompressError::DecodeFailed));
    assert_eq!(decode_raster(&input).err(), Some(CompressError::DecodeFailed));
}

#[test]
fn animated_gif_keeps_frames_and_loops_forever() {
    let input = gif_bytes(4, 40, 30);
    let out = compress(&input, 50, factor(0.5)).unwrap();
    assert!(out.len() <= input.len());
    if out != input {
        let decoder = image::codecs::gif::GifDecoder::new(Cursor::new(out.clone())).unwrap();
        let frames = image::AnimationDecoder::into_frames(decoder).collect_frames().unwrap();
        assert_eq!(frames.len(), 4);
        assert!(out.windows(14).any(|w| w == b"NETSCAPE2.0\x03\x01\x00"));
    }
}

#[test]
fn frames_keep_order_delay_and_scaled_size() {
    let frames: Vec<AnimFrame> = (0..4u32)
        .map(|i| AnimFrame {
            raster: RgbaRaster::from_parts(40, 30, stripes_rgba(40, 30, i % 2 == 0)).unwrap(),
            left: 0,
            top: 0,
            delay_num: 100 + i,
            delay_den: 1,
        })
        .collect();
    let out = process_frames(&frames, factor(0.5), 50).unwrap();
    assert_eq!(out.len(), 4);
    for (i, g) in out.iter().enumerate() {
        assert_eq!(g.delay_num, 100 + i as u32);
        assert_eq!((g.raster.width, g.raster.height), (20, 15));
        assert_eq!(g.raster.data.len(), 20 * 15 * 4);
    }
    // Odd frames are translucent, even ones opaque: each kept its own palette.
    assert!(out[0].raster.data.chunks(4).all(|p| p[3] == 255));
    assert!(out[1].raster.data.chunks(4).any(|p| p[3] != 255));
}

#[test]
fn jpeg_is_reencoded_smaller_or_kept() {
    let rgb: Vec<u8> = narrow_to_rgb(&stripes_rgba(32, 32, true));
    let mut input = Vec::new();
    let enc = image::codecs::jpeg::JpegEncoder::new_with_quality(&mut input, 100);
    image::ImageEncoder::write_image(enc, &rgb, 32, 32, image::ExtendedColorType::Rgb8).unwrap();
    let out = compress(&input, 50, factor(1.0)).unwrap();
    assert!(out.len() < input.len());
    assert_eq!(&out[..3], &[0xff, 0xd8, 0xff]);
}

#[test]
fn gif_frame_failing_quantization_fails_the_call() {
    let input = gif_bytes(3, 20, 20);
    assert_eq!(compress(&input, 101, factor(1.0)), Err(CompressError::QuantizationFailed));
}

#[test]
fn gif_frames_decode_in_order_and_reencode() {
    let input = gif_bytes(4, 20, 10);
    let frames = decode_frames(&input).unwrap();
    assert_eq!(frames.len(), 4);
    for (i, f) in frames.iter().enumerate() {
        assert_eq!((f.raster.width, f.raster.height), (20, 10));
        assert_eq!(f.raster.data[0], (i * 40) as u8);
    }
    let out = encode_animation(&frames).unwrap();
    assert_eq!(&out[..6], b"GIF89a");
    assert_eq!(decode_frames(&out).unwrap().len(), 4);
    assert!(out.windows(14).any(|w| w == b"NETSCAPE2.0\x03\x01\x00"));
}

#[test]
fn zero_area_raster_fails_quantization() {
    let raster = RgbaRaster::from_parts(0, 4, vec![]).unwrap();
    assert_eq!(quantize(&raster, 80).err(), Some(CompressError::QuantizationFailed));
}

#[test]
fn jpeg_too_small_factor_is_refused() {
    let rgb: Vec<u8> = narrow_to_rgb(&stripes_rgba(8, 8, true));
    let mut input = Vec::new();
    let enc = image::codecs::jpeg::JpegEncoder::new_with_quality(&mut input, 90);
    image::ImageEncoder::write_image(enc, &rgb, 8, 8, image::ExtendedColorType::Rgb8).unwrap();
    assert_eq!(compress(&input, 50, factor(0.1)), Err(CompressError::InvalidResizeFactor));
}

#[test]
fn quantize_accepts_both_quality_bounds() {
    let raster = RgbaRaster::from_parts(12, 9, stripes_rgba(12, 9, false)).unwrap();
    for quality in [0u8, 100] {
        let q = quantize(&raster, quality).unwrap();
        assert!(!q.palette.is_empty() && q.palette.len() <= 256);
        assert_eq!(q.indexes.len(), 108);
    }
}
