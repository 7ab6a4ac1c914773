use crate::error::CompressError;
use vstd::prelude::*;

verus! {

/// The containers that the pipeline knows how to recompress.
#[derive(Clone, Copy, Debug, PartialEq, Eq, Structural)]
pub enum ImageKind {
    Png,
    Jpeg,
    WebP,
    Gif,
}

/// `b` begins with the bytes of `p`.
pub open spec fn has_prefix(b: Seq<u8>, p: Seq<u8>) -> bool {
    p.len() <= b.len() && b.subrange(0, p.len() as int) == p
}

pub open spec fn png_signature() -> Seq<u8> {
    seq![0x89u8, 0x50, 0x4e, 0x47, 0x0d, 0x0a, 0x1a, 0x0a]
}

pub open spec fn jpeg_signature() -> Seq<u8> {
    seq![0xffu8, 0xd8, 0xff]
}

/// "GIF89a" when `minor` is `0x39`, "GIF87a" when it is `0x37`.
pub open spec fn gif_signature(minor: u8) -> Seq<u8> {
    seq![0x47u8, 0x49, 0x46, 0x38, minor, 0x61]
}

/// "RIFF", four bytes of chunk size, then "WEBP".
pub open spec fn is_webp_header(b: Seq<u8>) -> bool {
    b.len() >= 12
        && b.subrange(0, 4) == seq![0x52u8, 0x49, 0x46, 0x46]
        && b.subrange(8, 12) == seq![0x57u8, 0x45, 0x42, 0x50]
}

/// The container that the magic bytes at the start of `b` announce, among
/// the four that the pipeline handles.
pub open spec fn sniffed_kind(b: Seq<u8>) -> Option<ImageKind> {
    if has_prefix(b, png_signature()) {
        Some(ImageKind::Png)
    } else if has_prefix(b, jpeg_signature()) {
        Some(ImageKind::Jpeg)
    } else if has_prefix(b, gif_signature(0x39)) || has_prefix(b, gif_signature(0x37)) {
        Some(ImageKind::Gif)
    } else if is_webp_header(b) {
        Some(ImageKind::WebP)
    } else {
        None
    }
}

/// Relies on image::guess_format, whose magic-byte table lists PNG, JPEG,
/// GIF89a, GIF87a and RIFF/WEBP first and in that order, each matched as a
/// prefix; any later entry or no match is a format outside the four.
#[verifier::external_body]
fn guess_kind(bytes: &[u8]) -> (r: Option<ImageKind>)
    ensures
        r == sniffed_kind(bytes@),
{
    match image::guess_format(bytes) {
        Ok(image::ImageFormat::Png) => Some(ImageKind::Png),
        Ok(image::ImageFormat::Jpeg) => Some(ImageKind::Jpeg),
        Ok(image::ImageFormat::Gif) => Some(ImageKind::Gif),
        Ok(image::ImageFormat::WebP) => Some(ImageKind::WebP),
        _ => None,
    }
}

/// Sniffs the container of `bytes` from its magic bytes alone.
pub fn detect(bytes: &[u8]) -> (r: Result<ImageKind, CompressError>)
    ensures
        r == match sniffed_kind(bytes@) {
            Some(k) => Ok::<ImageKind, CompressError>(k),
            None => Err(CompressError::UnsupportedFormat),
        },
{
    match guess_kind(bytes) {
        Some(k) => Ok(k),
        None => Err(CompressError::UnsupportedFormat),
    }
}

/// A buffer of zero bytes carries no known magic header, so it is rejected
/// as an unsupported format.
pub proof fn lemma_zeros_unsupported(b: Seq<u8>)
    requires
        forall|i: int| 0 <= i < b.len() ==> b[i] == 0,
    ensures
        sniffed_kind(b) is None,
{
    assert(!has_prefix(b, png_signature())) by {
        if has_prefix(b, png_signature()) {
            assert(b.subrange(0, 8)[0] == png_signature()[0]);
        }
    }
    assert(!has_prefix(b, jpeg_signature())) by {
        if has_prefix(b, jpeg_signature()) {
            assert(b.subrange(0, 3)[0] == jpeg_signature()[0]);
        }
    }
    assert(!has_prefix(b, gif_signature(0x39))) by {
        if has_prefix(b, gif_signature(0x39)) {
            assert(b.subrange(0, 6)[0] == gif_signature(0x39)[0]);
        }
    }
    assert(!has_prefix(b, gif_signature(0x37))) by {
        if has_prefix(b, gif_signature(0x37)) {
            assert(b.subrange(0, 6)[0] == gif_signature(0x37)[0]);
        }
    }
    assert(!is_webp_header(b)) by {
        if is_webp_header(b) {
            assert(b.subrange(0, 4)[0] == 0x52u8);
        }
    }
}

} // verus!
