use vstd::prelude::*;

verus! {

/// Why a compression call gave up.
#[derive(Clone, Copy, Debug, PartialEq, Eq, Structural)]
pub enum CompressError {
    /// The bytes are not a decodable image.
    DecodeFailed,
    /// The container is not one of PNG, JPEG, WebP or GIF.
    UnsupportedFormat,
    /// The quantizer refused the raster or the quality bound.
    QuantizationFailed,
    /// The target encoder refused the assembled data.
    EncodeFailed,
    /// The resize factor is not in (0, 1], or it shrinks a side to nothing.
    InvalidResizeFactor,
}

} // verus!
