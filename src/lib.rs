//! Image recompression: format sniffing, nearest-neighbour downscaling,
//! palette quantization with an indexed PNG writer, per-frame quantization
//! of animations, and a guard that never lets the output grow.

pub mod animation;
pub mod codec;
pub mod error;
pub mod format;
pub mod palette;
pub mod pipeline;
pub mod quantize;
pub mod raster;
pub mod resize;

pub use pipeline::compress;
