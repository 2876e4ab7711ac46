//! Lossless raster-image codec: per-channel spatial delta filtering, an
//! optional color-decorrelation transform for RGB/RGBA data, and a fixed
//! binary header describing image geometry, with a generic block compressor
//! as the entropy stage.
//!
//! The container format does not record which filter family (generic delta
//! or color-decorrelation) produced a payload; the caller must supply the
//! same choice to compression and decompression.

#![allow(non_snake_case)]
#![allow(non_camel_case_types)]

use vstd::prelude::*;

pub mod codec;
pub mod color;
pub mod entropy;
pub mod filter;
pub mod header;

pub use codec::ZPNG_Compress;
pub use codec::ZPNG_Decompress;

verus! {

/// Every failure a compression or decompression call can report.
#[derive(Clone, Copy, Debug, PartialEq, Eq, Structural)]
pub enum ZpngError {
    /// The pixel stride (channels times bytes per channel) lies outside 1..=8.
    UnsupportedPixelFormat,
    /// The first two header bytes are not the magic constant.
    BadMagic,
    /// Fewer bytes were supplied than the fixed header needs.
    Truncated,
    /// The decompressed payload length differs from what the header claims.
    SizeMismatch,
    /// The underlying block compressor rejected its input.
    EntropyCodecFailure,
}

/// A pixel buffer: row-major, channel-interleaved bytes.
#[derive(Debug)]
pub struct ZPNG_Buffer {
    pub Data: Vec<u8>,
}

/// A pixel buffer together with the geometry that describes it.
#[derive(Debug)]
pub struct ZPNG_ImageData {
    /// Pixel data
    pub Buffer: ZPNG_Buffer,
    /// Number of bytes for each color channel (1-2)
    pub BytesPerChannel: u8,
    /// Number of channels for each pixel (1-4)
    pub Channels: u8,
    /// Width in pixels of image
    pub WidthPixels: u16,
    /// Height in pixels of image
    pub HeightPixels: u16,
}

/// A byte count per pixel (channels times bytes per channel) is supported
/// when it lies between one and eight.
pub open spec fn supported_pixel_bytes(n: int) -> bool {
    1 <= n <= 8
}

} // verus!
