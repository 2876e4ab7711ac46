//! Fixed 8-byte geometry header.
//!
//! Layout, little-endian, no padding: magic constant `0xFBF8` (2 bytes),
//! width in pixels (2), height in pixels (2), channels (1), bytes per
//! channel (1).

use crate::ZpngError;
use vstd::arithmetic::div_mod::lemma_fundamental_div_mod;
use vstd::prelude::*;

verus! {

/// The magic constant that opens every encoded buffer.
pub const ZPNG_HEADER_MAGIC: u16 = 0xFBF8;

/// The number of bytes of the fixed header.
pub const ZPNG_HEADER_OVERHEAD_BYTES: usize = 8;

/// The image geometry that the fixed header carries.
#[derive(Clone, Copy, Debug, PartialEq, Eq, Structural)]
pub struct ImageDescriptor {
    /// Width in pixels of image
    pub width: u16,
    /// Height in pixels of image
    pub height: u16,
    /// Number of channels for each pixel (1-4)
    pub channels: u8,
    /// Number of bytes for each color channel (1-2)
    pub bytes_per_channel: u8,
}

/// The exact 8 bytes that encode a descriptor.
pub open spec fn header_bytes(d: ImageDescriptor) -> Seq<u8> {
    seq![
        0xF8u8,
        0xFBu8,
        (d.width as int % 256) as u8,
        (d.width as int / 256) as u8,
        (d.height as int % 256) as u8,
        (d.height as int / 256) as u8,
        d.channels,
        d.bytes_per_channel,
    ]
}

/// What decoding a byte sequence as a header yields: the descriptor read
/// from the first 8 bytes, `Truncated` if fewer than 8 bytes are there, or
/// `BadMagic` if the first two bytes are not the magic constant.
pub open spec fn decode_header_spec(b: Seq<u8>) -> Result<ImageDescriptor, ZpngError> {
    if b.len() < 8 {
        Err(ZpngError::Truncated)
    } else if !(b[0] == 0xF8u8 && b[1] == 0xFBu8) {
        Err(ZpngError::BadMagic)
    } else {
        Ok(
            ImageDescriptor {
                width: (b[2] + 256 * b[3]) as u16,
                height: (b[4] + 256 * b[5]) as u16,
                channels: b[6],
                bytes_per_channel: b[7],
            },
        )
    }
}

/// Law: decoding an encoded header gives back the descriptor, for every
/// descriptor.
pub proof fn lemma_header_round_trip(d: ImageDescriptor)
    ensures
        decode_header_spec(header_bytes(d)) == Ok::<ImageDescriptor, ZpngError>(d),
{
    lemma_fundamental_div_mod(d.width as int, 256);
    lemma_fundamental_div_mod(d.height as int, 256);
}

/// Serializes a descriptor into its 8 header bytes.
pub fn encode_header(d: &ImageDescriptor) -> (r: Vec<u8>)
    ensures
        r@ == header_bytes(*d),
{
    let mut r: Vec<u8> = Vec::new();
    r.push(0xF8u8);
    r.push(0xFBu8);
    r.push((d.width % 256) as u8);
    r.push((d.width / 256) as u8);
    r.push((d.height % 256) as u8);
    r.push((d.height / 256) as u8);
    r.push(d.channels);
    r.push(d.bytes_per_channel);
    proof {
        assert(r@ =~= header_bytes(*d));
    }
    r
}

/// Reads a descriptor back out of the first 8 bytes of `b`.
pub fn decode_header(b: &[u8]) -> (r: Result<ImageDescriptor, ZpngError>)
    ensures
        r == decode_header_spec(b@),
{
    if b.len() < 8 {
        return Err(ZpngError::Truncated);
    }
    if !(b[0] == 0xF8u8 && b[1] == 0xFBu8) {
        return Err(ZpngError::BadMagic);
    }
    let width: u16 = b[2] as u16 + 256 * (b[3] as u16);
    let height: u16 = b[4] as u16 + 256 * (b[5] as u16);
    Ok(
        ImageDescriptor {
            width,
            height,
            channels: b[6],
            bytes_per_channel: b[7],
        },
    )
}

} // verus!
