//! Entropy stage: thin call boundary to the zstd block compressor.
//!
//! The compressor's output bytes are opaque to the rest of the library;
//! all that is relied on is that decompression inverts compression and
//! that the frame records its exact content length.

use crate::ZpngError;
use vstd::prelude::*;

verus! {

/// The bytes that the block compressor produces for input `s` at
/// compression level `level`.  A single-threaded zstd block is a
/// deterministic function of its input bytes and its level; nothing else
/// is assumed about its content.
pub uninterp spec fn compressed_of(s: Seq<u8>, level: i32) -> Seq<u8>;

/// Relies on zstd::bulk::compress: it deterministically produces one zstd
/// frame over the whole input at the given level, or reports an error.
#[verifier::external_body]
fn zstd_compress(input: &[u8], level: i32) -> (r: Option<Vec<u8>>)
    ensures
        r matches Some(v) ==> v@ == compressed_of(input@, level),
{
    zstd::bulk::compress(input, level).ok()
}

/// Relies on zstd::zstd_safe::get_frame_content_size: the frame header
/// written by zstd::bulk::compress records the exact uncompressed length,
/// and this call reads it back without decompressing.
#[verifier::external_body]
fn zstd_content_size(input: &[u8]) -> (r: Option<u64>)
    ensures
        forall|s: Seq<u8>, level: i32|
            input@ == compressed_of(s, level) && s.len() <= u64::MAX ==> r == Some(
                s.len() as u64,
            ),
{
    match zstd::zstd_safe::get_frame_content_size(input) {
        Ok(cs) => cs,
        Err(_) => None,
    }
}

/// Relies on zstd::bulk::decompress: decompressing a frame that
/// zstd::bulk::compress produced returns exactly the original bytes,
/// whenever they fit in the given capacity; an error is reported
/// otherwise or on corrupt input.
#[verifier::external_body]
fn zstd_decompress(input: &[u8], capacity: usize) -> (r: Option<Vec<u8>>)
    ensures
        forall|s: Seq<u8>, level: i32|
            input@ == compressed_of(s, level) && s.len() <= capacity ==> r is Some && r->0@
                == s,
{
    zstd::bulk::decompress(input, capacity).ok()
}

/// Compresses a filtered buffer with the block compressor at the given
/// level.
pub fn entropy_encode(input: &[u8], level: i32) -> (r: Result<Vec<u8>, ZpngError>)
    ensures
        r matches Ok(v) ==> v@ == compressed_of(input@, level),
        r is Err ==> r == Err::<Vec<u8>, ZpngError>(ZpngError::EntropyCodecFailure),
{
    match zstd_compress(input, level) {
        Some(v) => Ok(v),
        None => Err(ZpngError::EntropyCodecFailure),
    }
}

/// Decompresses an entropy-coded payload and validates that the result
/// has exactly the expected length: a well-formed payload of any other
/// length is a size mismatch, distinct from a decompression failure.
pub fn entropy_decode(input: &[u8], expected: usize) -> (r: Result<Vec<u8>, ZpngError>)
    ensures
        forall|s: Seq<u8>, level: i32|
            input@ == compressed_of(s, level) && s.len() == expected ==> (r matches Ok(v) && v@
                == s),
        forall|s: Seq<u8>, level: i32|
            input@ == compressed_of(s, level) && s.len() <= u64::MAX && s.len() != expected ==> r
                == Err::<Vec<u8>, ZpngError>(ZpngError::SizeMismatch),
        r matches Ok(v) ==> v@.len() == expected,
        r is Err ==> (r == Err::<Vec<u8>, ZpngError>(ZpngError::SizeMismatch) || r == Err::<
            Vec<u8>,
            ZpngError,
        >(ZpngError::EntropyCodecFailure)),
{
    match zstd_content_size(input) {
        Some(cs) => {
            if cs != expected as u64 {
                return Err(ZpngError::SizeMismatch);
            }
        },
        None => {
            return Err(ZpngError::EntropyCodecFailure);
        },
    }
    match zstd_decompress(input, expected) {
        Some(v) => {
            if v.len() != expected {
                return Err(ZpngError::SizeMismatch);
            }
            Ok(v)
        },
        None => Err(ZpngError::EntropyCodecFailure),
    }
}

} // verus!
