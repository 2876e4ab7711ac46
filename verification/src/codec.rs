//! Compress/decompress orchestrator: validates parameters, picks the
//! filter variant from the pixel stride and the configuration flag, and
//! drives header codec, filter and entropy stage in sequence.
//!
//! The container format has no bit recording which filter family produced
//! the payload, so `color_filter` must be given the same value when
//! compressing and when decompressing a buffer.

use crate::color::lemma_color_filter_round_trip3;
use crate::color::lemma_color_filter_round_trip4;
use crate::color::pack3_spec;
use crate::color::pack4_spec;
use crate::color::unpack3_spec;
use crate::color::unpack4_spec;
use crate::color::PackAndFilter_3;
use crate::color::PackAndFilter_4;
use crate::color::UnpackAndUnfilter_3;
use crate::color::UnpackAndUnfilter_4;
use crate::entropy::compressed_of;
use crate::entropy::entropy_decode;
use crate::entropy::entropy_encode;
use crate::filter::lemma_delta_filter_round_trip;
use crate::filter::pack_spec;
use crate::filter::unpack_spec;
use crate::filter::PackAndFilter;
use crate::filter::UnpackAndUnfilter;
use crate::header::decode_header;
use crate::header::decode_header_spec;
use crate::header::encode_header;
use crate::header::header_bytes;
use crate::header::ImageDescriptor;
use crate::supported_pixel_bytes;
use crate::ZpngError;
use crate::ZPNG_Buffer;
use crate::ZPNG_ImageData;
use vstd::arithmetic::mul::lemma_mul_is_associative;
use vstd::arithmetic::mul::lemma_mul_upper_bound;
use vstd::prelude::*;

verus! {

/// The fixed, speed-oriented level handed to the block compressor.
pub const ZPNG_COMPRESSION_LEVEL: i32 = 1;

/// The geometry that an image's fields form.
pub open spec fn descriptor_of(img: ZPNG_ImageData) -> ImageDescriptor {
    ImageDescriptor {
        width: img.WidthPixels,
        height: img.HeightPixels,
        channels: img.Channels,
        bytes_per_channel: img.BytesPerChannel,
    }
}

/// The pixel stride in bytes that a descriptor implies.
pub open spec fn pixel_bytes_of(d: ImageDescriptor) -> int {
    d.channels * d.bytes_per_channel
}

/// The pixel buffer length that a descriptor implies.
pub open spec fn expected_len_of(d: ImageDescriptor) -> int {
    pixel_bytes_of(d) * d.width * d.height
}

/// The filtered bytes that compression produces for pixel buffer `s`
/// under descriptor `d`: the color-decorrelation filter when the stride
/// is exactly 3 or 4 and the option is enabled, the generic delta filter
/// for the stride otherwise.
pub open spec fn filter_spec(s: Seq<u8>, d: ImageDescriptor, color_filter: bool) -> Seq<u8> {
    let n = pixel_bytes_of(d);
    if color_filter && n == 3 {
        pack3_spec(s, d.width as int, d.height as int)
    } else if color_filter && n == 4 {
        pack4_spec(s, d.width as int, d.height as int)
    } else {
        pack_spec(s, n, d.width as int)
    }
}

/// The pixel bytes that decompression reconstructs from a filtered
/// buffer `t` under descriptor `d`, by the same selection rule.
pub open spec fn unfilter_spec(t: Seq<u8>, d: ImageDescriptor, color_filter: bool) -> Seq<u8> {
    let n = pixel_bytes_of(d);
    if color_filter && n == 3 {
        unpack3_spec(t, d.width as int, d.height as int)
    } else if color_filter && n == 4 {
        unpack4_spec(t, d.width as int, d.height as int)
    } else {
        unpack_spec(t, n, d.width as int)
    }
}

/// The exact encoded buffer for `(s, d)`: the 8 header bytes followed by
/// the compressed filtered pixel data.
pub open spec fn encoded_spec(s: Seq<u8>, d: ImageDescriptor, color_filter: bool) -> Seq<u8> {
    header_bytes(d) + compressed_of(filter_spec(s, d, color_filter), ZPNG_COMPRESSION_LEVEL)
}

/// `b` is a well-formed encoded buffer whose payload is exactly the
/// compressed filtered form (at some level) of the pixel buffer `s`, of
/// the length that `b`'s own header implies.
pub open spec fn encodes_pixels(b: Seq<u8>, color_filter: bool, s: Seq<u8>, level: i32) -> bool {
    decode_header_spec(b) matches Ok(d) && supported_pixel_bytes(pixel_bytes_of(d)) && s.len()
        == expected_len_of(d) && s.len() <= usize::MAX && b.skip(8) == compressed_of(
        filter_spec(s, d, color_filter),
        level,
    )
}

/// `b` is a well-formed encoded buffer whose payload is the compressed
/// form (at some level) of some byte sequence `s` of a length other than
/// the one `b`'s own header claims.
pub open spec fn claims_wrong_len(b: Seq<u8>, s: Seq<u8>, level: i32) -> bool {
    decode_header_spec(b) matches Ok(d) && supported_pixel_bytes(pixel_bytes_of(d)) && s.len()
        <= u64::MAX && b.skip(8) == compressed_of(s, level) && s.len() != expected_len_of(d)
}

/// Filtering keeps the buffer length.
pub proof fn lemma_filter_len(s: Seq<u8>, d: ImageDescriptor, color_filter: bool)
    requires
        s.len() == expected_len_of(d),
    ensures
        filter_spec(s, d, color_filter).len() == s.len(),
{
    lemma_mul_is_associative(pixel_bytes_of(d), d.width as int, d.height as int);
}

/// Law: whichever filter family the configuration selects, its unfilter
/// inverts it exactly, for every supported descriptor and every pixel
/// buffer of the length the descriptor implies.
pub proof fn lemma_filter_round_trip(s: Seq<u8>, d: ImageDescriptor, color_filter: bool)
    requires
        supported_pixel_bytes(pixel_bytes_of(d)),
        s.len() == expected_len_of(d),
    ensures
        unfilter_spec(filter_spec(s, d, color_filter), d, color_filter) == s,
{
    let n = pixel_bytes_of(d);
    lemma_mul_is_associative(n, d.width as int, d.height as int);
    if color_filter && n == 3 {
        lemma_color_filter_round_trip3(s, d.width as int, d.height as int);
    } else if color_filter && n == 4 {
        lemma_color_filter_round_trip4(s, d.width as int, d.height as int);
    } else {
        lemma_delta_filter_round_trip(s, n, d.width as int);
    }
}

/// Compress an image into a self-describing encoded buffer: filter,
/// entropy-encode, prepend the header.
pub fn ZPNG_Compress(imageData: &ZPNG_ImageData, color_filter: bool) -> (r: Result<
    ZPNG_Buffer,
    ZpngError,
>)
    requires
        imageData.Buffer.Data@.len() == expected_len_of(descriptor_of(*imageData)),
    ensures
        r matches Ok(out) ==> out.Data@ == encoded_spec(
            imageData.Buffer.Data@,
            descriptor_of(*imageData),
            color_filter,
        ),
        !supported_pixel_bytes(pixel_bytes_of(descriptor_of(*imageData))) <==> r == Err::<
            ZPNG_Buffer,
            ZpngError,
        >(ZpngError::UnsupportedPixelFormat),
        r is Err ==> (r == Err::<ZPNG_Buffer, ZpngError>(ZpngError::UnsupportedPixelFormat) || r
            == Err::<ZPNG_Buffer, ZpngError>(ZpngError::EntropyCodecFailure)),
{
    proof {
        lemma_mul_upper_bound(imageData.Channels as int, 255, imageData.BytesPerChannel as int, 255);
    }
    let n: usize = (imageData.Channels as usize) * (imageData.BytesPerChannel as usize);
    if n < 1 || n > 8 {
        return Err(ZpngError::UnsupportedPixelFormat);
    }
    let width = imageData.WidthPixels;
    let height = imageData.HeightPixels;
    let data = imageData.Buffer.Data.as_slice();
    let packing: Vec<u8> = if color_filter && n == 3 {
        PackAndFilter_3(data, width, height)
    } else if color_filter && n == 4 {
        PackAndFilter_4(data, width, height)
    } else {
        PackAndFilter(data, width, height, n)
    };
    let mut payload = match entropy_encode(packing.as_slice(), ZPNG_COMPRESSION_LEVEL) {
        Ok(v) => v,
        Err(e) => {
            return Err(e);
        },
    };
    let d = ImageDescriptor {
        width,
        height,
        channels: imageData.Channels,
        bytes_per_channel: imageData.BytesPerChannel,
    };
    let mut out = encode_header(&d);
    out.append(&mut payload);
    Ok(ZPNG_Buffer { Data: out })
}

/// Decompress an encoded buffer: parse the header, entropy-decode with
/// the length the header implies, unfilter.  The contract states the
/// round trip: on the exact output of `ZPNG_Compress` for some pixel
/// buffer (under the same `color_filter` choice), that buffer and its
/// geometry come back; a well-formed payload whose length does not match
/// the header is a size mismatch.
pub fn ZPNG_Decompress(buffer: &ZPNG_Buffer, color_filter: bool) -> (r: Result<
    ZPNG_ImageData,
    ZpngError,
>)
    ensures
        (buffer.Data@.len() < 8) <==> r == Err::<ZPNG_ImageData, ZpngError>(ZpngError::Truncated),
        (buffer.Data@.len() >= 8 && !(buffer.Data@[0] == 0xF8 && buffer.Data@[1] == 0xFB)) <==> r
            == Err::<ZPNG_ImageData, ZpngError>(ZpngError::BadMagic),
        (decode_header_spec(buffer.Data@) matches Ok(d) && !supported_pixel_bytes(
            pixel_bytes_of(d),
        )) <==> r == Err::<ZPNG_ImageData, ZpngError>(ZpngError::UnsupportedPixelFormat),
        r matches Ok(img) ==> (decode_header_spec(buffer.Data@) matches Ok(d) && descriptor_of(img)
            == d && img.Buffer.Data@.len() == expected_len_of(d)),
        forall|s: Seq<u8>, level: i32|
            #[trigger] encodes_pixels(buffer.Data@, color_filter, s, level) ==> (r matches Ok(img)
                && img.Buffer.Data@ == s),
        forall|s: Seq<u8>, level: i32|
            #[trigger] claims_wrong_len(buffer.Data@, s, level) ==> r == Err::<
                ZPNG_ImageData,
                ZpngError,
            >(ZpngError::SizeMismatch),
{
    let data = buffer.Data.as_slice();
    let d = match decode_header(data) {
        Ok(d) => d,
        Err(e) => {
            return Err(e);
        },
    };
    proof {
        lemma_mul_upper_bound(d.channels as int, 255, d.bytes_per_channel as int, 255);
    }
    let n64: u64 = (d.channels as u64) * (d.bytes_per_channel as u64);
    if n64 < 1 || n64 > 8 {
        return Err(ZpngError::UnsupportedPixelFormat);
    }
    let n: usize = n64 as usize;
    proof {
        lemma_mul_upper_bound(n64 as int, 8, d.width as int, 65535);
        lemma_mul_upper_bound(n64 as int * d.width as int, 524280, d.height as int, 65535);
    }
    let expected64: u64 = n64 * (d.width as u64) * (d.height as u64);
    let (_, payload) = data.split_at(8);
    if expected64 > usize::MAX as u64 {
        return Err(ZpngError::SizeMismatch);
    }
    let expected: usize = expected64 as usize;
    let packing = match entropy_decode(payload, expected) {
        Ok(v) => v,
        Err(e) => {
            proof {
                assert forall|s: Seq<u8>, level: i32|
                    #[trigger] encodes_pixels(buffer.Data@, color_filter, s, level) implies (Err::<
                ZPNG_ImageData,
                ZpngError,
                >(e) matches Ok(img) && img.Buffer.Data@ == s) by {
                    lemma_filter_len(s, d, color_filter);
                }
            }
            return Err(e);
        },
    };
    let out: ZPNG_Buffer = if color_filter && n == 3 {
        UnpackAndUnfilter_3(packing.as_slice(), d.width, d.height)
    } else if color_filter && n == 4 {
        UnpackAndUnfilter_4(packing.as_slice(), d.width, d.height)
    } else {
        UnpackAndUnfilter(packing.as_slice(), d.width, d.height, n)
    };
    let img = ZPNG_ImageData {
        Buffer: out,
        BytesPerChannel: d.bytes_per_channel,
        Channels: d.channels,
        WidthPixels: d.width,
        HeightPixels: d.height,
    };
    proof {
        assert(img.Buffer.Data@ == unfilter_spec(packing@, d, color_filter));
        lemma_mul_is_associative(pixel_bytes_of(d), d.width as int, d.height as int);
        assert(img.Buffer.Data@.len() == expected_len_of(d));
        assert forall|s: Seq<u8>, level: i32|
            #[trigger] encodes_pixels(buffer.Data@, color_filter, s, level) implies (
        img.Buffer.Data@ == s) by {
            lemma_filter_len(s, d, color_filter);
            lemma_filter_round_trip(s, d, color_filter);
        }
    }
    Ok(img)
}

} // verus!
