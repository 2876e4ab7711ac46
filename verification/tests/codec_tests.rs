//! End-to-end tests of compression and decompression, the header codec,
//! the entropy stage, and every error kind.

use zpng_rs::codec::ZPNG_COMPRESSION_LEVEL;
use zpng_rs::entropy::entropy_decode;
use zpng_rs::entropy::entropy_encode;
use zpng_rs::header::decode_header;
use zpng_rs::header::encode_header;
use zpng_rs::header::ImageDescriptor;
use zpng_rs::ZpngError;
use zpng_rs::ZPNG_Buffer;
use zpng_rs::ZPNG_Compress;
use zpng_rs::ZPNG_Decompress;
use zpng_rs::ZPNG_ImageData;

fn rgba_2x2() -> ZPNG_ImageData {
    ZPNG_ImageData {
        Buffer: ZPNG_Buffer {
            Data: vec![10, 20, 30, 255, 11, 21, 31, 255, 12, 22, 32, 255, 13, 23, 33, 255],
        },
        BytesPerChannel: 1,
        Channels: 4,
        WidthPixels: 2,
        HeightPixels: 2,
    }
}

#[test]
fn round_trip_rgba_2x2_generic_delta() {
    let img = rgba_2x2();
    let comp = ZPNG_Compress(&img, false).expect("compression failed");
    let dec = ZPNG_Decompress(&comp, false).expect("decompression failed");
    assert_eq!(dec.Buffer.Data, img.Buffer.Data);
    assert_eq!(dec.WidthPixels, 2);
    assert_eq!(dec.HeightPixels, 2);
    assert_eq!(dec.Channels, 4);
    assert_eq!(dec.BytesPerChannel, 1);
}

#[test]
fn round_trip_rgba_2x2_color_filter() {
    let img = rgba_2x2();
    let comp = ZPNG_Compress(&img, true).expect("compression failed");
    let dec = ZPNG_Decompress(&comp, true).expect("decompression failed");
    assert_eq!(dec.Buffer.Data, img.Buffer.Data);
    assert_eq!(dec.WidthPixels, 2);
    assert_eq!(dec.HeightPixels, 2);
    assert_eq!(dec.Channels, 4);
    assert_eq!(dec.BytesPerChannel, 1);
}

#[test]
fn round_trip_two_byte_channels() {
    // 3 channels of 2 bytes each: stride 6 uses the generic filter even
    // with the color option on
    let data: Vec<u8> = (0..6 * 3 * 2).map(|i| (i as u8).wrapping_mul(73)).collect();
    let img = ZPNG_ImageData {
        Buffer: ZPNG_Buffer { Data: data.clone() },
        BytesPerChannel: 2,
        Channels: 3,
        WidthPixels: 3,
        HeightPixels: 2,
    };
    let comp = ZPNG_Compress(&img, true).unwrap();
    let dec = ZPNG_Decompress(&comp, true).unwrap();
    assert_eq!(dec.Buffer.Data, data);
    assert_eq!(dec.Channels, 3);
    assert_eq!(dec.BytesPerChannel, 2);
}

#[test]
fn encoded_buffer_starts_with_header() {
    let img = rgba_2x2();
    let comp = ZPNG_Compress(&img, false).unwrap();
    assert!(comp.Data.len() > 8);
    assert_eq!(&comp.Data[..8], &[0xF8, 0xFB, 2, 0, 2, 0, 4, 1]);
}

#[test]
fn header_round_trip() {
    for d in [
        ImageDescriptor { width: 2, height: 2, channels: 4, bytes_per_channel: 1 },
        ImageDescriptor { width: 0, height: 65535, channels: 1, bytes_per_channel: 2 },
        ImageDescriptor { width: 300, height: 7, channels: 3, bytes_per_channel: 1 },
    ] {
        let bytes = encode_header(&d);
        assert_eq!(bytes.len(), 8);
        assert_eq!(decode_header(&bytes), Ok(d));
    }
}

#[test]
fn header_scenario_bytes() {
    let bytes = [0xF8u8, 0xFB, 2, 0, 2, 0, 4, 1];
    let d = decode_header(&bytes).unwrap();
    assert_eq!(d.width, 2);
    assert_eq!(d.height, 2);
    assert_eq!(d.channels, 4);
    assert_eq!(d.bytes_per_channel, 1);
    let mut corrupted = bytes;
    corrupted[0] = 0x00;
    assert_eq!(decode_header(&corrupted), Err(ZpngError::BadMagic));
}

#[test]
fn header_truncated() {
    assert_eq!(decode_header(&[0xF8u8, 0xFB, 2, 0]), Err(ZpngError::Truncated));
    assert_eq!(decode_header(&[]), Err(ZpngError::Truncated));
}

#[test]
fn decompress_truncated_buffer() {
    let buf = ZPNG_Buffer { Data: vec![0xF8, 0xFB, 2, 0] };
    assert_eq!(ZPNG_Decompress(&buf, false).unwrap_err(), ZpngError::Truncated);
}

#[test]
fn decompress_bad_magic() {
    let buf = ZPNG_Buffer { Data: vec![0x00, 0xFB, 2, 0, 2, 0, 4, 1, 9, 9] };
    assert_eq!(ZPNG_Decompress(&buf, false).unwrap_err(), ZpngError::BadMagic);
}

#[test]
fn compress_rejects_stride_nine() {
    // channels * bytesPerChannel == 9 is rejected before any filtering
    let img = ZPNG_ImageData {
        Buffer: ZPNG_Buffer { Data: vec![0; 9] },
        BytesPerChannel: 3,
        Channels: 3,
        WidthPixels: 1,
        HeightPixels: 1,
    };
    assert_eq!(ZPNG_Compress(&img, false).unwrap_err(), ZpngError::UnsupportedPixelFormat);
}

#[test]
fn compress_rejects_zero_channels() {
    let img = ZPNG_ImageData {
        Buffer: ZPNG_Buffer { Data: vec![] },
        BytesPerChannel: 1,
        Channels: 0,
        WidthPixels: 4,
        HeightPixels: 4,
    };
    assert_eq!(ZPNG_Compress(&img, false).unwrap_err(), ZpngError::UnsupportedPixelFormat);
}

#[test]
fn decompress_rejects_unsupported_stride() {
    // a well-formed header may still claim an unsupported pixel format
    let buf = ZPNG_Buffer { Data: vec![0xF8, 0xFB, 1, 0, 1, 0, 9, 1, 0, 0] };
    assert_eq!(ZPNG_Decompress(&buf, false).unwrap_err(), ZpngError::UnsupportedPixelFormat);
}

#[test]
fn size_mismatch_header_claims_larger_image() {
    let img = rgba_2x2();
    let comp = ZPNG_Compress(&img, false).unwrap();
    let mut tampered = comp.Data.clone();
    tampered[2] = 3;  // claim width 3 instead of 2
    let buf = ZPNG_Buffer { Data: tampered };
    assert_eq!(ZPNG_Decompress(&buf, false).unwrap_err(), ZpngError::SizeMismatch);
}

#[test]
fn size_mismatch_header_claims_smaller_image() {
    let img = rgba_2x2();
    let comp = ZPNG_Compress(&img, false).unwrap();
    let mut tampered = comp.Data.clone();
    tampered[2] = 1;  // claim width 1
    tampered[4] = 1;  // claim height 1
    let buf = ZPNG_Buffer { Data: tampered };
    assert_eq!(ZPNG_Decompress(&buf, false).unwrap_err(), ZpngError::SizeMismatch);
}

#[test]
fn garbage_payload_is_entropy_failure() {
    let buf = ZPNG_Buffer { Data: vec![0xF8, 0xFB, 1, 0, 1, 0, 1, 1, 7, 7, 7] };
    assert_eq!(ZPNG_Decompress(&buf, false).unwrap_err(), ZpngError::EntropyCodecFailure);
}

#[test]
fn empty_image_round_trips() {
    for (w, h) in [(0u16, 5u16), (5u16, 0u16), (0u16, 0u16)] {
        let img = ZPNG_ImageData {
            Buffer: ZPNG_Buffer { Data: vec![] },
            BytesPerChannel: 1,
            Channels: 4,
            WidthPixels: w,
            HeightPixels: h,
        };
        let comp = ZPNG_Compress(&img, false).unwrap();
        let dec = ZPNG_Decompress(&comp, false).unwrap();
        assert_eq!(dec.Buffer.Data, Vec::<u8>::new());
        assert_eq!(dec.WidthPixels, w);
        assert_eq!(dec.HeightPixels, h);
    }
}

#[test]
fn entropy_stage_round_trips() {
    let data: Vec<u8> = (0..1000).map(|i| (i % 7) as u8).collect();
    let enc = entropy_encode(&data, ZPNG_COMPRESSION_LEVEL).unwrap();
    assert_ne!(enc, data);
    let dec = entropy_decode(&enc, data.len()).unwrap();
    assert_eq!(dec, data);
}

#[test]
fn entropy_decode_checks_length() {
    let data: Vec<u8> = vec![1, 2, 3, 4, 5];
    let enc = entropy_encode(&data, ZPNG_COMPRESSION_LEVEL).unwrap();
    assert_eq!(entropy_decode(&enc, 4).unwrap_err(), ZpngError::SizeMismatch);
    assert_eq!(entropy_decode(&enc, 6).unwrap_err(), ZpngError::SizeMismatch);
}

#[test]
fn one_channel_single_column_round_trips() {
    // height-heavy shape: 1 wide, 7 tall, stride 1
    let data: Vec<u8> = vec![9, 8, 7, 6, 5, 4, 3];
    let img = ZPNG_ImageData {
        Buffer: ZPNG_Buffer { Data: data.clone() },
        BytesPerChannel: 1,
        Channels: 1,
        WidthPixels: 1,
        HeightPixels: 7,
    };
    let comp = ZPNG_Compress(&img, false).unwrap();
    let dec = ZPNG_Decompress(&comp, false).unwrap();
    assert_eq!(dec.Buffer.Data, data);
}

#[test]
fn rgb_color_filter_round_trips_through_codec() {
    let data: Vec<u8> = (0..3 * 5 * 4).map(|i| (i as u8).wrapping_mul(31).wrapping_add(7)).collect();
    let img = ZPNG_ImageData {
        Buffer: ZPNG_Buffer { Data: data.clone() },
        BytesPerChannel: 1,
        Channels: 3,
        WidthPixels: 5,
        HeightPixels: 4,
    };
    let comp = ZPNG_Compress(&img, true).unwrap();
    let dec = ZPNG_Decompress(&comp, true).unwrap();
    assert_eq!(dec.Buffer.Data, data);
}
