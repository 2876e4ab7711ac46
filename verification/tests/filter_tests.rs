//! Tests for the delta filter and the color-decorrelation filter in
//! isolation, without any compression involved.

use zpng_rs::color::PackAndFilter_3;
use zpng_rs::color::PackAndFilter_4;
use zpng_rs::color::UnpackAndUnfilter_3;
use zpng_rs::color::UnpackAndUnfilter_4;
use zpng_rs::filter::PackAndFilter;
use zpng_rs::filter::UnpackAndUnfilter;

#[test]
fn delta_filter_exact_values_single_row() {
    // one row, one channel: each byte becomes its difference from the
    // previous one, the first is kept
    let input = vec![10u8, 20, 15, 15];
    let packed = PackAndFilter(&input, 4, 1, 1);
    assert_eq!(packed, vec![10u8, 10, 251, 0]);
}

#[test]
fn delta_filter_resets_each_row() {
    // two rows of one pixel: no prediction crosses the row boundary
    let input = vec![5u8, 7];
    let packed = PackAndFilter(&input, 1, 2, 1);
    assert_eq!(packed, vec![5u8, 7]);
}

#[test]
fn delta_filter_interleaved_channels() {
    // one row of two pixels with two channels: each channel predicts
    // from its own previous value
    let input = vec![1u8, 100, 3, 90];
    let packed = PackAndFilter(&input, 2, 1, 2);
    assert_eq!(packed, vec![1u8, 100, 2, 246]);
}

#[test]
fn delta_filter_round_trips_every_stride() {
    // width 3, height 2, strides 1..=8, wrap-heavy contents
    for n in 1usize..=8 {
        let len = 3 * 2 * n;
        let input: Vec<u8> = (0..len).map(|i| (i as u8).wrapping_mul(37).wrapping_add(200)).collect();
        let packed = PackAndFilter(&input, 3, 2, n);
        assert_eq!(packed.len(), input.len());
        let out = UnpackAndUnfilter(&packed, 3, 2, n);
        assert_eq!(out.Data, input);
    }
}

#[test]
fn color_filter_3_exact_values() {
    // one row, two RGB pixels: spatial delta then y=b, u=g-b, v=g-r,
    // split into planes
    let input = vec![1u8, 2, 3, 5, 4, 9];
    let packed = PackAndFilter_3(&input, 2, 1);
    assert_eq!(packed, vec![3u8, 6, 255, 252, 1, 254]);
}

#[test]
fn color_filter_3_round_trips() {
    let input: Vec<u8> = (0..3 * 4 * 3).map(|i| (i as u8).wrapping_mul(91).wrapping_add(13)).collect();
    let packed = PackAndFilter_3(&input, 4, 3);
    let out = UnpackAndUnfilter_3(&packed, 4, 3);
    assert_eq!(out.Data, input);
}

#[test]
fn color_filter_4_alpha_plane_passes_through() {
    // one row, two RGBA pixels: the alpha delta lands in the fourth plane
    let input = vec![1u8, 2, 3, 255, 5, 4, 9, 250];
    let packed = PackAndFilter_4(&input, 2, 1);
    assert_eq!(packed, vec![3u8, 6, 255, 252, 1, 254, 255, 251]);
}

#[test]
fn color_filter_4_round_trips() {
    let input: Vec<u8> = (0..4 * 2 * 5).map(|i| (i as u8).wrapping_mul(57).wrapping_add(99)).collect();
    let packed = PackAndFilter_4(&input, 2, 5);
    let out = UnpackAndUnfilter_4(&packed, 2, 5);
    assert_eq!(out.Data, input);
}

#[test]
fn filters_on_empty_image() {
    let input: Vec<u8> = Vec::new();
    assert_eq!(PackAndFilter(&input, 0, 5, 3), Vec::<u8>::new());
    assert_eq!(PackAndFilter_3(&input, 5, 0), Vec::<u8>::new());
    assert_eq!(UnpackAndUnfilter(&input, 0, 0, 8).Data, Vec::<u8>::new());
}
