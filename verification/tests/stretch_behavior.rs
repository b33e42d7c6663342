use image_hdr::buffer::PixelBuffer;
use image_hdr::stretch::apply_histogram_stretch;
use image_hdr::SCALE;

#[test]
fn stretch_maps_extremes_to_zero_and_one() {
    let buffer = PixelBuffer {
        height: 1,
        width: 3,
        channels: 1,
        data: vec![2, 5, 9],
    };
    let out = apply_histogram_stretch(&buffer);
    assert_eq!(out.data[0], 0);
    assert_eq!(out.data[1], (5 - 2) * SCALE / (9 - 2));
    assert_eq!(out.data[1], 449_389);
    assert_eq!(out.data[2], SCALE);
}

#[test]
fn stretch_output_lies_in_unit_range() {
    let buffer = PixelBuffer {
        height: 2,
        width: 2,
        channels: 1,
        data: vec![7, 123_456_789, 42, 1_000_000_000_000],
    };
    let out = apply_histogram_stretch(&buffer);
    for v in &out.data {
        assert!(*v <= SCALE);
        let unit = *v as f64 / SCALE as f64;
        assert!((0.0..=1.0).contains(&unit));
    }
}

#[test]
fn stretch_constant_channel_is_zero() {
    let buffer = PixelBuffer {
        height: 2,
        width: 2,
        channels: 1,
        data: vec![7, 7, 7, 7],
    };
    let out = apply_histogram_stretch(&buffer);
    assert_eq!(out.data, vec![0, 0, 0, 0]);
}

#[test]
fn stretch_treats_channels_independently() {
    // Two pixels, three interleaved channels: each channel is rescaled by its
    // own min and max; the constant third channel maps to zero.
    let buffer = PixelBuffer {
        height: 1,
        width: 2,
        channels: 3,
        data: vec![0, 100, 7, 10, 300, 7],
    };
    let out = apply_histogram_stretch(&buffer);
    assert_eq!(out.data, vec![0, 0, 0, SCALE, SCALE, 0]);
}

#[test]
fn stretch_keeps_shape() {
    let buffer = PixelBuffer {
        height: 2,
        width: 3,
        channels: 1,
        data: vec![5, 1, 4, 2, 6, 3],
    };
    let out = apply_histogram_stretch(&buffer);
    assert_eq!(out.height, 2);
    assert_eq!(out.width, 3);
    assert_eq!(out.channels, 1);
    assert_eq!(out.data.len(), 6);
}

#[test]
fn stretch_keeps_value_order() {
    let buffer = PixelBuffer {
        height: 1,
        width: 4,
        channels: 1,
        data: vec![40, 10, 30, 20],
    };
    let out = apply_histogram_stretch(&buffer);
    assert!(out.data[1] < out.data[3]);
    assert!(out.data[3] < out.data[2]);
    assert!(out.data[2] < out.data[0]);
}

#[test]
fn stretch_empty_buffer_stays_empty() {
    let buffer = PixelBuffer {
        height: 0,
        width: 5,
        channels: 1,
        data: Vec::new(),
    };
    let out = apply_histogram_stretch(&buffer);
    assert_eq!(out.data.len(), 0);
}
