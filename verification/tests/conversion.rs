use image_hdr::buffer::PixelBuffer;
use image_hdr::error::Error;
use image_hdr::SCALE;

#[test]
fn buffer_new_validates_shape() {
    let ok = PixelBuffer::new(2, 3, 1, vec![0; 6]);
    assert!(ok.is_ok());
    let bad = PixelBuffer::new(2, 3, 1, vec![0; 5]);
    assert!(matches!(bad, Err(Error::InputError { .. })));
}

#[test]
fn from_luma8_normalizes_by_255() {
    let b = PixelBuffer::from_luma8(&vec![0, 128, 255], 1, 3).unwrap();
    assert_eq!(b.height, 1);
    assert_eq!(b.width, 3);
    assert_eq!(b.channels, 1);
    assert_eq!(b.data, vec![0, 128 * SCALE / 255, SCALE]);
    assert_eq!(b.data[1], 526_344);
}

#[test]
fn from_luma8_rejects_wrong_pixel_count() {
    let r = PixelBuffer::from_luma8(&vec![1, 2, 3], 2, 2);
    assert!(matches!(r, Err(Error::InputError { .. })));
}

#[test]
fn from_luma16_normalizes_by_65535() {
    let b = PixelBuffer::from_luma16(&vec![0, 65535, 32768], 1, 3).unwrap();
    assert_eq!(b.data[0], 0);
    assert_eq!(b.data[1], SCALE);
    assert_eq!(b.data[2], 32768 * SCALE / 65535);
}

#[test]
fn from_rgb8_keeps_interleaved_layout() {
    let b = PixelBuffer::from_rgb8(&vec![255, 0, 255, 0, 255, 0], 1, 2).unwrap();
    assert_eq!(b.channels, 3);
    assert_eq!(b.data, vec![SCALE, 0, SCALE, 0, SCALE, 0]);
}

#[test]
fn from_rgb16_normalizes_each_sample() {
    let b = PixelBuffer::from_rgb16(&vec![65535, 0, 13107], 1, 1).unwrap();
    assert_eq!(b.data, vec![SCALE, 0, 13107 * SCALE / 65535]);
}

#[test]
fn from_rgba8_drops_alpha() {
    let b = PixelBuffer::from_rgba8(&vec![10, 20, 30, 255, 40, 50, 60, 0], 1, 2).unwrap();
    assert_eq!(b.channels, 3);
    assert_eq!(
        b.data,
        vec![
            10 * SCALE / 255,
            20 * SCALE / 255,
            30 * SCALE / 255,
            40 * SCALE / 255,
            50 * SCALE / 255,
            60 * SCALE / 255,
        ]
    );
}

#[test]
fn from_rgba8_rejects_wrong_pixel_count() {
    let r = PixelBuffer::from_rgba8(&vec![1, 2, 3], 1, 1);
    assert!(matches!(r, Err(Error::InputError { .. })));
}

#[test]
fn to_luma16_quantizes_and_clamps() {
    let b = PixelBuffer {
        height: 1,
        width: 4,
        channels: 1,
        data: vec![SCALE, 0, SCALE / 2, 2 * SCALE],
    };
    let out = b.to_luma16().unwrap();
    assert_eq!(out, vec![65535, 0, 32767, 65535]);
}

#[test]
fn to_luma16_rejects_multi_channel_buffer() {
    let b = PixelBuffer {
        height: 1,
        width: 1,
        channels: 3,
        data: vec![0, 0, 0],
    };
    assert!(matches!(b.to_luma16(), Err(Error::DimensionError { .. })));
}

#[test]
fn to_rgb16_quantizes_three_channels() {
    let b = PixelBuffer {
        height: 1,
        width: 1,
        channels: 3,
        data: vec![SCALE, SCALE / 4, 0],
    };
    let out = b.to_rgb16().unwrap();
    assert_eq!(out, vec![65535, 16383, 0]);
}

#[test]
fn to_rgb16_rejects_single_channel_buffer() {
    let b = PixelBuffer {
        height: 1,
        width: 1,
        channels: 1,
        data: vec![0],
    };
    assert!(matches!(b.to_rgb16(), Err(Error::DimensionError { .. })));
}

#[test]
fn round_trip_gray_is_close() {
    let raws: Vec<u16> = vec![0, 1, 255, 32768, 65534, 65535];
    let b = PixelBuffer::from_luma16(&raws, 1, 6).unwrap();
    let back = b.to_luma16().unwrap();
    for (orig, round) in raws.iter().zip(back.iter()) {
        let diff = (*orig as i64 - *round as i64).abs();
        assert!(diff <= 1, "{orig} round-tripped to {round}");
    }
}
