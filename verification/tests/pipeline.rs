use image_hdr::buffer::PixelBuffer;
use image_hdr::hdr_merge_images;
use image_hdr::input::{HDRInput, HDRInputList};
use image_hdr::stretch::apply_histogram_stretch;
use image_hdr::SCALE;

fn single_pixel_sample(value: u64, exposure: u64) -> HDRInput {
    let buffer = PixelBuffer {
        height: 1,
        width: 1,
        channels: 1,
        data: vec![value],
    };
    HDRInput::with_buffer(buffer, exposure, SCALE).unwrap()
}

fn run_pipeline() -> (u64, f32) {
    // Three single-pixel exposures of values 0.2, 0.5 and 0.8 captured at
    // 1/640 s, 1/4000 s and 1/80 s, all at gain 1.
    let inputs = vec![
        single_pixel_sample(209_715, SCALE / 640),
        single_pixel_sample(524_288, SCALE / 4000),
        single_pixel_sample(838_860, SCALE / 80),
    ];
    let fused = hdr_merge_images(HDRInputList::from(inputs)).unwrap();
    let stretched = apply_histogram_stretch(&fused);
    assert_eq!(stretched.data.len(), 1);
    let scalar = stretched.data[0] as f32 / SCALE as f32;
    (fused.data[0], scalar)
}

#[test]
fn end_to_end_three_exposures() {
    let (fused, scalar) = run_pipeline();
    // The exposure-weighted average of the three radiance estimates.
    assert_eq!(fused, 109_899_806);
    // A single constant pixel stretches to the defined degenerate output 0,
    // which lies in the displayable unit range.
    assert!((0.0..=1.0).contains(&scalar));
    assert_eq!(scalar, 0.0);
}

#[test]
fn end_to_end_is_reproducible() {
    let (fused_a, scalar_a) = run_pipeline();
    let (fused_b, scalar_b) = run_pipeline();
    assert_eq!(fused_a, fused_b);
    assert!((scalar_a - scalar_b).abs() < 1e-5);
}

#[test]
fn end_to_end_two_pixel_scene() {
    // A two-pixel scene keeps the stretch non-degenerate: the darker pixel
    // maps to 0.0 and the brighter one to 1.0.
    let make = |bright: u64, dark: u64, exposure: u64| {
        let buffer = PixelBuffer {
            height: 1,
            width: 2,
            channels: 1,
            data: vec![dark, bright],
        };
        HDRInput::with_buffer(buffer, exposure, SCALE).unwrap()
    };
    let inputs = vec![
        make(800_000, 100_000, SCALE),
        make(400_000, 50_000, SCALE / 2),
    ];
    let fused = hdr_merge_images(HDRInputList::from(inputs)).unwrap();
    let stretched = apply_histogram_stretch(&fused);
    assert_eq!(stretched.data[0], 0);
    assert_eq!(stretched.data[1], SCALE);
    let lo = stretched.data[0] as f32 / SCALE as f32;
    let hi = stretched.data[1] as f32 / SCALE as f32;
    assert_eq!(lo, 0.0);
    assert_eq!(hi, 1.0);
}
