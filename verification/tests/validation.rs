use image_hdr::buffer::PixelBuffer;
use image_hdr::error::Error;
use image_hdr::hdr_merge_images;
use image_hdr::input::{HDRInput, HDRInputList, MAX_EXPOSURE, MAX_GAIN};
use image_hdr::SCALE;

fn gray_buffer(data: Vec<u64>) -> PixelBuffer {
    PixelBuffer {
        height: 1,
        width: data.len(),
        channels: 1,
        data,
    }
}

fn sample(data: Vec<u64>, exposure: u64, gain: u64) -> HDRInput {
    HDRInput::with_buffer(gray_buffer(data), exposure, gain).unwrap()
}

fn input_error_parts(e: Error) -> (String, String) {
    match e {
        Error::InputError {
            parameter_name,
            message,
        } => (parameter_name, message),
        _ => panic!("expected an InputError"),
    }
}

#[test]
fn fuse_rejects_empty_set() {
    let result = hdr_merge_images(HDRInputList::from(Vec::new()));
    let (param, message) = input_error_parts(result.err().unwrap());
    assert_eq!(param, "inputs");
    assert_eq!(message, "At least two images must be provided");
}

#[test]
fn fuse_rejects_single_sample() {
    let inputs = HDRInputList::from(vec![sample(vec![100], SCALE, SCALE)]);
    let (param, message) = input_error_parts(hdr_merge_images(inputs).err().unwrap());
    assert_eq!(param, "inputs");
    assert_eq!(message, "At least two images must be provided");
}

#[test]
fn sample_set_rejects_mismatched_dimensions() {
    let a = sample(vec![100, 200], SCALE, SCALE);
    let b = sample(vec![100], SCALE, SCALE);
    let (param, message) = input_error_parts(HDRInputList::new(vec![a, b]).err().unwrap());
    assert_eq!(param, "inputs");
    assert_eq!(message, "dimension mismatch");
}

#[test]
fn sample_set_rejects_mismatched_channels() {
    let a = HDRInput::with_buffer(
        PixelBuffer {
            height: 1,
            width: 1,
            channels: 3,
            data: vec![1, 2, 3],
        },
        SCALE,
        SCALE,
    )
    .unwrap();
    let b = HDRInput::with_buffer(
        PixelBuffer {
            height: 1,
            width: 3,
            channels: 1,
            data: vec![1, 2, 3],
        },
        SCALE,
        SCALE,
    )
    .unwrap();
    let (param, message) = input_error_parts(HDRInputList::new(vec![a, b]).err().unwrap());
    assert_eq!(param, "inputs");
    assert_eq!(message, "dimension mismatch");
}

#[test]
fn sample_set_rejects_unsupported_channel_layout() {
    let make = || {
        HDRInput::with_buffer(
            PixelBuffer {
                height: 1,
                width: 1,
                channels: 4,
                data: vec![1, 2, 3, 4],
            },
            SCALE,
            SCALE,
        )
        .unwrap()
    };
    let (param, message) = input_error_parts(HDRInputList::new(vec![make(), make()]).err().unwrap());
    assert_eq!(param, "inputs");
    assert_eq!(message, "unsupported channel layout");
}

#[test]
fn sample_set_rejects_fewer_than_two() {
    let (param, message) =
        input_error_parts(HDRInputList::new(vec![sample(vec![5], SCALE, SCALE)]).err().unwrap());
    assert_eq!(param, "inputs");
    assert_eq!(message, "At least two images must be provided");
}

#[test]
fn sample_set_accepts_matching_samples() {
    let a = sample(vec![100, 200], SCALE, SCALE);
    let b = sample(vec![300, 400], SCALE, SCALE);
    let list = HDRInputList::new(vec![a, b]).unwrap();
    assert_eq!(list.len(), 2);
    assert!(!list.is_empty());
}

#[test]
fn build_sample_rejects_zero_exposure() {
    let result = HDRInput::with_buffer(gray_buffer(vec![100]), 0, SCALE);
    let (param, _) = input_error_parts(result.err().unwrap());
    assert_eq!(param, "exposure");
}

#[test]
fn build_sample_rejects_out_of_range_exposure() {
    let result = HDRInput::with_buffer(gray_buffer(vec![100]), MAX_EXPOSURE + 1, SCALE);
    let (param, _) = input_error_parts(result.err().unwrap());
    assert_eq!(param, "exposure");
}

#[test]
fn build_sample_rejects_zero_gain() {
    let result = HDRInput::with_buffer(gray_buffer(vec![100]), SCALE, 0);
    let (param, _) = input_error_parts(result.err().unwrap());
    assert_eq!(param, "gain");
}

#[test]
fn build_sample_rejects_out_of_range_gain() {
    let result = HDRInput::with_buffer(gray_buffer(vec![100]), SCALE, MAX_GAIN + 1);
    let (param, _) = input_error_parts(result.err().unwrap());
    assert_eq!(param, "gain");
}

#[test]
fn build_sample_checks_gain_before_exposure() {
    let result = HDRInput::with_buffer(gray_buffer(vec![100]), 0, 0);
    let (param, _) = input_error_parts(result.err().unwrap());
    assert_eq!(param, "gain");
}

#[test]
fn build_sample_rejects_malformed_buffer() {
    let malformed = PixelBuffer {
        height: 2,
        width: 2,
        channels: 1,
        data: vec![1, 2, 3],
    };
    let result = HDRInput::with_buffer(malformed, SCALE, SCALE);
    let (param, _) = input_error_parts(result.err().unwrap());
    assert_eq!(param, "buffer");
}

#[test]
fn build_sample_rejects_values_above_normalized_range() {
    let result = HDRInput::with_buffer(gray_buffer(vec![SCALE + 1]), SCALE, SCALE);
    let (param, _) = input_error_parts(result.err().unwrap());
    assert_eq!(param, "buffer");
}

#[test]
fn build_sample_accepts_valid_input() {
    let s = sample(vec![0, SCALE], SCALE / 2, 2 * SCALE);
    assert_eq!(s.get_exposure(), SCALE / 2);
    assert_eq!(s.get_gain(), 2 * SCALE);
    assert_eq!(s.get_buffer().data, vec![0, SCALE]);
}

#[test]
fn fuse_rejects_dimension_mismatch() {
    let a = sample(vec![100, 200], SCALE, SCALE);
    let b = sample(vec![100], SCALE, SCALE);
    let (param, message) =
        input_error_parts(hdr_merge_images(HDRInputList::from(vec![a, b])).err().unwrap());
    assert_eq!(param, "inputs");
    assert_eq!(message, "dimension mismatch");
}

#[test]
fn list_round_trips_through_vec() {
    let a = sample(vec![1], SCALE, SCALE);
    let b = sample(vec![2], SCALE, SCALE);
    let list = HDRInputList::from(vec![a, b]);
    assert_eq!(list.as_slice().len(), 2);
    let back = list.into_vec();
    assert_eq!(back[0].get_buffer().data, vec![1]);
    assert_eq!(back[1].get_buffer().data, vec![2]);
}
