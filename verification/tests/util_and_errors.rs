use image_hdr::error::{Error, RawPipelineError, UnknownError};
use image_hdr::util::transpose_vec;

#[test]
fn transpose_square() {
    let rows = vec![vec![1, 2, 3], vec![4, 5, 6], vec![7, 8, 9]];
    let result = transpose_vec(&rows);
    assert_eq!(result, vec![vec![1, 4, 7], vec![2, 5, 8], vec![3, 6, 9]]);
}

#[test]
fn transpose_rectangular() {
    let rows = vec![vec![1, 2], vec![3, 4], vec![5, 6]];
    let result = transpose_vec(&rows);
    assert_eq!(result, vec![vec![1, 3, 5], vec![2, 4, 6]]);
}

#[test]
fn transpose_single_row() {
    let rows = vec![vec![10, 20, 30]];
    let result = transpose_vec(&rows);
    assert_eq!(result, vec![vec![10], vec![20], vec![30]]);
}

#[test]
fn raw_pipeline_error_from_string() {
    let e = RawPipelineError::from(String::from("pipeline stage failed"));
    assert_eq!(e.message().as_str(), "pipeline stage failed");
    assert_eq!(e.0, "pipeline stage failed");
}

#[test]
fn unknown_error_from_string() {
    let e = UnknownError::from(String::from("something else"));
    assert_eq!(e.message().as_str(), "something else");
}

#[test]
fn input_error_carries_parameter() {
    let e = Error::input_error("gain", "must be positive");
    assert_eq!(e.parameter(), "gain");
    match e {
        Error::InputError {
            parameter_name,
            message,
        } => {
            assert_eq!(parameter_name, "gain");
            assert_eq!(message, "must be positive");
        }
        _ => panic!("expected InputError"),
    }
}

#[test]
fn dimension_error_carries_message() {
    let e = Error::dimension_error("channel count must be 1 or 3");
    assert_eq!(e.parameter(), "");
    match e {
        Error::DimensionError { message } => {
            assert_eq!(message, "channel count must be 1 or 3");
        }
        _ => panic!("expected DimensionError"),
    }
}
