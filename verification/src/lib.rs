//! HDR radiance estimation: merges a set of differently-exposed photographs of
//! one static scene into a single high-dynamic-range radiance buffer using a
//! Poisson photon-noise estimator, then rescales it into a displayable range
//! with a per-channel histogram stretch.
//!
//! All pixel intensities, exposure times and gains are carried as fixed-point
//! values in units of `1 / SCALE`, so every numeric step of the pipeline is
//! exact integer arithmetic with a verified contract. The surrounding
//! application converts decoded images and EXIF metadata into these units.

pub mod buffer;
pub mod error;
pub mod input;
pub mod poisson;
pub mod stretch;
pub mod util;

pub use error::Error;

use vstd::prelude::*;

use crate::buffer::PixelBuffer;
use crate::error::{is_input_error, is_input_error_msg};
use crate::input::{
    all_valid, channels_supported, fusable, same_shape_all, sample_is_valid, shapes_match,
    HDRInputList, MAX_SAMPLES,
};
use crate::poisson::{calculate_poisson_estimate, fused_value};

verus! {

/// Value of 1.0 in the library's fixed-point encoding: intensities, exposure
/// times (seconds) and gains are all integers counting units of `1 / SCALE`.
pub const SCALE: u64 = 1048576;

/// Given a set of exposure samples, validate the sample-set invariants and
/// HDR-merge the samples into one radiance buffer whose values are the
/// exposure-time-weighted averages of the per-sample radiance estimates.
///
/// # Errors
/// - If fewer than two samples are supplied (or more than `MAX_SAMPLES`).
/// - If a sample has an invalid exposure, gain or buffer.
/// - If the samples have differing dimensions.
/// - If the shared channel count is neither 1 (grayscale) nor 3 (RGB).
#[verifier::loop_isolation(false)]
pub fn hdr_merge_images(inputs: HDRInputList) -> (r: Result<PixelBuffer, Error>)
    ensures
        r is Ok <==> fusable(inputs@),
        r matches Ok(out) ==> {
            &&& out.height == inputs@[0].buffer.height
            &&& out.width == inputs@[0].buffer.width
            &&& out.channels == inputs@[0].buffer.channels
            &&& out.wf()
            &&& forall|k: int|
                0 <= k < out.data@.len() ==> out.data@[k] == fused_value(inputs@, k)
        },
        inputs@.len() < 2 ==> (r matches Err(e) && is_input_error_msg(
            e,
            "inputs"@,
            "At least two images must be provided"@,
        )),
        inputs@.len() > MAX_SAMPLES ==> (r matches Err(e) && is_input_error_msg(
            e,
            "inputs"@,
            "Too many images were provided"@,
        )),
        2 <= inputs@.len() <= MAX_SAMPLES && !all_valid(inputs@) ==> (r matches Err(e)
            && is_input_error(e, "inputs"@)),
        2 <= inputs@.len() <= MAX_SAMPLES && all_valid(inputs@) && !same_shape_all(inputs@) ==> (
        r matches Err(e) && is_input_error_msg(e, "inputs"@, "dimension mismatch"@)),
        2 <= inputs@.len() <= MAX_SAMPLES && all_valid(inputs@) && same_shape_all(inputs@)
            && !channels_supported(inputs@) ==> (r matches Err(e) && is_input_error_msg(
            e,
            "inputs"@,
            "unsupported channel layout"@,
        )),
{
    let n = inputs.len();
    if n < 2 {
        return Err(Error::input_error("inputs", "At least two images must be provided"));
    }
    if n > MAX_SAMPLES {
        return Err(Error::input_error("inputs", "Too many images were provided"));
    }
    let mut i: usize = 0;
    while i < n
        invariant
            i <= n,
            forall|j: int| 0 <= j < i ==> (#[trigger] inputs@[j]).valid(),
        decreases n - i,
    {
        if !sample_is_valid(&inputs.0[i]) {
            return Err(Error::input_error("inputs", "Sample has an invalid exposure, gain or buffer"));
        }
        i = i + 1;
    }
    if !shapes_match(&inputs.0) {
        return Err(Error::input_error("inputs", "dimension mismatch"));
    }
    let ch = inputs.0[0].buffer.channels;
    if ch != 1 && ch != 3 {
        return Err(Error::input_error("inputs", "unsupported channel layout"));
    }
    Ok(calculate_poisson_estimate(&inputs))
}

} // verus!
