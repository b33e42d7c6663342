//! Input types for an HDR merge: a single exposure sample and the validated
//! list of samples that one merge call consumes.

use vstd::prelude::*;

use crate::buffer::{shape_matches, PixelBuffer};
use crate::error::{is_input_error, is_input_error_msg, Error};
use crate::SCALE;

verus! {

/// Largest accepted exposure time, in units of `1 / SCALE` seconds
/// (2^40, about 12 days): keeps the fusion arithmetic within machine range.
pub const MAX_EXPOSURE: u64 = 1099511627776;

/// Largest accepted gain, in units of `1 / SCALE` (2^40, about a million):
/// keeps the fusion arithmetic within machine range.
pub const MAX_GAIN: u64 = 1099511627776;

/// Largest accepted number of samples in one merge call: keeps the weighted
/// sums of the fusion within machine range.
pub const MAX_SAMPLES: usize = 65536;

/// One exposure: a normalized pixel buffer plus the shutter time and sensor
/// gain under which it was captured, both as fixed-point values in units of
/// `1 / SCALE`.
pub struct HDRInput {
    /// The normalized pixel data, every value at most `SCALE`.
    pub buffer: PixelBuffer,
    /// Shutter time in units of `1 / SCALE` seconds; positive.
    pub exposure: u64,
    /// Linear sensor gain in units of `1 / SCALE`; positive.
    pub gain: u64,
}

impl HDRInput {
    /// Validity: the buffer is well-formed with normalized values, and
    /// exposure and gain are positive and within the accepted range.
    pub open spec fn valid(self) -> bool {
        &&& self.buffer.wf()
        &&& self.buffer.bounded()
        &&& 0 < self.exposure <= MAX_EXPOSURE
        &&& 0 < self.gain <= MAX_GAIN
    }

    /// Build a sample from a normalized buffer, an exposure time and a gain,
    /// rejecting non-positive or out-of-range exposure and gain and buffers
    /// that are malformed or hold values above the normalized range.
    pub fn with_buffer(buffer: PixelBuffer, exposure: u64, gain: u64) -> (r: Result<
        HDRInput,
        Error,
    >)
        ensures
            r is Ok <==> (HDRInput { buffer, exposure, gain }).valid(),
            r matches Ok(s) ==> s == (HDRInput { buffer, exposure, gain }),
            !(0 < gain <= MAX_GAIN) ==> (r matches Err(e) && is_input_error(e, "gain"@)),
            0 < gain <= MAX_GAIN && !(0 < exposure <= MAX_EXPOSURE) ==> (r matches Err(e)
                && is_input_error(e, "exposure"@)),
            0 < gain <= MAX_GAIN && 0 < exposure <= MAX_EXPOSURE && !(buffer.wf()
                && buffer.bounded()) ==> (r matches Err(e) && is_input_error(e, "buffer"@)),
    {
        if gain == 0 || gain > MAX_GAIN {
            return Err(Error::input_error("gain", "Gain must be a positive value within range"));
        }
        if exposure == 0 || exposure > MAX_EXPOSURE {
            return Err(
                Error::input_error(
                    "exposure",
                    "Exposure must be a positive non-zero duration within range",
                ),
            );
        }
        if !shape_matches(buffer.height, buffer.width, buffer.channels, buffer.data.len()) {
            return Err(
                Error::input_error("buffer", "Buffer data length does not match its shape"),
            );
        }
        if !all_values_normalized(&buffer.data) {
            return Err(
                Error::input_error("buffer", "Buffer values must lie in the normalized range"),
            );
        }
        Ok(HDRInput { buffer, exposure, gain })
    }

    /// Get exposure of the input item.
    pub fn get_exposure(&self) -> (r: u64)
        ensures
            r == self.exposure,
    {
        self.exposure
    }

    /// Get gain of the input item.
    pub fn get_gain(&self) -> (r: u64)
        ensures
            r == self.gain,
    {
        self.gain
    }

    /// Get the underlying pixel data of the input item.
    pub fn get_buffer(&self) -> (r: &PixelBuffer)
        ensures
            r == self.buffer,
    {
        &self.buffer
    }
}

/// Whether every value of `data` lies in the normalized range `[0, SCALE]`.
fn all_values_normalized(data: &Vec<u64>) -> (r: bool)
    ensures
        r <==> (forall|k: int| 0 <= k < data@.len() ==> data@[k] <= SCALE),
{
    let mut i: usize = 0;
    while i < data.len()
        invariant
            i <= data@.len(),
            forall|k: int| 0 <= k < i ==> data@[k] <= SCALE,
        decreases data@.len() - i,
    {
        if data[i] > SCALE {
            return false;
        }
        i = i + 1;
    }
    true
}

/// Every sample in `s` is valid.
pub open spec fn all_valid(s: Seq<HDRInput>) -> bool {
    forall|i: int| 0 <= i < s.len() ==> (#[trigger] s[i]).valid()
}

/// Every sample in `s` has the same height, width and channel count as the
/// first one.
pub open spec fn same_shape_all(s: Seq<HDRInput>) -> bool {
    forall|i: int| 0 <= i < s.len() ==> (#[trigger] s[i]).buffer.same_shape(s[0].buffer)
}

/// The shared channel count of `s` is one the fusion supports: 1 or 3.
pub open spec fn channels_supported(s: Seq<HDRInput>) -> bool {
    s.len() > 0 ==> (s[0].buffer.channels == 1 || s[0].buffer.channels == 3)
}

/// The structural invariants a sample set must meet before fusion: at least
/// two samples (and at most `MAX_SAMPLES`), identical geometry, and a
/// supported channel layout.
pub open spec fn sample_set_valid(s: Seq<HDRInput>) -> bool {
    &&& 2 <= s.len() <= MAX_SAMPLES
    &&& same_shape_all(s)
    &&& channels_supported(s)
}

/// Everything fusion needs: a structurally valid sample set whose samples are
/// individually valid.
pub open spec fn fusable(s: Seq<HDRInput>) -> bool {
    sample_set_valid(s) && all_valid(s)
}

/// Whether the sample meets the per-sample validity conditions.
pub(crate) fn sample_is_valid(s: &HDRInput) -> (r: bool)
    ensures
        r <==> s.valid(),
{
    if s.exposure == 0 || s.exposure > MAX_EXPOSURE {
        return false;
    }
    if s.gain == 0 || s.gain > MAX_GAIN {
        return false;
    }
    if !shape_matches(s.buffer.height, s.buffer.width, s.buffer.channels, s.buffer.data.len()) {
        return false;
    }
    all_values_normalized(&s.buffer.data)
}

/// Whether every sample of `samples` has the same shape as the first one.
pub(crate) fn shapes_match(samples: &Vec<HDRInput>) -> (r: bool)
    ensures
        r <==> same_shape_all(samples@),
{
    if samples.len() == 0 {
        return true;
    }
    let first = &samples[0];
    let mut i: usize = 1;
    while i < samples.len()
        invariant
            1 <= i <= samples@.len(),
            samples@.len() > 0,
            first == samples@[0],
            forall|j: int| 0 <= j < i ==> (#[trigger] samples@[j]).buffer.same_shape(
                samples@[0].buffer,
            ),
        decreases samples@.len() - i,
    {
        let s = &samples[i];
        if s.buffer.height != first.buffer.height || s.buffer.width != first.buffer.width
            || s.buffer.channels != first.buffer.channels {
            return false;
        }
        i = i + 1;
    }
    true
}

/// An ordered list of [`HDRInput`] samples gathered for one merge operation.
pub struct HDRInputList(pub Vec<HDRInput>);

impl View for HDRInputList {
    type V = Seq<HDRInput>;

    open spec fn view(&self) -> Seq<HDRInput> {
        self.0@
    }
}

impl HDRInputList {
    /// Build a sample set, validating the structural invariants: at least two
    /// samples, at most `MAX_SAMPLES`, identical geometry across samples, and
    /// a channel count of 1 or 3.
    pub fn new(samples: Vec<HDRInput>) -> (r: Result<HDRInputList, Error>)
        ensures
            r is Ok <==> sample_set_valid(samples@),
            r matches Ok(l) ==> l@ == samples@,
            samples@.len() < 2 ==> (r matches Err(e) && is_input_error_msg(
                e,
                "inputs"@,
                "At least two images must be provided"@,
            )),
            samples@.len() > MAX_SAMPLES ==> (r matches Err(e) && is_input_error_msg(
                e,
                "inputs"@,
                "Too many images were provided"@,
            )),
            2 <= samples@.len() <= MAX_SAMPLES && !same_shape_all(samples@) ==> (r matches Err(e)
                && is_input_error_msg(e, "inputs"@, "dimension mismatch"@)),
            2 <= samples@.len() <= MAX_SAMPLES && same_shape_all(samples@) && !channels_supported(
                samples@,
            ) ==> (r matches Err(e) && is_input_error_msg(
                e,
                "inputs"@,
                "unsupported channel layout"@,
            )),
    {
        if samples.len() < 2 {
            return Err(Error::input_error("inputs", "At least two images must be provided"));
        }
        if samples.len() > MAX_SAMPLES {
            return Err(Error::input_error("inputs", "Too many images were provided"));
        }
        if !shapes_match(&samples) {
            return Err(Error::input_error("inputs", "dimension mismatch"));
        }
        if samples[0].buffer.channels != 1 && samples[0].buffer.channels != 3 {
            return Err(Error::input_error("inputs", "unsupported channel layout"));
        }
        Ok(HDRInputList(samples))
    }

    /// Get the list of [`HDRInput`] as a vec.
    pub fn into_vec(self) -> (r: Vec<HDRInput>)
        ensures
            r@ == self@,
    {
        self.0
    }

    /// Get the list of [`HDRInput`] as a slice.
    pub fn as_slice(&self) -> (r: &[HDRInput])
        ensures
            r@ == self@,
    {
        self.0.as_slice()
    }

    /// Returns the number of elements in the list.
    pub fn len(&self) -> (r: usize)
        ensures
            r == self@.len(),
    {
        self.0.len()
    }

    /// Returns `true` if the list contains no elements.
    pub fn is_empty(&self) -> (r: bool)
        ensures
            r <==> self@.len() == 0,
    {
        self.0.is_empty()
    }
}

impl From<Vec<HDRInput>> for HDRInputList {
    /// Wrap a vector of samples without validating it; [`HDRInputList::new`]
    /// is the validating constructor.
    fn from(value: Vec<HDRInput>) -> (r: Self) {
        HDRInputList(value)
    }
}

impl vstd::std_specs::convert::FromSpecImpl<Vec<HDRInput>> for HDRInputList {
    open spec fn obeys_from_spec() -> bool {
        true
    }

    open spec fn from_spec(value: Vec<HDRInput>) -> Self {
        HDRInputList(value)
    }
}

} // verus!
