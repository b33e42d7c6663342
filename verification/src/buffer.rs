//! The fixed-point pixel buffer and the conversions between decoded integer
//! images and that buffer.
//!
//! A buffer stores one `u64` per pixel and channel, counting units of
//! `1 / SCALE`; decoded 8-bit and 16-bit samples are normalized by their
//! maximum representable value so that they land in `[0, SCALE]`, and
//! quantized output samples are produced by the reverse mapping.

use vstd::arithmetic::div_mod::{lemma_div_by_multiple, lemma_div_is_ordered, lemma_multiply_divide_le};
use vstd::arithmetic::mul::lemma_mul_inequality;
use vstd::prelude::*;

use crate::error::{is_input_error_msg, Error};
use crate::SCALE;

verus! {

/// A three-dimensional `[height, width, channels]` value buffer, stored flat
/// in row-major, channel-interleaved order: the value of channel `c` of the
/// pixel in row `y`, column `x` is `data[(y * width + x) * channels + c]`.
pub struct PixelBuffer {
    /// Number of pixel rows.
    pub height: usize,
    /// Number of pixel columns.
    pub width: usize,
    /// Number of channels per pixel; the fusion pipeline supports 1 and 3.
    pub channels: usize,
    /// The flat value data, `height * width * channels` entries.
    pub data: Vec<u64>,
}

impl PixelBuffer {
    /// The number of values a buffer of this shape holds.
    pub open spec fn spec_len(self) -> int {
        self.height * self.width * self.channels
    }

    /// Well-formedness: the flat data vector matches the declared shape.
    pub open spec fn wf(self) -> bool {
        self.data@.len() == self.spec_len()
    }

    /// All stored values lie in the normalized range, that is, at most `SCALE`.
    pub open spec fn bounded(self) -> bool {
        forall|k: int| 0 <= k < self.data@.len() ==> self.data@[k] <= SCALE
    }

    /// `self` and `other` have the same height, width and channel count.
    pub open spec fn same_shape(self, other: PixelBuffer) -> bool {
        self.height == other.height && self.width == other.width && self.channels
            == other.channels
    }

    /// Build a buffer from a shape and flat data, validating that the data
    /// length matches the shape.
    pub fn new(height: usize, width: usize, channels: usize, data: Vec<u64>) -> (r: Result<
        PixelBuffer,
        Error,
    >)
        ensures
            r is Ok <==> data@.len() == height * width * channels,
            r matches Ok(b) ==> b == (PixelBuffer { height, width, channels, data }),
            r matches Err(e) ==> is_input_error_msg(
                e,
                "data"@,
                "Data length does not match the buffer shape"@,
            ),
    {
        if shape_matches(height, width, channels, data.len()) {
            Ok(PixelBuffer { height, width, channels, data })
        } else {
            Err(Error::input_error("data", "Data length does not match the buffer shape"))
        }
    }

    /// The total number of stored values.
    pub fn len(&self) -> (r: usize)
        ensures
            r == self.data@.len(),
    {
        self.data.len()
    }
}

/// The number of values a `[height, width, channels]` buffer holds, or `None`
/// when that number does not fit in `usize`.
pub fn shape_len(height: usize, width: usize, channels: usize) -> (r: Option<usize>)
    ensures
        r matches Some(len) ==> len == height * width * channels,
        r is None ==> height * width * channels > usize::MAX,
{
    match height.checked_mul(width) {
        Some(hw) => {
            let r = hw.checked_mul(channels);
            proof {
                if hw * channels > usize::MAX {
                    assert(height * width * channels == hw * channels);
                }
            }
            r
        },
        None => {
            if channels == 0 {
                proof {
                    assert(height * width * channels == 0) by (nonlinear_arith)
                        requires
                            channels == 0,
                    ;
                }
                Some(0)
            } else {
                proof {
                    assert(height * width * channels >= height * width) by (nonlinear_arith)
                        requires
                            channels >= 1,
                            height * width >= 0,
                    ;
                }
                None
            }
        },
    }
}

/// Whether a flat vector of `actual_len` values matches the shape
/// `[height, width, channels]`.
pub(crate) fn shape_matches(height: usize, width: usize, channels: usize, actual_len: usize) -> (r: bool)
    ensures
        r <==> actual_len == height * width * channels,
{
    match shape_len(height, width, channels) {
        Some(len) => len == actual_len,
        None => false,
    }
}

/// The normalized fixed-point value of an 8-bit sample: `raw / 255` in units
/// of `1 / SCALE`, rounded down.
pub open spec fn normalized_u8(raw: u8) -> int {
    raw * SCALE / 255
}

/// The normalized fixed-point value of a 16-bit sample: `raw / 65535` in
/// units of `1 / SCALE`, rounded down.
pub open spec fn normalized_u16(raw: u16) -> int {
    raw * SCALE / 65535
}

/// The quantized 16-bit sample for a fixed-point value: the value is clamped
/// to the normalized range and multiplied by 65535, rounded down.
pub open spec fn quantized_u16(v: u64) -> int {
    (if v > SCALE {
        SCALE as int
    } else {
        v as int
    }) * 65535 / (SCALE as int)
}

/// A normalized sample never exceeds `SCALE`: `raw * SCALE / max <= SCALE`
/// whenever `raw <= max`.
proof fn lemma_normalized_bounded(raw: int, max: int)
    requires
        0 <= raw <= max,
        0 < max,
    ensures
        0 <= raw * SCALE / max <= SCALE,
{
    lemma_mul_inequality(raw, max, SCALE as int);
    lemma_div_is_ordered(raw * SCALE, max * SCALE, max);
    lemma_div_by_multiple(SCALE as int, max);
    assert(max * SCALE == SCALE * max) by (nonlinear_arith);
    vstd::arithmetic::mul::lemma_mul_nonnegative(raw, SCALE as int);
    vstd::arithmetic::div_mod::lemma_div_pos_is_pos(raw * SCALE, max);
}

/// Normalize a vector of 8-bit samples into fixed-point values.
fn normalize_u8_values(pixels: &Vec<u8>) -> (data: Vec<u64>)
    ensures
        data@.len() == pixels@.len(),
        forall|k: int| 0 <= k < data@.len() ==> data@[k] == normalized_u8(pixels@[k]),
        forall|k: int| 0 <= k < data@.len() ==> data@[k] <= SCALE,
{
    let mut data: Vec<u64> = Vec::new();
    let mut i: usize = 0;
    while i < pixels.len()
        invariant
            i <= pixels@.len(),
            data@.len() == i,
            forall|k: int| 0 <= k < i ==> data@[k] == normalized_u8(pixels@[k]),
            forall|k: int| 0 <= k < i ==> data@[k] <= SCALE,
        decreases pixels@.len() - i,
    {
        let raw = pixels[i];
        proof {
            lemma_normalized_bounded(raw as int, 255);
        }
        let v: u64 = (raw as u64) * SCALE / 255;
        data.push(v);
        i = i + 1;
    }
    data
}

/// Normalize a vector of 16-bit samples into fixed-point values.
fn normalize_u16_values(pixels: &Vec<u16>) -> (data: Vec<u64>)
    ensures
        data@.len() == pixels@.len(),
        forall|k: int| 0 <= k < data@.len() ==> data@[k] == normalized_u16(pixels@[k]),
        forall|k: int| 0 <= k < data@.len() ==> data@[k] <= SCALE,
{
    let mut data: Vec<u64> = Vec::new();
    let mut i: usize = 0;
    while i < pixels.len()
        invariant
            i <= pixels@.len(),
            data@.len() == i,
            forall|k: int| 0 <= k < i ==> data@[k] == normalized_u16(pixels@[k]),
            forall|k: int| 0 <= k < i ==> data@[k] <= SCALE,
        decreases pixels@.len() - i,
    {
        let raw = pixels[i];
        proof {
            lemma_normalized_bounded(raw as int, 65535);
        }
        let v: u64 = (raw as u64) * SCALE / 65535;
        data.push(v);
        i = i + 1;
    }
    data
}

impl PixelBuffer {
    /// Build a single-channel buffer from decoded 8-bit grayscale samples,
    /// normalizing each by the maximum representable value 255.
    pub fn from_luma8(pixels: &Vec<u8>, height: usize, width: usize) -> (r: Result<
        PixelBuffer,
        Error,
    >)
        ensures
            r is Ok <==> pixels@.len() == height * width,
            r matches Ok(b) ==> {
                &&& b.height == height && b.width == width && b.channels == 1
                &&& b.wf()
                &&& b.bounded()
                &&& forall|k: int| 0 <= k < b.data@.len() ==> b.data@[k] == normalized_u8(
                    pixels@[k],
                )
            },
            r matches Err(e) ==> is_input_error_msg(
                e,
                "pixels"@,
                "Pixel count does not match the image dimensions"@,
            ),
    {
        let ok = shape_matches(height, width, 1, pixels.len());
        proof {
            assert(height * width * 1 == height * width) by (nonlinear_arith);
        }
        if ok {
            let data = normalize_u8_values(pixels);
            Ok(PixelBuffer { height, width, channels: 1, data })
        } else {
            Err(Error::input_error("pixels", "Pixel count does not match the image dimensions"))
        }
    }

    /// Build a single-channel buffer from decoded 16-bit grayscale samples,
    /// normalizing each by the maximum representable value 65535.
    pub fn from_luma16(pixels: &Vec<u16>, height: usize, width: usize) -> (r: Result<
        PixelBuffer,
        Error,
    >)
        ensures
            r is Ok <==> pixels@.len() == height * width,
            r matches Ok(b) ==> {
                &&& b.height == height && b.width == width && b.channels == 1
                &&& b.wf()
                &&& b.bounded()
                &&& forall|k: int| 0 <= k < b.data@.len() ==> b.data@[k] == normalized_u16(
                    pixels@[k],
                )
            },
            r matches Err(e) ==> is_input_error_msg(
                e,
                "pixels"@,
                "Pixel count does not match the image dimensions"@,
            ),
    {
        let ok = shape_matches(height, width, 1, pixels.len());
        proof {
            assert(height * width * 1 == height * width) by (nonlinear_arith);
        }
        if ok {
            let data = normalize_u16_values(pixels);
            Ok(PixelBuffer { height, width, channels: 1, data })
        } else {
            Err(Error::input_error("pixels", "Pixel count does not match the image dimensions"))
        }
    }

    /// Build a three-channel buffer from decoded, interleaved 8-bit RGB
    /// samples, normalizing each by the maximum representable value 255.
    pub fn from_rgb8(pixels: &Vec<u8>, height: usize, width: usize) -> (r: Result<
        PixelBuffer,
        Error,
    >)
        ensures
            r is Ok <==> pixels@.len() == height * width * 3,
            r matches Ok(b) ==> {
                &&& b.height == height && b.width == width && b.channels == 3
                &&& b.wf()
                &&& b.bounded()
                &&& forall|k: int| 0 <= k < b.data@.len() ==> b.data@[k] == normalized_u8(
                    pixels@[k],
                )
            },
            r matches Err(e) ==> is_input_error_msg(
                e,
                "pixels"@,
                "Pixel count does not match the image dimensions"@,
            ),
    {
        if shape_matches(height, width, 3, pixels.len()) {
            let data = normalize_u8_values(pixels);
            Ok(PixelBuffer { height, width, channels: 3, data })
        } else {
            Err(Error::input_error("pixels", "Pixel count does not match the image dimensions"))
        }
    }

    /// Build a three-channel buffer from decoded, interleaved 16-bit RGB
    /// samples, normalizing each by the maximum representable value 65535.
    pub fn from_rgb16(pixels: &Vec<u16>, height: usize, width: usize) -> (r: Result<
        PixelBuffer,
        Error,
    >)
        ensures
            r is Ok <==> pixels@.len() == height * width * 3,
            r matches Ok(b) ==> {
                &&& b.height == height && b.width == width && b.channels == 3
                &&& b.wf()
                &&& b.bounded()
                &&& forall|k: int| 0 <= k < b.data@.len() ==> b.data@[k] == normalized_u16(
                    pixels@[k],
                )
            },
            r matches Err(e) ==> is_input_error_msg(
                e,
                "pixels"@,
                "Pixel count does not match the image dimensions"@,
            ),
    {
        if shape_matches(height, width, 3, pixels.len()) {
            let data = normalize_u16_values(pixels);
            Ok(PixelBuffer { height, width, channels: 3, data })
        } else {
            Err(Error::input_error("pixels", "Pixel count does not match the image dimensions"))
        }
    }

    /// Build a three-channel buffer from decoded, interleaved 8-bit RGBA
    /// samples: the alpha channel is dropped and the color samples are
    /// normalized by the maximum representable value 255.
    pub fn from_rgba8(pixels: &Vec<u8>, height: usize, width: usize) -> (r: Result<
        PixelBuffer,
        Error,
    >)
        ensures
            r is Ok <==> pixels@.len() == height * width * 4,
            r matches Ok(b) ==> {
                &&& b.height == height && b.width == width && b.channels == 3
                &&& b.wf()
                &&& b.bounded()
                &&& forall|p: int, c: int|
                    0 <= p < b.height * b.width && 0 <= c < 3 ==> #[trigger] b.data@[p * 3 + c]
                        == normalized_u8(pixels@[p * 4 + c])
            },
            r matches Err(e) ==> is_input_error_msg(
                e,
                "pixels"@,
                "Pixel count does not match the image dimensions"@,
            ),
    {
        if shape_matches(height, width, 4, pixels.len()) {
            let ghost pixel_count: int = height * width;
            proof {
                assert(height * width * 4 == pixel_count * 4 && height * width * 3 == pixel_count
                    * 3) by (nonlinear_arith)
                    requires
                        pixel_count == height * width,
                ;
            }
            let mut data: Vec<u64> = Vec::new();
            let mut i: usize = 0;
            let ghost mut p: int = 0;
            while i < pixels.len()
                invariant
                    pixels@.len() == pixel_count * 4,
                    0 <= p <= pixel_count,
                    i == p * 4,
                    data@.len() == p * 3,
                    forall|q: int, c: int|
                        0 <= q && 0 <= c < 3 && q * 3 + c < data@.len() ==> #[trigger] data@[q * 3
                            + c] == normalized_u8(pixels@[q * 4 + c]),
                    forall|k: int| 0 <= k < data@.len() ==> data@[k] <= SCALE,
                decreases pixels@.len() - i,
            {
                proof {
                    assert(p < pixel_count) by (nonlinear_arith)
                        requires
                            p * 4 < pixel_count * 4,
                    ;
                    lemma_mul_inequality(p + 1, pixel_count, 4);
                    lemma_normalized_bounded(pixels@[i as int] as int, 255);
                    lemma_normalized_bounded(pixels@[i + 1] as int, 255);
                    lemma_normalized_bounded(pixels@[i + 2] as int, 255);
                }
                let r: u64 = (pixels[i] as u64) * SCALE / 255;
                let g: u64 = (pixels[i + 1] as u64) * SCALE / 255;
                let b: u64 = (pixels[i + 2] as u64) * SCALE / 255;
                data.push(r);
                data.push(g);
                data.push(b);
                i = i + 4;
                proof {
                    p = p + 1;
                    assert forall|q: int, c: int|
                        0 <= q && 0 <= c < 3 && q * 3 + c < data@.len() implies #[trigger] data@[q
                        * 3 + c] == normalized_u8(pixels@[q * 4 + c]) by {
                        if q < p - 1 {
                            assert(q * 3 + c < (p - 1) * 3) by (nonlinear_arith)
                                requires
                                    q < p - 1,
                                    0 <= c < 3,
                                    0 <= q,
                            ;
                        } else {
                            assert(q * 3 + c < p * 3 ==> q <= p - 1) by (nonlinear_arith)
                                requires
                                    0 <= c < 3,
                                    0 <= q,
                            ;
                            assert(q == p - 1);
                            assert((p - 1) * 4 + c == i - 4 + c);
                            assert((p - 1) * 3 + c == data@.len() - 3 + c);
                        }
                    }
                }
            }
            proof {
                assert(p == pixel_count) by (nonlinear_arith)
                    requires
                        p * 4 >= pixel_count * 4,
                        p <= pixel_count,
                ;
            }
            Ok(PixelBuffer { height, width, channels: 3, data })
        } else {
            Err(Error::input_error("pixels", "Pixel count does not match the image dimensions"))
        }
    }
}

/// Quantize a vector of fixed-point values into 16-bit samples, clamping each
/// to the normalized range first.
fn quantize_u16_values(data: &Vec<u64>) -> (out: Vec<u16>)
    ensures
        out@.len() == data@.len(),
        forall|k: int| 0 <= k < out@.len() ==> out@[k] == quantized_u16(data@[k]),
{
    let mut out: Vec<u16> = Vec::new();
    let mut i: usize = 0;
    while i < data.len()
        invariant
            i <= data@.len(),
            out@.len() == i,
            forall|k: int| 0 <= k < i ==> out@[k] == quantized_u16(data@[k]),
        decreases data@.len() - i,
    {
        let v = data[i];
        let clamped: u64 = if v > SCALE {
            SCALE
        } else {
            v
        };
        proof {
            lemma_mul_inequality(clamped as int, SCALE as int, 65535);
            lemma_multiply_divide_le(clamped * 65535, SCALE as int, 65535);
            assert(SCALE * 65535 == 65535 * (SCALE as int)) by (nonlinear_arith);
            assert(clamped * 65535 >= 0) by (nonlinear_arith);
            vstd::arithmetic::div_mod::lemma_div_pos_is_pos(clamped * 65535, SCALE as int);
        }
        let q: u64 = clamped * 65535 / SCALE;
        out.push(q as u16);
        i = i + 1;
    }
    out
}

impl PixelBuffer {
    /// Quantize a single-channel buffer into 16-bit grayscale samples; values
    /// are clamped to the normalized range. Fails when the buffer does not
    /// have exactly one channel.
    pub fn to_luma16(&self) -> (r: Result<Vec<u16>, Error>)
        ensures
            r is Ok <==> self.channels == 1,
            r matches Ok(out) ==> {
                &&& out@.len() == self.data@.len()
                &&& forall|k: int| 0 <= k < out@.len() ==> out@[k] == quantized_u16(self.data@[k])
            },
            r matches Err(e) ==> (e matches Error::DimensionError { message } && message@
                == "Expected a single-channel buffer"@),
    {
        if self.channels == 1 {
            Ok(quantize_u16_values(&self.data))
        } else {
            Err(Error::dimension_error("Expected a single-channel buffer"))
        }
    }

    /// Quantize a three-channel buffer into interleaved 16-bit RGB samples;
    /// values are clamped to the normalized range. Fails when the buffer does
    /// not have exactly three channels.
    pub fn to_rgb16(&self) -> (r: Result<Vec<u16>, Error>)
        ensures
            r is Ok <==> self.channels == 3,
            r matches Ok(out) ==> {
                &&& out@.len() == self.data@.len()
                &&& forall|k: int| 0 <= k < out@.len() ==> out@[k] == quantized_u16(self.data@[k])
            },
            r matches Err(e) ==> (e matches Error::DimensionError { message } && message@
                == "Expected a three-channel buffer"@),
    {
        if self.channels == 3 {
            Ok(quantize_u16_values(&self.data))
        } else {
            Err(Error::dimension_error("Expected a three-channel buffer"))
        }
    }
}

} // verus!
