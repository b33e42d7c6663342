//! Histogram stretch: maps an arbitrary-range radiance buffer into the
//! displayable range by a linear per-channel min-max rescale.
//!
//! For each channel independently, the minimum and maximum over all pixels
//! are found in a first pass; a second pass maps every value `x` to
//! `(x - min) / (max - min)` in units of `1 / SCALE`. A constant channel
//! (`max == min`) produces the defined output 0 everywhere instead of a
//! division by zero.

use vstd::arithmetic::div_mod::{
    lemma_div_by_multiple, lemma_div_pos_is_pos, lemma_fundamental_div_mod_converse,
    lemma_multiply_divide_le,
};
use vstd::arithmetic::mul::{lemma_mul_inequality, lemma_mul_nonnegative};
use vstd::prelude::*;

use crate::buffer::PixelBuffer;
use crate::SCALE;

verus! {

/// The stretched value of `x` for a channel whose values span `[lo, hi]`:
/// `(x - lo) / (hi - lo)` in units of `1 / SCALE`, rounded down, or the
/// defined constant 0 when the channel is degenerate (`hi <= lo`).
pub open spec fn stretch_value(x: u64, lo: u64, hi: u64) -> int {
    if hi <= lo {
        0
    } else {
        (x - lo) * SCALE / (hi - lo)
    }
}

/// The smallest value of channel `c` among the first `count` pixels of the
/// flat, channel-interleaved `data`; `u64::MAX` when `count` is 0.
pub open spec fn channel_min(data: Seq<u64>, channels: int, c: int, count: int) -> u64
    decreases count,
{
    if count <= 0 {
        u64::MAX
    } else {
        let prev = channel_min(data, channels, c, count - 1);
        let v = data[(count - 1) * channels + c];
        if v < prev {
            v
        } else {
            prev
        }
    }
}

/// The largest value of channel `c` among the first `count` pixels of the
/// flat, channel-interleaved `data`; 0 when `count` is 0.
pub open spec fn channel_max(data: Seq<u64>, channels: int, c: int, count: int) -> u64
    decreases count,
{
    if count <= 0 {
        0
    } else {
        let prev = channel_max(data, channels, c, count - 1);
        let v = data[(count - 1) * channels + c];
        if v > prev {
            v
        } else {
            prev
        }
    }
}

/// The minimum of channel `c` over all pixels of buffer `b`.
pub open spec fn buffer_channel_min(b: PixelBuffer, c: int) -> u64 {
    channel_min(b.data@, b.channels as int, c, b.height * b.width)
}

/// The maximum of channel `c` over all pixels of buffer `b`.
pub open spec fn buffer_channel_max(b: PixelBuffer, c: int) -> u64 {
    channel_max(b.data@, b.channels as int, c, b.height * b.width)
}

/// Every value of channel `c` lies between the channel's minimum and maximum.
pub proof fn lemma_channel_min_max(data: Seq<u64>, channels: int, c: int, count: int, p: int)
    requires
        0 <= p < count,
    ensures
        channel_min(data, channels, c, count) <= data[p * channels + c],
        data[p * channels + c] <= channel_max(data, channels, c, count),
    decreases count,
{
    if p < count - 1 {
        lemma_channel_min_max(data, channels, c, count - 1, p);
    }
}

/// The channel minimum and maximum are attained: some pixel of channel `c`
/// holds the channel's smallest value, and some pixel its largest.
pub proof fn lemma_channel_min_max_attained(data: Seq<u64>, channels: int, c: int, count: int)
    requires
        0 < count,
    ensures
        exists|p: int|
            0 <= p < count && #[trigger] data[p * channels + c] == channel_min(
                data,
                channels,
                c,
                count,
            ),
        exists|p: int|
            0 <= p < count && #[trigger] data[p * channels + c] == channel_max(
                data,
                channels,
                c,
                count,
            ),
    decreases count,
{
    let last = data[(count - 1) * channels + c];
    if count == 1 {
        assert(channel_min(data, channels, c, 0) == u64::MAX);
        assert(channel_max(data, channels, c, 0) == 0);
        assert(data[(count - 1) * channels + c] == channel_min(data, channels, c, count));
        assert(data[(count - 1) * channels + c] == channel_max(data, channels, c, count));
    } else {
        lemma_channel_min_max_attained(data, channels, c, count - 1);
        if last < channel_min(data, channels, c, count - 1) {
            assert(data[(count - 1) * channels + c] == channel_min(data, channels, c, count));
        } else {
            let p = choose|p: int|
                0 <= p < count - 1 && #[trigger] data[p * channels + c] == channel_min(
                    data,
                    channels,
                    c,
                    count - 1,
                );
            assert(data[p * channels + c] == channel_min(data, channels, c, count));
        }
        if last > channel_max(data, channels, c, count - 1) {
            assert(data[(count - 1) * channels + c] == channel_max(data, channels, c, count));
        } else {
            let p = choose|p: int|
                0 <= p < count - 1 && #[trigger] data[p * channels + c] == channel_max(
                    data,
                    channels,
                    c,
                    count - 1,
                );
            assert(data[p * channels + c] == channel_max(data, channels, c, count));
        }
    }
}

/// Law (stretch range): for a non-degenerate channel spanning `[lo, hi]`,
/// every stretched value lies in `[0, SCALE]`; a value at the channel minimum
/// maps to exactly 0 and one at the channel maximum to exactly `SCALE`.
pub proof fn lemma_stretch_range(x: u64, lo: u64, hi: u64)
    requires
        lo <= x <= hi,
        lo < hi,
    ensures
        0 <= stretch_value(x, lo, hi) <= SCALE,
        x == lo ==> stretch_value(x, lo, hi) == 0,
        x == hi ==> stretch_value(x, lo, hi) == SCALE,
{
    let d = hi - lo;
    lemma_mul_nonnegative(x - lo, SCALE as int);
    lemma_div_pos_is_pos((x - lo) * SCALE, d);
    lemma_mul_inequality(x - lo, d, SCALE as int);
    lemma_multiply_divide_le((x - lo) * SCALE, d, SCALE as int);
    if x == hi {
        lemma_div_by_multiple(SCALE as int, d);
        assert(d * SCALE == SCALE * d) by (nonlinear_arith);
    }
}

/// Law (stretch degeneracy): a channel holding one value `v` at every pixel
/// is mapped to the defined constant output 0, not to a division by zero.
pub proof fn lemma_stretch_degenerate(x: u64, v: u64)
    ensures
        stretch_value(x, v, v) == 0,
{
}

/// A flat index built from a pixel index and a channel stays inside the
/// buffer.
proof fn lemma_flat_index(p: int, c: int, channels: int, count: int)
    requires
        0 <= p < count,
        0 <= c < channels,
    ensures
        0 <= p * channels + c < count * channels,
{
    assert(p * channels + c < count * channels) by (nonlinear_arith)
        requires
            0 <= p < count,
            0 <= c < channels,
    ;
    lemma_mul_nonnegative(p, channels);
}

/// Two pixel/channel pairs that map to the same flat index are the same pair.
proof fn lemma_flat_index_unique(p1: int, c1: int, p2: int, c2: int, channels: int)
    requires
        0 <= p1,
        0 <= p2,
        0 <= c1 < channels,
        0 <= c2 < channels,
        p1 * channels + c1 == p2 * channels + c2,
    ensures
        p1 == p2 && c1 == c2,
{
    let x = p1 * channels + c1;
    lemma_fundamental_div_mod_converse(x, channels, p1, c1);
    lemma_fundamental_div_mod_converse(x, channels, p2, c2);
}

/// Linearly rescale one value of a channel spanning `[min, max]` into the
/// displayable range; a degenerate channel maps to 0.
fn scale_pixel(pixel: u64, min: u64, max: u64) -> (r: u64)
    requires
        max <= min || min <= pixel <= max,
    ensures
        r == stretch_value(pixel, min, max),
        r <= SCALE,
{
    if max <= min {
        0
    } else {
        proof {
            lemma_stretch_range(pixel, min, max);
        }
        let num: u128 = ((pixel - min) as u128) * (SCALE as u128);
        (num / ((max - min) as u128)) as u64
    }
}

/// Contrast-stretch (normalize) a radiance buffer into the displayable
/// range: each channel is independently mapped by a linear min-max rescale,
/// and a constant channel maps to 0 everywhere. Never fails on a well-formed
/// buffer.
#[verifier::loop_isolation(false)]
pub fn apply_histogram_stretch(buffer: &PixelBuffer) -> (out: PixelBuffer)
    requires
        buffer.wf(),
    ensures
        out.height == buffer.height,
        out.width == buffer.width,
        out.channels == buffer.channels,
        out.wf(),
        forall|p: int, c: int|
            0 <= p < buffer.height * buffer.width && 0 <= c < buffer.channels
                ==> #[trigger] out.data@[p * buffer.channels + c] == stretch_value(
                buffer.data@[p * buffer.channels + c],
                buffer_channel_min(*buffer, c),
                buffer_channel_max(*buffer, c),
            ),
        forall|k: int| 0 <= k < out.data@.len() ==> out.data@[k] <= SCALE,
{
    let channels = buffer.channels;
    let len = buffer.data.len();
    let ghost pixel_count: int = buffer.height * buffer.width;

    if channels == 0 {
        proof {
            assert(buffer.height * buffer.width * buffer.channels == 0) by (nonlinear_arith)
                requires
                    buffer.channels == 0,
            ;
        }
        let out = PixelBuffer {
            height: buffer.height,
            width: buffer.width,
            channels: buffer.channels,
            data: Vec::new(),
        };
        return out;
    }

    proof {
        assert(pixel_count * channels == buffer.height * buffer.width * buffer.channels)
            by (nonlinear_arith)
            requires
                pixel_count == buffer.height * buffer.width,
                channels == buffer.channels,
        ;
        assert(pixel_count <= pixel_count * channels) by (nonlinear_arith)
            requires
                channels >= 1,
                pixel_count >= 0,
        ;
    }
    let pixels: usize = len / channels;
    proof {
        lemma_div_by_multiple(pixel_count, channels as int);
        assert(pixel_count * channels == channels * pixel_count) by (nonlinear_arith);
    }

    let mut out_data: Vec<u64> = Vec::new();
    let mut z: usize = 0;
    while z < len
        invariant
            z <= len,
            out_data@.len() == z,
            forall|k: int| 0 <= k < z ==> out_data@[k] == 0,
        decreases len - z,
    {
        out_data.push(0u64);
        z = z + 1;
    }

    let mut c: usize = 0;
    while c < channels
        invariant
            c <= channels,
            out_data@.len() == len,
            forall|p2: int, c2: int|
                0 <= p2 < pixel_count && 0 <= c2 < c ==> #[trigger] out_data@[p2 * channels + c2]
                    == stretch_value(
                    buffer.data@[p2 * channels + c2],
                    channel_min(buffer.data@, channels as int, c2, pixel_count),
                    channel_max(buffer.data@, channels as int, c2, pixel_count),
                ),
            forall|k: int| 0 <= k < len ==> out_data@[k] <= SCALE,
        decreases channels - c,
    {
        let mut mn: u64 = u64::MAX;
        let mut mx: u64 = 0;
        let mut p: usize = 0;
        while p < pixels
            invariant
                c < channels,
                p <= pixels,
                mn == channel_min(buffer.data@, channels as int, c as int, p as int),
                mx == channel_max(buffer.data@, channels as int, c as int, p as int),
            decreases pixels - p,
        {
            proof {
                lemma_flat_index(p as int, c as int, channels as int, pixel_count);
            }
            let idx: usize = p * channels + c;
            let v: u64 = buffer.data[idx];
            if v < mn {
                mn = v;
            }
            if v > mx {
                mx = v;
            }
            p = p + 1;
        }

        let mut p2: usize = 0;
        while p2 < pixels
            invariant
                c < channels,
                p2 <= pixels,
                mn == channel_min(buffer.data@, channels as int, c as int, pixel_count),
                mx == channel_max(buffer.data@, channels as int, c as int, pixel_count),
                out_data@.len() == len,
                forall|q: int, c2: int|
                    0 <= q < pixel_count && 0 <= c2 < c ==> #[trigger] out_data@[q * channels + c2]
                        == stretch_value(
                        buffer.data@[q * channels + c2],
                        channel_min(buffer.data@, channels as int, c2, pixel_count),
                        channel_max(buffer.data@, channels as int, c2, pixel_count),
                    ),
                forall|q: int|
                    0 <= q < p2 ==> #[trigger] out_data@[q * channels + c as int]
                        == stretch_value(buffer.data@[q * channels + c as int], mn, mx),
                forall|k: int| 0 <= k < len ==> out_data@[k] <= SCALE,
            decreases pixels - p2,
        {
            proof {
                lemma_flat_index(p2 as int, c as int, channels as int, pixel_count);
                lemma_channel_min_max(
                    buffer.data@,
                    channels as int,
                    c as int,
                    pixel_count,
                    p2 as int,
                );
            }
            let idx: usize = p2 * channels + c;
            let v: u64 = buffer.data[idx];
            let sv: u64 = scale_pixel(v, mn, mx);
            let ghost old_out = out_data@;
            out_data[idx] = sv;
            p2 = p2 + 1;
            proof {
                assert forall|q: int, c2: int|
                    0 <= q < pixel_count && 0 <= c2 < c implies #[trigger] out_data@[q * channels
                    + c2] == stretch_value(
                    buffer.data@[q * channels + c2],
                    channel_min(buffer.data@, channels as int, c2, pixel_count),
                    channel_max(buffer.data@, channels as int, c2, pixel_count),
                ) by {
                    lemma_flat_index(q, c2, channels as int, pixel_count);
                    if q * channels + c2 == idx as int {
                        lemma_flat_index_unique(
                            q,
                            c2,
                            p2 - 1,
                            c as int,
                            channels as int,
                        );
                    }
                }
                assert forall|q: int|
                    0 <= q < p2 implies #[trigger] out_data@[q * channels + c as int]
                    == stretch_value(buffer.data@[q * channels + c as int], mn, mx) by {
                    lemma_flat_index(q, c as int, channels as int, pixel_count);
                    if q < p2 - 1 {
                        if q * channels + c as int == idx as int {
                            lemma_flat_index_unique(
                                q,
                                c as int,
                                p2 - 1,
                                c as int,
                                channels as int,
                            );
                        }
                    }
                }
            }
        }
        c = c + 1;
    }

    let out = PixelBuffer {
        height: buffer.height,
        width: buffer.width,
        channels: buffer.channels,
        data: out_data,
    };
    out
}

} // verus!
