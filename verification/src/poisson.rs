//! The Poisson photon-noise radiance estimator: converts every exposure
//! sample into a common radiometric scale and fuses them into one radiance
//! buffer by an exposure-time-weighted average.
//!
//! Each sample's values are divided by `exposure * gain`, which undoes the
//! radiometric effect of shutter time and gain; the per-sample estimates are
//! then averaged with weights proportional to exposure time, because longer
//! exposures carry less relative photon-counting noise.

use vstd::arithmetic::div_mod::{
    lemma_div_is_ordered, lemma_div_multiples_vanish_quotient, lemma_div_nonincreasing,
    lemma_div_pos_is_pos, lemma_multiply_divide_le,
};
use vstd::arithmetic::mul::{
    lemma_mul_inequality, lemma_mul_is_commutative, lemma_mul_is_distributive_add_other_way,
    lemma_mul_nonnegative, lemma_mul_strictly_positive, lemma_mul_upper_bound,
};
use vstd::prelude::*;

use crate::buffer::PixelBuffer;
use crate::input::{all_valid, same_shape_all, HDRInput, HDRInputList, MAX_SAMPLES};
use crate::SCALE;

verus! {

/// The radiance estimate a single exposure gives for one stored value: the
/// value divided by `exposure * gain`, all three in units of `1 / SCALE`, so
/// the result is again in units of `1 / SCALE` (rounded down).
pub open spec fn radiance_of(v: u64, e: u64, g: u64) -> int {
    v * SCALE * SCALE / (e * g)
}

/// The radiance estimate of sample `s` at flat index `k`.
pub open spec fn sample_radiance(s: HDRInput, k: int) -> int {
    radiance_of(s.buffer.data@[k], s.exposure, s.gain)
}

/// `k` is a valid flat index into every sample of `s`.
pub open spec fn index_ok(s: Seq<HDRInput>, k: int) -> bool {
    forall|i: int| 0 <= i < s.len() ==> k < (#[trigger] s[i]).buffer.data@.len()
}

/// The sum of the samples' exposure times.
pub open spec fn exposure_sum(s: Seq<HDRInput>) -> int
    decreases s.len(),
{
    if s.len() == 0 {
        0
    } else {
        exposure_sum(s.drop_last()) + s.last().exposure
    }
}

/// The sum over the samples of radiance estimate times exposure time, at flat
/// index `k`: the numerator of the exposure-weighted average.
pub open spec fn weighted_sum(s: Seq<HDRInput>, k: int) -> int
    decreases s.len(),
{
    if s.len() == 0 {
        0
    } else {
        weighted_sum(s.drop_last(), k) + sample_radiance(s.last(), k) * s.last().exposure
    }
}

/// The plain sum of the samples' radiance estimates at flat index `k`.
pub open spec fn radiance_sum(s: Seq<HDRInput>, k: int) -> int
    decreases s.len(),
{
    if s.len() == 0 {
        0
    } else {
        radiance_sum(s.drop_last(), k) + sample_radiance(s.last(), k)
    }
}

/// The fused radiance at flat index `k`: the exposure-time-weighted average
/// of the per-sample radiance estimates (rounded down).
pub open spec fn fused_value(s: Seq<HDRInput>, k: int) -> int {
    weighted_sum(s, k) / exposure_sum(s)
}

/// Dropping the last sample preserves validity, geometry and index range.
proof fn lemma_prefix_props(s: Seq<HDRInput>, k: int)
    requires
        s.len() > 0,
    ensures
        all_valid(s) ==> all_valid(s.drop_last()),
        index_ok(s, k) ==> index_ok(s.drop_last(), k),
{
    let p = s.drop_last();
    assert(p.len() == s.len() - 1);
    assert(forall|i: int| 0 <= i < p.len() ==> #[trigger] p[i] == s[i]);
    if all_valid(s) {
        assert forall|i: int| 0 <= i < p.len() implies (#[trigger] p[i]).valid() by {
            assert(s[i].valid());
        }
    }
    if index_ok(s, k) {
        assert(index_ok(p, k)) by {
            assert forall|i: int|
                0 <= i < p.len() implies k < (#[trigger] p[i]).buffer.data@.len() by {
                assert(p[i] == s[i]);
                assert(0 <= i < s.len());
                let si = s[i];
                assert(k < si.buffer.data@.len());
            }
        }
    }
}

/// The radiance estimate of a valid sample lies in `[0, SCALE^3]`.
proof fn lemma_radiance_bounds(v: u64, e: u64, g: u64)
    requires
        v <= SCALE,
        1 <= e,
        1 <= g,
    ensures
        0 <= radiance_of(v, e, g) <= 0x1000000000000000,
{
    let num = v * SCALE * SCALE;
    lemma_mul_strictly_positive(e as int, g as int);
    lemma_div_pos_is_pos(num, e * g);
    lemma_div_nonincreasing(num, e * g);
}

/// The exposure sum of valid samples lies between the sample count and the
/// sample count times the largest accepted exposure.
proof fn lemma_exposure_sum_bounds(s: Seq<HDRInput>)
    requires
        all_valid(s),
    ensures
        s.len() <= exposure_sum(s) <= s.len() * 1099511627776,
    decreases s.len(),
{
    if s.len() > 0 {
        lemma_prefix_props(s, 0);
        lemma_exposure_sum_bounds(s.drop_last());
        assert(s.last().valid());
    }
}

/// The weighted sum of valid samples is nonnegative and at most `SCALE^3`
/// times the exposure sum.
proof fn lemma_weighted_sum_bounds(s: Seq<HDRInput>, k: int)
    requires
        0 <= k,
        all_valid(s),
        index_ok(s, k),
    ensures
        0 <= weighted_sum(s, k) <= 0x1000000000000000 * exposure_sum(s),
    decreases s.len(),
{
    if s.len() == 0 {
    } else {
        let prefix = s.drop_last();
        lemma_prefix_props(s, k);
        lemma_weighted_sum_bounds(prefix, k);
        let last = s.last();
        assert(last == s[s.len() - 1]);
        assert(last.valid());
        assert(0 <= k < last.buffer.data@.len());
        let r = sample_radiance(last, k);
        let e = last.exposure as int;
        lemma_radiance_bounds(last.buffer.data@[k], last.exposure, last.gain);
        lemma_mul_nonnegative(r, e);
        lemma_mul_inequality(r, 0x1000000000000000, e);
    }
}

/// The radiance sum of valid samples is nonnegative.
proof fn lemma_radiance_sum_nonneg(s: Seq<HDRInput>, k: int)
    requires
        all_valid(s),
    ensures
        0 <= radiance_sum(s, k),
    decreases s.len(),
{
    if s.len() > 0 {
        lemma_prefix_props(s, k);
        lemma_radiance_sum_nonneg(s.drop_last(), k);
        let last = s.last();
        assert(last == s[s.len() - 1]);
        assert(last.valid());
        lemma_mul_strictly_positive(last.exposure as int, last.gain as int);
        lemma_div_pos_is_pos(
            last.buffer.data@[k] * SCALE * SCALE,
            (last.exposure as int) * (last.gain as int),
        );
    }
}

/// Extending a prefix by one sample extends the partial sums by that sample's
/// terms.
proof fn lemma_sums_step(s: Seq<HDRInput>, i: int, k: int)
    requires
        0 <= i < s.len(),
    ensures
        exposure_sum(s.take(i + 1)) == exposure_sum(s.take(i)) + s[i].exposure,
        weighted_sum(s.take(i + 1), k) == weighted_sum(s.take(i), k) + sample_radiance(s[i], k)
            * s[i].exposure,
{
    assert(s.take(i + 1).drop_last() =~= s.take(i));
    assert(s.take(i + 1).last() == s[i]);
}

/// Fuse the samples of `inputs` into one radiance buffer: every output value
/// is the exposure-time-weighted average of the per-sample radiance
/// estimates. The samples must already satisfy the sample-set invariants;
/// [`crate::hdr_merge_images`] validates them and reports violations.
#[verifier::loop_isolation(false)]
pub fn calculate_poisson_estimate(inputs: &HDRInputList) -> (out: PixelBuffer)
    requires
        1 <= inputs@.len() <= MAX_SAMPLES,
        all_valid(inputs@),
        same_shape_all(inputs@),
    ensures
        out.height == inputs@[0].buffer.height,
        out.width == inputs@[0].buffer.width,
        out.channels == inputs@[0].buffer.channels,
        out.wf(),
        forall|k: int| 0 <= k < out.data@.len() ==> out.data@[k] == fused_value(inputs@, k),
{
    let samples = &inputs.0;
    let n = samples.len();
    let len = samples[0].buffer.data.len();
    proof {
        assert(samples@[0].valid());
        assert forall|i: int|
            0 <= i < samples@.len() implies (#[trigger] samples@[i]).buffer.data@.len()
            == len as int by {
            assert(samples@[i].valid());
            assert(samples@[i].buffer.same_shape(samples@[0].buffer));
        }
    }

    let mut sum_e: u64 = 0;
    let mut i: usize = 0;
    while i < n
        invariant
            i <= n,
            sum_e == exposure_sum(samples@.take(i as int)),
            sum_e <= i * 1099511627776,
        decreases n - i,
    {
        proof {
            lemma_sums_step(samples@, i as int, 0);
            assert(samples@[i as int].valid());
        }
        sum_e = sum_e + samples[i].get_exposure();
        i = i + 1;
    }
    proof {
        assert(samples@.take(n as int) =~= samples@);
        lemma_exposure_sum_bounds(samples@);
    }

    let mut data: Vec<u64> = Vec::new();
    let mut k: usize = 0;
    while k < len
        invariant
            k <= len,
            data@.len() == k,
            forall|j: int| 0 <= j < k ==> data@[j] == fused_value(samples@, j),
        decreases len - k,
    {
        proof {
            assert forall|i3: int|
                0 <= i3 < samples@.len() implies 0 <= (k as int) < (#[trigger] samples@[i3]).buffer.data@.len() by {
                assert(samples@[i3].buffer.data@.len() == len as int);
            }
            assert(index_ok(samples@, k as int));
        }
        let mut num: u128 = 0;
        let mut i2: usize = 0;
        while i2 < n
            invariant
                k < len,
                i2 <= n,
                num == weighted_sum(samples@.take(i2 as int), k as int),
                num <= i2 * 0x10000000000000000000000000,
            decreases n - i2,
        {
            proof {
                assert(samples@[i2 as int].valid());
                lemma_sums_step(samples@, i2 as int, k as int);
                assert(samples@[i2 as int].buffer.data@.len() == len as int);
            }
            let s = &samples[i2];
            let v: u64 = s.buffer.data[k];
            proof {
                lemma_mul_upper_bound(
                    s.exposure as int,
                    1099511627776,
                    s.gain as int,
                    1099511627776,
                );
                lemma_mul_strictly_positive(s.exposure as int, s.gain as int);
                lemma_radiance_bounds(v, s.exposure, s.gain);
            }
            let prod: u128 = (v as u128) * (SCALE as u128) * (SCALE as u128);
            let divisor: u128 = (s.exposure as u128) * (s.gain as u128);
            let r: u128 = prod / divisor;
            proof {
                assert(r == sample_radiance(samples@[i2 as int], k as int));
                lemma_mul_nonnegative(r as int, s.exposure as int);
                lemma_mul_upper_bound(
                    r as int,
                    0x1000000000000000,
                    s.exposure as int,
                    1099511627776,
                );
            }
            num = num + r * (s.exposure as u128);
            i2 = i2 + 1;
        }
        proof {
            assert(samples@.take(n as int) =~= samples@);
            lemma_weighted_sum_bounds(samples@, k as int);
            lemma_multiply_divide_le(num as int, sum_e as int, 0x1000000000000000);
            lemma_div_pos_is_pos(num as int, sum_e as int);
        }
        let phi: u128 = num / (sum_e as u128);
        data.push(phi as u64);
        k = k + 1;
    }

    let out = PixelBuffer {
        height: samples[0].buffer.height,
        width: samples[0].buffer.width,
        channels: samples[0].buffer.channels,
        data,
    };
    out
}

/// Helper for [`lemma_fuse_equal_exposures`]: with one shared exposure time
/// `e0`, the weighted sum is the radiance sum times `e0` and the exposure sum
/// is the sample count times `e0`.
proof fn lemma_sums_equal_exposures(s: Seq<HDRInput>, k: int, e0: int)
    requires
        forall|i: int| 0 <= i < s.len() ==> (#[trigger] s[i]).exposure == e0,
    ensures
        weighted_sum(s, k) == radiance_sum(s, k) * e0,
        exposure_sum(s) == s.len() * e0,
    decreases s.len(),
{
    if s.len() == 0 {
        assert(0 * e0 == 0) by (nonlinear_arith);
        assert(radiance_sum(s, k) * e0 == 0);
    } else {
        let prefix = s.drop_last();
        assert(forall|i: int| 0 <= i < prefix.len() ==> #[trigger] prefix[i] == s[i]);
        assert forall|i: int| 0 <= i < prefix.len() implies (#[trigger] prefix[i]).exposure
            == e0 by {
            assert(s[i].exposure == e0);
        }
        lemma_sums_equal_exposures(prefix, k, e0);
        let r = sample_radiance(s.last(), k);
        assert(s.last() == s[s.len() - 1]);
        lemma_mul_is_distributive_add_other_way(e0, radiance_sum(prefix, k), r);
        assert((s.len() - 1) * e0 + e0 == s.len() * e0) by (nonlinear_arith);
    }
}

/// Law (idempotence under identical exposures): when every sample in a set
/// shares one exposure time and one gain, the fused radiance at each index is
/// the arithmetic mean of the per-sample radiance estimates.
pub proof fn lemma_fuse_equal_exposures(s: Seq<HDRInput>, k: int)
    requires
        s.len() >= 1,
        all_valid(s),
        forall|i: int| 0 <= i < s.len() ==> (#[trigger] s[i]).exposure == s[0].exposure,
        forall|i: int| 0 <= i < s.len() ==> (#[trigger] s[i]).gain == s[0].gain,
    ensures
        fused_value(s, k) == radiance_sum(s, k) / (s.len() as int),
{
    let e0 = s[0].exposure as int;
    let rs = radiance_sum(s, k);
    let n = s.len() as int;
    assert(s[0].valid());
    lemma_sums_equal_exposures(s, k, e0);
    lemma_radiance_sum_nonneg(s, k);
    lemma_div_multiples_vanish_quotient(e0, rs, n);
    lemma_mul_is_commutative(e0, rs);
    lemma_mul_is_commutative(e0, n);
}

/// Law (weight monotonicity): in an exposure-weighted average of two
/// radiance estimates `ra > rb`, raising the first sample's exposure time
/// strictly raises that sample's share of the total exposure, and strictly
/// raises the exact (unrounded) weighted average, moving it toward `ra`. The
/// two `ensures` state these facts with both sides multiplied by the positive
/// denominators `ea1 + eb` and `ea2 + eb`.
pub proof fn lemma_weight_monotonicity(ra: int, rb: int, ea1: int, ea2: int, eb: int)
    by (nonlinear_arith)
    requires
        rb < ra,
        0 < ea1 < ea2,
        0 < eb,
    ensures
        ea1 * (ea2 + eb) < ea2 * (ea1 + eb),
        (ra * ea1 + rb * eb) * (ea2 + eb) < (ra * ea2 + rb * eb) * (ea1 + eb),
{
}

/// Law (weight monotonicity, applied to a two-sample fusion): let sample `a2`
/// be sample `a1` re-captured with a strictly longer exposure such that it
/// yields the same radiance estimate at index `k`, and let `b` be a sample
/// whose estimate disagrees there (is smaller). Then the longer exposure
/// carries a strictly larger share of the total exposure, and the fused value
/// of `{a2, b}` at `k` is at least that of `{a1, b}`: the exact weighted
/// average strictly increases ([`lemma_weight_monotonicity`]) and rounding
/// down preserves its order ([`lemma_div_cross_monotone`]).
pub proof fn lemma_fused_monotone_in_exposure(a1: HDRInput, a2: HDRInput, b: HDRInput, k: int)
    requires
        a1.valid(),
        a2.valid(),
        b.valid(),
        a1.exposure < a2.exposure,
        sample_radiance(a2, k) == sample_radiance(a1, k),
        sample_radiance(b, k) < sample_radiance(a1, k),
        0 <= sample_radiance(b, k),
    ensures
        fused_value(seq![a1, b], k) <= fused_value(seq![a2, b], k),
{
    let ra = sample_radiance(a1, k);
    let rb = sample_radiance(b, k);
    let e1 = a1.exposure as int;
    let e2 = a2.exposure as int;
    let eb = b.exposure as int;

    lemma_two_sample_sums(a1, b, k);
    lemma_two_sample_sums(a2, b, k);

    lemma_weight_monotonicity(ra, rb, e1, e2, eb);
    lemma_mul_nonnegative(ra, e1);
    lemma_mul_nonnegative(rb, eb);
    lemma_div_cross_monotone(ra * e1 + rb * eb, e1 + eb, ra * e2 + rb * eb, e2 + eb);
}

/// The sums behind the fused value of a two-sample set, written out.
proof fn lemma_two_sample_sums(a: HDRInput, b: HDRInput, k: int)
    ensures
        weighted_sum(seq![a, b], k) == sample_radiance(a, k) * a.exposure + sample_radiance(b, k)
            * b.exposure,
        exposure_sum(seq![a, b]) == a.exposure + b.exposure,
{
    let s = seq![a, b];
    let sa = seq![a];
    assert(s.drop_last() =~= sa);
    assert(sa.drop_last() =~= Seq::<HDRInput>::empty());
    assert(s.last() == b);
    assert(sa.last() == a);
    assert(weighted_sum(Seq::<HDRInput>::empty(), k) == 0);
    assert(exposure_sum(Seq::<HDRInput>::empty()) == 0);
    assert(weighted_sum(sa, k) == sample_radiance(a, k) * a.exposure);
    assert(exposure_sum(sa) == a.exposure);
    assert(weighted_sum(s, k) == weighted_sum(sa, k) + sample_radiance(b, k) * b.exposure);
    assert(exposure_sum(s) == exposure_sum(sa) + b.exposure);
}

/// Law (weight monotonicity, rounded level): rounding down preserves the
/// order of two exact weighted averages: when `w1 / e1 <= w2 / e2` holds of
/// the exact fractions (stated cross-multiplied), it also holds of the
/// rounded-down quotients.
pub proof fn lemma_div_cross_monotone(w1: int, e1: int, w2: int, e2: int)
    requires
        0 <= w1,
        0 < e1,
        0 < e2,
        w1 * e2 <= w2 * e1,
    ensures
        w1 / e1 <= w2 / e2,
{
    lemma_div_multiples_vanish_quotient(e2, w1, e1);
    assert(0 <= w2) by (nonlinear_arith)
        requires
            0 <= w1,
            0 < e1,
            0 < e2,
            w1 * e2 <= w2 * e1,
    ;
    lemma_div_multiples_vanish_quotient(e1, w2, e2);
    lemma_mul_strictly_positive(e2, e1);
    assert(e2 * w1 <= e1 * w2) by (nonlinear_arith)
        requires
            w1 * e2 <= w2 * e1,
    ;
    lemma_div_is_ordered(e2 * w1, e1 * w2, e2 * e1);
    assert(e1 * e2 == e2 * e1) by (nonlinear_arith);
}

} // verus!
