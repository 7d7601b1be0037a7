//! Histograms, contrast look-up tables and order statistics over frame samples.

use vstd::prelude::*;
use crate::pixels::{le_u16, is_wide_depth, decode_le_u16};

verus! {

/// The samples of a frame, in storage order: one per byte for 8-bit data,
/// one per complete little-endian byte pair for 12/16-bit data, none for
/// any other bit depth.
pub open spec fn frame_samples(data: Seq<u8>, bit_depth: u32) -> Seq<int> {
    if bit_depth == 8 {
        Seq::new(data.len(), |i: int| data[i] as int)
    } else if is_wide_depth(bit_depth) {
        Seq::new((data.len() / 2) as nat, |i: int| le_u16(data[2 * i], data[2 * i + 1]))
    } else {
        Seq::empty()
    }
}

/// Largest value of the nominal range of a bit depth (12-bit: 4095,
/// 8-bit: 255, anything else: 65535).
pub open spec fn depth_max(bit_depth: u32) -> int {
    if bit_depth == 8 {
        255
    } else if bit_depth == 12 {
        4095
    } else {
        65535
    }
}

/// Histogram bin of a sample value: the value scaled from `0..=maxv` onto
/// `0..=bins-1`, rounded down and capped at the last bin.
pub open spec fn bin_index(v: int, bins: int, maxv: int) -> int {
    let b = v * (bins - 1) / maxv;
    if b < bins - 1 {
        b
    } else {
        bins - 1
    }
}

/// Number of values that fall into bin `b`.
pub open spec fn bin_count(vals: Seq<int>, bins: int, maxv: int, b: int) -> nat
    decreases vals.len(),
{
    if vals.len() == 0 {
        0
    } else {
        bin_count(vals.drop_last(), bins, maxv, b) + (if bin_index(vals.last(), bins, maxv) == b {
            1nat
        } else {
            0nat
        })
    }
}

/// Number of samples of a frame.
pub fn sample_total(data: &[u8], bit_depth: u32) -> (n: usize)
    ensures
        n == frame_samples(data@, bit_depth).len(),
{
    if bit_depth == 8 {
        data.len()
    } else if bit_depth == 12 || bit_depth == 16 {
        data.len() / 2
    } else {
        0
    }
}

/// Reads sample `i` of a frame.
pub fn frame_sample(data: &[u8], i: usize, bit_depth: u32) -> (v: u16)
    requires
        i < frame_samples(data@, bit_depth).len(),
    ensures
        v as int == frame_samples(data@, bit_depth)[i as int],
{
    if bit_depth == 8 {
        data[i] as u16
    } else {
        let len = data.len();
        assert(2 * i + 1 < len);
        let j: usize = i + i;
        decode_le_u16(data[j], data[j + 1])
    }
}

proof fn lemma_bin_count_step(vals: Seq<int>, i: int, bins: int, maxv: int, b: int)
    requires
        0 <= i < vals.len(),
    ensures
        bin_count(vals.take(i + 1), bins, maxv, b) == bin_count(vals.take(i), bins, maxv, b) + (
        if bin_index(vals[i], bins, maxv) == b {
            1nat
        } else {
            0nat
        }),
{
    assert(vals.take(i + 1).drop_last() =~= vals.take(i));
}

proof fn lemma_bin_count_prefix_le(vals: Seq<int>, k: int, bins: int, maxv: int, b: int)
    requires
        0 <= k <= vals.len(),
    ensures
        bin_count(vals.take(k), bins, maxv, b) <= bin_count(vals, bins, maxv, b),
    decreases vals.len() - k,
{
    if k < vals.len() {
        lemma_bin_count_prefix_le(vals, k + 1, bins, maxv, b);
        lemma_bin_count_step(vals, k, bins, maxv, b);
    } else {
        assert(vals.take(k) =~= vals);
    }
}

/// Bin of one sample value, computed without overflow.
fn sample_bin(v: u16, bins: usize, maxv: u32) -> (b: usize)
    requires
        bins >= 1,
        maxv >= 1,
    ensures
        b == bin_index(v as int, bins as int, maxv as int),
        b < bins,
{
    let last = bins - 1;
    proof {
        assert((v as int) * (last as int) <= 65535 * 0x1_0000_0000_0000_0000) by (nonlinear_arith)
            requires
                v <= 65535,
                last < 0x1_0000_0000_0000_0000,
        ;
        assert(0 <= (v as int) * (last as int)) by (nonlinear_arith)
            requires
                v >= 0,
                last >= 0,
        ;
    }
    let scaled: u128 = (v as u128) * (last as u128) / (maxv as u128);
    if scaled < last as u128 {
        scaled as usize
    } else {
        last
    }
}

/// Histogram of the frame's samples with `bins` bins: sample `v` is counted
/// in bin `min(v * (bins - 1) / maxv, bins - 1)`, where `maxv` is 255, 4095 or
/// 65535 for 8, 12 or 16 bits. Other bit depths give an all-zero histogram.
/// The bin is computed exactly in integer arithmetic, without floating-point
/// rounding: for example 8-bit sample 255 in 1024 bins lands in bin 1023.
pub fn build_histogram(data: &[u8], bit_depth: u32, bins: usize) -> (hist: Vec<u32>)
    requires
        bins >= 1,
        forall|b: int|
            0 <= b < bins ==> #[trigger] bin_count(frame_samples(data@, bit_depth), bins as int, depth_max(bit_depth), b)
                <= u32::MAX,
    ensures
        hist@.len() == bins,
        forall|b: int|
            0 <= b < bins ==> #[trigger] hist@[b] == bin_count(
                frame_samples(data@, bit_depth),
                bins as int,
                depth_max(bit_depth),
                b,
            ),
{
    let mut hist: Vec<u32> = Vec::new();
    let mut k: usize = 0;
    while k < bins
        invariant
            k <= bins,
            hist@.len() == k,
            forall|b: int| 0 <= b < k ==> #[trigger] hist@[b] == 0,
        decreases bins - k,
    {
        hist.push(0);
        k = k + 1;
    }
    let maxv: u32 = if bit_depth == 8 {
        255
    } else if bit_depth == 12 {
        4095
    } else {
        65535
    };
    let n = sample_total(data, bit_depth);
    let ghost vals = frame_samples(data@, bit_depth);
    assert(vals.take(0) =~= Seq::<int>::empty());
    assert(maxv == depth_max(bit_depth));
    assert forall|b: int| 0 <= b < bins implies #[trigger] bin_count(vals, bins as int, maxv as int, b) <= u32::MAX by {
        assert(bin_count(frame_samples(data@, bit_depth), bins as int, depth_max(bit_depth), b) <= u32::MAX);
    }
    let mut i: usize = 0;
    while i < n
        invariant
            n == vals.len(),
            vals == frame_samples(data@, bit_depth),
            forall|b: int| 0 <= b < bins ==> #[trigger] bin_count(vals, bins as int, maxv as int, b) <= u32::MAX,
            i <= n,
            bins >= 1,
            maxv == depth_max(bit_depth),
            hist@.len() == bins,
            forall|b: int|
                0 <= b < bins ==> #[trigger] hist@[b] == bin_count(
                    vals.take(i as int),
                    bins as int,
                    maxv as int,
                    b,
                ),
        decreases n - i,
    {
        let v = frame_sample(data, i, bit_depth);
        let b = sample_bin(v, bins, maxv);
        proof {
            lemma_bin_count_prefix_le(vals, i + 1, bins as int, maxv as int, b as int);
            lemma_bin_count_step(vals, i as int, bins as int, maxv as int, b as int);
            assert forall|c: int| 0 <= c < bins implies bin_count(
                vals.take(i + 1),
                bins as int,
                maxv as int,
                c,
            ) == bin_count(vals.take(i as int), bins as int, maxv as int, c) + (if c == b {
                1nat
            } else {
                0nat
            }) by {
                lemma_bin_count_step(vals, i as int, bins as int, maxv as int, c);
            }
        }
        let cur = hist[b];
        hist.set(b, cur + 1);
        i = i + 1;
    }
    assert(vals.take(n as int) =~= vals);
    hist
}


/// Sum of the first `k` counts of a histogram.
pub open spec fn prefix_sum(h: Seq<int>, k: int) -> int
    decreases k,
{
    if k <= 0 || h.len() == 0 {
        0
    } else if k > h.len() {
        prefix_sum(h, h.len() as int)
    } else {
        prefix_sum(h, k - 1) + h[k - 1]
    }
}

/// The counts of a `u32` histogram as integers.
pub open spec fn counts32(h: Seq<u32>) -> Seq<int> {
    h.map_values(|c: u32| c as int)
}

/// The counts of a `u64` histogram as integers.
pub open spec fn counts64(h: Seq<u64>) -> Seq<int> {
    h.map_values(|c: u64| c as int)
}

/// The first non-zero count of a histogram (0 when all counts are zero).
/// It equals the first non-zero value of the cumulative distribution.
pub open spec fn first_nonzero(h: Seq<int>) -> int
    decreases h.len(),
{
    if h.len() == 0 {
        0
    } else if h[0] != 0 {
        h[0]
    } else {
        first_nonzero(h.drop_first())
    }
}

/// The denominator of the equalization table: the pixel total, taken
/// modulo 2^32 as a `u32`, less the first non-zero cumulative count, at least 1.
pub open spec fn equalization_range(h: Seq<int>, total_pixels: int) -> int {
    let t = total_pixels % 0x1_0000_0000;
    let d = t - first_nonzero(h);
    if d >= 1 {
        d
    } else {
        1
    }
}

/// The numerator of entry `i` of the equalization table: the cumulative
/// count up to and including bin `i` less the first non-zero cumulative count,
/// not below zero.
pub open spec fn equalization_numerator(h: Seq<int>, i: int) -> int {
    let d = prefix_sum(h, i + 1) - first_nonzero(h);
    if d >= 0 {
        d
    } else {
        0
    }
}

/// Histogram-equalization look-up table in exact form: entry `i` maps
/// intensity bin `i` to `numerators[i] / denominator`, to be clamped to 0..=1.
pub struct EqualizationTable {
    pub numerators: Vec<u32>,
    pub denominator: u32,
}

proof fn lemma_prefix_sum_step(h: Seq<int>, k: int)
    requires
        0 <= k < h.len(),
    ensures
        prefix_sum(h, k + 1) == prefix_sum(h, k) + h[k],
{
}

proof fn lemma_prefix_sum_mono(h: Seq<int>, j: int, k: int)
    requires
        0 <= j <= k <= h.len(),
        forall|i: int| 0 <= i < h.len() ==> h[i] >= 0,
    ensures
        0 <= prefix_sum(h, j) <= prefix_sum(h, k),
    decreases k,
{
    if k > j {
        lemma_prefix_sum_mono(h, j, k - 1);
        lemma_prefix_sum_step(h, k - 1);
    } else if k > 0 {
        lemma_prefix_sum_mono(h, 0, k - 1);
        lemma_prefix_sum_step(h, k - 1);
    }
}

/// The first non-zero count of `h` is the first non-zero prefix sum: if bin
/// `j` is the first with a non-zero count, then all earlier prefix sums are 0.
proof fn lemma_first_nonzero_scan(h: Seq<int>, i: int)
    requires
        0 <= i <= h.len(),
        forall|j: int| 0 <= j < i ==> h[j] == 0,
    ensures
        prefix_sum(h, i) == 0,
        first_nonzero(h) == first_nonzero(h.subrange(i, h.len() as int)),
    decreases i,
{
    if i > 0 {
        lemma_first_nonzero_scan(h, i - 1);
        lemma_prefix_sum_step(h, i - 1);
        let t = h.subrange(i - 1, h.len() as int);
        assert(t[0] == 0);
        assert(t.drop_first() =~= h.subrange(i, h.len() as int));
    } else {
        assert(h.subrange(0, h.len() as int) =~= h);
    }
}

/// Histogram-equalization table of a histogram over `total_pixels` pixels.
///
/// Entry `i` is `max(cdf[i] - cdf_min, 0) / max((total_pixels mod 2^32) - cdf_min, 1)`
/// where `cdf` is the cumulative histogram and `cdf_min` its first non-zero value.
pub fn compute_histogram_equalization_lut(histogram: &[u32], total_pixels: usize) -> (t: EqualizationTable)
    requires
        histogram@.len() >= 1,
        prefix_sum(counts32(histogram@), histogram@.len() as int) <= u32::MAX,
    ensures
        t.numerators@.len() == histogram@.len(),
        t.denominator as int == equalization_range(counts32(histogram@), total_pixels as int),
        forall|i: int|
            0 <= i < histogram@.len() ==> #[trigger] t.numerators@[i] as int == equalization_numerator(
                counts32(histogram@),
                i,
            ),
{
    let ghost h = counts32(histogram@);
    let bins = histogram.len();
    // cumulative distribution
    let mut cdf: Vec<u32> = Vec::new();
    let mut acc: u32 = 0;
    let mut i: usize = 0;
    while i < bins
        invariant
            bins == histogram@.len(),
            h == counts32(histogram@),
            h.len() == bins,
            prefix_sum(h, bins as int) <= u32::MAX,
            i <= bins,
            cdf@.len() == i,
            acc as int == prefix_sum(h, i as int),
            forall|j: int| 0 <= j < i ==> #[trigger] cdf@[j] as int == prefix_sum(h, j + 1),
        decreases bins - i,
    {
        proof {
            lemma_prefix_sum_step(h, i as int);
            lemma_prefix_sum_mono(h, i + 1, bins as int);
        }
        acc = acc + histogram[i];
        cdf.push(acc);
        i = i + 1;
    }
    // first non-zero cumulative value
    let mut cdf_min: u32 = 0;
    let mut j: usize = 0;
    while j < bins
        invariant
            bins == histogram@.len(),
            h == counts32(histogram@),
            h.len() == bins,
            j <= bins,
            forall|q: int| 0 <= q < j ==> h[q] == 0,
            cdf_min == 0,
        ensures
            j <= bins,
            forall|q: int| 0 <= q < j ==> h[q] == 0,
            j < bins ==> h[j as int] != 0,
        decreases bins - j,
    {
        if histogram[j] != 0 {
            break;
        }
        j = j + 1;
    }
    proof {
        lemma_first_nonzero_scan(h, j as int);
    }
    if j < bins {
        cdf_min = cdf[j];
        proof {
            let t = h.subrange(j as int, h.len() as int);
            assert(t[0] == h[j as int]);
            lemma_prefix_sum_step(h, j as int);
        }
    } else {
        assert(h.subrange(j as int, h.len() as int).len() == 0);
    }
    assert(cdf_min as int == first_nonzero(h));
    let total_wrapped: u32 = (total_pixels as u64 % 0x1_0000_0000u64) as u32;
    let denominator: u32 = if total_wrapped > cdf_min && total_wrapped - cdf_min >= 1 {
        total_wrapped - cdf_min
    } else {
        1
    };
    let mut numerators: Vec<u32> = Vec::new();
    let mut k: usize = 0;
    while k < bins
        invariant
            bins == histogram@.len(),
            h == counts32(histogram@),
            cdf@.len() == bins,
            forall|q: int| 0 <= q < bins ==> #[trigger] cdf@[q] as int == prefix_sum(h, q + 1),
            cdf_min as int == first_nonzero(h),
            k <= bins,
            numerators@.len() == k,
            forall|q: int| 0 <= q < k ==> #[trigger] numerators@[q] as int == equalization_numerator(h, q),
        decreases bins - k,
    {
        let c = cdf[k];
        let v: u32 = if c > cdf_min { c - cdf_min } else { 0 };
        numerators.push(v);
        k = k + 1;
    }
    EqualizationTable { numerators, denominator }
}


/// Total of the counts above `clip`, summed over the first `k` bins.
pub open spec fn clip_excess(h: Seq<int>, clip: int, k: int) -> int
    decreases k,
{
    if k <= 0 || h.len() == 0 {
        0
    } else if k > h.len() {
        clip_excess(h, clip, h.len() as int)
    } else {
        clip_excess(h, clip, k - 1) + (if h[k - 1] > clip {
            h[k - 1] - clip
        } else {
            0
        })
    }
}

/// The clipped histogram of contrast-limited equalization: each count is
/// capped at `clip`, and the total excess is shared out evenly (rounded down)
/// over the bins, the bin count taken as a `u32` (modulo 2^32).
pub open spec fn clipped_histogram(h: Seq<int>, clip: int) -> Seq<int> {
    let share = clip_excess(h, clip, h.len() as int) / (h.len() as int % 0x1_0000_0000);
    Seq::new(h.len(), |i: int| (if h[i] > clip { clip } else { h[i] }) + share)
}

proof fn lemma_clip_excess_mono(h: Seq<int>, clip: int, j: int, k: int)
    requires
        0 <= j <= k <= h.len(),
        clip >= 0,
    ensures
        0 <= clip_excess(h, clip, j) <= clip_excess(h, clip, k),
    decreases k,
{
    if k > j {
        lemma_clip_excess_mono(h, clip, j, k - 1);
    } else if k > 0 {
        lemma_clip_excess_mono(h, clip, 0, k - 1);
    }
}

/// Caps every count at `clip_value` and spreads the clipped excess evenly
/// over the bins (the histogram step of contrast-limited equalization).
pub fn clip_and_redistribute(histogram: &[u32], clip_value: u32) -> (out: Vec<u32>)
    requires
        histogram@.len() % 0x1_0000_0000 != 0,
        clip_excess(counts32(histogram@), clip_value as int, histogram@.len() as int) <= u32::MAX,
        forall|i: int|
            0 <= i < histogram@.len() ==> #[trigger] clipped_histogram(counts32(histogram@), clip_value as int)[i]
                <= u32::MAX,
    ensures
        counts32(out@) == clipped_histogram(counts32(histogram@), clip_value as int),
{
    let ghost h = counts32(histogram@);
    let bins = histogram.len();
    let mut excess: u32 = 0;
    let mut i: usize = 0;
    while i < bins
        invariant
            bins == histogram@.len(),
            h == counts32(histogram@),
            h.len() == bins,
            clip_excess(h, clip_value as int, bins as int) <= u32::MAX,
            i <= bins,
            excess as int == clip_excess(h, clip_value as int, i as int),
        decreases bins - i,
    {
        proof {
            lemma_clip_excess_mono(h, clip_value as int, i + 1, bins as int);
        }
        let c = histogram[i];
        if c > clip_value {
            excess = excess + (c - clip_value);
        }
        i = i + 1;
    }
    let divisor: u32 = (bins as u64 % 0x1_0000_0000u64) as u32;
    let share: u32 = excess / divisor;
    let mut out: Vec<u32> = Vec::new();
    let mut k: usize = 0;
    while k < bins
        invariant
            bins == histogram@.len(),
            h == counts32(histogram@),
            share as int == clip_excess(h, clip_value as int, bins as int) / (bins as int % 0x1_0000_0000),
            forall|q: int|
                0 <= q < bins ==> #[trigger] clipped_histogram(h, clip_value as int)[q] <= u32::MAX,
            k <= bins,
            out@.len() == k,
            forall|q: int|
                0 <= q < k ==> #[trigger] out@[q] as int == clipped_histogram(h, clip_value as int)[q],
        decreases bins - k,
    {
        let c = histogram[k];
        let capped = if c > clip_value { clip_value } else { c };
        assert(clipped_histogram(h, clip_value as int)[k as int] == capped as int + share as int);
        out.push(capped + share);
        k = k + 1;
    }
    assert(counts32(out@) =~= clipped_histogram(h, clip_value as int));
    out
}

/// Contrast-limited equalization table: equalization of the histogram
/// clipped at `clip_value` with the excess shared out over all bins.
pub fn compute_clahe_lut(histogram: &[u32], total_pixels: usize, clip_value: u32) -> (t: EqualizationTable)
    requires
        histogram@.len() % 0x1_0000_0000 != 0,
        clip_excess(counts32(histogram@), clip_value as int, histogram@.len() as int) <= u32::MAX,
        prefix_sum(
            clipped_histogram(counts32(histogram@), clip_value as int),
            histogram@.len() as int,
        ) <= u32::MAX,
    ensures
        t.numerators@.len() == histogram@.len(),
        t.denominator as int == equalization_range(
            clipped_histogram(counts32(histogram@), clip_value as int),
            total_pixels as int,
        ),
        forall|i: int|
            0 <= i < histogram@.len() ==> #[trigger] t.numerators@[i] as int == equalization_numerator(
                clipped_histogram(counts32(histogram@), clip_value as int),
                i,
            ),
{
    let ghost c = clipped_histogram(counts32(histogram@), clip_value as int);
    proof {
        let h = counts32(histogram@);
        lemma_clip_excess_mono(h, clip_value as int, 0, h.len() as int);
        assert(forall|q: int| 0 <= q < h.len() ==> #[trigger] c[q] >= 0);
        assert forall|i: int| 0 <= i < histogram@.len() implies #[trigger] c[i] <= u32::MAX by {
            lemma_prefix_sum_mono_elem(c, i);
        }
    }
    let clipped = clip_and_redistribute(histogram, clip_value);
    compute_histogram_equalization_lut(clipped.as_slice(), total_pixels)
}

proof fn lemma_prefix_sum_mono_elem(h: Seq<int>, i: int)
    requires
        0 <= i < h.len(),
        forall|q: int| 0 <= q < h.len() ==> h[q] >= 0,
    ensures
        h[i] <= prefix_sum(h, h.len() as int),
{
    lemma_prefix_sum_step(h, i);
    lemma_prefix_sum_mono(h, 0, i);
    lemma_prefix_sum_mono(h, i + 1, h.len() as int);
}


proof fn lemma_first_nonzero_nonneg(h: Seq<int>)
    requires
        forall|q: int| 0 <= q < h.len() ==> h[q] >= 0,
    ensures
        first_nonzero(h) >= 0,
    decreases h.len(),
{
    if h.len() > 0 && h[0] == 0 {
        let t = h.drop_first();
        assert forall|q: int| 0 <= q < t.len() implies t[q] >= 0 by {
            assert(t[q] == h[q + 1]);
        }
        lemma_first_nonzero_nonneg(t);
    }
}

/// An equalization table never decreases: a brighter bin maps to at least
/// the value of a darker one. With the histogram's own pixel total (below
/// 2^32) every entry lies between 0 and 1.
pub proof fn law_equalization_monotone(h: Seq<int>, total_pixels: int, i: int, j: int)
    requires
        forall|q: int| 0 <= q < h.len() ==> h[q] >= 0,
        0 <= i <= j < h.len(),
    ensures
        0 <= equalization_numerator(h, i) <= equalization_numerator(h, j),
        total_pixels == prefix_sum(h, h.len() as int) && total_pixels < 0x1_0000_0000 ==> equalization_numerator(h, j)
            <= equalization_range(h, total_pixels),
{
    lemma_prefix_sum_mono(h, i + 1, j + 1);
    lemma_prefix_sum_mono(h, j + 1, h.len() as int);
    lemma_first_nonzero_nonneg(h);
    if total_pixels == prefix_sum(h, h.len() as int) && total_pixels < 0x1_0000_0000 {
        lemma_prefix_sum_mono(h, 0, h.len() as int);
        assert(total_pixels % 0x1_0000_0000 == total_pixels);
    }
}

/// The ends of an equalization table over the histogram's own pixel total
/// (below 2^32), when at least two bins are occupied: the first occupied bin
/// maps to 0 and the last bin to the whole range, i.e. to 1.
pub proof fn law_equalization_endpoints(h: Seq<int>, total_pixels: int, first: int, other: int)
    requires
        forall|q: int| 0 <= q < h.len() ==> h[q] >= 0,
        0 <= first < other < h.len(),
        h[first] != 0,
        h[other] != 0,
        forall|q: int| 0 <= q < first ==> h[q] == 0,
        total_pixels == prefix_sum(h, h.len() as int),
        total_pixels < 0x1_0000_0000,
    ensures
        equalization_numerator(h, first) == 0,
        equalization_numerator(h, h.len() - 1) == equalization_range(h, total_pixels),
        equalization_range(h, total_pixels) >= 1,
{
    lemma_first_nonzero_scan(h, first);
    let t = h.subrange(first, h.len() as int);
    assert(t[0] == h[first]);
    assert(first_nonzero(h) == h[first]);
    lemma_prefix_sum_step(h, first);
    lemma_prefix_sum_mono(h, first + 1, other);
    lemma_prefix_sum_step(h, other);
    lemma_prefix_sum_mono(h, other + 1, h.len() as int);
    assert(total_pixels % 0x1_0000_0000 == total_pixels);
    assert(h.len() - 1 + 1 == h.len());
}

proof fn lemma_no_clip_excess(h: Seq<int>, clip: int, k: int)
    requires
        forall|q: int| 0 <= q < h.len() ==> h[q] <= clip,
        0 <= k <= h.len(),
    ensures
        clip_excess(h, clip, k) == 0,
    decreases k,
{
    if k > 0 {
        lemma_no_clip_excess(h, clip, k - 1);
    }
}

/// With no count above the clip value nothing is clipped or shared out:
/// contrast-limited equalization is plain equalization of the histogram.
pub proof fn law_clahe_without_clipping_is_equalization(h: Seq<int>, clip: int, total_pixels: int)
    requires
        forall|q: int| 0 <= q < h.len() ==> h[q] <= clip,
        h.len() % 0x1_0000_0000 != 0,
    ensures
        clipped_histogram(h, clip) == h,
        equalization_range(clipped_histogram(h, clip), total_pixels) == equalization_range(h, total_pixels),
        forall|i: int|
            0 <= i < h.len() ==> #[trigger] equalization_numerator(clipped_histogram(h, clip), i)
                == equalization_numerator(h, i),
{
    lemma_no_clip_excess(h, clip, h.len() as int);
    assert(0int / (h.len() as int % 0x1_0000_0000) == 0);
    assert(clipped_histogram(h, clip) =~= h);
}

proof fn lemma_identity_bins(vals: Seq<int>, b: int)
    requires
        forall|j: int| 0 <= j < vals.len() ==> 0 <= #[trigger] vals[j] <= 255,
    ensures
        bin_count(vals, 256, 255, b) == count_eq(vals, b),
    decreases vals.len(),
{
    if vals.len() > 0 {
        let p = vals.drop_last();
        assert forall|j: int| 0 <= j < p.len() implies 0 <= #[trigger] p[j] <= 255 by {
            assert(p[j] == vals[j]);
        }
        lemma_identity_bins(p, b);
        let v = vals.last();
        assert(0 <= v <= 255) by {
            assert(vals[vals.len() - 1] == v);
        }
        assert(v * 255 / 255 == v) by (nonlinear_arith)
            requires
                0 <= v <= 255,
        ;
    }
}

/// An 8-bit frame binned into 256 bins gets one bin per value: bin `b`
/// counts the bytes equal to `b`.
pub proof fn law_histogram_8bit_256_bins_counts_values(data: Seq<u8>, b: int)
    requires
        0 <= b < 256,
    ensures
        bin_count(frame_samples(data, 8), 256, depth_max(8), b) == count_eq(frame_samples(data, 8), b),
{
    lemma_samples_bounded(data, 8);
    lemma_identity_bins(frame_samples(data, 8), b);
}

/// Number of values equal to `v`.
pub open spec fn count_eq(vals: Seq<int>, v: int) -> nat
    decreases vals.len(),
{
    if vals.len() == 0 {
        0
    } else {
        count_eq(vals.drop_last(), v) + (if vals.last() == v {
            1nat
        } else {
            0nat
        })
    }
}

/// Number of values strictly below `v`.
pub open spec fn count_lt(vals: Seq<int>, v: int) -> nat
    decreases vals.len(),
{
    if vals.len() == 0 {
        0
    } else {
        count_lt(vals.drop_last(), v) + (if vals.last() < v {
            1nat
        } else {
            0nat
        })
    }
}

/// Sum of the values.
pub open spec fn seq_sum(vals: Seq<int>) -> int
    decreases vals.len(),
{
    if vals.len() == 0 {
        0
    } else {
        seq_sum(vals.drop_last()) + vals.last()
    }
}

/// `m` is the smallest of the values.
pub open spec fn is_min_of(vals: Seq<int>, m: int) -> bool {
    (exists|j: int| 0 <= j < vals.len() && vals[j] == m) && (forall|j: int|
        0 <= j < vals.len() ==> m <= #[trigger] vals[j])
}

/// `m` is the largest of the values.
pub open spec fn is_max_of(vals: Seq<int>, m: int) -> bool {
    (exists|j: int| 0 <= j < vals.len() && vals[j] == m) && (forall|j: int|
        0 <= j < vals.len() ==> #[trigger] vals[j] <= m)
}

/// `r` is the value of rank `k` (0-based) of the values taken in ascending
/// order: fewer than `k + 1` values lie below it, more than `k` lie at or below it.
pub open spec fn is_rank_value(vals: Seq<int>, k: int, r: int) -> bool {
    count_lt(vals, r) <= k < count_lt(vals, r + 1)
}

/// Number of histogram bins that cover every sample value of a bit depth
/// (256 for 8-bit samples, 65536 for 12/16-bit samples).
pub open spec fn value_bins(bit_depth: u32) -> int {
    if bit_depth == 8 {
        256
    } else {
        65536
    }
}

proof fn lemma_count_step(vals: Seq<int>, i: int, v: int)
    requires
        0 <= i < vals.len(),
    ensures
        count_eq(vals.take(i + 1), v) == count_eq(vals.take(i), v) + (if vals[i] == v {
            1nat
        } else {
            0nat
        }),
        count_lt(vals.take(i + 1), v) == count_lt(vals.take(i), v) + (if vals[i] < v {
            1nat
        } else {
            0nat
        }),
        seq_sum(vals.take(i + 1)) == seq_sum(vals.take(i)) + vals[i],
{
    assert(vals.take(i + 1).drop_last() =~= vals.take(i));
}

proof fn lemma_count_eq_le(vals: Seq<int>, v: int)
    ensures
        count_eq(vals, v) <= vals.len(),
    decreases vals.len(),
{
    if vals.len() > 0 {
        lemma_count_eq_le(vals.drop_last(), v);
    }
}

/// Counting below `v + 1` counts the values below `v` and those equal to `v`.
proof fn lemma_count_lt_succ(vals: Seq<int>, v: int)
    ensures
        count_lt(vals, v + 1) == count_lt(vals, v) + count_eq(vals, v),
    decreases vals.len(),
{
    if vals.len() > 0 {
        lemma_count_lt_succ(vals.drop_last(), v);
    }
}

/// No value lies below the smallest possible value.
proof fn lemma_count_lt_zero(vals: Seq<int>)
    requires
        forall|j: int| 0 <= j < vals.len() ==> vals[j] >= 0,
    ensures
        count_lt(vals, 0) == 0,
    decreases vals.len(),
{
    if vals.len() > 0 {
        lemma_count_lt_zero(vals.drop_last());
    }
}

/// Prefix sums of an exact value histogram count the values below a bound.
pub proof fn lemma_value_histogram_prefix(vals: Seq<int>, h: Seq<int>, r: int)
    requires
        0 <= r <= h.len(),
        forall|j: int| 0 <= j < vals.len() ==> 0 <= vals[j],
        forall|v: int| 0 <= v < h.len() ==> #[trigger] h[v] == count_eq(vals, v),
    ensures
        prefix_sum(h, r) == count_lt(vals, r),
    decreases r,
{
    if r == 0 {
        lemma_count_lt_zero(vals);
    } else {
        lemma_value_histogram_prefix(vals, h, r - 1);
        lemma_prefix_sum_step(h, r - 1);
        lemma_count_lt_succ(vals, r - 1);
    }
}

proof fn lemma_samples_bounded(data: Seq<u8>, bit_depth: u32)
    ensures
        forall|j: int|
            0 <= j < frame_samples(data, bit_depth).len() ==> 0 <= #[trigger] frame_samples(
                data,
                bit_depth,
            )[j] < value_bins(bit_depth),
{
    assert forall|j: int| 0 <= j < frame_samples(data, bit_depth).len() implies 0
        <= #[trigger] frame_samples(data, bit_depth)[j] < value_bins(bit_depth) by {
        if is_wide_depth(bit_depth) {
            let lo = data[2 * j];
            let hi = data[2 * j + 1];
            assert(0 <= le_u16(lo, hi) < 65536);
        }
    }
}

/// Total of bins `0..k` of the scaled histogram of the values.
pub open spec fn bins_total(vals: Seq<int>, bins: int, maxv: int, k: int) -> int
    decreases k,
{
    if k <= 0 {
        0
    } else {
        bins_total(vals, bins, maxv, k - 1) + bin_count(vals, bins, maxv, k - 1)
    }
}

proof fn lemma_bins_total_push(vals: Seq<int>, v: int, bins: int, maxv: int, k: int)
    ensures
        bins_total(vals.push(v), bins, maxv, k) == bins_total(vals, bins, maxv, k) + (if 0 <= bin_index(
            v,
            bins,
            maxv,
        ) < k {
            1int
        } else {
            0int
        }),
    decreases k,
{
    if k > 0 {
        lemma_bins_total_push(vals, v, bins, maxv, k - 1);
        assert(vals.push(v).drop_last() =~= vals);
    }
}

/// A scaled histogram counts every sample exactly once: its bins add up to
/// the number of samples.
pub proof fn law_histogram_counts_every_sample(data: Seq<u8>, bit_depth: u32, bins: int)
    requires
        bins >= 1,
    ensures
        bins_total(frame_samples(data, bit_depth), bins, depth_max(bit_depth), bins) == frame_samples(
            data,
            bit_depth,
        ).len(),
{
    lemma_samples_bounded(data, bit_depth);
    lemma_bins_total_all(frame_samples(data, bit_depth), bins, depth_max(bit_depth));
}

proof fn lemma_bins_total_all(vals: Seq<int>, bins: int, maxv: int)
    requires
        bins >= 1,
        maxv >= 1,
        forall|j: int| 0 <= j < vals.len() ==> 0 <= #[trigger] vals[j],
    ensures
        bins_total(vals, bins, maxv, bins) == vals.len(),
    decreases vals.len(),
{
    if vals.len() == 0 {
        lemma_bins_total_empty(vals, bins, maxv, bins);
    } else {
        let p = vals.drop_last();
        let v = vals.last();
        assert forall|j: int| 0 <= j < p.len() implies 0 <= #[trigger] p[j] by {
            assert(p[j] == vals[j]);
        }
        lemma_bins_total_all(p, bins, maxv);
        assert(p.push(v) =~= vals);
        lemma_bins_total_push(p, v, bins, maxv, bins);
        assert(v >= 0) by {
            assert(vals[vals.len() - 1] == v);
        }
        assert(v * (bins - 1) >= 0) by (nonlinear_arith)
            requires
                v >= 0,
                bins >= 1,
        ;
        assert(v * (bins - 1) / maxv >= 0) by (nonlinear_arith)
            requires
                v * (bins - 1) >= 0,
                maxv >= 1,
        ;
    }
}

proof fn lemma_bins_total_empty(vals: Seq<int>, bins: int, maxv: int, k: int)
    requires
        vals.len() == 0,
    ensures
        bins_total(vals, bins, maxv, k) == 0,
    decreases k,
{
    if k > 0 {
        lemma_bins_total_empty(vals, bins, maxv, k - 1);
    }
}

/// Exact histogram of sample values: bin `v` counts the samples equal to
/// `v`. It has 256 bins for 8-bit frames and 65536 bins otherwise; frames of
/// an unsupported bit depth have no samples.
pub fn value_histogram(data: &[u8], bit_depth: u32) -> (hist: Vec<u64>)
    ensures
        hist@.len() == value_bins(bit_depth),
        forall|v: int|
            0 <= v < value_bins(bit_depth) ==> #[trigger] hist@[v] as int == count_eq(
                frame_samples(data@, bit_depth),
                v,
            ),
{
    let bins: usize = if bit_depth == 8 { 256 } else { 65536 };
    let mut hist: Vec<u64> = Vec::new();
    let mut k: usize = 0;
    while k < bins
        invariant
            k <= bins,
            hist@.len() == k,
            forall|b: int| 0 <= b < k ==> #[trigger] hist@[b] == 0,
        decreases bins - k,
    {
        hist.push(0);
        k = k + 1;
    }
    let n = sample_total(data, bit_depth);
    let ghost vals = frame_samples(data@, bit_depth);
    proof {
        lemma_samples_bounded(data@, bit_depth);
    }
    assert(vals.take(0) =~= Seq::<int>::empty());
    let mut i: usize = 0;
    while i < n
        invariant
            n == vals.len(),
            vals == frame_samples(data@, bit_depth),
            bins == value_bins(bit_depth),
            forall|j: int| 0 <= j < vals.len() ==> 0 <= #[trigger] vals[j] < value_bins(bit_depth),
            i <= n,
            hist@.len() == bins,
            forall|b: int| 0 <= b < bins ==> #[trigger] hist@[b] as int == count_eq(vals.take(i as int), b),
        decreases n - i,
    {
        let v = frame_sample(data, i, bit_depth);
        let b = v as usize;
        proof {
            lemma_count_eq_le(vals.take(i as int), b as int);
            assert forall|c: int| 0 <= c < bins implies count_eq(vals.take(i + 1), c) == count_eq(
                vals.take(i as int),
                c,
            ) + (if c == b {
                1nat
            } else {
                0nat
            }) by {
                lemma_count_step(vals, i as int, c);
            }
        }
        let cur = hist[b];
        hist.set(b, cur + 1);
        i = i + 1;
    }
    assert(vals.take(n as int) =~= vals);
    hist
}

/// The bin holding rank `k` of a histogram: the first bin `r` whose
/// cumulative count exceeds `k`.
pub fn histogram_rank_value(histogram: &[u64], k: u64) -> (r: usize)
    requires
        k < prefix_sum(counts64(histogram@), histogram@.len() as int),
        prefix_sum(counts64(histogram@), histogram@.len() as int) <= u64::MAX,
    ensures
        r < histogram@.len(),
        prefix_sum(counts64(histogram@), r as int) <= k < prefix_sum(counts64(histogram@), r + 1),
{
    let ghost h = counts64(histogram@);
    let n = histogram.len();
    let mut acc: u64 = 0;
    let mut i: usize = 0;
    while i < n
        invariant
            n == histogram@.len(),
            h == counts64(histogram@),
            h.len() == n,
            prefix_sum(h, n as int) <= u64::MAX,
            k < prefix_sum(h, n as int),
            i <= n,
            acc as int == prefix_sum(h, i as int),
            acc <= k,
        decreases n - i,
    {
        proof {
            lemma_prefix_sum_step(h, i as int);
            lemma_prefix_sum_mono(h, i + 1, n as int);
        }
        let next = acc + histogram[i];
        if next > k {
            return i;
        }
        acc = next;
        i = i + 1;
    }
    proof {
        assert(false);
    }
    0
}

/// The sample of rank `k` (0-based, ascending order) of a frame.
pub fn sample_rank_value(data: &[u8], bit_depth: u32, k: u64) -> (r: u16)
    requires
        k < frame_samples(data@, bit_depth).len(),
    ensures
        is_rank_value(frame_samples(data@, bit_depth), k as int, r as int),
{
    let ghost vals = frame_samples(data@, bit_depth);
    let data_len = data.len();
    assert(vals.len() <= data_len);
    let hist = value_histogram(data, bit_depth);
    proof {
        lemma_samples_bounded(data@, bit_depth);
        let h = counts64(hist@);
        assert forall|v: int| 0 <= v < h.len() implies #[trigger] h[v] == count_eq(vals, v) by {}
        lemma_value_histogram_prefix(vals, h, h.len() as int);
        lemma_count_lt_all(vals, h.len() as int);
    }
    let r = histogram_rank_value(hist.as_slice(), k);
    proof {
        let h = counts64(hist@);
        assert forall|v: int| 0 <= v < h.len() implies #[trigger] h[v] == count_eq(vals, v) by {}
        lemma_value_histogram_prefix(vals, h, r as int);
        lemma_value_histogram_prefix(vals, h, r + 1);
    }
    assert(r < 65536);
    r as u16
}

/// Every value below `bound` is counted below `bound`.
proof fn lemma_count_lt_all(vals: Seq<int>, bound: int)
    requires
        forall|j: int| 0 <= j < vals.len() ==> vals[j] < bound,
    ensures
        count_lt(vals, bound) == vals.len(),
    decreases vals.len(),
{
    if vals.len() > 0 {
        lemma_count_lt_all(vals.drop_last(), bound);
    }
}


/// Smallest and largest sample of a frame, or `None` when the frame has no
/// samples (empty data, or a bit depth other than 8, 12 or 16).
pub fn sample_range(data: &[u8], bit_depth: u32) -> (r: Option<(u16, u16)>)
    ensures
        r is None <==> frame_samples(data@, bit_depth).len() == 0,
        r matches Some((lo, hi)) ==> is_min_of(frame_samples(data@, bit_depth), lo as int)
            && is_max_of(frame_samples(data@, bit_depth), hi as int),
{
    let n = sample_total(data, bit_depth);
    if n == 0 {
        return None;
    }
    let ghost vals = frame_samples(data@, bit_depth);
    let first = frame_sample(data, 0, bit_depth);
    let mut lo: u16 = first;
    let mut hi: u16 = first;
    let mut i: usize = 1;
    while i < n
        invariant
            n == vals.len(),
            vals == frame_samples(data@, bit_depth),
            1 <= i <= n,
            exists|j: int| 0 <= j < i && vals[j] == lo as int,
            exists|j: int| 0 <= j < i && vals[j] == hi as int,
            forall|j: int| 0 <= j < i ==> lo as int <= #[trigger] vals[j] <= hi as int,
        decreases n - i,
    {
        let v = frame_sample(data, i, bit_depth);
        if v < lo {
            lo = v;
        }
        if v > hi {
            hi = v;
        }
        i = i + 1;
    }
    Some((lo, hi))
}

/// Sample bounds for automatic contrast: the smallest and largest sample
/// when they differ; `None` (the full display range is then used) when the
/// frame has no samples or all samples are equal.
pub fn auto_contrast_bounds(data: &[u8], bit_depth: u32) -> (r: Option<(u16, u16)>)
    ensures
        r is None <==> (frame_samples(data@, bit_depth).len() == 0 || forall|i: int, j: int|
            0 <= i < frame_samples(data@, bit_depth).len() && 0 <= j < frame_samples(data@, bit_depth).len()
                ==> #[trigger] frame_samples(data@, bit_depth)[i] == #[trigger] frame_samples(data@, bit_depth)[j]),
        r matches Some((lo, hi)) ==> lo < hi && is_min_of(frame_samples(data@, bit_depth), lo as int)
            && is_max_of(frame_samples(data@, bit_depth), hi as int),
{
    match sample_range(data, bit_depth) {
        None => None,
        Some((lo, hi)) => {
            let ghost vals = frame_samples(data@, bit_depth);
            if lo < hi {
                proof {
                    let a = choose|a: int| 0 <= a < vals.len() && vals[a] == lo as int;
                    let b = choose|b: int| 0 <= b < vals.len() && vals[b] == hi as int;
                    assert(vals[a] != vals[b]);
                }
                Some((lo, hi))
            } else {
                assert forall|i: int, j: int| 0 <= i < vals.len() && 0 <= j < vals.len()
                    implies #[trigger] vals[i] == #[trigger] vals[j] by {
                    assert(lo as int <= vals[i] <= hi as int);
                    assert(lo as int <= vals[j] <= hi as int);
                }
                None
            }
        },
    }
}

/// Integer summary of a frame's samples: how many there are, their sum,
/// extremes, and their exact value histogram.
pub struct SampleSummary {
    pub count: u64,
    pub sum: u64,
    pub min: u16,
    pub max: u16,
    pub histogram: Vec<u64>,
}

proof fn lemma_seq_sum_prefix_le(vals: Seq<int>, k: int)
    requires
        0 <= k <= vals.len(),
        forall|j: int| 0 <= j < vals.len() ==> 0 <= #[trigger] vals[j],
    ensures
        seq_sum(vals.take(k)) <= seq_sum(vals),
    decreases vals.len() - k,
{
    if k < vals.len() {
        lemma_seq_sum_prefix_le(vals, k + 1);
        assert(vals.take(k + 1).drop_last() =~= vals.take(k));
        assert(vals.take(k + 1).last() == vals[k]);
    } else {
        assert(vals.take(k) =~= vals);
    }
}

/// Count, sum, minimum, maximum and value histogram of the samples of an
/// 8, 12 or 16-bit frame; `None` when the frame has no samples.
pub fn sample_summary(data: &[u8], bit_depth: u32) -> (r: Option<SampleSummary>)
    requires
        seq_sum(frame_samples(data@, bit_depth)) <= u64::MAX,
    ensures
        r is None <==> frame_samples(data@, bit_depth).len() == 0,
        r matches Some(s) ==> {
            &&& s.count as int == frame_samples(data@, bit_depth).len()
            &&& s.sum as int == seq_sum(frame_samples(data@, bit_depth))
            &&& is_min_of(frame_samples(data@, bit_depth), s.min as int)
            &&& is_max_of(frame_samples(data@, bit_depth), s.max as int)
            &&& s.histogram@.len() == value_bins(bit_depth)
            &&& forall|v: int|
                0 <= v < value_bins(bit_depth) ==> #[trigger] s.histogram@[v] as int == count_eq(
                    frame_samples(data@, bit_depth),
                    v,
                )
        },
{
    let range = sample_range(data, bit_depth);
    match range {
        None => None,
        Some((lo, hi)) => {
            let n = sample_total(data, bit_depth);
            let ghost vals = frame_samples(data@, bit_depth);
            proof {
                lemma_samples_bounded(data@, bit_depth);
            }
            assert(vals.take(0) =~= Seq::<int>::empty());
            let mut sum: u64 = 0;
            let mut i: usize = 0;
            while i < n
                invariant
                    n == vals.len(),
                    seq_sum(vals) <= u64::MAX,
                    vals == frame_samples(data@, bit_depth),
                    forall|j: int| 0 <= j < vals.len() ==> 0 <= #[trigger] vals[j] < 65536,
                    i <= n,
                    sum as int == seq_sum(vals.take(i as int)),
                decreases n - i,
            {
                let v = frame_sample(data, i, bit_depth);
                proof {
                    lemma_seq_sum_prefix_le(vals, i + 1);
                    assert(vals.take(i + 1).drop_last() =~= vals.take(i as int));
                }
                sum = sum + v as u64;
                i = i + 1;
            }
            assert(vals.take(n as int) =~= vals);
            let histogram = value_histogram(data, bit_depth);
            Some(SampleSummary { count: n as u64, sum, min: lo, max: hi, histogram })
        },
    }
}

} // verus!
