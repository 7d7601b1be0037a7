//! Seeds for echelle order traces: summing a frame along the dispersion
//! axis and picking well-separated brightness peaks across it.

use vstd::prelude::*;
use crate::histogram::{frame_samples, frame_sample, sample_total};

verus! {

/// Detector axis along which the spectrum disperses.
#[derive(Debug, Clone, Copy, PartialEq, Eq, Structural)]
pub enum DispersionAxis {
    X,
    Y,
}

/// Number of positions across the dispersion direction.
pub open spec fn cross_len(width: int, height: int, axis: DispersionAxis) -> int {
    match axis {
        DispersionAxis::X => height,
        DispersionAxis::Y => width,
    }
}

/// Number of positions along the dispersion direction.
pub open spec fn disp_len(width: int, height: int, axis: DispersionAxis) -> int {
    match axis {
        DispersionAxis::X => width,
        DispersionAxis::Y => height,
    }
}

/// Row-major pixel index of cross position `c` and dispersion position `d`.
pub open spec fn pixel_index(width: int, axis: DispersionAxis, c: int, d: int) -> int {
    match axis {
        DispersionAxis::X => c * width + d,
        DispersionAxis::Y => d * width + c,
    }
}

/// Sum of the first `k` samples along the dispersion direction at cross
/// position `c`.
pub open spec fn line_sum(vals: Seq<int>, width: int, axis: DispersionAxis, c: int, k: int) -> int
    decreases k,
{
    if k <= 0 {
        0
    } else {
        line_sum(vals, width, axis, c, k - 1) + vals[pixel_index(width, axis, c, k - 1)]
    }
}

proof fn lemma_index_in_frame(width: int, height: int, axis: DispersionAxis, c: int, d: int)
    requires
        width > 0,
        height > 0,
        0 <= c < cross_len(width, height, axis),
        0 <= d < disp_len(width, height, axis),
    ensures
        0 <= pixel_index(width, axis, c, d) < width * height,
{
    match axis {
        DispersionAxis::X => {
            assert(0 <= c * width + d < width * height) by (nonlinear_arith)
                requires
                    0 <= c < height,
                    0 <= d < width,
            ;
        },
        DispersionAxis::Y => {
            assert(0 <= d * width + c < width * height) by (nonlinear_arith)
                requires
                    0 <= d < height,
                    0 <= c < width,
            ;
        },
    }
}

proof fn lemma_line_sum_bound(vals: Seq<int>, width: int, height: int, axis: DispersionAxis, c: int, k: int)
    requires
        width > 0,
        height > 0,
        0 <= c < cross_len(width, height, axis),
        0 <= k <= disp_len(width, height, axis),
        width * height <= vals.len(),
        forall|j: int| 0 <= j < vals.len() ==> 0 <= #[trigger] vals[j] <= 65535,
    ensures
        0 <= line_sum(vals, width, axis, c, k) <= 65535 * k,
    decreases k,
{
    if k > 0 {
        lemma_line_sum_bound(vals, width, height, axis, c, k - 1);
        lemma_index_in_frame(width, height, axis, c, k - 1);
    }
}

/// Sums of the frame's pixels along the dispersion direction, one per cross
/// position; `None` when the frame data does not hold every pixel (or the
/// bit depth is not 8, 12 or 16).
pub fn cross_dispersion_sums(data: &[u8], width: u32, height: u32, bit_depth: u32, axis: DispersionAxis) -> (r:
    Option<Vec<u64>>)
    requires
        width > 0,
        height > 0,
        width * height <= u32::MAX + 1,
    ensures
        r is None <==> frame_samples(data@, bit_depth).len() < width * height,
        r matches Some(s) ==> s@.len() == cross_len(width as int, height as int, axis) && forall|c: int|
            0 <= c < s@.len() ==> #[trigger] s@[c] as int == line_sum(
                frame_samples(data@, bit_depth),
                width as int,
                axis,
                c,
                disp_len(width as int, height as int, axis),
            ),
{
    let ghost vals = frame_samples(data@, bit_depth);
    let total: u64 = (width as u64) * (height as u64);
    let n = sample_total(data, bit_depth);
    if (n as u64) < total {
        return None;
    }
    proof {
        assert forall|j: int| 0 <= j < vals.len() implies 0 <= #[trigger] vals[j] <= 65535 by {
            if bit_depth != 8 {
                let lo = data@[2 * j];
                let hi = data@[2 * j + 1];
                assert(0 <= crate::pixels::le_u16(lo, hi) <= 65535);
            }
        }
    }
    let (ncross, ndisp) = match axis {
        DispersionAxis::X => (height, width),
        DispersionAxis::Y => (width, height),
    };
    let mut sums: Vec<u64> = Vec::new();
    let mut c: u32 = 0;
    while c < ncross
        invariant
            vals == frame_samples(data@, bit_depth),
            n == vals.len(),
            width > 0,
            height > 0,
            width * height <= u32::MAX + 1,
            width * height <= n,
            forall|j: int| 0 <= j < vals.len() ==> 0 <= #[trigger] vals[j] <= 65535,
            ncross == cross_len(width as int, height as int, axis),
            ndisp == disp_len(width as int, height as int, axis),
            c <= ncross,
            sums@.len() == c,
            forall|q: int|
                0 <= q < c ==> #[trigger] sums@[q] as int == line_sum(vals, width as int, axis, q, ndisp as int),
        decreases ncross - c,
    {
        let mut acc: u64 = 0;
        let mut d: u32 = 0;
        while d < ndisp
            invariant
                vals == frame_samples(data@, bit_depth),
                n == vals.len(),
                width > 0,
                height > 0,
                width * height <= u32::MAX + 1,
                width * height <= n,
                forall|j: int| 0 <= j < vals.len() ==> 0 <= #[trigger] vals[j] <= 65535,
                ncross == cross_len(width as int, height as int, axis),
                ndisp == disp_len(width as int, height as int, axis),
                c < ncross,
                d <= ndisp,
                acc as int == line_sum(vals, width as int, axis, c as int, d as int),
            decreases ndisp - d,
        {
            proof {
                lemma_index_in_frame(width as int, height as int, axis, c as int, d as int);
                lemma_line_sum_bound(vals, width as int, height as int, axis, c as int, d as int);
                assert(65535 * (d as int) <= 65535 * 0x1_0000_0000) by (nonlinear_arith)
                    requires
                        d <= 0x1_0000_0000,
                ;
            }
            let idx: u32 = match axis {
                DispersionAxis::X => c * width + d,
                DispersionAxis::Y => d * width + c,
            };
            let v = frame_sample(data, idx as usize, bit_depth);
            acc = acc + v as u64;
            d = d + 1;
        }
        sums.push(acc);
        c = c + 1;
    }
    Some(sums)
}


/// Whether cross position `i` is a peak candidate: an interior position that
/// meets the brightness threshold, is brighter than its left neighbour and at
/// least as bright as its right neighbour.
pub open spec fn is_candidate(sums: Seq<u64>, meets: Seq<bool>, i: int) -> bool {
    &&& 1 <= i < sums.len() - 1
    &&& meets[i]
    &&& sums[i] > sums[i - 1]
    &&& sums[i] >= sums[i + 1]
}

/// Whether a list of indices is strictly ascending.
pub open spec fn ascending(s: Seq<usize>) -> bool {
    forall|a: int, b: int| 0 <= a < b < s.len() ==> s[a] < s[b]
}

/// The peak candidates of a profile, in ascending order.
pub fn peak_candidates(sums: &[u64], meets: &[bool]) -> (c: Vec<usize>)
    requires
        meets@.len() == sums@.len(),
    ensures
        ascending(c@),
        forall|i: usize| c@.contains(i) <==> is_candidate(sums@, meets@, i as int),
        forall|k: int| 0 <= k < c@.len() ==> is_candidate(sums@, meets@, #[trigger] c@[k] as int),
{
    let n = sums.len();
    let mut out: Vec<usize> = Vec::new();
    if n < 3 {
        return out;
    }
    let mut i: usize = 1;
    while i < n - 1
        invariant
            n == sums@.len(),
            n == meets@.len(),
            n >= 3,
            1 <= i <= n - 1,
            ascending(out@),
            forall|k: int| 0 <= k < out@.len() ==> #[trigger] out@[k] < i,
            forall|k: int| 0 <= k < out@.len() ==> is_candidate(sums@, meets@, #[trigger] out@[k] as int),
            forall|j: usize| 1 <= j < i && is_candidate(sums@, meets@, j as int) ==> out@.contains(j),
        decreases n - 1 - i,
    {
        if meets[i] && sums[i] > sums[i - 1] && sums[i] >= sums[i + 1] {
            let ghost before = out@;
            out.push(i);
            proof {
                assert(out@[out@.len() - 1] == i);
                assert forall|j: usize| 1 <= j < i + 1 && is_candidate(sums@, meets@, j as int) implies out@.contains(
                    j,
                ) by {
                    if j < i {
                        assert(before.contains(j));
                        let k = choose|k: int| 0 <= k < before.len() && before[k] == j;
                        assert(out@[k] == j);
                    } else {
                        assert(out@[out@.len() - 1] == j);
                    }
                }
            }
        } else {
            proof {
                assert forall|j: usize| 1 <= j < i + 1 && is_candidate(sums@, meets@, j as int) implies out@.contains(
                    j,
                ) by {
                    if j == i {
                        assert(is_candidate(sums@, meets@, i as int));
                    }
                }
            }
        }
        i = i + 1;
    }
    proof {
        assert forall|j: usize| out@.contains(j) implies is_candidate(sums@, meets@, j as int) by {
            let k = choose|k: int| 0 <= k < out@.len() && out@[k] == j;
            assert(is_candidate(sums@, meets@, out@[k] as int));
        }
        assert forall|j: usize| is_candidate(sums@, meets@, j as int) implies out@.contains(j) by {
        }
    }
    out
}

/// `a` comes before `b` in brightness order: brighter first, equal
/// brightness by position.
pub open spec fn brighter_first(sums: Seq<u64>, a: usize, b: usize) -> bool {
    sums[a as int] > sums[b as int] || (sums[a as int] == sums[b as int] && a < b)
}

/// Whether a list of positions is in brightness order.
pub open spec fn in_brightness_order(sums: Seq<u64>, s: Seq<usize>) -> bool {
    forall|a: int, b: int| 0 <= a < b < s.len() ==> brighter_first(sums, #[trigger] s[a], #[trigger] s[b])
}

/// Orders candidate positions (given ascending) by decreasing brightness;
/// positions of equal brightness keep their ascending order.
pub fn order_by_brightness(candidates: &[usize], sums: &[u64]) -> (o: Vec<usize>)
    requires
        ascending(candidates@),
        forall|k: int| 0 <= k < candidates@.len() ==> #[trigger] candidates@[k] < sums@.len(),
    ensures
        in_brightness_order(sums@, o@),
        o@.no_duplicates(),
        o@.len() == candidates@.len(),
        o@.to_set() == candidates@.to_set(),
        forall|k: int| 0 <= k < o@.len() ==> #[trigger] o@[k] < sums@.len(),
{
    let mut out: Vec<usize> = Vec::new();
    let n = candidates.len();
    let mut i: usize = 0;
    assert(candidates@.take(0).to_set() =~= Set::<usize>::empty());
    while i < n
        invariant
            n == candidates@.len(),
            ascending(candidates@),
            forall|k: int| 0 <= k < candidates@.len() ==> #[trigger] candidates@[k] < sums@.len(),
            i <= n,
            out@.len() == i,
            in_brightness_order(sums@, out@),
            out@.no_duplicates(),
            out@.to_set() == candidates@.take(i as int).to_set(),
            forall|k: int| 0 <= k < out@.len() ==> #[trigger] out@[k] < sums@.len(),
            forall|k: int| 0 <= k < out@.len() ==> #[trigger] out@[k] < candidates@[i as int] || i == n,
        decreases n - i,
    {
        let c = candidates[i];
        let key = sums[c];
        let m = out.len();
        let mut p: usize = 0;
        while p < m && sums[out[p]] >= key
            invariant
                m == out@.len(),
                p <= m,
                forall|k: int| 0 <= k < out@.len() ==> #[trigger] out@[k] < sums@.len(),
                forall|k: int| 0 <= k < p ==> sums@[#[trigger] out@[k] as int] >= key,
            decreases m - p,
        {
            p = p + 1;
        }
        let ghost before = out@;
        out.insert(p, c);
        proof {
            assert(out@ == before.insert(p as int, c));
            // every earlier candidate is a smaller position than c
            assert forall|k: int| 0 <= k < before.len() implies #[trigger] before[k] < c by {}
            assert forall|a: int, b: int| 0 <= a < b < out@.len() implies brighter_first(
                sums@,
                #[trigger] out@[a],
                #[trigger] out@[b],
            ) by {
                if b < p {
                    assert(out@[a] == before[a] && out@[b] == before[b]);
                } else if b == p {
                    assert(out@[a] == before[a]);
                    assert(sums@[before[a] as int] >= key);
                } else if a < p {
                    assert(out@[a] == before[a] && out@[b] == before[b - 1]);
                } else if a == p {
                    assert(out@[b] == before[b - 1]);
                    assert(sums@[before[p as int] as int] < key);
                    if b - 1 > p {
                        assert(brighter_first(sums@, before[p as int], before[b - 1]));
                    }
                } else {
                    assert(out@[a] == before[a - 1] && out@[b] == before[b - 1]);
                }
            }
            assert forall|a: int, b: int| 0 <= a < out@.len() && 0 <= b < out@.len() && a != b implies out@[a] != out@[b] by {
                if a != p && b != p {
                    let a0 = if a < p { a } else { a - 1 };
                    let b0 = if b < p { b } else { b - 1 };
                    assert(out@[a] == before[a0] && out@[b] == before[b0]);
                } else if a == p {
                    let b0 = if b < p { b } else { b - 1 };
                    assert(out@[b] == before[b0]);
                } else {
                    let a0 = if a < p { a } else { a - 1 };
                    assert(out@[a] == before[a0]);
                }
            }
            assert(candidates@.take(i + 1) == candidates@.take(i as int).push(c));
            assert forall|x: usize| out@.to_set().contains(x) <==> before.to_set().insert(c).contains(x) by {
                if out@.to_set().contains(x) {
                    let k = choose|k: int| 0 <= k < out@.len() && out@[k] == x;
                    if k < p {
                        assert(before[k] == x);
                    } else if k > p {
                        assert(before[k - 1] == x);
                    }
                }
                if before.to_set().contains(x) {
                    let k = choose|k: int| 0 <= k < before.len() && before[k] == x;
                    if k < p {
                        assert(out@[k] == x);
                    } else {
                        assert(out@[k + 1] == x);
                    }
                }
                if x == c {
                    assert(out@[p as int] == c);
                }
            }
            assert(out@.to_set() =~= before.to_set().insert(c));
            candidates@.take(i as int).lemma_push_to_set_commute(c);
            assert forall|k: int| 0 <= k < out@.len() implies #[trigger] out@[k] < candidates@[i + 1] || i + 1 == n by {
                if i + 1 < n {
                    if k == p {
                    } else if k < p {
                        assert(out@[k] == before[k]);
                    } else {
                        assert(out@[k] == before[k - 1]);
                    }
                }
            }
        }
        i = i + 1;
    }
    assert(candidates@.take(n as int) =~= candidates@);
    out
}

/// The distance between two positions.
pub open spec fn gap(a: usize, b: usize) -> int {
    if a >= b {
        a - b
    } else {
        b - a
    }
}

/// Positions kept when going through `order` and keeping each position at
/// least `min_sep` away from every position kept so far, until `max_peaks`
/// are kept.
pub open spec fn greedy_separated(order: Seq<usize>, min_sep: int, max_peaks: int) -> Seq<usize>
    decreases order.len(),
{
    if order.len() == 0 {
        seq![]
    } else {
        let prev = greedy_separated(order.drop_last(), min_sep, max_peaks);
        let c = order.last();
        if prev.len() >= max_peaks {
            prev
        } else if forall|k: int| 0 <= k < prev.len() ==> gap(#[trigger] prev[k], c) >= min_sep {
            prev.push(c)
        } else {
            prev
        }
    }
}

/// Keeps positions from `order` greedily: each position is kept if it lies
/// at least `min_sep` from all positions kept before, until `max_peaks` are kept.
pub fn select_separated(order: &[usize], min_sep: u32, max_peaks: usize) -> (kept: Vec<usize>)
    ensures
        kept@ == greedy_separated(order@, min_sep as int, max_peaks as int),
{
    let mut kept: Vec<usize> = Vec::new();
    let n = order.len();
    let mut i: usize = 0;
    assert(order@.take(0) =~= Seq::<usize>::empty());
    while i < n
        invariant
            n == order@.len(),
            i <= n,
            kept@ == greedy_separated(order@.take(i as int), min_sep as int, max_peaks as int),
        decreases n - i,
    {
        let c = order[i];
        assert(order@.take(i + 1).drop_last() =~= order@.take(i as int));
        assert(order@.take(i + 1).last() == c);
        if kept.len() < max_peaks {
            let m = kept.len();
            let mut ok = true;
            let mut k: usize = 0;
            while k < m
                invariant
                    m == kept@.len(),
                    k <= m,
                    ok == forall|q: int| 0 <= q < k ==> gap(#[trigger] kept@[q], c) >= min_sep,
                decreases m - k,
            {
                let keep = kept[k];
                let d: usize = if keep >= c { keep - c } else { c - keep };
                if d < min_sep as usize {
                    ok = false;
                }
                k = k + 1;
            }
            if ok {
                kept.push(c);
            }
        }
        i = i + 1;
    }
    assert(order@.take(n as int) =~= order@);
    kept
}

/// Greedy selection is maximal: a candidate of `order` that was not kept
/// was turned away either because `max_peaks` positions were already kept,
/// or because a position kept from earlier in `order` lies closer than
/// `min_sep` to it. The cap counts kept positions, not candidates examined.
pub proof fn law_greedy_separated_maximal(order: Seq<usize>, min_sep: int, max_peaks: int)
    requires
        max_peaks >= 0,
    ensures
        ({
            let g = greedy_separated(order, min_sep, max_peaks);
            forall|k: int|
                0 <= k < order.len() && !g.contains(#[trigger] order[k]) ==> g.len() >= max_peaks
                    || exists|j: int|
                    0 <= j < k && g.contains(order[j]) && gap(order[j], order[k]) < min_sep
        }),
    decreases order.len(),
{
    if order.len() > 0 {
        let p = order.drop_last();
        let c = order.last();
        let prev = greedy_separated(p, min_sep, max_peaks);
        let g = greedy_separated(order, min_sep, max_peaks);
        law_greedy_separated_maximal(p, min_sep, max_peaks);
        law_greedy_separated(p, min_sep, max_peaks);
        // everything kept before stays kept
        assert forall|x: usize| prev.contains(x) implies g.contains(x) by {
            let i = choose|i: int| 0 <= i < prev.len() && prev[i] == x;
            assert(g[i] == x);
        }
        assert forall|k: int| 0 <= k < order.len() && !g.contains(#[trigger] order[k]) implies g.len()
            >= max_peaks || exists|j: int|
            0 <= j < k && g.contains(order[j]) && gap(order[j], order[k]) < min_sep by {
            if k < p.len() {
                assert(order[k] == p[k]);
                assert(!prev.contains(p[k]));
                if prev.len() >= max_peaks {
                    assert(g == prev);
                } else {
                    let j = choose|j: int| 0 <= j < k && prev.contains(p[j]) && gap(p[j], p[k]) < min_sep;
                    assert(order[j] == p[j]);
                    assert(g.contains(order[j]));
                }
            } else {
                assert(order[k] == c);
                if prev.len() >= max_peaks {
                    assert(g == prev);
                } else {
                    // c was refused for being too close to a kept position
                    assert(!(forall|q: int| 0 <= q < prev.len() ==> gap(#[trigger] prev[q], c) >= min_sep)) by {
                        if forall|q: int| 0 <= q < prev.len() ==> gap(#[trigger] prev[q], c) >= min_sep {
                            assert(g == prev.push(c));
                            assert(g[prev.len() as int] == c);
                        }
                    }
                    let q = choose|q: int| 0 <= q < prev.len() && gap(prev[q], c) < min_sep;
                    assert(p.contains(prev[q]));
                    let j = choose|j: int| 0 <= j < p.len() && p[j] == prev[q];
                    assert(order[j] == p[j]);
                    assert(prev.contains(prev[q]));
                    assert(g.contains(order[j]));
                }
            }
        }
    }
}

/// Inserts a position into an ascending list of distinct positions.
fn insert_ascending(v: &mut Vec<usize>, c: usize)
    requires
        ascending(old(v)@),
        !old(v)@.contains(c),
    ensures
        ascending(final(v)@),
        final(v)@.to_set() == old(v)@.to_set().insert(c),
        final(v)@.len() == old(v)@.len() + 1,
{
    let n = v.len();
    let mut i: usize = 0;
    while i < n && v[i] < c
        invariant
            n == v@.len(),
            i <= n,
            forall|q: int| 0 <= q < i ==> v@[q] < c,
        decreases n - i,
    {
        i = i + 1;
    }
    let ghost before = v@;
    proof {
        if i < n {
            assert(before[i as int] != c);
        }
    }
    v.insert(i, c);
    proof {
        assert forall|a: int, b: int| 0 <= a < b < v@.len() implies v@[a] < v@[b] by {
            if b < i {
            } else if b == i {
            } else if a < i {
                assert(v@[b] == before[b - 1]);
            } else if a == i {
                assert(v@[b] == before[b - 1]);
                if b - 1 > i {
                    assert(before[i as int] < before[b - 1]);
                }
            } else {
                assert(v@[a] == before[a - 1]);
                assert(v@[b] == before[b - 1]);
            }
        }
        assert forall|x: usize| v@.to_set().contains(x) <==> before.to_set().insert(c).contains(x) by {
            if v@.to_set().contains(x) {
                let k = choose|k: int| 0 <= k < v@.len() && v@[k] == x;
                if k < i {
                    assert(before[k] == x);
                } else if k > i {
                    assert(before[k - 1] == x);
                }
            }
            if before.to_set().contains(x) {
                let k = choose|k: int| 0 <= k < before.len() && before[k] == x;
                if k < i {
                    assert(v@[k] == x);
                } else {
                    assert(v@[k + 1] == x);
                }
            }
            if x == c {
                assert(v@[i as int] == c);
            }
        }
        assert(v@.to_set() =~= before.to_set().insert(c));
    }
}

/// The kept positions are pairwise at least `min_sep` apart, at most
/// `max_peaks` of them, all from `order`, and without repeats when `order`
/// has none.
pub proof fn law_greedy_separated(order: Seq<usize>, min_sep: int, max_peaks: int)
    requires
        max_peaks >= 0,
    ensures
        ({
            let g = greedy_separated(order, min_sep, max_peaks);
            &&& g.len() <= max_peaks
            &&& forall|a: int, b: int| 0 <= a < b < g.len() ==> gap(#[trigger] g[a], #[trigger] g[b]) >= min_sep
            &&& forall|k: int| 0 <= k < g.len() ==> order.contains(#[trigger] g[k])
            &&& order.no_duplicates() ==> g.no_duplicates()
        }),
    decreases order.len(),
{
    if order.len() > 0 {
        law_greedy_separated(order.drop_last(), min_sep, max_peaks);
        let prev = greedy_separated(order.drop_last(), min_sep, max_peaks);
        let g = greedy_separated(order, min_sep, max_peaks);
        assert forall|k: int| 0 <= k < g.len() implies order.contains(#[trigger] g[k]) by {
            if k < prev.len() {
                assert(order.drop_last().contains(prev[k]));
                let j = choose|j: int| 0 <= j < order.drop_last().len() && order.drop_last()[j] == prev[k];
                assert(order[j] == prev[k]);
            } else {
                assert(g[k] == order[order.len() - 1]);
            }
        }
        assert forall|a: int, b: int| 0 <= a < b < g.len() implies gap(#[trigger] g[a], #[trigger] g[b]) >= min_sep by {
            if b < prev.len() {
                assert(g[a] == prev[a] && g[b] == prev[b]);
            } else {
                assert(g[a] == prev[a]);
                assert(gap(prev[a], order.last()) >= min_sep);
            }
        }
        if order.no_duplicates() {
            let d = order.drop_last();
            assert(d.no_duplicates()) by {
                assert forall|i: int, j: int| 0 <= i < d.len() && 0 <= j < d.len() && i != j implies d[i] != d[j] by {
                    assert(d[i] == order[i] && d[j] == order[j]);
                }
            }
            assert forall|a: int, b: int| 0 <= a < g.len() && 0 <= b < g.len() && a != b implies g[a] != g[b] by {
                if a < prev.len() && b < prev.len() {
                    assert(g[a] == prev[a] && g[b] == prev[b]);
                } else if a < prev.len() {
                    assert(g[a] == prev[a]);
                    assert(d.contains(prev[a]));
                    let j = choose|j: int| 0 <= j < d.len() && d[j] == prev[a];
                    assert(order[j] == prev[a]);
                    assert(g[b] == order[order.len() - 1]);
                } else {
                    assert(g[b] == prev[b]);
                    assert(d.contains(prev[b]));
                    let j = choose|j: int| 0 <= j < d.len() && d[j] == prev[b];
                    assert(order[j] == prev[b]);
                    assert(g[a] == order[order.len() - 1]);
                }
            }
        }
    }
}

/// Trace seed positions from a cross-dispersion profile: the peak candidates
/// (positions meeting the threshold that beat their left neighbour and match
/// or beat their right one) taken brightest first, kept when at least
/// `min_sep` from every position kept before, at most `max_peaks` of them,
/// returned in ascending order.
pub fn select_trace_peaks(sums: &[u64], meets: &[bool], min_sep: u32, max_peaks: usize) -> (peaks: Vec<usize>)
    requires
        meets@.len() == sums@.len(),
    ensures
        ascending(peaks@),
        exists|order: Seq<usize>|
            {
                &&& in_brightness_order(sums@, order)
                &&& forall|i: usize| order.contains(i) <==> is_candidate(sums@, meets@, i as int)
                &&& peaks@.to_set() == greedy_separated(order, min_sep as int, max_peaks as int).to_set()
            },
        peaks@.len() <= max_peaks,
        forall|a: int, b: int| 0 <= a < b < peaks@.len() ==> gap(#[trigger] peaks@[a], #[trigger] peaks@[b]) >= min_sep,
        forall|k: int| 0 <= k < peaks@.len() ==> is_candidate(sums@, meets@, #[trigger] peaks@[k] as int),
{
    let cands = peak_candidates(sums, meets);
    proof {
        assert forall|k: int| 0 <= k < cands@.len() implies #[trigger] cands@[k] < sums@.len() by {
            assert(is_candidate(sums@, meets@, cands@[k] as int));
        }
    }
    let order = order_by_brightness(cands.as_slice(), sums);
    let kept = select_separated(order.as_slice(), min_sep, max_peaks);
    proof {
        law_greedy_separated(order@, min_sep as int, max_peaks as int);
        assert forall|i: usize| order@.contains(i) <==> is_candidate(sums@, meets@, i as int) by {
            assert(order@.to_set().contains(i) == cands@.to_set().contains(i));
        }
    }
    let mut out: Vec<usize> = Vec::new();
    let n = kept.len();
    let mut i: usize = 0;
    assert(kept@.take(0).to_set() =~= Set::<usize>::empty());
    while i < n
        invariant
            n == kept@.len(),
            i <= n,
            ascending(out@),
            out@.len() == i,
            out@.to_set() == kept@.take(i as int).to_set(),
            kept@.no_duplicates(),
        decreases n - i,
    {
        let c = kept[i];
        proof {
            if out@.contains(c) {
                let k = choose|k: int| 0 <= k < out@.len() && out@[k] == c;
                assert(kept@.take(i as int).to_set().contains(c));
                let j = choose|j: int| 0 <= j < kept@.take(i as int).len() && kept@.take(i as int)[j] == c;
                assert(kept@[j] == kept@[i as int]);
                assert(false);
            }
        }
        insert_ascending(&mut out, c);
        proof {
            assert(kept@.take(i + 1) == kept@.take(i as int).push(c));
            kept@.take(i as int).lemma_push_to_set_commute(c);
        }
        i = i + 1;
    }
    assert(kept@.take(n as int) =~= kept@);
    proof {
        assert forall|k: int| 0 <= k < out@.len() implies is_candidate(sums@, meets@, #[trigger] out@[k] as int) by {
            assert(out@.to_set().contains(out@[k]));
            assert(kept@.to_set().contains(out@[k]));
            let j = choose|j: int| 0 <= j < kept@.len() && kept@[j] == out@[k];
            assert(order@.contains(kept@[j]));
        }
        assert forall|a: int, b: int| 0 <= a < b < out@.len() implies gap(#[trigger] out@[a], #[trigger] out@[b]) >= min_sep by {
            assert(out@.to_set().contains(out@[a]));
            assert(out@.to_set().contains(out@[b]));
            let ja = choose|j: int| 0 <= j < kept@.len() && kept@[j] == out@[a];
            let jb = choose|j: int| 0 <= j < kept@.len() && kept@[j] == out@[b];
            assert(out@[a] != out@[b]) by {
                assert(ascending(out@));
            }
            assert(ja != jb);
            if ja < jb {
                assert(gap(kept@[ja], kept@[jb]) >= min_sep);
            } else {
                assert(gap(kept@[jb], kept@[ja]) >= min_sep);
            }
        }
        // distinct kept positions: the ascending list has the same length
        assert(out@.len() == kept@.len());
    }
    out
}

} // verus!
