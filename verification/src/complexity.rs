//! The complexity score: how widely escape times vary over a sample grid.

use vstd::prelude::*;
use crate::julia::{calculate_iterations, escape_time, map_point, map_point_to_complex,
    MAX_ITERATIONS};
use crate::numeric::{floor_sqrt, isqrt, lemma_product_bound, SCALE};
use crate::parameters::FractalParameters;

verus! {

/// Number of points sampled from a fractal, a ten by ten grid.
pub const SAMPLE_SIZE: usize = 100;

/// The score given to a degenerate sample: one half.
pub const FALLBACK_SCORE: u32 = 500_000;

/// Distance between neighbouring sample points along an axis of `extent`
/// cells: a tenth of the axis, but at least one cell.
pub open spec fn sample_stride(extent: int) -> int {
    if extent / 10 >= 1 {
        extent / 10
    } else {
        1
    }
}

/// Column of sample `i`.
pub open spec fn sample_x(i: int, width: int) -> int {
    (i % 10) * sample_stride(width)
}

/// Row of sample `i`.
pub open spec fn sample_y(i: int, height: int) -> int {
    (i / 10) * sample_stride(height)
}

/// The escape time at sample point `i`.
pub open spec fn sample_count(p: FractalParameters, width: int, height: int, i: int) -> u32 {
    escape_time(map_point(sample_x(i, width), sample_y(i, height), width, height, p), p.c) as u32
}

/// The escape times at the hundred sample points, in order.
pub open spec fn sample_counts(p: FractalParameters, width: int, height: int) -> Seq<u32> {
    Seq::new(SAMPLE_SIZE as nat, |i: int| sample_count(p, width, height, i))
}

/// Sum of the counts.
pub open spec fn total(s: Seq<u32>) -> int
    decreases s.len(),
{
    if s.len() == 0 {
        0
    } else {
        total(s.drop_last()) + s.last()
    }
}

/// Sum of the squared counts.
pub open spec fn total_squares(s: Seq<u32>) -> int
    decreases s.len(),
{
    if s.len() == 0 {
        0
    } else {
        total_squares(s.drop_last()) + s.last() * s.last()
    }
}

/// The population variance of the counts times the square of their number:
/// `n * sum(x^2) - sum(x)^2`.
pub open spec fn scaled_variance(s: Seq<u32>) -> int {
    s.len() * total_squares(s) - total(s) * total(s)
}

/// Every count is a possible escape time.
pub open spec fn counts_in_range(s: Seq<u32>) -> bool {
    forall|i: int| 0 <= i < s.len() ==> #[trigger] s[i] <= MAX_ITERATIONS
}

/// The score of a sample: one half if the sample is empty or has no
/// variance, else the standard deviation over fifty, rounded down to a raw
/// unit and capped at one.
pub open spec fn complexity_score(s: Seq<u32>) -> int {
    if s.len() == 0 || scaled_variance(s) <= 0 {
        FALLBACK_SCORE as int
    } else {
        let n = s.len() as int;
        let root = floor_sqrt((scaled_variance(s) * SCALE * SCALE) / (2500 * n * n));
        if root > SCALE {
            SCALE as int
        } else {
            root
        }
    }
}

/// Sums of counts in range are bounded by their number.
pub proof fn lemma_totals_bounded(s: Seq<u32>)
    requires
        counts_in_range(s),
    ensures
        0 <= total(s) <= 100 * s.len(),
        0 <= total_squares(s) <= 100 * total(s),
    decreases s.len(),
{
    if s.len() != 0 {
        lemma_totals_bounded(s.drop_last());
        let x = s.last();
        assert(x <= MAX_ITERATIONS);
        assert(0 <= x * x <= 100 * x) by (nonlinear_arith)
            requires 0 <= x <= 100;
    }
}

/// The variance of counts in range is at most the square of half the cap.
pub proof fn lemma_variance_bounded(s: Seq<u32>)
    requires
        counts_in_range(s),
    ensures
        scaled_variance(s) <= 2500 * s.len() * s.len(),
{
    lemma_totals_bounded(s);
    let n = s.len() as int;
    let t = total(s);
    let q = total_squares(s);
    let d = 50 * n - t;
    let nt = n * t;
    assert(d * d >= 0) by (nonlinear_arith);
    assert(d * d == 2500 * n * n - 100 * nt + t * t) by (nonlinear_arith)
        requires d == 50 * n - t, nt == n * t;
    assert(n * q <= 100 * nt) by (nonlinear_arith)
        requires 0 <= q <= 100 * t, 0 <= n, nt == n * t;
}

/// A sample whose counts are all the same has no variance, and so gets the
/// fallback score.
pub proof fn lemma_uniform_sample(s: Seq<u32>, k: u32)
    requires
        forall|i: int| 0 <= i < s.len() ==> s[i] == k,
    ensures
        total(s) == s.len() * k,
        total_squares(s) == s.len() * (k * k),
        scaled_variance(s) == 0,
        complexity_score(s) == FALLBACK_SCORE,
    decreases s.len(),
{
    let n = s.len() as int;
    if s.len() != 0 {
        lemma_uniform_sample(s.drop_last(), k);
        assert(s.last() == k);
        assert((n - 1) * k + k == n * k) by (nonlinear_arith);
        assert((n - 1) * (k * k) + k * k == n * (k * k)) by (nonlinear_arith);
    }
    let t = total(s);
    let q = total_squares(s);
    assert(n * q - t * t == 0) by (nonlinear_arith)
        requires t == n * k, q == n * (k * k);
}

/// A fractal whose hundred sample points all have the same escape time gets
/// the fallback score.
pub proof fn lemma_flat_fractal_scores_fallback(
    p: FractalParameters,
    width: int,
    height: int,
    k: u32,
)
    requires
        forall|i: int| 0 <= i < SAMPLE_SIZE ==> sample_count(p, width, height, i) == k,
    ensures
        complexity_score(sample_counts(p, width, height)) == FALLBACK_SCORE,
{
    lemma_uniform_sample(sample_counts(p, width, height), k);
}

/// Reduces iteration counts to their complexity score.
pub fn complexity_from_counts(counts: &Vec<u32>) -> (score: u32)
    requires
        counts_in_range(counts@),
        counts.len() <= u32::MAX,
    ensures
        score == complexity_score(counts@),
        score <= SCALE,
{
    let n: usize = counts.len();
    if n == 0 {
        return FALLBACK_SCORE;
    }
    let mut t: u64 = 0;
    let mut q: u64 = 0;
    let mut i: usize = 0;
    while i < n
        invariant
            n == counts.len(),
            n <= u32::MAX,
            i <= n,
            counts_in_range(counts@),
            t == total(counts@.take(i as int)),
            q == total_squares(counts@.take(i as int)),
            t <= 100 * i,
            q <= 10_000 * i,
        decreases n - i,
    {
        let x: u64 = counts[i] as u64;
        proof {
            assert(counts@[i as int] <= MAX_ITERATIONS);
            assert(counts@.take(i + 1).drop_last() =~= counts@.take(i as int));
            assert(counts@.take(i + 1).last() == counts@[i as int]);
            assert(x * x <= 10_000) by (nonlinear_arith)
                requires 0 <= x <= 100;
        }
        t = t + x;
        q = q + x * x;
        i += 1;
    }
    proof {
        assert(counts@.take(n as int) =~= counts@);
        lemma_variance_bounded(counts@);
        lemma_product_bound(n as int, q as int, 4_294_967_295, 42_949_672_950_000);
        lemma_product_bound(t as int, t as int, 429_496_729_500, 429_496_729_500);
        lemma_product_bound(n as int, n as int, 4_294_967_295, 4_294_967_295);
        assert(n * n >= 1) by (nonlinear_arith)
            requires n >= 1;
    }
    let nq: u128 = (n as u128) * (q as u128);
    let tt: u128 = (t as u128) * (t as u128);
    if nq <= tt {
        return FALLBACK_SCORE;
    }
    let v: u128 = nq - tt;
    let den: u128 = 2500 * ((n as u128) * (n as u128));
    proof {
        assert(2500 * n * n == 2500 * (n * n)) by (nonlinear_arith);
        assert(v * SCALE * SCALE == v * 1_000_000_000_000) by (nonlinear_arith)
            requires SCALE == 1_000_000;
        assert(v <= 46_116_860_162_799_042_562_500);
        assert(v * 1_000_000_000_000 / (den as int) <= 1_000_000_000_000) by (nonlinear_arith)
            requires 0 <= v <= den, den > 0;
    }
    let ratio: u128 = v * 1_000_000_000_000 / den;
    let root: u64 = isqrt(ratio as u64);
    if root > SCALE as u64 {
        SCALE as u32
    } else {
        root as u32
    }
}

/// Samples the fractal on a ten by ten grid spread over the viewport, takes
/// the escape time at every sample point and scores their dispersion.
pub fn measure_complexity(params: &FractalParameters, width: u16, height: u16) -> (score: u32)
    requires
        width > 0,
        height > 0,
        params.wf(),
    ensures
        score == complexity_score(sample_counts(*params, width as int, height as int)),
        score <= SCALE,
{
    let stride_x: u16 = if width / 10 >= 1 { width / 10 } else { 1 };
    let stride_y: u16 = if height / 10 >= 1 { height / 10 } else { 1 };
    let mut counts: Vec<u32> = Vec::with_capacity(SAMPLE_SIZE);
    let mut i: usize = 0;
    while i < SAMPLE_SIZE
        invariant
            i <= SAMPLE_SIZE,
            width > 0,
            height > 0,
            params.wf(),
            stride_x == sample_stride(width as int),
            stride_y == sample_stride(height as int),
            counts.len() == i,
            forall|j: int| 0 <= j < i ==> #[trigger] counts@[j] == sample_count(
                *params, width as int, height as int, j),
            counts_in_range(counts@),
        decreases SAMPLE_SIZE - i,
    {
        proof {
            lemma_product_bound((i % 10) as int, stride_x as int, 9, 6553);
            lemma_product_bound((i / 10) as int, stride_y as int, 9, 6553);
        }
        let x: u16 = ((i % 10) as u16) * stride_x;
        let y: u16 = ((i / 10) as u16) * stride_y;
        let z = map_point_to_complex(x, y, width, height, params);
        let n: u32 = calculate_iterations(z, params.c);
        counts.push(n);
        i += 1;
    }
    proof {
        assert(counts@ =~= sample_counts(*params, width as int, height as int));
    }
    complexity_from_counts(&counts)
}

} // verus!
