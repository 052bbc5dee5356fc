//! Least-squares fit of the processing-time model `duration = o_a * batch_size + o_b`
//! over recorded batch samples, computed exactly in integers (nanoseconds).
use crate::time::{Span, SPAN_MAX_NANOS};
use std::collections::VecDeque;
use vstd::prelude::*;

verus! {

/// Sample data for optimization analysis.
#[derive(Clone, Copy, Debug, PartialEq, Eq, Structural)]
pub struct OptimizationSample {
    /// Batch size for this sample
    pub batch_size: usize,
    /// Processing duration for this batch
    pub duration: Span,
    /// Wait time before processing started
    pub wait_time: Span,
    /// When the sample was recorded, on the caller's clock
    pub timestamp: Span,
}

/// Which quantity of a sample a sum adds up.
pub open spec fn sample_term(e: OptimizationSample, k: int) -> nat {
    if k == 0 {
        1
    } else if k == 1 {
        e.batch_size as nat
    } else if k == 2 {
        (e.batch_size * e.batch_size) as nat
    } else if k == 3 {
        e.duration@
    } else if k == 4 {
        (e.batch_size * e.duration@) as nat
    } else {
        e.wait_time@
    }
}

/// The sum over the samples of `s` of quantity `k` (see `sample_term`).
pub open spec fn sample_sum(s: Seq<OptimizationSample>, k: int) -> nat
    decreases s.len(),
{
    if s.len() == 0 {
        0
    } else {
        sample_sum(s.drop_last(), k) + sample_term(s.last(), k)
    }
}

/// Σ batch_size
pub open spec fn sum_x(s: Seq<OptimizationSample>) -> nat {
    sample_sum(s, 1)
}

/// Σ batch_size²
pub open spec fn sum_xx(s: Seq<OptimizationSample>) -> nat {
    sample_sum(s, 2)
}

/// Σ duration (ns)
pub open spec fn sum_y(s: Seq<OptimizationSample>) -> nat {
    sample_sum(s, 3)
}

/// Σ batch_size · duration
pub open spec fn sum_xy(s: Seq<OptimizationSample>) -> nat {
    sample_sum(s, 4)
}

/// Σ wait_time (ns)
pub open spec fn sum_wait(s: Seq<OptimizationSample>) -> nat {
    sample_sum(s, 5)
}

/// The exact sums over a run of samples.
#[derive(Clone, Copy, Debug, PartialEq, Eq, Structural)]
pub struct SampleSums {
    pub count: u128,
    pub sum_x: u128,
    pub sum_xx: u128,
    pub sum_y: u128,
    pub sum_xy: u128,
    pub sum_wait: u128,
}

/// `t` holds the sums of `s`.
pub open spec fn sums_of(t: SampleSums, s: Seq<OptimizationSample>) -> bool {
    &&& t.count == s.len()
    &&& t.sum_x == sum_x(s)
    &&& t.sum_xx == sum_xx(s)
    &&& t.sum_y == sum_y(s)
    &&& t.sum_xy == sum_xy(s)
    &&& t.sum_wait == sum_wait(s)
}

/// Every sum over `s` fits a `u128`.
pub open spec fn sums_fit(s: Seq<OptimizationSample>) -> bool {
    &&& s.len() <= u128::MAX
    &&& sum_x(s) <= u128::MAX
    &&& sum_xx(s) <= u128::MAX
    &&& sum_y(s) <= u128::MAX
    &&& sum_xy(s) <= u128::MAX
    &&& sum_wait(s) <= u128::MAX
}

/// One more sample adds its own term to each sum.
pub proof fn lemma_sample_sum_step(s: Seq<OptimizationSample>, i: int, k: int)
    requires
        0 <= i < s.len(),
    ensures
        sample_sum(s.take(i + 1), k) == sample_sum(s.take(i), k) + sample_term(s[i], k),
{
    assert(s.take(i + 1).drop_last() =~= s.take(i));
}

/// The sum over a prefix never exceeds the sum over the whole run.
pub proof fn lemma_sample_sum_prefix_le(s: Seq<OptimizationSample>, i: int, k: int)
    requires
        0 <= i <= s.len(),
    ensures
        sample_sum(s.take(i), k) <= sample_sum(s, k),
    decreases s.len(),
{
    if i < s.len() {
        lemma_sample_sum_prefix_le(s.drop_last(), i, k);
        assert(s.drop_last().take(i) =~= s.take(i));
    } else {
        assert(s.take(i) =~= s);
    }
}

/// Adds `term` to `acc`, or gives `None` when the sum leaves `u128`.
fn add_term(acc: u128, term: u128) -> (r: Option<u128>)
    ensures
        r matches Some(v) ==> v == acc + term,
        r is None <==> acc + term > u128::MAX,
{
    acc.checked_add(term)
}

/// The exact sums of the samples, or `None` when one of them leaves `u128`.
pub fn sample_sums(samples: &VecDeque<OptimizationSample>) -> (r: Option<SampleSums>)
    ensures
        r is Some <==> sums_fit(samples@),
        r matches Some(t) ==> sums_of(t, samples@),
        r matches Some(t) ==> t.sum_wait <= t.count * SPAN_MAX_NANOS,
{
    let ghost s = samples@;
    let mut t = SampleSums { count: 0, sum_x: 0, sum_xx: 0, sum_y: 0, sum_xy: 0, sum_wait: 0 };
    let mut i: usize = 0;
    assert(s.take(0) =~= Seq::<OptimizationSample>::empty());
    while i < samples.len()
        invariant
            s == samples@,
            i <= s.len(),
            sums_of(t, s.take(i as int)),
            t.sum_wait <= t.count * SPAN_MAX_NANOS,
        decreases samples.len() - i,
    {
        let e = samples[i];
        proof {
            assert(e == s[i as int]);
            lemma_sample_sum_step(s, i as int, 1);
            lemma_sample_sum_step(s, i as int, 2);
            lemma_sample_sum_step(s, i as int, 3);
            lemma_sample_sum_step(s, i as int, 4);
            lemma_sample_sum_step(s, i as int, 5);
            lemma_sample_sum_prefix_le(s, i as int + 1, 1);
            lemma_sample_sum_prefix_le(s, i as int + 1, 2);
            lemma_sample_sum_prefix_le(s, i as int + 1, 3);
            lemma_sample_sum_prefix_le(s, i as int + 1, 4);
            lemma_sample_sum_prefix_le(s, i as int + 1, 5);
        }
        let x = e.batch_size as u128;
        let y = e.duration.as_nanos();
        let w = e.wait_time.as_nanos();
        assert(x * x <= u128::MAX) by (nonlinear_arith)
            requires
                x <= usize::MAX,
        ;
        let xx = x * x;
        let xy = match x.checked_mul(y) {
            Some(v) => v,
            None => {
                proof {
                    assert(sample_term(e, 4) == x * y);
                }
                return None;
            },
        };
        let nx = match add_term(t.sum_x, x) {
            Some(v) => v,
            None => {
                return None;
            },
        };
        let nxx = match add_term(t.sum_xx, xx) {
            Some(v) => v,
            None => {
                return None;
            },
        };
        let ny = match add_term(t.sum_y, y) {
            Some(v) => v,
            None => {
                return None;
            },
        };
        let nxy = match add_term(t.sum_xy, xy) {
            Some(v) => v,
            None => {
                return None;
            },
        };
        let nw = match add_term(t.sum_wait, w) {
            Some(v) => v,
            None => {
                return None;
            },
        };
        t = SampleSums {
            count: t.count + 1,
            sum_x: nx,
            sum_xx: nxx,
            sum_y: ny,
            sum_xy: nxy,
            sum_wait: nw,
        };
        i = i + 1;
    }
    assert(s.take(s.len() as int) =~= s);
    Some(t)
}

/// The determinant `n·Σx² − (Σx)²` of the normal equations.
pub open spec fn fit_det(s: Seq<OptimizationSample>) -> int {
    s.len() * sum_xx(s) - sum_x(s) * sum_x(s)
}

/// The numerator of the fitted slope `o_a`: `n·Σxy − Σx·Σy`.
pub open spec fn fit_slope_num(s: Seq<OptimizationSample>) -> int {
    s.len() * sum_xy(s) - sum_x(s) * sum_y(s)
}

/// The numerator of the fitted intercept `o_b`: `Σx²·Σy − Σx·Σxy`.
pub open spec fn fit_intercept_num(s: Seq<OptimizationSample>) -> int {
    sum_xx(s) * sum_y(s) - sum_x(s) * sum_xy(s)
}

/// Every product the fit forms fits an `i128`.
pub open spec fn fit_fits(s: Seq<OptimizationSample>) -> bool {
    &&& sums_fit(s)
    &&& s.len() * sum_xx(s) <= i128::MAX
    &&& sum_x(s) * sum_x(s) <= i128::MAX
    &&& s.len() * sum_xy(s) <= i128::MAX
    &&& sum_x(s) * sum_y(s) <= i128::MAX
    &&& sum_xx(s) * sum_y(s) <= i128::MAX
    &&& sum_x(s) * sum_xy(s) <= i128::MAX
}

/// The least-squares line through the samples, as exact fractions over a common
/// positive denominator: `o_a = slope_num / denominator`, `o_b = intercept_num / denominator`
/// (nanoseconds per item and nanoseconds).
#[derive(Clone, Copy, Debug, PartialEq, Eq, Structural)]
pub struct LineFit {
    pub slope_num: i128,
    pub intercept_num: i128,
    pub denominator: i128,
}

/// What `least_squares_regression` gives for the samples `s`.
pub open spec fn fit_of(s: Seq<OptimizationSample>) -> Option<LineFit> {
    if fit_fits(s) && fit_det(s) > 0 {
        Some(
            LineFit {
                slope_num: fit_slope_num(s) as i128,
                intercept_num: fit_intercept_num(s) as i128,
                denominator: fit_det(s) as i128,
            },
        )
    } else {
        None
    }
}

/// `a·b` when it is at most `i128::MAX`.
fn mul_within_i128(a: u128, b: u128) -> (r: Option<i128>)
    ensures
        r matches Some(v) ==> v == a * b,
        r is None <==> a * b > i128::MAX,
{
    match a.checked_mul(b) {
        Some(p) => {
            if p <= i128::MAX as u128 {
                Some(p as i128)
            } else {
                None
            }
        },
        None => None,
    }
}

/// Fits `duration = o_a · batch_size + o_b` to the samples by solving the normal
/// equations of least squares. Gives `None` when the system is singular (all samples
/// have the same batch size, or there are none) or when a product leaves `i128`.
pub fn least_squares_regression(samples: &VecDeque<OptimizationSample>) -> (r: Option<LineFit>)
    ensures
        r == fit_of(samples@),
        (r is Some) == (fit_fits(samples@) && samples@.len() * sum_xx(samples@) - sum_x(samples@)
            * sum_x(samples@) > 0),
{
    let ghost s = samples@;
    let t = match sample_sums(samples) {
        Some(t) => t,
        None => {
            return None;
        },
    };
    let n_xx = match mul_within_i128(t.count, t.sum_xx) {
        Some(v) => v,
        None => {
            return None;
        },
    };
    let x_x = match mul_within_i128(t.sum_x, t.sum_x) {
        Some(v) => v,
        None => {
            return None;
        },
    };
    let n_xy = match mul_within_i128(t.count, t.sum_xy) {
        Some(v) => v,
        None => {
            return None;
        },
    };
    let x_y = match mul_within_i128(t.sum_x, t.sum_y) {
        Some(v) => v,
        None => {
            return None;
        },
    };
    let xx_y = match mul_within_i128(t.sum_xx, t.sum_y) {
        Some(v) => v,
        None => {
            return None;
        },
    };
    let x_xy = match mul_within_i128(t.sum_x, t.sum_xy) {
        Some(v) => v,
        None => {
            return None;
        },
    };
    let det = n_xx - x_x;
    if det <= 0 {
        return None;
    }
    Some(LineFit { slope_num: n_xy - x_y, intercept_num: xx_y - x_xy, denominator: det })
}

/// Law: the least-squares fit exists exactly when the system is not singular,
/// `n·Σx² − (Σx)² > 0`, and its products fit an `i128`; whatever the sign of the fitted
/// slope or intercept.
pub proof fn lemma_fit_exists_when_not_singular(s: Seq<OptimizationSample>)
    ensures
        (fit_of(s) is Some) == (fit_fits(s) && s.len() * sum_xx(s) - sum_x(s) * sum_x(s) > 0),
{
}

/// Law: the fitted line solves the normal equations of least squares,
/// `Σx²·o_a + Σx·o_b = Σxy` and `Σx·o_a + n·o_b = Σy` (multiplied through by the
/// denominator).
pub proof fn lemma_fit_solves_normal_equations(s: Seq<OptimizationSample>)
    requires
        fit_of(s) is Some,
    ensures
        ({
            let f = fit_of(s)->0;
            &&& sum_xx(s) * f.slope_num + sum_x(s) * f.intercept_num == sum_xy(s) * f.denominator
            &&& sum_x(s) * f.slope_num + s.len() * f.intercept_num == sum_y(s) * f.denominator
        }),
{
    let n = s.len() as int;
    let sx = sum_x(s) as int;
    let sxx = sum_xx(s) as int;
    let sy = sum_y(s) as int;
    let sxy = sum_xy(s) as int;
    assert(sxx * (n * sxy - sx * sy) + sx * (sxx * sy - sx * sxy) == sxy * (n * sxx - sx * sx))
        by (nonlinear_arith);
    assert(sx * (n * sxy - sx * sy) + n * (sxx * sy - sx * sxy) == sy * (n * sxx - sx * sx))
        by (nonlinear_arith);
}

/// `Σ(xᵢ − c)²`, expanded: `Σx² − 2c·Σx + n·c²` is never negative.
proof fn lemma_spread_nonneg(s: Seq<OptimizationSample>, c: int)
    ensures
        sum_xx(s) - 2 * c * sum_x(s) + s.len() * c * c >= 0,
    decreases s.len(),
{
    if s.len() > 0 {
        let p = s.drop_last();
        lemma_spread_nonneg(p, c);
        let x = s.last().batch_size as int;
        assert(sum_xx(s) == sum_xx(p) + x * x);
        assert(sum_x(s) == sum_x(p) + x);
        let q = sum_xx(p) - 2 * c * sum_x(p) + p.len() * c * c;
        assert(sum_xx(s) - 2 * c * sum_x(s) + s.len() * c * c == q + (x - c) * (x - c))
            by (nonlinear_arith)
            requires
                sum_xx(s) == sum_xx(p) + x * x,
                sum_x(s) == sum_x(p) + x,
                s.len() == p.len() + 1,
                q == sum_xx(p) - 2 * c * sum_x(p) + p.len() * c * c,
        ;
        assert((x - c) * (x - c) >= 0) by (nonlinear_arith);
        assert(q >= 0);
        assert(sum_xx(s) - 2 * c * sum_x(s) + s.len() * c * c >= 0);
    } else {
        assert(sum_xx(s) == 0);
        assert(sum_x(s) == 0);
        let n = s.len() as int;
        assert(n * c * c == 0) by (nonlinear_arith)
            requires
                n == 0,
        ;
    }
}

/// Law: the determinant `n·Σx² − (Σx)²` of the normal equations is never negative
/// (it is `n` times the spread of the batch sizes), so the fit fails on a singular
/// system exactly when all samples share one batch size or there are none.
pub proof fn lemma_fit_det_nonneg(s: Seq<OptimizationSample>)
    ensures
        fit_det(s) >= 0,
    decreases s.len(),
{
    if s.len() > 0 {
        let p = s.drop_last();
        lemma_fit_det_nonneg(p);
        let x = s.last().batch_size as int;
        lemma_spread_nonneg(p, x);
        let n = p.len() as int;
        let sx = sum_x(p) as int;
        let sxx = sum_xx(p) as int;
        assert(sum_xx(s) == sxx + x * x);
        assert(sum_x(s) == sx + x);
        assert(fit_det(s) == (n * sxx - sx * sx) + (sxx - 2 * x * sx + n * x * x))
            by (nonlinear_arith)
            requires
                fit_det(s) == (n + 1) * sum_xx(s) - sum_x(s) * sum_x(s),
                sum_xx(s) == sxx + x * x,
                sum_x(s) == sx + x,
        ;
    }
}

} // verus!
