//! The adaptive optimizer of the batching parameters.
//!
//! It keeps the most recent batch samples and, at a rate limited by a token bucket,
//! refits the processing-time model `duration = o_a * batch_size + o_b` to them by least
//! squares. Times are counted in nanoseconds; the caller supplies the current time.
use crate::circular_buffer::push_step;
use crate::regression::{
    fit_of, least_squares_regression, sample_sums, sum_wait, LineFit, OptimizationSample,
};
use crate::time::{Span, NANOS_PER_SEC, SPAN_MAX_NANOS};
use std::collections::VecDeque;
use vstd::prelude::*;

verus! {

/// Token bucket for rate limiting optimization parameter updates.
///
/// Tokens refill at one per `refresh_interval`; the amount is held as `credit`
/// nanoseconds of refill time, so that one token is `unit` of credit (the refresh
/// interval in nanoseconds). A zero refresh interval refills the bucket at once
/// (`instant`), and then one token is one unit of credit.
#[derive(Clone, Copy, Debug, PartialEq, Eq, Structural)]
pub struct TokenBucket {
    pub credit: u128,
    pub unit: u128,
    pub capacity: u128,
    pub instant: bool,
    pub last_refill: Span,
}

/// The bucket's bookkeeping is consistent.
pub open spec fn bucket_wf(b: TokenBucket) -> bool {
    &&& b.unit >= 1
    &&& b.credit <= b.capacity
    &&& b.capacity <= 255 * SPAN_MAX_NANOS
}

/// The time since `last` at `now`; zero when `now` is earlier.
pub open spec fn elapsed_since(last: Span, now: Span) -> nat {
    if now@ >= last@ {
        (now@ - last@) as nat
    } else {
        0
    }
}

/// The bucket after refilling at `now`: it refills only once `min_interval` has passed
/// since the last refill, up to its capacity.
pub open spec fn refilled(b: TokenBucket, min_interval: nat, now: Span) -> TokenBucket {
    let elapsed = elapsed_since(b.last_refill, now);
    if elapsed >= min_interval {
        let credit = if b.instant {
            b.capacity as int
        } else if b.credit + elapsed <= b.capacity {
            b.credit + elapsed
        } else {
            b.capacity as int
        };
        TokenBucket { credit: credit as u128, last_refill: now, ..b }
    } else {
        b
    }
}

/// Whether a token can be taken from the bucket after refilling at `now`.
pub open spec fn can_consume(b: TokenBucket, min_interval: nat, now: Span) -> bool {
    refilled(b, min_interval, now).credit >= b.unit
}

/// The bucket after one `consume` at `now`.
pub open spec fn after_consume(b: TokenBucket, min_interval: nat, now: Span) -> TokenBucket {
    let r = refilled(b, min_interval, now);
    if r.credit >= b.unit {
        TokenBucket { credit: (r.credit - b.unit) as u128, ..r }
    } else {
        r
    }
}

/// A full bucket of `tokens` tokens refilling one token per `refresh_interval`, last
/// refilled at `now`.
pub open spec fn fresh_bucket(tokens: nat, refresh_interval: Span, now: Span) -> TokenBucket {
    let unit: nat = if refresh_interval@ == 0 {
        1
    } else {
        refresh_interval@
    };
    TokenBucket {
        credit: (tokens * unit) as u128,
        unit: unit as u128,
        capacity: (tokens * unit) as u128,
        instant: refresh_interval@ == 0,
        last_refill: now,
    }
}

/// The bucket after a `consume` at each of `times`, in order.
pub open spec fn consume_run(b: TokenBucket, min_interval: nat, times: Seq<Span>) -> TokenBucket
    decreases times.len(),
{
    if times.len() == 0 {
        b
    } else {
        after_consume(consume_run(b, min_interval, times.drop_last()), min_interval, times.last())
    }
}

/// Over a run of consumes: the credit never exceeds the starting credit plus the time
/// from the starting refill to the latest refill, which never lies after the latest
/// consume nor before the start.
proof fn lemma_run_credit(b: TokenBucket, min_interval: nat, times: Seq<Span>)
    requires
        !b.instant,
        forall|i: int, j: int| 0 <= i <= j < times.len() ==> times[i]@ <= times[j]@,
        forall|i: int| 0 <= i < times.len() ==> b.last_refill@ <= #[trigger] times[i]@,
    ensures
        ({
            let c = consume_run(b, min_interval, times);
            &&& !c.instant
            &&& c.credit + b.last_refill@ <= b.credit + c.last_refill@
            &&& b.last_refill@ <= c.last_refill@
            &&& times.len() > 0 ==> c.last_refill@ <= times.last()@
        }),
    decreases times.len(),
{
    if times.len() > 0 {
        let prefix = times.drop_last();
        lemma_run_credit(b, min_interval, prefix);
        let c = consume_run(b, min_interval, prefix);
        let now = times.last();
        if prefix.len() > 0 {
            assert(prefix.last()@ <= now@);
        }
        assert(c.last_refill@ <= now@);
    }
}

/// Law: a token bucket that refills as time passes counts each stretch of time once.
/// Over any run of consumes at non-decreasing times (none before the last refill), the
/// credit at the end is at most the starting credit plus the time from the last refill
/// to the final consume; and a consume that refills moves the refill time to its own
/// time, so the next one adds only what has passed since.
pub proof fn lemma_refill_counts_time_once(b: TokenBucket, min_interval: nat, times: Seq<Span>)
    requires
        !b.instant,
        times.len() > 0,
        forall|i: int, j: int| 0 <= i <= j < times.len() ==> times[i]@ <= times[j]@,
        forall|i: int| 0 <= i < times.len() ==> b.last_refill@ <= #[trigger] times[i]@,
    ensures
        consume_run(b, min_interval, times).credit <= b.credit + (times.last()@
            - b.last_refill@),
        forall|now: Span|
            b.last_refill@ <= now@ && now@ - b.last_refill@ >= min_interval ==> (#[trigger] after_consume(
                b,
                min_interval,
                now,
            )).last_refill == now,
{
    lemma_run_credit(b, min_interval, times);
}

impl TokenBucket {
    /// A full bucket of `capacity` tokens that refills one token per `refresh_interval`,
    /// last refilled at `now`.
    pub fn new(capacity: u8, refresh_interval: Span, now: Span) -> (b: Self)
        ensures
            bucket_wf(b),
            b == fresh_bucket(capacity as nat, refresh_interval, now),
    {
        let r = refresh_interval.as_nanos();
        let instant = r == 0;
        let unit: u128 = if instant {
            1
        } else {
            r
        };
        assert((capacity as u128) * unit <= 255 * SPAN_MAX_NANOS) by (nonlinear_arith)
            requires
                capacity <= 255,
                1 <= unit <= SPAN_MAX_NANOS,
        ;
        let cap = (capacity as u128) * unit;
        TokenBucket { credit: cap, unit, capacity: cap, instant, last_refill: now }
    }

    /// Refills the bucket if at least `min_interval` has passed since the last refill,
    /// then takes one token if there is one; reports whether it did.
    pub fn consume(&mut self, min_interval: Span, now: Span) -> (ok: bool)
        requires
            bucket_wf(*old(self)),
        ensures
            bucket_wf(*final(self)),
            ok == can_consume(*old(self), min_interval@, now),
            *final(self) == after_consume(*old(self), min_interval@, now),
    {
        let last = self.last_refill.as_nanos();
        let t = now.as_nanos();
        let elapsed: u128 = if t >= last {
            t - last
        } else {
            0
        };
        if elapsed >= min_interval.as_nanos() {
            if self.instant {
                self.credit = self.capacity;
            } else if self.credit + elapsed <= self.capacity {
                self.credit = self.credit + elapsed;
            } else {
                self.credit = self.capacity;
            }
            self.last_refill = now;
        }
        if self.credit >= self.unit {
            self.credit = self.credit - self.unit;
            true
        } else {
            false
        }
    }
}

/// Nanoseconds in the minimal slope `o_a` of one microsecond per item.
pub const MIN_SLOPE_NANOS: u128 = 1000;

/// `o_a` after a fit: the fitted slope rounded down, but at least one microsecond.
pub open spec fn clamped_slope(f: LineFit) -> nat {
    if f.slope_num < MIN_SLOPE_NANOS * f.denominator {
        MIN_SLOPE_NANOS as nat
    } else {
        (f.slope_num / f.denominator) as nat
    }
}

/// `o_b` after a fit: the fitted intercept rounded down, but never negative.
pub open spec fn clamped_intercept(f: LineFit) -> nat {
    if f.intercept_num < 0 {
        0
    } else {
        (f.intercept_num / f.denominator) as nat
    }
}

/// The parameters `(o_a, o_b, wait_time)` after a refresh over the samples `s`, starting
/// from `p`: the clamped fit and the mean wait time when the fit succeeds, else `p`.
pub open spec fn refreshed_params(s: Seq<OptimizationSample>, p: (nat, nat, nat)) -> (
    nat,
    nat,
    nat,
) {
    match fit_of(s) {
        Some(f) => (clamped_slope(f), clamped_intercept(f), sum_wait(s) / s.len()),
        None => p,
    }
}

/// The sample window after recording `e` when at most `kept` samples are kept: the
/// oldest sample leaves once `kept` are held (at least one sample is always kept).
pub open spec fn window_push(s: Seq<OptimizationSample>, e: OptimizationSample, kept: nat) -> Seq<
    OptimizationSample,
> {
    if s.len() >= kept && s.len() > 0 {
        s.drop_first().push(e)
    } else {
        s.push(e)
    }
}

/// The number of samples the window keeps.
pub open spec fn window_capacity(kept: nat) -> nat {
    if kept == 0 {
        1
    } else {
        kept
    }
}

/// The initial `o_a`: `min(2 s, max_latency · 2/30)`, in nanoseconds rounded up, so that
/// it is positive for every positive latency bound.
pub open spec fn initial_slope(max_latency: nat) -> nat {
    let by_latency: nat = (max_latency * 2 + 29) / 30;
    if 2 * NANOS_PER_SEC <= by_latency {
        (2 * NANOS_PER_SEC) as nat
    } else {
        by_latency
    }
}

/// The initial `o_b`: `min(1 s, max_latency / 30)`, in nanoseconds rounded up, so that
/// it is positive for every positive latency bound.
pub open spec fn initial_intercept(max_latency: nat) -> nat {
    let by_latency: nat = (max_latency + 29) / 30;
    if NANOS_PER_SEC <= by_latency {
        NANOS_PER_SEC as nat
    } else {
        by_latency
    }
}

/// How many samples the window holds after `batches` logged batches, when the first
/// `skipped` are skipped and at most `kept` are kept (at least one):
/// `min(batches - skipped, window_capacity(kept))`, or none while all were skipped.
pub open spec fn samples_after(batches: nat, skipped: nat, kept: nat) -> nat {
    if batches <= skipped {
        0
    } else if batches - skipped <= window_capacity(kept) {
        (batches - skipped) as nat
    } else {
        window_capacity(kept)
    }
}

/// Adaptive optimizer for batching parameters.
///
/// Assumes the processing duration follows `duration = o_a * batch_size + o_b`.
#[derive(Debug)]
pub struct Optimizer {
    samples: VecDeque<OptimizationSample>,
    o_a: u128,
    o_b: u128,
    wait_time: Span,
    refresh_bucket: TokenBucket,
    batch_counter: usize,
    max_latency: Span,
    n_kept_samples: usize,
    n_skipped_samples: usize,
    refresh_interval: Span,
}

impl Optimizer {
    /// The samples currently kept, oldest first.
    pub closed spec fn samples_spec(&self) -> Seq<OptimizationSample> {
        self.samples@
    }

    /// `o_a`: processing time per item, in nanoseconds.
    pub closed spec fn o_a_spec(&self) -> nat {
        self.o_a as nat
    }

    /// `o_b`: base processing time, in nanoseconds.
    pub closed spec fn o_b_spec(&self) -> nat {
        self.o_b as nat
    }

    /// The average wait time before processing.
    pub closed spec fn wait_spec(&self) -> Span {
        self.wait_time
    }

    /// `(o_a, o_b, wait_time)` in nanoseconds.
    pub open spec fn params_spec(&self) -> (nat, nat, nat) {
        (self.o_a_spec(), self.o_b_spec(), self.wait_spec()@)
    }

    /// The token bucket that limits refreshes.
    pub closed spec fn bucket_spec(&self) -> TokenBucket {
        self.refresh_bucket
    }

    /// The number of batches logged so far.
    pub closed spec fn batch_count(&self) -> nat {
        self.batch_counter as nat
    }

    pub closed spec fn max_latency_spec(&self) -> Span {
        self.max_latency
    }

    pub closed spec fn n_kept_spec(&self) -> nat {
        self.n_kept_samples as nat
    }

    pub closed spec fn n_skipped_spec(&self) -> nat {
        self.n_skipped_samples as nat
    }

    pub closed spec fn refresh_interval_spec(&self) -> Span {
        self.refresh_interval
    }

    /// Well-formedness: the window holds one sample per batch logged past the skipped
    /// ones, up to the number it keeps, and the bucket is consistent.
    pub closed spec fn wf(&self) -> bool {
        &&& self.samples@.len() <= window_capacity(self.n_kept_samples as nat)
        &&& self.samples@.len() == samples_after(
            self.batch_counter as nat,
            self.n_skipped_samples as nat,
            self.n_kept_samples as nat,
        )
        &&& bucket_wf(self.refresh_bucket)
    }

    /// Law: after `m` logged batches, the optimizer holds `min(m - skipped, kept)` samples
    /// (none while every batch was skipped; at least one is kept): the first `skipped`
    /// batches are ignored and only the most recent `kept` samples stay.
    pub proof fn lemma_sample_count(&self)
        requires
            self.wf(),
        ensures
            self.samples_spec().len() == samples_after(
                self.batch_count(),
                self.n_skipped_spec(),
                self.n_kept_spec(),
            ),
    {
    }

    /// Create a new optimizer, at time `now`, with conservative initial estimates:
    /// `o_a = min(2 s, max_latency · 2/30)` and `o_b = min(1 s, max_latency / 30)`.
    pub fn new(
        max_latency: Span,
        n_kept_samples: usize,
        n_skipped_samples: usize,
        refresh_interval: Span,
        now: Span,
    ) -> (o: Self)
        ensures
            o.wf(),
            o.samples_spec() == Seq::<OptimizationSample>::empty(),
            o.o_a_spec() == initial_slope(max_latency@),
            o.o_b_spec() == initial_intercept(max_latency@),
            max_latency@ > 0 ==> o.o_a_spec() > 0 && o.o_b_spec() > 0,
            o.wait_spec()@ == 0,
            o.batch_count() == 0,
            o.max_latency_spec() == max_latency,
            o.n_kept_spec() == n_kept_samples,
            o.n_skipped_spec() == n_skipped_samples,
            o.refresh_interval_spec() == refresh_interval,
            o.bucket_spec() == fresh_bucket(2, refresh_interval, now),
    {
        let lat = max_latency.as_nanos();
        let a_cap = 2 * NANOS_PER_SEC;
        let a_lat = (lat * 2 + 29) / 30;
        let b_cap = NANOS_PER_SEC;
        let b_lat = (lat + 29) / 30;
        Optimizer {
            samples: VecDeque::with_capacity(n_kept_samples),
            o_a: if a_cap <= a_lat {
                a_cap
            } else {
                a_lat
            },
            o_b: if b_cap <= b_lat {
                b_cap
            } else {
                b_lat
            },
            wait_time: Span::zero(),
            refresh_bucket: TokenBucket::new(2, refresh_interval, now),
            batch_counter: 0,
            max_latency,
            n_kept_samples,
            n_skipped_samples,
            refresh_interval,
        }
    }
}

impl Optimizer {
    /// Refit `o_a`, `o_b` and the average wait time to the kept samples; when the fit
    /// fails (a singular system or sums beyond `u128`), the parameters stay as they are.
    fn refresh_parameters(&mut self)
        requires
            old(self).wf(),
        ensures
            final(self).wf(),
            final(self).params_spec() == refreshed_params(
                old(self).samples_spec(),
                old(self).params_spec(),
            ),
            final(self).samples_spec() == old(self).samples_spec(),
            final(self).bucket_spec() == old(self).bucket_spec(),
            final(self).batch_count() == old(self).batch_count(),
            final(self).max_latency_spec() == old(self).max_latency_spec(),
            final(self).n_kept_spec() == old(self).n_kept_spec(),
            final(self).n_skipped_spec() == old(self).n_skipped_spec(),
            final(self).refresh_interval_spec() == old(self).refresh_interval_spec(),
    {
        let ghost s = self.samples@;
        let fit = match least_squares_regression(&self.samples) {
            Some(f) => f,
            None => {
                return;
            },
        };
        let sums = match sample_sums(&self.samples) {
            Some(t) => t,
            None => {
                return;
            },
        };
        proof {
            if s.len() == 0 {
                assert(crate::regression::sum_x(s) == 0);
                assert(crate::regression::sum_xx(s) == 0);
            }
        }
        let den = fit.denominator as u128;
        let a: u128 = if fit.slope_num < 0 {
            MIN_SLOPE_NANOS
        } else {
            let q = (fit.slope_num as u128) / den;
            proof {
                lemma_quotient_below(fit.slope_num as int, fit.denominator as int, q as int);
            }
            if q < MIN_SLOPE_NANOS {
                MIN_SLOPE_NANOS
            } else {
                q
            }
        };
        let b: u128 = if fit.intercept_num < 0 {
            0
        } else {
            (fit.intercept_num as u128) / den
        };
        proof {
            vstd::arithmetic::div_mod::lemma_div_is_ordered(
                sums.sum_wait as int,
                (sums.count * SPAN_MAX_NANOS) as int,
                sums.count as int,
            );
            vstd::arithmetic::div_mod::lemma_div_multiples_vanish(
                SPAN_MAX_NANOS as int,
                sums.count as int,
            );
            vstd::arithmetic::mul::lemma_mul_is_commutative(
                sums.count as int,
                SPAN_MAX_NANOS as int,
            );
        }
        let mean = sums.sum_wait / sums.count;
        let w = match Span::checked_from_nanos(mean) {
            Some(w) => w,
            None => {
                return;
            },
        };
        self.o_a = a;
        self.o_b = b;
        self.wait_time = w;
    }

    /// Log a batch processing event, observed at time `now`.
    ///
    /// The first `n_skipped_samples` batches are ignored. Later ones enter the sample
    /// window (the oldest sample leaves once `n_kept_samples` are held), and when the
    /// token bucket allows it (one refresh per refresh interval, at most two in a row,
    /// refilled at most once a second) the parameters are refit.
    pub fn log_batch(&mut self, batch_size: usize, wait_time: Span, duration: Span, now: Span)
        requires
            old(self).wf(),
            old(self).batch_count() < usize::MAX,
            old(self).n_skipped_spec() + 4 <= usize::MAX,
        ensures
            final(self).wf(),
            final(self).batch_count() == old(self).batch_count() + 1,
            final(self).max_latency_spec() == old(self).max_latency_spec(),
            final(self).n_kept_spec() == old(self).n_kept_spec(),
            final(self).n_skipped_spec() == old(self).n_skipped_spec(),
            final(self).refresh_interval_spec() == old(self).refresh_interval_spec(),
            old(self).o_a_spec() > 0 ==> final(self).o_a_spec() > 0,
            old(self).batch_count() + 1 <= old(self).n_skipped_spec() ==> {
                &&& final(self).samples_spec() == old(self).samples_spec()
                &&& final(self).params_spec() == old(self).params_spec()
                &&& final(self).bucket_spec() == old(self).bucket_spec()
            },
            old(self).batch_count() + 1 > old(self).n_skipped_spec() ==> {
                let s = window_push(
                    old(self).samples_spec(),
                    OptimizationSample { batch_size, duration, wait_time, timestamp: now },
                    old(self).n_kept_spec(),
                );
                &&& final(self).samples_spec() == s
                &&& final(self).bucket_spec() == after_consume(
                    old(self).bucket_spec(),
                    NANOS_PER_SEC as nat,
                    now,
                )
                &&& final(self).params_spec() == if can_consume(
                    old(self).bucket_spec(),
                    NANOS_PER_SEC as nat,
                    now,
                ) {
                    refreshed_params(s, old(self).params_spec())
                } else {
                    old(self).params_spec()
                }
            },
    {
        self.batch_counter = self.batch_counter + 1;
        if self.batch_counter <= self.n_skipped_samples + 4 {
            if self.batch_counter <= self.n_skipped_samples {
                return;
            }
        }
        let sample = OptimizationSample { batch_size, duration, wait_time, timestamp: now };
        if self.samples.len() >= self.n_kept_samples {
            let _ = self.samples.pop_front();
        }
        self.samples.push_back(sample);
        if self.refresh_bucket.consume(Span::from_secs(1), now) {
            let ghost kept = self.samples_spec();
            let ghost before = self.params_spec();
            self.refresh_parameters();
            proof {
                if fit_of(kept) is Some {
                    lemma_refresh_bounds(kept, before);
                }
            }
        }
    }

    /// Whether `log_batch` may be called: its batch counter and skip limit stay within
    /// `usize`.
    pub fn can_log_batch(&self) -> (b: bool)
        ensures
            b == (self.batch_count() < usize::MAX && self.n_skipped_spec() + 4 <= usize::MAX),
    {
        self.batch_counter < usize::MAX && self.n_skipped_samples <= usize::MAX - 4
    }

    /// Whether `estimate_duration(batch_size)` stays within the range of a `Span`.
    pub fn can_estimate(&self, batch_size: usize) -> (b: bool)
        ensures
            b == (self.o_a_spec() * batch_size + self.o_b_spec() <= SPAN_MAX_NANOS),
    {
        match self.o_a.checked_mul(batch_size as u128) {
            Some(p) => match p.checked_add(self.o_b) {
                Some(t) => t <= SPAN_MAX_NANOS,
                None => false,
            },
            None => {
                assert(self.o_a * batch_size + self.o_b > SPAN_MAX_NANOS);
                false
            },
        }
    }

    /// Whether the estimated cost of a single item, `o_a + o_b`, already reaches the
    /// latency bound, so that the bound may be too low for serving.
    pub fn latency_bound_at_risk(&self) -> (b: bool)
        ensures
            b == (self.o_a_spec() + self.o_b_spec() >= self.max_latency_spec()@),
    {
        let lat = self.max_latency.as_nanos();
        match self.o_a.checked_add(self.o_b) {
            Some(t) => t >= lat,
            None => true,
        }
    }

    /// Estimated processing duration for a given batch size: `o_a · batch_size + o_b`.
    pub fn estimate_duration(&self, batch_size: usize) -> (d: Span)
        requires
            self.o_a_spec() * batch_size + self.o_b_spec() <= SPAN_MAX_NANOS,
        ensures
            d@ == self.o_a_spec() * batch_size + self.o_b_spec(),
    {
        assert(self.o_a * (batch_size as u128) <= SPAN_MAX_NANOS);
        let n = self.o_a * (batch_size as u128) + self.o_b;
        match Span::checked_from_nanos(n) {
            Some(d) => d,
            None => Span::zero(),
        }
    }

    /// The current wait time estimate.
    pub fn current_wait_time(&self) -> (d: Span)
        ensures
            d == self.wait_spec(),
    {
        self.wait_time
    }

    /// Whether waiting `current_wait` and then processing a batch of `batch_size` is
    /// estimated to take longer than the maximum latency.
    pub fn would_exceed_latency(&self, batch_size: usize, current_wait: Span) -> (b: bool)
        requires
            current_wait@ + self.o_a_spec() * batch_size + self.o_b_spec() <= SPAN_MAX_NANOS,
        ensures
            b == (current_wait@ + self.o_a_spec() * batch_size + self.o_b_spec()
                > self.max_latency_spec()@),
    {
        let estimated = self.estimate_duration(batch_size);
        let total = current_wait.add(estimated);
        total.as_nanos() > self.max_latency.as_nanos()
    }

    /// The number of samples kept.
    pub fn sample_count(&self) -> (n: usize)
        ensures
            n == self.samples_spec().len(),
    {
        self.samples.len()
    }

    /// The current parameters `(o_a, o_b, wait_time)`, in nanoseconds.
    pub fn parameters(&self) -> (p: (u128, u128, u128))
        ensures
            p.0 == self.params_spec().0,
            p.1 == self.params_spec().1,
            p.2 == self.params_spec().2,
    {
        (self.o_a, self.o_b, self.wait_time.as_nanos())
    }
}

/// For `0 <= a` and `0 < d`, the floor of `a / d` is below `m` exactly when `a < m·d`.
proof fn lemma_quotient_below(a: int, d: int, q: int)
    requires
        0 <= a,
        0 < d,
        q == a / d,
    ensures
        (q < MIN_SLOPE_NANOS) == (a < MIN_SLOPE_NANOS * d),
{
    vstd::arithmetic::div_mod::lemma_fundamental_div_mod(a, d);
    let r = a % d;
    assert(0 <= r < d) by {
        vstd::arithmetic::div_mod::lemma_mod_bound(a, d);
    }
    assert((q < 1000) == (a < 1000 * d)) by (nonlinear_arith)
        requires
            a == d * q + r,
            0 <= r < d,
            0 < d,
    ;
}

/// Law: recording a sample in the window is a push into a ring of `window_capacity`
/// slots, so (by `lemma_replay_keeps_most_recent`) the window always holds the most
/// recent `window_capacity(n_kept_samples)` recorded samples, oldest first.
pub proof fn lemma_window_push_is_ring_push(
    s: Seq<OptimizationSample>,
    e: OptimizationSample,
    kept: nat,
)
    requires
        s.len() <= window_capacity(kept),
    ensures
        window_push(s, e, kept) == push_step(s, e, window_capacity(kept)),
{
}

/// `q` is the floor of `x / d`, for `d > 0`.
proof fn lemma_floor_div(x: int, d: int)
    requires
        d > 0,
        x >= 0,
    ensures
        (x / d) * d <= x < (x / d + 1) * d,
        x / d >= 0,
{
    vstd::arithmetic::div_mod::lemma_fundamental_div_mod(x, d);
    vstd::arithmetic::div_mod::lemma_mod_bound(x, d);
    vstd::arithmetic::div_mod::lemma_div_pos_is_pos(x, d);
    vstd::arithmetic::mul::lemma_mul_is_commutative(d, x / d);
    vstd::arithmetic::mul::lemma_mul_is_distributive_add_other_way(d, x / d, 1);
}

/// Law: a successful refit rounds the fitted line down to whole nanoseconds and clamps
/// it: `o_b` is the fitted intercept rounded down, or 0 when the intercept is negative;
/// `o_a` is the fitted slope rounded down, or one microsecond per item when the slope is
/// below that; the wait time is the samples' mean wait rounded down.
#[verifier::spinoff_prover]
pub proof fn lemma_refit_rounds_and_clamps(s: Seq<OptimizationSample>, p: (nat, nat, nat))
    requires
        fit_of(s) is Some,
    ensures
        ({
            let f = fit_of(s)->0;
            let q = refreshed_params(s, p);
            let d = f.denominator as int;
            &&& d > 0
            &&& f.intercept_num < 0 ==> q.1 == 0
            &&& f.intercept_num >= 0 ==> q.1 * d <= f.intercept_num < (q.1 + 1) * d
            &&& q.1 * d <= if f.intercept_num >= 0 { f.intercept_num as int } else { 0 }
            &&& f.slope_num < MIN_SLOPE_NANOS * d ==> q.0 == MIN_SLOPE_NANOS
            &&& f.slope_num >= MIN_SLOPE_NANOS * d ==> q.0 * d <= f.slope_num < (q.0 + 1) * d
            &&& q.2 * s.len() <= sum_wait(s) < (q.2 + 1) * s.len()
        }),
{
    let f = fit_of(s)->0;
    let d = f.denominator as int;
    assert(s.len() > 0) by {
        if s.len() == 0 {
            assert(crate::regression::fit_det(s) <= 0);
        }
    }
    let q = refreshed_params(s, p);
    assert(q == (clamped_slope(f), clamped_intercept(f), sum_wait(s) / s.len()));
    if f.intercept_num >= 0 {
        lemma_floor_div(f.intercept_num as int, d);
        assert(q.1 == f.intercept_num as int / d);
    } else {
        assert(q.1 == 0);
    }
    if f.slope_num >= MIN_SLOPE_NANOS * d {
        lemma_floor_div(f.slope_num as int, d);
        assert(q.0 == f.slope_num as int / d);
    }
    lemma_floor_div(sum_wait(s) as int, s.len() as int);
    assert(q.2 == sum_wait(s) as int / s.len() as int);
}

/// Law: a successful refresh never sets `o_a` below one microsecond per item, and
/// `o_b` and the average wait time come from the samples alone.
pub proof fn lemma_refresh_bounds(s: Seq<OptimizationSample>, p: (nat, nat, nat))
    requires
        fit_of(s) is Some,
    ensures
        refreshed_params(s, p).0 >= MIN_SLOPE_NANOS,
        refreshed_params(s, p) == refreshed_params(s, (0, 0, 0)),
{
    let f = fit_of(s)->0;
    if f.slope_num >= MIN_SLOPE_NANOS * f.denominator {
        vstd::arithmetic::div_mod::lemma_div_is_ordered(
            (MIN_SLOPE_NANOS * f.denominator) as int,
            f.slope_num as int,
            f.denominator as int,
        );
        vstd::arithmetic::div_mod::lemma_div_multiples_vanish(
            MIN_SLOPE_NANOS as int,
            f.denominator as int,
        );
        vstd::arithmetic::mul::lemma_mul_is_commutative(
            MIN_SLOPE_NANOS as int,
            f.denominator as int,
        );
    }
}

} // verus!
